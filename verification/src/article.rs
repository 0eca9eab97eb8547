//! Articles, the provider's records, and the way from one to the other.

use crate::country::{iso_name_text, to_country, Country};
use crate::time::{seen_date_seconds, timestamp_of, to_datetime, Timestamp, TimestampError};
use vstd::prelude::*;

verus! {

/// An article as the pipeline keeps it.
#[derive(Debug)]
pub struct NewsArticle {
    pub title: String,
    pub category: String,
    pub datetime: Timestamp,
    pub url: String,
    pub domain: String,
    pub language: String,
    pub country: Country,
}

/// What an article says, field by field.
pub struct ArticleView {
    pub title: Seq<char>,
    pub category: Seq<char>,
    pub datetime: int,
    pub url: Seq<char>,
    pub domain: Seq<char>,
    pub language: Seq<char>,
    pub country: Seq<char>,
}

impl View for NewsArticle {
    type V = ArticleView;

    open spec fn view(&self) -> ArticleView {
        ArticleView {
            title: self.title@,
            category: self.category@,
            datetime: self.datetime@,
            url: self.url@,
            domain: self.domain@,
            language: self.language@,
            country: self.country@,
        }
    }
}

/// What each article of `articles` says, in the same order.
pub open spec fn article_views(articles: Seq<NewsArticle>) -> Seq<ArticleView> {
    articles.map_values(|a: NewsArticle| a@)
}

impl NewsArticle {
    /// An article of the given fields.
    pub fn new(
        title: String,
        category: String,
        datetime: Timestamp,
        url: String,
        domain: String,
        language: String,
        country: Country,
    ) -> (article: NewsArticle)
        ensures
            article.title == title,
            article.category == category,
            article.datetime == datetime,
            article.url == url,
            article.domain == domain,
            article.language == language,
            article.country == country,
    {
        NewsArticle { title, category, datetime, url, domain, language, country }
    }
}

impl Clone for NewsArticle {
    fn clone(&self) -> (copy: NewsArticle)
        ensures
            copy@ == self@,
    {
        NewsArticle {
            title: self.title.clone(),
            category: self.category.clone(),
            datetime: self.datetime,
            url: self.url.clone(),
            domain: self.domain.clone(),
            language: self.language.clone(),
            country: self.country.clone(),
        }
    }
}

/// One record of the provider's article list, as it arrives.
#[derive(Debug)]
pub struct GDeltaArticle {
    pub url: String,
    pub title: String,
    pub seendate: String,
    pub domain: String,
    pub language: String,
    pub sourcecountry: String,
}

/// What a provider record says, field by field.
pub struct RecordView {
    pub url: Seq<char>,
    pub title: Seq<char>,
    pub seendate: Seq<char>,
    pub domain: Seq<char>,
    pub language: Seq<char>,
    pub sourcecountry: Seq<char>,
}

impl View for GDeltaArticle {
    type V = RecordView;

    open spec fn view(&self) -> RecordView {
        RecordView {
            url: self.url@,
            title: self.title@,
            seendate: self.seendate@,
            domain: self.domain@,
            language: self.language@,
            sourcecountry: self.sourcecountry@,
        }
    }
}

/// What each record of `records` says, in the same order.
pub open spec fn record_views(records: Seq<GDeltaArticle>) -> Seq<RecordView> {
    records.map_values(|r: GDeltaArticle| r@)
}

/// Why a provider record did not become an article.
#[derive(Clone, Copy, Debug, PartialEq, Eq, Structural)]
pub enum Rejection {
    /// Its date is not in the provider's notation.
    UnreadableDate,
    /// Its date lies outside the years 0000 to 9999.
    DateOutOfSpan,
    /// Its country name is not the name of the country that was asked for.
    ForeignCountry,
}

/// The article that `record` becomes in a search for `category` in `country`,
/// or the reason it is dropped. The date is looked at first.
pub open spec fn normalized(
    record: RecordView,
    category: Seq<char>,
    country: Seq<char>,
) -> Result<ArticleView, Rejection> {
    match timestamp_of(seen_date_seconds(record.seendate)) {
        Err(TimestampError::Unreadable) => Err(Rejection::UnreadableDate),
        Err(TimestampError::OutOfSpan) => Err(Rejection::DateOutOfSpan),
        Ok(secs) => if record.sourcecountry == iso_name_text(country) {
            Ok(
                ArticleView {
                    title: record.title,
                    category: category,
                    datetime: secs,
                    url: record.url,
                    domain: record.domain,
                    language: record.language,
                    country: country,
                },
            )
        } else {
            Err(Rejection::ForeignCountry)
        },
    }
}

/// The articles that `records` become, in their order, the dropped ones left
/// out.
pub open spec fn normalized_all(
    records: Seq<RecordView>,
    category: Seq<char>,
    country: Seq<char>,
) -> Seq<ArticleView>
    decreases records.len(),
{
    if records.len() == 0 {
        Seq::empty()
    } else {
        let before = normalized_all(records.drop_last(), category, country);
        match normalized(records.last(), category, country) {
            Ok(article) => before.push(article),
            Err(_) => before,
        }
    }
}

/// Every article that comes of `records` is of the category and the country
/// that were asked for, and there are no more articles than records.
pub proof fn lemma_normalized_all_keeps_query(records: Seq<RecordView>, category: Seq<char>, country: Seq<char>)
    ensures
        normalized_all(records, category, country).len() <= records.len(),
        forall|k: int|
            0 <= k < normalized_all(records, category, country).len() ==> {
                let article = #[trigger] normalized_all(records, category, country)[k];
                article.category == category && article.country == country
            },
    decreases records.len(),
{
    if records.len() > 0 {
        lemma_normalized_all_keeps_query(records.drop_last(), category, country);
    }
}

/// Whether `made` is the article or the rejection that `expected` describes.
pub open spec fn is_normalized(
    made: Result<NewsArticle, Rejection>,
    expected: Result<ArticleView, Rejection>,
) -> bool {
    match (made, expected) {
        (Ok(article), Ok(view)) => article@ == view,
        (Err(e), Err(f)) => e == f,
        _ => false,
    }
}

/// The article of `category` that `record` becomes once its date has been
/// read as `seen` and its country found to be `country`, or the reason it is
/// dropped. A date that was not read counts before a country that was not
/// found.
pub fn article_from(
    record: &GDeltaArticle,
    category: &String,
    seen: Result<Timestamp, TimestampError>,
    country: Option<Country>,
) -> (made: Result<NewsArticle, Rejection>)
    ensures
        match (seen, country) {
            (Err(TimestampError::Unreadable), _) => made == Err::<NewsArticle, Rejection>(
                Rejection::UnreadableDate,
            ),
            (Err(TimestampError::OutOfSpan), _) => made == Err::<NewsArticle, Rejection>(
                Rejection::DateOutOfSpan,
            ),
            (Ok(_), None) => made == Err::<NewsArticle, Rejection>(Rejection::ForeignCountry),
            (Ok(datetime), Some(found)) => made matches Ok(article) && article@ == (ArticleView {
                title: record.title@,
                category: category@,
                datetime: datetime@,
                url: record.url@,
                domain: record.domain@,
                language: record.language@,
                country: found@,
            }),
        },
{
    let datetime = match seen {
        Ok(t) => t,
        Err(TimestampError::Unreadable) => {
            return Err(Rejection::UnreadableDate);
        },
        Err(TimestampError::OutOfSpan) => {
            return Err(Rejection::DateOutOfSpan);
        },
    };
    match country {
        Some(country) => Ok(
            NewsArticle {
                title: record.title.clone(),
                category: category.clone(),
                datetime,
                url: record.url.clone(),
                domain: record.domain.clone(),
                language: record.language.clone(),
                country,
            },
        ),
        None => Err(Rejection::ForeignCountry),
    }
}

/// Turns one provider record into an article of `category`, seen in
/// `source_country`, or says why not.
pub fn normalize(
    record: &GDeltaArticle,
    category: &String,
    source_country: &Country,
) -> (made: Result<NewsArticle, Rejection>)
    ensures
        is_normalized(made, normalized(record@, category@, source_country@)),
{
    let seen = to_datetime(&record.seendate);
    let country = to_country(&record.sourcecountry, source_country);
    article_from(record, category, seen, country)
}

/// The articles among `articles`, in their order: each record whose date reads
/// and whose country is `source_country` becomes one, every other is left out.
pub fn to_news_article(
    articles: Vec<GDeltaArticle>,
    category: &String,
    source_country: &Country,
) -> (kept: Vec<NewsArticle>)
    ensures
        article_views(kept@) == normalized_all(record_views(articles@), category@, source_country@),
        kept.len() <= articles.len(),
{
    let mut kept: Vec<NewsArticle> = Vec::new();
    let mut i: usize = 0;
    while i < articles.len()
        invariant
            i <= articles.len(),
            kept.len() <= i,
            article_views(kept@) == normalized_all(
                record_views(articles@).take(i as int),
                category@,
                source_country@,
            ),
        decreases articles.len() - i,
    {
        let ghost records = record_views(articles@);
        proof {
            assert(records.take(i + 1).drop_last() == records.take(i as int));
        }
        match normalize(&articles[i], category, source_country) {
            Ok(article) => {
                kept.push(article);
            },
            Err(_) => {},
        }
        i += 1;
    }
    proof {
        assert(record_views(articles@).take(i as int) == record_views(articles@));
    }
    kept
}

} // verus!
