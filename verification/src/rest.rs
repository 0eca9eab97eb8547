//! What the two requests of the front end come to, once they are parsed.

use crate::article::NewsArticle;
use crate::ports::{Logger, NewsService, StorageError};
use crate::query::text_views;
use crate::time::{DateRange, DateRangeError, Timestamp};
use vstd::prelude::*;

verus! {

/// The request whether a category is allowed.
#[derive(Debug)]
pub struct CategoryQuery {
    pub category_name: String,
}

impl Default for CategoryQuery {
    fn default() -> (query: CategoryQuery)
        ensures
            query.category_name@ == Seq::<char>::empty(),
    {
        CategoryQuery { category_name: String::new() }
    }
}

/// The request for the stored articles of some categories: the categories in
/// one text with commas between them, and the first and the last instant of
/// interest.
#[derive(Debug)]
pub struct ArticleQuery {
    pub categories: String,
    pub inclusive_start_date: Timestamp,
    pub inclusive_end_date: Timestamp,
}

/// The pieces of `text` between its commas. A text without a comma is one
/// piece; a comma at either end, or two in a row, leave an empty piece.
pub open spec fn comma_pieces(text: Seq<char>) -> Seq<Seq<char>>
    decreases text.len(),
{
    if text.len() == 0 {
        seq![Seq::empty()]
    } else {
        let before = comma_pieces(text.drop_last());
        if text.last() == ',' {
            before.push(Seq::empty())
        } else {
            before.drop_last().push(before.last().push(text.last()))
        }
    }
}

/// The categories that a request names in one text, `"a,b"`.
pub fn split_categories(categories: &str) -> (names: Vec<String>)
    ensures
        text_views(names@) == comma_pieces(categories@),
{
    let n: usize = categories.unicode_len();
    let mut names: Vec<String> = Vec::new();
    let mut piece_start: usize = 0;
    let mut i: usize = 0;
    proof {
        assert(categories@.take(0) =~= Seq::empty());
        assert(comma_pieces(categories@.take(0)) =~= text_views(names@).push(
            categories@.subrange(0, 0),
        ));
    }
    while i < n
        invariant
            n == categories@.len(),
            piece_start <= i <= n,
            comma_pieces(categories@.take(i as int)) == text_views(names@).push(
                categories@.subrange(piece_start as int, i as int),
            ),
        decreases n - i,
    {
        let ghost piece = categories@.subrange(piece_start as int, i as int);
        proof {
            assert(categories@.take(i + 1).drop_last() == categories@.take(i as int));
        }
        if categories.get_char(i) == ',' {
            let name = String::from_str(categories.substring_char(piece_start, i));
            names.push(name);
            piece_start = i + 1;
            proof {
                assert(categories@.subrange(piece_start as int, i + 1) == Seq::<char>::empty());
            }
        } else {
            proof {
                assert(categories@.subrange(piece_start as int, i + 1) == piece.push(categories@[i as int]));
            }
        }
        i += 1;
    }
    let name = String::from_str(categories.substring_char(piece_start, n));
    names.push(name);
    proof {
        assert(categories@.take(n as int) == categories@);
    }
    names
}

/// The answer to the request whether a category is allowed: what the service
/// said, and no where it could not tell.
pub fn validity(answer: Result<bool, StorageError>) -> (valid: bool)
    ensures
        valid == (answer == Ok::<bool, StorageError>(true)),
{
    match answer {
        Ok(valid) => valid,
        Err(_) => false,
    }
}

/// The answer to the request for articles: what the service found, and no
/// articles where it could not answer.
pub fn articles_or_none(found: Result<Vec<NewsArticle>, StorageError>) -> (articles: Vec<NewsArticle>)
    ensures
        match found {
            Ok(list) => articles == list,
            Err(_) => articles@.len() == 0,
        },
{
    match found {
        Ok(list) => list,
        Err(_) => Vec::new(),
    }
}

/// The front end's two requests, answered through a [`NewsService`].
pub struct RestHandler<S, L> {
    logger: L,
    news_service: S,
    port: String,
}

impl<S: NewsService, L: Logger> RestHandler<S, L> {
    /// A handler for requests on `port`, answered by `news_service`.
    pub fn new(news_service: S, logger: L, port: String) -> (handler: Self)
        ensures
            handler.port_text() == port@,
            handler.held_service() == news_service,
            handler.held_logger() == logger,
    {
        RestHandler { logger, news_service, port }
    }

    /// The port, as it was given.
    pub closed spec fn port_text(&self) -> Seq<char> {
        self.port@
    }

    /// The service that the handler holds.
    pub closed spec fn held_service(&self) -> S {
        self.news_service
    }

    /// The logger that the handler holds.
    pub closed spec fn held_logger(&self) -> L {
        self.logger
    }

    /// The port on which the handler is to listen.
    pub fn port(&self) -> (port: &String)
        ensures
            port@ == self.port_text(),
    {
        &self.port
    }

    /// Whether the category of the request is allowed: yes where the service,
    /// asked about that category, says so, and no where it says no or cannot
    /// tell. The service is left as its answering left it.
    pub fn is_valid_category(&mut self, query: CategoryQuery) -> (valid: bool)
        ensures
            exists|service: &mut S, answer: Result<bool, StorageError>|
                *service == old(self).held_service() && *final(service) == final(self).held_service()
                    && call_ensures(S::is_valid_category, (service, query.category_name), answer)
                    && valid == (answer == Ok::<bool, StorageError>(true)),
            final(self).port_text() == old(self).port_text(),
            final(self).held_logger() == old(self).held_logger(),
    {
        validity(self.news_service.is_valid_category(query.category_name))
    }

    /// The stored articles of the request's categories, seen from its first
    /// to its last instant.
    ///
    /// A first instant that is not before the last is refused, and the
    /// service is not asked. Else the service is asked for the articles of
    /// the categories between the commas of the request, over the range from
    /// the first to the last instant. What it finds is the answer; a service
    /// that cannot answer counts as no articles. The service is left as its
    /// answering left it.
    pub fn get_articles_by_categories(
        &mut self,
        query: ArticleQuery,
    ) -> (found: Result<Vec<NewsArticle>, DateRangeError>)
        ensures
            found is Ok <==> query.inclusive_start_date@ < query.inclusive_end_date@,
            final(self).port_text() == old(self).port_text(),
            final(self).held_logger() == old(self).held_logger(),
            query.inclusive_start_date@ >= query.inclusive_end_date@ ==> found == Err::<
                Vec<NewsArticle>,
                DateRangeError,
            >(DateRangeError::InvalidDateRange) && final(self).held_service() == old(self).held_service(),
            query.inclusive_start_date@ < query.inclusive_end_date@ ==> exists|
                service: &mut S,
                categories: Vec<String>,
                range: DateRange,
                answer: Result<Vec<NewsArticle>, StorageError>,
            |
                *service == old(self).held_service() && *final(service) == final(self).held_service()
                    && text_views(categories@) == comma_pieces(query.categories@)
                    && range.start_seconds() == query.inclusive_start_date@
                    && range.end_seconds() == query.inclusive_end_date@
                    && call_ensures(S::get_articles_by_categories, (service, categories, range), answer)
                    && match answer {
                    Ok(list) => found == Ok::<Vec<NewsArticle>, DateRangeError>(list),
                    Err(_) => found matches Ok(none) && none@.len() == 0,
                },
    {
        let categories = split_categories(query.categories.as_str());
        let date_range = match DateRange::new(query.inclusive_start_date, query.inclusive_end_date) {
            Ok(range) => range,
            Err(error) => {
                self.logger.error("Start date must be before end date");
                return Err(error);
            },
        };
        self.logger.info("Getting articles for categories and date range");
        Ok(articles_or_none(self.news_service.get_articles_by_categories(categories, date_range)))
    }
}

} // verus!
