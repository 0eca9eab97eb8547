//! An article store held in memory: what is stored, what counts as the same
//! article, and what a batch of articles does to the store.

use crate::article::{article_views, ArticleView, NewsArticle};
use crate::country::Country;
use crate::ports::{NewsRepository, StorageError};
use crate::query::{country_views, text_views};
use crate::time::{DateRange, Timestamp};
use vstd::prelude::*;

verus! {

/// A stored article. Its category is not part of it: categories are linked.
#[derive(Debug)]
struct ArticleRow {
    title: String,
    domain: String,
    country: Country,
    seen_at: Timestamp,
    url: String,
    language: String,
}

/// What a stored article says, field by field.
pub struct RowView {
    pub title: Seq<char>,
    pub domain: Seq<char>,
    pub country: Seq<char>,
    pub seen_at: int,
    pub url: Seq<char>,
    pub language: Seq<char>,
}

impl View for ArticleRow {
    type V = RowView;

    closed spec fn view(&self) -> RowView {
        RowView {
            title: self.title@,
            domain: self.domain@,
            country: self.country@,
            seen_at: self.seen_at@,
            url: self.url@,
            language: self.language@,
        }
    }
}

/// The tie between a stored article and one of its categories.
#[derive(Debug)]
struct CategoryLink {
    article: usize,
    category: String,
}

impl View for CategoryLink {
    type V = (int, Seq<char>);

    closed spec fn view(&self) -> (int, Seq<char>) {
        (self.article as int, self.category@)
    }
}

/// What a store holds.
pub struct StoreContents {
    /// The stored articles; an article's place is its identifier.
    pub rows: Seq<RowView>,
    /// The links, each from an article's identifier to a category.
    pub links: Seq<(int, Seq<char>)>,
    /// The allowed categories.
    pub categories: Seq<Seq<char>>,
    /// The known countries, by alpha-3 code.
    pub countries: Seq<Seq<char>>,
}

/// Whether two rows have the same title, domain, country and second.
pub open spec fn same_key(a: RowView, b: RowView) -> bool {
    a.title == b.title && a.domain == b.domain && a.country == b.country && a.seen_at == b.seen_at
}

/// What holds of every store: no two articles share title, domain, country
/// and second, no two share an address, no link is there twice or leads
/// nowhere, and no category or country is listed twice.
pub open spec fn store_wf(s: StoreContents) -> bool {
    &&& forall|i: int, j: int|
        0 <= i < j < s.rows.len() ==> !same_key(#[trigger] s.rows[i], #[trigger] s.rows[j])
    &&& forall|i: int, j: int| 0 <= i < j < s.rows.len() ==> (#[trigger] s.rows[i]).url != (#[trigger] s.rows[j]).url
    &&& s.links.no_duplicates()
    &&& forall|l: int| 0 <= l < s.links.len() ==> 0 <= (#[trigger] s.links[l]).0 < s.rows.len()
    &&& s.categories.no_duplicates()
    &&& s.countries.no_duplicates()
}

/// The row that stores `article`.
pub open spec fn row_of(article: ArticleView) -> RowView {
    RowView {
        title: article.title,
        domain: article.domain,
        country: article.country,
        seen_at: article.datetime,
        url: article.url,
        language: article.language,
    }
}

/// The place of the first of `rows` that `fits`, if any does.
pub open spec fn first_index(rows: Seq<RowView>, fits: spec_fn(RowView) -> bool) -> Option<int>
    decreases rows.len(),
{
    if rows.len() == 0 {
        None
    } else {
        match first_index(rows.drop_last(), fits) {
            Some(i) => Some(i),
            None => if fits(rows.last()) {
                Some(rows.len() - 1)
            } else {
                None
            },
        }
    }
}

/// The stored article that `wanted` is taken to be: the one of the same title,
/// domain, country and second, or else the one of the same address.
pub open spec fn existing(rows: Seq<RowView>, wanted: RowView) -> Option<int> {
    match first_index(rows, |row: RowView| same_key(row, wanted)) {
        Some(i) => Some(i),
        None => first_index(rows, |row: RowView| row.url == wanted.url),
    }
}

/// What the store does with one article.
pub enum Outcome {
    /// It is new, and is stored under the given identifier.
    Inserted(int),
    /// It is already stored, under the given identifier.
    Existing(int),
    /// It cannot be stored: its country is not known to the store.
    Rejected,
}

/// What the store `s` does with `article`.
pub open spec fn upsert_outcome(s: StoreContents, article: ArticleView) -> Outcome {
    match existing(s.rows, row_of(article)) {
        Some(i) => Outcome::Existing(i),
        None => if s.countries.contains(article.country) {
            Outcome::Inserted(s.rows.len() as int)
        } else {
            Outcome::Rejected
        },
    }
}

/// The links with `link` among them, once.
pub open spec fn with_link(links: Seq<(int, Seq<char>)>, link: (int, Seq<char>)) -> Seq<(int, Seq<char>)> {
    if links.contains(link) {
        links
    } else {
        links.push(link)
    }
}

/// The store after `article` was handed to it: a new article is stored, a
/// stored or new one is linked to its category unless it already is, and a
/// rejected one leaves no trace.
pub open spec fn after_upsert(s: StoreContents, article: ArticleView) -> StoreContents {
    match upsert_outcome(s, article) {
        Outcome::Inserted(id) => StoreContents {
            rows: s.rows.push(row_of(article)),
            links: with_link(s.links, (id, article.category)),
            ..s
        },
        Outcome::Existing(id) => StoreContents { links: with_link(s.links, (id, article.category)), ..s },
        Outcome::Rejected => s,
    }
}

/// The store after the articles of a batch were handed to it one by one.
pub open spec fn after_batch(s: StoreContents, articles: Seq<ArticleView>) -> StoreContents
    decreases articles.len(),
{
    if articles.len() == 0 {
        s
    } else {
        after_upsert(after_batch(s, articles.drop_last()), articles.last())
    }
}

/// Whether handing `article` to the store `s` adds something to it: the
/// article itself, or the link from an article that is stored already to the
/// category of `article`.
pub open spec fn adds(s: StoreContents, article: ArticleView) -> bool {
    match upsert_outcome(s, article) {
        Outcome::Inserted(_) => true,
        Outcome::Existing(id) => !s.links.contains((id, article.category)),
        Outcome::Rejected => false,
    }
}

/// How a batch went.
#[derive(Clone, Copy, Debug, PartialEq, Eq, Structural)]
pub struct UpsertReport {
    /// The articles for which something was added to the store: the article
    /// itself, or a link from it to its category.
    pub added: usize,
    /// The articles that are now stored and linked to their category, new or
    /// not.
    pub stored: usize,
    /// Those among them that were new.
    pub inserted: usize,
    /// The articles that were rejected and skipped.
    pub rejected: usize,
}

/// How many articles of a batch met each fate.
pub struct Counts {
    pub added: int,
    pub stored: int,
    pub inserted: int,
    pub rejected: int,
}

/// The count of a batch handed to the store `s`.
pub open spec fn batch_counts(s: StoreContents, articles: Seq<ArticleView>) -> Counts
    decreases articles.len(),
{
    if articles.len() == 0 {
        Counts { added: 0, stored: 0, inserted: 0, rejected: 0 }
    } else {
        let before = batch_counts(s, articles.drop_last());
        let store = after_batch(s, articles.drop_last());
        let added = if adds(store, articles.last()) {
            before.added + 1
        } else {
            before.added
        };
        match upsert_outcome(store, articles.last()) {
            Outcome::Inserted(_) => Counts {
                added,
                stored: before.stored + 1,
                inserted: before.inserted + 1,
                rejected: before.rejected,
            },
            Outcome::Existing(_) => Counts { added, stored: before.stored + 1, ..before },
            Outcome::Rejected => Counts { added, rejected: before.rejected + 1, ..before },
        }
    }
}

/// What a repository did for one article of a batch.
#[derive(Clone, Copy, Debug, PartialEq, Eq, Structural)]
pub enum Written {
    /// The article was stored or found stored, and linked or found linked to
    /// its category; the two flags say whether its row and whether its link
    /// was added.
    Done { row_added: bool, link_added: bool },
    /// The article could not be written and was skipped.
    Skipped,
}

/// The count of a batch for whose articles a repository did `written`, one
/// after the other.
pub open spec fn counts_of(written: Seq<Written>) -> Counts
    decreases written.len(),
{
    if written.len() == 0 {
        Counts { added: 0, stored: 0, inserted: 0, rejected: 0 }
    } else {
        let before = counts_of(written.drop_last());
        match written.last() {
            Written::Done { row_added, link_added } => Counts {
                added: if row_added || link_added {
                    before.added + 1
                } else {
                    before.added
                },
                stored: before.stored + 1,
                inserted: if row_added {
                    before.inserted + 1
                } else {
                    before.inserted
                },
                rejected: before.rejected,
            },
            Written::Skipped => Counts { rejected: before.rejected + 1, ..before },
        }
    }
}

/// The report on a batch for whose articles a repository did `written`, one
/// after the other: an article counts as added to where its row or its link
/// was added, as stored where it was not skipped, and as new where its row
/// was added.
pub fn report_of(written: &Vec<Written>) -> (report: UpsertReport)
    ensures
        report.added == counts_of(written@).added,
        report.stored == counts_of(written@).stored,
        report.inserted == counts_of(written@).inserted,
        report.rejected == counts_of(written@).rejected,
        report.stored + report.rejected == written.len(),
        report.inserted <= report.added <= report.stored,
{
    let mut report = UpsertReport { added: 0, stored: 0, inserted: 0, rejected: 0 };
    let mut i: usize = 0;
    while i < written.len()
        invariant
            i <= written.len(),
            report.added == counts_of(written@.take(i as int)).added,
            report.stored == counts_of(written@.take(i as int)).stored,
            report.inserted == counts_of(written@.take(i as int)).inserted,
            report.rejected == counts_of(written@.take(i as int)).rejected,
            report.stored + report.rejected == i,
            report.inserted <= report.added <= report.stored,
        decreases written.len() - i,
    {
        proof {
            assert(written@.take(i + 1).drop_last() == written@.take(i as int));
        }
        match written[i] {
            Written::Done { row_added, link_added } => {
                report.stored = report.stored + 1;
                if row_added {
                    report.inserted = report.inserted + 1;
                }
                if row_added || link_added {
                    report.added = report.added + 1;
                }
            },
            Written::Skipped => {
                report.rejected = report.rejected + 1;
            },
        }
        i += 1;
    }
    proof {
        assert(written@.take(i as int) == written@);
    }
    report
}

/// The article that the row `row` is under the category `category`.
pub open spec fn article_of(row: RowView, category: Seq<char>) -> ArticleView {
    ArticleView {
        title: row.title,
        category: category,
        datetime: row.seen_at,
        url: row.url,
        domain: row.domain,
        language: row.language,
        country: row.country,
    }
}

/// Whether the link `link` brings its article into a selection by
/// `categories` over the seconds from `start` to `end`, both included.
pub open spec fn selects(
    rows: Seq<RowView>,
    link: (int, Seq<char>),
    categories: Seq<Seq<char>>,
    start: int,
    end: int,
) -> bool {
    &&& categories.contains(link.1)
    &&& 0 <= link.0 < rows.len()
    &&& start <= rows[link.0].seen_at <= end
}

/// The articles that `links` bring into a selection, link by link: each under
/// the category of its link, so that an article linked to two of the
/// categories comes twice.
pub open spec fn selected(
    rows: Seq<RowView>,
    links: Seq<(int, Seq<char>)>,
    categories: Seq<Seq<char>>,
    start: int,
    end: int,
) -> Seq<ArticleView>
    decreases links.len(),
{
    if links.len() == 0 {
        Seq::empty()
    } else {
        let before = selected(rows, links.drop_last(), categories, start, end);
        if selects(rows, links.last(), categories, start, end) {
            before.push(article_of(rows[links.last().0], links.last().1))
        } else {
            before
        }
    }
}

/// `first_index` finds a row that fits, and none before it does; where it
/// finds nothing, no row fits.
pub proof fn lemma_first_index(rows: Seq<RowView>, fits: spec_fn(RowView) -> bool)
    ensures
        match first_index(rows, fits) {
            Some(i) => 0 <= i < rows.len() && fits(rows[i]) && forall|j: int| 0 <= j < i ==> !fits(rows[j]),
            None => forall|j: int| 0 <= j < rows.len() ==> !fits(rows[j]),
        },
    decreases rows.len(),
{
    if rows.len() > 0 {
        lemma_first_index(rows.drop_last(), fits);
        assert forall|j: int| 0 <= j < rows.len() - 1 implies rows.drop_last()[j] == rows[j] by {}
    }
}

/// Wherever a row fits and none before it does, `first_index` finds that row.
pub proof fn lemma_first_index_is(rows: Seq<RowView>, fits: spec_fn(RowView) -> bool, i: int)
    requires
        0 <= i < rows.len(),
        fits(rows[i]),
        forall|j: int| 0 <= j < i ==> !fits(rows[j]),
    ensures
        first_index(rows, fits) == Some(i),
{
    lemma_first_index(rows, fits);
}

/// Handing a store the same article a second time changes nothing. The
/// article is stored once and linked to its category once: the second time it
/// is found under the identifier it got the first time, no row and no link is
/// added, and a rejected article is rejected again.
pub proof fn lemma_upsert_twice(s: StoreContents, article: ArticleView)
    requires
        store_wf(s),
    ensures
        after_upsert(after_upsert(s, article), article) == after_upsert(s, article),
        !adds(after_upsert(s, article), article),
        match upsert_outcome(s, article) {
            Outcome::Inserted(id) => upsert_outcome(after_upsert(s, article), article) == Outcome::Existing(id),
            Outcome::Existing(id) => upsert_outcome(after_upsert(s, article), article) == Outcome::Existing(id),
            Outcome::Rejected => upsert_outcome(after_upsert(s, article), article) == Outcome::Rejected,
        },
{
    let wanted = row_of(article);
    let once = after_upsert(s, article);
    let by_key = |row: RowView| same_key(row, wanted);
    let by_url = |row: RowView| row.url == wanted.url;
    lemma_first_index(s.rows, by_key);
    lemma_first_index(s.rows, by_url);
    match upsert_outcome(s, article) {
        Outcome::Inserted(id) => {
            assert(once.rows[id] == wanted);
            assert forall|j: int| 0 <= j < id implies !by_key(once.rows[j]) by {
                assert(once.rows[j] == s.rows[j]);
            }
            assert(by_key(once.rows[id]));
            lemma_first_index_is(once.rows, by_key, id);
            lemma_with_link_twice(s.links, (id, article.category));
        },
        Outcome::Existing(id) => {
            lemma_with_link_twice(s.links, (id, article.category));
        },
        Outcome::Rejected => {},
    }
}

/// A link that is put among the links a second time is already there.
pub proof fn lemma_with_link_twice(links: Seq<(int, Seq<char>)>, link: (int, Seq<char>))
    ensures
        with_link(links, link).contains(link),
        with_link(with_link(links, link), link) == with_link(links, link),
{
    if !links.contains(link) {
        assert(links.push(link)[links.len() as int] == link);
    }
}

/// A batch of the one article that the batch before it consisted of adds no
/// article and no link, and reports so: its count of articles for which
/// something was added is 0. It once more counts the article as stored, or
/// once more as rejected.
pub proof fn lemma_second_batch_adds_nothing(s: StoreContents, article: ArticleView)
    requires
        store_wf(s),
    ensures
        after_batch(after_batch(s, seq![article]), seq![article]) == after_batch(s, seq![article]),
        batch_counts(after_batch(s, seq![article]), seq![article]).added == 0,
        batch_counts(after_batch(s, seq![article]), seq![article]).inserted == 0,
        batch_counts(after_batch(s, seq![article]), seq![article]).stored == batch_counts(
            s,
            seq![article],
        ).stored,
        batch_counts(after_batch(s, seq![article]), seq![article]).rejected == batch_counts(
            s,
            seq![article],
        ).rejected,
{
    let batch = seq![article];
    assert(batch.drop_last() =~= Seq::empty());
    assert(batch.last() == article);
    assert(after_batch(s, batch.drop_last()) == s);
    let once = after_batch(s, batch);
    assert(once == after_upsert(s, article));
    assert(after_batch(once, batch.drop_last()) == once);
    lemma_upsert_twice(s, article);
    assert(batch_counts(s, batch.drop_last()).stored == 0);
    assert(batch_counts(once, batch.drop_last()).stored == 0);
}

/// A rejected article is skipped, and nothing else: the batch leaves the store
/// as the batch without that article would, with as many articles stored and
/// as many of them new, and one more rejected.
pub proof fn lemma_rejected_is_skipped(s: StoreContents, articles: Seq<ArticleView>, k: int)
    requires
        0 <= k < articles.len(),
        upsert_outcome(after_batch(s, articles.take(k)), articles[k]) is Rejected,
    ensures
        after_batch(s, articles) == after_batch(s, articles.remove(k)),
        batch_counts(s, articles).added == batch_counts(s, articles.remove(k)).added,
        batch_counts(s, articles).stored == batch_counts(s, articles.remove(k)).stored,
        batch_counts(s, articles).inserted == batch_counts(s, articles.remove(k)).inserted,
        batch_counts(s, articles).rejected == batch_counts(s, articles.remove(k)).rejected + 1,
    decreases articles.len(),
{
    if k == articles.len() - 1 {
        assert(articles.remove(k) == articles.drop_last());
        assert(articles.take(k) == articles.drop_last());
    } else {
        let shorter = articles.drop_last();
        assert(shorter.take(k) == articles.take(k));
        lemma_rejected_is_skipped(s, shorter, k);
        assert(articles.remove(k).drop_last() == shorter.remove(k));
        assert(articles.remove(k).last() == articles.last());
    }
}

/// Every article of a batch is either stored or rejected.
pub proof fn lemma_batch_counts_add_up(s: StoreContents, articles: Seq<ArticleView>)
    ensures
        batch_counts(s, articles).stored + batch_counts(s, articles).rejected == articles.len(),
        0 <= batch_counts(s, articles).inserted <= batch_counts(s, articles).added <= batch_counts(
            s,
            articles,
        ).stored,
        0 <= batch_counts(s, articles).rejected,
    decreases articles.len(),
{
    if articles.len() > 0 {
        lemma_batch_counts_add_up(s, articles.drop_last());
    }
}

/// Whatever is handed to a store, it stays a store: the uniqueness of its
/// articles, links, categories and countries holds on.
pub proof fn lemma_upsert_keeps_store(s: StoreContents, article: ArticleView)
    requires
        store_wf(s),
    ensures
        store_wf(after_upsert(s, article)),
{
    let wanted = row_of(article);
    let once = after_upsert(s, article);
    lemma_first_index(s.rows, |row: RowView| same_key(row, wanted));
    lemma_first_index(s.rows, |row: RowView| row.url == wanted.url);
    match upsert_outcome(s, article) {
        Outcome::Inserted(id) => {
            lemma_with_link_keeps_links(s.links, (id, article.category), once.rows.len() as int);
            assert forall|i: int, j: int| 0 <= i < j < once.rows.len() implies !same_key(
                #[trigger] once.rows[i],
                #[trigger] once.rows[j],
            ) by {
                if j < s.rows.len() {
                    assert(!same_key(s.rows[i], s.rows[j]));
                } else {
                    assert(!same_key(s.rows[i], wanted));
                }
            }
            assert forall|i: int, j: int| 0 <= i < j < once.rows.len() implies (#[trigger] once.rows[i]).url != (
            #[trigger] once.rows[j]).url by {
                if j < s.rows.len() {
                    assert(s.rows[i].url != s.rows[j].url);
                } else {
                    assert(s.rows[i].url != wanted.url);
                }
            }
        },
        Outcome::Existing(id) => {
            lemma_with_link_keeps_links(s.links, (id, article.category), s.rows.len() as int);
        },
        Outcome::Rejected => {},
    }
}

/// A list without repetition stays one when something that is not in it is
/// put at its end.
pub proof fn lemma_push_keeps_distinct<T>(list: Seq<T>, item: T)
    requires
        list.no_duplicates(),
        !list.contains(item),
    ensures
        list.push(item).no_duplicates(),
{
    let now = list.push(item);
    assert forall|i: int, j: int| 0 <= i < now.len() && 0 <= j < now.len() && i != j implies now[i] != now[j] by {
        if i < list.len() && j < list.len() {
            assert(list[i] != list[j]);
        } else if i < list.len() {
            assert(list.contains(list[i]));
        } else {
            assert(list.contains(list[j]));
        }
    }
}

/// Links that are all different and lead to stored articles stay so once
/// `link`, which leads to one too, is among them.
pub proof fn lemma_with_link_keeps_links(links: Seq<(int, Seq<char>)>, link: (int, Seq<char>), rows: int)
    requires
        0 <= link.0 < rows,
        links.no_duplicates(),
        forall|l: int| 0 <= l < links.len() ==> 0 <= (#[trigger] links[l]).0 < rows,
    ensures
        with_link(links, link).no_duplicates(),
        forall|l: int|
            0 <= l < with_link(links, link).len() ==> 0 <= (#[trigger] with_link(links, link)[l]).0 < rows,
{
    if !links.contains(link) {
        lemma_push_keeps_distinct(links, link);
    }
}

/// A store only grows: what is handed to it changes no stored article and
/// takes none away, keeps every link, and leaves the categories and the
/// countries as they are.
pub proof fn lemma_upsert_only_appends(s: StoreContents, article: ArticleView)
    ensures
        s.rows.is_prefix_of(after_upsert(s, article).rows),
        s.links.is_prefix_of(after_upsert(s, article).links),
        after_upsert(s, article).categories == s.categories,
        after_upsert(s, article).countries == s.countries,
{
}

/// A batch, too, only makes a store grow.
pub proof fn lemma_batch_only_appends(s: StoreContents, articles: Seq<ArticleView>)
    ensures
        s.rows.is_prefix_of(after_batch(s, articles).rows),
        s.links.is_prefix_of(after_batch(s, articles).links),
        after_batch(s, articles).categories == s.categories,
        after_batch(s, articles).countries == s.countries,
    decreases articles.len(),
{
    if articles.len() > 0 {
        let before = after_batch(s, articles.drop_last());
        lemma_batch_only_appends(s, articles.drop_last());
        lemma_upsert_only_appends(before, articles.last());
    }
}

/// Whatever a selection holds is an article of one of the categories that
/// were asked for, seen within the range that was asked for, both ends
/// included.
pub proof fn lemma_selected_is_within(
    rows: Seq<RowView>,
    links: Seq<(int, Seq<char>)>,
    categories: Seq<Seq<char>>,
    start: int,
    end: int,
)
    ensures
        forall|k: int|
            0 <= k < selected(rows, links, categories, start, end).len() ==> {
                let article = #[trigger] selected(rows, links, categories, start, end)[k];
                categories.contains(article.category) && start <= article.datetime <= end
            },
    decreases links.len(),
{
    if links.len() > 0 {
        let all = selected(rows, links, categories, start, end);
        let before = selected(rows, links.drop_last(), categories, start, end);
        lemma_selected_is_within(rows, links.drop_last(), categories, start, end);
        assert forall|k: int| 0 <= k < all.len() implies {
            let article = #[trigger] all[k];
            categories.contains(article.category) && start <= article.datetime <= end
        } by {
            if k < before.len() {
                assert(all[k] == before[k]);
            }
        }
    }
}

/// Whatever is handed to a store one after the other, it stays a store.
pub proof fn lemma_batch_keeps_store(s: StoreContents, articles: Seq<ArticleView>)
    requires
        store_wf(s),
    ensures
        store_wf(after_batch(s, articles)),
    decreases articles.len(),
{
    if articles.len() > 0 {
        lemma_batch_keeps_store(s, articles.drop_last());
        lemma_upsert_keeps_store(after_batch(s, articles.drop_last()), articles.last());
    }
}

/// What links bring into a selection does not depend on the articles that
/// are stored after those to which the links lead.
pub proof fn lemma_selected_ignores_later_rows(
    rows: Seq<RowView>,
    later: RowView,
    links: Seq<(int, Seq<char>)>,
    categories: Seq<Seq<char>>,
    start: int,
    end: int,
)
    requires
        forall|l: int| 0 <= l < links.len() ==> 0 <= (#[trigger] links[l]).0 < rows.len(),
    ensures
        selected(rows.push(later), links, categories, start, end) == selected(rows, links, categories, start, end),
    decreases links.len(),
{
    if links.len() > 0 {
        lemma_selected_ignores_later_rows(rows, later, links.drop_last(), categories, start, end);
        assert(0 <= links[links.len() - 1].0 < rows.len());
        assert(rows.push(later)[links.last().0] == rows[links.last().0]);
    }
}

/// An article that is new to the store comes last in every selection that
/// asks for its category over a range that covers the second at which it was
/// seen, exactly as it was handed in, and changes no other selection.
pub proof fn lemma_new_article_is_selected(
    s: StoreContents,
    article: ArticleView,
    categories: Seq<Seq<char>>,
    start: int,
    end: int,
)
    requires
        store_wf(s),
        upsert_outcome(s, article) is Inserted,
    ensures
        categories.contains(article.category) && start <= article.datetime <= end ==> selected(
            after_upsert(s, article).rows,
            after_upsert(s, article).links,
            categories,
            start,
            end,
        ) == selected(s.rows, s.links, categories, start, end).push(article),
        !(categories.contains(article.category) && start <= article.datetime <= end) ==> selected(
            after_upsert(s, article).rows,
            after_upsert(s, article).links,
            categories,
            start,
            end,
        ) == selected(s.rows, s.links, categories, start, end),
{
    let id = s.rows.len() as int;
    let link = (id, article.category);
    let after = after_upsert(s, article);
    if s.links.contains(link) {
        let at = s.links.index_of(link);
        assert(0 <= s.links[at].0 < s.rows.len());
    }
    assert(after.links == s.links.push(link));
    assert(after.links.drop_last() == s.links);
    assert(after.links.last() == link);
    assert(after.rows[id] == row_of(article));
    assert(article_of(row_of(article), article.category) == article);
    lemma_selected_ignores_later_rows(s.rows, row_of(article), s.links, categories, start, end);
}

/// A run and then the query give back the run's articles. Where each article
/// of a batch is new to the store in its turn, is of one of the categories
/// asked for and was seen within the range asked for, the selection after the
/// batch is the selection before it followed by the articles of the batch,
/// each once, as they were handed in and in their order. For a store that
/// held no article, that is the batch itself.
pub proof fn lemma_batch_is_found(
    s: StoreContents,
    articles: Seq<ArticleView>,
    categories: Seq<Seq<char>>,
    start: int,
    end: int,
)
    requires
        store_wf(s),
        forall|k: int|
            0 <= k < articles.len() ==> upsert_outcome(
                after_batch(s, articles.take(k)),
                #[trigger] articles[k],
            ) is Inserted,
        forall|k: int|
            0 <= k < articles.len() ==> categories.contains((#[trigger] articles[k]).category) && start
                <= articles[k].datetime <= end,
    ensures
        selected(after_batch(s, articles).rows, after_batch(s, articles).links, categories, start, end)
            == selected(s.rows, s.links, categories, start, end) + articles,
        s.rows.len() == 0 ==> selected(
            after_batch(s, articles).rows,
            after_batch(s, articles).links,
            categories,
            start,
            end,
        ) == articles,
        batch_counts(s, articles).added == articles.len(),
    decreases articles.len(),
{
    if articles.len() == 0 {
        assert(selected(s.rows, s.links, categories, start, end) + articles =~= selected(
            s.rows,
            s.links,
            categories,
            start,
            end,
        ));
    } else {
        let shorter = articles.drop_last();
        assert forall|k: int| 0 <= k < shorter.len() implies upsert_outcome(
            after_batch(s, shorter.take(k)),
            #[trigger] shorter[k],
        ) is Inserted by {
            assert(shorter.take(k) == articles.take(k));
            assert(shorter[k] == articles[k]);
        }
        assert forall|k: int| 0 <= k < shorter.len() implies categories.contains(
            (#[trigger] shorter[k]).category,
        ) && start <= shorter[k].datetime <= end by {
            assert(shorter[k] == articles[k]);
        }
        lemma_batch_is_found(s, shorter, categories, start, end);
        lemma_batch_keeps_store(s, shorter);
        assert(articles.take(articles.len() - 1) == shorter);
        assert(articles[articles.len() - 1] == articles.last());
        lemma_new_article_is_selected(after_batch(s, shorter), articles.last(), categories, start, end);
        assert((selected(s.rows, s.links, categories, start, end) + shorter).push(articles.last())
            =~= selected(s.rows, s.links, categories, start, end) + articles);
    }
    if s.rows.len() == 0 {
        assert(store_wf(s));
        assert(s.links.len() == 0) by {
            if s.links.len() > 0 {
                assert(0 <= s.links[0].0 < s.rows.len());
            }
        }
        assert(selected(s.rows, s.links, categories, start, end) + articles =~= articles);
    }
}

/// Articles of known countries, no two of which have the same title, domain,
/// country and second or the same address, and none of which has those of an
/// article that the store holds, are each new to the store in their turn.
pub proof fn lemma_distinct_batch_is_new(s: StoreContents, articles: Seq<ArticleView>, k: int)
    requires
        store_wf(s),
        0 <= k < articles.len(),
        forall|i: int| 0 <= i < articles.len() ==> s.countries.contains((#[trigger] articles[i]).country),
        forall|i: int, j: int|
            0 <= i < j < articles.len() ==> !same_key(row_of(#[trigger] articles[i]), row_of(#[trigger] articles[j]))
                && articles[i].url != articles[j].url,
        forall|i: int, r: int|
            0 <= i < articles.len() && 0 <= r < s.rows.len() ==> !same_key(
                #[trigger] s.rows[r],
                row_of(#[trigger] articles[i]),
            ) && s.rows[r].url != articles[i].url,
    ensures
        upsert_outcome(after_batch(s, articles.take(k)), articles[k]) is Inserted,
        after_batch(s, articles.take(k)).rows == s.rows + articles.take(k).map_values(|a: ArticleView| row_of(a)),
        after_batch(s, articles.take(k)).countries == s.countries,
    decreases k,
{
    let rows_of = |a: ArticleView| row_of(a);
    let before = after_batch(s, articles.take(k));
    if k == 0 {
        assert(articles.take(0) =~= Seq::empty());
        assert(before == s);
        assert(before.rows =~= s.rows + articles.take(0).map_values(rows_of));
    } else {
        lemma_distinct_batch_is_new(s, articles, k - 1);
        let earlier = after_batch(s, articles.take(k - 1));
        assert(articles.take(k).drop_last() == articles.take(k - 1));
        assert(articles.take(k).last() == articles[k - 1]);
        assert(before == after_upsert(earlier, articles[k - 1]));
        assert(before.rows =~= s.rows + articles.take(k).map_values(rows_of));
    }
    let wanted = row_of(articles[k]);
    assert forall|r: int| 0 <= r < before.rows.len() implies !same_key(before.rows[r], wanted) && before.rows[r].url
        != wanted.url by {
        if r < s.rows.len() {
            assert(before.rows[r] == s.rows[r]);
        } else {
            let i = r - s.rows.len();
            assert(before.rows[r] == row_of(articles[i]));
        }
    }
    lemma_first_index(before.rows, |row: RowView| same_key(row, wanted));
    lemma_first_index(before.rows, |row: RowView| row.url == wanted.url);
}

/// An article that the store took, new or not, is found again: asked for its
/// category over a range that covers the second at which the stored article
/// was seen, the store gives the stored article under that category.
pub proof fn lemma_stored_is_found(
    s: StoreContents,
    article: ArticleView,
    categories: Seq<Seq<char>>,
    start: int,
    end: int,
)
    requires
        store_wf(s),
        categories.contains(article.category),
        upsert_outcome(s, article) !is Rejected,
        ({
            let id = match upsert_outcome(s, article) {
                Outcome::Inserted(id) => id,
                Outcome::Existing(id) => id,
                Outcome::Rejected => 0,
            };
            start <= after_upsert(s, article).rows[id].seen_at <= end
        }),
    ensures
        ({
            let id = match upsert_outcome(s, article) {
                Outcome::Inserted(id) => id,
                Outcome::Existing(id) => id,
                Outcome::Rejected => 0,
            };
            let once = after_upsert(s, article);
            &&& 0 <= id < once.rows.len()
            &&& upsert_outcome(s, article) is Inserted ==> article_of(once.rows[id], article.category)
                == article
            &&& selected(once.rows, once.links, categories, start, end).contains(
                article_of(once.rows[id], article.category),
            )
        }),
{
    let wanted = row_of(article);
    let once = after_upsert(s, article);
    lemma_first_index(s.rows, |row: RowView| same_key(row, wanted));
    lemma_first_index(s.rows, |row: RowView| row.url == wanted.url);
    let id = match upsert_outcome(s, article) {
        Outcome::Inserted(id) => id,
        Outcome::Existing(id) => id,
        Outcome::Rejected => 0,
    };
    let link = (id, article.category);
    lemma_with_link_twice(s.links, link);
    let at = once.links.index_of(link);
    lemma_selected_holds(once.rows, once.links, categories, start, end, at);
}

/// Each link that brings its article into a selection has that article in the
/// selection, under the link's category.
pub proof fn lemma_selected_holds(
    rows: Seq<RowView>,
    links: Seq<(int, Seq<char>)>,
    categories: Seq<Seq<char>>,
    start: int,
    end: int,
    at: int,
)
    requires
        0 <= at < links.len(),
        selects(rows, links[at], categories, start, end),
    ensures
        selected(rows, links, categories, start, end).contains(article_of(rows[links[at].0], links[at].1)),
    decreases links.len(),
{
    let all = selected(rows, links, categories, start, end);
    let before = selected(rows, links.drop_last(), categories, start, end);
    if at == links.len() - 1 {
        assert(all == before.push(article_of(rows[links[at].0], links[at].1)));
        assert(all[all.len() - 1] == article_of(rows[links[at].0], links[at].1));
    } else {
        lemma_selected_holds(rows, links.drop_last(), categories, start, end, at);
        let wanted = article_of(rows[links[at].0], links[at].1);
        let place = before.index_of(wanted);
        assert(all[place] == wanted);
    }
}

/// An article store in memory.
#[derive(Debug)]
pub struct ArticleStore {
    rows: Vec<ArticleRow>,
    links: Vec<CategoryLink>,
    categories: Vec<String>,
    countries: Vec<Country>,
}

/// What each row of `rows` says, in the same order.
spec fn row_views(rows: Seq<ArticleRow>) -> Seq<RowView> {
    rows.map_values(|r: ArticleRow| r@)
}

/// What each link of `links` ties, in the same order.
spec fn link_views(links: Seq<CategoryLink>) -> Seq<(int, Seq<char>)> {
    links.map_values(|l: CategoryLink| l@)
}

impl View for ArticleStore {
    type V = StoreContents;

    closed spec fn view(&self) -> StoreContents {
        StoreContents {
            rows: row_views(self.rows@),
            links: link_views(self.links@),
            categories: text_views(self.categories@),
            countries: country_views(self.countries@),
        }
    }
}

/// Whether `text` is one of `texts`.
fn holds_text(texts: &Vec<String>, text: &String) -> (held: bool)
    ensures
        held == text_views(texts@).contains(text@),
{
    let mut i: usize = 0;
    while i < texts.len()
        invariant
            i <= texts.len(),
            forall|k: int| 0 <= k < i ==> text_views(texts@)[k] != text@,
        decreases texts.len() - i,
    {
        if texts[i] == *text {
            assert(text_views(texts@)[i as int] == text@);
            return true;
        }
        i += 1;
    }
    false
}

/// Whether `country` is one of `countries`.
fn holds_country(countries: &Vec<Country>, country: &Country) -> (held: bool)
    ensures
        held == country_views(countries@).contains(country@),
{
    let mut i: usize = 0;
    while i < countries.len()
        invariant
            i <= countries.len(),
            forall|k: int| 0 <= k < i ==> country_views(countries@)[k] != country@,
        decreases countries.len() - i,
    {
        if countries[i].is_same(country) {
            assert(country_views(countries@)[i as int] == country@);
            return true;
        }
        i += 1;
    }
    false
}

/// Whether `row` and `article` have the same title, domain, country and
/// second.
fn has_key_of(row: &ArticleRow, article: &NewsArticle) -> (same: bool)
    ensures
        same == same_key(row@, row_of(article@)),
{
    row.title == article.title && row.domain == article.domain && row.country.is_same(&article.country)
        && row.seen_at.is_same(&article.datetime)
}

/// The place of the stored article that `article` is taken to be, if there is
/// one.
fn find_existing(rows: &Vec<ArticleRow>, article: &NewsArticle) -> (found: Option<usize>)
    ensures
        match existing(row_views(rows@), row_of(article@)) {
            Some(i) => found == Some(i as usize) && 0 <= i < rows.len(),
            None => found is None,
        },
{
    let ghost wanted = row_of(article@);
    let ghost views = row_views(rows@);
    let ghost by_key = |row: RowView| same_key(row, wanted);
    let ghost by_url = |row: RowView| row.url == wanted.url;
    let mut i: usize = 0;
    while i < rows.len()
        invariant
            i <= rows.len(),
            wanted == row_of(article@),
            views == row_views(rows@),
            by_key == |row: RowView| same_key(row, wanted),
            forall|j: int| 0 <= j < i ==> !by_key(views[j]),
        decreases rows.len() - i,
    {
        if has_key_of(&rows[i], article) {
            proof {
                assert(by_key(views[i as int]));
                lemma_first_index_is(views, by_key, i as int);
            }
            return Some(i);
        }
        i += 1;
    }
    proof {
        lemma_first_index(views, by_key);
    }
    let mut k: usize = 0;
    while k < rows.len()
        invariant
            k <= rows.len(),
            wanted == row_of(article@),
            views == row_views(rows@),
            by_key == |row: RowView| same_key(row, wanted),
            by_url == |row: RowView| row.url == wanted.url,
            first_index(views, by_key) is None,
            forall|j: int| 0 <= j < k ==> !by_url(views[j]),
        decreases rows.len() - k,
    {
        if rows[k].url == article.url {
            proof {
                assert(by_url(views[k as int]));
                lemma_first_index_is(views, by_url, k as int);
            }
            return Some(k);
        }
        k += 1;
    }
    proof {
        lemma_first_index(views, by_url);
    }
    None
}

/// Whether the link from article `id` to `category` is among `links`.
fn holds_link(links: &Vec<CategoryLink>, id: usize, category: &String) -> (held: bool)
    ensures
        held == link_views(links@).contains((id as int, category@)),
{
    let mut i: usize = 0;
    while i < links.len()
        invariant
            i <= links.len(),
            forall|k: int| 0 <= k < i ==> link_views(links@)[k] != (id as int, category@),
        decreases links.len() - i,
    {
        if links[i].article == id && links[i].category == *category {
            assert(link_views(links@)[i as int] == (id as int, category@));
            return true;
        }
        i += 1;
    }
    false
}

/// What became of one article that was handed to a store.
#[derive(Clone, Copy, Debug, PartialEq, Eq, Structural)]
pub enum Upserted {
    /// It was new, and is stored under the given identifier.
    Inserted(usize),
    /// It was already stored, under the given identifier.
    Existing(usize),
    /// It could not be stored: its country is not known to the store.
    Rejected,
}

impl View for Upserted {
    type V = Outcome;

    open spec fn view(&self) -> Outcome {
        match *self {
            Upserted::Inserted(id) => Outcome::Inserted(id as int),
            Upserted::Existing(id) => Outcome::Existing(id as int),
            Upserted::Rejected => Outcome::Rejected,
        }
    }
}

/// Links article `id` to `category` unless it is linked already; says
/// whether it had to.
fn link_once(links: &mut Vec<CategoryLink>, id: usize, category: &String) -> (linked: bool)
    requires
        link_views(old(links)@).no_duplicates(),
    ensures
        linked == !link_views(old(links)@).contains((id as int, category@)),
        link_views(final(links)@) == with_link(link_views(old(links)@), (id as int, category@)),
        link_views(final(links)@).no_duplicates(),
{
    if holds_link(links, id, category) {
        false
    } else {
        let ghost before = link_views(links@);
        let link = CategoryLink { article: id, category: category.clone() };
        links.push(link);
        proof {
            assert(link_views(links@) =~= before.push((id as int, category@)));
            lemma_push_keeps_distinct(before, (id as int, category@));
        }
        true
    }
}

/// Hands one article to the tables of a store; says what became of it, and
/// whether something was added for it.
fn upsert_into(
    rows: &mut Vec<ArticleRow>,
    links: &mut Vec<CategoryLink>,
    categories: &Vec<String>,
    countries: &Vec<Country>,
    article: &NewsArticle,
) -> (done: (Upserted, bool))
    requires
        store_wf(
            StoreContents {
                rows: row_views(old(rows)@),
                links: link_views(old(links)@),
                categories: text_views(categories@),
                countries: country_views(countries@),
            },
        ),
    ensures
        done.0@ == upsert_outcome(
            StoreContents {
                rows: row_views(old(rows)@),
                links: link_views(old(links)@),
                categories: text_views(categories@),
                countries: country_views(countries@),
            },
            article@,
        ),
        done.1 == adds(
            StoreContents {
                rows: row_views(old(rows)@),
                links: link_views(old(links)@),
                categories: text_views(categories@),
                countries: country_views(countries@),
            },
            article@,
        ),
        (StoreContents {
            rows: row_views(final(rows)@),
            links: link_views(final(links)@),
            categories: text_views(categories@),
            countries: country_views(countries@),
        }) == after_upsert(
            StoreContents {
                rows: row_views(old(rows)@),
                links: link_views(old(links)@),
                categories: text_views(categories@),
                countries: country_views(countries@),
            },
            article@,
        ),
        store_wf(
            StoreContents {
                rows: row_views(final(rows)@),
                links: link_views(final(links)@),
                categories: text_views(categories@),
                countries: country_views(countries@),
            },
        ),
{
    let ghost before = StoreContents {
        rows: row_views(rows@),
        links: link_views(links@),
        categories: text_views(categories@),
        countries: country_views(countries@),
    };
    proof {
        lemma_upsert_keeps_store(before, article@);
    }
    match find_existing(rows, article) {
        Some(id) => {
            let linked = link_once(links, id, &article.category);
            (Upserted::Existing(id), linked)
        },
        None => {
            if holds_country(countries, &article.country) {
                let id: usize = rows.len();
                let row = ArticleRow {
                    title: article.title.clone(),
                    domain: article.domain.clone(),
                    country: article.country.clone(),
                    seen_at: article.datetime,
                    url: article.url.clone(),
                    language: article.language.clone(),
                };
                rows.push(row);
                link_once(links, id, &article.category);
                proof {
                    assert(row_views(rows@) =~= before.rows.push(row_of(article@)));
                }
                (Upserted::Inserted(id), true)
            } else {
                (Upserted::Rejected, false)
            }
        },
    }
}

impl ArticleStore {
    #[verifier::type_invariant]
    spec fn wf(self) -> bool {
        store_wf(self@)
    }

    /// A store that holds nothing.
    pub fn new() -> (store: ArticleStore)
        ensures
            store@ == (StoreContents {
                rows: Seq::empty(),
                links: Seq::empty(),
                categories: Seq::empty(),
                countries: Seq::empty(),
            }),
            store_wf(store@),
    {
        let store = ArticleStore {
            rows: Vec::new(),
            links: Vec::new(),
            categories: Vec::new(),
            countries: Vec::new(),
        };
        proof {
            assert(store@.rows =~= Seq::empty());
            assert(store@.links =~= Seq::empty());
            assert(store@.categories =~= Seq::empty());
            assert(store@.countries =~= Seq::empty());
        }
        store
    }

    /// Empties the store and hands out what it held.
    fn take(&mut self) -> (held: ArticleStore)
        ensures
            held@ == old(self)@,
            store_wf(held@),
            final(self)@.rows.len() == 0,
    {
        proof {
            use_type_invariant(&*self);
        }
        let mut held = ArticleStore::new();
        std::mem::swap(self, &mut held);
        held
    }

    /// Whether `name` is an allowed category.
    pub fn has_category(&self, name: &String) -> (valid: bool)
        ensures
            valid == self@.categories.contains(name@),
    {
        holds_text(&self.categories, name)
    }

    /// Allows the category `name`. Says whether it was new; allowing a
    /// category a second time changes nothing.
    pub fn insert_category(&mut self, name: String) -> (added: bool)
        ensures
            added == !old(self)@.categories.contains(name@),
            final(self)@ == (StoreContents {
                categories: if added {
                    old(self)@.categories.push(name@)
                } else {
                    old(self)@.categories
                },
                ..old(self)@
            }),
            store_wf(final(self)@),
    {
        if holds_text(&self.categories, &name) {
            proof {
                use_type_invariant(&*self);
            }
            false
        } else {
            let ArticleStore { rows, links, mut categories, countries } = self.take();
            let ghost before = text_views(categories@);
            categories.push(name);
            proof {
                assert(text_views(categories@) =~= before.push(name@));
                lemma_push_keeps_distinct(before, name@);
            }
            *self = ArticleStore { rows, links, categories, countries };
            true
        }
    }

    /// Makes `country` known. Says whether it was new; a known country stays
    /// as it is.
    pub fn add_country(&mut self, country: Country) -> (added: bool)
        ensures
            added == !old(self)@.countries.contains(country@),
            final(self)@ == (StoreContents {
                countries: if added {
                    old(self)@.countries.push(country@)
                } else {
                    old(self)@.countries
                },
                ..old(self)@
            }),
            store_wf(final(self)@),
    {
        if holds_country(&self.countries, &country) {
            proof {
                use_type_invariant(&*self);
            }
            false
        } else {
            let ArticleStore { rows, links, categories, mut countries } = self.take();
            let ghost before = country_views(countries@);
            countries.push(country);
            proof {
                assert(country_views(countries@) =~= before.push(country@));
                lemma_push_keeps_distinct(before, country@);
            }
            *self = ArticleStore { rows, links, categories, countries };
            true
        }
    }

    /// Hands one article to the store: stores it if it is new, links it to its
    /// category unless it already is, and says which it was. An article
    /// counts as stored already where a stored one has its title, domain,
    /// country and second, or its address. An article whose country the store
    /// does not know is rejected and leaves no trace.
    pub fn upsert_article(&mut self, article: &NewsArticle) -> (outcome: Upserted)
        ensures
            outcome@ == upsert_outcome(old(self)@, article@),
            final(self)@ == after_upsert(old(self)@, article@),
            store_wf(final(self)@),
    {
        let ArticleStore { mut rows, mut links, categories, countries } = self.take();
        let done = upsert_into(&mut rows, &mut links, &categories, &countries, article);
        *self = ArticleStore { rows, links, categories, countries };
        done.0
    }

    /// Hands a batch of articles to the store, one by one. An article that is
    /// not yet stored is stored; it is then linked to its category, as is one
    /// that was stored before, unless the link is already there. An article
    /// whose country the store does not know is skipped, and the rest of the
    /// batch goes on as if it had not been there. The report counts the
    /// articles for which a row or a link was added, and beside them those
    /// that are now stored, those that were new, and those that were skipped.
    pub fn upsert_articles(&mut self, articles: Vec<NewsArticle>) -> (report: UpsertReport)
        ensures
            final(self)@ == after_batch(old(self)@, article_views(articles@)),
            store_wf(final(self)@),
            report.added == batch_counts(old(self)@, article_views(articles@)).added,
            report.stored == batch_counts(old(self)@, article_views(articles@)).stored,
            report.inserted == batch_counts(old(self)@, article_views(articles@)).inserted,
            report.rejected == batch_counts(old(self)@, article_views(articles@)).rejected,
            report.stored + report.rejected == articles.len(),
            report.inserted <= report.added <= report.stored,
    {
        let ghost start = self@;
        let ghost batch = article_views(articles@);
        let ArticleStore { mut rows, mut links, categories, countries } = self.take();
        let mut report = UpsertReport { added: 0, stored: 0, inserted: 0, rejected: 0 };
        let mut i: usize = 0;
        proof {
            assert(batch.take(0) =~= Seq::empty());
        }
        while i < articles.len()
            invariant
                i <= articles.len(),
                batch == article_views(articles@),
                (StoreContents {
                    rows: row_views(rows@),
                    links: link_views(links@),
                    categories: text_views(categories@),
                    countries: country_views(countries@),
                }) == after_batch(start, batch.take(i as int)),
                store_wf(
                    StoreContents {
                        rows: row_views(rows@),
                        links: link_views(links@),
                        categories: text_views(categories@),
                        countries: country_views(countries@),
                    },
                ),
                report.added == batch_counts(start, batch.take(i as int)).added,
                report.stored == batch_counts(start, batch.take(i as int)).stored,
                report.inserted == batch_counts(start, batch.take(i as int)).inserted,
                report.rejected == batch_counts(start, batch.take(i as int)).rejected,
                report.stored + report.rejected == i,
                report.inserted <= report.added <= report.stored,
            decreases articles.len() - i,
        {
            proof {
                assert(batch.take(i + 1).drop_last() == batch.take(i as int));
                assert(batch.take(i + 1).last() == articles[i as int]@);
            }
            let done = upsert_into(&mut rows, &mut links, &categories, &countries, &articles[i]);
            match done.0 {
                Upserted::Inserted(_) => {
                    report.stored = report.stored + 1;
                    report.inserted = report.inserted + 1;
                },
                Upserted::Existing(_) => {
                    report.stored = report.stored + 1;
                },
                Upserted::Rejected => {
                    report.rejected = report.rejected + 1;
                },
            }
            if done.1 {
                report.added = report.added + 1;
            }
            i += 1;
        }
        proof {
            assert(batch.take(i as int) == batch);
        }
        *self = ArticleStore { rows, links, categories, countries };
        report
    }

    /// The stored articles that are linked to one of `categories` and were
    /// seen within `date_range`, its two ends included. Each comes under the
    /// category of its link.
    pub fn get_by_categories(&self, categories: &Vec<String>, date_range: &DateRange) -> (articles: Vec<NewsArticle>)
        ensures
            article_views(articles@) == selected(
                self@.rows,
                self@.links,
                text_views(categories@),
                date_range.start_seconds(),
                date_range.end_seconds(),
            ),
    {
        proof {
            use_type_invariant(self);
        }
        let ghost rows = row_views(self.rows@);
        let ghost links = link_views(self.links@);
        let mut articles: Vec<NewsArticle> = Vec::new();
        let mut l: usize = 0;
        proof {
            assert(links.take(0) =~= Seq::empty());
        }
        while l < self.links.len()
            invariant
                l <= self.links.len(),
                rows == row_views(self.rows@),
                links == link_views(self.links@),
                store_wf(self@),
                article_views(articles@) == selected(
                    rows,
                    links.take(l as int),
                    text_views(categories@),
                    date_range.start_seconds(),
                    date_range.end_seconds(),
                ),
            decreases self.links.len() - l,
        {
            proof {
                assert(links.take(l + 1).drop_last() == links.take(l as int));
                assert(links.take(l + 1).last() == self.links[l as int]@);
                assert(0 <= links[l as int].0 < rows.len());
            }
            let link = &self.links[l];
            let row = &self.rows[link.article];
            if holds_text(categories, &link.category) && date_range.covers(&row.seen_at) {
                let ghost before = article_views(articles@);
                let article = NewsArticle {
                    title: row.title.clone(),
                    category: link.category.clone(),
                    datetime: row.seen_at,
                    url: row.url.clone(),
                    domain: row.domain.clone(),
                    language: row.language.clone(),
                    country: row.country.clone(),
                };
                articles.push(article);
                proof {
                    assert(article_views(articles@) == before.push(article@));
                    assert(article@ == article_of(rows[links[l as int].0], links[l as int].1));
                }
            }
            l += 1;
        }
        proof {
            assert(links.take(l as int) == links);
        }
        articles
    }

    /// How many articles are stored.
    pub fn article_count(&self) -> (count: usize)
        ensures
            count == self@.rows.len(),
    {
        self.rows.len()
    }

    /// How many links between an article and a category are stored.
    pub fn link_count(&self) -> (count: usize)
        ensures
            count == self@.links.len(),
    {
        self.links.len()
    }

    /// The allowed categories, in the order in which they were allowed.
    pub fn list_categories(&self) -> (names: Vec<String>)
        ensures
            text_views(names@) == self@.categories,
    {
        let mut names: Vec<String> = Vec::new();
        let mut i: usize = 0;
        while i < self.categories.len()
            invariant
                i <= self.categories.len(),
                names.len() == i,
                forall|k: int| 0 <= k < i ==> (#[trigger] names[k])@ == self.categories[k]@,
            decreases self.categories.len() - i,
        {
            names.push(self.categories[i].clone());
            i += 1;
        }
        proof {
            assert(text_views(names@) =~= text_views(self.categories@));
        }
        names
    }

    /// The known countries, in the order in which they were made known.
    pub fn list_countries(&self) -> (countries: Vec<Country>)
        ensures
            country_views(countries@) == self@.countries,
    {
        let mut countries: Vec<Country> = Vec::new();
        let mut i: usize = 0;
        while i < self.countries.len()
            invariant
                i <= self.countries.len(),
                countries.len() == i,
                forall|k: int| 0 <= k < i ==> (#[trigger] countries[k])@ == self.countries[k]@,
            decreases self.countries.len() - i,
        {
            countries.push(self.countries[i].clone());
            i += 1;
        }
        proof {
            assert(country_views(countries@) =~= country_views(self.countries@));
        }
        countries
    }
}

/// The store in memory as a repository for the pipeline. It never fails.
impl NewsRepository for ArticleStore {
    fn get_articles_by_categories(
        &mut self,
        categories: Vec<String>,
        date_range: DateRange,
    ) -> (found: Result<Vec<NewsArticle>, StorageError>)
        ensures
            final(self)@ == old(self)@,
            found matches Ok(articles) && article_views(articles@) == selected(
                old(self)@.rows,
                old(self)@.links,
                text_views(categories@),
                date_range.start_seconds(),
                date_range.end_seconds(),
            ),
    {
        Ok(self.get_by_categories(&categories, &date_range))
    }

    fn store_articles(&mut self, articles: Vec<NewsArticle>) -> (stored: Result<usize, StorageError>)
        ensures
            final(self)@ == after_batch(old(self)@, article_views(articles@)),
            stored matches Ok(count) && (count == batch_counts(old(self)@, article_views(articles@)).added),
    {
        let report = self.upsert_articles(articles);
        Ok(report.added)
    }

    fn add_category(&mut self, category: String) -> (added: Result<bool, StorageError>)
        ensures
            added == Ok::<bool, StorageError>(!old(self)@.categories.contains(category@)),
            final(self)@ == (StoreContents {
                categories: if old(self)@.categories.contains(category@) {
                    old(self)@.categories
                } else {
                    old(self)@.categories.push(category@)
                },
                ..old(self)@
            }),
    {
        Ok(self.insert_category(category))
    }

    fn is_valid_category(&mut self, category: String) -> (valid: Result<bool, StorageError>)
        ensures
            final(self)@ == old(self)@,
            valid == Ok::<bool, StorageError>(old(self)@.categories.contains(category@)),
    {
        Ok(self.has_category(&category))
    }

    fn get_categories(&mut self) -> (listed: Result<Vec<String>, StorageError>)
        ensures
            final(self)@ == old(self)@,
            listed matches Ok(names) && text_views(names@) == old(self)@.categories,
    {
        Ok(self.list_categories())
    }

    fn get_countries(&mut self) -> (listed: Result<Vec<Country>, StorageError>)
        ensures
            final(self)@ == old(self)@,
            listed matches Ok(countries) && country_views(countries@) == old(self)@.countries,
    {
        Ok(self.list_countries())
    }
}

} // verus!
