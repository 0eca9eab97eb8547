//! The article search of the GDELT project: the address of one page, and the
//! walk through the pages of a query.

use crate::article::{
    article_views, lemma_normalized_all_keeps_query, normalized_all, record_views, to_news_article,
    ArticleView, GDeltaArticle, NewsArticle,
};
use crate::country::{iso_alpha2_text, Country};
use crate::ports::{Logger, NewsSearchClient, PageSource, ProviderError};
use crate::query::{ArticleQuery, QueryView};
use crate::time::{window_text, DateRange, Timestamp};
use vstd::prelude::*;
use vstd::utf8::encode_utf8;

verus! {

/// The most records the provider puts on one page.
pub const PAGE_SIZE: usize = 250;

/// Whether a byte stands for itself in a percent-encoded text: the letters and
/// digits of ASCII, `-`, `.`, `_` and `~`.
pub open spec fn is_unreserved(byte: u8) -> bool {
    ||| 0x30 <= byte <= 0x39
    ||| 0x41 <= byte <= 0x5a
    ||| 0x61 <= byte <= 0x7a
    ||| byte == 0x2d
    ||| byte == 0x2e
    ||| byte == 0x5f
    ||| byte == 0x7e
}

/// The upper-case hexadecimal digit for a value below sixteen.
pub open spec fn hex_digit(value: u8) -> char {
    if value < 10 {
        ((0x30 + value) as u8) as char
    } else {
        ((0x37 + value) as u8) as char
    }
}

/// One byte, percent-encoded.
pub open spec fn percent_encoded_byte(byte: u8) -> Seq<char> {
    if is_unreserved(byte) {
        seq![byte as char]
    } else {
        seq!['%', hex_digit(byte / 16), hex_digit(byte % 16)]
    }
}

/// A run of bytes, percent-encoded byte by byte.
pub open spec fn percent_encoded(bytes: Seq<u8>) -> Seq<char>
    decreases bytes.len(),
{
    if bytes.len() == 0 {
        Seq::empty()
    } else {
        percent_encoded(bytes.drop_last()) + percent_encoded_byte(bytes.last())
    }
}

/// `urlencoding::encode`.
/// Trusted: that it goes through the UTF-8 bytes of `text` in order, keeps each
/// unreserved byte and writes every other as `%` and two upper-case
/// hexadecimal digits.
#[verifier::external_body]
fn percent_encode(text: &str) -> (encoded: String)
    ensures
        encoded@ == percent_encoded(encode_utf8(text@)),
{
    urlencoding::encode(text).into_owned()
}

/// The search phrase for articles of `category` from the country of alpha-2
/// code `alpha2`.
pub open spec fn search_phrase(alpha2: Seq<char>, category: Seq<char>) -> Seq<char> {
    "sourcecountry:"@ + alpha2 + " AND \""@ + category + "\""@
}

/// The address of a page, put together from its three variable parts.
pub open spec fn search_url(phrase: Seq<char>, start: Seq<char>, end: Seq<char>) -> Seq<char> {
    "https://api.gdeltproject.org/api/v2/doc/doc?query="@ + phrase
        + "&mode=artlist&maxrecords=250&format=json&startdatetime="@ + start + "&enddatetime="@ + end
        + "&sort=datedesc"@
}

/// The search phrase for `category` in the country of alpha-2 code `alpha2`:
/// `sourcecountry:FR AND "climate change"`.
pub fn phrase_for(alpha2: &str, category: &str) -> (phrase: String)
    ensures
        phrase@ == search_phrase(alpha2@, category@),
{
    let mut phrase = String::from_str("sourcecountry:");
    phrase.append(alpha2);
    phrase.append(" AND \"");
    phrase.append(category);
    phrase.append("\"");
    phrase
}

/// The address of the page for an encoded phrase and a window whose ends are
/// already written out.
pub fn url_for(phrase: &str, start: &str, end: &str) -> (url: String)
    ensures
        url@ == search_url(phrase@, start@, end@),
{
    let mut url = String::from_str("https://api.gdeltproject.org/api/v2/doc/doc?query=");
    url.append(phrase);
    url.append("&mode=artlist&maxrecords=250&format=json&startdatetime=");
    url.append(start);
    url.append("&enddatetime=");
    url.append(end);
    url.append("&sort=datedesc");
    url
}

/// The address of the page that lists, newest first and at most 250 of them,
/// the articles of `category` from `source_country` seen from `start_time` to
/// `end_time`.
pub fn build_url(
    start_time: Timestamp,
    end_time: Timestamp,
    source_country: &Country,
    category: String,
) -> (url: String)
    ensures
        url@ == search_url(
            percent_encoded(encode_utf8(search_phrase(iso_alpha2_text(source_country@), category@))),
            window_text(start_time@),
            window_text(end_time@),
        ),
{
    let formatted_start_time = start_time.to_window_text();
    let formatted_end_time = end_time.to_window_text();
    let alpha2 = source_country.alpha2();
    let phrase = phrase_for(alpha2.as_str(), category.as_str());
    let encoded = percent_encode(phrase.as_str());
    url_for(encoded.as_str(), formatted_start_time.as_str(), formatted_end_time.as_str())
}

/// The character for a digit below ten.
pub open spec fn digit_char(digit: int) -> char {
    ((0x30 + digit) as u8) as char
}

/// A number as it is written in decimal digits.
pub open spec fn decimal_text(number: nat) -> Seq<char>
    decreases number,
{
    if number < 10 {
        seq![digit_char(number as int)]
    } else {
        decimal_text(number / 10).push(digit_char((number % 10) as int))
    }
}

/// What is said of an answer that came with a status other than 200.
pub open spec fn status_failure(status: u16, body: Seq<char>) -> Seq<char> {
    "HTTP error, status: "@ + decimal_text(status as nat) + ", body: "@ + body
}

/// One decimal digit as a text.
fn digit_text(digit: u64) -> (text: &'static str)
    requires
        digit < 10,
    ensures
        text@ == seq![digit_char(digit as int)],
{
    proof {
        reveal_strlit("0");
        reveal_strlit("1");
        reveal_strlit("2");
        reveal_strlit("3");
        reveal_strlit("4");
        reveal_strlit("5");
        reveal_strlit("6");
        reveal_strlit("7");
        reveal_strlit("8");
        reveal_strlit("9");
    }
    if digit == 0 {
        "0"
    } else if digit == 1 {
        "1"
    } else if digit == 2 {
        "2"
    } else if digit == 3 {
        "3"
    } else if digit == 4 {
        "4"
    } else if digit == 5 {
        "5"
    } else if digit == 6 {
        "6"
    } else if digit == 7 {
        "7"
    } else if digit == 8 {
        "8"
    } else {
        "9"
    }
}

/// A number in decimal digits.
pub fn decimal(number: u64) -> (text: String)
    ensures
        text@ == decimal_text(number as nat),
    decreases number,
{
    if number < 10 {
        String::from_str(digit_text(number))
    } else {
        let mut text = decimal(number / 10);
        text.append(digit_text(number % 10));
        text
    }
}

/// Lets the body of an answer through where its status is 200; any other
/// status makes the answer a failure that names the status and the body.
pub fn check_status(status: u16, body: String) -> (checked: Result<String, ProviderError>)
    ensures
        status == 200 ==> checked == Ok::<String, ProviderError>(body),
        status != 200 ==> (checked matches Err(ProviderError::Unavailable(text)) && text@ == status_failure(
            status,
            body@,
        )),
{
    if status == 200 {
        Ok(body)
    } else {
        let mut text = String::from_str("HTTP error, status: ");
        text.append(decimal(status as u64).as_str());
        text.append(", body: ");
        text.append(body.as_str());
        Err(ProviderError::Unavailable(text))
    }
}

/// The seconds at which the articles of `page` were seen, in their order.
pub open spec fn seen_seconds(page: Seq<NewsArticle>) -> Seq<int> {
    page.map_values(|a: NewsArticle| a.datetime@)
}

/// The greatest of `seen`, which must not be empty.
pub open spec fn latest(seen: Seq<int>) -> int
    decreases seen.len(),
{
    if seen.len() <= 1 {
        seen[0]
    } else if seen.last() > latest(seen.drop_last()) {
        seen.last()
    } else {
        latest(seen.drop_last())
    }
}

/// `latest` is one of the seconds, and none of them is greater.
pub proof fn lemma_latest_is_greatest(seen: Seq<int>)
    requires
        seen.len() > 0,
    ensures
        seen.contains(latest(seen)),
        forall|i: int| 0 <= i < seen.len() ==> seen[i] <= latest(seen),
    decreases seen.len(),
{
    if seen.len() > 1 {
        let before = seen.drop_last();
        lemma_latest_is_greatest(before);
        let at = before.index_of(latest(before));
        assert(seen[at] == latest(before));
        assert forall|i: int| 0 <= i < seen.len() implies seen[i] <= latest(seen) by {
            if i < seen.len() - 1 {
                assert(before[i] == seen[i]);
            }
        }
    }
}

/// The most recent instant at which an article of `page` was seen; nothing for
/// an empty page.
pub fn latest_seen(page: &Vec<NewsArticle>) -> (found: Option<Timestamp>)
    ensures
        found is Some <==> page.len() > 0,
        found matches Some(t) ==> t@ == latest(seen_seconds(page@)),
{
    if page.len() == 0 {
        return None;
    }
    let ghost seen = seen_seconds(page@);
    let mut best: Timestamp = page[0].datetime;
    let mut i: usize = 1;
    while i < page.len()
        invariant
            1 <= i <= page.len(),
            seen == seen_seconds(page@),
            best@ == latest(seen.take(i as int)),
        decreases page.len() - i,
    {
        proof {
            assert(seen.take(i + 1).drop_last() == seen.take(i as int));
        }
        if best.is_before(&page[i].datetime) {
            best = page[i].datetime;
        }
        i += 1;
    }
    proof {
        assert(seen.take(i as int) == seen);
    }
    Some(best)
}

/// What a page means for the walk through a query's pages.
pub enum Verdict {
    /// The page is empty: nothing is left.
    Exhausted,
    /// The page is not full: it is the last one.
    LastPage,
    /// The page is full and may have been cut off: the next window starts at
    /// the given second.
    NextWindow(int),
    /// The page holds more than a page can hold.
    Oversized,
    /// The page is full, yet nothing on it is as recent as the window's
    /// start: none of its records became an article, or the most recent of
    /// its articles was seen before the window starts.
    Stale,
}

/// The verdict on a page of `received` records, fetched for a window that
/// starts at `window_start`, whose records that became articles were seen at
/// `seen`.
///
/// The size of a page is the number of records the provider put on it,
/// whatever became of them. A full page moves the window to the most recent
/// second among its articles. Where that is the start of the window itself,
/// the window moves on by one second, and what else the provider holds for
/// that second is passed over. A full page without an article, or with none
/// as recent as the start of the window, cannot move the window and is an
/// error.
pub open spec fn verdict(window_start: int, received: int, seen: Seq<int>) -> Verdict {
    if received <= 0 {
        Verdict::Exhausted
    } else if received < PAGE_SIZE {
        Verdict::LastPage
    } else if received > PAGE_SIZE {
        Verdict::Oversized
    } else if seen.len() == 0 || latest(seen) < window_start {
        Verdict::Stale
    } else if latest(seen) == window_start {
        Verdict::NextWindow(window_start + 1)
    } else {
        Verdict::NextWindow(latest(seen))
    }
}

/// Where the walk through a query's pages stands.
pub struct CursorView {
    /// The second from which the next page is asked.
    pub window_start: int,
    /// The second at which the query's range ends.
    pub range_end: int,
    /// Whether another page is to be asked for.
    pub open: bool,
}

/// The cursor after a page of `received` records whose articles were seen at
/// `seen`.
pub open spec fn after_page(cursor: CursorView, received: int, seen: Seq<int>) -> CursorView {
    if !cursor.open {
        cursor
    } else {
        match verdict(cursor.window_start, received, seen) {
            Verdict::NextWindow(next) => CursorView {
                window_start: next,
                range_end: cursor.range_end,
                open: next < cursor.range_end,
            },
            _ => CursorView { window_start: cursor.window_start, range_end: cursor.range_end, open: false },
        }
    }
}

/// What the walk hands on from a page of `received` records of which `page`
/// became articles: the articles, nothing, or the error that ends the walk.
pub open spec fn page_outcome(
    cursor: CursorView,
    received: int,
    page: Seq<NewsArticle>,
) -> Result<Seq<NewsArticle>, ProviderError> {
    if !cursor.open {
        Ok(Seq::empty())
    } else {
        match verdict(cursor.window_start, received, seen_seconds(page)) {
            Verdict::Exhausted => Ok(Seq::empty()),
            Verdict::LastPage => Ok(page),
            Verdict::NextWindow(_) => Ok(page),
            Verdict::Oversized => Err(ProviderError::OversizedPage(received as usize)),
            Verdict::Stale => Err(ProviderError::StalePage),
        }
    }
}

/// The address of the page for the window of `cursor` in a walk through the
/// pages of `query`.
pub open spec fn page_address(query: QueryView, cursor: CursorView) -> Seq<char> {
    search_url(
        percent_encoded(encode_utf8(search_phrase(iso_alpha2_text(query.source_country), query.category))),
        window_text(cursor.window_start),
        window_text(cursor.range_end),
    )
}

/// The seconds at which the articles that `views` describe were seen, in their
/// order.
pub open spec fn seen_of(views: Seq<ArticleView>) -> Seq<int> {
    views.map_values(|v: ArticleView| v.datetime)
}

/// What the walk keeps of a page of `received` records of which the articles
/// that `views` describe came, or the error that ends the walk.
pub open spec fn page_kept(
    cursor: CursorView,
    received: int,
    views: Seq<ArticleView>,
) -> Result<Seq<ArticleView>, ProviderError> {
    if !cursor.open {
        Ok(Seq::empty())
    } else {
        match verdict(cursor.window_start, received, seen_of(views)) {
            Verdict::Exhausted => Ok(Seq::empty()),
            Verdict::LastPage => Ok(views),
            Verdict::NextWindow(_) => Ok(views),
            Verdict::Oversized => Err(ProviderError::OversizedPage(received as usize)),
            Verdict::Stale => Err(ProviderError::StalePage),
        }
    }
}

/// Where a walk stands: its cursor, the articles kept so far, and the error
/// that has ended it, if one has.
pub struct WalkState {
    pub cursor: CursorView,
    pub kept: Seq<ArticleView>,
    pub failure: Option<ProviderError>,
}

/// Where the walk through the pages of `query` stands once the page source
/// has given `answers`, one after the other. An answer of records is a page
/// of as many records as it holds; it moves the cursor by the articles that
/// its records became, and those are kept. A failure of the source, or a page
/// that breaks the provider's rules, ends the walk with that error.
pub open spec fn walk_state(query: QueryView, answers: Seq<Result<Vec<GDeltaArticle>, ProviderError>>) -> WalkState
    decreases answers.len(),
{
    if answers.len() == 0 {
        WalkState {
            cursor: CursorView { window_start: query.start, range_end: query.end, open: true },
            kept: Seq::empty(),
            failure: None,
        }
    } else {
        let before = walk_state(query, answers.drop_last());
        match answers.last() {
            Err(error) => WalkState {
                cursor: CursorView { open: false, ..before.cursor },
                kept: before.kept,
                failure: Some(error),
            },
            Ok(records) => {
                let received = records@.len() as int;
                let views = normalized_all(record_views(records@), query.category, query.source_country);
                match page_kept(before.cursor, received, views) {
                    Ok(kept) => WalkState {
                        cursor: after_page(before.cursor, received, seen_of(views)),
                        kept: before.kept + kept,
                        failure: None,
                    },
                    Err(error) => WalkState {
                        cursor: after_page(before.cursor, received, seen_of(views)),
                        kept: before.kept,
                        failure: Some(error),
                    },
                }
            },
        }
    }
}

/// The answers of a list of exchanges with the page source, each of which is
/// an address that was asked for and the answer to it.
pub open spec fn answers_of(
    exchanges: Seq<(String, Result<Vec<GDeltaArticle>, ProviderError>)>,
) -> Seq<Result<Vec<GDeltaArticle>, ProviderError>> {
    exchanges.map_values(|e: (String, Result<Vec<GDeltaArticle>, ProviderError>)| e.1)
}

/// Whether exchange `k` is in its place in a walk through the pages of
/// `query`: the walk was still open after the answers before it, the address
/// was that of the page for the window the walk had reached, and the answer is
/// one that `source` gives to that address.
pub open spec fn exchange_fits<S: PageSource>(
    source: S,
    query: QueryView,
    exchanges: Seq<(String, Result<Vec<GDeltaArticle>, ProviderError>)>,
    k: int,
) -> bool {
    let before = walk_state(query, answers_of(exchanges).take(k));
    &&& before.cursor.open
    &&& before.failure is None
    &&& exchanges[k].0@ == page_address(query, before.cursor)
    &&& call_ensures(S::fetch_page, (&source, &exchanges[k].0), exchanges[k].1)
}

/// Whether `found` is what a walk through the pages of `query` comes to that
/// consisted of `exchanges` with `source`: at least one page was asked for,
/// every exchange is in its place, the last of them ended the walk, and
/// `found` is the error that ended it or else the articles kept of all the
/// pages, in their order.
pub open spec fn walked<S: PageSource>(
    source: S,
    query: QueryView,
    exchanges: Seq<(String, Result<Vec<GDeltaArticle>, ProviderError>)>,
    found: Result<Vec<NewsArticle>, ProviderError>,
) -> bool {
    let end = walk_state(query, answers_of(exchanges));
    &&& exchanges.len() > 0
    &&& forall|k: int| 0 <= k < exchanges.len() ==> #[trigger] exchange_fits(source, query, exchanges, k)
    &&& !end.cursor.open
    &&& match end.failure {
        Some(error) => found == Err::<Vec<NewsArticle>, ProviderError>(error),
        None => found matches Ok(articles) && article_views(articles@) == end.kept,
    }
}

/// A list of exchanges that is longer by one: the exchanges that were in
/// their place still are, and what the walk had come to before the new one is
/// what it had come to after the old ones.
pub proof fn lemma_exchange_added<S: PageSource>(
    source: S,
    query: QueryView,
    exchanges: Seq<(String, Result<Vec<GDeltaArticle>, ProviderError>)>,
    next: (String, Result<Vec<GDeltaArticle>, ProviderError>),
)
    requires
        forall|k: int| 0 <= k < exchanges.len() ==> #[trigger] exchange_fits(source, query, exchanges, k),
    ensures
        forall|k: int|
            0 <= k < exchanges.len() ==> #[trigger] exchange_fits(source, query, exchanges.push(next), k),
        answers_of(exchanges.push(next)).take(exchanges.len() as int) == answers_of(exchanges),
        answers_of(exchanges.push(next)).drop_last() == answers_of(exchanges),
        answers_of(exchanges.push(next)).last() == next.1,
{
    let longer = exchanges.push(next);
    assert(answers_of(longer).take(exchanges.len() as int) =~= answers_of(exchanges));
    assert(answers_of(longer).drop_last() =~= answers_of(exchanges));
    assert forall|k: int| 0 <= k < exchanges.len() implies #[trigger] exchange_fits(
        source,
        query,
        longer,
        k,
    ) by {
        assert(exchange_fits(source, query, exchanges, k));
        assert(answers_of(longer).take(k) =~= answers_of(exchanges).take(k));
        assert(longer[k] == exchanges[k]);
    }
}

/// How many seconds of the range the walk has still to cover.
pub open spec fn remaining(cursor: CursorView) -> int {
    if cursor.open {
        cursor.range_end - cursor.window_start
    } else {
        0
    }
}

/// A page either ends the walk or leaves strictly less of the range to cover:
/// the walk through any query is finite.
pub proof fn lemma_page_shortens_walk(cursor: CursorView, received: int, seen: Seq<int>)
    requires
        cursor.open,
        cursor.window_start < cursor.range_end,
    ensures
        after_page(cursor, received, seen).range_end == cursor.range_end,
        !after_page(cursor, received, seen).open || cursor.window_start < after_page(
            cursor,
            received,
            seen,
        ).window_start < cursor.range_end,
        remaining(after_page(cursor, received, seen)) < remaining(cursor),
{
}

/// A page of as many records as a page can hold counts as full, whether or
/// not each of them became an article: where the most recent of its articles
/// was seen after the start of the window, the window moves to that second,
/// the articles are kept, and another page is asked for if that second is
/// before the end of the range.
pub proof fn lemma_full_page_moves_window(cursor: CursorView, views: Seq<ArticleView>)
    requires
        cursor.open,
        views.len() > 0,
        cursor.window_start < latest(seen_of(views)),
    ensures
        after_page(cursor, PAGE_SIZE as int, seen_of(views)) == (CursorView {
            window_start: latest(seen_of(views)),
            range_end: cursor.range_end,
            open: latest(seen_of(views)) < cursor.range_end,
        }),
        page_kept(cursor, PAGE_SIZE as int, views) == Ok::<Seq<ArticleView>, ProviderError>(views),
{
}

/// A page of more records than a page can hold ends the walk with an error,
/// whatever became of the records, and nothing of it is kept.
pub proof fn lemma_oversized_page_ends_walk(cursor: CursorView, received: int, views: Seq<ArticleView>)
    requires
        cursor.open,
        received > PAGE_SIZE,
    ensures
        !after_page(cursor, received, seen_of(views)).open,
        page_kept(cursor, received, views) == Err::<Seq<ArticleView>, ProviderError>(
            ProviderError::OversizedPage(received as usize),
        ),
{
}

/// A full page of which no record became an article ends the walk with an
/// error: it may have been cut off, and nothing on it says from where to go
/// on.
pub proof fn lemma_full_page_without_article_ends_walk(cursor: CursorView)
    requires
        cursor.open,
    ensures
        !after_page(cursor, PAGE_SIZE as int, Seq::empty()).open,
        page_kept(cursor, PAGE_SIZE as int, Seq::empty()) == Err::<Seq<ArticleView>, ProviderError>(
            ProviderError::StalePage,
        ),
{
    assert(seen_of(Seq::<ArticleView>::empty()) =~= Seq::<int>::empty());
}

/// A full page whose articles, of which there is at least one, were all seen
/// at the very second the window starts moves the window on by one second.
pub proof fn lemma_tie_moves_one_second(cursor: CursorView, seen: Seq<int>)
    requires
        cursor.open,
        seen.len() > 0,
        forall|i: int| 0 <= i < seen.len() ==> seen[i] == cursor.window_start,
    ensures
        after_page(cursor, PAGE_SIZE as int, seen).window_start == cursor.window_start + 1,
        after_page(cursor, PAGE_SIZE as int, seen).open == (cursor.window_start + 1 < cursor.range_end),
{
    lemma_latest_is_greatest(seen);
    let at = seen.index_of(latest(seen));
    assert(seen[at] == cursor.window_start);
}

/// The walk through the pages of one query: the window that the next page is
/// asked for, and whether there is a next page at all.
#[derive(Debug)]
pub struct FetchCursor {
    window_start: Timestamp,
    range_end: Timestamp,
    open: bool,
}

impl View for FetchCursor {
    type V = CursorView;

    closed spec fn view(&self) -> CursorView {
        CursorView { window_start: self.window_start@, range_end: self.range_end@, open: self.open }
    }
}

impl FetchCursor {
    #[verifier::type_invariant]
    spec fn window_not_empty(self) -> bool {
        self.open ==> self.window_start@ < self.range_end@
    }

    /// The start of a walk over `range`.
    pub fn begin(range: &DateRange) -> (cursor: FetchCursor)
        ensures
            cursor@ == (CursorView {
                window_start: range.start_seconds(),
                range_end: range.end_seconds(),
                open: true,
            }),
    {
        FetchCursor { window_start: range.start(), range_end: range.end(), open: true }
    }

    /// Whether another page is to be asked for.
    pub fn is_open(&self) -> (open: bool)
        ensures
            open == self@.open,
            open ==> self@.window_start < self@.range_end,
    {
        proof {
            use_type_invariant(self);
        }
        self.open
    }

    /// The second from which the next page is asked.
    pub fn window_start(&self) -> (t: Timestamp)
        ensures
            t@ == self@.window_start,
    {
        self.window_start
    }

    /// The second at which the query's range ends.
    pub fn range_end(&self) -> (t: Timestamp)
        ensures
            t@ == self@.range_end,
    {
        self.range_end
    }

    /// The address of the page for the current window of a walk through the
    /// pages of `query`.
    pub fn page_url(&self, query: &ArticleQuery) -> (url: String)
        ensures
            url@ == page_address(query@, self@),
    {
        build_url(self.window_start, self.range_end, &query.source_country, query.category.clone())
    }

    /// Takes the page that was fetched for the current window, as the number
    /// of records that the provider put on it and the articles that they
    /// became. Moves the window or ends the walk, and hands on what the caller
    /// is to keep of the page.
    pub fn advance(
        &mut self,
        received: usize,
        page: Vec<NewsArticle>,
    ) -> (kept: Result<Vec<NewsArticle>, ProviderError>)
        ensures
            final(self)@ == after_page(old(self)@, received as int, seen_seconds(page@)),
            match page_outcome(old(self)@, received as int, page@) {
                Ok(articles) => kept matches Ok(k) && k@ == articles,
                Err(error) => kept == Err::<Vec<NewsArticle>, ProviderError>(error),
            },
    {
        proof {
            use_type_invariant(&*self);
        }
        if !self.open {
            return Ok(Vec::new());
        }
        if received == 0 {
            self.open = false;
            return Ok(Vec::new());
        }
        if received < PAGE_SIZE {
            self.open = false;
            return Ok(page);
        }
        if received > PAGE_SIZE {
            self.open = false;
            return Err(ProviderError::OversizedPage(received));
        }
        let t: Timestamp = match latest_seen(&page) {
            Some(t) => t,
            None => {
                self.open = false;
                return Err(ProviderError::StalePage);
            },
        };
        let start: i64 = self.window_start.seconds();
        let end: i64 = self.range_end.seconds();
        let latest: i64 = t.seconds();
        if latest < start {
            self.open = false;
            return Err(ProviderError::StalePage);
        }
        let moved: i64 = if latest == start {
            start + 1
        } else {
            latest
        };
        match Timestamp::new(moved) {
            Some(next) => {
                *self = FetchCursor { window_start: next, range_end: self.range_end, open: moved < end };
            },
            None => {
                self.open = false;
            },
        }
        Ok(page)
    }
}

/// The search client for the GDELT project's article list: walks the pages of
/// a query through a [`PageSource`] and keeps what becomes an article.
pub struct GDeltaProjectNewsSearchAdapter<S, L> {
    source: S,
    logger: L,
}

impl<S: PageSource, L: Logger> GDeltaProjectNewsSearchAdapter<S, L> {
    /// The page source that the client holds.
    pub closed spec fn held_source(&self) -> S {
        self.source
    }

    /// The logger that the client holds.
    pub closed spec fn held_logger(&self) -> L {
        self.logger
    }

    /// A client that fetches its pages from `source` and remarks to `logger`.
    pub fn new(source: S, logger: L) -> (client: Self)
        ensures
            client.held_source() == source,
            client.held_logger() == logger,
    {
        GDeltaProjectNewsSearchAdapter { source, logger }
    }

    /// The page source, as the walks have left it.
    pub fn source(&self) -> (source: &S)
        ensures
            *source == self.held_source(),
    {
        &self.source
    }
}

impl<S: PageSource, L: Logger> NewsSearchClient for GDeltaProjectNewsSearchAdapter<S, L> {
    /// Asks the page source for page after page, each for the window that the
    /// page before left, until a page ends the walk. The articles kept of all
    /// the pages are handed on in their order. A failure of the source or a
    /// page that breaks the provider's rules ends the walk with that error,
    /// and nothing of the query is handed on. The page source is only asked.
    fn query_for_articles(&mut self, query: &ArticleQuery) -> (found: Result<Vec<NewsArticle>, ProviderError>)
        ensures
            final(self).held_source() == old(self).held_source(),
            final(self).held_logger() == old(self).held_logger(),
            exists|exchanges: Seq<(String, Result<Vec<GDeltaArticle>, ProviderError>)>|
                walked(old(self).held_source(), query@, exchanges, found),
            found matches Ok(articles) ==> forall|k: int|
                0 <= k < articles.len() ==> (#[trigger] articles[k])@.category == query@.category
                    && articles[k]@.country == query@.source_country,
    {
        self.logger.debug("Fetching articles");
        let mut cursor = FetchCursor::begin(&query.date_range);
        let mut all_articles: Vec<NewsArticle> = Vec::new();
        let ghost source = self.source;
        let ghost mut exchanges: Seq<(String, Result<Vec<GDeltaArticle>, ProviderError>)> = Seq::empty();
        proof {
            assert(article_views(all_articles@) =~= Seq::empty());
        }
        while cursor.is_open()
            invariant
                self.source == source,
                source == old(self).held_source(),
                exchanges.len() > 0 || cursor@.open,
                forall|k: int| 0 <= k < exchanges.len() ==> #[trigger] exchange_fits(source, query@, exchanges, k),
                walk_state(query@, answers_of(exchanges)).cursor == cursor@,
                walk_state(query@, answers_of(exchanges)).kept == article_views(all_articles@),
                walk_state(query@, answers_of(exchanges)).failure is None,
                forall|k: int|
                    0 <= k < all_articles.len() ==> (#[trigger] all_articles[k])@.category == query@.category
                        && all_articles[k]@.country == query@.source_country,
            decreases remaining(cursor@),
        {
            let url = cursor.page_url(query);
            let fetched = self.source.fetch_page(&url);
            let ghost before = exchanges;
            proof {
                exchanges = before.push((url, fetched));
                lemma_exchange_added(source, query@, before, (url, fetched));
                assert(exchange_fits(source, query@, exchanges, before.len() as int));
            }
            let records = match fetched {
                Ok(records) => records,
                Err(error) => {
                    self.logger.warn("Error calling URL");
                    proof {
                        assert(walked(source, query@, exchanges, Err::<Vec<NewsArticle>, ProviderError>(error)));
                    }
                    return Err(error);
                },
            };
            let received: usize = records.len();
            let page = to_news_article(records, &query.category, &query.source_country);
            let dropped: usize = received - page.len();
            if dropped > 0 {
                let mut remark = String::from_str("Records that did not become an article: ");
                remark.append(decimal(dropped as u64).as_str());
                self.logger.debug(remark.as_str());
            }
            let ghost kept_before = article_views(all_articles@);
            proof {
                lemma_page_shortens_walk(cursor@, received as int, seen_seconds(page@));
                lemma_normalized_all_keeps_query(
                    record_views(records@),
                    query.category@,
                    query.source_country@,
                );
                assert forall|k: int| 0 <= k < page.len() implies (#[trigger] page[k])@.category
                    == query@.category && page[k]@.country == query@.source_country by {
                    assert(article_views(page@)[k] == page[k]@);
                }
                assert(seen_seconds(page@) =~= seen_of(article_views(page@)));
            }
            match cursor.advance(received, page) {
                Ok(mut kept) => {
                    proof {
                        assert(article_views(kept@) =~= page_kept(
                            walk_state(query@, answers_of(before)).cursor,
                            received as int,
                            article_views(page@),
                        )->Ok_0);
                    }
                    let ghost taken = article_views(kept@);
                    all_articles.append(&mut kept);
                    proof {
                        assert(article_views(all_articles@) =~= kept_before + taken);
                    }
                },
                Err(error) => {
                    self.logger.error("An unexpected page was returned");
                    proof {
                        assert(walked(source, query@, exchanges, Err::<Vec<NewsArticle>, ProviderError>(error)));
                    }
                    return Err(error);
                },
            }
        }
        self.logger.debug("No more pages");
        proof {
            assert(walked(source, query@, exchanges, Ok::<Vec<NewsArticle>, ProviderError>(all_articles)));
        }
        Ok(all_articles)
    }
}

} // verus!
