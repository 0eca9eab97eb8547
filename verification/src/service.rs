//! The pipeline itself: one query fetched and stored, and a whole run of them.

use crate::article::{ArticleView, NewsArticle};
use crate::store::{after_batch, batch_counts, ArticleStore};
use crate::ports::{Logger, NewsRepository, NewsSearchClient, ProviderError, StorageError};
use crate::country::Country;
use crate::query::{country_views, cross_product, query_views, text_views, ArticleQuery, QueryView};
use crate::time::DateRange;
use vstd::prelude::*;

verus! {

/// Why a query brought nothing into the repository.
#[derive(Debug, PartialEq, Eq)]
pub enum NewsServiceError {
    /// The query names a category that is not allowed.
    InvalidCategory(String),
    /// The repository failed.
    RepositoryError(StorageError),
    /// The provider failed, or broke its own rules.
    ProviderError(ProviderError),
}

/// The words for a provider that failed with `error`.
pub open spec fn provider_words(error: ProviderError) -> Seq<char> {
    match error {
        ProviderError::Unavailable(text) => "Provider error: "@ + text@,
        ProviderError::OversizedPage(_) => "Provider error: a page holds more than a page may hold"@,
        ProviderError::StalePage => "Provider error: a full page ends before its window starts"@,
    }
}

/// The words for `error`.
pub open spec fn error_words(error: NewsServiceError) -> Seq<char> {
    match error {
        NewsServiceError::InvalidCategory(category) => "Invalid category: "@ + category@,
        NewsServiceError::RepositoryError(inner) => "Repository error: "@ + inner.message@,
        NewsServiceError::ProviderError(inner) => provider_words(inner),
    }
}

impl NewsServiceError {
    /// The error in words.
    pub fn message(&self) -> (text: String)
        ensures
            text@ == error_words(*self),
    {
        match self {
            NewsServiceError::InvalidCategory(category) => {
                let mut text = String::from_str("Invalid category: ");
                text.append(category.as_str());
                text
            },
            NewsServiceError::RepositoryError(inner) => {
                let mut text = String::from_str("Repository error: ");
                text.append(inner.message.as_str());
                text
            },
            NewsServiceError::ProviderError(ProviderError::Unavailable(inner)) => {
                let mut text = String::from_str("Provider error: ");
                text.append(inner.as_str());
                text
            },
            NewsServiceError::ProviderError(ProviderError::OversizedPage(_)) => String::from_str(
                "Provider error: a page holds more than a page may hold",
            ),
            NewsServiceError::ProviderError(ProviderError::StalePage) => String::from_str(
                "Provider error: a full page ends before its window starts",
            ),
        }
    }
}

/// Lets a query of `category` through where the repository's `answer` is that
/// the category is allowed; any other answer becomes the query's error.
pub fn check_category(
    answer: Result<bool, StorageError>,
    category: &String,
) -> (checked: Result<(), NewsServiceError>)
    ensures
        match answer {
            Ok(true) => checked is Ok,
            Ok(false) => checked matches Err(NewsServiceError::InvalidCategory(named)) && named@ == category@,
            Err(error) => checked == Err::<(), NewsServiceError>(NewsServiceError::RepositoryError(error)),
        },
{
    match answer {
        Ok(true) => Ok(()),
        Ok(false) => Err(NewsServiceError::InvalidCategory(category.clone())),
        Err(error) => Err(NewsServiceError::RepositoryError(error)),
    }
}

/// What a query goes on with once the provider has answered: the articles, or
/// the provider's failure as the query's error.
pub fn fetched_articles(
    fetched: Result<Vec<NewsArticle>, ProviderError>,
) -> (articles: Result<Vec<NewsArticle>, NewsServiceError>)
    ensures
        match fetched {
            Ok(found) => articles == Ok::<Vec<NewsArticle>, NewsServiceError>(found),
            Err(error) => articles == Err::<Vec<NewsArticle>, NewsServiceError>(
                NewsServiceError::ProviderError(error),
            ),
        },
{
    match fetched {
        Ok(found) => Ok(found),
        Err(error) => Err(NewsServiceError::ProviderError(error)),
    }
}

/// What a query comes to once the repository has answered `stored` to its
/// articles.
pub open spec fn outcome_of(stored: Result<usize, StorageError>) -> Result<usize, NewsServiceError> {
    match stored {
        Ok(count) => Ok(count),
        Err(error) => Err(NewsServiceError::RepositoryError(error)),
    }
}

/// What a query comes to once the repository has answered: the number it
/// added a row or a link for, or the repository's failure as the query's
/// error.
pub fn stored_count(stored: Result<usize, StorageError>) -> (outcome: Result<usize, NewsServiceError>)
    ensures
        outcome == outcome_of(stored),
{
    match stored {
        Ok(count) => Ok(count),
        Err(error) => Err(NewsServiceError::RepositoryError(error)),
    }
}

/// What a run goes on with once the repository has listed its categories or
/// its countries: the list, or the repository's failure as the run's error.
pub fn listed<T>(list: Result<Vec<T>, StorageError>) -> (items: Result<Vec<T>, NewsServiceError>)
    ensures
        match list {
            Ok(found) => items == Ok::<Vec<T>, NewsServiceError>(found),
            Err(error) => items == Err::<Vec<T>, NewsServiceError>(NewsServiceError::RepositoryError(error)),
        },
{
    match list {
        Ok(found) => Ok(found),
        Err(error) => Err(NewsServiceError::RepositoryError(error)),
    }
}

/// What one query adds to the count of a run: what it stored, or nothing where
/// it failed.
pub open spec fn gained(outcome: Result<usize, NewsServiceError>) -> int {
    match outcome {
        Ok(count) => count as int,
        Err(_) => 0,
    }
}

/// What the queries of a run add up to.
pub open spec fn total_of(outcomes: Seq<Result<usize, NewsServiceError>>) -> int
    decreases outcomes.len(),
{
    if outcomes.len() == 0 {
        0
    } else {
        total_of(outcomes.drop_last()) + gained(outcomes.last())
    }
}

/// The count of a run never exceeds what its queries could have stored at
/// most.
pub proof fn lemma_total_bounded(outcomes: Seq<Result<usize, NewsServiceError>>)
    ensures
        0 <= total_of(outcomes) <= outcomes.len() * usize::MAX,
    decreases outcomes.len(),
{
    if outcomes.len() > 0 {
        lemma_total_bounded(outcomes.drop_last());
        assert((outcomes.len() - 1) * usize::MAX + usize::MAX == outcomes.len() * usize::MAX)
            by (nonlinear_arith);
    }
}

/// A failed query adds nothing: the count of a run is the same whether the
/// query failed or was never part of it.
pub proof fn lemma_failure_adds_nothing(outcomes: Seq<Result<usize, NewsServiceError>>, k: int)
    requires
        0 <= k < outcomes.len(),
        outcomes[k] is Err,
    ensures
        total_of(outcomes) == total_of(outcomes.remove(k)),
    decreases outcomes.len(),
{
    if k == outcomes.len() - 1 {
        assert(outcomes.remove(k) == outcomes.drop_last());
    } else {
        lemma_failure_adds_nothing(outcomes.drop_last(), k);
        assert(outcomes.remove(k).drop_last() == outcomes.drop_last().remove(k));
    }
}

/// What one query adds to the count of a run.
pub fn contribution(outcome: &Result<usize, NewsServiceError>) -> (count: usize)
    ensures
        count == gained(*outcome),
{
    match outcome {
        Ok(count) => *count,
        Err(_) => 0,
    }
}

/// Adds up the count of a run from what each of its queries came to.
pub fn tally(outcomes: &Vec<Result<usize, NewsServiceError>>) -> (total: u128)
    ensures
        total == total_of(outcomes@),
{
    let mut total: u128 = 0;
    let mut i: usize = 0;
    while i < outcomes.len()
        invariant
            i <= outcomes.len(),
            total == total_of(outcomes@.take(i as int)),
        decreases outcomes.len() - i,
    {
        proof {
            assert(outcomes@.take(i + 1).drop_last() == outcomes@.take(i as int));
            lemma_total_bounded(outcomes@.take(i as int));
            assert(i * usize::MAX + usize::MAX <= 0xffff_ffff_ffff_ffff * 0xffff_ffff_ffff_ffff
                + 0xffff_ffff_ffff_ffff) by (nonlinear_arith)
                requires
                    0 <= i <= 0xffff_ffff_ffff_ffff,
                    0 <= usize::MAX <= 0xffff_ffff_ffff_ffff,
            ;
        }
        total = total + contribution(&outcomes[i]) as u128;
        i += 1;
    }
    proof {
        assert(outcomes@.take(i as int) == outcomes@);
    }
    total
}

/// How a run went: what each query came to, in the order of the queries, and
/// what they add up to.
#[derive(Debug)]
pub struct SyncReport {
    pub total: u128,
    pub outcomes: Vec<Result<usize, NewsServiceError>>,
}

/// Whether `report` is a report on a run over `queries`: it holds one outcome
/// for each of them, in their order, its total is what the outcomes add up
/// to, and where it says that a category is invalid, it names the category of
/// the query in that place.
pub open spec fn ran_over(report: SyncReport, queries: Seq<QueryView>) -> bool {
    &&& report.outcomes@.len() == queries.len()
    &&& report.total == total_of(report.outcomes@)
    &&& forall|k: int|
        0 <= k < queries.len() ==> ((#[trigger] report.outcomes@[k]) matches Err(
            NewsServiceError::InvalidCategory(named),
        ) ==> named@ == queries[k].category)
}

/// A query run over the store in memory. Where it comes to a count, the
/// store allowed the query's category, the search client gave some articles,
/// the store afterwards is the store before with those articles handed to it
/// as a batch, and the count is that of the articles for which the batch
/// added a row or a link. Where it comes to an error, the store is as it
/// was.
pub proof fn lemma_query_over_store<C: NewsSearchClient, L: Logger>(
    before: NewsService<ArticleStore, C, L>,
    after: NewsService<ArticleStore, C, L>,
    query: ArticleQuery,
    outcome: Result<usize, NewsServiceError>,
)
    requires
        query_ran(before, after, query, outcome),
    ensures
        outcome is Err ==> after.held_repository()@ == before.held_repository()@,
        outcome matches Ok(count) ==> before.held_repository()@.categories.contains(query.category@)
            && exists|articles: Seq<ArticleView>|
            after.held_repository()@ == after_batch(before.held_repository()@, articles) && count
                == batch_counts(before.held_repository()@, articles).added,
{
    let service = choose|service: &mut NewsService<ArticleStore, C, L>|
        *service == before && call_ensures(
            NewsService::<ArticleStore, C, L>::run_query,
            (service, &query),
            (outcome, Ghost(after)),
        );
    assert(call_ensures(
        NewsService::<ArticleStore, C, L>::run_query,
        (service, &query),
        (outcome, Ghost(after)),
    ));
}

/// The count that a run comes to: the total of its report, or its failure.
pub open spec fn total_of_run(synced: Result<SyncReport, NewsServiceError>) -> Result<u128, NewsServiceError> {
    match synced {
        Ok(report) => Ok(report.total),
        Err(error) => Err(error),
    }
}

/// The pipeline over a repository and a search client.
pub struct NewsService<R, C, L> {
    logger: L,
    news_repository: R,
    news_search_client: C,
}

/// Whether the pipeline as it was in `before`, run for `query`, can come to
/// `outcome` and be left as `after`: whether that is a way
/// [`NewsService::run_query`] can go.
pub open spec fn query_ran<R: NewsRepository, C: NewsSearchClient, L: Logger>(
    before: NewsService<R, C, L>,
    after: NewsService<R, C, L>,
    query: ArticleQuery,
    outcome: Result<usize, NewsServiceError>,
) -> bool {
    exists|service: &mut NewsService<R, C, L>|
        *service == before && call_ensures(
            NewsService::<R, C, L>::run_query,
            (service, &query),
            (outcome, Ghost(after)),
        )
}

/// Whether the pipeline as it was in `first`, run for each of `queries` in
/// turn, can come to `outcomes` and be left as `last`: each query starts with
/// the pipeline as the query before it left it.
pub open spec fn queries_ran<R: NewsRepository, C: NewsSearchClient, L: Logger>(
    first: NewsService<R, C, L>,
    last: NewsService<R, C, L>,
    queries: Seq<ArticleQuery>,
    outcomes: Seq<Result<usize, NewsServiceError>>,
) -> bool {
    exists|states: Seq<NewsService<R, C, L>>|
        states.len() == queries.len() + 1 && outcomes.len() == queries.len() && states[0] == first
            && states[queries.len() as int] == last && forall|k: int|
            0 <= k < queries.len() ==> query_ran(states[k], states[k + 1], queries[k], #[trigger] outcomes[k])
}

impl<R: NewsRepository, C: NewsSearchClient, L: Logger> NewsService<R, C, L> {
    /// The repository that the pipeline holds.
    pub closed spec fn held_repository(&self) -> R {
        self.news_repository
    }

    /// The search client that the pipeline holds.
    pub closed spec fn held_search_client(&self) -> C {
        self.news_search_client
    }

    /// The logger that the pipeline holds.
    pub closed spec fn held_logger(&self) -> L {
        self.logger
    }

    /// A pipeline that stores into `news_repository` what it fetches from
    /// `news_search_client`, and remarks to `logger`.
    pub fn new(logger: L, news_repository: R, news_search_client: C) -> (service: Self)
        ensures
            service.held_logger() == logger,
            service.held_repository() == news_repository,
            service.held_search_client() == news_search_client,
    {
        NewsService { logger, news_repository, news_search_client }
    }

    /// The repository, as the pipeline has left it.
    pub fn repository(&self) -> (repository: &R)
        ensures
            *repository == self.held_repository(),
    {
        &self.news_repository
    }

    /// The search client, as the pipeline has left it.
    pub fn search_client(&self) -> (client: &C)
        ensures
            *client == self.held_search_client(),
    {
        &self.news_search_client
    }

    /// Fetches and stores the articles of one query.
    ///
    /// The repository is first asked whether it allows the query's category.
    /// Unless it says yes, that ends the query, with the category named as
    /// invalid or with the repository's failure, and the search client is not
    /// touched. Else the search client is asked for the articles of the query.
    /// Its failure ends the query; its articles are handed to the repository
    /// as they are, and what the repository says of them is the outcome.
    /// Repository and search client are left as these calls left them.
    pub fn fetch_and_store(&mut self, query: &ArticleQuery) -> (outcome: Result<usize, NewsServiceError>)
        ensures
            outcome matches Err(NewsServiceError::InvalidCategory(named)) ==> named@ == query.category@,
            final(self).held_logger() == old(self).held_logger(),
            exists|asking: &mut R, answer: Result<bool, StorageError>|
                *asking == old(self).held_repository() && call_ensures(
                    R::is_valid_category,
                    (asking, query.category),
                    answer,
                ) && match answer {
                    Ok(true) => exists|client: &mut C, fetched: Result<Vec<NewsArticle>, ProviderError>|
                        *client == old(self).held_search_client()
                            && *final(client) == final(self).held_search_client()
                            && call_ensures(C::query_for_articles, (client, query), fetched)
                            && match fetched {
                            Ok(articles) => exists|storing: &mut R, stored: Result<usize, StorageError>|
                                *storing == *final(asking)
                                    && *final(storing) == final(self).held_repository()
                                    && call_ensures(R::store_articles, (storing, articles), stored)
                                    && outcome == outcome_of(stored),
                            Err(error) => *final(asking) == final(self).held_repository()
                                && outcome == Err::<usize, NewsServiceError>(
                                NewsServiceError::ProviderError(error),
                            ),
                        },
                    Ok(false) => *final(asking) == final(self).held_repository()
                        && final(self).held_search_client() == old(self).held_search_client()
                        && (outcome matches Err(NewsServiceError::InvalidCategory(named)) && named@
                        == query.category@),
                    Err(error) => *final(asking) == final(self).held_repository()
                        && final(self).held_search_client() == old(self).held_search_client()
                        && outcome == Err::<usize, NewsServiceError>(NewsServiceError::RepositoryError(error)),
                },
    {
        let answer = self.news_repository.is_valid_category(query.category.clone());
        match check_category(answer, &query.category) {
            Ok(()) => {},
            Err(error) => {
                self.logger.debug("category is not valid");
                return Err(error);
            },
        }
        self.logger.debug("starting fetch and store articles");
        let fetched = self.news_search_client.query_for_articles(query);
        let articles = match fetched_articles(fetched) {
            Ok(articles) => articles,
            Err(error) => {
                self.logger.warn("Error fetching articles");
                return Err(error);
            },
        };
        let stored = self.news_repository.store_articles(articles);
        let outcome = stored_count(stored);
        if outcome.is_err() {
            self.logger.error("Error storing articles");
        }
        outcome
    }

    /// Fetches and stores the articles of one query as
    /// [`NewsService::fetch_and_store`] does, and hands back with the outcome
    /// the pipeline as the query left it.
    pub fn run_query(&mut self, query: &ArticleQuery) -> (ran: (Result<usize, NewsServiceError>, Ghost<Self>))
        ensures
            ran.1@ == *final(self),
            final(self).held_logger() == old(self).held_logger(),
            ran.0 matches Err(NewsServiceError::InvalidCategory(named)) ==> named@ == query.category@,
            exists|service: &mut Self|
                *service == *old(self) && *final(service) == *final(self) && call_ensures(
                    Self::fetch_and_store,
                    (service, query),
                    ran.0,
                ),
    {
        let outcome = self.fetch_and_store(query);
        (outcome, Ghost(*self))
    }

    /// Fetches and stores the articles of each of `queries` in turn, each as
    /// [`NewsService::fetch_and_store`] does and each starting with the
    /// pipeline as the query before it left it. A query that fails is
    /// remarked and adds nothing to the count; the queries after it are run
    /// all the same.
    pub fn run_queries(&mut self, queries: &Vec<ArticleQuery>) -> (report: SyncReport)
        ensures
            report.outcomes.len() == queries.len(),
            report.total == total_of(report.outcomes@),
            forall|k: int|
                0 <= k < queries.len() ==> ((#[trigger] report.outcomes[k]) matches Err(
                    NewsServiceError::InvalidCategory(named),
                ) ==> named@ == queries[k].category@),
            queries_ran(*old(self), *final(self), queries@, report.outcomes@),
            final(self).held_logger() == old(self).held_logger(),
    {
        let mut outcomes: Vec<Result<usize, NewsServiceError>> = Vec::new();
        let mut i: usize = 0;
        let ghost mut states: Seq<Self> = seq![*self];
        while i < queries.len()
            invariant
                i <= queries.len(),
                outcomes.len() == i,
                forall|k: int|
                    0 <= k < i ==> ((#[trigger] outcomes[k]) matches Err(
                        NewsServiceError::InvalidCategory(named),
                    ) ==> named@ == queries[k].category@),
                self.logger == old(self).held_logger(),
                states.len() == i + 1,
                states[0] == *old(self),
                states[i as int] == *self,
                forall|k: int|
                    0 <= k < i ==> query_ran(states[k], states[k + 1], queries[k], #[trigger] outcomes[k]),
            decreases queries.len() - i,
        {
            let ghost before = *self;
            let ghost states_before = states;
            let ghost outcomes_before = outcomes@;
            let ran = self.run_query(&queries[i]);
            let outcome = ran.0;
            if outcome.is_err() {
                self.logger.warn("A query failed and adds nothing to the count");
            }
            outcomes.push(outcome);
            proof {
                states = states.push(*self);
                assert(query_ran(before, *self, queries[i as int], outcome));
                assert forall|k: int| 0 <= k < i + 1 implies query_ran(
                    states[k],
                    states[k + 1],
                    queries[k],
                    #[trigger] outcomes[k],
                ) by {
                    if k < i {
                        assert(query_ran(states_before[k], states_before[k + 1], queries[k], outcomes_before[k]));
                    }
                }
            }
            i += 1;
        }
        let total = tally(&outcomes);
        SyncReport { total, outcomes }
    }

    /// Fetches and stores the articles of every allowed category from every
    /// known country over `date_range`, and reports on each query.
    ///
    /// The repository is asked for its categories and then for its countries.
    /// If it fails at either, its failure ends the run and the search client
    /// is not touched. Else there is one query for each pairing of a country
    /// with a category, country by country; they are run in that order as
    /// [`NewsService::run_queries`] runs them, and the report holds what each
    /// of them came to and what they add up to.
    pub fn sync(&mut self, date_range: DateRange) -> (run: Result<SyncReport, NewsServiceError>)
        ensures
            final(self).held_logger() == old(self).held_logger(),
            run matches Ok(report) ==> report.total == total_of(report.outcomes@),
            run matches Err(error) ==> error is RepositoryError,
            exists|listing: &mut R, categories: Result<Vec<String>, StorageError>|
                *listing == old(self).held_repository() && call_ensures(R::get_categories, (listing,), categories)
                    && match categories {
                    Err(error) => *final(listing) == final(self).held_repository()
                        && final(self).held_search_client() == old(self).held_search_client()
                        && run == Err::<SyncReport, NewsServiceError>(NewsServiceError::RepositoryError(error)),
                    Ok(names) => exists|locating: &mut R, countries: Result<Vec<Country>, StorageError>|
                        *locating == *final(listing) && call_ensures(R::get_countries, (locating,), countries)
                            && match countries {
                            Err(error) => *final(locating) == final(self).held_repository()
                                && final(self).held_search_client() == old(self).held_search_client()
                                && run == Err::<SyncReport, NewsServiceError>(
                                NewsServiceError::RepositoryError(error),
                            ),
                            Ok(places) => run matches Ok(report) && ran_over(
                                report,
                                cross_product(
                                    country_views(places@),
                                    text_views(names@),
                                    date_range.start_seconds(),
                                    date_range.end_seconds(),
                                ),
                            ) && exists|first: Self, queries: Seq<ArticleQuery>|
                                first.held_repository() == *final(locating)
                                    && first.held_search_client() == old(self).held_search_client()
                                    && query_views(queries) == cross_product(
                                    country_views(places@),
                                    text_views(names@),
                                    date_range.start_seconds(),
                                    date_range.end_seconds(),
                                ) && queries_ran(first, *final(self), queries, report.outcomes@),
                        },
                },
    {
        let categories = match listed(self.news_repository.get_categories()) {
            Ok(categories) => categories,
            Err(error) => {
                return Err(error);
            },
        };
        let countries = match listed(self.news_repository.get_countries()) {
            Ok(countries) => countries,
            Err(error) => {
                return Err(error);
            },
        };
        let queries = ArticleQuery::build_queries(categories, countries, date_range);
        let report = self.run_queries(&queries);
        self.logger.info("Synced articles");
        proof {
            assert forall|k: int| 0 <= k < queries.len() implies query_views(queries@)[k].category
                == queries[k].category@ by {}
        }
        Ok(report)
    }
}

impl<R: NewsRepository, C: NewsSearchClient, L: Logger> crate::ports::NewsService for NewsService<R, C, L> {
    /// The answer is the repository's own to the same question, and the
    /// repository is as its answering left it; the search client is not
    /// touched.
    fn get_articles_by_categories(
        &mut self,
        category: Vec<String>,
        date_range: DateRange,
    ) -> (found: Result<Vec<NewsArticle>, StorageError>)
        ensures
            exists|repository: &mut R|
                *repository == old(self).held_repository()
                    && *final(repository) == final(self).held_repository()
                    && call_ensures(R::get_articles_by_categories, (repository, category, date_range), found),
            final(self).held_search_client() == old(self).held_search_client(),
            final(self).held_logger() == old(self).held_logger(),
    {
        self.news_repository.get_articles_by_categories(category, date_range)
    }

    /// The answer is the repository's own to the same question, and the
    /// repository is as its answering left it; the search client is not
    /// touched.
    fn is_valid_category(&mut self, category: String) -> (valid: Result<bool, StorageError>)
        ensures
            exists|repository: &mut R|
                *repository == old(self).held_repository()
                    && *final(repository) == final(self).held_repository()
                    && call_ensures(R::is_valid_category, (repository, category), valid),
            final(self).held_search_client() == old(self).held_search_client(),
            final(self).held_logger() == old(self).held_logger(),
    {
        self.news_repository.is_valid_category(category)
    }

    /// The answer is the repository's own to the same request, and the
    /// repository is as the request left it; the search client is not
    /// touched.
    fn add_category(&mut self, category: String) -> (added: Result<bool, StorageError>)
        ensures
            exists|repository: &mut R|
                *repository == old(self).held_repository()
                    && *final(repository) == final(self).held_repository()
                    && call_ensures(R::add_category, (repository, category), added),
            final(self).held_search_client() == old(self).held_search_client(),
            final(self).held_logger() == old(self).held_logger(),
    {
        self.news_repository.add_category(category)
    }

    /// The repository is first asked whether it allows the query's category.
    /// Unless it says yes, that ends the query, with the category named as
    /// invalid or with the repository's failure, and the search client is not
    /// touched. Else the search client is asked for the articles of the query.
    /// Its failure ends the query; its articles are handed to the repository
    /// as they are, and what the repository says of them is the outcome.
    fn fetch_and_store_articles(&mut self, query: ArticleQuery) -> (outcome: Result<usize, NewsServiceError>)
        ensures
            outcome matches Err(NewsServiceError::InvalidCategory(named)) ==> named@ == query.category@,
            exists|service: &mut Self|
                *service == *old(self) && *final(service) == *final(self) && call_ensures(
                    Self::fetch_and_store,
                    (service, &query),
                    outcome,
                ),
    {
        self.fetch_and_store(&query)
    }

    /// Runs as [`NewsService::sync`] does, and gives the total of its report:
    /// what the queries of the run add up to, or the failure of a repository
    /// that could not list its categories or countries.
    fn sync_articles(&mut self, date_range: DateRange) -> (run: Result<u128, NewsServiceError>)
        ensures
            run matches Err(error) ==> error is RepositoryError,
            exists|service: &mut Self, synced: Result<SyncReport, NewsServiceError>|
                *service == *old(self) && *final(service) == *final(self) && call_ensures(
                    Self::sync,
                    (service, date_range),
                    synced,
                ) && run == total_of_run(synced),
    {
        match self.sync(date_range) {
            Ok(report) => Ok(report.total),
            Err(error) => Err(error),
        }
    }
}

} // verus!
