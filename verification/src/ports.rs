//! What the pipeline needs from the outside: a place to log, a search
//! provider, and a repository of articles.

use crate::article::{GDeltaArticle, NewsArticle};
use crate::country::Country;
use crate::query::ArticleQuery;
use crate::service::NewsServiceError;
use crate::time::DateRange;
use vstd::prelude::*;

verus! {

/// Why the provider gave no articles for a query.
#[derive(Debug, PartialEq, Eq)]
pub enum ProviderError {
    /// The request failed, was answered with an error status, or its answer
    /// could not be read; the text says which.
    Unavailable(String),
    /// A page held more records than the provider's page size allows; the
    /// number is how many it held.
    OversizedPage(usize),
    /// A full page held nothing as recent as the start of the window that was
    /// asked for, so the window cannot move forward: none of its records
    /// became an article, or none of its articles is as recent.
    StalePage,
}

/// Why the repository could not do what it was asked.
#[derive(Debug, PartialEq, Eq)]
pub struct StorageError {
    pub message: String,
}

/// What the pipeline offers: stored articles by category, the list of allowed
/// categories, and the synchronisation with the provider.
pub trait NewsService {
    /// The stored articles of any of `category` seen within `date_range`.
    fn get_articles_by_categories(
        &mut self,
        category: Vec<String>,
        date_range: DateRange,
    ) -> Result<Vec<NewsArticle>, StorageError>;

    /// Whether `category` is allowed.
    fn is_valid_category(&mut self, category: String) -> Result<bool, StorageError>;

    /// Allows `category`; says whether it was new.
    fn add_category(&mut self, category: String) -> Result<bool, StorageError>;

    /// Fetches the articles for `query` from the provider and stores them;
    /// gives the number of articles for which a row or a link was added.
    fn fetch_and_store_articles(&mut self, query: ArticleQuery) -> Result<usize, NewsServiceError>;

    /// Fetches and stores the articles of every allowed category from every
    /// known country over `date_range`; gives the number of articles for
    /// which a row or a link was added.
    fn sync_articles(&mut self, date_range: DateRange) -> Result<u128, NewsServiceError>;
}

/// A place for the pipeline's remarks.
pub trait Logger {
    fn debug(&self, msg: &str);

    fn info(&self, msg: &str);

    fn warn(&self, msg: &str);

    fn error(&self, msg: &str);

    fn fatal(&self, msg: &str);
}

/// The provider's endpoint: answers the address of one page with the records
/// on it.
pub trait PageSource {
    fn fetch_page(&self, url: &String) -> Result<Vec<GDeltaArticle>, ProviderError>;
}

/// A search provider: gives all the articles for one query.
pub trait NewsSearchClient {
    fn query_for_articles(&mut self, query: &ArticleQuery) -> Result<Vec<NewsArticle>, ProviderError>;
}

/// The store of articles, categories and countries.
pub trait NewsRepository {
    /// The stored articles of any of `categories` seen within `date_range`,
    /// both ends included.
    fn get_articles_by_categories(
        &mut self,
        categories: Vec<String>,
        date_range: DateRange,
    ) -> Result<Vec<NewsArticle>, StorageError>;

    /// Stores what is new among `articles` and links each to its category;
    /// gives the number of articles for which a row or a link was added.
    fn store_articles(&mut self, articles: Vec<NewsArticle>) -> Result<usize, StorageError>;

    /// Allows `category`; says whether it was new.
    fn add_category(&mut self, category: String) -> Result<bool, StorageError>;

    /// Whether `category` is allowed.
    fn is_valid_category(&mut self, category: String) -> Result<bool, StorageError>;

    /// The allowed categories.
    fn get_categories(&mut self) -> Result<Vec<String>, StorageError>;

    /// The countries to search.
    fn get_countries(&mut self) -> Result<Vec<Country>, StorageError>;
}

} // verus!
