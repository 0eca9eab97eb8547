//! Synchronisation of news articles from a paged search provider into a
//! deduplicating article store.
//!
//! The library holds the rules of the pipeline: which queries a run is made of,
//! how the fetch window moves from one page to the next, which provider records
//! become articles, and what a batch does to the store. Network and database
//! traffic are the caller's business and reach the library through the traits
//! of [`ports`].

pub mod article;
pub mod country;
pub mod gdelt;
pub mod nyt;
pub mod ports;
pub mod query;
pub mod rest;
pub mod service;
pub mod store;
pub mod time;
