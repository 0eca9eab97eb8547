//! The top stories of the New York Times.

use crate::time::{day_start, day_start_seconds, timestamp_of, Timestamp, TimestampError};
use vstd::prelude::*;

verus! {

/// A client for the top stories, by its key for the service.
#[derive(Debug)]
pub struct NYTimesAdapter {
    api_key: String,
}

/// The address of the top stories for the holder of `api_key`.
pub open spec fn top_stories_address(api_key: Seq<char>) -> Seq<char> {
    "https://api.nytimes.com/svc/topstories/v2/home.json?api-key="@ + api_key
}

/// One story of the service's list, as it arrives.
#[derive(Debug)]
pub struct NYTArticle {
    pub title: String,
    pub abstract_text: String,
    pub published_date: String,
    pub url: String,
}

/// The story that leads the list.
#[derive(Debug)]
pub struct TopStory {
    pub title: String,
    pub abstract_text: String,
    pub published: Timestamp,
    pub url: String,
}

/// Why a list gave no top story.
#[derive(Clone, Copy, Debug, PartialEq, Eq, Structural)]
pub enum TopStoryError {
    /// The list is empty.
    NoArticles,
    /// The first story's day of publication cannot be read.
    UnreadableDate(TimestampError),
}

impl NYTimesAdapter {
    /// The key.
    pub closed spec fn key(&self) -> Seq<char> {
        self.api_key@
    }

    /// A client that presents `api_key`.
    pub fn new(api_key: String) -> (adapter: NYTimesAdapter)
        ensures
            adapter.key() == api_key@,
    {
        NYTimesAdapter { api_key }
    }

    /// The address to ask for the top stories.
    pub fn top_stories_url(&self) -> (url: String)
        ensures
            url@ == top_stories_address(self.key()),
    {
        let mut url = String::from_str("https://api.nytimes.com/svc/topstories/v2/home.json?api-key=");
        url.append(self.api_key.as_str());
        url
    }

    /// The story that `article` is once the day it was published has been
    /// read as `published`.
    pub fn story_from(
        article: &NYTArticle,
        published: Result<Timestamp, TimestampError>,
    ) -> (story: Result<TopStory, TopStoryError>)
        ensures
            match published {
                Ok(day) => story matches Ok(top) && top.title@ == article.title@ && top.abstract_text@
                    == article.abstract_text@ && top.url@ == article.url@ && top.published@ == day@,
                Err(error) => story == Err::<TopStory, TopStoryError>(TopStoryError::UnreadableDate(error)),
            },
    {
        match published {
            Ok(day) => Ok(
                TopStory {
                    title: article.title.clone(),
                    abstract_text: article.abstract_text.clone(),
                    published: day,
                    url: article.url.clone(),
                },
            ),
            Err(error) => Err(TopStoryError::UnreadableDate(error)),
        }
    }

    /// The story that leads `results`, with the day it was published read as
    /// `2024-01-31`. An empty list has none.
    pub fn top_story(results: Vec<NYTArticle>) -> (story: Result<TopStory, TopStoryError>)
        ensures
            results.len() == 0 ==> story == Err::<TopStory, TopStoryError>(TopStoryError::NoArticles),
            results.len() > 0 ==> match timestamp_of(day_start_seconds(results[0].published_date@)) {
                Ok(secs) => story matches Ok(top) && top.title@ == results[0].title@ && top.abstract_text@
                    == results[0].abstract_text@ && top.url@ == results[0].url@ && top.published@ == secs,
                Err(error) => story == Err::<TopStory, TopStoryError>(TopStoryError::UnreadableDate(error)),
            },
    {
        if results.len() == 0 {
            return Err(TopStoryError::NoArticles);
        }
        let main_article = &results[0];
        let published = day_start(&main_article.published_date);
        NYTimesAdapter::story_from(main_article, published)
    }
}

} // verus!
