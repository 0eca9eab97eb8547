use isocountry::CountryCode;
use news_sync::article::{article_from, normalize, to_news_article, GDeltaArticle, NewsArticle, Rejection};
use news_sync::country::Country;
use news_sync::time::{Timestamp, TimestampError};

fn record(title: &str, seendate: &str, sourcecountry: &str) -> GDeltaArticle {
    GDeltaArticle {
        url: format!("https://example.com/{}", title),
        title: title.to_string(),
        seendate: seendate.to_string(),
        domain: "example.com".to_string(),
        language: "French".to_string(),
        sourcecountry: sourcecountry.to_string(),
    }
}

#[test]
fn news_search_client_gdeltproject_test_to_news_article() {
    let mut articles = Vec::new();

    let valid_article = GDeltaArticle {
        url: "https://example.com".to_string(),
        title: "Valid Article".to_string(),
        seendate: "20230624T121500Z".to_string(),
        domain: "example.com".to_string(),
        language: "French".to_string(),
        sourcecountry: "France".to_string(),
    };
    articles.push(valid_article);

    let invalid_date_article = GDeltaArticle {
        url: "https://invalid.com".to_string(),
        title: "Invalid Date Article".to_string(),
        seendate: "invalid_date".to_string(),
        domain: "invalid.com".to_string(),
        language: "French".to_string(),
        sourcecountry: "France".to_string(),
    };
    articles.push(invalid_date_article);

    let invalid_country_article = GDeltaArticle {
        url: "https://invalid.com".to_string(),
        title: "Invalid Country Article".to_string(),
        seendate: "20230624T121500Z".to_string(),
        domain: "invalid.com".to_string(),
        language: "French".to_string(),
        sourcecountry: "INVALID".to_string(),
    };
    articles.push(invalid_country_article);

    let news_articles = to_news_article(
        articles,
        &"climate change".to_string(),
        &Country::for_alpha3(CountryCode::FRA.alpha3()).unwrap(),
    );

    assert_eq!(news_articles.len(), 1);
    assert_eq!(news_articles[0].title, "Valid Article");
}

#[test]
fn news_search_adapter_gdeltproject_test_to_news_article() {
    let mut articles = Vec::new();

    let valid_article = GDeltaArticle {
        url: "https://example.com".to_string(),
        title: "Valid Article".to_string(),
        seendate: "20230624T121500Z".to_string(),
        domain: "example.com".to_string(),
        language: "French".to_string(),
        sourcecountry: "France".to_string(),
    };
    articles.push(valid_article);

    let invalid_date_article = GDeltaArticle {
        url: "https://invalid.com".to_string(),
        title: "Invalid Date Article".to_string(),
        seendate: "invalid_date".to_string(),
        domain: "invalid.com".to_string(),
        language: "French".to_string(),
        sourcecountry: "France".to_string(),
    };
    articles.push(invalid_date_article);

    let invalid_country_article = GDeltaArticle {
        url: "https://invalid.com".to_string(),
        title: "Invalid Country Article".to_string(),
        seendate: "20230624T121500Z".to_string(),
        domain: "invalid.com".to_string(),
        language: "French".to_string(),
        sourcecountry: "INVALID".to_string(),
    };
    articles.push(invalid_country_article);

    let category = "climate change".to_string();
    let news_articles =
        to_news_article(articles, &category, &Country::for_alpha3(CountryCode::FRA.alpha3()).unwrap());

    assert_eq!(news_articles.len(), 1);
    assert_eq!(news_articles[0].title, "Valid Article");
}

#[test]
fn normalize_fills_every_field() {
    let fra = Country::for_alpha3("FRA").unwrap();
    let raw = GDeltaArticle {
        url: "https://example.com/a".to_string(),
        title: "A".to_string(),
        seendate: "20230624T121500Z".to_string(),
        domain: "example.com".to_string(),
        language: "French".to_string(),
        sourcecountry: "France".to_string(),
    };
    let article = normalize(&raw, &"climate change".to_string(), &fra).unwrap();
    assert_eq!(article.title, "A");
    assert_eq!(article.category, "climate change");
    assert_eq!(article.datetime, Timestamp::new(1_687_608_900).unwrap());
    assert_eq!(article.url, "https://example.com/a");
    assert_eq!(article.domain, "example.com");
    assert_eq!(article.language, "French");
    assert_eq!(article.country, fra);
}

#[test]
fn normalize_says_why_it_rejects() {
    let fra = Country::for_alpha3("FRA").unwrap();
    let category = "climate change".to_string();
    let unreadable = record("a", "invalid_date", "France");
    assert_eq!(normalize(&unreadable, &category, &fra).err(), Some(Rejection::UnreadableDate));
    let far = record("b", "+10000 0101T000000Z", "France");
    assert_eq!(normalize(&far, &category, &fra).err(), Some(Rejection::DateOutOfSpan));
    let foreign = record("c", "20230624T121500Z", "Germany");
    assert_eq!(normalize(&foreign, &category, &fra).err(), Some(Rejection::ForeignCountry));
    let both = record("d", "invalid_date", "Germany");
    assert_eq!(normalize(&both, &category, &fra).err(), Some(Rejection::UnreadableDate));
}

#[test]
fn to_news_article_keeps_order_and_drops_the_rest() {
    let deu = Country::for_alpha3("DEU").unwrap();
    let records = vec![
        record("one", "20230624T121500Z", "Germany"),
        record("two", "nope", "Germany"),
        record("three", "20230624T121501Z", "Germany"),
        record("four", "20230624T121502Z", "France"),
        record("five", "20230624T121503Z", "Germany"),
    ];
    let kept = to_news_article(records, &"energy".to_string(), &deu);
    let titles: Vec<&str> = kept.iter().map(|a| a.title.as_str()).collect();
    assert_eq!(titles, vec!["one", "three", "five"]);
    for article in &kept {
        assert_eq!(article.category, "energy");
        assert_eq!(article.country, deu);
    }
    assert_eq!(to_news_article(Vec::new(), &"energy".to_string(), &deu).len(), 0);
}

#[test]
fn news_article_new_and_clone_keep_the_fields() {
    let fra = Country::for_alpha3("FRA").unwrap();
    let article = NewsArticle::new(
        "T".to_string(),
        "c".to_string(),
        Timestamp::new(5).unwrap(),
        "u".to_string(),
        "d".to_string(),
        "l".to_string(),
        fra.clone(),
    );
    let copy = article.clone();
    assert_eq!(copy.title, "T");
    assert_eq!(copy.category, "c");
    assert_eq!(copy.datetime.seconds(), 5);
    assert_eq!(copy.url, "u");
    assert_eq!(copy.domain, "d");
    assert_eq!(copy.language, "l");
    assert_eq!(copy.country, fra);
}

#[test]
fn article_from_takes_what_was_read() {
    let fra = Country::for_alpha3("FRA").unwrap();
    let category = "energy".to_string();
    let raw = record("a", "whatever", "wherever");
    let article = article_from(&raw, &category, Ok(Timestamp::new(42).unwrap()), Some(fra.clone())).unwrap();
    assert_eq!(article.title, "a");
    assert_eq!(article.category, "energy");
    assert_eq!(article.datetime.seconds(), 42);
    assert_eq!(article.url, "https://example.com/a");
    assert_eq!(article.domain, "example.com");
    assert_eq!(article.language, "French");
    assert_eq!(article.country, fra);
    assert_eq!(
        article_from(&raw, &category, Err(TimestampError::Unreadable), Some(fra.clone())).err(),
        Some(Rejection::UnreadableDate)
    );
    assert_eq!(
        article_from(&raw, &category, Err(TimestampError::OutOfSpan), None).err(),
        Some(Rejection::DateOutOfSpan)
    );
    assert_eq!(
        article_from(&raw, &category, Ok(Timestamp::new(42).unwrap()), None).err(),
        Some(Rejection::ForeignCountry)
    );
}
