use news_sync::article::NewsArticle;
use news_sync::country::Country;
use news_sync::ports::NewsRepository;
use news_sync::store::{report_of, ArticleStore, Upserted, UpsertReport, Written};
use news_sync::time::{DateRange, Timestamp};

fn at(secs: i64) -> Timestamp {
    Timestamp::new(secs).unwrap()
}

fn fra() -> Country {
    Country::for_alpha3("FRA").unwrap()
}

fn article(title: &str, category: &str, secs: i64, country: &str) -> NewsArticle {
    NewsArticle::new(
        title.to_string(),
        category.to_string(),
        at(secs),
        format!("https://example.com/{}", title),
        "example.com".to_string(),
        "French".to_string(),
        Country::for_alpha3(country).unwrap(),
    )
}

fn store_with_france() -> ArticleStore {
    let mut store = ArticleStore::new();
    assert!(store.insert_category("climate change".to_string()));
    assert!(store.add_country(fra()));
    store
}

fn whole_day() -> DateRange {
    DateRange::new(at(0), at(86_400)).unwrap()
}

fn titles(articles: &Vec<NewsArticle>) -> Vec<String> {
    articles.iter().map(|a| a.title.clone()).collect()
}

#[test]
fn new_store_holds_nothing() {
    let store = ArticleStore::new();
    assert_eq!(store.article_count(), 0);
    assert_eq!(store.link_count(), 0);
    assert_eq!(store.list_categories().len(), 0);
    assert_eq!(store.list_countries().len(), 0);
    assert!(!store.has_category(&"climate change".to_string()));
}

#[test]
fn category_is_added_once() {
    let mut store = ArticleStore::new();
    assert_eq!(store.add_category("climate change".to_string()), Ok(true));
    assert_eq!(store.add_category("climate change".to_string()), Ok(false));
    assert_eq!(store.add_category("energy".to_string()), Ok(true));
    assert_eq!(store.is_valid_category("climate change".to_string()), Ok(true));
    assert_eq!(store.is_valid_category("energy".to_string()), Ok(true));
    assert_eq!(store.is_valid_category("Climate change".to_string()), Ok(false));
    assert_eq!(store.is_valid_category("".to_string()), Ok(false));
    assert_eq!(store.get_categories(), Ok(vec!["climate change".to_string(), "energy".to_string()]));
    assert_eq!(store.list_categories(), vec!["climate change".to_string(), "energy".to_string()]);
}

#[test]
fn country_is_added_once() {
    let mut store = ArticleStore::new();
    assert!(store.add_country(fra()));
    assert!(!store.add_country(fra()));
    assert!(store.add_country(Country::for_alpha3("DEU").unwrap()));
    assert_eq!(store.list_countries(), vec![fra(), Country::for_alpha3("DEU").unwrap()]);
    assert_eq!(store.get_countries(), Ok(vec![fra(), Country::for_alpha3("DEU").unwrap()]));
}

#[test]
fn upserting_the_same_article_twice_inserts_once_and_links_once() {
    let mut store = store_with_france();
    let first = store.upsert_articles(vec![article("a", "climate change", 10, "FRA")]);
    assert_eq!(first, UpsertReport { added: 1, stored: 1, inserted: 1, rejected: 0 });
    assert_eq!(store.article_count(), 1);
    assert_eq!(store.link_count(), 1);
    let second = store.upsert_articles(vec![article("a", "climate change", 10, "FRA")]);
    assert_eq!(second, UpsertReport { added: 0, stored: 1, inserted: 0, rejected: 0 });
    assert_eq!(store.article_count(), 1);
    assert_eq!(store.link_count(), 1);
    let found = store.get_by_categories(&vec!["climate change".to_string()], &whole_day());
    assert_eq!(titles(&found), vec!["a".to_string()]);
}

#[test]
fn same_key_under_another_address_is_the_same_article() {
    let mut store = store_with_france();
    store.upsert_articles(vec![article("a", "climate change", 10, "FRA")]);
    let mut again = article("a", "climate change", 10, "FRA");
    again.url = "https://mirror.example.com/a".to_string();
    let report = store.upsert_articles(vec![again]);
    assert_eq!(report, UpsertReport { added: 0, stored: 1, inserted: 0, rejected: 0 });
    assert_eq!(store.article_count(), 1);
    assert_eq!(store.link_count(), 1);
    let found = store.get_by_categories(&vec!["climate change".to_string()], &whole_day());
    assert_eq!(found[0].url, "https://example.com/a");
}

#[test]
fn same_address_under_another_key_is_the_same_article() {
    let mut store = store_with_france();
    store.upsert_articles(vec![article("a", "climate change", 10, "FRA")]);
    let mut again = article("a", "climate change", 11, "FRA");
    again.title = "A, retitled".to_string();
    let report = store.upsert_articles(vec![again]);
    assert_eq!(report, UpsertReport { added: 0, stored: 1, inserted: 0, rejected: 0 });
    assert_eq!(store.article_count(), 1);
    let found = store.get_by_categories(&vec!["climate change".to_string()], &whole_day());
    assert_eq!(titles(&found), vec!["a".to_string()]);
    assert_eq!(found[0].datetime, at(10));
}

#[test]
fn each_part_of_the_key_tells_articles_apart() {
    let mut store = store_with_france();
    store.add_country(Country::for_alpha3("DEU").unwrap());
    let base = article("a", "climate change", 10, "FRA");
    let mut other_title = base.clone();
    other_title.title = "b".to_string();
    other_title.url = "u1".to_string();
    let mut other_domain = base.clone();
    other_domain.domain = "example.org".to_string();
    other_domain.url = "u2".to_string();
    let mut other_country = base.clone();
    other_country.country = Country::for_alpha3("DEU").unwrap();
    other_country.url = "u3".to_string();
    let mut other_second = base.clone();
    other_second.datetime = at(11);
    other_second.url = "u4".to_string();
    let mut other_language = base.clone();
    other_language.language = "German".to_string();
    other_language.url = "u5".to_string();
    let report =
        store.upsert_articles(vec![base, other_title, other_domain, other_country, other_second, other_language]);
    assert_eq!(report, UpsertReport { added: 5, stored: 6, inserted: 5, rejected: 0 });
    assert_eq!(store.article_count(), 5);
    assert_eq!(store.link_count(), 5);
}

#[test]
fn stored_article_takes_a_second_category() {
    let mut store = store_with_france();
    store.insert_category("energy".to_string());
    store.upsert_articles(vec![article("a", "climate change", 10, "FRA")]);
    let report = store.upsert_articles(vec![article("a", "energy", 10, "FRA")]);
    assert_eq!(report, UpsertReport { added: 1, stored: 1, inserted: 0, rejected: 0 });
    assert_eq!(store.article_count(), 1);
    assert_eq!(store.link_count(), 2);
    let energy = store.get_by_categories(&vec!["energy".to_string()], &whole_day());
    assert_eq!(energy.len(), 1);
    assert_eq!(energy[0].category, "energy");
    let both =
        store.get_by_categories(&vec!["energy".to_string(), "climate change".to_string()], &whole_day());
    assert_eq!(both.len(), 2);
    assert_eq!(both[0].category, "climate change");
    assert_eq!(both[1].category, "energy");
}

#[test]
fn one_malformed_article_among_nine_valid_ones_is_skipped() {
    let mut store = store_with_france();
    let mut batch = Vec::new();
    for i in 0..9 {
        if i == 4 {
            batch.push(article("from nowhere", "climate change", 50, "ATA"));
        }
        batch.push(article(&format!("valid {}", i), "climate change", 10 + i, "FRA"));
    }
    assert_eq!(batch.len(), 10);
    let report = store.upsert_articles(batch);
    assert_eq!(report, UpsertReport { added: 9, stored: 9, inserted: 9, rejected: 1 });
    assert_eq!(report.stored, 9);
    assert_eq!(store.article_count(), 9);
    assert_eq!(store.link_count(), 9);
    let found = store.get_by_categories(&vec!["climate change".to_string()], &whole_day());
    let expected: Vec<String> = (0..9).map(|i| format!("valid {}", i)).collect();
    assert_eq!(titles(&found), expected);
}

#[test]
fn store_articles_counts_the_articles_for_which_something_was_added() {
    let mut store = store_with_france();
    store.insert_category("energy".to_string());
    let batch = || {
        vec![
            article("a", "climate change", 10, "FRA"),
            article("b", "climate change", 11, "FRA"),
            article("a", "climate change", 10, "FRA"),
            article("c", "climate change", 12, "DEU"),
        ]
    };
    assert_eq!(store.store_articles(batch()), Ok(2));
    assert_eq!(store.article_count(), 2);
    assert_eq!(store.store_articles(batch()), Ok(0));
    assert_eq!(store.article_count(), 2);
    assert_eq!(store.link_count(), 2);
    assert_eq!(store.store_articles(Vec::new()), Ok(0));
    assert_eq!(store.store_articles(vec![article("a", "energy", 10, "FRA")]), Ok(1));
    assert_eq!(store.article_count(), 2);
    assert_eq!(store.link_count(), 3);
}

#[test]
fn storing_the_same_article_a_second_time_reports_nothing_new() {
    let mut store = store_with_france();
    let mk = || {
        NewsArticle::new(
            "T".to_string(),
            "climate change".to_string(),
            at(1_704_070_800),
            "https://example.com/1".to_string(),
            "example.com".to_string(),
            "French".to_string(),
            fra(),
        )
    };
    assert_eq!(store.store_articles(vec![mk()]), Ok(1));
    assert_eq!(store.store_articles(vec![mk()]), Ok(0));
    assert_eq!(store.article_count(), 1);
    assert_eq!(store.link_count(), 1);
}

#[test]
fn batch_of_rejected_articles_leaves_the_store_alone() {
    let mut store = store_with_france();
    let report = store.upsert_articles(vec![
        article("a", "climate change", 10, "DEU"),
        article("b", "climate change", 11, "DEU"),
    ]);
    assert_eq!(report, UpsertReport { added: 0, stored: 0, inserted: 0, rejected: 2 });
    assert_eq!(store.article_count(), 0);
    assert_eq!(store.link_count(), 0);
}

#[test]
fn get_by_categories_filters_by_category_and_range() {
    let mut store = store_with_france();
    store.insert_category("energy".to_string());
    store.upsert_articles(vec![
        article("early", "climate change", 99, "FRA"),
        article("first", "climate change", 100, "FRA"),
        article("middle", "climate change", 150, "FRA"),
        article("other", "energy", 150, "FRA"),
        article("last", "climate change", 200, "FRA"),
        article("late", "climate change", 201, "FRA"),
    ]);
    let range = DateRange::new(at(100), at(200)).unwrap();
    let found = store.get_by_categories(&vec!["climate change".to_string()], &range);
    assert_eq!(titles(&found), vec!["first".to_string(), "middle".to_string(), "last".to_string()]);
    let none = store.get_by_categories(&Vec::new(), &range);
    assert_eq!(none.len(), 0);
    let unknown = store.get_by_categories(&vec!["sports".to_string()], &range);
    assert_eq!(unknown.len(), 0);
    let through_trait = store.get_articles_by_categories(vec!["energy".to_string()], range).unwrap();
    assert_eq!(titles(&through_trait), vec!["other".to_string()]);
}

#[test]
fn upsert_article_says_what_became_of_the_article() {
    let mut store = store_with_france();
    assert_eq!(store.upsert_article(&article("a", "climate change", 10, "FRA")), Upserted::Inserted(0));
    assert_eq!(store.upsert_article(&article("b", "climate change", 11, "FRA")), Upserted::Inserted(1));
    assert_eq!(store.upsert_article(&article("a", "climate change", 10, "FRA")), Upserted::Existing(0));
    assert_eq!(store.upsert_article(&article("b", "energy", 11, "FRA")), Upserted::Existing(1));
    assert_eq!(store.upsert_article(&article("c", "climate change", 12, "DEU")), Upserted::Rejected);
    assert_eq!(store.article_count(), 2);
    assert_eq!(store.link_count(), 3);
    let mut known_by_address = article("a", "climate change", 10, "DEU");
    known_by_address.title = "another".to_string();
    assert_eq!(store.upsert_article(&known_by_address), Upserted::Existing(0));
}

#[test]
fn report_of_counts_what_was_added() {
    assert_eq!(report_of(&Vec::new()), UpsertReport { added: 0, stored: 0, inserted: 0, rejected: 0 });
    let written = vec![
        Written::Done { row_added: true, link_added: true },
        Written::Done { row_added: false, link_added: false },
        Written::Skipped,
        Written::Done { row_added: false, link_added: true },
        Written::Done { row_added: true, link_added: false },
    ];
    assert_eq!(report_of(&written), UpsertReport { added: 3, stored: 4, inserted: 2, rejected: 1 });
}
