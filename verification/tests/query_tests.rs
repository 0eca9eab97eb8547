use news_sync::country::Country;
use news_sync::query::ArticleQuery;
use news_sync::time::{DateRange, Timestamp};

fn range() -> DateRange {
    DateRange::new(Timestamp::new(1_704_067_200).unwrap(), Timestamp::new(1_704_153_600).unwrap()).unwrap()
}

#[test]
fn build_queries_pairs_every_country_with_every_category() {
    let categories = vec!["climate change".to_string(), "energy".to_string(), "water".to_string()];
    let countries = vec![Country::for_alpha3("FRA").unwrap(), Country::for_alpha3("DEU").unwrap()];
    let queries = ArticleQuery::build_queries(categories.clone(), countries.clone(), range());
    assert_eq!(queries.len(), 6);
    for (i, country) in countries.iter().enumerate() {
        for (j, category) in categories.iter().enumerate() {
            let query = &queries[i * categories.len() + j];
            assert_eq!(&query.source_country, country);
            assert_eq!(&query.category, category);
            assert_eq!(query.date_range, range());
        }
    }
    for k in 0..queries.len() {
        for l in 0..queries.len() {
            if k != l {
                assert!(
                    queries[k].source_country != queries[l].source_country
                        || queries[k].category != queries[l].category
                );
            }
        }
    }
}

#[test]
fn build_queries_of_nothing_is_nothing() {
    let fra = Country::for_alpha3("FRA").unwrap();
    assert_eq!(ArticleQuery::build_queries(Vec::new(), vec![fra], range()).len(), 0);
    assert_eq!(ArticleQuery::build_queries(vec!["a".to_string()], Vec::new(), range()).len(), 0);
    assert_eq!(ArticleQuery::build_queries(Vec::new(), Vec::new(), range()).len(), 0);
}

#[test]
fn build_queries_of_one_pair() {
    let fra = Country::for_alpha3("FRA").unwrap();
    let queries = ArticleQuery::build_queries(vec!["climate change".to_string()], vec![fra.clone()], range());
    assert_eq!(queries.len(), 1);
    assert_eq!(queries[0].source_country, fra);
    assert_eq!(queries[0].category, "climate change");
    assert_eq!(queries[0].date_range.start().seconds(), 1_704_067_200);
    assert_eq!(queries[0].date_range.end().seconds(), 1_704_153_600);
}

#[test]
fn article_query_new_keeps_its_parts() {
    let fra = Country::for_alpha3("FRA").unwrap();
    let query = ArticleQuery::new(fra.clone(), "energy".to_string(), range());
    assert_eq!(query.source_country, fra);
    assert_eq!(query.category, "energy");
    assert_eq!(query.date_range, range());
}
