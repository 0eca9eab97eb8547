//! Search queries, and the set of them that one run is made of.

use crate::country::Country;
use crate::time::DateRange;
use vstd::arithmetic::div_mod::{lemma_fundamental_div_mod, lemma_fundamental_div_mod_converse, lemma_mod_bound};
use vstd::arithmetic::mul::{lemma_mul_is_commutative, lemma_mul_is_distributive_add_other_way};
use vstd::prelude::*;

verus! {

/// One search: a category of articles from one country, seen within a range.
#[derive(Debug)]
pub struct ArticleQuery {
    pub source_country: Country,
    pub category: String,
    pub date_range: DateRange,
}

/// What a query asks for.
pub struct QueryView {
    pub source_country: Seq<char>,
    pub category: Seq<char>,
    pub start: int,
    pub end: int,
}

impl View for ArticleQuery {
    type V = QueryView;

    open spec fn view(&self) -> QueryView {
        QueryView {
            source_country: self.source_country@,
            category: self.category@,
            start: self.date_range.start_seconds(),
            end: self.date_range.end_seconds(),
        }
    }
}

/// What each query of `queries` asks for, in the same order.
pub open spec fn query_views(queries: Seq<ArticleQuery>) -> Seq<QueryView> {
    queries.map_values(|q: ArticleQuery| q@)
}

/// The characters of each text of `texts`, in the same order.
pub open spec fn text_views(texts: Seq<String>) -> Seq<Seq<char>> {
    texts.map_values(|t: String| t@)
}

/// The alpha-3 code of each country of `countries`, in the same order.
pub open spec fn country_views(countries: Seq<Country>) -> Seq<Seq<char>> {
    countries.map_values(|c: Country| c@)
}

/// Every pairing of a country with a category, country by country and within
/// a country in the order of the categories, each over the same range.
pub open spec fn cross_product(
    countries: Seq<Seq<char>>,
    categories: Seq<Seq<char>>,
    start: int,
    end: int,
) -> Seq<QueryView> {
    Seq::new(
        countries.len() * categories.len(),
        |k: int|
            QueryView {
                source_country: countries[k / (categories.len() as int)],
                category: categories[k % (categories.len() as int)],
                start: start,
                end: end,
            },
    )
}

impl ArticleQuery {
    /// The query for `category` in `source_country` over `date_range`.
    pub fn new(source_country: Country, category: String, date_range: DateRange) -> (query: ArticleQuery)
        ensures
            query.source_country == source_country,
            query.category == category,
            query.date_range == date_range,
    {
        ArticleQuery { source_country, category, date_range }
    }

    /// One query for each pairing of a country with a category, all over
    /// `date_range`: country by country, and within a country in the order of
    /// `categories`. Nothing comes of an empty list on either side.
    pub fn build_queries(
        categories: Vec<String>,
        countries: Vec<Country>,
        date_range: DateRange,
    ) -> (queries: Vec<ArticleQuery>)
        ensures
            query_views(queries@) == cross_product(
                country_views(countries@),
                text_views(categories@),
                date_range.start_seconds(),
                date_range.end_seconds(),
            ),
            queries.len() == countries.len() * categories.len(),
    {
        let ghost expected = cross_product(
            country_views(countries@),
            text_views(categories@),
            date_range.start_seconds(),
            date_range.end_seconds(),
        );
        let m: usize = categories.len();
        let mut queries: Vec<ArticleQuery> = Vec::new();
        let mut i: usize = 0;
        while i < countries.len()
            invariant
                m == categories.len(),
                i <= countries.len(),
                queries.len() == i * m,
                expected.len() == countries.len() * m,
                expected == cross_product(
                    country_views(countries@),
                    text_views(categories@),
                    date_range.start_seconds(),
                    date_range.end_seconds(),
                ),
                forall|k: int| 0 <= k < queries.len() ==> (#[trigger] queries[k])@ == expected[k],
            decreases countries.len() - i,
        {
            let mut j: usize = 0;
            while j < m
                invariant
                    m == categories.len(),
                    i < countries.len(),
                    j <= m,
                    queries.len() == i * m + j,
                    expected.len() == countries.len() * m,
                    expected == cross_product(
                        country_views(countries@),
                        text_views(categories@),
                        date_range.start_seconds(),
                        date_range.end_seconds(),
                    ),
                    forall|k: int| 0 <= k < queries.len() ==> (#[trigger] queries[k])@ == expected[k],
                decreases m - j,
            {
                let query = ArticleQuery::new(countries[i].clone(), categories[j].clone(), date_range);
                proof {
                    lemma_pair_index(i as int, j as int, countries.len() as int, m as int);
                }
                queries.push(query);
                j += 1;
            }
            proof {
                lemma_mul_is_distributive_add_other_way(m as int, i as int, 1);
            }
            i += 1;
        }
        queries
    }
}

/// Where the pairing of country `i` with category `j` stands among `n` by `m`
/// pairings, and that the place leads back to `i` and `j`.
pub proof fn lemma_pair_index(i: int, j: int, n: int, m: int)
    requires
        0 <= i < n,
        0 <= j < m,
    ensures
        0 <= i * m + j < n * m,
        (i * m + j) / m == i,
        (i * m + j) % m == j,
{
    lemma_mul_is_commutative(i, m);
    lemma_fundamental_div_mod_converse(i * m + j, m, i, j);
    assert(0 <= i * m) by (nonlinear_arith)
        requires
            0 <= i,
            0 <= m,
    ;
    assert(i * m + m <= n * m) by (nonlinear_arith)
        requires
            i + 1 <= n,
            0 <= m,
    ;
}

/// Over `n` countries and `m` categories there are `n * m` queries, and the
/// pair of country `i` and category `j` stands at place `i * m + j`.
pub proof fn lemma_cross_product_pair(
    countries: Seq<Seq<char>>,
    categories: Seq<Seq<char>>,
    start: int,
    end: int,
    i: int,
    j: int,
)
    requires
        0 <= i < countries.len(),
        0 <= j < categories.len(),
    ensures
        cross_product(countries, categories, start, end).len() == countries.len() * categories.len(),
        0 <= i * categories.len() + j < countries.len() * categories.len(),
        cross_product(countries, categories, start, end)[i * categories.len() + j] == (QueryView {
            source_country: countries[i],
            category: categories[j],
            start: start,
            end: end,
        }),
{
    lemma_pair_index(i, j, countries.len() as int, categories.len() as int);
}

/// Every place `k` among the queries holds the pair of country `k / m` and
/// category `k % m`, where `m` is the number of categories.
pub proof fn lemma_cross_product_place(
    countries: Seq<Seq<char>>,
    categories: Seq<Seq<char>>,
    start: int,
    end: int,
    k: int,
)
    requires
        0 <= k < cross_product(countries, categories, start, end).len(),
    ensures
        0 <= k / (categories.len() as int) < countries.len(),
        0 <= k % (categories.len() as int) < categories.len(),
        cross_product(countries, categories, start, end)[k].source_country == countries[k / (
        categories.len() as int)],
        cross_product(countries, categories, start, end)[k].category == categories[k % (
        categories.len() as int)],
{
    lemma_place_is_pair(k, countries.len() as int, categories.len() as int);
}

/// Where no country and no category is listed twice, no two places among the
/// queries hold the same pair of country and category.
pub proof fn lemma_cross_product_distinct(
    countries: Seq<Seq<char>>,
    categories: Seq<Seq<char>>,
    start: int,
    end: int,
    k: int,
    l: int,
)
    requires
        countries.no_duplicates(),
        categories.no_duplicates(),
        0 <= k < cross_product(countries, categories, start, end).len(),
        0 <= l < cross_product(countries, categories, start, end).len(),
        k != l,
    ensures
        cross_product(countries, categories, start, end)[k].source_country != cross_product(
            countries,
            categories,
            start,
            end,
        )[l].source_country || cross_product(countries, categories, start, end)[k].category
            != cross_product(countries, categories, start, end)[l].category,
{
    let m = categories.len() as int;
    lemma_place_is_pair(k, countries.len() as int, m);
    lemma_place_is_pair(l, countries.len() as int, m);
}

/// Every place below `n * m` is the place of one country below `n` and one
/// category below `m`.
pub proof fn lemma_place_is_pair(k: int, n: int, m: int)
    requires
        0 <= n,
        0 <= m,
        0 <= k < n * m,
    ensures
        0 < m,
        0 <= k / m < n,
        0 <= k % m < m,
        k == (k / m) * m + k % m,
{
    assert(0 < m) by (nonlinear_arith)
        requires
            0 <= k < n * m,
            0 <= n,
            0 <= m,
    ;
    lemma_fundamental_div_mod(k, m);
    lemma_mod_bound(k, m);
    lemma_mul_is_commutative(m, k / m);
    let i = k / m;
    assert(0 <= i) by {
        if i < 0 {
            assert(i * m <= -m) by (nonlinear_arith)
                requires
                    i <= -1,
                    0 < m,
            ;
        }
    }
    assert(i < n) by {
        if i >= n {
            assert(i * m >= n * m) by (nonlinear_arith)
                requires
                    i >= n,
                    0 < m,
            ;
        }
    }
}

} // verus!
