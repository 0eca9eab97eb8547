//! Countries by their ISO 3166-1 codes.

use isocountry::CountryCode;
use vstd::prelude::*;

verus! {

/// Whether `isocountry` knows `code` as an upper-case alpha-3 code.
pub uninterp spec fn iso_alpha3_known(code: Seq<char>) -> bool;

/// The alpha-2 code that `isocountry` gives for the country of alpha-3 `code`.
pub uninterp spec fn iso_alpha2_text(code: Seq<char>) -> Seq<char>;

/// The English short name that `isocountry` gives for the country of alpha-3
/// `code`.
pub uninterp spec fn iso_name_text(code: Seq<char>) -> Seq<char>;

/// `isocountry::CountryCode::for_alpha3`, asked only whether it finds a country.
/// Trusted: that the answer depends on the characters of `code` alone.
#[verifier::external_body]
fn iso_lookup(code: &str) -> (known: bool)
    ensures
        known == iso_alpha3_known(code@),
{
    CountryCode::for_alpha3(code).is_ok()
}

/// `isocountry::CountryCode::alpha2` of the country that `for_alpha3` finds for
/// `code`.
/// Trusted: that every country `for_alpha3` finds has an alpha-2 code, which
/// depends on `code` alone.
#[verifier::external_body]
fn iso_alpha2(code: &str) -> (text: Option<String>)
    ensures
        text is Some <==> iso_alpha3_known(code@),
        text matches Some(t) ==> t@ == iso_alpha2_text(code@),
{
    match CountryCode::for_alpha3(code) {
        Ok(country) => Some(country.alpha2().to_string()),
        Err(_) => None,
    }
}

/// `isocountry::CountryCode::name` of the country that `for_alpha3` finds for
/// `code`.
/// Trusted: that every country `for_alpha3` finds has a name, which depends on
/// `code` alone.
#[verifier::external_body]
fn iso_name(code: &str) -> (text: Option<String>)
    ensures
        text is Some <==> iso_alpha3_known(code@),
        text matches Some(t) ==> t@ == iso_name_text(code@),
{
    match CountryCode::for_alpha3(code) {
        Ok(country) => Some(country.name().to_string()),
        Err(_) => None,
    }
}

/// A country, held as its upper-case ISO 3166-1 alpha-3 code.
///
/// Only codes that the ISO table lists can be made into a `Country`.
#[derive(Debug, PartialEq, Eq)]
pub struct Country {
    code: String,
}

impl View for Country {
    type V = Seq<char>;

    closed spec fn view(&self) -> Seq<char> {
        self.code@
    }
}

impl Country {
    #[verifier::type_invariant]
    spec fn listed(self) -> bool {
        iso_alpha3_known(self.code@)
    }

    /// The country of alpha-3 `code` (`"FRA"`), or nothing for any other text.
    pub fn for_alpha3(code: &str) -> (made: Option<Country>)
        ensures
            made is Some <==> iso_alpha3_known(code@),
            made matches Some(country) ==> country@ == code@,
    {
        if iso_lookup(code) {
            Some(Country { code: String::from_str(code) })
        } else {
            None
        }
    }

    /// The alpha-3 code.
    pub fn alpha3(&self) -> (code: String)
        ensures
            code@ == self@,
            iso_alpha3_known(code@),
    {
        proof {
            use_type_invariant(self);
        }
        self.code.clone()
    }

    /// The alpha-2 code, as the search endpoint wants it.
    pub fn alpha2(&self) -> (code: String)
        ensures
            code@ == iso_alpha2_text(self@),
    {
        proof {
            use_type_invariant(self);
        }
        match iso_alpha2(self.code.as_str()) {
            Some(text) => text,
            None => String::new(),
        }
    }

    /// The English short name.
    pub fn name(&self) -> (name: String)
        ensures
            name@ == iso_name_text(self@),
    {
        proof {
            use_type_invariant(self);
        }
        match iso_name(self.code.as_str()) {
            Some(text) => text,
            None => String::new(),
        }
    }

    /// Whether both are the same country.
    pub fn is_same(&self, other: &Country) -> (same: bool)
        ensures
            same == (self@ == other@),
    {
        self.code == other.code
    }

}

impl Clone for Country {
    fn clone(&self) -> (copy: Country)
        ensures
            copy@ == self@,
    {
        proof {
            use_type_invariant(self);
        }
        Country { code: self.code.clone() }
    }
}

/// `country`, where `country_name` is `short_name` letter for letter, and
/// nothing otherwise.
pub fn country_if_named(country_name: &String, short_name: &String, country: &Country) -> (found: Option<Country>)
    ensures
        found is Some <==> country_name@ == short_name@,
        found matches Some(same) ==> same@ == country@,
{
    if *country_name == *short_name {
        Some(country.clone())
    } else {
        None
    }
}

/// The provider's country name `country_name` stands for `source_country`
/// only when it is that country's English short name, letter for letter; no
/// other country is guessed.
pub fn to_country(country_name: &String, source_country: &Country) -> (found: Option<Country>)
    ensures
        found is Some <==> country_name@ == iso_name_text(source_country@),
        found matches Some(country) ==> country@ == source_country@,
{
    let short_name = source_country.name();
    country_if_named(country_name, &short_name, source_country)
}

} // verus!
