use isocountry::CountryCode;
use news_sync::country::{country_if_named, to_country, Country};

#[test]
fn news_search_client_gdeltproject_test_to_country() {
    let fra = Country::for_alpha3(CountryCode::FRA.alpha3()).unwrap();
    let country = to_country(&"France".to_string(), &fra);
    assert_eq!(country, Some(Country::for_alpha3(CountryCode::FRA.alpha3()).unwrap()));
    let country = to_country(&"Fake".to_string(), &fra);
    assert_eq!(country, None);
}

#[test]
fn news_search_adapter_gdeltproject_test_to_country() {
    let fra = Country::for_alpha3(CountryCode::FRA.alpha3()).unwrap();
    let country = to_country(&"France".to_string(), &fra);
    assert_eq!(country, Some(Country::for_alpha3(CountryCode::FRA.alpha3()).unwrap()));
    let country = to_country(&"Fake".to_string(), &fra);
    assert_eq!(country, None);
}

#[test]
fn country_is_made_of_listed_alpha3_codes_only() {
    assert!(Country::for_alpha3("FRA").is_some());
    assert!(Country::for_alpha3("GBR").is_some());
    assert!(Country::for_alpha3("fra").is_none());
    assert!(Country::for_alpha3("FR").is_none());
    assert!(Country::for_alpha3("XXX").is_none());
    assert!(Country::for_alpha3("").is_none());
}

#[test]
fn country_gives_the_codes_and_name_of_the_table() {
    let fra = Country::for_alpha3("FRA").unwrap();
    assert_eq!(fra.alpha3(), "FRA");
    assert_eq!(fra.alpha2(), "FR");
    assert_eq!(fra.name(), "France");
    let usa = Country::for_alpha3("USA").unwrap();
    assert_eq!(usa.alpha3(), CountryCode::USA.alpha3());
    assert_eq!(usa.alpha2(), CountryCode::USA.alpha2());
    assert_eq!(usa.name(), CountryCode::USA.name());
}

#[test]
fn every_listed_country_goes_through() {
    for code in CountryCode::iter() {
        let country = Country::for_alpha3(code.alpha3()).unwrap();
        assert_eq!(country.alpha3(), code.alpha3());
        assert_eq!(country.alpha2(), code.alpha2());
        assert_eq!(country.name(), code.name());
        assert_eq!(to_country(&code.name().to_string(), &country), Some(country.clone()));
    }
}

#[test]
fn to_country_does_not_guess() {
    let fra = Country::for_alpha3("FRA").unwrap();
    let deu = Country::for_alpha3("DEU").unwrap();
    assert_eq!(to_country(&"france".to_string(), &fra), None);
    assert_eq!(to_country(&"France ".to_string(), &fra), None);
    assert_eq!(to_country(&"FRA".to_string(), &fra), None);
    assert_eq!(to_country(&"France".to_string(), &deu), None);
    assert_eq!(to_country(&"Germany".to_string(), &deu), Some(deu.clone()));
    assert!(fra.is_same(&fra.clone()));
    assert!(!fra.is_same(&deu));
}

#[test]
fn country_if_named_compares_letter_for_letter() {
    let fra = Country::for_alpha3("FRA").unwrap();
    assert_eq!(country_if_named(&"France".to_string(), &"France".to_string(), &fra), Some(fra.clone()));
    assert_eq!(country_if_named(&"France".to_string(), &"france".to_string(), &fra), None);
    assert_eq!(country_if_named(&"".to_string(), &"".to_string(), &fra), Some(fra.clone()));
    assert_eq!(country_if_named(&"Fra".to_string(), &"France".to_string(), &fra), None);
}
