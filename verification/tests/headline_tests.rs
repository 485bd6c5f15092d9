//! Tests for headline rendering and the decimal notation behind it.

use language_catalog::filter::LanguagesFilter;
use language_catalog::headline::{range_headline, to_decimal, year_headline};

#[test]
fn headline_with_both_bounds() {
    let filter = LanguagesFilter {
        year_from_inclusive: Some(1950),
        year_to_exclusive: Some(1970),
    };
    assert_eq!(
        range_headline(&filter).as_str(),
        "Languages from year 1950 (inclusive) to 1970 (exclusive)"
    );
}

#[test]
fn headline_with_no_bounds() {
    let filter = LanguagesFilter {
        year_from_inclusive: None,
        year_to_exclusive: None,
    };
    assert_eq!(range_headline(&filter).as_str(), "Languages from any year");
}

#[test]
fn headline_with_only_a_lower_bound() {
    let filter = LanguagesFilter {
        year_from_inclusive: Some(1970),
        year_to_exclusive: None,
    };
    assert_eq!(
        range_headline(&filter).as_str(),
        "Languages from year 1970 and onwards"
    );
}

#[test]
fn headline_with_only_an_upper_bound() {
    let filter = LanguagesFilter {
        year_from_inclusive: None,
        year_to_exclusive: Some(1960),
    };
    assert_eq!(range_headline(&filter).as_str(), "Languages before year 1960");
}

#[test]
fn year_headline_names_the_year() {
    assert_eq!(year_headline(1954).as_str(), "Languages from 1954");
    assert_eq!(year_headline(0).as_str(), "Languages from 0");
}

#[test]
fn to_decimal_renders_usual_notation() {
    assert_eq!(to_decimal(0).as_str(), "0");
    assert_eq!(to_decimal(7).as_str(), "7");
    assert_eq!(to_decimal(10).as_str(), "10");
    assert_eq!(to_decimal(1970).as_str(), "1970");
    assert_eq!(to_decimal(u32::MAX).as_str(), "4294967295");
}
