//! The human-readable headlines for the query pages, with a verified
//! decimal rendering of years.
use vstd::prelude::*;
use vstd::string::*;

use crate::filter::LanguagesFilter;

verus! {

/// The character for one decimal digit.
pub open spec fn decimal_digit(d: nat) -> char {
    if d == 0 {
        '0'
    } else if d == 1 {
        '1'
    } else if d == 2 {
        '2'
    } else if d == 3 {
        '3'
    } else if d == 4 {
        '4'
    } else if d == 5 {
        '5'
    } else if d == 6 {
        '6'
    } else if d == 7 {
        '7'
    } else if d == 8 {
        '8'
    } else {
        '9'
    }
}

/// The usual decimal notation of a number: most significant digit first,
/// no leading zeros (a lone zero for zero itself).
pub open spec fn decimal_digits(n: nat) -> Seq<char>
    decreases n,
{
    if n < 10 {
        seq![decimal_digit(n)]
    } else {
        decimal_digits(n / 10).push(decimal_digit(n % 10))
    }
}

fn digit_str(d: u32) -> (s: &'static str)
    requires
        d < 10,
    ensures
        s@ == seq![decimal_digit(d as nat)],
{
    proof {
        reveal_strlit("0");
        reveal_strlit("1");
        reveal_strlit("2");
        reveal_strlit("3");
        reveal_strlit("4");
        reveal_strlit("5");
        reveal_strlit("6");
        reveal_strlit("7");
        reveal_strlit("8");
        reveal_strlit("9");
    }
    let s: &'static str = match d {
        0 => "0",
        1 => "1",
        2 => "2",
        3 => "3",
        4 => "4",
        5 => "5",
        6 => "6",
        7 => "7",
        8 => "8",
        _ => "9",
    };
    proof {
        assert(s@ =~= seq![decimal_digit(d as nat)]);
    }
    s
}

/// Render a number in decimal notation.
pub fn to_decimal(n: u32) -> (s: String)
    ensures
        s@ == decimal_digits(n as nat),
    decreases n,
{
    if n < 10 {
        String::from_str(digit_str(n))
    } else {
        let mut s = to_decimal(n / 10);
        s.append(digit_str(n % 10));
        proof {
            assert(decimal_digits((n as nat) / 10) + seq![decimal_digit((n as nat) % 10)]
                =~= decimal_digits((n as nat) / 10).push(decimal_digit((n as nat) % 10)));
        }
        s
    }
}

/// The headline a range query shows, depending on which bounds are
/// present.
pub open spec fn range_headline_spec(filter: LanguagesFilter) -> Seq<char> {
    match (filter.year_from_inclusive, filter.year_to_exclusive) {
        (Some(from), Some(to)) => "Languages from year "@ + decimal_digits(from as nat)
            + " (inclusive) to "@ + decimal_digits(to as nat) + " (exclusive)"@,
        (Some(from), None) => "Languages from year "@ + decimal_digits(from as nat)
            + " and onwards"@,
        (None, Some(to)) => "Languages before year "@ + decimal_digits(to as nat),
        (None, None) => "Languages from any year"@,
    }
}

/// Render the headline for a range query.
pub fn range_headline(filter: &LanguagesFilter) -> (s: String)
    ensures
        s@ == range_headline_spec(*filter),
{
    match (filter.year_from_inclusive, filter.year_to_exclusive) {
        (Some(from), Some(to)) => {
            let mut s = String::from_str("Languages from year ");
            let from_digits = to_decimal(from);
            s.append(from_digits.as_str());
            s.append(" (inclusive) to ");
            let to_digits = to_decimal(to);
            s.append(to_digits.as_str());
            s.append(" (exclusive)");
            proof {
                assert(s@ =~= range_headline_spec(*filter));
            }
            s
        },
        (Some(from), None) => {
            let mut s = String::from_str("Languages from year ");
            let from_digits = to_decimal(from);
            s.append(from_digits.as_str());
            s.append(" and onwards");
            proof {
                assert(s@ =~= range_headline_spec(*filter));
            }
            s
        },
        (None, Some(to)) => {
            let mut s = String::from_str("Languages before year ");
            let to_digits = to_decimal(to);
            s.append(to_digits.as_str());
            proof {
                assert(s@ =~= range_headline_spec(*filter));
            }
            s
        },
        (None, None) => String::from_str("Languages from any year"),
    }
}

/// The headline an exact-year query shows.
pub open spec fn year_headline_spec(year: u32) -> Seq<char> {
    "Languages from "@ + decimal_digits(year as nat)
}

/// Render the headline for an exact-year query.
pub fn year_headline(year: u32) -> (s: String)
    ensures
        s@ == year_headline_spec(year),
{
    let mut s = String::from_str("Languages from ");
    let digits = to_decimal(year);
    s.append(digits.as_str());
    proof {
        assert(s@ =~= year_headline_spec(year));
    }
    s
}

} // verus!
