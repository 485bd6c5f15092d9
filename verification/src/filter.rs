//! Year-based filtering of the catalog: exact match and range match.
use vstd::prelude::*;

use crate::catalog::{catalog, Language};

verus! {

/// The predicate an exact-year query uses: the record's year equals `year`.
pub open spec fn has_year(year: u32) -> spec_fn(Language) -> bool {
    |l: Language| l.year == year
}

/// Produce the subsequence of the catalog whose records have exactly
/// the given year, preserving catalog order. Any integer is a valid
/// input; an empty result is a normal outcome, not an error.
pub fn by_year(year: u32) -> (v: Vec<Language>)
    ensures
        v@ == catalog().filter(has_year(year)),
{
    let languages = crate::catalog::all();
    let mut v: Vec<Language> = Vec::new();
    let mut i: usize = 0;
    while i < languages.len()
        invariant
            languages@ == catalog(),
            i <= languages@.len(),
            v@ == catalog().take(i as int).filter(has_year(year)),
        decreases languages@.len() - i,
    {
        let l = languages[i];
        proof {
            reveal(Seq::filter);
            assert(catalog().take(i + 1).drop_last() =~= catalog().take(i as int));
            assert(catalog().take(i + 1).last() == catalog()[i as int]);
        }
        if l.year == year {
            v.push(l);
        }
        i = i + 1;
    }
    proof {
        assert(catalog().take(catalog().len() as int) =~= catalog());
    }
    v
}

/// A range filter over the `year` field: an optional inclusive lower
/// bound and an optional exclusive upper bound. Both bounds are
/// independently optional; with both absent the filter accepts
/// every record.
#[derive(Clone, Copy)]
pub struct LanguagesFilter {
    pub year_from_inclusive: Option<u32>,
    pub year_to_exclusive: Option<u32>,
}

impl LanguagesFilter {
    /// What the filter means: the year is at least the lower bound
    /// (when present) and strictly below the upper bound (when present).
    pub open spec fn accepts_spec(self, l: Language) -> bool {
        &&& match self.year_from_inclusive {
            Some(from) => from <= l.year,
            None => true,
        }
        &&& match self.year_to_exclusive {
            Some(to) => l.year < to,
            None => true,
        }
    }

    /// The filter as a predicate on records, for use with `Seq::filter`.
    pub open spec fn accepted(self) -> spec_fn(Language) -> bool {
        |l: Language| self.accepts_spec(l)
    }

    /// Check whether a record passes the filter.
    pub fn accepts(&self, language: &Language) -> (r: bool)
        ensures
            r == self.accepts_spec(*language),
    {
        let year = language.year;
        let matches_from = match self.year_from_inclusive {
            Some(from) => from <= year,
            None => true,
        };
        let matches_to = match self.year_to_exclusive {
            Some(to) => year < to,
            None => true,
        };
        matches_from && matches_to
    }
}

/// Produce the subsequence of the catalog accepted by the range filter,
/// preserving catalog order. An inverted range is not an error: it
/// simply accepts nothing.
pub fn by_range(filter: &LanguagesFilter) -> (v: Vec<Language>)
    ensures
        v@ == catalog().filter(filter.accepted()),
{
    let languages = crate::catalog::all();
    let mut v: Vec<Language> = Vec::new();
    let mut i: usize = 0;
    while i < languages.len()
        invariant
            languages@ == catalog(),
            i <= languages@.len(),
            v@ == catalog().take(i as int).filter(filter.accepted()),
        decreases languages@.len() - i,
    {
        let l = languages[i];
        proof {
            reveal(Seq::filter);
            assert(catalog().take(i + 1).drop_last() =~= catalog().take(i as int));
            assert(catalog().take(i + 1).last() == catalog()[i as int]);
        }
        if filter.accepts(&l) {
            v.push(l);
        }
        i = i + 1;
    }
    proof {
        assert(catalog().take(catalog().len() as int) =~= catalog());
    }
    v
}

/// Every record of the catalog appears in the exact-year query
/// for its own year.
pub proof fn lemma_by_year_contains_record(i: int)
    requires
        0 <= i < catalog().len(),
    ensures
        catalog().filter(has_year(catalog()[i].year)).contains(catalog()[i]),
{
    catalog().lemma_filter_contains(has_year(catalog()[i].year), i);
}

/// An exact-year query for a year that no record of the catalog has
/// returns the empty sequence.
pub proof fn lemma_by_year_absent_is_empty(year: u32)
    requires
        forall|i: int| 0 <= i < catalog().len() ==> catalog()[i].year != year,
    ensures
        catalog().filter(has_year(year)) =~= Seq::<Language>::empty(),
{
    let pred = has_year(year);
    assert(catalog().all(|l: Language| !pred(l)));
    catalog().lemma_all_neg_filter_empty(pred);
}

/// A filter that accepts every element of a sequence filters it
/// to itself.
proof fn lemma_filter_all_true(s: Seq<Language>, pred: spec_fn(Language) -> bool)
    requires
        forall|i: int| 0 <= i < s.len() ==> #[trigger] pred(s[i]),
    ensures
        s.filter(pred) =~= s,
    decreases s.len(),
{
    reveal(Seq::filter);
    if s.len() != 0 {
        assert(pred(s.last()));
        lemma_filter_all_true(s.drop_last(), pred);
        assert(s.drop_last().filter(pred).push(s.last()) =~= s);
    }
}

/// The range query with both bounds absent returns the whole catalog,
/// the same sequence as `all`.
pub proof fn lemma_unbounded_range_is_all()
    ensures
        catalog().filter(
            (LanguagesFilter { year_from_inclusive: None, year_to_exclusive: None }).accepted(),
        ) =~= catalog(),
{
    let filter = LanguagesFilter { year_from_inclusive: None, year_to_exclusive: None };
    lemma_filter_all_true(catalog(), filter.accepted());
}

/// A range whose upper bound does not exceed its lower bound (an
/// inverted or empty range) accepts nothing: the query returns the
/// empty sequence rather than an error.
pub proof fn lemma_inverted_range_is_empty(filter: LanguagesFilter)
    requires
        filter.year_from_inclusive is Some,
        filter.year_to_exclusive is Some,
        filter.year_to_exclusive->0 <= filter.year_from_inclusive->0,
    ensures
        catalog().filter(filter.accepted()) =~= Seq::<Language>::empty(),
{
    let pred = filter.accepted();
    assert(catalog().all(|l: Language| !pred(l)));
    catalog().lemma_all_neg_filter_empty(pred);
}

} // verus!
