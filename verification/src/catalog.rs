//! The fixed language catalog and its query operations.
use vstd::prelude::*;

verus! {

/// A language record: a display name and the year the language appeared.
/// Records are immutable; the catalog is fixed at six of them.
#[derive(Clone, Copy)]
pub struct Language {
    pub name: &'static str,
    pub year: u32,
}

/// The catalog as a mathematical sequence: six records in declaration order.
pub open spec fn catalog() -> Seq<Language> {
    seq![
        Language { name: "FORTRAN", year: 1954 },
        Language { name: "LISP", year: 1958 },
        Language { name: "COBOL", year: 1959 },
        Language { name: "ALGOL 60", year: 1960 },
        Language { name: "Prolog", year: 1972 },
        Language { name: "ML", year: 1973 },
    ]
}

/// Produce the full catalog, in its fixed declaration order.
pub fn all() -> (v: Vec<Language>)
    ensures
        v@ == catalog(),
{
    let mut v: Vec<Language> = Vec::new();
    v.push(Language { name: "FORTRAN", year: 1954 });
    v.push(Language { name: "LISP", year: 1958 });
    v.push(Language { name: "COBOL", year: 1959 });
    v.push(Language { name: "ALGOL 60", year: 1960 });
    v.push(Language { name: "Prolog", year: 1972 });
    v.push(Language { name: "ML", year: 1973 });
    proof {
        assert(v@ =~= catalog());
    }
    v
}

/// The year that splits the catalog into its "old" and "new" parts.
pub const PARTITION_YEAR: u32 = 1970;

/// The predicate for the "old" part: the language appeared before 1970.
pub open spec fn is_old() -> spec_fn(Language) -> bool {
    |l: Language| l.year < PARTITION_YEAR
}

/// The predicate for the "new" part: the language appeared in 1970 or later.
pub open spec fn is_new() -> spec_fn(Language) -> bool {
    |l: Language| l.year >= PARTITION_YEAR
}

/// The "old" subsequence of the catalog, in catalog order.
pub open spec fn old_part() -> Seq<Language> {
    catalog().filter(is_old())
}

/// The "new" subsequence of the catalog, in catalog order.
pub open spec fn new_part() -> Seq<Language> {
    catalog().filter(is_new())
}

/// Split the catalog into its "old" (before 1970) and "new" (1970
/// onward) subsequences, each preserving catalog order.
pub fn partition() -> (r: (Vec<Language>, Vec<Language>))
    ensures
        r.0@ == old_part(),
        r.1@ == new_part(),
{
    let languages = all();
    let mut old_languages: Vec<Language> = Vec::new();
    let mut new_languages: Vec<Language> = Vec::new();
    let mut i: usize = 0;
    while i < languages.len()
        invariant
            languages@ == catalog(),
            i <= languages@.len(),
            old_languages@ == catalog().take(i as int).filter(is_old()),
            new_languages@ == catalog().take(i as int).filter(is_new()),
        decreases languages@.len() - i,
    {
        let l = languages[i];
        proof {
            reveal(Seq::filter);
            assert(catalog().take(i + 1).drop_last() =~= catalog().take(i as int));
            assert(catalog().take(i + 1).last() == catalog()[i as int]);
        }
        if l.year < PARTITION_YEAR {
            old_languages.push(l);
        } else {
            new_languages.push(l);
        }
        i = i + 1;
    }
    proof {
        assert(catalog().take(catalog().len() as int) =~= catalog());
    }
    (old_languages, new_languages)
}

/// The read-only state built once at startup: the catalog already
/// split into its two parts.
#[derive(Clone)]
pub struct AppState {
    pub old_languages: Vec<Language>,
    pub new_languages: Vec<Language>,
}

impl AppState {
    /// Build the startup state from the fixed catalog.
    pub fn new() -> (s: Self)
        ensures
            s.old_languages@ == old_part(),
            s.new_languages@ == new_part(),
    {
        let (old_languages, new_languages) = partition();
        AppState { old_languages, new_languages }
    }
}

/// The partition is sound and complete: every record of the "old" part
/// is from before 1970 and every record of the "new" part from 1970 or
/// later, the two parts share no record, and together they hold, as a
/// set, exactly the records of the catalog.
pub proof fn lemma_partition_properties()
    ensures
        forall|i: int| 0 <= i < old_part().len() ==> (#[trigger] old_part()[i]).year < PARTITION_YEAR,
        forall|i: int| 0 <= i < new_part().len() ==> (#[trigger] new_part()[i]).year >= PARTITION_YEAR,
        old_part().disjoint(new_part()),
        (old_part() + new_part()).to_set() == catalog().to_set(),
{
    assert forall|i: int| 0 <= i < old_part().len() implies (#[trigger] old_part()[i]).year
        < PARTITION_YEAR by {
        catalog().lemma_filter_pred(is_old(), i);
    }
    assert forall|i: int| 0 <= i < new_part().len() implies (#[trigger] new_part()[i]).year
        >= PARTITION_YEAR by {
        catalog().lemma_filter_pred(is_new(), i);
    }
    let combined = old_part() + new_part();
    assert forall|x: Language| catalog().to_set().contains(x) implies combined.to_set().contains(
        x,
    ) by {
        let k = choose|k: int| 0 <= k < catalog().len() && catalog()[k] == x;
        if x.year < PARTITION_YEAR {
            catalog().lemma_filter_contains(is_old(), k);
            let j = choose|j: int| 0 <= j < old_part().len() && old_part()[j] == x;
            assert(combined[j] == x);
        } else {
            catalog().lemma_filter_contains(is_new(), k);
            let j = choose|j: int| 0 <= j < new_part().len() && new_part()[j] == x;
            assert(combined[old_part().len() + j] == x);
        }
        assert(combined.contains(x));
    }
    assert forall|x: Language| combined.to_set().contains(x) implies catalog().to_set().contains(
        x,
    ) by {
        let k = choose|k: int| 0 <= k < combined.len() && combined[k] == x;
        if k < old_part().len() {
            assert(old_part().contains(x));
            catalog().lemma_filter_contains_rev(is_old(), x);
        } else {
            assert(new_part()[k - old_part().len()] == x);
            assert(new_part().contains(x));
            catalog().lemma_filter_contains_rev(is_new(), x);
        }
    }
    assert((old_part() + new_part()).to_set() =~= catalog().to_set());
}

/// The catalog always holds exactly the six records, in declaration order.
pub proof fn lemma_catalog_is_the_six_records()
    ensures
        catalog().len() == 6,
        catalog()[0] == (Language { name: "FORTRAN", year: 1954 }),
        catalog()[1] == (Language { name: "LISP", year: 1958 }),
        catalog()[2] == (Language { name: "COBOL", year: 1959 }),
        catalog()[3] == (Language { name: "ALGOL 60", year: 1960 }),
        catalog()[4] == (Language { name: "Prolog", year: 1972 }),
        catalog()[5] == (Language { name: "ML", year: 1973 }),
{
}

} // verus!
