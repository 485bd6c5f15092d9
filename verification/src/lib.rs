//! A verified catalog of programming languages with year-based queries.
//!
//! The crate holds a fixed, ordered catalog of six language records and
//! exposes query operations over it: the full sequence, exact-year match,
//! inclusive/exclusive year-range match, and a partition into languages
//! from before 1970 and from 1970 onward. A companion module renders the
//! human-readable headline for a range query. Every operation carries a
//! contract pinning its result to the catalog's mathematical model.

pub mod catalog;
pub mod filter;
pub mod headline;
