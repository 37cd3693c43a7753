//! An incrementally filtered, fuzzy-ranked list of records, together with a
//! confirmation-gated deletion workflow.
//!
//! `searchable` owns the canonical ordered collection and derives a filtered,
//! optionally rank-sorted view of it from the current query.  `window::delete`
//! is the modal state machine that guards the removal of one record behind an
//! explicit yes/no selection made against a captured snapshot of the
//! collection.  `ranker` wraps the fuzzy string matcher that scores candidates
//! against a query.

pub mod host;
pub mod ranker;
pub mod searchable;
pub mod window;
