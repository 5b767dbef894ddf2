//! A linting engine that scans text against a named collection of
//! regular-expression rules and reports, for each unit of text, which
//! rules matched.

pub mod metadata_guardian;
pub mod pattern_set;
