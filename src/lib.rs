//! An incremental, path-scoped fuzzy finder over directory listings.
//!
//! The library holds the finder's logic: it parses a query into a search
//! directory, a pattern and a recursion flag, keeps one cached listing per
//! (directory, recursive) key, scores listed paths with a fuzzy matcher,
//! adjusts and ranks the scores, and builds the result items with their
//! follow-up actions. Walking the filesystem is left to the caller, which
//! hands the walk in as a closure.
mod text;
pub mod query;
pub mod rank;
pub mod matching;
pub mod cache;
pub mod items;
pub mod finder;
pub mod docset;
