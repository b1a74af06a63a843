//! A local, single-shot text search engine: given a search term and a set of
//! source roots, it returns the contents of every regular file under those
//! roots whose text contains the term as a literal substring.
//!
//! The crate holds the decision logic of the tool: entry classification,
//! the content-loading failure policy, substring filtering, aggregation of
//! per-root results, the source-list configuration rules, and the result
//! browser's selection model. Filesystem walking, file reading, terminal
//! rendering and process spawning live with the surrounding binary, which
//! hands this crate plain observed values.

pub mod cli;
pub mod config;
pub mod events;
pub mod git;
pub mod results_state;
pub mod search;
pub mod sources;
pub mod text;

pub use search::Search;
pub use text::str_contains_term;
