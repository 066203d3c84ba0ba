//! A minimal line-oriented text search library.
//!
//! Given a query string and a body of text, the library returns every line of
//! the text that contains the query, either exactly or case-insensitively.
//! `Config` turns a positional argument list into the query, the filename and
//! the case-sensitivity flag that a caller needs to drive a search.

pub mod config;
pub mod laws;
pub mod search;
pub mod text;

pub use config::Config;
pub use config::ConfigError;
pub use search::search;
pub use search::search_case_insensitive;
pub use search::search_with_config;
