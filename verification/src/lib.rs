//! Line-oriented substring search over a text body.
//!
//! `text` is the mathematical model: what a line is, what it means for a
//! query to occur in one, and which lines a search keeps. `filter` holds the
//! executable searches, each proved against that model. `config` resolves the
//! arguments of one invocation. `laws` states what follows for every input.

pub mod text;
pub mod strings;
pub mod config;
pub mod filter;
pub mod laws;

pub use config::{Config, ConfigError, CASE_INSENSITIVE};
pub use filter::{run, search, search_case_insensitive, select_lines};
