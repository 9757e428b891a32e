//! Web search: query and result types, the HTML result parsers, and the
//! provider fallback decisions.

pub mod util;
pub mod types;
pub mod duckduckgo;
pub mod yahoo;
pub mod client;
pub mod fetch;
pub mod payload;
