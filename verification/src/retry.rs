//! Upstream retry policy and the decisions of the retry loop.

pub mod policy;
pub mod machine;
pub mod route;
