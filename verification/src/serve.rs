//! The command-line overrides of the foreground bridge server.

use vstd::prelude::*;

verus! {

/// Overrides given on the server's command line; each is absent unless given.
#[derive(Debug, Clone)]
pub struct ServeArgs {
    /// Bridge port.
    pub port: Option<u16>,
    /// Bind address.
    pub host: Option<String>,
    /// Path of a custom TOML config file.
    pub config: Option<String>,
    /// Model.
    pub model: Option<String>,
    /// Shell policy (disabled, allowlist, unrestricted).
    pub shell_policy: Option<String>,
    /// Tavily search API key.
    pub tavily_api_key: Option<String>,
    /// Exa search API key.
    pub exa_api_key: Option<String>,
    /// Serper.dev search API key.
    pub serper_api_key: Option<String>,
    /// SearXNG instance URL.
    pub searxng_url: Option<String>,
    /// SearXNG API key.
    pub searxng_api_key: Option<String>,
    /// Maximum request body size in bytes (0 = unlimited).
    pub max_body_size: Option<usize>,
    /// Egress mode (direct or proxy).
    pub egress_mode: Option<String>,
}

} // verus!
