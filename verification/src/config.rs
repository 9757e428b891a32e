//! The resolved bridge configuration that the library's decisions read.
//!
//! Durations are whole milliseconds or seconds, as each field's name says.

use vstd::prelude::*;

verus! {

/// How upstream requests leave the host.
#[derive(Debug, Clone, Copy, PartialEq, Eq, Structural)]
pub enum EgressMode {
    /// Straight from the host.
    Direct,
    /// Only through the proxy pool.
    Proxy,
    /// Through the proxy pool once it is ready, directly before that.
    Hybrid,
}

/// Upstream retry and model-fallback settings.
#[derive(Debug, Clone)]
pub struct RetryConfig {
    pub max_network_attempts: usize,
    pub base_backoff_ms: u64,
    pub max_backoff_ms: u64,
    pub model_fallbacks: Vec<String>,
    pub default_fallbacks_enabled: bool,
    pub upstream_base_url: String,
    pub upstream_api_key: Option<String>,
    pub upstream_api_keys: Vec<String>,
}

/// Proxy-egress settings.
#[derive(Debug, Clone)]
pub struct EgressConfig {
    pub mode: EgressMode,
    pub require_verified_exit_ip: bool,
    pub active_proxy_count: usize,
    pub minimum_unique_exit_ips: usize,
    pub identity_ttl_secs: u64,
    pub recovery_backoff_max_ms: u64,
}

/// Runtime-directory settings.
#[derive(Debug, Clone)]
pub struct RuntimeConfig {
    pub runtime_dir: Option<String>,
}

/// The resolved configuration.
#[derive(Debug, Clone)]
pub struct BridgeConfig {
    pub retry: RetryConfig,
    pub egress: EgressConfig,
    pub runtime: RuntimeConfig,
    pub primary_proxies: Option<Vec<String>>,
    pub warm_standby_proxies: Option<Vec<String>>,
}

/// Default network attempts per model.
pub const DEFAULT_MAX_NETWORK_ATTEMPTS: usize = 3;

/// Default first backoff step, in milliseconds.
pub const DEFAULT_BASE_BACKOFF_MS: u64 = 500;

/// Default backoff ceiling, in milliseconds.
pub const DEFAULT_MAX_BACKOFF_MS: u64 = 8_000;

/// Default identity freshness window, in seconds.
pub const DEFAULT_IDENTITY_TTL_SECS: u64 = 300;

/// Default ceiling of the reconciler's recovery backoff, in milliseconds.
pub const DEFAULT_RECOVERY_BACKOFF_MAX_MS: u64 = 60_000;

impl Default for RetryConfig {
    fn default() -> (config: RetryConfig)
        ensures
            config.max_network_attempts == DEFAULT_MAX_NETWORK_ATTEMPTS,
            config.base_backoff_ms == DEFAULT_BASE_BACKOFF_MS,
            config.max_backoff_ms == DEFAULT_MAX_BACKOFF_MS,
            config.model_fallbacks@.len() == 0,
            !config.default_fallbacks_enabled,
            config.upstream_base_url@.len() == 0,
            config.upstream_api_key is None,
            config.upstream_api_keys@.len() == 0,
    {
        RetryConfig {
            max_network_attempts: DEFAULT_MAX_NETWORK_ATTEMPTS,
            base_backoff_ms: DEFAULT_BASE_BACKOFF_MS,
            max_backoff_ms: DEFAULT_MAX_BACKOFF_MS,
            model_fallbacks: Vec::new(),
            default_fallbacks_enabled: false,
            upstream_base_url: String::new(),
            upstream_api_key: None,
            upstream_api_keys: Vec::new(),
        }
    }
}

impl Default for EgressConfig {
    fn default() -> (config: EgressConfig)
        ensures
            config.mode == EgressMode::Direct,
            config.require_verified_exit_ip,
            config.active_proxy_count == 1,
            config.minimum_unique_exit_ips == 1,
            config.identity_ttl_secs == DEFAULT_IDENTITY_TTL_SECS,
            config.recovery_backoff_max_ms == DEFAULT_RECOVERY_BACKOFF_MAX_MS,
    {
        EgressConfig {
            mode: EgressMode::Direct,
            require_verified_exit_ip: true,
            active_proxy_count: 1,
            minimum_unique_exit_ips: 1,
            identity_ttl_secs: DEFAULT_IDENTITY_TTL_SECS,
            recovery_backoff_max_ms: DEFAULT_RECOVERY_BACKOFF_MAX_MS,
        }
    }
}

impl Default for BridgeConfig {
    fn default() -> (config: BridgeConfig)
        ensures
            config.retry.model_fallbacks@.len() == 0,
            !config.retry.default_fallbacks_enabled,
            config.retry.base_backoff_ms == DEFAULT_BASE_BACKOFF_MS,
            config.retry.max_backoff_ms == DEFAULT_MAX_BACKOFF_MS,
            config.egress.mode == EgressMode::Direct,
            config.runtime.runtime_dir is None,
            config.primary_proxies is None,
            config.warm_standby_proxies is None,
    {
        BridgeConfig {
            retry: RetryConfig::default(),
            egress: EgressConfig::default(),
            runtime: RuntimeConfig { runtime_dir: None },
            primary_proxies: None,
            warm_standby_proxies: None,
        }
    }
}


/// Whether a switch given as text is on: `1`, `true`, `yes` or `on`, in any
/// ASCII case.
pub open spec fn switch_on(value: Seq<char>) -> bool {
    let v = crate::text::lower_seq(value);
    v == "1"@ || v == "true"@ || v == "yes"@ || v == "on"@
}

/// Whether the default model fallbacks are enabled, given the value of
/// `OPENCODE_ENABLE_DEFAULT_FALLBACKS` where it is set.
pub fn default_fallbacks_enabled(value: Option<&str>) -> (enabled: bool)
    ensures
        enabled == match value {
            Some(v) => switch_on(v@),
            None => false,
        },
{
    match value {
        Some(v) => {
            let lowered = crate::text::lower_chars(v);
            let one = crate::text::str_chars("1");
            let yes_true = crate::text::str_chars("true");
            let yes = crate::text::str_chars("yes");
            let on = crate::text::str_chars("on");
            crate::text::chars_equal(lowered.as_slice(), one.as_slice())
                || crate::text::chars_equal(lowered.as_slice(), yes_true.as_slice())
                || crate::text::chars_equal(lowered.as_slice(), yes.as_slice())
                || crate::text::chars_equal(lowered.as_slice(), on.as_slice())
        },
        None => false,
    }
}

} // verus!
