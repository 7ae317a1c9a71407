//! Security, authentication, scopes and rate-limiting configuration.
use vstd::prelude::*;

use crate::gateway::auth::{CorsConfig, CspConfig};
use crate::json::Json;
use crate::scalar::Double;
use crate::text::texts;

verus! {

/// Credential source precedence for tokens, API keys, and passwords.
#[derive(Debug, Clone, Copy, PartialEq, Eq, Structural)]
pub enum CredentialPrecedence {
    /// Environment variables take precedence over the config file.
    EnvFirst,
    /// The config file takes precedence over environment variables.
    ConfigFirst,
}

impl Default for CredentialPrecedence {
    fn default() -> (r: Self)
        ensures
            r == CredentialPrecedence::EnvFirst,
    {
        CredentialPrecedence::EnvFirst
    }
}

/// How a client proves who it is.
#[derive(Debug, Clone, Copy, PartialEq, Eq, Structural)]
pub enum AuthMode {
    /// Not at all.
    Anonymous,
    /// By the shared token.
    Token,
    /// As a paired device.
    Device,
    /// As a member of a tailnet.
    Tailscale,
    /// Through a trusted proxy.
    TrustedProxy,
}

/// Single tier configuration for multi-tier rate limiting
#[derive(Debug, Clone, Copy, PartialEq, Eq, Structural)]
pub struct TierConfig {
    /// Enable this tier
    pub enabled: bool,
    /// Maximum requests per window
    pub capacity: u32,
    /// Window size in seconds
    pub window_secs: u64,
}

impl Default for TierConfig {
    fn default() -> (r: Self)
        ensures
            r == tier(true, 100),
    {
        TierConfig { enabled: true, capacity: 100, window_secs: 60 }
    }
}

/// A tier with a window of one minute.
pub open spec fn tier(enabled: bool, capacity: u32) -> TierConfig {
    TierConfig { enabled, capacity, window_secs: 60 }
}

/// Rate limiting configuration
#[derive(Debug, Clone)]
pub struct RateLimitConfig {
    /// Enable rate limiting
    pub enabled: bool,
    /// Maximum requests per window (token bucket)
    pub capacity: u32,
    /// Refill rate (tokens per second) (token bucket)
    pub refill_rate: Double,
    /// Use multi-tier sliding window rate limiting instead of token bucket
    pub multi_tier: bool,
    /// Global tier: overall API rate limit
    pub global: TierConfig,
    /// Per-authenticated-user rate limit
    pub per_user: TierConfig,
    /// Per-IP rate limit (for anonymous requests)
    pub per_ip: TierConfig,
    /// Per-endpoint rate limit
    pub per_endpoint: TierConfig,
    /// Shared-secret authentication scope rate limit.
    pub shared_secret: TierConfig,
    /// Device-token authentication scope rate limit.
    pub device_token: TierConfig,
    /// Webhook/hook authentication scope rate limit.
    pub hook_auth: TierConfig,
    /// Control-plane write operation rate limit.
    pub control_plane_write: TierConfig,
    /// Lockout settings for repeated failures; null stands for their defaults.
    pub lockout: Json,
    /// Skip rate limiting for loopback addresses.
    pub loopback_exempt: bool,
}

impl RateLimitConfig {
    /// The default settings: a refill rate of 10.0, and every tier but that of
    /// endpoints on.
    pub open spec fn is_default(self) -> bool {
        &&& self.enabled
        &&& self.capacity == 100
        &&& self.refill_rate.bits == 0x4024_0000_0000_0000
        &&& self.multi_tier
        &&& self.global == tier(true, 1000)
        &&& self.per_user == tier(true, 100)
        &&& self.per_ip == tier(true, 30)
        &&& self.per_endpoint == tier(false, 50)
        &&& self.shared_secret == tier(true, 200)
        &&& self.device_token == tier(true, 60)
        &&& self.hook_auth == tier(true, 300)
        &&& self.control_plane_write == tier(true, 20)
        &&& self.lockout is Null
        &&& self.loopback_exempt
    }
}

fn minute_tier(enabled: bool, capacity: u32) -> (r: TierConfig)
    ensures
        r == tier(enabled, capacity),
{
    TierConfig { enabled, capacity, window_secs: 60 }
}

impl Default for RateLimitConfig {
    fn default() -> (r: Self)
        ensures
            r.is_default(),
    {
        RateLimitConfig {
            enabled: true,
            capacity: 100,
            refill_rate: Double { bits: 0x4024_0000_0000_0000 },
            multi_tier: true,
            global: minute_tier(true, 1000),
            per_user: minute_tier(true, 100),
            per_ip: minute_tier(true, 30),
            per_endpoint: minute_tier(false, 50),
            shared_secret: minute_tier(true, 200),
            device_token: minute_tier(true, 60),
            hook_auth: minute_tier(true, 300),
            control_plane_write: minute_tier(true, 20),
            lockout: Json::Null,
            loopback_exempt: true,
        }
    }
}

/// The scopes that let a client chat, read, write and see pairing codes.
pub open spec fn operator_scopes() -> Seq<Seq<char>> {
    seq!["chat"@, "read"@, "write"@, "pairing"@]
}

/// Scopes an anonymous local client gets when no authentication is asked for:
/// everything it needs to work, but not `admin`.
pub fn default_local_scopes() -> (r: Vec<String>)
    ensures
        texts(r@) == operator_scopes(),
{
    vec!["chat".to_string(), "read".to_string(), "write".to_string(), "pairing".to_string()]
}

/// Scopes a client presenting the shared token gets.
pub fn default_shared_token_scopes() -> (r: Vec<String>)
    ensures
        texts(r@) == seq!["chat"@, "read"@, "pairing"@],
{
    vec!["chat".to_string(), "read".to_string(), "pairing".to_string()]
}

/// Scopes a paired device gets: the write side too, to open sessions and drive
/// tools.
pub fn default_device_scopes() -> (r: Vec<String>)
    ensures
        texts(r@) == operator_scopes(),
{
    default_local_scopes()
}

/// Default cap on simultaneous WebSocket connections.
pub fn default_max_ws_connections() -> (r: usize)
    ensures
        r == 256,
{
    256
}

/// Security configuration
#[derive(Debug, Clone)]
pub struct SecurityConfig {
    /// Enable security features (auth, rate limiting, security headers)
    pub enabled: bool,
    /// Require authentication for API access
    pub auth_required: bool,
    /// Require pairing for new users
    pub pairing_required: bool,
    /// Authentication mode
    pub auth_mode: AuthMode,
    /// Shared secret token for simple authentication
    pub shared_token: Option<String>,
    /// Scopes granted to anonymous clients when no authentication is asked for.
    pub local_scopes: Vec<String>,
    /// Scopes granted to a client presenting the shared token.
    pub shared_token_scopes: Vec<String>,
    /// Scopes granted to a paired device.
    pub device_scopes: Vec<String>,
    /// Browser origins allowed to open a WebSocket, besides the built-in ones.
    pub allowed_ws_origins: Vec<String>,
    /// Allow an unauthenticated gateway on a bind that is not loopback.
    pub allow_non_loopback_without_auth: bool,
    /// Cap on simultaneous WebSocket connections.
    pub max_ws_connections: usize,
    /// Rate limiting configuration
    pub rate_limit: RateLimitConfig,
    /// Enable security headers
    pub security_headers: bool,
    /// CORS configuration
    pub cors: CorsConfig,
    /// CSP configuration
    pub csp: CspConfig,
    /// Mention gating; null stands for its defaults.
    pub mention_gating: Json,
    /// Allowed Tailscale tailnets (empty = any)
    pub allowed_tailnets: Vec<String>,
    /// Addresses of the proxies whose forwarding headers are believed.
    pub trusted_proxies: Vec<String>,
    /// Tailscale whois cache TTL in seconds
    pub tailscale_auth_ttl_secs: u64,
    /// Trusted proxy authentication; null stands for its defaults.
    pub trusted_proxy: Json,
    /// Credential source precedence for tokens, API keys, and passwords.
    pub credential_precedence: CredentialPrecedence,
    /// Deny outbound network to fenced command tools.
    pub fence_network: bool,
}

impl SecurityConfig {
    /// The default settings, those of CORS, CSP and the rate limits aside.
    pub open spec fn has_default_access(self) -> bool {
        &&& self.enabled
        &&& !self.auth_required
        &&& !self.pairing_required
        &&& self.auth_mode == AuthMode::Anonymous
        &&& self.shared_token is None
        &&& texts(self.local_scopes@) == operator_scopes()
        &&& texts(self.shared_token_scopes@) == seq!["chat"@, "read"@, "pairing"@]
        &&& texts(self.device_scopes@) == operator_scopes()
        &&& self.allowed_ws_origins@.len() == 0
        &&& !self.allow_non_loopback_without_auth
        &&& self.max_ws_connections == 256
        &&& self.security_headers
        &&& self.mention_gating is Null
        &&& self.allowed_tailnets@.len() == 0
        &&& self.trusted_proxies@.len() == 0
        &&& self.tailscale_auth_ttl_secs == 300
        &&& self.trusted_proxy is Null
        &&& self.credential_precedence == CredentialPrecedence::EnvFirst
        &&& !self.fence_network
    }
}

impl Default for SecurityConfig {
    fn default() -> (r: Self)
        ensures
            r.has_default_access(),
            r.rate_limit.is_default(),
            call_ensures(CorsConfig::default, (), r.cors),
            call_ensures(CspConfig::default, (), r.csp),
    {
        SecurityConfig {
            enabled: true,
            auth_required: false,
            pairing_required: false,
            auth_mode: AuthMode::Anonymous,
            shared_token: None,
            local_scopes: default_local_scopes(),
            shared_token_scopes: default_shared_token_scopes(),
            device_scopes: default_device_scopes(),
            allowed_ws_origins: Vec::new(),
            allow_non_loopback_without_auth: false,
            max_ws_connections: default_max_ws_connections(),
            rate_limit: RateLimitConfig::default(),
            security_headers: true,
            cors: CorsConfig::default(),
            csp: CspConfig::default(),
            mention_gating: Json::Null,
            allowed_tailnets: Vec::new(),
            trusted_proxies: Vec::new(),
            tailscale_auth_ttl_secs: 300,
            trusted_proxy: Json::Null,
            credential_precedence: CredentialPrecedence::default(),
            fence_network: false,
        }
    }
}

/// No client gets the `admin` scope unless the configuration names it: no default
/// grants it.
pub proof fn law_no_default_scope_is_admin()
    ensures
        !operator_scopes().contains("admin"@),
        !seq!["chat"@, "read"@, "pairing"@].contains("admin"@),
{
    reveal_strlit("admin");
    reveal_strlit("chat");
    reveal_strlit("read");
    reveal_strlit("write");
    reveal_strlit("pairing");
    assert("write"@[0] == 'w' && "admin"@[0] == 'a');
    assert("chat"@.len() == 4 && "read"@.len() == 4 && "pairing"@.len() == 7);
}

} // verus!
