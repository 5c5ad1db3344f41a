//! What the proxy is told to do.
use vstd::prelude::*;

verus! {

/// What happens to an upstream's offer of HTTP/3.
#[derive(Clone, Copy, Debug, PartialEq, Eq, Structural)]
pub enum QuicMode {
    Passthrough,
    Downgrade,
}

/// The settings that exchanges are handled by.
#[derive(Clone, Copy, Debug, PartialEq, Eq, Structural)]
pub struct ProxyPolicy {
    /// Whether connections are routed to the address they were made to.
    pub transparent_enabled: bool,
    /// Whether malformed requests and responses are refused rather than mended.
    pub strict_http_semantics: bool,
    /// The largest body that is recorded, in bytes.
    pub max_body_size: usize,
    /// How long an upstream may take to answer.
    pub request_timeout_ms: u64,
    pub quic_mode: QuicMode,
    /// Whether a downgraded client is told to forget what it cached.
    pub quic_downgrade_clear_cache: bool,
    /// How much of a body rules may see, where no rule says otherwise.
    pub rule_body_inspect_budget: usize,
}

} // verus!
