//! The rate-limiting gateway: its configuration, as the runtime shell
//! constructs it at startup.
//!
//! The shell owns this value for the life of the process together with
//! the counter-store client, derives a caller identity from each inbound
//! connection's remote address (or the fallback sentinel when it is
//! unavailable), drives the store's increment and set-expiry for that
//! identity, and hands the observed count to the limiter's decision
//! functions (see [`crate::gateway`] and [`crate::window`]).

use crate::text::{local_uri, local_uri_chars};
use vstd::prelude::*;
use vstd::string::*;

verus! {

/// The rate limiter's configuration: the port it listens on, the single
/// upstream every granted request is forwarded to, the address of the
/// counter store, and the number of requests granted to one identity
/// per window.
pub struct RateLimiter {
    pub port: u16,
    pub forward_url: String,
    pub redis_url: String,
    pub request_limit: usize,
}

impl RateLimiter {
    pub fn new(port: u16, forward_url: String, redis_url: String, request_limit: usize) -> (r:
        Self)
        ensures
            r.port == port,
            r.forward_url@ == forward_url@,
            r.redis_url@ == redis_url@,
            r.request_limit == request_limit,
    {
        RateLimiter { port, forward_url, redis_url, request_limit }
    }

    /// The URI under which this gateway itself is reached.
    pub fn uri(&self) -> (r: String)
        ensures
            r@ == local_uri_chars(self.port),
    {
        local_uri(self.port)
    }

    /// The caller identity to fall back on when the inbound
    /// connection's remote address is unavailable.
    pub fn fallback_identity() -> (r: String)
        ensures
            r@ == "unknown"@,
    {
        String::from_str("unknown")
    }
}

} // verus!
