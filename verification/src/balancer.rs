//! The round-robin load-balancing gateway: its configuration, as the
//! runtime shell constructs it at startup.
//!
//! The shell owns this value for the life of the process, together with
//! the shared rotation cursor, and serves every inbound request by
//! pairing one cursor acquisition (see [`crate::rotation`]) with one
//! forwarding attempt (see [`crate::gateway`]).

use crate::text::{local_uri, local_uri_chars};
use vstd::prelude::*;

verus! {

/// The load balancer's configuration: the port it listens on and the
/// ordered list of upstream addresses it rotates over.
pub struct LoadBalancer {
    pub port: u16,
    pub servers: Vec<String>,
}

impl LoadBalancer {
    pub fn new(port: u16, servers: Vec<String>) -> (r: Self)
        ensures
            r.port == port,
            r.servers@ == servers@,
    {
        LoadBalancer { port, servers }
    }

    /// The URI under which this gateway itself is reached.
    pub fn uri(&self) -> (r: String)
        ensures
            r@ == local_uri_chars(self.port),
    {
        local_uri(self.port)
    }
}

} // verus!
