//! A policy-gated reverse-proxy engine: the verified core of two HTTP edge
//! gateways that sit in front of backend services.
//!
//! Both gateways intercept an inbound request, apply one stateful policy
//! decision, forward the request to an upstream origin, and relay the
//! upstream's response with a provenance header attached:
//!
//! - a round-robin load balancer, which picks the next upstream from an
//!   ordered list by atomically advancing a rotation cursor, and
//! - a rate limiter, which admits or denies each caller against a
//!   fixed-window counter (one count per caller identity, with a
//!   time-to-live that is re-armed on every request).
//!
//! The listener substrate, the outbound HTTP client and the networked
//! counter store are external collaborators: they perform the I/O and hand
//! this library plain values. Every policy decision, the rebasing of the
//! target URI, the relaying of headers and body, and the translation of
//! denials and forwarding failures into terminal responses live here and
//! are verified.

pub mod balancer;
pub mod gateway;
pub mod http;
pub mod limiter;
pub mod rotation;
pub mod text;
pub mod window;
