//! Plain-value models of the HTTP messages that flow through a gateway.
//!
//! The listener substrate and the outbound HTTP client own the wire types;
//! they hand the library a request as method, target, headers and body,
//! and take a status, headers and body back. Proxying is fully
//! transparent, so nothing here interprets a method, a header name or a
//! body: they are carried as opaque strings and bytes.

use vstd::prelude::*;
use vstd::string::*;

verus! {

/// A request as received from the listener substrate: the method, the
/// path together with the query string (the authority has already been
/// stripped; it is replaced when forwarding), the header multimap in
/// arrival order, and the body bytes.
pub struct InboundRequest {
    pub method: String,
    pub path_and_query: String,
    pub headers: Vec<(String, String)>,
    pub body: Vec<u8>,
}

/// A request ready for the outbound HTTP client: as the inbound request,
/// but addressed by a full target URI.
pub struct OutboundRequest {
    pub method: String,
    pub uri: String,
    pub headers: Vec<(String, String)>,
    pub body: Vec<u8>,
}

/// A response, either relayed from an upstream or produced terminally by
/// the gateway itself.
pub struct Response {
    pub status: u16,
    pub headers: Vec<(String, String)>,
    pub body: Vec<u8>,
}

/// Whether the header list holds `name` with `value`.
pub open spec fn contains_header(hs: Seq<(String, String)>, name: Seq<char>, value: Seq<char>) -> bool {
    exists|i: int| 0 <= i < hs.len() && hs[i].0@ == name && hs[i].1@ == value
}

/// The target URI for forwarding: the upstream base address with the
/// inbound path and query appended verbatim.
pub fn build_target_uri(base: &str, path_and_query: &str) -> (r: String)
    ensures
        r@ == base@ + path_and_query@,
{
    let mut s = String::from_str(base);
    s.append(path_and_query);
    s
}

/// An element-wise copy of a header list.
pub fn copy_headers(hs: &Vec<(String, String)>) -> (r: Vec<(String, String)>)
    ensures
        r@ == hs@,
{
    let mut out: Vec<(String, String)> = Vec::new();
    let mut i: usize = 0;
    while i < hs.len()
        invariant
            i <= hs.len(),
            out@ =~= hs@.subrange(0, i as int),
        decreases hs.len() - i,
    {
        let name = hs[i].0.clone();
        let value = hs[i].1.clone();
        out.push((name, value));
        i = i + 1;
    }
    proof {
        assert(out@ =~= hs@);
    }
    out
}

/// An element-wise copy of body bytes.
pub fn copy_bytes(b: &Vec<u8>) -> (r: Vec<u8>)
    ensures
        r@ == b@,
{
    let mut out: Vec<u8> = Vec::new();
    let mut i: usize = 0;
    while i < b.len()
        invariant
            i <= b.len(),
            out@ =~= b@.subrange(0, i as int),
        decreases b.len() - i,
    {
        out.push(b[i]);
        i = i + 1;
    }
    proof {
        assert(out@ =~= b@);
    }
    out
}

/// The value of the first header named `name`, if any.
pub fn header_value(hs: &Vec<(String, String)>, name: &String) -> (r: Option<String>)
    ensures
        match r {
            Some(v) => exists|i: int|
                0 <= i < hs@.len() && hs@[i].0@ == name@ && hs@[i].1@ == v@ && (forall|j: int|
                    0 <= j < i ==> hs@[j].0@ != name@),
            None => forall|j: int| 0 <= j < hs@.len() ==> hs@[j].0@ != name@,
        },
{
    let mut i: usize = 0;
    while i < hs.len()
        invariant
            i <= hs.len(),
            forall|j: int| 0 <= j < i ==> hs@[j].0@ != name@,
        decreases hs.len() - i,
    {
        let h = &hs[i];
        if h.0 == *name {
            return Some(h.1.clone());
        }
        i = i + 1;
    }
    None
}

} // verus!
