//! The kernel client's endpoint.

use vstd::prelude::*;
use crate::text::{has_prefix, starts_with, after_prefix};

verus! {

/// The transport URL of a kernel endpoint: `grpc://` becomes `http://`,
/// `http(s)://` stays, and a bare `host:port` gets `http://`.
pub open spec fn transport_url(s: Seq<char>) -> Seq<char> {
    if has_prefix(s, "grpc://"@) {
        "http://"@ + s.subrange(7, s.len() as int)
    } else if has_prefix(s, "http://"@) || has_prefix(s, "https://"@) {
        s
    } else {
        "http://"@ + s
    }
}

pub fn normalize_endpoint(input: &str) -> (r: String)
    ensures
        r@ == transport_url(input@),
{
    proof {
        reveal_strlit("grpc://");
    }
    if starts_with(input, "grpc://") {
        String::from_str("http://").concat(after_prefix(input, "grpc://").as_str())
    } else if starts_with(input, "http://") || starts_with(input, "https://") {
        String::from_str(input)
    } else {
        String::from_str("http://").concat(input)
    }
}

/// A client of the kernel at one endpoint.
#[derive(Debug, Clone)]
pub struct RmvmAdapter {
    endpoint: String,
}

impl RmvmAdapter {
    pub closed spec fn endpoint_view(&self) -> Seq<char> {
        self.endpoint@
    }

    pub fn new(endpoint: String) -> (r: RmvmAdapter)
        ensures
            r.endpoint_view() == transport_url(endpoint@),
    {
        RmvmAdapter { endpoint: normalize_endpoint(endpoint.as_str()) }
    }

    pub fn endpoint(&self) -> (r: &String)
        ensures
            r@ == self.endpoint_view(),
    {
        &self.endpoint
    }
}

} // verus!
