//! Selection of the client key used by the rate-limiting collaborator:
//! either a fixed header name to read an address from, or the peer address.

use vstd::prelude::*;

verus! {

/// How the rate limiter identifies a client.
#[derive(Copy, Clone)]
pub enum IpExtractor {
    /// Read the client address from the named request header.
    HeaderKeyExtractor { header_name: &'static str },
    /// Use the connection's peer address.
    PeerIpKeyExtractor,
}

impl IpExtractor {
    /// An extractor that reads the client address from `header_name`.
    pub fn header_extractor(header_name: &'static str) -> (r: Self)
        ensures
            r == (IpExtractor::HeaderKeyExtractor { header_name }),
    {
        Self::HeaderKeyExtractor { header_name }
    }
}

} // verus!
