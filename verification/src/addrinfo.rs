//! One record of an address-resolution answer, as plain values.

use vstd::prelude::*;

verus! {

/// One `(flags, family, socktype, protocol, canonical name)` record returned
/// by the resolver collaborator. The engine only carries these values; they
/// are produced and consumed at the embedder's edge.
#[derive(Clone, Debug)]
pub struct AddrInfo {
    /// Bitwise OR of the platform's address-info flags.
    pub flags: u32,
    /// The platform's address-family constant.
    pub family: u32,
    /// The platform's socket-type constant.
    pub socktype: u32,
    /// The platform's protocol constant.
    pub protocol: u32,
    /// The canonical name of the host, when one was asked for.
    pub canonical_name: Option<String>,
}

impl AddrInfo {
    /// Packs the fields of one resolver record.
    pub fn new(
        flags: u32,
        family: u32,
        socktype: u32,
        protocol: u32,
        canonical_name: Option<String>,
    ) -> (r: AddrInfo)
        ensures
            r.flags == flags,
            r.family == family,
            r.socktype == socktype,
            r.protocol == protocol,
            r.canonical_name == canonical_name,
    {
        AddrInfo { flags, family, socktype, protocol, canonical_name }
    }
}

} // verus!
