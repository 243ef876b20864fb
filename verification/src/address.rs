use vstd::prelude::*;

verus! {

/// The bits of an IP address, either a 32-bit v4 address or a 128-bit v6
/// address, kept as plain integers so that contracts can speak about them.
#[derive(Clone, Copy, PartialEq, Eq, Structural, Debug)]
pub enum IpBits {
    V4(u32),
    V6(u128),
}

/// A network endpoint: an IP address together with the protocol port.
/// Immutable once selected; sessions carry it through unchanged.
#[derive(Clone, Copy, PartialEq, Eq, Structural, Debug)]
pub struct PeerAddress {
    pub ip: IpBits,
    pub port: u16,
}

impl PeerAddress {
    /// The all-zero v4 endpoint, advertised as our own address in the
    /// version message (this client does not accept inbound connections).
    pub open spec fn unspecified_spec() -> PeerAddress {
        PeerAddress { ip: IpBits::V4(0), port: 0 }
    }

    pub fn unspecified() -> (r: PeerAddress)
        ensures
            r == PeerAddress::unspecified_spec(),
    {
        PeerAddress { ip: IpBits::V4(0), port: 0 }
    }
}

} // verus!
