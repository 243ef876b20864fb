use vstd::prelude::*;
use crate::address::PeerAddress;

verus! {

/// Protocol version this client announces in its version message.
pub const PROTOCOL_VERSION: u32 = 70015;

/// Service bits announced for this client itself: none, we serve nothing.
pub const SERVICES_NONE: u64 = 0;

/// The single "network node" service bit, attached to the per-address
/// service fields of the version message.
pub const SERVICE_NETWORK: u64 = 1;

/// The fixed protocol port peers listen on.
pub const DEFAULT_PEER_PORT: u16 = 8333;

/// The payload of a version message, with every field as a plain value.
/// The external codec turns this into wire form unchanged.
#[derive(Clone, PartialEq, Eq, Debug)]
pub struct VersionInfo {
    pub protocol_version: u32,
    pub services: u64,
    pub timestamp: i64,
    pub receiver_services: u64,
    pub receiver: PeerAddress,
    pub sender_services: u64,
    pub sender: PeerAddress,
    pub nonce: u64,
    pub user_agent: String,
    pub start_height: i32,
    pub relay: bool,
}

/// One typed protocol message, as the external codec hands it over or
/// accepts it.  Only the parts this client reads are carried: an
/// inventory message is reduced to its item count, and every recognized
/// message this client ignores wholesale arrives as `Unknown`.
#[derive(Clone, PartialEq, Eq, Debug)]
pub enum Message {
    Version(VersionInfo),
    Verack,
    Ping(u64),
    Pong(u64),
    FeeFilter(u64),
    Inventory(usize),
    MemPoolRequest,
    GetHeaders,
    Unknown,
}

/// Build the version message that opens a session towards `addr` at Unix
/// time `unix_time`: fixed protocol version, no services advertised, a
/// zero sender address, and relay switched off so the peer announces
/// transactions only through inventory messages.
pub fn build_version_message(addr: PeerAddress, unix_time: i64) -> (m: Message)
    ensures
        m matches Message::Version(v) && v.protocol_version == PROTOCOL_VERSION
            && v.services == SERVICES_NONE && v.timestamp == unix_time
            && v.receiver_services == SERVICE_NETWORK && v.receiver == addr
            && v.sender_services == SERVICE_NETWORK
            && v.sender == PeerAddress::unspecified_spec() && v.nonce == 0
            && v.user_agent@ == "/bitcoin-rust:0.32.0/"@ && v.start_height == 0
            && v.relay == false,
{
    Message::Version(
        VersionInfo {
            protocol_version: PROTOCOL_VERSION,
            services: SERVICES_NONE,
            timestamp: unix_time,
            receiver_services: SERVICE_NETWORK,
            receiver: addr,
            sender_services: SERVICE_NETWORK,
            sender: PeerAddress::unspecified(),
            nonce: 0,
            user_agent: String::from_str("/bitcoin-rust:0.32.0/"),
            start_height: 0,
            relay: false,
        },
    )
}

} // verus!
