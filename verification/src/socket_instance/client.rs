//! The peers of a channel: who they are and where they are.

use vstd::prelude::*;

verus! {

/// The network address of a peer: an IP address and a port, as plain numbers.
///
/// Two addresses are the same when every field is the same, which is how the
/// standard library compares socket addresses.
#[derive(Clone, Copy, Debug, PartialEq, Eq, Structural)]
#[allow(inconsistent_fields)]
pub enum PeerAddr {
    V4 { ip: u32, port: u16 },
    V6 { ip: u128, port: u16, flowinfo: u32, scope_id: u32 },
}

impl PeerAddr {
    pub open spec fn spec_port(&self) -> u16 {
        match *self {
            PeerAddr::V4 { port, .. } => port,
            PeerAddr::V6 { port, .. } => port,
        }
    }

    #[verifier::when_used_as_spec(spec_port)]
    pub fn port(&self) -> (port: u16)
        ensures
            port == self.spec_port(),
    {
        match *self {
            PeerAddr::V4 { port, .. } => port,
            PeerAddr::V6 { port, .. } => port,
        }
    }
}

/// Names one framed stream of the transport layer. The engine only asks
/// whether a client has one and hands the name back when it wants a write.
#[derive(Clone, Copy, Debug, PartialEq, Eq, Structural)]
pub struct StreamId(pub u64);

/// The identity record of a peer.
#[derive(Debug, PartialEq, Eq)]
pub struct ChannelClient {
    /// Assigned at registration; blank for a peer seen only in a datagram.
    pub uid: String,
    /// Where the peer was when it was observed.
    pub addr: PeerAddr,
    /// The framed stream to the peer; always absent on a datagram channel.
    pub stream: Option<StreamId>,
}

/// `Uuid::new_v4` written out with `to_string`: a random version-4 identifier
/// in its hyphenated form, which is always 36 characters long. Nothing is
/// claimed about which identifier comes back.
#[verifier::external_body]
pub(crate) fn fresh_uid() -> (uid: String)
    ensures
        uid@.len() == 36,
{
    uuid::Uuid::new_v4().to_string()
}

impl Clone for ChannelClient {
    fn clone(&self) -> (copy: Self)
        ensures
            copy == *self,
    {
        ChannelClient { uid: self.uid.clone(), addr: self.addr, stream: self.stream }
    }
}

impl ChannelClient {
    /// A client observed at `addr`, under a fresh random uid.
    pub fn new(addr: PeerAddr, stream: Option<StreamId>) -> (client: Self)
        ensures
            client.addr == addr,
            client.stream == stream,
            client.uid@.len() == 36,
    {
        ChannelClient { addr, stream, uid: fresh_uid() }
    }

    /// The stand-in for the sender of a datagram: its address, a blank uid and
    /// no stream.
    pub fn ephemeral(addr: PeerAddr) -> (client: Self)
        ensures
            client.addr == addr,
            client.stream is None,
            client.uid@ == Seq::<char>::empty(),
    {
        ChannelClient { addr, stream: None, uid: String::new() }
    }

    /// Whether `self` and `other` may not stand in one registry together:
    /// they share a uid or an address.
    pub open spec fn collides_with(&self, other: &ChannelClient) -> bool {
        self.uid@ == other.uid@ || self.addr == other.addr
    }
}

} // verus!
