//! The server: two tables of channels, one per transport, and the range of
//! ports that an exhaustive scan may try.

use crate::error::predeclared::QuickSocketError;
use crate::socket_instance::client::fresh_uid;
use crate::search::{any, first_index, lemma_first_index_found, lemma_first_index_none};
use vstd::prelude::*;

pub mod channel;
pub mod client;
pub mod emit;
pub mod event;
pub mod handlers;
pub mod worker;

pub use channel::{Channel, ChannelCreatePreferences, ChannelOp, ChannelView, Transport};
pub use client::{ChannelClient, PeerAddr, StreamId};
pub use emit::{Delivery, Emission, Step, WriteOutcome};
pub use handlers::EventTable;
pub use worker::{AcceptStep, ReadEvent, Reply, WorkerStep};

verus! {

/// One thing for the stream transport and one for the datagram transport.
#[derive(Clone, Debug)]
pub struct TcpUdp<T, U> {
    pub tcp: T,
    pub udp: U,
}

/// A range of ports, both ends included.
#[derive(Clone, Copy, Debug, PartialEq, Eq, Structural)]
pub struct PortRange {
    pub start: u16,
    pub end: u16,
}

#[derive(Clone, Copy, Debug, PartialEq, Eq, Structural)]
pub struct Properties {
    /// The ports that an exhaustive scan tries.
    pub port_range: PortRange,
}

/// What the creator of a channel gets back.
#[derive(Debug, PartialEq, Eq)]
pub struct ChannelHandle {
    /// Identifies the channel for its lifetime.
    pub channel_id: String,
    /// The port that peers connect or send to.
    pub port: u16,
    /// Whether a worker is to be started for the channel.
    pub listening: bool,
}

pub struct QuickSocketInstance<H> {
    socket: TcpUdp<Vec<Channel<H>>, Vec<Channel<H>>>,
    properties: Properties,
}

/// A server as mathematics: each table is the sequence of its channels.
pub struct ServerView<H> {
    pub socket: TcpUdp<Seq<ChannelView<H>>, Seq<ChannelView<H>>>,
    pub properties: Properties,
}

/// The test that a channel passes when it has this id.
pub open spec fn has_id<H>(channel_id: Seq<char>) -> spec_fn(ChannelView<H>) -> bool {
    |channel: ChannelView<H>| channel.channel_id == channel_id
}

/// The table after the channel with this id, if any, is destroyed. The entry
/// stays.
pub open spec fn destroyed_in<H>(table: Seq<ChannelView<H>>, channel_id: Seq<char>) -> Seq<
    ChannelView<H>,
> {
    match first_index(table, has_id(channel_id)) {
        Some(index) => table.update(index, table[index].destroy()),
        None => table,
    }
}

/// The channel of the table with this id, if any.
pub open spec fn channel_with_id<H>(table: Seq<ChannelView<H>>, channel_id: Seq<char>) -> Option<
    ChannelView<H>,
> {
    match first_index(table, has_id(channel_id)) {
        Some(index) => Some(table[index]),
        None => None,
    }
}

/// No two channels of the table have one id.
pub open spec fn ids_distinct<H>(table: Seq<ChannelView<H>>) -> bool {
    forall|i: int, j: int|
        #![trigger table[i], table[j]]
        0 <= i < j < table.len() ==> table[i].channel_id != table[j].channel_id
}

/// The views of the channels of a table, in their order.
pub open spec fn table_view<H>(table: Seq<Channel<H>>) -> Seq<ChannelView<H>> {
    table.map_values(|channel: Channel<H>| channel@)
}

impl<H> ServerView<H> {
    /// The table of one transport.
    pub open spec fn table(self, transport: Transport) -> Seq<ChannelView<H>> {
        match transport {
            Transport::Stream => self.socket.tcp,
            Transport::Datagram => self.socket.udp,
        }
    }

    /// The server with the table of one transport replaced.
    pub open spec fn with_table(self, transport: Transport, table: Seq<ChannelView<H>>) -> Self {
        match transport {
            Transport::Stream => ServerView {
                socket: TcpUdp { tcp: table, udp: self.socket.udp },
                ..self
            },
            Transport::Datagram => ServerView {
                socket: TcpUdp { tcp: self.socket.tcp, udp: table },
                ..self
            },
        }
    }

    /// The server after `channel` is entered at the end of the table of
    /// `transport`.
    pub open spec fn publish(self, transport: Transport, channel: ChannelView<H>) -> Self {
        self.with_table(transport, self.table(transport).push(channel))
    }

    /// Whether a channel of either table has this id.
    pub open spec fn id_taken(self, channel_id: Seq<char>) -> bool {
        any(self.socket.tcp, has_id(channel_id)) || any(self.socket.udp, has_id(channel_id))
    }

    /// No two channels of the server have one id, in one table or across the
    /// two.
    pub open spec fn ids_unique(self) -> bool {
        &&& ids_distinct(self.socket.tcp)
        &&& ids_distinct(self.socket.udp)
        &&& forall|i: int, j: int|
            #![trigger self.socket.tcp[i], self.socket.udp[j]]
            0 <= i < self.socket.tcp.len() && 0 <= j < self.socket.udp.len()
                ==> self.socket.tcp[i].channel_id != self.socket.udp[j].channel_id
    }

    /// The server after the channels with this id are destroyed, in both
    /// tables.
    pub open spec fn destroy_channel(self, channel_id: Seq<char>) -> Self {
        ServerView {
            socket: TcpUdp {
                tcp: destroyed_in(self.socket.tcp, channel_id),
                udp: destroyed_in(self.socket.udp, channel_id),
            },
            ..self
        }
    }

    /// Whether `port` is one of the ports that a scan tries.
    pub open spec fn scans(self, port: int) -> bool {
        self.properties.port_range.start <= port <= self.properties.port_range.end
    }
}

/// Whether what `setter` handed back is still the channel it was given, as
/// far as identity goes: same id, same transport, same port.
pub open spec fn keeps_identity<H>(fresh: ChannelView<H>, ready: ChannelView<H>) -> bool {
    &&& ready.channel_id == fresh.channel_id
    &&& ready.transport == fresh.transport
    &&& ready.port == fresh.port
}

/// Whether `after` is `before` with a new channel opened: no channel of the
/// server had the id; a channel made as at creation, under this id and port,
/// was handed to `setter`; what `setter` gave back kept its identity and was
/// entered at the end of the table of `transport`; and `handle` describes it.
pub open spec fn opened<H, F: FnOnce(Channel<H>) -> Channel<H>>(
    before: ServerView<H>,
    after: ServerView<H>,
    transport: Transport,
    channel_id: Seq<char>,
    port: u16,
    setter: F,
    pref: ChannelCreatePreferences,
    handle: ChannelHandle,
) -> bool {
    &&& !before.id_taken(channel_id)
    &&& exists|fresh: Channel<H>, ready: Channel<H>|
        #![trigger call_ensures(setter, (fresh,), ready)]
        {
            &&& fresh@ == ChannelView::<H>::created(transport, channel_id, port, pref)
            &&& call_ensures(setter, (fresh,), ready)
            &&& keeps_identity(fresh@, ready@)
            &&& after == before.publish(transport, ready@)
            &&& handle.channel_id@ == channel_id
            &&& handle.port == port
            &&& handle.listening == ready@.listening
        }
}

/// Whether opening a channel was refused for a reason: the id was taken, or
/// `setter` handed back a channel of another identity.
pub open spec fn refused<H, F: FnOnce(Channel<H>) -> Channel<H>>(
    before: ServerView<H>,
    transport: Transport,
    channel_id: Seq<char>,
    port: u16,
    setter: F,
    pref: ChannelCreatePreferences,
) -> bool {
    ||| before.id_taken(channel_id)
    ||| exists|fresh: Channel<H>, ready: Channel<H>|
        #![trigger call_ensures(setter, (fresh,), ready)]
        {
            &&& fresh@ == ChannelView::<H>::created(transport, channel_id, port, pref)
            &&& call_ensures(setter, (fresh,), ready)
            &&& !keeps_identity(fresh@, ready@)
        }
}

/// What opening a channel under `channel_id` comes to: either the channel is
/// opened, or the server stays as it is and the error is
/// `ChannelInitializeFail`, for a reason.
pub open spec fn opening<H, F: FnOnce(Channel<H>) -> Channel<H>>(
    before: ServerView<H>,
    after: ServerView<H>,
    transport: Transport,
    channel_id: Seq<char>,
    port: u16,
    setter: F,
    pref: ChannelCreatePreferences,
    outcome: Result<ChannelHandle, QuickSocketError>,
) -> bool {
    match outcome {
        Ok(handle) => opened(before, after, transport, channel_id, port, setter, pref, handle),
        Err(error) => {
            &&& error == QuickSocketError::ChannelInitializeFail
            &&& after == before
            &&& refused(before, transport, channel_id, port, setter, pref)
        },
    }
}

/// Whether `setter` can be handed any channel that is as at creation.
pub open spec fn accepts_new_channels<H, F: FnOnce(Channel<H>) -> Channel<H>>(setter: F) -> bool {
    forall|fresh: Channel<H>|
        fresh@ == ChannelView::<H>::created(
            fresh@.transport,
            fresh@.channel_id,
            fresh@.port,
            fresh@.pref,
        ) ==> #[trigger] call_requires(setter, (fresh,))
}

impl<H> View for QuickSocketInstance<H> {
    type V = ServerView<H>;

    closed spec fn view(&self) -> ServerView<H> {
        ServerView {
            socket: TcpUdp {
                tcp: table_view(self.socket.tcp@),
                udp: table_view(self.socket.udp@),
            },
            properties: self.properties,
        }
    }
}

/// Where the first channel of `table` with this id stands.
fn find_channel<H>(table: &Vec<Channel<H>>, channel_id: &str) -> (found: Option<usize>)
    ensures
        match found {
            Some(index) => index < table.len() && first_index(
                table_view(table@),
                has_id(channel_id@),
            ) == Some(index as int),
            None => first_index(table_view(table@), has_id(channel_id@)) is None,
        },
{
    let key = String::from_str(channel_id);
    let mut i: usize = 0;
    while i < table.len()
        invariant
            i <= table.len(),
            key@ == channel_id@,
            forall|j: int|
                0 <= j < i ==> (#[trigger] table_view(table@)[j]).channel_id != channel_id@,
        decreases table.len() - i,
    {
        if *table[i].channel_id() == key {
            proof {
                lemma_first_index_found(table_view(table@), has_id(channel_id@), i as int);
            }
            return Some(i);
        }
        i += 1;
    }
    proof {
        lemma_first_index_none(table_view(table@), has_id(channel_id@));
    }
    None
}

/// Destroys the channel of `table` with this id, if any.
fn destroy_in<H>(table: &mut Vec<Channel<H>>, channel_id: &str)
    ensures
        table_view(final(table)@) == destroyed_in(table_view(old(table)@), channel_id@),
{
    match find_channel(table, channel_id) {
        Some(index) => {
            let _ = table[index].destroy_channel();
            proof {
                assert(table_view(table@) =~= table_view(old(table)@).update(
                    index as int,
                    table_view(old(table)@)[index as int].destroy(),
                ));
            }
        },
        None => {},
    }
}

impl<H> QuickSocketInstance<H> {
    /// A server without channels, scanning the ports 20000 to 65535.
    pub fn new() -> (server: Self)
        ensures
            server@.socket.tcp == Seq::<ChannelView<H>>::empty(),
            server@.socket.udp == Seq::<ChannelView<H>>::empty(),
            server@.properties == (Properties {
                port_range: PortRange { start: 20000, end: 65535 },
            }),
    {
        QuickSocketInstance {
            socket: TcpUdp { tcp: Vec::new(), udp: Vec::new() },
            properties: Properties { port_range: PortRange { start: 20000, end: 65535 } },
        }
    }

    /// A server without channels that scans the ports of `port_range`.
    pub fn with_port_range(port_range: PortRange) -> (server: Self)
        ensures
            server@.socket.tcp == Seq::<ChannelView<H>>::empty(),
            server@.socket.udp == Seq::<ChannelView<H>>::empty(),
            server@.properties == (Properties { port_range }),
    {
        QuickSocketInstance {
            socket: TcpUdp { tcp: Vec::new(), udp: Vec::new() },
            properties: Properties { port_range },
        }
    }

    pub fn properties(&self) -> (properties: Properties)
        ensures
            properties == self@.properties,
    {
        self.properties
    }

    /// The channel of one transport with this id, if there is one.
    pub fn channel(&self, transport: Transport, channel_id: &str) -> (found: Option<&Channel<H>>)
        ensures
            match found {
                Some(channel) => channel_with_id(self@.table(transport), channel_id@) == Some(
                    channel@,
                ),
                None => channel_with_id(self@.table(transport), channel_id@) is None,
            },
    {
        let table = match transport {
            Transport::Stream => &self.socket.tcp,
            Transport::Datagram => &self.socket.udp,
        };
        match find_channel(table, channel_id) {
            Some(index) => Some(&table[index]),
            None => None,
        }
    }

    /// The channel of one transport with this id, to work on in place.
    pub fn channel_mut(&mut self, transport: Transport, channel_id: &str) -> (found: Option<
        &mut Channel<H>,
    >)
        ensures
            match found {
                Some(channel) => {
                    &&& first_index(old(self)@.table(transport), has_id(channel_id@)) is Some
                    &&& channel@ == channel_with_id(old(self)@.table(transport), channel_id@)->0
                    &&& final(self)@ == old(self)@.with_table(
                        transport,
                        old(self)@.table(transport).update(
                            first_index(old(self)@.table(transport), has_id(channel_id@))->0,
                            final(channel)@,
                        ),
                    )
                },
                None => {
                    &&& channel_with_id(old(self)@.table(transport), channel_id@) is None
                    &&& final(self)@ == old(self)@
                },
            },
    {
        match transport {
            Transport::Stream => {
                match find_channel(&self.socket.tcp, channel_id) {
                    Some(index) => {
                        let ghost before = self.socket.tcp@;
                        let channel = &mut self.socket.tcp[index];
                        proof {
                            assert(table_view(before.update(index as int, *final(channel)))
                                =~= table_view(before).update(index as int, final(channel)@));
                        }
                        Some(channel)
                    },
                    None => None,
                }
            },
            Transport::Datagram => {
                match find_channel(&self.socket.udp, channel_id) {
                    Some(index) => {
                        let ghost before = self.socket.udp@;
                        let channel = &mut self.socket.udp[index];
                        proof {
                            assert(table_view(before.update(index as int, *final(channel)))
                                =~= table_view(before).update(index as int, final(channel)@));
                        }
                        Some(channel)
                    },
                    None => None,
                }
            },
        }
    }

    /// How many channels the table of one transport holds.
    pub fn channel_count(&self, transport: Transport) -> (count: usize)
        ensures
            count == self@.table(transport).len(),
    {
        match transport {
            Transport::Stream => self.socket.tcp.len(),
            Transport::Datagram => self.socket.udp.len(),
        }
    }

    /// Opens a channel under the id `channel_id`, on a listening socket that
    /// is bound to `port`. The channel starts as at creation, goes through
    /// `setter` once, and is then entered at the end of the table of
    /// `transport`. Fails with `ChannelInitializeFail`, and changes nothing,
    /// where a channel of the server has the id (`setter` is then not called)
    /// or `setter` hands back a channel of another id, transport or port.
    pub fn open_channel<F: FnOnce(Channel<H>) -> Channel<H>>(
        &mut self,
        transport: Transport,
        channel_id: String,
        port: u16,
        setter: F,
        pref: ChannelCreatePreferences,
    ) -> (outcome: Result<ChannelHandle, QuickSocketError>)
        requires
            accepts_new_channels::<H, F>(setter),
        ensures
            opening(old(self)@, final(self)@, transport, channel_id@, port, setter, pref, outcome),
    {
        if find_channel(&self.socket.tcp, channel_id.as_str()).is_some() || find_channel(
            &self.socket.udp,
            channel_id.as_str(),
        ).is_some() {
            return Err(QuickSocketError::ChannelInitializeFail);
        }
        let handle_id = channel_id.clone();
        let fresh = Channel::new(transport, channel_id, port, pref);
        let ready = setter(fresh);
        proof {
            assert(call_ensures(setter, (fresh,), ready));
        }
        let kept = *ready.channel_id() == handle_id && ready.transport() == transport
            && ready.port() == port;
        if !kept {
            return Err(QuickSocketError::ChannelInitializeFail);
        }
        let handle = ChannelHandle {
            channel_id: handle_id,
            port,
            listening: ready.is_event_listener_on(),
        };
        let ghost ready_view = ready@;
        match transport {
            Transport::Stream => {
                self.socket.tcp.push(ready);
                proof {
                    assert(table_view(self.socket.tcp@) =~= table_view(old(self).socket.tcp@).push(
                        ready_view,
                    ));
                }
            },
            Transport::Datagram => {
                self.socket.udp.push(ready);
                proof {
                    assert(table_view(self.socket.udp@) =~= table_view(old(self).socket.udp@).push(
                        ready_view,
                    ));
                }
            },
        }
        proof {
            assert(self@ == old(self)@.publish(transport, ready_view));
        }
        Ok(handle)
    }

    /// Creates a stream channel on a listener that the caller has bound:
    /// `bound_port` is the port, or `None` where the bind failed. Without a
    /// port nothing changes and the error is `ChannelInitializeFail`. With
    /// one, a random id of 36 characters is drawn and the channel is opened
    /// under it as `open_channel` does, which fails where the id is taken.
    pub fn create_tcp_channel<F: FnOnce(Channel<H>) -> Channel<H>>(
        &mut self,
        bound_port: Option<u16>,
        setter: F,
        pref: ChannelCreatePreferences,
    ) -> (outcome: Result<ChannelHandle, QuickSocketError>)
        requires
            accepts_new_channels::<H, F>(setter),
        ensures
            bound_port is None ==> outcome == Err::<ChannelHandle, QuickSocketError>(
                QuickSocketError::ChannelInitializeFail,
            ) && final(self)@ == old(self)@,
            bound_port is Some ==> exists|channel_id: Seq<char>|
                channel_id.len() == 36 && #[trigger] opening(
                    old(self)@,
                    final(self)@,
                    Transport::Stream,
                    channel_id,
                    bound_port->0,
                    setter,
                    pref,
                    outcome,
                ),
    {
        match bound_port {
            Some(port) => {
                let channel_id = fresh_uid();
                let ghost drawn = channel_id@;
                let outcome = self.open_channel(Transport::Stream, channel_id, port, setter, pref);
                proof {
                    assert(opening(
                        old(self)@,
                        self@,
                        Transport::Stream,
                        drawn,
                        port,
                        setter,
                        pref,
                        outcome,
                    ));
                }
                outcome
            },
            None => Err(QuickSocketError::ChannelInitializeFail),
        }
    }

    /// Creates a datagram channel on a socket that the caller has bound:
    /// `bound_port` is the port, or `None` where the bind failed. Without a
    /// port nothing changes and the error is `ChannelInitializeFail`. With
    /// one, a random id of 36 characters is drawn and the channel is opened
    /// under it as `open_channel` does, which fails where the id is taken.
    pub fn create_udp_channel<F: FnOnce(Channel<H>) -> Channel<H>>(
        &mut self,
        bound_port: Option<u16>,
        setter: F,
        pref: ChannelCreatePreferences,
    ) -> (outcome: Result<ChannelHandle, QuickSocketError>)
        requires
            accepts_new_channels::<H, F>(setter),
        ensures
            bound_port is None ==> outcome == Err::<ChannelHandle, QuickSocketError>(
                QuickSocketError::ChannelInitializeFail,
            ) && final(self)@ == old(self)@,
            bound_port is Some ==> exists|channel_id: Seq<char>|
                channel_id.len() == 36 && #[trigger] opening(
                    old(self)@,
                    final(self)@,
                    Transport::Datagram,
                    channel_id,
                    bound_port->0,
                    setter,
                    pref,
                    outcome,
                ),
    {
        match bound_port {
            Some(port) => {
                let channel_id = fresh_uid();
                let ghost drawn = channel_id@;
                let outcome = self.open_channel(
                    Transport::Datagram,
                    channel_id,
                    port,
                    setter,
                    pref,
                );
                proof {
                    assert(opening(
                        old(self)@,
                        self@,
                        Transport::Datagram,
                        drawn,
                        port,
                        setter,
                        pref,
                        outcome,
                    ));
                }
                outcome
            },
            None => Err(QuickSocketError::ChannelInitializeFail),
        }
    }

    /// Scans the port range from its start for a port that `occupied` denies,
    /// and returns the first one. `None` means that `occupied` affirmed every
    /// port of the range.
    pub fn get_vacant_port<F: Fn(u16) -> bool>(&self, occupied: F) -> (found: Option<u16>)
        requires
            forall|port: u16|
                self@.scans(port as int) ==> #[trigger] call_requires(occupied, (port,)),
        ensures
            match found {
                Some(port) => {
                    &&& self@.scans(port as int)
                    &&& call_ensures(occupied, (port,), false)
                    &&& forall|lower: u16|
                        self@.scans(lower as int) && lower < port ==> #[trigger] call_ensures(
                            occupied,
                            (lower,),
                            true,
                        )
                },
                None => forall|port: u16|
                    self@.scans(port as int) ==> #[trigger] call_ensures(occupied, (port,), true),
            },
    {
        let start = self.properties.port_range.start;
        let end = self.properties.port_range.end;
        if start > end {
            return None;
        }
        let mut port: u16 = start;
        loop
            invariant
                start == self@.properties.port_range.start,
                end == self@.properties.port_range.end,
                start <= port <= end,
                forall|p: u16| self@.scans(p as int) ==> #[trigger] call_requires(occupied, (p,)),
                forall|lower: u16|
                    self@.scans(lower as int) && lower < port ==> #[trigger] call_ensures(
                        occupied,
                        (lower,),
                        true,
                    ),
            decreases end - port,
        {
            if !occupied(port) {
                return Some(port);
            }
            if port == end {
                return None;
            }
            port += 1;
        }
    }

    /// Like `get_vacant_port`, with an exhausted scan as the error
    /// `VacantPortSearchFail`.
    pub fn find_vacant_port<F: Fn(u16) -> bool>(&self, occupied: F) -> (found: Result<
        u16,
        QuickSocketError,
    >)
        requires
            forall|port: u16|
                self@.scans(port as int) ==> #[trigger] call_requires(occupied, (port,)),
        ensures
            match found {
                Ok(port) => {
                    &&& self@.scans(port as int)
                    &&& call_ensures(occupied, (port,), false)
                    &&& forall|lower: u16|
                        self@.scans(lower as int) && lower < port ==> #[trigger] call_ensures(
                            occupied,
                            (lower,),
                            true,
                        )
                },
                Err(error) => {
                    &&& error == QuickSocketError::VacantPortSearchFail
                    &&& forall|port: u16|
                        self@.scans(port as int) ==> #[trigger] call_ensures(
                            occupied,
                            (port,),
                            true,
                        )
                },
            },
    {
        match self.get_vacant_port(occupied) {
            Some(port) => Ok(port),
            None => Err(QuickSocketError::VacantPortSearchFail),
        }
    }

    /// Destroys the channels with this id: their flags flip, their entries
    /// stay, and nothing waits for their workers.
    pub fn destroy_channel(&mut self, channel_id: &str)
        ensures
            final(self)@ == old(self)@.destroy_channel(channel_id@),
    {
        destroy_in(&mut self.socket.tcp, channel_id);
        destroy_in(&mut self.socket.udp, channel_id);
    }
}

} // verus!
