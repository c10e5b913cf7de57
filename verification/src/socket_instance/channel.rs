//! One channel: its client registry, its handler table and its liveness
//! flags, and the operations that both transports share.

use crate::error::predeclared::QuickSocketError;
use crate::search::{any, first_index, lemma_first_index_found, lemma_first_index_none};
use crate::socket_instance::client::ChannelClient;
use crate::socket_instance::emit::{is_report_of, Emission, EmissionView};
use crate::socket_instance::event::{frame_text, ResponseEvent};
use crate::socket_instance::handlers::{register_outcome, EventTable};
use crate::wire::json_model;
use vstd::prelude::*;

verus! {

/// Which of the two transports a channel listens on.
#[derive(Clone, Copy, Debug, PartialEq, Eq, Structural)]
pub enum Transport {
    /// Connection-oriented: TCP carrying WebSocket text frames.
    Stream,
    /// Connectionless: UDP, one message per datagram.
    Datagram,
}

/// What the creator of a channel asks of it.
#[derive(Clone, Copy, Debug, PartialEq, Eq, Structural)]
pub struct ChannelCreatePreferences {
    /// Drop a client from the registry when a broadcast finds its connection
    /// closed.
    pub delete_client_when_closed: bool,
    /// Give accepted stream sockets a short read timeout, so that a reader can
    /// poll instead of blocking.
    pub concurrent: bool,
}

/// A channel's state. The fields are private, so that the flags can only move
/// the way the operations move them; [`ChannelView`] is what contracts see.
pub struct Channel<H> {
    registered_client: Vec<ChannelClient>,
    channel_id: String,
    port: u16,
    pref: ChannelCreatePreferences,
    transport: Transport,
    event_handlers: EventTable<H>,
    is_destroyed: bool,
    is_event_listener_on: bool,
}

/// A channel as mathematics.
pub struct ChannelView<H> {
    /// Assigned at creation.
    pub channel_id: Seq<char>,
    pub transport: Transport,
    /// The local port that the listening socket was bound to.
    pub port: u16,
    pub pref: ChannelCreatePreferences,
    /// The registered clients, in the order of their registration.
    pub clients: Seq<ChannelClient>,
    /// The handlers by event name.
    pub handlers: Map<Seq<char>, H>,
    /// Set once by destruction, never cleared.
    pub destroyed: bool,
    /// Read at creation to decide whether a worker is started; cleared by
    /// destruction.
    pub listening: bool,
}

/// One change of a channel's state, as the operation that makes it.
pub enum ChannelOp<H> {
    RegisterEventHandler(Seq<char>, H),
    RegisterClient(ChannelClient),
    ReconnectClientByUid(Seq<char>, ChannelClient),
    DisconnectCertain(Seq<ChannelClient>),
    DisconnectAll,
    /// The end of a broadcast that noted these errors.
    FinishEmitAll(Seq<QuickSocketError>),
    DestroyChannel,
}

/// The test that a client passes when it has this uid.
pub open spec fn has_uid(uid: Seq<char>) -> spec_fn(ChannelClient) -> bool {
    |client: ChannelClient| client.uid@ == uid
}

/// Whether some client of `clients` has this uid.
pub open spec fn uid_listed(clients: Seq<ChannelClient>, uid: Seq<char>) -> bool {
    any(clients, has_uid(uid))
}

/// Whether some client of `clients` shares its uid or its address with
/// `client`.
pub open spec fn collides(clients: Seq<ChannelClient>, client: ChannelClient) -> bool {
    exists|i: int| 0 <= i < clients.len() && (#[trigger] clients[i]).collides_with(&client)
}

/// No two clients share a uid, and no two share an address.
pub open spec fn clients_distinct(clients: Seq<ChannelClient>) -> bool {
    forall|i: int, j: int|
        #![trigger clients[i], clients[j]]
        0 <= i < j < clients.len() ==> !clients[i].collides_with(&clients[j])
}

/// What registering `client` does to a registry and what it answers.
pub open spec fn register_client_outcome(clients: Seq<ChannelClient>, client: ChannelClient) -> (
    Seq<ChannelClient>,
    Result<(), QuickSocketError>,
) {
    if collides(clients, client) {
        (clients, Err(QuickSocketError::ClientAlreadyExists))
    } else {
        (clients.push(client), Ok(()))
    }
}

/// What reconnecting under `uid` does to a registry and what it answers: the
/// first record with that uid gives way to `new_client`, whole.
pub open spec fn reconnect_outcome(
    clients: Seq<ChannelClient>,
    uid: Seq<char>,
    new_client: ChannelClient,
) -> (Seq<ChannelClient>, Result<(), QuickSocketError>) {
    match first_index(clients, has_uid(uid)) {
        Some(index) => (clients.update(index, new_client), Ok(())),
        None => (clients, Err(QuickSocketError::ClientNotRegistered)),
    }
}

/// The test that a client passes when none of `leaving` has its uid.
pub open spec fn stays(leaving: Seq<ChannelClient>) -> spec_fn(ChannelClient) -> bool {
    |client: ChannelClient| !uid_listed(leaving, client.uid@)
}

/// The registry after every client whose uid is among those of `leaving` has
/// left; the others keep their order.
pub open spec fn disconnected(clients: Seq<ChannelClient>, leaving: Seq<ChannelClient>) -> Seq<
    ChannelClient,
> {
    clients.filter(stays(leaving))
}

/// The test that an error passes when it is to be reported after a
/// broadcast that prunes: every error but a closed connection.
pub open spec fn surfaces() -> spec_fn(QuickSocketError) -> bool {
    |error: QuickSocketError| !(error is ConnectionClosed)
}

/// The client of a closed connection, for an error that reports one.
pub open spec fn closed_client() -> spec_fn(QuickSocketError) -> Option<ChannelClient> {
    |error: QuickSocketError|
        match error {
            QuickSocketError::ConnectionClosed(client) => Some(client),
            _ => None,
        }
}

/// Whether some client of `clients` has the uid `uid`.
fn lists_uid(clients: &Vec<ChannelClient>, uid: &String) -> (found: bool)
    ensures
        found == uid_listed(clients@, uid@),
{
    let mut i: usize = 0;
    while i < clients.len()
        invariant
            i <= clients.len(),
            forall|j: int| 0 <= j < i ==> !has_uid(uid@)(#[trigger] clients@[j]),
        decreases clients.len() - i,
    {
        if clients[i].uid == *uid {
            assert(has_uid(uid@)(clients@[i as int]));
            return true;
        }
        i += 1;
    }
    false
}

impl<H> ChannelView<H> {
    /// A channel as it is at creation: nobody registered, no handler, not
    /// destroyed, listener on.
    pub open spec fn created(
        transport: Transport,
        channel_id: Seq<char>,
        port: u16,
        pref: ChannelCreatePreferences,
    ) -> Self {
        ChannelView {
            channel_id,
            transport,
            port,
            pref,
            clients: Seq::empty(),
            handlers: Map::empty(),
            destroyed: false,
            listening: true,
        }
    }

    pub open spec fn with_clients(self, clients: Seq<ChannelClient>) -> Self {
        ChannelView { clients, ..self }
    }

    pub open spec fn with_handlers(self, handlers: Map<Seq<char>, H>) -> Self {
        ChannelView { handlers, ..self }
    }

    /// The channel after destruction: marked destroyed, listener off.
    pub open spec fn destroy(self) -> Self {
        ChannelView { destroyed: true, listening: false, ..self }
    }

    /// Whether a broadcast on this channel prunes the clients whose
    /// connection it finds closed: a stream channel that was asked to.
    pub open spec fn prunes(self) -> bool {
        self.transport == Transport::Stream && self.pref.delete_client_when_closed
    }

    /// What the errors of a broadcast do to the channel, and which of them
    /// are reported. A channel that prunes drops the clients of closed
    /// connections from its registry and keeps those errors to itself; any
    /// other channel stays as it is and reports every error.
    pub open spec fn settle_broadcast(self, errors: Seq<QuickSocketError>) -> (
        Self,
        Seq<QuickSocketError>,
    ) {
        if self.prunes() {
            (
                self.with_clients(disconnected(self.clients, errors.filter_map(closed_client()))),
                errors.filter(surfaces()),
            )
        } else {
            (self, errors)
        }
    }
}

impl<H> ChannelView<H> {
    /// The channel after `op`.
    pub open spec fn apply(self, op: ChannelOp<H>) -> Self {
        match op {
            ChannelOp::RegisterEventHandler(event, func) => self.with_handlers(
                register_outcome(self.handlers, event, func).0,
            ),
            ChannelOp::RegisterClient(client) => self.with_clients(
                register_client_outcome(self.clients, client).0,
            ),
            ChannelOp::ReconnectClientByUid(uid, new_client) => self.with_clients(
                reconnect_outcome(self.clients, uid, new_client).0,
            ),
            ChannelOp::DisconnectCertain(leaving) => self.with_clients(
                disconnected(self.clients, leaving),
            ),
            ChannelOp::DisconnectAll => self.with_clients(Seq::empty()),
            ChannelOp::FinishEmitAll(errors) => self.settle_broadcast(errors).0,
            ChannelOp::DestroyChannel => self.destroy(),
        }
    }

    /// The channel after each of `ops` in turn.
    pub open spec fn replay(self, ops: Seq<ChannelOp<H>>) -> Self
        decreases ops.len(),
    {
        if ops.len() == 0 {
            self
        } else {
            self.replay(ops.drop_last()).apply(ops.last())
        }
    }

    /// Whether `op` leaves the registry free of shared uids and addresses
    /// if it was so before. Every operation does, but for a reconnection
    /// whose new record shares a uid or an address with a record other than
    /// the one it replaces.
    pub open spec fn keeps_clients_apart(self, op: ChannelOp<H>) -> bool {
        match op {
            ChannelOp::ReconnectClientByUid(uid, new_client) => forall|j: int|
                0 <= j < self.clients.len() && first_index(self.clients, has_uid(uid)) != Some(j)
                    ==> !(#[trigger] self.clients[j]).collides_with(&new_client),
            _ => true,
        }
    }

    /// Whether each of `ops`, in the state it is applied to, keeps the clients
    /// apart.
    pub open spec fn keep_clients_apart(self, ops: Seq<ChannelOp<H>>) -> bool
        decreases ops.len(),
    {
        ops.len() == 0 || (self.keep_clients_apart(ops.drop_last()) && self.replay(
            ops.drop_last(),
        ).keeps_clients_apart(ops.last()))
    }
}

impl<H> View for Channel<H> {
    type V = ChannelView<H>;

    closed spec fn view(&self) -> ChannelView<H> {
        ChannelView {
            channel_id: self.channel_id@,
            transport: self.transport,
            port: self.port,
            pref: self.pref,
            clients: self.registered_client@,
            handlers: self.event_handlers@,
            destroyed: self.is_destroyed,
            listening: self.is_event_listener_on,
        }
    }
}

impl<H> Channel<H> {
    /// A channel as it is at creation: nobody registered, no handler, not
    /// destroyed, listener on.
    pub fn new(
        transport: Transport,
        channel_id: String,
        port: u16,
        pref: ChannelCreatePreferences,
    ) -> (channel: Self)
        ensures
            channel@ == ChannelView::<H>::created(transport, channel_id@, port, pref),
    {
        Channel {
            registered_client: Vec::new(),
            channel_id,
            port,
            pref,
            transport,
            event_handlers: EventTable::new(),
            is_destroyed: false,
            is_event_listener_on: true,
        }
    }

    pub fn registered_client(&self) -> (clients: &Vec<ChannelClient>)
        ensures
            clients@ == self@.clients,
    {
        &self.registered_client
    }

    pub fn channel_id(&self) -> (id: &String)
        ensures
            id@ == self@.channel_id,
    {
        &self.channel_id
    }

    pub fn port(&self) -> (port: u16)
        ensures
            port == self@.port,
    {
        self.port
    }

    pub fn pref(&self) -> (pref: ChannelCreatePreferences)
        ensures
            pref == self@.pref,
    {
        self.pref
    }

    pub fn transport(&self) -> (transport: Transport)
        ensures
            transport == self@.transport,
    {
        self.transport
    }

    pub fn is_destroyed(&self) -> (flag: bool)
        ensures
            flag == self@.destroyed,
    {
        self.is_destroyed
    }

    pub fn is_event_listener_on(&self) -> (flag: bool)
        ensures
            flag == self@.listening,
    {
        self.is_event_listener_on
    }

    /// The handler registered under `event`, if there is one.
    pub fn handler(&self, event: &str) -> (found: Option<&H>)
        ensures
            found == if self@.handlers.contains_key(event@) {
                Some(&self@.handlers[event@])
            } else {
                None::<&H>
            },
    {
        self.event_handlers.get(event)
    }

    /// Installs `func` as the handler of `event`. Fails with
    /// `EventAlreadyExists` where the event has a handler, which then stays.
    pub fn register_event_handler(&mut self, event: String, func: H) -> (outcome: Result<
        (),
        QuickSocketError,
    >)
        ensures
            final(self)@ == old(self)@.apply(ChannelOp::RegisterEventHandler(event@, func)),
            outcome == register_outcome(old(self)@.handlers, event@, func).1,
    {
        self.event_handlers.insert(event, func)
    }

    /// Appends `client` to the registry. Fails with `ClientAlreadyExists`,
    /// and changes nothing, where a registered client has its uid or its
    /// address.
    pub fn register_client(&mut self, client: ChannelClient) -> (outcome: Result<
        (),
        QuickSocketError,
    >)
        ensures
            final(self)@ == old(self)@.apply(ChannelOp::RegisterClient(client)),
            outcome == register_client_outcome(old(self)@.clients, client).1,
    {
        let mut i: usize = 0;
        while i < self.registered_client.len()
            invariant
                i <= self.registered_client.len(),
                *self == *old(self),
                forall|j: int|
                    0 <= j < i ==> !(#[trigger] self.registered_client@[j]).collides_with(&client),
            decreases self.registered_client.len() - i,
        {
            let known = &self.registered_client[i];
            if known.addr == client.addr || known.uid == client.uid {
                return Err(QuickSocketError::ClientAlreadyExists);
            }
            i += 1;
        }
        self.registered_client.push(client);
        Ok(())
    }

    /// Puts `new_client` in the place of the first registered client whose uid
    /// is `uid`. The record that gives way is dropped. Fails with
    /// `ClientNotRegistered`, and changes nothing, where no client has the
    /// uid.
    pub fn reconnect_client_by_uid(&mut self, uid: String, new_client: ChannelClient) -> (outcome:
        Result<(), QuickSocketError>)
        ensures
            final(self)@ == old(self)@.apply(ChannelOp::ReconnectClientByUid(uid@, new_client)),
            outcome == reconnect_outcome(old(self)@.clients, uid@, new_client).1,
    {
        let mut i: usize = 0;
        while i < self.registered_client.len()
            invariant
                i <= self.registered_client.len(),
                *self == *old(self),
                forall|j: int| 0 <= j < i ==> (#[trigger] self.registered_client@[j]).uid@ != uid@,
            decreases self.registered_client.len() - i,
        {
            if self.registered_client[i].uid == uid {
                proof {
                    lemma_first_index_found(self.registered_client@, has_uid(uid@), i as int);
                }
                self.registered_client.set(i, new_client);
                return Ok(());
            }
            i += 1;
        }
        proof {
            lemma_first_index_none(self.registered_client@, has_uid(uid@));
        }
        Err(QuickSocketError::ClientNotRegistered)
    }

    /// Removes from the registry every client whose uid is the uid of one of
    /// `clients`. The others stay, in their order.
    pub fn disconnect_certain(&mut self, clients: Vec<ChannelClient>) -> (outcome: Result<
        (),
        Vec<QuickSocketError>,
    >)
        ensures
            outcome is Ok,
            final(self)@ == old(self)@.apply(ChannelOp::DisconnectCertain(clients@)),
    {
        let mut kept: Vec<ChannelClient> = Vec::new();
        let mut i: usize = 0;
        proof {
            reveal(Seq::filter);
        }
        while i < self.registered_client.len()
            invariant
                i <= self.registered_client.len(),
                *self == *old(self),
                kept@ == self.registered_client@.take(i as int).filter(stays(clients@)),
            decreases self.registered_client.len() - i,
        {
            let leaves = lists_uid(&clients, &self.registered_client[i].uid);
            proof {
                reveal(Seq::filter);
                let upto = self.registered_client@.take(i + 1);
                assert(upto.drop_last() == self.registered_client@.take(i as int));
                assert(upto.last() == self.registered_client@[i as int]);
            }
            if !leaves {
                kept.push(self.registered_client[i].clone());
            }
            i += 1;
        }
        proof {
            assert(self.registered_client@.take(i as int) == self.registered_client@);
        }
        self.registered_client = kept;
        Ok(())
    }

    /// Empties the registry and gives its storage back.
    pub fn disconnect_all(&mut self) -> (outcome: Result<(), Vec<QuickSocketError>>)
        ensures
            outcome is Ok,
            final(self)@ == old(self)@.apply(ChannelOp::DisconnectAll),
    {
        self.registered_client = Vec::new();
        Ok(())
    }

    /// Starts sending `value`, under the tag of `event`, to each of
    /// `clients` in their order. The transport performs the writes that the
    /// emission asks for.
    pub fn emit_to(
        &self,
        clients: Vec<ChannelClient>,
        event: ResponseEvent,
        value: json::JsonValue,
    ) -> (emission: Emission)
        ensures
            emission@ == EmissionView::start(
                self@.transport,
                frame_text(event, json_model(value)),
                clients@,
            ),
    {
        Emission::new(self.transport, clients, event, value)
    }

    /// Starts sending `value`, under the tag of `event`, to every client that
    /// is registered now. The emission works on a copy of the registry, and
    /// `finish_emit_all` ends it.
    pub fn emit_all(&self, event: ResponseEvent, value: json::JsonValue) -> (emission: Emission)
        ensures
            emission@ == EmissionView::start(
                self@.transport,
                frame_text(event, json_model(value)),
                self@.clients,
            ),
    {
        let mut snapshot: Vec<ChannelClient> = Vec::new();
        let mut i: usize = 0;
        while i < self.registered_client.len()
            invariant
                i <= self.registered_client.len(),
                snapshot@ == self.registered_client@.take(i as int),
            decreases self.registered_client.len() - i,
        {
            snapshot.push(self.registered_client[i].clone());
            proof {
                assert(self.registered_client@.take(i + 1) == self.registered_client@.take(
                    i as int,
                ).push(self.registered_client@[i as int]));
            }
            i += 1;
        }
        proof {
            assert(self.registered_client@.take(i as int) == self.registered_client@);
        }
        Emission::new(self.transport, snapshot, event, value)
    }

    /// Ends a broadcast. On a stream channel that prunes, the clients whose
    /// connection was found closed leave the registry and those errors are
    /// not reported; otherwise the registry stays and every error is
    /// reported.
    pub fn finish_emit_all(&mut self, emission: Emission) -> (report: Result<
        (),
        Vec<QuickSocketError>,
    >)
        ensures
            final(self)@ == old(self)@.apply(ChannelOp::FinishEmitAll(emission@.errors)),
            is_report_of(report, old(self)@.settle_broadcast(emission@.errors).1),
    {
        let prunes = match self.transport {
            Transport::Stream => self.pref.delete_client_when_closed,
            Transport::Datagram => false,
        };
        if !prunes {
            return emission.finish();
        }
        let errors = emission.into_errors();
        let mut reported: Vec<QuickSocketError> = Vec::new();
        let mut closed: Vec<ChannelClient> = Vec::new();
        let mut i: usize = 0;
        proof {
            reveal(Seq::filter);
        }
        while i < errors.len()
            invariant
                i <= errors.len(),
                reported@ == errors@.take(i as int).filter(surfaces()),
                closed@ == errors@.take(i as int).filter_map(closed_client()),
            decreases errors.len() - i,
        {
            proof {
                reveal(Seq::filter);
                let upto = errors@.take(i + 1);
                assert(upto.drop_last() == errors@.take(i as int));
                assert(upto.last() == errors@[i as int]);
                errors@.lemma_filter_map_take_succ(closed_client(), i as int);
            }
            match &errors[i] {
                QuickSocketError::ConnectionClosed(client) => {
                    closed.push(client.clone());
                },
                other => {
                    reported.push(other.clone());
                },
            }
            i += 1;
        }
        proof {
            assert(errors@.take(i as int) == errors@);
        }
        let _ = self.disconnect_certain(closed);
        if reported.len() == 0 {
            Ok(())
        } else {
            Err(reported)
        }
    }

    /// Marks the channel destroyed and switches its listener off. The workers
    /// see it at their next step; nothing waits for them. There is no way
    /// back.
    pub fn destroy_channel(&mut self) -> (outcome: Result<(), QuickSocketError>)
        ensures
            outcome is Ok,
            final(self)@ == old(self)@.apply(ChannelOp::DestroyChannel),
    {
        self.is_event_listener_on = false;
        self.is_destroyed = true;
        Ok(())
    }
}

/// Taking clients out of a registry makes no two of the others alike.
pub proof fn lemma_filter_keeps_distinct(
    clients: Seq<ChannelClient>,
    keep: spec_fn(ChannelClient) -> bool,
)
    requires
        clients_distinct(clients),
    ensures
        clients_distinct(clients.filter(keep)),
    decreases clients.len(),
{
    reveal(Seq::filter);
    if clients.len() > 0 {
        let front = clients.drop_last();
        assert(clients_distinct(front)) by {
            assert forall|i: int, j: int|
                #![trigger front[i], front[j]]
                0 <= i < j < front.len() implies !front[i].collides_with(&front[j]) by {
                assert(!clients[i].collides_with(&clients[j]));
            }
        }
        lemma_filter_keeps_distinct(front, keep);
        let kept = front.filter(keep);
        if keep(clients.last()) {
            let all = kept.push(clients.last());
            assert forall|i: int, j: int|
                #![trigger all[i], all[j]]
                0 <= i < j < all.len() implies !all[i].collides_with(&all[j]) by {
                if j < kept.len() {
                    assert(!kept[i].collides_with(&kept[j]));
                } else {
                    front.lemma_filter_contains_rev(keep, kept[i]);
                    assert(front.contains(kept[i]));
                    let k = choose|k: int| 0 <= k < front.len() && front[k] == kept[i];
                    assert(!clients[k].collides_with(&clients[clients.len() - 1]));
                }
            }
        }
    }
}

} // verus!
