//! What holds of the engine as a whole: properties that relate several
//! operations, or that hold in every state. Each is proved from the same
//! definitions that the contracts of the operations are written in.

use crate::error::predeclared::QuickSocketError;
use crate::search::{
    any, first_index, is_first, lemma_first_index_found, lemma_first_index_is_first,
};
use crate::socket_instance::channel::{
    clients_distinct, closed_client, collides, disconnected, has_uid, lemma_filter_keeps_distinct,
    reconnect_outcome, stays, surfaces, uid_listed, ChannelOp, ChannelView, Transport,
};
use crate::socket_instance::client::ChannelClient;
use crate::socket_instance::emit::{
    client_error, delivery_of, emit_errors, lemma_run_collects_errors, EmissionView, WriteOutcome,
};
use crate::socket_instance::event::{
    envelope_model, frame_text, lemma_envelope_members, ResponseEvent,
};
use crate::socket_instance::handlers::register_outcome;
use crate::socket_instance::{
    channel_with_id, destroyed_in, has_id, ids_distinct, opened, Channel, ChannelCreatePreferences,
    ChannelHandle, ServerView,
};
use crate::socket_instance::worker::{
    accept_route, datagram_route, reader_route, reply_model, route, AcceptStep, ReadEvent,
    WorkerStep,
};
use crate::wire::{json_dump_text, json_model, lemma_pair_model, pair_model, JsonModel};
use vstd::prelude::*;

verus! {

/// Uniqueness, one step. An operation that keeps the clients apart leaves a
/// registry in which no two clients share a uid or an address as such a
/// registry.
pub proof fn lemma_step_keeps_clients_distinct<H>(channel: ChannelView<H>, op: ChannelOp<H>)
    requires
        clients_distinct(channel.clients),
        channel.keeps_clients_apart(op),
    ensures
        clients_distinct(channel.apply(op).clients),
{
    let clients = channel.clients;
    match op {
        ChannelOp::RegisterClient(client) => {
            if !collides(clients, client) {
                let grown = clients.push(client);
                assert forall|i: int, j: int|
                    #![trigger grown[i], grown[j]]
                    0 <= i < j < grown.len() implies !grown[i].collides_with(&grown[j]) by {
                    if j < clients.len() {
                        assert(!clients[i].collides_with(&clients[j]));
                    } else {
                        assert(!clients[i].collides_with(&client));
                    }
                }
            }
        },
        ChannelOp::ReconnectClientByUid(uid, new_client) => {
            match first_index(clients, has_uid(uid)) {
                Some(index) => {
                    lemma_first_index_is_first(clients, has_uid(uid));
                    let after = clients.update(index, new_client);
                    assert forall|i: int, j: int|
                        #![trigger after[i], after[j]]
                        0 <= i < j < after.len() implies !after[i].collides_with(&after[j]) by {
                        if i == index {
                            assert(!clients[j].collides_with(&new_client));
                        } else if j == index {
                            assert(!clients[i].collides_with(&new_client));
                        } else {
                            assert(!clients[i].collides_with(&clients[j]));
                        }
                    }
                },
                None => {},
            }
        },
        ChannelOp::DisconnectCertain(leaving) => {
            lemma_filter_keeps_distinct(clients, stays(leaving));
        },
        ChannelOp::FinishEmitAll(errors) => {
            lemma_filter_keeps_distinct(clients, stays(errors.filter_map(closed_client())));
        },
        _ => {},
    }
}

/// Uniqueness. Whatever is done to a channel since its creation, no two
/// clients of its registry share a uid and no two share an address, as long
/// as no reconnection put in a record that shares one with a record other
/// than the one it replaced.
pub proof fn lemma_clients_are_distinct<H>(created: ChannelView<H>, ops: Seq<ChannelOp<H>>)
    requires
        created.clients.len() == 0,
        created.keep_clients_apart(ops),
    ensures
        clients_distinct(created.replay(ops).clients),
    decreases ops.len(),
{
    if ops.len() > 0 {
        lemma_clients_are_distinct(created, ops.drop_last());
        lemma_step_keeps_clients_distinct(created.replay(ops.drop_last()), ops.last());
    }
}

/// Channel ids. Where no two channels of a server have one id, that still
/// holds after a channel is opened and after channels are destroyed. The
/// channel that was opened is found under its id, in the table of its
/// transport, and every channel that was there before is still there.
pub proof fn lemma_channel_ids_stay_unique<H, F: FnOnce(Channel<H>) -> Channel<H>>(
    before: ServerView<H>,
    after: ServerView<H>,
    transport: Transport,
    channel_id: Seq<char>,
    port: u16,
    setter: F,
    pref: ChannelCreatePreferences,
    handle: ChannelHandle,
    destroyed: Seq<char>,
)
    requires
        before.ids_unique(),
        opened(before, after, transport, channel_id, port, setter, pref, handle),
    ensures
        after.ids_unique(),
        before.destroy_channel(destroyed).ids_unique(),
        after.table(transport).len() == before.table(transport).len() + 1,
        after.table(transport).drop_last() == before.table(transport),
        after.table(transport).last().channel_id == channel_id,
        after.table(transport).last().transport == transport,
        channel_with_id(after.table(transport), channel_id) == Some(after.table(transport).last()),
        after.id_taken(channel_id),
{
    let old_table = before.table(transport);
    let new_table = after.table(transport);
    let test = has_id::<H>(channel_id);
    assert(new_table.drop_last() == old_table);
    assert forall|j: int| 0 <= j < old_table.len() implies !test(#[trigger] old_table[j]) by {
        if test(old_table[j]) {
            assert(any(old_table, test));
        }
    }
    assert(is_first(new_table, test, old_table.len() as int)) by {
        assert forall|j: int| 0 <= j < old_table.len() implies !test(#[trigger] new_table[j]) by {
            assert(new_table[j] == old_table[j]);
        }
    }
    lemma_first_index_found(new_table, test, old_table.len() as int);
    assert(test(new_table[old_table.len() as int]));
    assert(any(new_table, test));
    assert(ids_distinct(new_table)) by {
        assert forall|i: int, j: int|
            #![trigger new_table[i], new_table[j]]
            0 <= i < j < new_table.len() implies new_table[i].channel_id
            != new_table[j].channel_id by {
            if j < old_table.len() {
                assert(old_table[i].channel_id != old_table[j].channel_id);
            } else {
                assert(!test(old_table[i]));
            }
        }
    }
    assert(after.ids_unique()) by {
        assert forall|i: int, j: int|
            #![trigger after.socket.tcp[i], after.socket.udp[j]]
            0 <= i < after.socket.tcp.len() && 0 <= j < after.socket.udp.len()
                implies after.socket.tcp[i].channel_id != after.socket.udp[j].channel_id by {
            match transport {
                Transport::Stream => {
                    if i < before.socket.tcp.len() {
                        assert(before.socket.tcp[i].channel_id != before.socket.udp[j].channel_id);
                    } else {
                        if has_id::<H>(channel_id)(before.socket.udp[j]) {
                            assert(any(before.socket.udp, has_id::<H>(channel_id)));
                        }
                    }
                },
                Transport::Datagram => {
                    if j < before.socket.udp.len() {
                        assert(before.socket.tcp[i].channel_id != before.socket.udp[j].channel_id);
                    } else {
                        if has_id::<H>(channel_id)(before.socket.tcp[i]) {
                            assert(any(before.socket.tcp, has_id::<H>(channel_id)));
                        }
                    }
                },
            }
        }
    }
    lemma_destroy_keeps_ids(before.socket.tcp, destroyed);
    lemma_destroy_keeps_ids(before.socket.udp, destroyed);
    let gone = before.destroy_channel(destroyed);
    assert forall|i: int, j: int|
        #![trigger gone.socket.tcp[i], gone.socket.udp[j]]
        0 <= i < gone.socket.tcp.len() && 0 <= j < gone.socket.udp.len()
            implies gone.socket.tcp[i].channel_id != gone.socket.udp[j].channel_id by {
        assert(before.socket.tcp[i].channel_id != before.socket.udp[j].channel_id);
    }
}

proof fn lemma_destroy_keeps_ids<H>(table: Seq<ChannelView<H>>, channel_id: Seq<char>)
    ensures
        destroyed_in(table, channel_id).len() == table.len(),
        forall|i: int|
            0 <= i < table.len() ==> (#[trigger] destroyed_in(table, channel_id)[i]).channel_id
                == table[i].channel_id,
        ids_distinct(table) ==> ids_distinct(destroyed_in(table, channel_id)),
{
    let after = destroyed_in(table, channel_id);
    if first_index(table, has_id::<H>(channel_id)) is Some {
        lemma_first_index_is_first(table, has_id::<H>(channel_id));
    }
    if ids_distinct(table) {
        assert forall|i: int, j: int|
            #![trigger after[i], after[j]]
            0 <= i < j < after.len() implies after[i].channel_id != after[j].channel_id by {
            assert(table[i].channel_id != table[j].channel_id);
        }
    }
}

/// Handler monotonicity. Registering a second handler under a name fails with
/// `EventAlreadyExists` and changes nothing; where the first registration
/// succeeded, its handler is the one installed before and after.
pub proof fn lemma_handlers_are_monotonic<H>(
    table: Map<Seq<char>, H>,
    event: Seq<char>,
    first: H,
    second: H,
)
    ensures
        ({
            let (installed, answer) = register_outcome(table, event, first);
            let (after, refusal) = register_outcome(installed, event, second);
            &&& refusal == Err::<(), QuickSocketError>(QuickSocketError::EventAlreadyExists)
            &&& after == installed
            &&& after.contains_key(event)
            &&& answer is Ok ==> after[event] == first
            &&& answer is Ok <==> !table.contains_key(event)
        }),
{
}

/// Handlers stay. A handler that is installed is installed for good:
/// whatever is done to the channel afterwards, the event has that handler.
pub proof fn lemma_handlers_stay<H>(
    channel: ChannelView<H>,
    later: Seq<ChannelOp<H>>,
    event: Seq<char>,
)
    requires
        channel.handlers.contains_key(event),
    ensures
        channel.replay(later).handlers.contains_key(event),
        channel.replay(later).handlers[event] == channel.handlers[event],
    decreases later.len(),
{
    if later.len() > 0 {
        lemma_handlers_stay(channel, later.drop_last(), event);
        lemma_step_is_monotonic(channel.replay(later.drop_last()), later.last(), event);
    }
}

proof fn lemma_emit_errors_one_bad(
    clients: Seq<ChannelClient>,
    outcomes: Seq<WriteOutcome>,
    bad: int,
    upto: int,
)
    requires
        0 <= bad < clients.len(),
        0 <= upto <= clients.len(),
        outcomes.len() == clients.len(),
        forall|i: int| 0 <= i < clients.len() ==> (#[trigger] clients[i]).stream is Some,
        forall|i: int|
            0 <= i < clients.len() && i != bad ==> #[trigger] outcomes[i]
                == WriteOutcome::Delivered,
    ensures
        emit_errors(Transport::Stream, clients.take(upto), outcomes) == if upto > bad {
            client_error(Transport::Stream, clients[bad], outcomes[bad])
        } else {
            Seq::<QuickSocketError>::empty()
        },
    decreases upto,
{
    if upto > 0 {
        let prefix = clients.take(upto);
        assert(prefix.drop_last() == clients.take(upto - 1));
        assert(prefix.last() == clients[upto - 1]);
        lemma_emit_errors_one_bad(clients, outcomes, bad, upto - 1);
        assert(clients[upto - 1].stream is Some);
        if upto - 1 != bad {
            assert(outcomes[upto - 1] == WriteOutcome::Delivered);
        }
    }
}

proof fn lemma_filter_keeps_all<T>(items: Seq<T>, test: spec_fn(T) -> bool)
    requires
        forall|i: int| 0 <= i < items.len() ==> test(#[trigger] items[i]),
    ensures
        items.filter(test) == items,
    decreases items.len(),
{
    reveal(Seq::filter);
    if items.len() > 0 {
        lemma_filter_keeps_all(items.drop_last(), test);
        assert(items.drop_last().push(items.last()) == items);
    }
}

proof fn lemma_disconnect_one(clients: Seq<ChannelClient>, at: int)
    requires
        clients_distinct(clients),
        0 <= at < clients.len(),
    ensures
        disconnected(clients, seq![clients[at]]) == clients.remove(at),
    decreases clients.len(),
{
    reveal(Seq::filter);
    let leaving = seq![clients[at]];
    let test = stays(leaving);
    let front = clients.drop_last();
    let last = clients.len() - 1;
    assert(leaving[0] == clients[at]);
    assert forall|i: int| 0 <= i < clients.len() && i != at implies test(#[trigger] clients[i]) by {
        if i < at {
            assert(!clients[i].collides_with(&clients[at]));
        } else {
            assert(!clients[at].collides_with(&clients[i]));
        }
        if uid_listed(leaving, clients[i].uid@) {
            let k = choose|k: int|
                0 <= k < leaving.len() && has_uid(clients[i].uid@)(#[trigger] leaving[k]);
            assert(leaving[k] == clients[at]);
        }
    }
    assert(!test(clients[at])) by {
        assert(has_uid(clients[at].uid@)(leaving[0]));
    }
    if at == last {
        assert forall|i: int| 0 <= i < front.len() implies test(#[trigger] front[i]) by {
            assert(front[i] == clients[i]);
        }
        lemma_filter_keeps_all(front, test);
        assert(clients.remove(at) == front);
    } else {
        assert(clients_distinct(front)) by {
            assert forall|i: int, j: int|
                #![trigger front[i], front[j]]
                0 <= i < j < front.len() implies !front[i].collides_with(&front[j]) by {
                assert(!clients[i].collides_with(&clients[j]));
            }
        }
        assert(front[at] == clients[at]);
        lemma_disconnect_one(front, at);
        assert(test(clients[last]));
        assert(front.remove(at).push(clients.last()) == clients.remove(at));
    }
}

proof fn lemma_filter_one<T>(item: T, test: spec_fn(T) -> bool)
    ensures
        seq![item].filter(test) == if test(item) {
            seq![item]
        } else {
            Seq::<T>::empty()
        },
{
    reveal(Seq::filter);
    let one = seq![item];
    assert(one.drop_last() == Seq::<T>::empty());
    assert(one.drop_last().filter(test) == Seq::<T>::empty());
    assert(one.last() == item);
}

proof fn lemma_prune_by_uid(clients: Seq<ChannelClient>, at: int)
    requires
        0 <= at < clients.len(),
    ensures
        ({
            let after = disconnected(clients, seq![clients[at]]);
            &&& after.len() < clients.len()
            &&& forall|i: int|
                0 <= i < clients.len() && (#[trigger] clients[i]).uid@ != clients[at].uid@
                    ==> after.contains(clients[i])
            &&& forall|i: int|
                0 <= i < after.len() ==> (#[trigger] after[i]).uid@ != clients[at].uid@
        }),
{
    let leaving = seq![clients[at]];
    let test = stays(leaving);
    let after = clients.filter(test);
    assert(leaving[0] == clients[at]);
    assert(!test(clients[at])) by {
        assert(has_uid(clients[at].uid@)(leaving[0]));
    }
    lemma_filter_drops(clients, test, at);
    assert forall|i: int|
        0 <= i < clients.len() && (#[trigger] clients[i]).uid@
            != clients[at].uid@ implies after.contains(clients[i]) by {
        if uid_listed(leaving, clients[i].uid@) {
            let k = choose|k: int|
                0 <= k < leaving.len() && has_uid(clients[i].uid@)(#[trigger] leaving[k]);
            assert(leaving[k] == clients[at]);
        }
        clients.lemma_filter_contains(test, i);
    }
    assert forall|i: int| 0 <= i < after.len() implies (#[trigger] after[i]).uid@
        != clients[at].uid@ by {
        clients.lemma_filter_pred(test, i);
        if after[i].uid@ == clients[at].uid@ {
            assert(has_uid(after[i].uid@)(leaving[0]));
        }
    }
}

proof fn lemma_filter_drops<T>(items: Seq<T>, test: spec_fn(T) -> bool, at: int)
    requires
        0 <= at < items.len(),
        !test(items[at]),
    ensures
        items.filter(test).len() < items.len(),
    decreases items.len(),
{
    reveal(Seq::filter);
    let front = items.drop_last();
    if at == items.len() - 1 {
        front.lemma_filter_len(test);
    } else {
        assert(front[at] == items[at]);
        lemma_filter_drops(front, test, at);
    }
}

/// Broadcast independence. On a stream channel whose clients all have a
/// stream, let the write to one client go wrong and every other write be
/// delivered. Then every client is written to, and the emission holds exactly
/// one error.
///
/// Where the channel prunes and the write found the connection closed,
/// nothing is reported, and the registry loses the records that have the uid
/// of that client and no others, the rest keeping their order. Where no two
/// clients share a uid or an address, that is the old registry without that
/// one client.
///
/// In every other case the one error is reported and the registry stays.
pub proof fn lemma_broadcast_independence<H>(
    channel: ChannelView<H>,
    payload: Seq<char>,
    outcomes: Seq<WriteOutcome>,
    bad: int,
)
    requires
        channel.transport == Transport::Stream,
        forall|i: int|
            0 <= i < channel.clients.len() ==> (#[trigger] channel.clients[i]).stream is Some,
        outcomes.len() == channel.clients.len(),
        0 <= bad < channel.clients.len(),
        outcomes[bad] != WriteOutcome::Delivered,
        forall|i: int|
            0 <= i < channel.clients.len() && i != bad ==> #[trigger] outcomes[i]
                == WriteOutcome::Delivered,
    ensures
        ({
            let ended = EmissionView::start(channel.transport, payload, channel.clients).run(
                outcomes,
            );
            let (after, reported) = channel.settle_broadcast(ended.errors);
            let closed = channel.clients[bad];
            &&& ended.done == channel.clients.len()
            &&& forall|i: int|
                0 <= i < channel.clients.len() ==> delivery_of(
                    channel.transport,
                    #[trigger] channel.clients[i],
                ) is Some
            &&& ended.errors.len() == 1
            &&& reported.len() <= 1
            &&& channel.prunes() && outcomes[bad] == WriteOutcome::Closed ==> {
                &&& reported.len() == 0
                &&& after.clients == disconnected(channel.clients, seq![closed])
                &&& after.clients.len() < channel.clients.len()
                &&& forall|i: int|
                    0 <= i < channel.clients.len() && (#[trigger] channel.clients[i]).uid@
                        != closed.uid@ ==> after.clients.contains(channel.clients[i])
                &&& forall|i: int|
                    0 <= i < after.clients.len() ==> (#[trigger] after.clients[i]).uid@
                        != closed.uid@
                &&& clients_distinct(channel.clients) ==> {
                    &&& after.clients == channel.clients.remove(bad)
                    &&& after.clients.len() == channel.clients.len() - 1
                }
            }
            &&& !(channel.prunes() && outcomes[bad] == WriteOutcome::Closed) ==> {
                &&& reported == ended.errors
                &&& after.clients == channel.clients
            }
        }),
{
    let clients = channel.clients;
    lemma_run_collects_errors(channel.transport, payload, clients, outcomes);
    lemma_emit_errors_one_bad(clients, outcomes, bad, clients.len() as int);
    assert(clients.take(clients.len() as int) == clients);
    let errors = emit_errors(Transport::Stream, clients, outcomes);
    assert(clients[bad].stream is Some);
    assert(errors == client_error(Transport::Stream, clients[bad], outcomes[bad]));
    assert(errors.len() == 1);
    assert(errors == seq![errors[0]]);
    lemma_filter_one(errors[0], surfaces());
    Seq::lemma_filter_map_singleton(errors[0], closed_client());
    if channel.prunes() {
        if outcomes[bad] == WriteOutcome::Closed {
            assert(errors[0] == QuickSocketError::ConnectionClosed(clients[bad]));
            assert(errors.filter_map(closed_client()) == seq![clients[bad]]);
            lemma_prune_by_uid(clients, bad);
            if clients_distinct(clients) {
                lemma_disconnect_one(clients, bad);
            }
        } else {
            assert(errors[0] == QuickSocketError::DataResponseFail);
            assert(errors.filter_map(closed_client()) == Seq::<ChannelClient>::empty());
            assert forall|i: int| 0 <= i < clients.len() implies stays(
                Seq::<ChannelClient>::empty(),
            )(#[trigger] clients[i]) by {}
            lemma_filter_keeps_all(clients, stays(Seq::<ChannelClient>::empty()));
        }
    }
}

/// No operation clears the mark of destruction, and none takes a handler
/// away or puts another in its place.
pub proof fn lemma_step_is_monotonic<H>(channel: ChannelView<H>, op: ChannelOp<H>, event: Seq<char>)
    ensures
        channel.destroyed ==> channel.apply(op).destroyed,
        channel.handlers.contains_key(event) ==> channel.apply(op).handlers.contains_key(event)
            && channel.apply(op).handlers[event] == channel.handlers[event],
{
}

/// Destruction quiescence. Once a channel is destroyed it stays destroyed,
/// whatever is done to it afterwards; and on a destroyed channel every worker
/// leaves at its next step, whatever it has read, so that no handler is
/// called.
pub proof fn lemma_destroyed_channel_is_quiet<H>(
    channel: ChannelView<H>,
    later: Seq<ChannelOp<H>>,
    read: ReadEvent,
    bytes: Seq<u8>,
)
    ensures
        ({
            let now = channel.apply(ChannelOp::DestroyChannel).replay(later);
            &&& now.destroyed
            &&& reader_route(now, read) == WorkerStep::<H, JsonModel>::Stop
            &&& datagram_route(now, bytes) == WorkerStep::<H, JsonModel>::Stop
            &&& accept_route(now) == AcceptStep::Stop
        }),
    decreases later.len(),
{
    let destroyed = channel.apply(ChannelOp::DestroyChannel);
    if later.len() > 0 {
        lemma_destroyed_channel_is_quiet(channel, later.drop_last(), read, bytes);
        lemma_step_is_monotonic(destroyed.replay(later.drop_last()), later.last(), Seq::empty());
    }
}

/// Envelope round-trip. A message that holds the name of a registered event
/// under `event` and a value under `data` goes to the handler of that event
/// with that value; and where the handler answers with the same value, the
/// reply is the envelope `{"event": "ok", "data": <value>}`, for any value.
pub proof fn lemma_envelope_round_trip<H>(
    handlers: Map<Seq<char>, H>,
    event: Seq<char>,
    value: json::JsonValue,
)
    requires
        handlers.contains_key(event),
    ensures
        ({
            let data = json_model(value);
            let message = pair_model("event"@, JsonModel::Text(event), "data"@, data);
            &&& route(handlers, Some(message)) == WorkerStep::Invoke {
                handler: handlers[event],
                data,
            }
            &&& reply_model(Ok(Some(value))) == Some((ResponseEvent::Okay, data))
            &&& envelope_model(ResponseEvent::Okay, data) == JsonModel::Object(
                seq![("event"@, JsonModel::Text("ok"@)), ("data"@, data)],
            )
            &&& frame_text(ResponseEvent::Okay, data) == json_dump_text(
                JsonModel::Object(seq![("event"@, JsonModel::Text("ok"@)), ("data"@, data)]),
            )
        }),
{
    let data = json_model(value);
    reveal_strlit("event");
    reveal_strlit("data");
    assert("event"@.len() != "data"@.len());
    lemma_pair_model("event"@, JsonModel::Text(event), "data"@, data);
    lemma_envelope_members(ResponseEvent::Okay, data);
}

/// Reconnect atomicity. A reconnection succeeds exactly when a client has the
/// uid. It then changes one record, the first with that uid, and puts the new
/// record there whole: every record of the registry afterwards is a record
/// that was there before or the new record, never a mixture. Where it fails
/// the registry is untouched.
pub proof fn lemma_reconnect_is_atomic(
    clients: Seq<ChannelClient>,
    uid: Seq<char>,
    new_client: ChannelClient,
)
    ensures
        ({
            let (after, answer) = reconnect_outcome(clients, uid, new_client);
            &&& after.len() == clients.len()
            &&& forall|i: int|
                0 <= i < after.len() ==> #[trigger] after[i] == clients[i] || after[i] == new_client
            &&& answer is Ok <==> uid_listed(clients, uid)
            &&& answer is Ok ==> exists|at: int|
                is_first(clients, has_uid(uid), at) && after == clients.update(at, new_client)
            &&& answer is Err ==> after == clients && answer == Err::<(), QuickSocketError>(
                QuickSocketError::ClientNotRegistered,
            )
        }),
{
    if first_index(clients, has_uid(uid)) is Some {
        lemma_first_index_is_first(clients, has_uid(uid));
    }
}

} // verus!
