//! Sending one envelope to a list of clients.
//!
//! The writes themselves belong to the transport. An [`Emission`] decides, one
//! client at a time, whether and where to write, and turns what the transport
//! reports into the list of errors that the caller gets. A failure on one
//! client never keeps the others from being written to.

use crate::error::predeclared::QuickSocketError;
use crate::socket_instance::channel::Transport;
use crate::socket_instance::client::{ChannelClient, PeerAddr, StreamId};
use crate::socket_instance::event::{frame, frame_text, ResponseEvent};
use crate::wire::json_model;
use vstd::prelude::*;

verus! {

/// What the transport reports of one write.
#[derive(Clone, Copy, Debug, PartialEq, Eq, Structural)]
pub enum WriteOutcome {
    /// The payload was handed to the peer.
    Delivered,
    /// The framed connection was already closed.
    Closed,
    /// The write failed for any other reason.
    Failed,
}

/// Where the transport is to write.
#[derive(Clone, Copy, Debug, PartialEq, Eq, Structural)]
pub enum Delivery {
    /// Into this framed stream.
    Stream(StreamId),
    /// To this address, as one datagram.
    Datagram(PeerAddr),
}

/// What an emission asks of the transport next.
#[derive(Clone, Copy, Debug, PartialEq, Eq, Structural)]
pub enum Step {
    /// Write the payload there and report the outcome.
    Write(Delivery),
    /// The client at hand cannot be written to; the error is noted. Ask again.
    Skipped,
    /// Every client has been dealt with.
    Finished,
}

/// Where a client is written to: into its stream on a stream channel, to its
/// address on a datagram channel. A client of a stream channel that has no
/// stream cannot be written to.
pub open spec fn delivery_of(transport: Transport, client: ChannelClient) -> Option<Delivery> {
    match transport {
        Transport::Stream => match client.stream {
            Some(id) => Some(Delivery::Stream(id)),
            None => None,
        },
        Transport::Datagram => Some(Delivery::Datagram(client.addr)),
    }
}

/// The error, if any, that the outcome of a write to `client` stands for.
/// Only a stream channel knows closed connections.
pub open spec fn outcome_error(
    transport: Transport,
    client: ChannelClient,
    outcome: WriteOutcome,
) -> Seq<QuickSocketError> {
    match outcome {
        WriteOutcome::Delivered => Seq::empty(),
        WriteOutcome::Closed => match transport {
            Transport::Stream => seq![QuickSocketError::ConnectionClosed(client)],
            Transport::Datagram => seq![QuickSocketError::DataResponseFail],
        },
        WriteOutcome::Failed => seq![QuickSocketError::DataResponseFail],
    }
}

/// The error, if any, that `client` adds to an emission, where `outcome` is
/// what a write to it yields.
pub open spec fn client_error(
    transport: Transport,
    client: ChannelClient,
    outcome: WriteOutcome,
) -> Seq<QuickSocketError> {
    if delivery_of(transport, client) is None {
        seq![QuickSocketError::ClientDataInvalid]
    } else {
        outcome_error(transport, client, outcome)
    }
}

/// The errors of an emission to `clients`, in their order, where
/// `outcomes[i]` is what a write to `clients[i]` yields.
pub open spec fn emit_errors(
    transport: Transport,
    clients: Seq<ChannelClient>,
    outcomes: Seq<WriteOutcome>,
) -> Seq<QuickSocketError>
    decreases clients.len(),
{
    if clients.len() == 0 {
        Seq::empty()
    } else {
        emit_errors(transport, clients.drop_last(), outcomes) + client_error(
            transport,
            clients.last(),
            outcomes[clients.len() - 1],
        )
    }
}

/// What the caller of an emission gets for a list of errors: `Ok` for none,
/// the list otherwise.
pub open spec fn is_report_of(
    report: Result<(), Vec<QuickSocketError>>,
    errors: Seq<QuickSocketError>,
) -> bool {
    match report {
        Ok(_) => errors.len() == 0,
        Err(list) => list@ == errors && errors.len() > 0,
    }
}

/// An emission under way.
pub struct Emission {
    transport: Transport,
    payload: String,
    clients: Vec<ChannelClient>,
    cursor: usize,
    awaiting: bool,
    errors: Vec<QuickSocketError>,
}

/// An emission as mathematics.
pub struct EmissionView {
    pub transport: Transport,
    /// The text that every client is sent.
    pub payload: Seq<char>,
    pub clients: Seq<ChannelClient>,
    /// How many clients have been dealt with.
    pub done: int,
    /// Whether a write has been asked for and its outcome is awaited.
    pub awaiting: bool,
    /// The errors so far, in the order of the clients.
    pub errors: Seq<QuickSocketError>,
}

impl EmissionView {
    /// An emission before its first step.
    pub open spec fn start(
        transport: Transport,
        payload: Seq<char>,
        clients: Seq<ChannelClient>,
    ) -> Self {
        EmissionView { transport, payload, clients, done: 0, awaiting: false, errors: Seq::empty() }
    }

    /// The next step and the emission after it.
    pub open spec fn step(self) -> (Self, Step) {
        if 0 <= self.done < self.clients.len() {
            match delivery_of(self.transport, self.clients[self.done]) {
                Some(target) => (EmissionView { awaiting: true, ..self }, Step::Write(target)),
                None => (
                    EmissionView {
                        done: self.done + 1,
                        awaiting: false,
                        errors: self.errors.push(QuickSocketError::ClientDataInvalid),
                        ..self
                    },
                    Step::Skipped,
                ),
            }
        } else {
            (self, Step::Finished)
        }
    }

    /// The emission after the outcome of the awaited write is reported. An
    /// outcome that nothing awaits changes nothing.
    pub open spec fn record(self, outcome: WriteOutcome) -> Self {
        if self.awaiting && 0 <= self.done < self.clients.len() {
            EmissionView {
                done: self.done + 1,
                awaiting: false,
                errors: self.errors + outcome_error(
                    self.transport,
                    self.clients[self.done],
                    outcome,
                ),
                ..self
            }
        } else {
            self
        }
    }

    /// The emission after it has been driven to its end, where `outcomes[i]`
    /// is what the transport reports for the write to `clients[i]`.
    pub open spec fn run(self, outcomes: Seq<WriteOutcome>) -> Self
        decreases self.clients.len() - self.done,
    {
        if 0 <= self.done < self.clients.len() {
            let (asked, step) = self.step();
            match step {
                Step::Write(_) => asked.record(outcomes[self.done]).run(outcomes),
                _ => asked.run(outcomes),
            }
        } else {
            self
        }
    }
}

impl View for Emission {
    type V = EmissionView;

    closed spec fn view(&self) -> EmissionView {
        EmissionView {
            transport: self.transport,
            payload: self.payload@,
            clients: self.clients@,
            done: self.cursor as int,
            awaiting: self.awaiting,
            errors: self.errors@,
        }
    }
}

impl Emission {
    /// Starts the emission of `value`, under the tag of `event`, to `clients`
    /// in their order.
    pub fn new(
        transport: Transport,
        clients: Vec<ChannelClient>,
        event: ResponseEvent,
        value: json::JsonValue,
    ) -> (emission: Self)
        ensures
            emission@ == EmissionView::start(
                transport,
                frame_text(event, json_model(value)),
                clients@,
            ),
    {
        Emission {
            transport,
            payload: frame(event, value),
            clients,
            cursor: 0,
            awaiting: false,
            errors: Vec::new(),
        }
    }

    /// The text to write.
    pub fn payload(&self) -> (text: &str)
        ensures
            text@ == self@.payload,
    {
        self.payload.as_str()
    }

    /// The errors noted so far.
    pub fn errors(&self) -> (errors: &Vec<QuickSocketError>)
        ensures
            errors@ == self@.errors,
    {
        &self.errors
    }

    /// What to do next. After `Write`, perform the write and call `record`
    /// with its outcome; after `Skipped`, ask again.
    pub fn next(&mut self) -> (step: Step)
        ensures
            (final(self)@, step) == old(self)@.step(),
    {
        if self.cursor >= self.clients.len() {
            return Step::Finished;
        }
        let client = &self.clients[self.cursor];
        let target = match self.transport {
            Transport::Stream => match client.stream {
                Some(id) => Some(Delivery::Stream(id)),
                None => None,
            },
            Transport::Datagram => Some(Delivery::Datagram(client.addr)),
        };
        match target {
            Some(target) => {
                self.awaiting = true;
                Step::Write(target)
            },
            None => {
                self.errors.push(QuickSocketError::ClientDataInvalid);
                self.cursor += 1;
                self.awaiting = false;
                Step::Skipped
            },
        }
    }

    /// Reports the outcome of the write that `next` asked for.
    pub fn record(&mut self, outcome: WriteOutcome)
        ensures
            final(self)@ == old(self)@.record(outcome),
    {
        if self.awaiting && self.cursor < self.clients.len() {
            match outcome {
                WriteOutcome::Delivered => {},
                WriteOutcome::Closed => match self.transport {
                    Transport::Stream => {
                        let client = self.clients[self.cursor].clone();
                        self.errors.push(QuickSocketError::ConnectionClosed(client));
                    },
                    Transport::Datagram => {
                        self.errors.push(QuickSocketError::DataResponseFail);
                    },
                },
                WriteOutcome::Failed => {
                    self.errors.push(QuickSocketError::DataResponseFail);
                },
            }
            proof {
                assert(self.errors@ =~= old(self).errors@ + outcome_error(
                    self.transport,
                    self.clients@[self.cursor as int],
                    outcome,
                ));
            }
            self.cursor += 1;
            self.awaiting = false;
        }
    }

    /// Ends the emission and hands over the errors noted, in the order of the
    /// clients.
    pub fn into_errors(self) -> (errors: Vec<QuickSocketError>)
        ensures
            errors@ == self@.errors,
    {
        self.errors
    }

    /// Ends the emission: `Ok` where no error was noted, the errors in the
    /// order of the clients otherwise.
    pub fn finish(self) -> (report: Result<(), Vec<QuickSocketError>>)
        ensures
            is_report_of(report, self@.errors),
    {
        if self.errors.len() == 0 {
            Ok(())
        } else {
            Err(self.errors)
        }
    }
}

proof fn lemma_run_from(emission: EmissionView, outcomes: Seq<WriteOutcome>)
    requires
        0 <= emission.done <= emission.clients.len(),
        emission.errors == emit_errors(
            emission.transport,
            emission.clients.take(emission.done),
            outcomes,
        ),
    ensures
        emission.run(outcomes).errors == emit_errors(
            emission.transport,
            emission.clients,
            outcomes,
        ),
        emission.run(outcomes).done == emission.clients.len(),
        !emission.run(outcomes).awaiting || emission.done == emission.clients.len(),
        emission.run(outcomes).clients == emission.clients,
        emission.run(outcomes).transport == emission.transport,
        emission.run(outcomes).payload == emission.payload,
    decreases emission.clients.len() - emission.done,
{
    if emission.done < emission.clients.len() {
        let (asked, step) = emission.step();
        let next = match step {
            Step::Write(_) => asked.record(outcomes[emission.done]),
            _ => asked,
        };
        let upto = emission.clients.take(emission.done + 1);
        assert(upto.drop_last() == emission.clients.take(emission.done));
        assert(upto.last() == emission.clients[emission.done]);
        assert(next.errors == emit_errors(emission.transport, upto, outcomes));
        lemma_run_from(next, outcomes);
    } else {
        assert(emission.clients.take(emission.done) == emission.clients);
    }
}

/// Driving an emission to its end deals with every client and leaves exactly
/// the errors that the outcomes stand for, in the order of the clients.
pub proof fn lemma_run_collects_errors(
    transport: Transport,
    payload: Seq<char>,
    clients: Seq<ChannelClient>,
    outcomes: Seq<WriteOutcome>,
)
    ensures
        EmissionView::start(transport, payload, clients).run(outcomes).errors == emit_errors(
            transport,
            clients,
            outcomes,
        ),
        EmissionView::start(transport, payload, clients).run(outcomes).done == clients.len(),
        !EmissionView::start(transport, payload, clients).run(outcomes).awaiting,
{
    let start = EmissionView::start(transport, payload, clients);
    assert(clients.take(0) == Seq::<ChannelClient>::empty());
    lemma_run_from(start, outcomes);
}

} // verus!
