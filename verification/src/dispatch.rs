//! The event side of the server: the inbound events every session's reader
//! forwards, the FIFO queue they travel through, and the per-step decisions
//! of the reader and writer workers.
//!
//! The dispatcher itself is [`crate::server::Server::handle_event`]; a runner
//! drains the queue and feeds it one event at a time. Delivery order equals
//! arrival order; see [`lemma_no_reordering`].

use vstd::prelude::*;

use crate::protocol::{ClientMessage, Message, MessageV, ProtocolError, ServerMessage};

verus! {

/// A message tagged with the session id whose reader produced it.
pub type AddressedMessage = (u128, Message);

/// One inbound event for the dispatcher.
#[derive(Debug, PartialEq, Eq)]
pub enum ServerEvent {
    /// A session decoded one message.
    IncomingMessage(AddressedMessage),
    /// A session's reader failed to decode; the session is over.
    Unexpected(ProtocolError),
}

/// The mathematical value of a [`ServerEvent`].
#[verifier::ext_equal]
pub enum ServerEventV {
    IncomingMessage((u128, MessageV)),
    Unexpected(ProtocolError),
}

impl View for ServerEvent {
    type V = ServerEventV;

    open spec fn view(&self) -> ServerEventV {
        match self {
            ServerEvent::IncomingMessage((id, m)) => ServerEventV::IncomingMessage((*id, m@)),
            ServerEvent::Unexpected(e) => ServerEventV::Unexpected(*e),
        }
    }
}

impl DeepView for ServerEvent {
    type V = ServerEventV;

    open spec fn deep_view(&self) -> ServerEventV {
        self.view()
    }
}

/// Why the dispatcher's run loop stopped. The dispatcher is a single point
/// of failure: when its loop stops, no client is processed any more, so a
/// runner must surface this loudly rather than swallow it.
#[derive(Clone, Copy, Debug, PartialEq, Eq, Structural)]
pub enum HandleError {
    /// A lock around shared state was observed in an unusable state.
    Deadlock,
    /// The inbound event channel has no senders left.
    ReceiveChannel,
}

/// Why a session's reader stopped forwarding events.
#[derive(Clone, Copy, Debug, PartialEq, Eq, Structural)]
pub enum ReceiveError {
    /// A lock around shared state was observed in an unusable state.
    Deadlock,
    /// The inbound event channel has no receiver left.
    ChannelSend,
}

/// Why a TCP front end serving the registry stopped.
#[derive(Clone, Copy, Debug, PartialEq, Eq, Structural)]
pub enum PDTServerError {
    SendMutexLockError,
    SendNoSuchClient,
    TcpBindFailed,
    TcpStreamCloneFailed,
}

/// One step of a session's reader: the event to forward for one decode
/// outcome, and whether the reader terminates afterwards. A goodbye is
/// forwarded and then ends the reader; a decode failure is forwarded as
/// `Unexpected` and ends the reader.
pub fn reader_step(id: u128, received: Result<Message, ProtocolError>) -> (r: (ServerEvent, bool))
    ensures
        match received {
            Ok(m) => r.0@ == ServerEventV::IncomingMessage((id, m@)) && r.1 == (
            m@ matches MessageV::Server(crate::protocol::ServerMessageV::Goodbye)),
            Err(e) => r.0@ == ServerEventV::Unexpected(e) && r.1 == true,
        },
{
    match received {
        Ok(m) => {
            let ended = match &m {
                Message::Server(ServerMessage::Goodbye) => true,
                _ => false,
            };
            (ServerEvent::IncomingMessage((id, m)), ended)
        },
        Err(e) => (ServerEvent::Unexpected(e), true),
    }
}

/// One step of a session's writer: the message to put on the wire for one
/// outcome of waiting on the session's outbound queue, and whether the
/// writer keeps going. When the queue's senders are gone, the writer sends
/// one final goodbye, best effort, and stops.
pub fn writer_step(received: Option<Message>) -> (r: (Message, bool))
    ensures
        match received {
            Some(m) => r.0 == m && r.1 == true,
            None => r.0@ == MessageV::Client(ClientMessage::Goodbye) && r.1 == false,
        },
{
    match received {
        Some(m) => (m, true),
        None => (Message::Client(ClientMessage::Goodbye), false),
    }
}

/// The server-wide inbound event queue: every session's reader pushes at the
/// back, the dispatcher pops at the front. Besides the pending events it
/// carries the whole arrival and delivery history, so that the ordering
/// guarantee is part of its contract.
pub struct EventQueue {
    items: Vec<ServerEvent>,
    arrived: Ghost<Seq<ServerEventV>>,
    delivered: Ghost<Seq<ServerEventV>>,
}

impl EventQueue {
    /// The events pushed so far, in arrival order.
    pub closed spec fn arrivals(&self) -> Seq<ServerEventV> {
        self.arrived@
    }

    /// The events popped so far, in delivery order.
    pub closed spec fn deliveries(&self) -> Seq<ServerEventV> {
        self.delivered@
    }

    /// The events still waiting, oldest first.
    pub closed spec fn pending(&self) -> Seq<ServerEventV> {
        self.items.deep_view()
    }

    /// Validity: the arrivals are exactly the deliveries followed by what
    /// is still pending.
    pub open spec fn wf(&self) -> bool {
        self.arrivals() == self.deliveries() + self.pending()
    }

    /// An empty queue with empty history.
    pub fn new() -> (q: Self)
        ensures
            q.wf(),
            q.arrivals() == Seq::<ServerEventV>::empty(),
            q.deliveries() == Seq::<ServerEventV>::empty(),
            q.pending() == Seq::<ServerEventV>::empty(),
    {
        let q = EventQueue {
            items: Vec::new(),
            arrived: Ghost(Seq::empty()),
            delivered: Ghost(Seq::empty()),
        };
        proof {
            assert(q.pending() =~= Seq::<ServerEventV>::empty());
            assert(q.wf());
        }
        q
    }

    /// Appends one event at the back.
    pub fn push(&mut self, e: ServerEvent)
        requires
            old(self).wf(),
        ensures
            final(self).wf(),
            final(self).arrivals() == old(self).arrivals().push(e@),
            final(self).deliveries() == old(self).deliveries(),
            final(self).pending() == old(self).pending().push(e@),
    {
        let ghost ev = e@;
        self.items.push(e);
        proof {
            self.arrived@ = self.arrived@.push(ev);
            assert(self.pending() =~= old(self).pending().push(ev));
            assert(self.arrivals() =~= self.deliveries() + self.pending());
        }
    }

    /// Takes the oldest pending event, if any.
    pub fn pop(&mut self) -> (r: Option<ServerEvent>)
        requires
            old(self).wf(),
        ensures
            final(self).wf(),
            final(self).arrivals() == old(self).arrivals(),
            old(self).pending().len() == 0 ==> r is None && *final(self) == *old(self),
            old(self).pending().len() > 0 ==> (r matches Some(e) && e@ == old(self).pending()[0]
                && final(self).deliveries() == old(self).deliveries().push(e@) && final(
            self).pending() == old(self).pending().skip(1)),
    {
        if self.items.len() == 0 {
            proof {
                assert(old(self).pending().len() == self.items@.len());
            }
            None
        } else {
            let e = self.items.remove(0);
            proof {
                self.delivered@ = self.delivered@.push(e@);
                assert(self.pending() =~= old(self).pending().skip(1));
                assert(self.arrivals() =~= self.deliveries() + self.pending());
            }
            Some(e)
        }
    }
}

/// Delivery order equals arrival order: at every point, the events
/// delivered so far are exactly a prefix of the events that arrived, in the
/// same order.
pub proof fn lemma_delivery_prefix(q: EventQueue)
    requires
        q.wf(),
    ensures
        q.deliveries() == q.arrivals().take(q.deliveries().len() as int),
{
    assert(q.deliveries() =~= q.arrivals().take(q.deliveries().len() as int));
}

/// No reordering: every delivered event sits at the same position in the
/// delivery order as in the arrival order. In particular, of two messages
/// one session sent in order, neither overtakes the other on the way to the
/// dispatcher.
pub proof fn lemma_no_reordering(q: EventQueue, i: int)
    requires
        q.wf(),
        0 <= i < q.deliveries().len(),
    ensures
        q.deliveries()[i] == q.arrivals()[i],
{
    lemma_delivery_prefix(q);
}

} // verus!
