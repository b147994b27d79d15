//! One connection: its identity, its bounded outbound queue, its close
//! trigger, its sequence counter and its pending requests.
use vstd::prelude::*;
use crate::error::{JuntaError, JuntaResult};
use crate::message::{normal_close, CloseData, Content, Frame, MessageContent, OwnedMessage, NORMAL_CLOSURE};
use crate::protocol::{awaited, distinct, position, Listener};

verus! {

/// The depth of the outbound queue of a connection made with [`Client::new`].
pub const OUTBOUND_DEPTH: usize = 20;

/// The sequence number that the first request of a connection gets.
pub const FIRST_SEQUENCE: usize = 1;

/// The message of the error for a frame that the full outbound queue refuses.
pub open spec fn queue_full() -> Seq<char> {
    "outbound queue full"@
}

/// The message of the error for a request whose id and name are awaited
/// already.
pub open spec fn already_pending() -> Seq<char> {
    "request already pending"@
}

/// Whom a message is for.
#[derive(Clone, Copy, Debug, PartialEq, Eq, Structural)]
pub enum Reach {
    /// Every registered connection, the asking one included.
    All,
    /// Every registered connection but the asking one.
    Others,
    /// The registered connection with this id, if there is one.
    One(u128),
}

/// A message that a connection asks the server to hand to connections of the
/// registry.
pub struct Fanout {
    pub reach: Reach,
    pub message: MessageContent,
}

/// The mathematical value of a [`Fanout`].
pub struct Spread {
    pub reach: Reach,
    pub message: Content,
}

impl View for Fanout {
    type V = Spread;

    open spec fn view(&self) -> Spread {
        Spread { reach: self.reach, message: self.message@ }
    }
}

/// The frames of a queue, as mathematical values.
pub open spec fn frames(queue: Seq<OwnedMessage>) -> Seq<Frame> {
    Seq::new(queue.len(), |i: int| queue[i]@)
}

/// The requests for fanout, as mathematical values.
pub open spec fn spreads(asked: Seq<Fanout>) -> Seq<Spread> {
    Seq::new(asked.len(), |i: int| asked[i]@)
}

/// The state of one connection.
pub struct Client {
    id: u128,
    address: String,
    outbound: Vec<OwnedMessage>,
    depth: usize,
    armed: bool,
    counter: usize,
    listeners: Vec<Listener>,
    fanout: Vec<Fanout>,
}

/// The mathematical value of a [`Client`].
pub struct Connection {
    /// The stable identifier of the connection.
    pub id: u128,
    /// The address of the peer.
    pub address: Seq<char>,
    /// The frames that wait for the sink, oldest first.
    pub outbound: Seq<Frame>,
    /// How many frames the outbound queue holds at most.
    pub depth: nat,
    /// Whether the close trigger is still to be taken.
    pub armed: bool,
    /// The sequence number that the next request gets.
    pub counter: usize,
    /// The outstanding requests, oldest first.
    pub pending: Seq<Listener>,
    /// The fanout asked for and not yet carried out, oldest first.
    pub fanout: Seq<Spread>,
}

impl View for Client {
    type V = Connection;

    closed spec fn view(&self) -> Connection {
        Connection {
            id: self.id,
            address: self.address@,
            outbound: frames(self.outbound@),
            depth: self.depth as nat,
            armed: self.armed,
            counter: self.counter,
            pending: self.listeners@,
            fanout: spreads(self.fanout@),
        }
    }
}

impl Connection {
    /// A connection whose handshake has just succeeded: an empty queue of the
    /// given depth, the close trigger armed, nothing pending.
    pub open spec fn fresh(id: u128, address: Seq<char>, depth: nat) -> Connection {
        Connection {
            id,
            address,
            outbound: Seq::empty(),
            depth,
            armed: true,
            counter: FIRST_SEQUENCE,
            pending: Seq::empty(),
            fanout: Seq::empty(),
        }
    }

    /// The queue is within its depth and no two pending requests share id and
    /// name.
    pub open spec fn wf(self) -> bool {
        self.outbound.len() <= self.depth && distinct(self.pending)
    }

    /// The sequence number that follows, wrapping at the end of the range.
    pub open spec fn next_counter(self) -> usize {
        if self.counter == usize::MAX {
            0
        } else {
            (self.counter + 1) as usize
        }
    }

    /// The connection after it took a frame, if the queue had room for it.
    pub open spec fn enqueued(self, frame: Frame) -> Connection {
        if self.outbound.len() < self.depth {
            Connection { outbound: self.outbound.push(frame), ..self }
        } else {
            self
        }
    }

    /// The connection after a call of `close`.
    pub open spec fn closed(self) -> Connection {
        if self.armed {
            Connection { armed: false, ..self }.enqueued(Frame::Close(Some(normal_close())))
        } else {
            self
        }
    }
}

/// Taking a listener out of a table without duplicates leaves a table without
/// duplicates, in which nobody waits for what the listener waited for.
pub proof fn lemma_remove_keeps_distinct(pending: Seq<Listener>, index: int)
    requires
        distinct(pending),
        0 <= index < pending.len(),
    ensures
        distinct(pending.remove(index)),
        !awaited(pending.remove(index), pending[index].id, pending[index].name@),
{
    let rest = pending.remove(index);
    assert forall|i: int, j: int| 0 <= i < j < rest.len() implies !(#[trigger] rest[i]).awaits(
        (#[trigger] rest[j]).id,
        rest[j].name@,
    ) by {
        let a = if i < index { i } else { i + 1 };
        let b = if j < index { j } else { j + 1 };
        assert(rest[i] == pending[a]);
        assert(rest[j] == pending[b]);
        assert(!pending[a].awaits(pending[b].id, pending[b].name@));
    }
    assert forall|i: int| 0 <= i < rest.len() implies !(#[trigger] rest[i]).awaits(
        pending[index].id,
        pending[index].name@,
    ) by {
        let a = if i < index { i } else { i + 1 };
        assert(rest[i] == pending[a]);
        if a < index {
            assert(!pending[a].awaits(pending[index].id, pending[index].name@));
        } else {
            assert(!pending[index].awaits(pending[a].id, pending[a].name@));
        }
    }
}

/// Adding a listener for an id and name that nobody waits for keeps a table
/// free of duplicates.
pub proof fn lemma_push_keeps_distinct(pending: Seq<Listener>, listener: Listener)
    requires
        distinct(pending),
        !awaited(pending, listener.id, listener.name@),
    ensures
        distinct(pending.push(listener)),
{
    let more = pending.push(listener);
    assert forall|i: int, j: int| 0 <= i < j < more.len() implies !(#[trigger] more[i]).awaits(
        (#[trigger] more[j]).id,
        more[j].name@,
    ) by {
        if j < pending.len() {
            assert(!pending[i].awaits(pending[j].id, pending[j].name@));
        } else {
            assert(!pending[i].awaits(listener.id, listener.name@));
        }
    }
}

impl Client {
    /// The state of a connection whose handshake has just succeeded: an empty
    /// queue of the default depth, the close trigger armed, nothing pending.
    pub fn new(id: u128, address: String) -> (client: Client)
        ensures
            client@ == Connection::fresh(id, address@, OUTBOUND_DEPTH as nat),
    {
        Client::with_depth(id, address, OUTBOUND_DEPTH)
    }

    /// As [`Client::new`], with an outbound queue of the given depth.
    pub fn with_depth(id: u128, address: String, depth: usize) -> (client: Client)
        ensures
            client@ == Connection::fresh(id, address@, depth as nat),
    {
        let client = Client {
            id,
            address,
            outbound: Vec::new(),
            depth,
            armed: true,
            counter: FIRST_SEQUENCE,
            listeners: Vec::new(),
            fanout: Vec::new(),
        };
        assert(client@.outbound =~= Seq::empty());
        assert(client@.fanout =~= Seq::empty());
        assert(client@.pending =~= Seq::empty());
        client
    }

    pub fn id(&self) -> (id: u128)
        ensures
            id == self@.id,
    {
        self.id
    }

    pub fn address(&self) -> (address: &String)
        ensures
            address@ == self@.address,
    {
        &self.address
    }

    /// Whether the close trigger is still to be taken.
    pub fn is_open(&self) -> (armed: bool)
        ensures
            armed == self@.armed,
    {
        self.armed
    }

    /// How many frames the outbound queue holds at most.
    pub fn depth(&self) -> (depth: usize)
        ensures
            depth == self@.depth,
    {
        self.depth
    }

    /// How many frames wait for the sink.
    pub fn queued(&self) -> (n: usize)
        ensures
            n == self@.outbound.len(),
    {
        self.outbound.len()
    }

    /// Puts a frame on the outbound queue. A full queue refuses it with a
    /// transport error and stays as it is; nothing is dropped in silence.
    pub fn enqueue(&mut self, frame: OwnedMessage) -> (out: JuntaResult<()>)
        ensures
            final(self)@ == old(self)@.enqueued(frame@),
            out is Ok <==> old(self)@.outbound.len() < old(self)@.depth,
            out matches Err(error) ==> error.is_transport(queue_full()),
    {
        if self.outbound.len() < self.depth {
            self.outbound.push(frame);
            assert(final(self)@.outbound =~= old(self)@.outbound.push(frame@));
            Ok(())
        } else {
            Err(JuntaError::transport("outbound queue full"))
        }
    }

    /// Puts a data frame with the given content on the outbound queue.
    pub fn send(&mut self, msg: MessageContent) -> (out: JuntaResult<()>)
        ensures
            final(self)@ == old(self)@.enqueued(msg@.frame()),
            out is Ok <==> old(self)@.outbound.len() < old(self)@.depth,
            out matches Err(error) ==> error.is_transport(queue_full()),
    {
        self.enqueue(msg.to_message())
    }

    /// Takes the close trigger and puts a normal-close frame on the outbound
    /// queue. Only the first call does so; every later call succeeds at once
    /// and changes nothing.
    pub fn close(&mut self) -> (out: JuntaResult<()>)
        ensures
            final(self)@ == old(self)@.closed(),
            out is Ok <==> !old(self)@.armed || old(self)@.outbound.len() < old(self)@.depth,
            out matches Err(error) ==> error.is_transport(queue_full()),
    {
        if !self.armed {
            return Ok(());
        }
        self.armed = false;
        self.enqueue(OwnedMessage::Close(Some(CloseData::new(NORMAL_CLOSURE, "NORMAL".to_owned()))))
    }

    /// Hands out the next sequence number of this connection.
    pub fn next_seq(&mut self) -> (seq: usize)
        ensures
            seq == old(self)@.counter,
            final(self)@ == (Connection { counter: old(self)@.next_counter(), ..old(self)@ }),
    {
        let seq = self.counter;
        self.counter = if seq == usize::MAX {
            0
        } else {
            seq + 1
        };
        seq
    }

    /// Asks the server to hand the message to every other registered
    /// connection. The asking always succeeds; the fanout itself is best
    /// effort.
    pub fn broadcast(&mut self, msg: MessageContent) -> (out: JuntaResult<()>)
        ensures
            out is Ok,
            final(self)@ == (Connection {
                fanout: old(self)@.fanout.push(Spread { reach: Reach::Others, message: msg@ }),
                ..old(self)@
            }),
    {
        self.fanout.push(Fanout { reach: Reach::Others, message: msg });
        assert(final(self)@.fanout =~= old(self)@.fanout.push(
            Spread { reach: Reach::Others, message: msg@ },
        ));
        Ok(())
    }

    /// Asks the server to hand the message to every registered connection,
    /// this one included.
    pub fn send_all(&mut self, msg: MessageContent) -> (out: JuntaResult<()>)
        ensures
            out is Ok,
            final(self)@ == (Connection {
                fanout: old(self)@.fanout.push(Spread { reach: Reach::All, message: msg@ }),
                ..old(self)@
            }),
    {
        self.fanout.push(Fanout { reach: Reach::All, message: msg });
        assert(final(self)@.fanout =~= old(self)@.fanout.push(
            Spread { reach: Reach::All, message: msg@ },
        ));
        Ok(())
    }

    /// Asks the server to hand the message to the registered connection with
    /// the given id. The asking always succeeds; the message reaches nobody
    /// where no such connection is registered when the server carries the
    /// asking out.
    pub fn send_to(&mut self, id: u128, msg: MessageContent) -> (out: JuntaResult<()>)
        ensures
            out is Ok,
            final(self)@ == (Connection {
                fanout: old(self)@.fanout.push(Spread { reach: Reach::One(id), message: msg@ }),
                ..old(self)@
            }),
    {
        self.fanout.push(Fanout { reach: Reach::One(id), message: msg });
        assert(final(self)@.fanout =~= old(self)@.fanout.push(
            Spread { reach: Reach::One(id), message: msg@ },
        ));
        Ok(())
    }

    /// Takes the frames that wait for the sink, oldest first.
    pub fn drain(&mut self) -> (taken: Vec<OwnedMessage>)
        ensures
            frames(taken@) == old(self)@.outbound,
            final(self)@ == (Connection { outbound: Seq::empty(), ..old(self)@ }),
    {
        let mut taken: Vec<OwnedMessage> = Vec::new();
        core::mem::swap(&mut self.outbound, &mut taken);
        assert(final(self)@.outbound =~= Seq::empty());
        taken
    }

    /// Takes the requests for fanout that were recorded, oldest first.
    pub fn take_fanout(&mut self) -> (taken: Vec<Fanout>)
        ensures
            spreads(taken@) == old(self)@.fanout,
            final(self)@ == (Connection { fanout: Seq::empty(), ..old(self)@ }),
    {
        let mut taken: Vec<Fanout> = Vec::new();
        core::mem::swap(&mut self.fanout, &mut taken);
        assert(final(self)@.fanout =~= Seq::empty());
        taken
    }

    /// Tells whether a request with this id and name is outstanding.
    pub fn is_pending(&self, id: usize, name: &str) -> (b: bool)
        ensures
            b == awaited(self@.pending, id, name@),
    {
        position(&self.listeners, id, name).is_some()
    }

    /// Records an outstanding request. Refused, with the listener handed
    /// back, where a request of the same id and name is outstanding already.
    pub fn listen(&mut self, listener: Listener) -> (out: Result<(), Listener>)
        ensures
            match out {
                Ok(_) => !awaited(old(self)@.pending, listener.id, listener.name@) && final(self)@ == (
                Connection { pending: old(self)@.pending.push(listener), ..old(self)@ }),
                Err(back) => awaited(old(self)@.pending, listener.id, listener.name@) && back
                    == listener && final(self)@ == old(self)@,
            },
            old(self)@.wf() ==> final(self)@.wf(),
    {
        proof {
            if old(self)@.wf() && !awaited(old(self)@.pending, listener.id, listener.name@) {
                lemma_push_keeps_distinct(old(self)@.pending, listener);
            }
        }
        if position(&self.listeners, listener.id, listener.name.as_str()).is_some() {
            return Err(listener);
        }
        self.listeners.push(listener);
        Ok(())
    }

    /// Removes the outstanding request with this id and name and hands it
    /// out, whether or not its waiter is still there.
    pub fn unlisten(&mut self, id: usize, name: &str) -> (out: Option<Listener>)
        ensures
            match out {
                Some(listener) => exists|index: int|
                    0 <= index < old(self)@.pending.len() && old(self)@.pending[index] == listener
                        && listener.awaits(id, name@) && final(self)@ == (Connection {
                        pending: old(self)@.pending.remove(index),
                        ..old(self)@
                    }),
                None => !awaited(old(self)@.pending, id, name@) && final(self)@ == old(self)@,
            },
            old(self)@.wf() ==> final(self)@.wf() && !awaited(final(self)@.pending, id, name@),
    {
        match position(&self.listeners, id, name) {
            Some(index) => {
                let listener = self.listeners.remove(index);
                assert(final(self)@.pending =~= old(self)@.pending.remove(index as int));
                proof {
                    if old(self)@.wf() {
                        lemma_remove_keeps_distinct(old(self)@.pending, index as int);
                    }
                }
                Some(listener)
            },
            None => None,
        }
    }

    /// Drops every outstanding request, as the close of the connection does.
    /// The waiters then learn that their resolver is gone.
    pub fn forget_pending(&mut self) -> (dropped: usize)
        ensures
            dropped == old(self)@.pending.len(),
            final(self)@ == (Connection { pending: Seq::empty(), ..old(self)@ }),
    {
        let dropped = self.listeners.len();
        self.listeners.clear();
        assert(final(self)@.pending =~= Seq::empty());
        dropped
    }
}

} // verus!
