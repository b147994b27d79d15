//! Requests that this side sends to the peer of a connection.
use vstd::prelude::*;
use crate::client::{already_pending, queue_full, Connection};
use crate::context::Context;
use crate::error::{JuntaError, JuntaResult};
use crate::event::{Envelope, Event, EventType, Kind};
use crate::protocol::{awaited, Listener, Waiter};
use crate::value::{encoded, refused, Payload, Tree};

verus! {

/// The request that goes out under an id and a name.
pub open spec fn request_event(id: usize, name: Seq<char>, value: Tree) -> Envelope {
    Envelope { id, kind: Kind::Req(name, value) }
}

/// What asking the peer leads to.
///
/// The request takes the next sequence number of the connection as its id,
/// whether or not it goes out. It goes out if nobody waits for the same id
/// and name already, if it encodes, and if the outbound queue has room: then
/// its frame joins the queue, and a listener for the id and the name joins
/// the pending requests. Else the asking fails, and neither the queue nor the
/// pending requests change.
pub open spec fn requested(
    before: Connection,
    name: Seq<char>,
    value: Tree,
    binary: bool,
    after: Connection,
    asked: bool,
) -> bool {
    let id = before.counter;
    let numbered = Connection { counter: before.next_counter(), ..before };
    match encoded(request_event(id, name, value).tree(), binary) {
        Some(content) => if !awaited(before.pending, id, name) && before.outbound.len()
            < before.depth {
            asked && exists|listener: Listener|
                #[trigger] listener.awaits(id, name) && after == (Connection {
                    pending: numbered.pending.push(listener),
                    outbound: numbered.outbound.push(content.frame()),
                    ..numbered
                })
        } else {
            !asked && after == numbered
        },
        None => !asked && after == numbered,
    }
}

/// Why asking failed: somebody waits for the same id and name already, or the
/// request does not encode, which is an encoding error, or the outbound queue
/// is full.
pub open spec fn request_failure(
    before: Connection,
    name: Seq<char>,
    value: Tree,
    binary: bool,
    error: JuntaError,
) -> bool {
    let tree = request_event(before.counter, name, value).tree();
    if awaited(before.pending, before.counter, name) {
        error.is_unknown(already_pending())
    } else if encoded(tree, binary) is None {
        refused(tree, binary, error)
    } else {
        error.is_transport(queue_full())
    }
}

/// Asking, for every context.
pub trait ContextExt {
    /// The connection that the context holds.
    spec fn connection(&self) -> Connection;

    /// Whether replies go out as binary frames.
    spec fn replies_binary(&self) -> bool;

    /// Sends a request with the given name and value to the peer, and hands
    /// out the waiter that the matching response will resolve: see
    /// [`requested`]. The waiter learns that its resolver is gone if the
    /// connection closes first.
    fn request(&mut self, name: &str, data: &Payload) -> (out: JuntaResult<Waiter>)
        ensures
            requested(
                old(self).connection(),
                name@,
                data@,
                old(self).replies_binary(),
                final(self).connection(),
                out is Ok,
            ),
            out matches Err(error) ==> request_failure(
                old(self).connection(),
                name@,
                data@,
                old(self).replies_binary(),
                error,
            ),
            final(self).replies_binary() == old(self).replies_binary(),
            old(self).connection().wf() ==> final(self).connection().wf(),
    ;
}

impl<I> ContextExt for Context<I> {
    open spec fn connection(&self) -> Connection {
        self@.client
    }

    open spec fn replies_binary(&self) -> bool {
        self@.binary
    }

    fn request(&mut self, name: &str, data: &Payload) -> (out: JuntaResult<Waiter>) {
        let id = self.next_seq();
        let ghost numbered = self@.client;
        if self.is_pending(id, name) {
            return Err(JuntaError::unknown("request already pending"));
        }
        let event = Event::new(id, EventType::Req(name.to_owned(), data.duplicate()));
        let content = match event.encode(self.binary()) {
            Ok(content) => content,
            Err(error) => { return Err(error); },
        };
        if self.client().queued() >= self.client().depth() {
            return Err(JuntaError::transport("outbound queue full"));
        }
        let (listener, waiter) = Listener::new(id, name.to_owned());
        let _ = self.listen(listener);
        let _ = self.send_raw(content);
        assert(listener.awaits(id, name@));
        Ok(waiter)
    }
}

} // verus!
