//! The arm that matches inbound responses against the outstanding requests
//! of this side.
use vstd::prelude::*;
use crate::client::{Client, Connection};
use crate::context::{BorrowedContext, ChildContext, Scene};
use crate::error::{JuntaError, JuntaResult};
use crate::event::{Envelope, Event, EventType, Kind};
use crate::message::{ClientEvent, Occurrence};
use crate::protocol::{awaited, Protocol, Reply};

verus! {

/// The message of the error for an event that is no response.
pub open spec fn invalid_response() -> Seq<char> {
    "invalid response"@
}

/// What became of a response.
pub enum Settled {
    /// The waiter got the reply.
    Delivered,
    /// The request was outstanding, and its waiter had lost interest. The
    /// reply is handed back.
    Unclaimed(Reply),
    /// No request of this id and name was outstanding.
    Unmatched(Reply),
}

/// Takes the request with this id and name from the table of the connection
/// and hands the reply to its waiter. The entry leaves the table whether or
/// not the waiter is still there.
pub fn settle(client: &mut Client, id: usize, name: &str, reply: Reply) -> (settled: Settled)
    ensures
        match settled {
            Settled::Unmatched(back) => back == reply && !awaited(old(client)@.pending, id, name@)
                && final(client)@ == old(client)@,
            Settled::Unclaimed(back) => back == reply && taken(
                old(client)@,
                id,
                name@,
                final(client)@,
            ),
            Settled::Delivered => taken(old(client)@, id, name@, final(client)@),
        },
        old(client)@.wf() ==> final(client)@.wf() && !awaited(final(client)@.pending, id, name@),
{
    match client.unlisten(id, name) {
        Some(listener) => match listener.deliver(reply) {
            Ok(_) => Settled::Delivered,
            Err(back) => Settled::Unclaimed(back),
        },
        None => Settled::Unmatched(reply),
    }
}

/// The connection after the request with this id and name left its table:
/// some listener that waited for them is gone, and nothing else has changed.
pub open spec fn taken(before: Connection, id: usize, name: Seq<char>, after: Connection) -> bool {
    exists|index: int|
        0 <= index < before.pending.len() && (#[trigger] before.pending[index]).awaits(id, name)
            && after == (Connection { pending: before.pending.remove(index), ..before })
}

/// The connection after a response with this id and name was dealt with.
pub open spec fn answered(before: Connection, id: usize, name: Seq<char>, after: Connection) -> bool {
    if awaited(before.pending, id, name) {
        taken(before, id, name, after)
    } else {
        after == before
    }
}

/// An outstanding request is resolved by the response that carries its id and
/// its name, and by no other response: after a response was dealt with, a
/// request that was outstanding still is exactly if the response was not its
/// own.
pub proof fn lemma_resolved_by_matching_response(
    before: Connection,
    response_id: usize,
    response_name: Seq<char>,
    after: Connection,
    id: usize,
    name: Seq<char>,
)
    requires
        before.wf(),
        awaited(before.pending, id, name),
        answered(before, response_id, response_name, after),
    ensures
        awaited(after.pending, id, name) <==> !(response_id == id && response_name == name),
        after.wf(),
{
    if awaited(before.pending, response_id, response_name) {
        let index = choose|index: int|
            0 <= index < before.pending.len() && (#[trigger] before.pending[index]).awaits(
                response_id,
                response_name,
            ) && after == (Connection { pending: before.pending.remove(index), ..before });
        crate::client::lemma_remove_keeps_distinct(before.pending, index);
        let mine = choose|i: int|
            0 <= i < before.pending.len() && (#[trigger] before.pending[i]).awaits(id, name);
        if !(response_id == id && response_name == name) {
            assert(mine != index);
            let moved = if mine < index { mine } else { mine - 1 };
            assert(after.pending[moved] == before.pending[mine]);
            assert(after.pending[moved].awaits(id, name));
        }
    }
}

/// The close of a connection resolves every outstanding request: nobody
/// waits for anything on a connection that is gone.
pub proof fn lemma_resolved_by_close(left: Connection, id: usize, name: Seq<char>)
    ensures
        !awaited(crate::server::gone(left).pending, id, name),
{
}

/// The arm that resolves the waiters of outstanding requests.
pub struct ResponseProtocol;

impl Protocol for ResponseProtocol {
    open spec fn ready(&self) -> bool {
        true
    }

    /// The arm takes a response whose id and name are those of an
    /// outstanding request, and nothing else.
    open spec fn accepts(&self, origin: Scene<Occurrence>, event: Envelope) -> bool {
        match event.kind {
            Kind::Res(name, _) => awaited(origin.client.pending, event.id, name),
            _ => false,
        }
    }

    /// A response takes the matching request from the table, if there is
    /// one, and succeeds either way. Any other event fails and changes
    /// nothing.
    open spec fn executes(
        &self,
        origin: Scene<Occurrence>,
        event: Envelope,
        after: Connection,
        out: JuntaResult<()>,
    ) -> bool {
        match event.kind {
            Kind::Res(name, _) => out is Ok && answered(origin.client, event.id, name, after),
            _ => after == origin.client && out is Err && out->Err_0.is_unknown(invalid_response()),
        }
    }

    fn execute(&self, ctx: ChildContext<ClientEvent, Event>) -> (done: (Client, JuntaResult<()>)) {
        let (parent, event) = ctx.into_parts();
        let mut client = parent.into_client();
        match event.event_type {
            EventType::Res(name, data) => {
                let _ = settle(&mut client, event.id, name.as_str(), data);
                (client, Ok(()))
            },
            _ => (client, Err(JuntaError::unknown("invalid response"))),
        }
    }

    fn check(&self, ctx: &BorrowedContext<ClientEvent, Event>) -> (b: bool) {
        match &ctx.message().event_type {
            EventType::Res(name, _) => ctx.client().is_pending(ctx.message().id, name.as_str()),
            _ => false,
        }
    }
}

} // verus!
