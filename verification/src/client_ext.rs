//! Sending payloads, encoded, over a connection.
use vstd::prelude::*;
use crate::client::{queue_full, Client, Connection};
use crate::error::JuntaResult;
use crate::value::{encoded, refused, Payload, Tree};

verus! {

/// What sending a payload to the peer of a connection leads to, in the
/// encoding given: the frame joins the outbound queue if the payload encodes
/// and the queue has room, and else nothing changes and the sending fails.
pub open spec fn sent_as(
    before: Connection,
    tree: Tree,
    binary: bool,
    after: Connection,
    out: JuntaResult<()>,
) -> bool {
    match encoded(tree, binary) {
        Some(content) => after == before.enqueued(content.frame()) && (out is Ok
            <==> before.outbound.len() < before.depth) && (out matches Err(error)
            ==> error.is_transport(queue_full())),
        None => after == before && out is Err && refused(tree, binary, out->Err_0),
    }
}

/// Sending in a chosen encoding, for a connection.
pub trait ClientExt {
    /// The connection.
    spec fn connection(&self) -> Connection;

    /// Encodes the payload as JSON and puts it on the outbound queue as a
    /// text frame.
    fn send_text(&mut self, data: &Payload) -> (out: JuntaResult<()>)
        ensures
            sent_as(old(self).connection(), data@, false, final(self).connection(), out),
    ;

    /// Encodes the payload as CBOR and puts it on the outbound queue as a
    /// binary frame.
    fn send_binary(&mut self, data: &Payload) -> (out: JuntaResult<()>)
        ensures
            sent_as(old(self).connection(), data@, true, final(self).connection(), out),
    ;
}

impl ClientExt for Client {
    open spec fn connection(&self) -> Connection {
        self@
    }

    fn send_text(&mut self, data: &Payload) -> (out: JuntaResult<()>) {
        match data.encode(false) {
            Ok(content) => self.send(content),
            Err(error) => Err(error),
        }
    }

    fn send_binary(&mut self, data: &Payload) -> (out: JuntaResult<()>) {
        match data.encode(true) {
            Ok(content) => self.send(content),
            Err(error) => Err(error),
        }
    }
}

} // verus!
