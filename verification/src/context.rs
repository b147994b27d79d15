//! The value that travels through the pipeline with each event: the
//! connection that raised it, the payload, and whether the frame was binary.
use vstd::prelude::*;
use crate::client::{queue_full, Client, Connection};
use crate::error::{JuntaError, JuntaResult};
use crate::extensions::{has_key, lookup, put, Bag, Extensions};
use crate::message::{ClientEvent, Content, MessageContent, Occurrence};
use crate::protocol::{awaited, Listener};
use crate::value::{encoded, reading, refused, unread, Payload, Tree};

verus! {

/// The message of the error for decoding an event that carries no content.
pub open spec fn invalid() -> Seq<char> {
    "invalid"@
}

/// What a handler may know of another connection: its id and the address of
/// its peer.
#[derive(Debug, PartialEq, Eq)]
pub struct Peer {
    pub id: u128,
    pub address: String,
}

impl View for Peer {
    type V = (u128, Seq<char>);

    open spec fn view(&self) -> (u128, Seq<char>) {
        (self.id, self.address@)
    }
}

/// The peers of a list, as mathematical values.
pub open spec fn peer_views(peers: Seq<Peer>) -> Seq<(u128, Seq<char>)> {
    Seq::new(peers.len(), |i: int| peers[i]@)
}

/// An event on its way through the pipeline. The context holds the state of
/// the connection for as long as the event is being handled.
pub struct Context<I> {
    client: Client,
    extensions: Extensions,
    peers: Vec<Peer>,
    message: I,
    binary: bool,
}

/// The mathematical value of a [`Context`].
pub struct Scene<I> {
    /// The connection that raised the event.
    pub client: Connection,
    /// The payload.
    pub message: I,
    /// True iff the frame of the event was binary.
    pub binary: bool,
    /// What earlier stages left for later ones.
    pub extensions: Bag,
    /// The other connections of the registry, as they were when the event was
    /// handed over: the id and the address of each.
    pub peers: Seq<(u128, Seq<char>)>,
}

impl<I> View for Context<I> {
    type V = Scene<I>;

    closed spec fn view(&self) -> Scene<I> {
        Scene {
            client: self.client@,
            message: self.message,
            binary: self.binary,
            extensions: self.extensions@,
            peers: peer_views(self.peers@),
        }
    }
}

impl Occurrence {
    /// True for a binary data frame.
    pub open spec fn is_binary(self) -> bool {
        self matches Occurrence::Message(Content::Binary(_))
    }
}

impl Context<ClientEvent> {
    /// The context of an event that the connection raises. The binary flag is
    /// set for a binary data frame and for nothing else.
    pub fn new(client: Client, message: ClientEvent) -> (ctx: Context<ClientEvent>)
        ensures
            ctx@ == (Scene {
                client: client@,
                message,
                binary: message@.is_binary(),
                extensions: Seq::empty(),
                peers: Seq::empty(),
            }),
    {
        let binary = match &message {
            ClientEvent::Message(MessageContent::Binary(_)) => true,
            _ => false,
        };
        let ctx = Context { client, extensions: Extensions::new(), peers: Vec::new(), message, binary };
        assert(ctx@.peers =~= Seq::empty());
        ctx
    }

    /// Decodes the content of the data frame as a payload.
    pub fn decode(&self) -> (out: JuntaResult<Payload>)
        ensures
            match out {
                Ok(payload) => self@.message@ is Message && reading(self@.message@->Message_0)
                    == Ok::<Option<Tree>, ()>(Some(payload@)),
                Err(error) => match self@.message@ {
                    Occurrence::Message(content) => !(reading(content) matches Ok(Some(_))) && unread(content, error),
                    _ => error.is_unknown(invalid()),
                },
            },
    {
        decode_event(&self.message)
    }
}

/// Decodes the content of an event as a payload: CBOR for a binary frame,
/// JSON for a text frame. An event that carries no content does not decode.
pub fn decode_event(event: &ClientEvent) -> (out: JuntaResult<Payload>)
    ensures
        match out {
            Ok(payload) => event@ is Message && reading(event@->Message_0) == Ok::<Option<Tree>, ()>(
                Some(payload@),
            ),
            Err(error) => match event@ {
                Occurrence::Message(content) => !(reading(content) matches Ok(Some(_))) && unread(content, error),
                _ => error.is_unknown(invalid()),
            },
        },
{
    match event {
        ClientEvent::Message(content) => Payload::decode(content),
        _ => Err(JuntaError::unknown("invalid")),
    }
}

impl Context<MessageContent> {
    /// Decodes the content as a payload.
    pub fn decode(&self) -> (out: JuntaResult<Payload>)
        ensures
            match out {
                Ok(payload) => reading(self@.message@) == Ok::<Option<Tree>, ()>(Some(payload@)),
                Err(error) => !(reading(self@.message@) matches Ok(Some(_))) && unread(self@.message@, error),
            },
    {
        Payload::decode(&self.message)
    }
}

impl<I: View> Context<I> {
    /// The scene with the payload as a mathematical value.
    pub open spec fn scene(&self) -> Scene<I::V> {
        Scene {
            client: self@.client,
            message: self@.message@,
            binary: self@.binary,
            extensions: self@.extensions,
            peers: self@.peers,
        }
    }
}

impl<I> Context<I> {
    pub fn message(&self) -> (message: &I)
        ensures
            *message == self@.message,
    {
        &self.message
    }

    pub fn into_message(self) -> (message: I)
        ensures
            message == self@.message,
    {
        self.message
    }

    /// Swaps the payload for another one. The connection and the binary flag
    /// stay as they are; the old payload is handed out.
    pub fn with_message<S>(self, message: S) -> (out: (Context<S>, I))
        ensures
            out.0@ == (Scene {
                client: self@.client,
                message,
                binary: self@.binary,
                extensions: self@.extensions,
                peers: self@.peers,
            }),
            out.1 == self@.message,
    {
        let value = self.message;
        (
            Context {
                client: self.client,
                extensions: self.extensions,
                peers: self.peers,
                message,
                binary: self.binary,
            },
            value,
        )
    }

    pub fn client(&self) -> (client: &Client)
        ensures
            client@ == self@.client,
    {
        &self.client
    }

    /// Ends the handling: the state of the connection is handed back.
    pub fn into_client(self) -> (client: Client)
        ensures
            client@ == self@.client,
    {
        self.client
    }

    /// Takes the context apart.
    pub fn into_parts(self) -> (parts: (Client, I))
        ensures
            parts.0@ == self@.client,
            parts.1 == self@.message,
    {
        (self.client, self.message)
    }

    /// Puts the state of a connection and a payload together again, with the
    /// binary flag given and an empty extension bag.
    pub fn from_parts(client: Client, message: I, binary: bool) -> (ctx: Context<I>)
        ensures
            ctx@ == (Scene {
                client: client@,
                message,
                binary,
                extensions: Seq::empty(),
                peers: Seq::empty(),
            }),
    {
        let ctx = Context { client, extensions: Extensions::new(), peers: Vec::new(), message, binary };
        assert(ctx@.peers =~= Seq::empty());
        ctx
    }

    /// The same context among the given connections: what the handler may
    /// look up of the others.
    pub fn among(self, peers: Vec<Peer>) -> (ctx: Context<I>)
        ensures
            ctx@ == (Scene { peers: peer_views(peers@), ..self@ }),
    {
        Context {
            client: self.client,
            extensions: self.extensions,
            peers,
            message: self.message,
            binary: self.binary,
        }
    }

    /// The other connections of the registry, as they were when the event
    /// was handed over.
    pub fn peers(&self) -> (peers: &Vec<Peer>)
        ensures
            peer_views(peers@) == self@.peers,
    {
        &self.peers
    }

    /// Looks another connection up by its id.
    pub fn peer(&self, id: u128) -> (found: Option<&Peer>)
        ensures
            match found {
                Some(peer) => peer.id == id && exists|i: int|
                    0 <= i < self@.peers.len() && #[trigger] self@.peers[i] == peer@,
                None => forall|i: int| 0 <= i < self@.peers.len() ==> (#[trigger] self@.peers[i]).0 != id,
            },
    {
        let mut index: usize = 0;
        while index < self.peers.len()
            invariant
                index <= self.peers.len(),
                forall|i: int| 0 <= i < index ==> (#[trigger] self@.peers[i]).0 != id,
            decreases self.peers.len() - index,
        {
            if self.peers[index].id == id {
                let peer = &self.peers[index];
                assert(self@.peers[index as int] == peer@);
                return Some(peer);
            }
            index += 1;
        }
        None
    }

    /// Asks for the message to be handed to the registered connection with
    /// the given id: see [`Client::send_to`].
    pub fn send_to(&mut self, id: u128, msg: MessageContent) -> (out: JuntaResult<()>)
        ensures
            out is Ok,
            final(self)@ == (Scene {
                client: Connection {
                    fanout: old(self)@.client.fanout.push(
                        crate::client::Spread { reach: crate::client::Reach::One(id), message: msg@ },
                    ),
                    ..old(self)@.client
                },
                ..old(self)@
            }),
    {
        self.client.send_to(id, msg)
    }

    /// The extension bag.
    pub fn extensions(&self) -> (bag: &Extensions)
        ensures
            bag@ == self@.extensions,
    {
        &self.extensions
    }

    /// The value that an earlier stage left under a key.
    pub fn extension(&self, key: &str) -> (found: Option<&Payload>)
        ensures
            match found {
                Some(value) => lookup(self@.extensions, key@) == Some(value@),
                None => lookup(self@.extensions, key@) is None,
            },
            found is Some <==> has_key(self@.extensions, key@),
    {
        self.extensions.get(key)
    }

    /// Leaves a value under a key for the stages that follow. The bag only
    /// grows: see [`crate::extensions::lemma_put`]. `true` where the key is
    /// new to the bag.
    pub fn extend(&mut self, key: &str, value: Payload) -> (fresh: bool)
        ensures
            final(self)@.client == old(self)@.client,
            final(self)@.message == old(self)@.message,
            final(self)@.binary == old(self)@.binary,
            final(self)@.peers == old(self)@.peers,
            final(self)@.extensions == put(old(self)@.extensions, key@, value@),
            fresh == !has_key(old(self)@.extensions, key@),
    {
        self.extensions.insert(key, value)
    }

    /// True iff the originating frame was binary.
    pub fn binary(&self) -> (binary: bool)
        ensures
            binary == self@.binary,
    {
        self.binary
    }

    /// Encodes a payload as CBOR content.
    pub fn encode_binary(&self, data: &Payload) -> (out: JuntaResult<MessageContent>)
        ensures
            match out {
                Ok(content) => encoded(data@, true) == Some(content@),
                Err(error) => encoded(data@, true) is None && refused(data@, true, error),
            },
    {
        data.encode(true)
    }

    /// Encodes a payload as JSON content.
    pub fn encode_text(&self, data: &Payload) -> (out: JuntaResult<MessageContent>)
        ensures
            match out {
                Ok(content) => encoded(data@, false) == Some(content@),
                Err(error) => encoded(data@, false) is None && refused(data@, false, error),
            },
    {
        data.encode(false)
    }

    /// Puts content on the outbound queue of the connection.
    pub fn send_raw(&mut self, msg: MessageContent) -> (out: JuntaResult<()>)
        ensures
            final(self)@ == (Scene { client: old(self)@.client.enqueued(msg@.frame()), ..old(self)@ }),
            out is Ok <==> old(self)@.client.outbound.len() < old(self)@.client.depth,
            out matches Err(error) ==> error.is_transport(queue_full()),
    {
        self.client.send(msg)
    }

    /// Encodes a payload in the encoding of the originating frame, binary for
    /// binary and text for text, and puts it on the outbound queue of the
    /// connection. Where the payload does not encode, nothing is sent.
    pub fn send(&mut self, data: &Payload) -> (out: JuntaResult<()>)
        ensures
            match encoded(data@, old(self)@.binary) {
                Some(content) => final(self)@ == (Scene {
                    client: old(self)@.client.enqueued(content.frame()),
                    ..old(self)@
                }) && (out is Ok <==> old(self)@.client.outbound.len() < old(self)@.client.depth)
                    && (out matches Err(error) ==> error.is_transport(queue_full())),
                None => final(self)@ == old(self)@ && out is Err && refused(
                    data@,
                    old(self)@.binary,
                    out->Err_0,
                ),
            },
    {
        match data.encode(self.binary) {
            Ok(content) => self.client.send(content),
            Err(error) => Err(error),
        }
    }

    /// Hands out the next sequence number of the connection: see
    /// [`Client::next_seq`].
    pub fn next_seq(&mut self) -> (seq: usize)
        ensures
            seq == old(self)@.client.counter,
            final(self)@ == (Scene {
                client: Connection { counter: old(self)@.client.next_counter(), ..old(self)@.client },
                ..old(self)@
            }),
    {
        self.client.next_seq()
    }

    /// Tells whether a request with this id and name is outstanding.
    pub fn is_pending(&self, id: usize, name: &str) -> (b: bool)
        ensures
            b == awaited(self@.client.pending, id, name@),
    {
        self.client.is_pending(id, name)
    }

    /// Records an outstanding request: see [`Client::listen`].
    pub fn listen(&mut self, listener: Listener) -> (out: Result<(), Listener>)
        ensures
            match out {
                Ok(_) => !awaited(old(self)@.client.pending, listener.id, listener.name@)
                    && final(self)@ == (Scene {
                    client: Connection {
                        pending: old(self)@.client.pending.push(listener),
                        ..old(self)@.client
                    },
                    ..old(self)@
                }),
                Err(back) => awaited(old(self)@.client.pending, listener.id, listener.name@) && back
                    == listener && final(self)@ == old(self)@,
            },
            old(self)@.client.wf() ==> final(self)@.client.wf(),
    {
        self.client.listen(listener)
    }

    /// Removes an outstanding request and hands it out: see
    /// [`Client::unlisten`].
    pub fn unlisten(&mut self, id: usize, name: &str) -> (out: Option<Listener>)
        ensures
            match out {
                Some(listener) => exists|index: int|
                    0 <= index < old(self)@.client.pending.len() && old(self)@.client.pending[index]
                        == listener && listener.awaits(id, name@) && final(self)@ == (Scene {
                        client: Connection {
                            pending: old(self)@.client.pending.remove(index),
                            ..old(self)@.client
                        },
                        ..old(self)@
                    }),
                None => !awaited(old(self)@.client.pending, id, name@) && final(self)@ == old(self)@,
            },
            old(self)@.client.wf() ==> final(self)@.client.wf() && !awaited(
                final(self)@.client.pending,
                id,
                name@,
            ),
    {
        self.client.unlisten(id, name)
    }

    /// Takes the close trigger of the connection: see [`Client::close`].
    pub fn close(&mut self) -> (out: JuntaResult<()>)
        ensures
            final(self)@ == (Scene { client: old(self)@.client.closed(), ..old(self)@ }),
            out is Ok <==> !old(self)@.client.armed || old(self)@.client.outbound.len() < old(
                self,
            )@.client.depth,
            out matches Err(error) ==> error.is_transport(queue_full()),
    {
        self.client.close()
    }

    /// Asks for the message to be handed to every other registered
    /// connection: see [`Client::broadcast`].
    pub fn broadcast(&mut self, msg: MessageContent) -> (out: JuntaResult<()>)
        ensures
            out is Ok,
            final(self)@ == (Scene {
                client: Connection {
                    fanout: old(self)@.client.fanout.push(
                        crate::client::Spread { reach: crate::client::Reach::Others, message: msg@ },
                    ),
                    ..old(self)@.client
                },
                ..old(self)@
            }),
    {
        self.client.broadcast(msg)
    }

    /// Asks for the message to be handed to every registered connection: see
    /// [`Client::send_all`].
    pub fn send_all(&mut self, msg: MessageContent) -> (out: JuntaResult<()>)
        ensures
            out is Ok,
            final(self)@ == (Scene {
                client: Connection {
                    fanout: old(self)@.client.fanout.push(
                        crate::client::Spread { reach: crate::client::Reach::All, message: msg@ },
                    ),
                    ..old(self)@.client
                },
                ..old(self)@
            }),
    {
        self.client.send_all(msg)
    }
}

/// A context together with what was decoded from its payload.
pub struct ChildContext<I, M> {
    ctx: Context<I>,
    msg: M,
}

impl<I, M> ChildContext<I, M> {
    /// The context that the decoded message came from.
    pub closed spec fn origin(&self) -> Scene<I> {
        self.ctx@
    }

    /// The decoded message.
    pub closed spec fn decoded(&self) -> M {
        self.msg
    }

    pub fn new(ctx: Context<I>, msg: M) -> (child: ChildContext<I, M>)
        ensures
            child.origin() == ctx@,
            child.decoded() == msg,
    {
        ChildContext { ctx, msg }
    }

    pub fn parent(&self) -> (ctx: &Context<I>)
        ensures
            ctx@ == self.origin(),
    {
        &self.ctx
    }

    pub fn into_parent(self) -> (ctx: Context<I>)
        ensures
            ctx@ == self.origin(),
    {
        self.ctx
    }

    /// Takes the child apart.
    pub fn into_parts(self) -> (parts: (Context<I>, M))
        ensures
            parts.0@ == self.origin(),
            parts.1 == self.decoded(),
    {
        (self.ctx, self.msg)
    }

    pub fn message(&self) -> (msg: &M)
        ensures
            *msg == self.decoded(),
    {
        &self.msg
    }

    pub fn client(&self) -> (client: &Client)
        ensures
            client@ == self.origin().client,
    {
        self.ctx.client()
    }

    pub fn binary(&self) -> (binary: bool)
        ensures
            binary == self.origin().binary,
    {
        self.ctx.binary()
    }

    /// Encodes a payload as CBOR content.
    pub fn encode_binary(&self, data: &Payload) -> (out: JuntaResult<MessageContent>)
        ensures
            match out {
                Ok(content) => encoded(data@, true) == Some(content@),
                Err(error) => encoded(data@, true) is None && refused(data@, true, error),
            },
    {
        data.encode(true)
    }

    /// Encodes a payload as JSON content.
    pub fn encode_text(&self, data: &Payload) -> (out: JuntaResult<MessageContent>)
        ensures
            match out {
                Ok(content) => encoded(data@, false) == Some(content@),
                Err(error) => encoded(data@, false) is None && refused(data@, false, error),
            },
    {
        data.encode(false)
    }

    /// Leaves a value under a key in the extension bag of the context: see
    /// [`Context::extend`].
    pub fn extend(&mut self, key: &str, value: Payload) -> (fresh: bool)
        ensures
            final(self).decoded() == old(self).decoded(),
            final(self).origin() == (Scene {
                extensions: put(old(self).origin().extensions, key@, value@),
                ..old(self).origin()
            }),
            fresh == !has_key(old(self).origin().extensions, key@),
    {
        self.ctx.extend(key, value)
    }

    /// The value that an earlier stage left under a key.
    pub fn extension(&self, key: &str) -> (found: Option<&Payload>)
        ensures
            match found {
                Some(value) => lookup(self.origin().extensions, key@) == Some(value@),
                None => lookup(self.origin().extensions, key@) is None,
            },
            found is Some <==> has_key(self.origin().extensions, key@),
    {
        self.ctx.extension(key)
    }

    /// Encodes a payload in the encoding of the originating frame and puts it
    /// on the outbound queue of the connection: see [`Context::send`].
    pub fn send(&mut self, data: &Payload) -> (out: JuntaResult<()>)
        ensures
            final(self).decoded() == old(self).decoded(),
            match encoded(data@, old(self).origin().binary) {
                Some(content) => final(self).origin() == (Scene {
                    client: old(self).origin().client.enqueued(content.frame()),
                    ..old(self).origin()
                }) && (out is Ok <==> old(self).origin().client.outbound.len() < old(
                    self,
                ).origin().client.depth) && (out matches Err(error) ==> error.is_transport(
                    queue_full(),
                )),
                None => final(self).origin() == old(self).origin() && out is Err && refused(
                    data@,
                    old(self).origin().binary,
                    out->Err_0,
                ),
            },
    {
        self.ctx.send(data)
    }
}

impl<I: View, M> ChildContext<I, M> {
    /// The scene that the decoded message came from, with its payload as a
    /// mathematical value.
    pub open spec fn scene(&self) -> Scene<I::V> {
        Scene {
            client: self.origin().client,
            message: self.origin().message@,
            binary: self.origin().binary,
            extensions: self.origin().extensions,
            peers: self.origin().peers,
        }
    }
}

impl<I> ChildContext<I, ClientEvent> {
    /// Decodes the content of the event as a payload: see [`decode_event`].
    pub fn decode(&self) -> (out: JuntaResult<Payload>)
        ensures
            match out {
                Ok(payload) => self.decoded()@ is Message && reading(self.decoded()@->Message_0)
                    == Ok::<Option<Tree>, ()>(Some(payload@)),
                Err(error) => match self.decoded()@ {
                    Occurrence::Message(content) => !(reading(content) matches Ok(Some(_))) && unread(content, error),
                    _ => error.is_unknown(invalid()),
                },
            },
    {
        decode_event(&self.msg)
    }
}

/// A context and a decoded message, both borrowed: what a predicate looks at
/// before the event is handed to anybody.
pub struct BorrowedContext<'a, I, M> {
    ctx: &'a Context<I>,
    msg: &'a M,
}

impl<'a, I, M> BorrowedContext<'a, I, M> {
    /// The context that the decoded message came from.
    pub closed spec fn origin(&self) -> Scene<I> {
        self.ctx@
    }

    /// The decoded message.
    pub closed spec fn decoded(&self) -> M {
        *self.msg
    }

    pub fn new(ctx: &'a Context<I>, msg: &'a M) -> (borrowed: BorrowedContext<'a, I, M>)
        ensures
            borrowed.origin() == ctx@,
            borrowed.decoded() == *msg,
    {
        BorrowedContext { ctx, msg }
    }

    pub fn message(&self) -> (msg: &M)
        ensures
            *msg == self.decoded(),
    {
        self.msg
    }

    pub fn client(&self) -> (client: &Client)
        ensures
            client@ == self.origin().client,
    {
        self.ctx.client()
    }

    pub fn binary(&self) -> (binary: bool)
        ensures
            binary == self.origin().binary,
    {
        self.ctx.binary()
    }
}

impl<'a, I: View, M> BorrowedContext<'a, I, M> {
    /// The scene that the decoded message came from, with its payload as a
    /// mathematical value.
    pub open spec fn scene(&self) -> Scene<I::V> {
        Scene {
            client: self.origin().client,
            message: self.origin().message@,
            binary: self.origin().binary,
            extensions: self.origin().extensions,
            peers: self.origin().peers,
        }
    }
}

impl<'a, I> BorrowedContext<'a, I, ClientEvent> {
    /// Decodes the content of the event as a payload: see [`decode_event`].
    pub fn decode(&self) -> (out: JuntaResult<Payload>)
        ensures
            match out {
                Ok(payload) => self.decoded()@ is Message && reading(self.decoded()@->Message_0)
                    == Ok::<Option<Tree>, ()>(Some(payload@)),
                Err(error) => match self.decoded()@ {
                    Occurrence::Message(content) => !(reading(content) matches Ok(Some(_))) && unread(content, error),
                    _ => error.is_unknown(invalid()),
                },
            },
    {
        decode_event(self.msg)
    }
}

} // verus!
