//! The server: what becomes of each connection from the handshake to the
//! close, and of every frame that arrives in between.
use vstd::prelude::*;
use crate::client::{frames, queue_full, Client, Connection, OUTBOUND_DEPTH};
use crate::context::{Context, Scene};
use crate::error::{JuntaError, JuntaErrorKind, JuntaResult};
use crate::address::{number, splits_at, well_formed, Address};
use crate::handler::{Handler, IntoHandler};
use crate::message::{ClientEvent, Content, Frame, MessageContent, Occurrence, OwnedMessage};
use crate::registry::{index_of, listed, roster, spread, unique, Broadcast, Broadcaster};

verus! {

/// Calls `Uuid::new_v4`, which draws an identifier at random, and reads its
/// sixteen bytes as one number with `Uuid::as_u128`. Nothing is claimed of
/// the result.
#[verifier::external_body]
fn draw_id() -> u128 {
    uuid::Uuid::new_v4().as_u128()
}

/// The name of the subprotocol that a peer has to offer.
pub open spec fn subprotocol() -> Seq<char> {
    "rust-websocket"@
}

/// Decides on a handshake: it is accepted exactly if the peer offers the
/// subprotocol of this framework.
pub fn negotiate(offered: &Vec<String>) -> (accept: bool)
    ensures
        accept <==> exists|i: int| 0 <= i < offered.len() && (#[trigger] offered[i])@ == subprotocol(),
{
    let wanted = "rust-websocket".to_owned();
    let mut index: usize = 0;
    while index < offered.len()
        invariant
            index <= offered.len(),
            wanted@ == subprotocol(),
            forall|i: int| 0 <= i < index ==> (#[trigger] offered[i])@ != subprotocol(),
        decreases offered.len() - index,
    {
        if offered[index] == wanted {
            return true;
        }
        index += 1;
    }
    false
}

/// The message of the error for a handshake whose id is in use.
pub open spec fn already_connected() -> Seq<char> {
    "already connected"@
}

/// The connections that a server holds.
pub struct World {
    /// The registry: the connections between handshake and close. Fanout
    /// reaches these and no others.
    pub registry: Seq<Connection>,
    /// The connections whose close was handed to the handler, and whose last
    /// frames wait to be written.
    pub leaving: Seq<Connection>,
}

impl World {
    /// No id is held twice.
    pub open spec fn wf(self) -> bool {
        &&& unique(self.registry)
        &&& unique(self.leaving)
        &&& forall|i: int, j: int|
            0 <= i < self.registry.len() && 0 <= j < self.leaving.len() ==> (
            #[trigger] self.registry[i]).id != (#[trigger] self.leaving[j]).id
    }
}

/// The two sequences hold the same ids at the same places.
pub open spec fn same_ids(a: Seq<Connection>, b: Seq<Connection>) -> bool {
    a.len() == b.len() && forall|i: int| 0 <= i < a.len() ==> (#[trigger] a[i]).id == b[i].id
}

/// Sequences with the same ids at the same places list the same ids, and
/// either both hold an id twice or neither does.
pub proof fn lemma_same_ids(a: Seq<Connection>, b: Seq<Connection>)
    requires
        same_ids(a, b),
    ensures
        unique(a) <==> unique(b),
        forall|id: u128| listed(a, id) <==> listed(b, id),
{
    assert forall|id: u128| listed(a, id) <==> listed(b, id) by {
        if listed(a, id) {
            let i = choose|i: int| 0 <= i < a.len() && (#[trigger] a[i]).id == id;
            assert(b[i].id == id);
        }
        if listed(b, id) {
            let i = choose|i: int| 0 <= i < b.len() && (#[trigger] b[i]).id == id;
            assert(a[i].id == id);
        }
    }
    if unique(a) {
        assert forall|i: int, j: int| 0 <= i < j < b.len() implies (#[trigger] b[i]).id != (
        #[trigger] b[j]).id by {
            assert(a[i].id != a[j].id);
        }
    }
    if unique(b) {
        assert forall|i: int, j: int| 0 <= i < j < a.len() implies (#[trigger] a[i]).id != (
        #[trigger] a[j]).id by {
            assert(b[i].id != b[j].id);
        }
    }
}

/// The scene in which the handler sees an event of a connection.
pub open spec fn scene(
    client: Connection,
    event: Occurrence,
    others: Seq<Connection>,
) -> Scene<Occurrence> {
    Scene {
        client,
        message: event,
        binary: event.is_binary(),
        extensions: Seq::empty(),
        peers: roster(others),
    }
}

/// The handler dealt with an event of a connection that is not in the
/// registry. It left the connection as `left`, with the outcome `out`, and
/// the fanout that it asked for turned the registry into `after`.
pub open spec fn parted<H: Handler>(
    handler: H,
    registry: Seq<Connection>,
    client: Connection,
    event: Occurrence,
    after: Seq<Connection>,
    left: Connection,
    out: JuntaResult<()>,
) -> bool {
    exists|done: Connection|
        {
            &&& #[trigger] handler.handles(scene(client, event, registry), done, out)
            &&& done.follows(client)
            &&& left == Connection { fanout: Seq::empty(), ..done }
            &&& after == spread(registry, done.id, done.fanout)
        }
}

/// The handler dealt with an event of the registered connection at `index`,
/// with the outcome `out`. What it left of the connection stands where the
/// connection stood, and the fanout that it asked for was carried out over
/// the whole registry, which is then `after`.
pub open spec fn dispatched<H: Handler>(
    handler: H,
    registry: Seq<Connection>,
    index: int,
    event: Occurrence,
    after: Seq<Connection>,
    out: JuntaResult<()>,
) -> bool {
    exists|done: Connection|
        {
            &&& #[trigger] handler.handles(scene(registry[index], event, registry.remove(index)), done, out)
            &&& done.follows(registry[index])
            &&& after == spread(
                registry.update(index, Connection { fanout: Seq::empty(), ..done }),
                done.id,
                done.fanout,
            )
        }
}

/// Handling an event of a registered connection leaves every connection of
/// the registry where it was, under the id that it had.
pub proof fn lemma_dispatched_keeps_ids<H: Handler>(
    handler: H,
    registry: Seq<Connection>,
    index: int,
    event: Occurrence,
    after: Seq<Connection>,
    out: JuntaResult<()>,
)
    requires
        0 <= index < registry.len(),
        dispatched(handler, registry, index, event, after, out),
    ensures
        same_ids(registry, after),
{
    let done = choose|done: Connection|
        {
            &&& #[trigger] handler.handles(scene(registry[index], event, registry.remove(index)), done, out)
            &&& done.follows(registry[index])
            &&& after == spread(
                registry.update(index, Connection { fanout: Seq::empty(), ..done }),
                done.id,
                done.fanout,
            )
        };
    let put = registry.update(index, Connection { fanout: Seq::empty(), ..done });
    crate::registry::lemma_spread_follows(put, done.id, done.fanout);
    assert forall|i: int| 0 <= i < registry.len() implies (#[trigger] registry[i]).id
        == after[i].id by {
        assert(after[i].follows(put[i]));
    }
}

/// Handling an event of a connection that is out of the registry leaves
/// every connection of the registry where it was, under the id that it had,
/// and leaves the connection its id.
pub proof fn lemma_parted_keeps_ids<H: Handler>(
    handler: H,
    registry: Seq<Connection>,
    client: Connection,
    event: Occurrence,
    after: Seq<Connection>,
    left: Connection,
    out: JuntaResult<()>,
)
    requires
        parted(handler, registry, client, event, after, left, out),
    ensures
        same_ids(registry, after),
        left.id == client.id,
{
    let done = choose|done: Connection|
        {
            &&& #[trigger] handler.handles(scene(client, event, registry), done, out)
            &&& done.follows(client)
            &&& left == Connection { fanout: Seq::empty(), ..done }
            &&& after == spread(registry, done.id, done.fanout)
        };
    crate::registry::lemma_spread_follows(registry, done.id, done.fanout);
    assert forall|i: int| 0 <= i < registry.len() implies (#[trigger] registry[i]).id
        == after[i].id by {
        assert(after[i].follows(registry[i]));
    }
}

/// What a handshake leads to. An id that is in use is refused and nothing
/// changes. Else the new connection is registered, and then the handler gets
/// the event `Connect`.
pub open spec fn connected<H: Handler>(
    handler: H,
    before: World,
    id: u128,
    address: Seq<char>,
    after: World,
    out: JuntaResult<()>,
) -> bool {
    if listed(before.registry, id) || listed(before.leaving, id) {
        after == before && out is Err && out->Err_0.is_unknown(already_connected())
    } else {
        after.leaving == before.leaving && dispatched(
            handler,
            before.registry.push(Connection::fresh(id, address, OUTBOUND_DEPTH as nat)),
            before.registry.len() as int,
            Occurrence::Connect,
            after.registry,
            out,
        )
    }
}

/// What an inbound frame of a registered connection leads to.
///
/// A data frame goes to the handler as a message. A ping is answered with a
/// pong on the outbound queue, and the handler is not called. A pong is
/// dropped. A close takes the connection out of the registry, then goes to
/// the handler, and then the connection is closed in turn. The requests that
/// were outstanding are given up, and the connection is kept aside until its
/// driver ends.
pub open spec fn received<H: Handler>(
    handler: H,
    before: World,
    id: u128,
    frame: Frame,
    after: World,
    out: JuntaResult<()>,
) -> bool {
    match index_of(before.registry, id) {
        None => after == before && out is Err && out->Err_0.kind is NotFound,
        Some(index) => match frame {
            Frame::Pong(_) => after == before && out is Ok,
            Frame::Ping(data) => after == (World {
                registry: before.registry.update(
                    index,
                    before.registry[index].enqueued(Frame::Pong(data)),
                ),
                ..before
            }) && (out is Ok <==> before.registry[index].outbound.len()
                < before.registry[index].depth) && (out matches Err(error) ==> error.is_transport(
                queue_full(),
            )),
            Frame::Text(text) => after.leaving == before.leaving && dispatched(
                handler,
                before.registry,
                index,
                Occurrence::Message(Content::Text(text)),
                after.registry,
                out,
            ),
            Frame::Binary(bytes) => after.leaving == before.leaving && dispatched(
                handler,
                before.registry,
                index,
                Occurrence::Message(Content::Binary(bytes)),
                after.registry,
                out,
            ),
            Frame::Close(data) => exists|left: Connection, handled: JuntaResult<()>|
                {
                    &&& #[trigger] parted(
                        handler,
                        before.registry.remove(index),
                        before.registry[index],
                        Occurrence::Close(data),
                        after.registry,
                        left,
                        handled,
                    )
                    &&& after.leaving == before.leaving.push(gone(left))
                    &&& closing_outcome(left, handled, out)
                },
        },
    }
}

/// A connection after its close was handed to the handler: closed in turn,
/// and with no request outstanding any more.
pub open spec fn gone(left: Connection) -> Connection {
    Connection { pending: Seq::empty(), ..left.closed() }
}

/// The outcome of handling a close: that of the handler where it failed, else
/// that of closing the connection in turn.
pub open spec fn closing_outcome(left: Connection, handled: JuntaResult<()>, out: JuntaResult<()>) -> bool {
    match handled {
        Err(error) => out == handled,
        Ok(_) => (out is Ok <==> !left.armed || left.outbound.len() < left.depth) && (out matches Err(
            error,
        ) ==> error.is_transport(queue_full())),
    }
}

/// What the end of a driver leads to. A connection that is still registered
/// is taken out of the registry, and then the handler gets the event `Close`
/// with no data. A connection whose close was handed to the handler before is
/// let go without another event. Either way its state is dropped, and with it
/// the resolver of every request that was outstanding.
pub open spec fn finished<H: Handler>(
    handler: H,
    before: World,
    id: u128,
    after: World,
    out: JuntaResult<()>,
) -> bool {
    match index_of(before.registry, id) {
        Some(index) => exists|left: Connection|
            {
                &&& #[trigger] parted(
                    handler,
                    before.registry.remove(index),
                    before.registry[index],
                    Occurrence::Close(None),
                    after.registry,
                    left,
                    out,
                )
                &&& after.leaving == before.leaving
            },
        None => match index_of(before.leaving, id) {
            Some(index) => after == (World { leaving: before.leaving.remove(index), ..before })
                && out is Ok,
            None => after == before && out is Err && out->Err_0.kind is NotFound,
        },
    }
}

/// What a run of inbound frames of one connection leads to. `worlds` holds
/// the world before the first frame and the world after each frame: every
/// frame is dealt with in the world that the frame before it left, and is
/// done with before the next one is begun. The outcomes come in the order of
/// the frames.
pub open spec fn received_in_order<H: Handler>(
    handler: H,
    worlds: Seq<World>,
    id: u128,
    inbound: Seq<Frame>,
    outs: Seq<JuntaResult<()>>,
) -> bool {
    &&& worlds.len() == inbound.len() + 1
    &&& outs.len() == inbound.len()
    &&& forall|k: int|
        0 <= k < inbound.len() ==> #[trigger] received(
            handler,
            worlds[k],
            id,
            inbound[k],
            worlds[k + 1],
            outs[k],
        )
}

/// What handing out the frames that wait for the sink of a connection leads
/// to, for a connection of the registry or one that is leaving.
pub open spec fn drained(before: World, id: u128, after: World, taken: Option<Seq<Frame>>) -> bool {
    match index_of(before.registry, id) {
        Some(index) => taken == Some(before.registry[index].outbound) && after == (World {
            registry: before.registry.update(
                index,
                Connection { outbound: Seq::empty(), ..before.registry[index] },
            ),
            ..before
        }),
        None => match index_of(before.leaving, id) {
            Some(index) => taken == Some(before.leaving[index].outbound) && after == (World {
                leaving: before.leaving.update(
                    index,
                    Connection { outbound: Seq::empty(), ..before.leaving[index] },
                ),
                ..before
            }),
            None => taken is None && after == before,
        },
    }
}

/// The server: a handler, the registry, and the connections that are leaving.
pub struct Server<H> {
    handler: H,
    clients: Broadcaster,
    leaving: Broadcaster,
}

/// The value of a server is the connections that it holds. The handler never
/// changes and is no part of it: contracts name it through
/// [`Server::handler`].
impl<H> View for Server<H> {
    type V = World;

    closed spec fn view(&self) -> World {
        World { registry: self.clients@, leaving: self.leaving@ }
    }
}

impl<H: Handler> Server<H> {
    /// The handler that gets the events.
    pub closed spec fn handler(&self) -> H {
        self.handler
    }

    /// A server without connections.
    pub fn new(handler: H) -> (server: Server<H>)
        ensures
            server.handler() == handler,
            server@ == (World { registry: Seq::empty(), leaving: Seq::empty() }),
    {
        Server { handler, clients: Broadcaster::new(), leaving: Broadcaster::new() }
    }

    /// Hands an event of a connection that is out of the registry to the
    /// handler, and carries out the fanout that the handler asks for.
    fn part(&mut self, client: Client, event: ClientEvent) -> (done: (Client, JuntaResult<()>))
        requires
            old(self).handler().ready(),
        ensures
            final(self).handler() == old(self).handler(),
            final(self)@.leaving == old(self)@.leaving,
            parted(
                old(self).handler(),
                old(self)@.registry,
                client@,
                event@,
                final(self)@.registry,
                done.0@,
                done.1,
            ),
    {
        let ctx = Context::new(client, event).among(self.clients.roster());
        let (mut client, out) = self.handler.handle(ctx);
        let ghost left = client@;
        let asked = client.take_fanout();
        self.clients.spread(client.id(), asked);
        assert(self.handler.handles(scene(ctx@.client, event@, old(self)@.registry), left, out));
        (client, out)
    }

    /// Hands an event of the registered connection at `index` to the handler,
    /// and carries out the fanout that the handler asks for.
    fn dispatch(&mut self, index: usize, event: ClientEvent) -> (out: JuntaResult<()>)
        requires
            old(self).handler().ready(),
            index < old(self)@.registry.len(),
        ensures
            final(self).handler() == old(self).handler(),
            final(self)@.leaving == old(self)@.leaving,
            dispatched(
                old(self).handler(),
                old(self)@.registry,
                index as int,
                event@,
                final(self)@.registry,
                out,
            ),
    {
        let client = self.clients.take_at(index);
        let ctx = Context::new(client, event).among(self.clients.roster());
        let (mut client, out) = self.handler.handle(ctx);
        let ghost left = client@;
        let asked = client.take_fanout();
        let id = client.id();
        self.clients.put_at(index, client);
        assert(self.clients@ =~= old(self)@.registry.update(
            index as int,
            Connection { fanout: Seq::empty(), ..left },
        ));
        self.clients.spread(id, asked);
        assert(self.handler.handles(
            scene(
                old(self)@.registry[index as int],
                event@,
                old(self)@.registry.remove(index as int),
            ),
            left,
            out,
        ));
        out
    }

    /// Takes in a connection whose handshake has succeeded, under the given
    /// id: see [`connected`].
    pub fn connect(&mut self, id: u128, address: String) -> (out: JuntaResult<()>)
        requires
            old(self).handler().ready(),
        ensures
            final(self).handler() == old(self).handler(),
            connected(old(self).handler(), old(self)@, id, address@, final(self)@, out),
    {
        if self.clients.find(id).is_some() || self.leaving.find(id).is_some() {
            return Err(JuntaError::unknown("already connected"));
        }
        let index = self.clients.len();
        let client = Client::new(id, address);
        let _ = self.clients.insert(client);
        self.dispatch(index, ClientEvent::Connect)
    }

    /// Takes in a connection whose handshake has succeeded, under an id drawn
    /// at random, and tells the id.
    pub fn accept(&mut self, address: String) -> (done: (u128, JuntaResult<()>))
        requires
            old(self).handler().ready(),
        ensures
            final(self).handler() == old(self).handler(),
            connected(old(self).handler(), old(self)@, done.0, address@, final(self)@, done.1),
    {
        let id = draw_id();
        let out = self.connect(id, address);
        (id, out)
    }

    /// Deals with one inbound frame of a connection: see [`received`]. The
    /// call returns when the handler is done with the frame, so that the
    /// frames of a connection are handled one after the other, in the order
    /// in which they are handed in.
    pub fn receive(&mut self, id: u128, frame: OwnedMessage) -> (out: JuntaResult<()>)
        requires
            old(self).handler().ready(),
        ensures
            final(self).handler() == old(self).handler(),
            received(old(self).handler(), old(self)@, id, frame@, final(self)@, out),
    {
        let index = match self.clients.find(id) {
            Some(index) => index,
            None => { return Err(JuntaError::new(JuntaErrorKind::NotFound)); },
        };
        match frame {
            OwnedMessage::Pong(_) => Ok(()),
            OwnedMessage::Ping(data) => self.clients.enqueue_at(index, OwnedMessage::Pong(data)),
            OwnedMessage::Text(text) => self.dispatch(
                index,
                ClientEvent::Message(MessageContent::Text(text)),
            ),
            OwnedMessage::Binary(bytes) => self.dispatch(
                index,
                ClientEvent::Message(MessageContent::Binary(bytes)),
            ),
            OwnedMessage::Close(data) => {
                let client = self.clients.take_at(index);
                let (mut client, handled) = self.part(client, ClientEvent::Close(data));
                let ghost left = client@;
                let closed = client.close();
                let out = match handled {
                    Ok(_) => closed,
                    Err(error) => Err(error),
                };
                let _ = client.forget_pending();
                assert(client@ == gone(left));
                self.leaving.put_at(self.leaving.len(), client);
                assert(final(self)@.leaving =~= old(self)@.leaving.push(gone(left)));
                assert(parted(
                    old(self).handler(),
                    old(self)@.registry.remove(index as int),
                    old(self)@.registry[index as int],
                    Occurrence::Close(crate::message::closing_view(data)),
                    final(self)@.registry,
                    left,
                    handled,
                ));
                assert(closing_outcome(left, handled, out));
                out
            },
        }
    }

    /// Deals with a run of inbound frames of a connection, in their order: see
    /// [`received_in_order`].
    pub fn receive_all(&mut self, id: u128, inbound: Vec<OwnedMessage>) -> (outs: Vec<JuntaResult<()>>)
        requires
            old(self).handler().ready(),
        ensures
            final(self).handler() == old(self).handler(),
            exists|worlds: Seq<World>|
                {
                    &&& #[trigger] received_in_order(
                        old(self).handler(),
                        worlds,
                        id,
                        frames(inbound@),
                        outs@,
                    )
                    &&& worlds.first() == old(self)@
                    &&& worlds.last() == final(self)@
                },
    {
        let mut rest = inbound;
        let mut outs: Vec<JuntaResult<()>> = Vec::new();
        let ghost mut worlds: Seq<World> = seq![self@];
        while rest.len() > 0
            invariant
                worlds.len() == outs.len() + 1,
                outs.len() + rest.len() == inbound.len(),
                rest@ == inbound@.skip(outs.len() as int),
                self.handler() == old(self).handler(),
                self.handler().ready(),
                worlds.first() == old(self)@,
                worlds.last() == self@,
                forall|k: int|
                    0 <= k < outs.len() ==> #[trigger] received(
                        old(self).handler(),
                        worlds[k],
                        id,
                        inbound[k]@,
                        worlds[k + 1],
                        outs[k],
                    ),
            decreases rest.len(),
        {
            let ghost earlier = worlds;
            let ghost known = outs@;
            let frame = rest.remove(0);
            let out = self.receive(id, frame);
            outs.push(out);
            proof {
                worlds = worlds.push(self@);
                assert(rest@ =~= inbound@.skip(outs.len() as int));
                assert forall|k: int| 0 <= k < outs.len() implies #[trigger] received(
                    old(self).handler(),
                    worlds[k],
                    id,
                    inbound[k]@,
                    worlds[k + 1],
                    outs[k],
                ) by {
                    if k < known.len() {
                        assert(worlds[k] == earlier[k]);
                        assert(worlds[k + 1] == earlier[k + 1]);
                        assert(outs[k] == known[k]);
                    }
                }
            }
        }
        assert(received_in_order(old(self).handler(), worlds, id, frames(inbound@), outs@));
        outs
    }

    /// Hands out the frames that wait for the sink of a connection, oldest
    /// first: see [`drained`]. `None` where no such connection is held.
    pub fn drain(&mut self, id: u128) -> (taken: Option<Vec<OwnedMessage>>)
        ensures
            final(self).handler() == old(self).handler(),
            drained(
                old(self)@,
                id,
                final(self)@,
                match taken {
                    Some(queue) => Some(frames(queue@)),
                    None => None,
                },
            ),
    {
        match self.clients.find(id) {
            Some(index) => Some(self.clients.drain_at(index)),
            None => match self.leaving.find(id) {
                Some(index) => Some(self.leaving.drain_at(index)),
                None => None,
            },
        }
    }

    /// Looks a registered connection up by its id.
    pub fn client(&self, id: u128) -> (found: Option<&Client>)
        ensures
            match found {
                Some(client) => listed(self@.registry, id) && client@.id == id && exists|i: int|
                    0 <= i < self@.registry.len() && self@.registry[i] == client@,
                None => !listed(self@.registry, id),
            },
    {
        self.clients.client(id)
    }

    /// Hands the message to every registered connection. Best effort: the
    /// call succeeds whoever takes the message.
    pub fn send_all(&mut self, msg: MessageContent) -> (out: JuntaResult<()>)
        ensures
            out is Ok,
            final(self).handler() == old(self).handler(),
            final(self)@ == (World {
                registry: crate::registry::delivered(old(self)@.registry, None, msg@.frame()),
                ..old(self)@
            }),
    {
        self.clients.send_all(msg)
    }

    /// Hands the message to every registered connection but to the one with
    /// the id `from`, whose queue stays as it is. Best effort, as
    /// [`Server::send_all`].
    pub fn broadcast(&mut self, from: u128, msg: MessageContent) -> (out: JuntaResult<()>)
        ensures
            out is Ok,
            final(self).handler() == old(self).handler(),
            final(self)@ == (World {
                registry: crate::registry::delivered(old(self)@.registry, Some(from), msg@.frame()),
                ..old(self)@
            }),
    {
        self.clients.broadcast(from, msg)
    }

    /// Puts content on the queue of the registered connection with this id.
    pub fn send_to(&mut self, id: u128, msg: MessageContent) -> (out: JuntaResult<()>)
        ensures
            final(self).handler() == old(self).handler(),
            match index_of(old(self)@.registry, id) {
                Some(index) => final(self)@ == (World {
                    registry: old(self)@.registry.update(
                        index,
                        old(self)@.registry[index].enqueued(msg@.frame()),
                    ),
                    ..old(self)@
                }) && (out is Ok <==> old(self)@.registry[index].outbound.len() < old(
                    self,
                )@.registry[index].depth),
                None => final(self)@ == old(self)@ && out is Err && out->Err_0.kind is NotFound,
            },
    {
        self.clients.send_to(id, msg)
    }

    /// Lets a connection go when its driver ends: see [`finished`].
    pub fn finish(&mut self, id: u128) -> (out: JuntaResult<()>)
        requires
            old(self).handler().ready(),
        ensures
            final(self).handler() == old(self).handler(),
            finished(old(self).handler(), old(self)@, id, final(self)@, out),
    {
        match self.clients.find(id) {
            Some(index) => {
                let client = self.clients.take_at(index);
                let (mut client, out) = self.part(client, ClientEvent::Close(None));
                let ghost left = client@;
                let _ = client.forget_pending();
                assert(parted(
                    old(self).handler(),
                    old(self)@.registry.remove(index as int),
                    old(self)@.registry[index as int],
                    Occurrence::Close(None),
                    final(self)@.registry,
                    left,
                    out,
                ));
                assert(match index_of(old(self)@.registry, id) {
                    Some(at) => at == index,
                    None => false,
                });
                out
            },
            None => match self.leaving.find(id) {
                Some(index) => {
                    let mut client = self.leaving.take_at(index);
                    let _ = client.forget_pending();
                    Ok(())
                },
                None => Err(JuntaError::new(JuntaErrorKind::NotFound)),
            },
        }
    }
}

/// What is known of a server before it serves: the address to bind.
pub struct ServerBuilder {
    addr: Address,
}

impl ServerBuilder {
    /// The address to bind.
    pub closed spec fn bound(&self) -> Address {
        self.addr
    }

    /// The address to bind.
    pub fn address(&self) -> (addr: &Address)
        ensures
            *addr == self.bound(),
    {
        &self.addr
    }

    /// The server that hands every event to the given handler. It starts
    /// without connections.
    pub fn serve<H: IntoHandler>(self, handler: H) -> (server: Server<H::Handler>)
        ensures
            server.handler() == handler.handler(),
            server@ == (World { registry: Seq::empty(), leaving: Seq::empty() }),
    {
        Server::new(handler.into_handler())
    }
}

/// The handler of a server that is not serving: it takes nothing.
pub struct Idle;

impl Handler for Idle {
    open spec fn ready(&self) -> bool {
        true
    }

    open spec fn accepts(&self, scene: Scene<Occurrence>) -> bool {
        false
    }

    open spec fn handles(&self, before: Scene<Occurrence>, after: Connection, out: JuntaResult<()>) -> bool {
        after == before.client && out is Ok
    }

    fn handle(&self, ctx: Context<ClientEvent>) -> (done: (Client, JuntaResult<()>)) {
        (ctx.into_client(), Ok(()))
    }

    fn check(&self, ctx: &Context<ClientEvent>) -> (b: bool) {
        false
    }
}

impl Server<Idle> {
    /// Begins a server at an address, written as a host and a port. A text
    /// that is no host and port is refused with `InvalidAddress`.
    pub fn bind(addr: &str) -> (out: JuntaResult<ServerBuilder>)
        ensures
            match out {
                Ok(builder) => exists|colon: int|
                    {
                        &&& #[trigger] splits_at(addr@, colon)
                        &&& builder.bound().host@ == addr@.subrange(0, colon)
                        &&& builder.bound().port == number(
                            addr@.subrange(colon + 1, addr@.len() as int),
                        )
                    },
                Err(error) => !well_formed(addr@) && error.kind is InvalidAddress,
            },
    {
        match Address::parse(addr) {
            Ok(addr) => Ok(ServerBuilder { addr }),
            Err(error) => Err(error),
        }
    }
}

/// A connection enters the registry with its handshake and at no other time:
/// after a handshake the registry lists what it listed before, and the new id
/// unless that id was in use. No id is then held twice.
pub proof fn lemma_connect_registers<H: Handler>(
    handler: H,
    before: World,
    id: u128,
    address: Seq<char>,
    after: World,
    out: JuntaResult<()>,
)
    requires
        before.wf(),
        connected(handler, before, id, address, after, out),
    ensures
        after.wf(),
        forall|other: u128|
            listed(after.registry, other) <==> listed(before.registry, other) || (other == id
                && !listed(before.leaving, id)),
        forall|other: u128| listed(after.leaving, other) <==> listed(before.leaving, other),
{
    if listed(before.registry, id) || listed(before.leaving, id) {
    } else {
        let fresh = Connection::fresh(id, address, OUTBOUND_DEPTH as nat);
        let grown = before.registry.push(fresh);
        lemma_dispatched_keeps_ids(
            handler,
            grown,
            before.registry.len() as int,
            Occurrence::Connect,
            after.registry,
            out,
        );
        lemma_same_ids(grown, after.registry);
        assert forall|i: int, j: int| 0 <= i < j < grown.len() implies (#[trigger] grown[i]).id != (
        #[trigger] grown[j]).id by {
            if j < before.registry.len() {
                assert(before.registry[i].id != before.registry[j].id);
            } else {
                assert(before.registry[i].id != id);
            }
        }
        assert forall|other: u128| listed(grown, other) <==> listed(before.registry, other) || other
            == id by {
            if listed(grown, other) {
                let i = choose|i: int| 0 <= i < grown.len() && (#[trigger] grown[i]).id == other;
                if i < before.registry.len() {
                    assert(before.registry[i].id == other);
                }
            }
            if listed(before.registry, other) {
                let i = choose|i: int|
                    0 <= i < before.registry.len() && (#[trigger] before.registry[i]).id == other;
                assert(grown[i].id == other);
            }
            if other == id {
                assert(grown[before.registry.len() as int].id == id);
            }
        }
        assert forall|i: int, j: int|
            0 <= i < after.registry.len() && 0 <= j < after.leaving.len() implies (
        #[trigger] after.registry[i]).id != (#[trigger] after.leaving[j]).id by {
            assert(grown[i].id == after.registry[i].id);
            if i < before.registry.len() {
                assert(before.registry[i].id != before.leaving[j].id);
            } else {
                assert(before.leaving[j].id != id);
            }
        }
    }
}

/// A connection leaves the registry with its close and at no other time:
/// after a frame the registry lists what it listed before, but for the
/// connection of the frame where the frame is a close. That connection is
/// then among those that are leaving. No id is then held twice.
pub proof fn lemma_receive_membership<H: Handler>(
    handler: H,
    before: World,
    id: u128,
    frame: Frame,
    after: World,
    out: JuntaResult<()>,
)
    requires
        before.wf(),
        received(handler, before, id, frame, after, out),
    ensures
        after.wf(),
        forall|other: u128|
            listed(after.registry, other) <==> listed(before.registry, other) && !(other == id
                && frame is Close),
        forall|other: u128|
            listed(after.leaving, other) <==> listed(before.leaving, other) || (other == id
                && frame is Close && listed(before.registry, id)),
{
    crate::registry::lemma_index_of(before.registry, id);
    match index_of(before.registry, id) {
        None => {},
        Some(index) => {
            match frame {
                Frame::Pong(_) => {},
                Frame::Ping(data) => {
                    assert(same_ids(before.registry, after.registry));
                    lemma_same_ids(before.registry, after.registry);
                    lemma_wf_same_ids(before, after);
                },
                Frame::Text(text) => {
                    lemma_dispatched_keeps_ids(
                        handler,
                        before.registry,
                        index,
                        Occurrence::Message(Content::Text(text)),
                        after.registry,
                        out,
                    );
                    lemma_same_ids(before.registry, after.registry);
                    lemma_wf_same_ids(before, after);
                },
                Frame::Binary(bytes) => {
                    lemma_dispatched_keeps_ids(
                        handler,
                        before.registry,
                        index,
                        Occurrence::Message(Content::Binary(bytes)),
                        after.registry,
                        out,
                    );
                    lemma_same_ids(before.registry, after.registry);
                    lemma_wf_same_ids(before, after);
                },
                Frame::Close(data) => {
                    let (left, handled) = choose|left: Connection, handled: JuntaResult<()>|
                        {
                            &&& #[trigger] parted(
                                handler,
                                before.registry.remove(index),
                                before.registry[index],
                                Occurrence::Close(data),
                                after.registry,
                                left,
                                handled,
                            )
                            &&& after.leaving == before.leaving.push(gone(left))
                            &&& closing_outcome(left, handled, out)
                        };
                    lemma_parted_keeps_ids(
                        handler,
                        before.registry.remove(index),
                        before.registry[index],
                        Occurrence::Close(data),
                        after.registry,
                        left,
                        handled,
                    );
                    lemma_moved_aside(before, index, after, gone(left));
                },
            }
        },
    }
}

/// A world whose registry holds the same ids at the same places as that of a
/// well-formed world, beside the same connections that are leaving, is well
/// formed.
proof fn lemma_wf_same_ids(before: World, after: World)
    requires
        before.wf(),
        same_ids(before.registry, after.registry),
        after.leaving == before.leaving,
    ensures
        after.wf(),
{
    lemma_same_ids(before.registry, after.registry);
    assert forall|i: int, j: int|
        0 <= i < after.registry.len() && 0 <= j < after.leaving.len() implies (
    #[trigger] after.registry[i]).id != (#[trigger] after.leaving[j]).id by {
        assert(before.registry[i].id != before.leaving[j].id);
    }
}

/// Moving the connection at `index` from the registry to those that are
/// leaving keeps the world well formed and changes, of what is listed where,
/// the place of that one id only.
proof fn lemma_moved_aside(before: World, index: int, after: World, moved: Connection)
    requires
        before.wf(),
        0 <= index < before.registry.len(),
        same_ids(before.registry.remove(index), after.registry),
        moved.id == before.registry[index].id,
        after.leaving == before.leaving.push(moved),
    ensures
        after.wf(),
        forall|other: u128|
            listed(after.registry, other) <==> listed(before.registry, other) && other != moved.id,
        forall|other: u128|
            listed(after.leaving, other) <==> listed(before.leaving, other) || other == moved.id,
{
    let rest = before.registry.remove(index);
    let id = moved.id;
    crate::registry::lemma_remove_keeps_unique(before.registry, index);
    lemma_same_ids(rest, after.registry);
    assert forall|other: u128| listed(after.leaving, other) <==> listed(before.leaving, other)
        || other == id by {
        if listed(after.leaving, other) {
            let j = choose|j: int|
                0 <= j < after.leaving.len() && (#[trigger] after.leaving[j]).id == other;
            if j < before.leaving.len() {
                assert(before.leaving[j].id == other);
            }
        }
        if listed(before.leaving, other) {
            let j = choose|j: int|
                0 <= j < before.leaving.len() && (#[trigger] before.leaving[j]).id == other;
            assert(after.leaving[j].id == other);
        }
        if other == id {
            assert(after.leaving[before.leaving.len() as int].id == id);
        }
    }
    assert forall|i: int, j: int| 0 <= i < j < after.leaving.len() implies (
    #[trigger] after.leaving[i]).id != (#[trigger] after.leaving[j]).id by {
        if j < before.leaving.len() {
            assert(before.leaving[i].id != before.leaving[j].id);
        } else {
            assert(before.registry[index].id != before.leaving[i].id);
        }
    }
    assert forall|i: int, j: int|
        0 <= i < after.registry.len() && 0 <= j < after.leaving.len() implies (
    #[trigger] after.registry[i]).id != (#[trigger] after.leaving[j]).id by {
        let a = if i < index { i } else { i + 1 };
        assert(rest[i].id == after.registry[i].id);
        assert(rest[i] == before.registry[a]);
        if j < before.leaving.len() {
            assert(before.registry[a].id != before.leaving[j].id);
        } else {
            if a < index {
                assert(before.registry[a].id != before.registry[index].id);
            } else {
                assert(before.registry[index].id != before.registry[a].id);
            }
        }
    }
}

/// After the end of its driver a connection is held nowhere: neither in the
/// registry nor among those that are leaving. Every other id stays where it
/// was, and no id is held twice.
pub proof fn lemma_finish_releases<H: Handler>(
    handler: H,
    before: World,
    id: u128,
    after: World,
    out: JuntaResult<()>,
)
    requires
        before.wf(),
        finished(handler, before, id, after, out),
    ensures
        after.wf(),
        forall|other: u128|
            listed(after.registry, other) <==> listed(before.registry, other) && other != id,
        forall|other: u128|
            listed(after.leaving, other) <==> listed(before.leaving, other) && other != id,
{
    crate::registry::lemma_index_of(before.registry, id);
    crate::registry::lemma_index_of(before.leaving, id);
    match index_of(before.registry, id) {
        Some(index) => {
            let left = choose|left: Connection|
                {
                    &&& #[trigger] parted(
                        handler,
                        before.registry.remove(index),
                        before.registry[index],
                        Occurrence::Close(None),
                        after.registry,
                        left,
                        out,
                    )
                    &&& after.leaving == before.leaving
                };
            lemma_parted_keeps_ids(
                handler,
                before.registry.remove(index),
                before.registry[index],
                Occurrence::Close(None),
                after.registry,
                left,
                out,
            );
            let aside = World { registry: after.registry, leaving: before.leaving.push(left) };
            lemma_moved_aside(before, index, aside, left);
            assert forall|i: int, j: int|
                0 <= i < after.registry.len() && 0 <= j < after.leaving.len() implies (
            #[trigger] after.registry[i]).id != (#[trigger] after.leaving[j]).id by {
                assert(aside.leaving[j] == before.leaving[j]);
                assert(aside.registry[i].id != aside.leaving[j].id);
            }
            assert forall|other: u128| listed(before.leaving, other) implies other != id by {
                let j = choose|j: int|
                    0 <= j < before.leaving.len() && (#[trigger] before.leaving[j]).id == other;
                assert(before.registry[index].id != before.leaving[j].id);
            }
        },
        None => match index_of(before.leaving, id) {
            Some(index) => {
                crate::registry::lemma_remove_keeps_unique(before.leaving, index);
                let rest = before.leaving.remove(index);
                assert forall|i: int, j: int|
                    0 <= i < after.registry.len() && 0 <= j < after.leaving.len() implies (
                #[trigger] after.registry[i]).id != (#[trigger] after.leaving[j]).id by {
                    let a = if j < index { j } else { j + 1 };
                    assert(rest[j] == before.leaving[a]);
                    assert(before.registry[i].id != before.leaving[a].id);
                }
            },
            None => {},
        },
    }
}

} // verus!
