//! Protocols: the units that handle decoded events, the handler that decodes
//! frames for them, and the table of the requests that wait for a response.
use vstd::prelude::*;
use crate::client::{Client, Connection};
use crate::context::{BorrowedContext, ChildContext, Context, Scene};
use crate::error::{JuntaError, JuntaErrorKind, JuntaResult, ServiceError};
use crate::event::{decoded, undecoded, Envelope, Event, ResError, ResResult};
use crate::handler::Handler;
use crate::message::{ClientEvent, Occurrence};
use crate::response_protocol::ResponseProtocol;
use crate::value::Payload;

verus! {

/// Declares the sending half of the one-shot channel of `futures`, which
/// resolves a waiter.
#[verifier::external_type_specification]
#[verifier::external_body]
#[verifier::reject_recursive_types(T)]
pub struct ExSender<T>(futures::sync::oneshot::Sender<T>);

/// Declares the receiving half of the one-shot channel of `futures`, which a
/// waiter holds.
#[verifier::external_type_specification]
#[verifier::external_body]
#[verifier::reject_recursive_types(T)]
pub struct ExReceiver<T>(futures::sync::oneshot::Receiver<T>);

/// What a response delivers to the one who asked.
pub type Reply = ResResult<Payload, ResError>;

/// The half of a one-shot channel that resolves a waiter.
pub type Resolver = futures::sync::oneshot::Sender<Reply>;

/// The half of a one-shot channel that a waiter holds. It yields the reply
/// once, or reports that the resolver was dropped.
pub type Waiter = futures::sync::oneshot::Receiver<Reply>;

/// Calls `futures::sync::oneshot::channel`. Nothing is claimed of the two
/// halves.
#[verifier::external_body]
fn channel() -> (halves: (Resolver, Waiter)) {
    futures::sync::oneshot::channel()
}

/// Calls `Sender::send`, which hands the reply to the waiter, or hands it back
/// where the waiter is gone.
#[verifier::external_body]
fn resolve(sender: Resolver, reply: Reply) -> (out: Result<(), Reply>)
    ensures
        out matches Err(back) ==> back == reply,
{
    sender.send(reply)
}

/// Calls `Receiver::try_recv`, which looks for the reply without waiting:
/// `Ok(Some(..))` with the reply, `Ok(None)` while there is none, and `Err`
/// where the resolver was dropped without a reply. What comes back depends on
/// the other half of the channel, so nothing is claimed of it.
#[verifier::external_body]
fn try_receive(waiter: &mut Waiter) -> (seen: Result<Option<Reply>, ()>) {
    waiter.try_recv().map_err(|_| ())
}

/// What the one who asked gets once the waiter has been looked at: nothing
/// while no reply is there; the value of a response that carries one; the
/// error that a response conveys; and `ReceiverClosed` where the resolver is
/// gone, as it is after the close of the connection.
pub open spec fn resolution(seen: Result<Option<Reply>, ()>, out: Option<JuntaResult<Payload>>) -> bool {
    match seen {
        Ok(None) => out is None,
        Ok(Some(ResResult::Success(value))) => out == Some(Ok::<Payload, JuntaError>(value)),
        Ok(Some(ResResult::Failure(error))) => (out matches Some(Err(conveyed)) && conveyed.kind
            == JuntaErrorKind::Error(error.message)),
        Err(_) => (out matches Some(Err(closed)) && closed.is_service(
            ServiceError::ReceiverClosed,
        )),
    }
}

/// Turns what was seen of a waiter into what the one who asked gets: see
/// [`resolution`].
pub fn resolve_request(seen: Result<Option<Reply>, ()>) -> (out: Option<JuntaResult<Payload>>)
    ensures
        resolution(seen, out),
{
    match seen {
        Ok(None) => None,
        Ok(Some(ResResult::Success(value))) => Some(Ok(value)),
        Ok(Some(ResResult::Failure(error))) => Some(
            Err(JuntaError::new(JuntaErrorKind::Error(error.message))),
        ),
        Err(_) => Some(Err(JuntaError::new(JuntaErrorKind::Service(ServiceError::ReceiverClosed)))),
    }
}

/// Looks at a waiter without waiting, and tells what the one who asked gets:
/// whatever the other half of the channel has done, the outcome is the
/// [`resolution`] of something that can be seen of a waiter.
pub fn poll_request(waiter: &mut Waiter) -> (out: Option<JuntaResult<Payload>>)
    ensures
        exists|seen: Result<Option<Reply>, ()>| resolution(seen, out),
{
    let seen = try_receive(waiter);
    resolve_request(seen)
}

/// One outstanding request: its correlation id, its name, and the resolver of
/// the one who waits for the response.
pub struct Listener {
    pub id: usize,
    pub name: String,
    pub sender: Resolver,
}

impl Listener {
    /// A listener for the given id and name, and the waiter that it resolves.
    pub fn new(id: usize, name: String) -> (made: (Listener, Waiter))
        ensures
            made.0.id == id,
            made.0.name == name,
    {
        let (sender, waiter) = channel();
        (Listener { id, name, sender }, waiter)
    }

    /// The listener waits for the response with this id and name.
    pub open spec fn awaits(&self, id: usize, name: Seq<char>) -> bool {
        self.id == id && self.name@ == name
    }

    /// Tells whether the listener waits for the response with this id and
    /// name.
    pub fn is_for(&self, id: usize, name: &str) -> (b: bool)
        ensures
            b == self.awaits(id, name@),
    {
        self.id == id && self.name == name.to_owned()
    }

    /// Hands the reply to the waiter. `Err` with the reply where the waiter
    /// has lost interest, which is no failure of the connection.
    pub fn deliver(self, reply: Reply) -> (out: Result<(), Reply>)
        ensures
            out matches Err(back) ==> back == reply,
    {
        resolve(self.sender, reply)
    }
}

/// No two listeners wait for the same id and name.
pub open spec fn distinct(listeners: Seq<Listener>) -> bool {
    forall|i: int, j: int|
        0 <= i < j < listeners.len() ==> !(#[trigger] listeners[i]).awaits(
            (#[trigger] listeners[j]).id,
            listeners[j].name@,
        )
}

/// Some listener waits for this id and name.
pub open spec fn awaited(listeners: Seq<Listener>, id: usize, name: Seq<char>) -> bool {
    exists|i: int| 0 <= i < listeners.len() && (#[trigger] listeners[i]).awaits(id, name)
}

/// Finds the listener that waits for this id and name.
pub fn position(listeners: &Vec<Listener>, id: usize, name: &str) -> (found: Option<usize>)
    ensures
        match found {
            Some(index) => index < listeners.len() && listeners[index as int].awaits(id, name@)
                && forall|j: int| 0 <= j < index ==> !(#[trigger] listeners[j]).awaits(id, name@),
            None => !awaited(listeners@, id, name@),
        },
{
    let mut index: usize = 0;
    while index < listeners.len()
        invariant
            index <= listeners.len(),
            forall|j: int| 0 <= j < index ==> !(#[trigger] listeners[j]).awaits(id, name@),
        decreases listeners.len() - index,
    {
        if listeners[index].is_for(id, name) {
            return Some(index);
        }
        index += 1;
    }
    None
}

/// The marker under which the pending-request table of a connection is
/// known.
pub struct ListenerList;

/// A unit that handles decoded events. It gets the context of the frame
/// together with the event, and hands back the state of the connection with
/// the outcome.
pub trait Protocol {
    /// What has to hold of the protocol for it to be called.
    spec fn ready(&self) -> bool;

    /// Whether the protocol takes the event. A chain asks this before it
    /// hands the event over.
    spec fn accepts(&self, origin: Scene<Occurrence>, event: Envelope) -> bool;

    /// What handling an event may lead to: the state in which the connection
    /// is left, and the outcome.
    spec fn executes(
        &self,
        origin: Scene<Occurrence>,
        event: Envelope,
        after: Connection,
        out: JuntaResult<()>,
    ) -> bool;

    fn execute(&self, ctx: ChildContext<ClientEvent, Event>) -> (done: (Client, JuntaResult<()>))
        requires
            self.ready(),
        ensures
            self.executes(ctx.scene(), ctx.decoded()@, done.0@, done.1),
            done.0@.follows(ctx.scene().client),
    ;

    fn check(&self, ctx: &BorrowedContext<ClientEvent, Event>) -> (b: bool)
        requires
            self.ready(),
        ensures
            b == self.accepts(ctx.scene(), ctx.decoded()@),
    ;
}

/// What turns into a protocol.
pub trait IntoProtocol {
    type Protocol: Protocol;

    /// The protocol that the value turns into.
    spec fn protocol(self) -> Self::Protocol;

    fn into_protocol(self) -> (protocol: Self::Protocol)
        ensures
            protocol == self.protocol(),
    ;
}

impl<S: Protocol> IntoProtocol for S {
    type Protocol = S;

    open spec fn protocol(self) -> S {
        self
    }

    fn into_protocol(self) -> (protocol: S) {
        self
    }
}

/// What a chain of two protocols may lead to: what the first of the two that
/// takes the event leads to; where neither takes it, the connection is left
/// as it was and the outcome is the failure `InvalidRequest`.
pub open spec fn executed_in_chain<S1: Protocol, S2: Protocol>(
    s1: S1,
    s2: S2,
    origin: Scene<Occurrence>,
    event: Envelope,
    after: Connection,
    out: JuntaResult<()>,
) -> bool {
    if s1.accepts(origin, event) {
        s1.executes(origin, event, after, out)
    } else if s2.accepts(origin, event) {
        s2.executes(origin, event, after, out)
    } else {
        after == origin.client && out is Err && out->Err_0.is_service(ServiceError::InvalidRequest)
    }
}

/// Whether the handler that decodes for a protocol takes an event: a data
/// frame that decodes as an event which the response arm or the protocol
/// takes, and nothing else.
pub open spec fn decodes_for<S: Protocol>(service: S, scene: Scene<Occurrence>) -> bool {
    match scene.message {
        Occurrence::Message(content) => match decoded(content) {
            Some(event) => ResponseProtocol.accepts(scene, event) || service.accepts(scene, event),
            None => false,
        },
        _ => false,
    }
}

/// What the handler that decodes for a protocol may lead to. An event that
/// is no data frame succeeds at once and changes nothing. A data frame that
/// decodes as an event goes to the response arm first and then to the
/// protocol. One that does not decode fails and changes nothing.
pub open spec fn decoded_for<S: Protocol>(
    service: S,
    before: Scene<Occurrence>,
    after: Connection,
    out: JuntaResult<()>,
) -> bool {
    match before.message {
        Occurrence::Message(content) => match decoded(content) {
            Some(event) => executed_in_chain(ResponseProtocol, service, before, event, after, out),
            None => after == before.client && out is Err && undecoded(content, out->Err_0),
        },
        _ => after == before.client && out is Ok,
    }
}

/// Two protocols, the first of which is asked first.
pub struct ProtocolChain<S1, S2> {
    s1: S1,
    s2: S2,
}

impl<S1, S2> ProtocolChain<S1, S2> {
    /// The protocol that is asked first.
    pub closed spec fn first(&self) -> S1 {
        self.s1
    }

    /// The protocol that is asked when the first does not take the event.
    pub closed spec fn second(&self) -> S2 {
        self.s2
    }
}

impl<S1: Protocol, S2: Protocol> ProtocolChain<S1, S2> {
    pub fn new(s1: S1, s2: S2) -> (chain: ProtocolChain<S1, S2>)
        ensures
            chain.first() == s1,
            chain.second() == s2,
            chain.ready() <==> s1.ready() && s2.ready(),
            forall|origin: Scene<Occurrence>, event: Envelope| #[trigger]
                chain.accepts(origin, event) <==> s1.accepts(origin, event) || s2.accepts(
                    origin,
                    event,
                ),
            forall|origin: Scene<Occurrence>, event: Envelope, after: Connection, out: JuntaResult<()>| #[trigger]
                chain.executes(origin, event, after, out) <==> executed_in_chain(
                    s1,
                    s2,
                    origin,
                    event,
                    after,
                    out,
                ),
    {
        ProtocolChain { s1, s2 }
    }
}

impl<S1: Protocol, S2: Protocol> Protocol for ProtocolChain<S1, S2> {
    open spec fn ready(&self) -> bool {
        self.first().ready() && self.second().ready()
    }

    /// The chain takes what either of the two takes.
    open spec fn accepts(&self, origin: Scene<Occurrence>, event: Envelope) -> bool {
        self.first().accepts(origin, event) || self.second().accepts(origin, event)
    }

    /// The first protocol that takes the event handles it, and no other.
    /// Where neither takes it, the connection is left as it was and the
    /// outcome is the failure `InvalidRequest`.
    open spec fn executes(
        &self,
        origin: Scene<Occurrence>,
        event: Envelope,
        after: Connection,
        out: JuntaResult<()>,
    ) -> bool {
        executed_in_chain(self.first(), self.second(), origin, event, after, out)
    }

    fn execute(&self, ctx: ChildContext<ClientEvent, Event>) -> (done: (Client, JuntaResult<()>)) {
        let first = self.s1.check(&BorrowedContext::new(ctx.parent(), ctx.message()));
        if first {
            return self.s1.execute(ctx);
        }
        let second = self.s2.check(&BorrowedContext::new(ctx.parent(), ctx.message()));
        if second {
            return self.s2.execute(ctx);
        }
        (
            ctx.into_parent().into_client(),
            Err(JuntaError::new(JuntaErrorKind::Service(ServiceError::InvalidRequest))),
        )
    }

    fn check(&self, ctx: &BorrowedContext<ClientEvent, Event>) -> (b: bool) {
        self.s1.check(ctx) || self.s2.check(ctx)
    }
}

/// Chaining for every protocol.
pub trait ProtocolExt: Protocol + Sized {
    /// This protocol first, then the other.
    fn or<S: Protocol>(self, protocol: S) -> (chain: ProtocolChain<Self, S>)
        ensures
            chain.first() == self,
            chain.second() == protocol,
            chain.ready() <==> self.ready() && protocol.ready(),
            forall|origin: Scene<Occurrence>, event: Envelope| #[trigger]
                chain.accepts(origin, event) <==> self.accepts(origin, event) || protocol.accepts(
                    origin,
                    event,
                ),
            forall|origin: Scene<Occurrence>, event: Envelope, after: Connection, out: JuntaResult<()>| #[trigger]
                chain.executes(origin, event, after, out) <==> executed_in_chain(
                    self,
                    protocol,
                    origin,
                    event,
                    after,
                    out,
                ),
    ;
}

impl<T: Protocol> ProtocolExt for T {
    fn or<S: Protocol>(self, protocol: S) -> (chain: ProtocolChain<Self, S>) {
        ProtocolChain::new(self, protocol)
    }
}

/// The handler that decodes data frames as events and hands them to a
/// protocol. The responses to requests of this side are dealt with first;
/// every other event goes to the protocol given.
pub struct ProtocolService<S> {
    service: ProtocolChain<ResponseProtocol, S>,
}

impl<S: Protocol> ProtocolService<S> {
    /// The pipeline behind the decoding: the response arm, then the protocol
    /// given.
    pub closed spec fn pipeline(&self) -> ProtocolChain<ResponseProtocol, S> {
        self.service
    }

    pub fn new(service: S) -> (handler: ProtocolService<S>)
        ensures
            handler.pipeline().first() == ResponseProtocol,
            handler.pipeline().second() == service,
            handler.ready() <==> service.ready(),
            forall|scene: Scene<Occurrence>| #[trigger]
                handler.accepts(scene) <==> decodes_for(service, scene),
            forall|before: Scene<Occurrence>, after: Connection, out: JuntaResult<()>| #[trigger]
                handler.handles(before, after, out) <==> decoded_for(service, before, after, out),
    {
        ProtocolService { service: ProtocolChain::new(ResponseProtocol, service) }
    }
}

impl<S1: Protocol, S2: Protocol> ProtocolChain<S1, S2> {
    /// The handler that decodes data frames and hands the events to this
    /// chain.
    pub fn into_service(self) -> (handler: ProtocolService<Self>)
        ensures
            handler.pipeline().first() == ResponseProtocol,
            handler.pipeline().second() == self,
            handler.ready() <==> self.ready(),
            forall|scene: Scene<Occurrence>| #[trigger]
                handler.accepts(scene) <==> decodes_for(self, scene),
            forall|before: Scene<Occurrence>, after: Connection, out: JuntaResult<()>| #[trigger]
                handler.handles(before, after, out) <==> decoded_for(self, before, after, out),
    {
        ProtocolService::new(self)
    }
}

impl<S: Protocol> Handler for ProtocolService<S> {
    open spec fn ready(&self) -> bool {
        self.pipeline().ready()
    }

    /// The service takes a data frame that decodes as an event which the
    /// pipeline takes. It takes nothing else: a frame that does not decode
    /// falls through to whatever follows in a chain.
    open spec fn accepts(&self, scene: Scene<Occurrence>) -> bool {
        match scene.message {
            Occurrence::Message(content) => match decoded(content) {
                Some(event) => self.pipeline().accepts(scene, event),
                None => false,
            },
            _ => false,
        }
    }

    /// An event that is no data frame succeeds at once and changes nothing.
    /// A data frame that decodes as an event goes to the pipeline. One that
    /// does not decode fails and changes nothing.
    open spec fn handles(&self, before: Scene<Occurrence>, after: Connection, out: JuntaResult<()>) -> bool {
        match before.message {
            Occurrence::Message(content) => match decoded(content) {
                Some(event) => self.pipeline().executes(before, event, after, out),
                None => after == before.client && out is Err && undecoded(content, out->Err_0),
            },
            _ => after == before.client && out is Ok,
        }
    }

    fn handle(&self, ctx: Context<ClientEvent>) -> (done: (Client, JuntaResult<()>)) {
        let read = match ctx.message() {
            ClientEvent::Message(content) => Event::try_from(content),
            _ => { return (ctx.into_client(), Ok(())); },
        };
        match read {
            Ok(event) => self.service.execute(ChildContext::new(ctx, event)),
            Err(error) => (ctx.into_client(), Err(error)),
        }
    }

    fn check(&self, ctx: &Context<ClientEvent>) -> (b: bool) {
        let read = match ctx.message() {
            ClientEvent::Message(content) => Event::try_from(content),
            _ => { return false; },
        };
        match read {
            Ok(event) => self.service.check(&BorrowedContext::new(ctx, &event)),
            Err(_) => false,
        }
    }
}

} // verus!
