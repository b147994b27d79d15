//! Middleware in front of protocols: units that get a decoded event before
//! the protocol does, and that hand it on or resolve it themselves.
use vstd::prelude::*;
use crate::client::{Client, Connection};
use crate::context::{BorrowedContext, ChildContext, Scene};
use crate::error::JuntaResult;
use crate::event::{Envelope, Event};
use crate::extensions::put;
use crate::message::{ClientEvent, Occurrence};
use crate::protocol::Protocol;
use crate::value::Payload;

verus! {

/// What a middleware in front of a protocol does with an event.
pub enum Passage {
    /// The event goes on to the next stage, with the context as the
    /// middleware left it.
    Forward(ChildContext<ClientEvent, Event>),
    /// The middleware resolves the event itself: the next stage is not
    /// called. The state of the connection is handed back with the outcome.
    Resolve(Client, JuntaResult<()>),
}

impl Passage {
    /// The connection as the middleware left it.
    pub open spec fn connection(self) -> Connection {
        match self {
            Passage::Forward(ctx) => ctx.scene().client,
            Passage::Resolve(client, _) => client@,
        }
    }
}

/// A unit that gets a decoded event before a protocol does.
pub trait ProtocolMiddleware {
    /// What has to hold of the middleware for it to be called.
    spec fn ready(&self) -> bool;

    /// What the middleware may do with an event.
    spec fn passes(&self, origin: Scene<Occurrence>, event: Envelope, passage: Passage) -> bool;

    fn call(&self, ctx: ChildContext<ClientEvent, Event>) -> (passage: Passage)
        requires
            self.ready(),
        ensures
            self.passes(ctx.scene(), ctx.decoded()@, passage),
            passage.connection().follows(ctx.scene().client),
    ;
}

/// What an event leads to when a middleware stands in front of a protocol:
/// where the middleware hands the event on, what the protocol makes of it as
/// the middleware left it; where the middleware resolves the event, its
/// outcome, and the protocol is not called.
pub open spec fn passed_to<M: ProtocolMiddleware, P: Protocol>(
    middleware: M,
    protocol: P,
    origin: Scene<Occurrence>,
    event: Envelope,
    after: Connection,
    out: JuntaResult<()>,
) -> bool {
    exists|passage: Passage|
        {
            &&& #[trigger] middleware.passes(origin, event, passage)
            &&& passage.connection().follows(origin.client)
            &&& match passage {
                Passage::Forward(ctx) => protocol.executes(ctx.scene(), ctx.decoded()@, after, out),
                Passage::Resolve(client, resolved) => after == client@ && out == resolved,
            }
        }
}

/// A middleware in front of a protocol.
pub struct ProtocolChainHandler<S, F> {
    s: S,
    f: F,
}

impl<S, F> ProtocolChainHandler<S, F> {
    /// The middleware.
    pub closed spec fn middleware(&self) -> S {
        self.s
    }

    /// The protocol behind the middleware.
    pub closed spec fn protocol(&self) -> F {
        self.f
    }
}

impl<S: ProtocolMiddleware, F: Protocol> ProtocolChainHandler<S, F> {
    pub fn new(s: S, f: F) -> (handler: ProtocolChainHandler<S, F>)
        ensures
            handler.middleware() == s,
            handler.protocol() == f,
            handler.ready() <==> s.ready() && f.ready(),
            forall|origin: Scene<Occurrence>, event: Envelope| #[trigger]
                handler.accepts(origin, event) <==> f.accepts(origin, event),
            forall|origin: Scene<Occurrence>, event: Envelope, after: Connection, out: JuntaResult<()>| #[trigger]
                handler.executes(origin, event, after, out) <==> passed_to(
                    s,
                    f,
                    origin,
                    event,
                    after,
                    out,
                ),
    {
        ProtocolChainHandler { s, f }
    }
}

impl<S: ProtocolMiddleware, F: Protocol> Protocol for ProtocolChainHandler<S, F> {
    open spec fn ready(&self) -> bool {
        self.middleware().ready() && self.protocol().ready()
    }

    /// The handler takes what the protocol behind the middleware takes.
    open spec fn accepts(&self, origin: Scene<Occurrence>, event: Envelope) -> bool {
        self.protocol().accepts(origin, event)
    }

    open spec fn executes(
        &self,
        origin: Scene<Occurrence>,
        event: Envelope,
        after: Connection,
        out: JuntaResult<()>,
    ) -> bool {
        passed_to(self.middleware(), self.protocol(), origin, event, after, out)
    }

    fn execute(&self, ctx: ChildContext<ClientEvent, Event>) -> (done: (Client, JuntaResult<()>)) {
        let passage = self.s.call(ctx);
        assert(self.middleware().passes(ctx.scene(), ctx.decoded()@, passage));
        match passage {
            Passage::Forward(forwarded) => self.f.execute(forwarded),
            Passage::Resolve(client, out) => (client, out),
        }
    }

    fn check(&self, ctx: &BorrowedContext<ClientEvent, Event>) -> (b: bool) {
        self.f.check(ctx)
    }
}

/// What two middleware in a row may do with an event: what the second does
/// with what the first hands on, or what the first resolves.
pub open spec fn passed_on<S1: ProtocolMiddleware, S2: ProtocolMiddleware>(
    s1: S1,
    s2: S2,
    origin: Scene<Occurrence>,
    event: Envelope,
    passage: Passage,
) -> bool {
    exists|first: Passage|
        {
            &&& #[trigger] s1.passes(origin, event, first)
            &&& first.connection().follows(origin.client)
            &&& match first {
                Passage::Forward(ctx) => s2.passes(ctx.scene(), ctx.decoded()@, passage),
                Passage::Resolve(_, _) => passage == first,
            }
        }
}

/// Two middleware in front of protocols, the first of which gets the event.
pub struct ProtocolMiddlewareChain<S1, S2> {
    s1: S1,
    s2: S2,
}

impl<S1, S2> ProtocolMiddlewareChain<S1, S2> {
    /// The middleware that gets the event.
    pub closed spec fn first(&self) -> S1 {
        self.s1
    }

    /// The middleware that gets what the first hands on.
    pub closed spec fn second(&self) -> S2 {
        self.s2
    }
}

impl<S1: ProtocolMiddleware, S2: ProtocolMiddleware> ProtocolMiddlewareChain<S1, S2> {
    pub fn new(s1: S1, s2: S2) -> (chain: ProtocolMiddlewareChain<S1, S2>)
        ensures
            chain.first() == s1,
            chain.second() == s2,
            chain.ready() <==> s1.ready() && s2.ready(),
            forall|origin: Scene<Occurrence>, event: Envelope, passage: Passage| #[trigger]
                chain.passes(origin, event, passage) <==> passed_on(s1, s2, origin, event, passage),
    {
        ProtocolMiddlewareChain { s1, s2 }
    }
}

impl<S1: ProtocolMiddleware, S2: ProtocolMiddleware> ProtocolMiddleware for ProtocolMiddlewareChain<
    S1,
    S2,
> {
    open spec fn ready(&self) -> bool {
        self.first().ready() && self.second().ready()
    }

    open spec fn passes(&self, origin: Scene<Occurrence>, event: Envelope, passage: Passage) -> bool {
        passed_on(self.first(), self.second(), origin, event, passage)
    }

    fn call(&self, ctx: ChildContext<ClientEvent, Event>) -> (passage: Passage) {
        let first = self.s1.call(ctx);
        assert(self.first().passes(ctx.scene(), ctx.decoded()@, first));
        match first {
            Passage::Forward(forwarded) => self.s2.call(forwarded),
            Passage::Resolve(client, out) => Passage::Resolve(client, out),
        }
    }
}

/// Stacking, for every middleware in front of protocols.
pub trait ProtocolMiddlewareChainable: ProtocolMiddleware + Sized {
    /// This middleware first, then the other.
    fn stack<M: ProtocolMiddleware>(self, other: M) -> (chain: ProtocolMiddlewareChain<Self, M>)
        ensures
            chain.first() == self,
            chain.second() == other,
            chain.ready() <==> self.ready() && other.ready(),
            forall|origin: Scene<Occurrence>, event: Envelope, passage: Passage| #[trigger]
                chain.passes(origin, event, passage) <==> passed_on(
                    self,
                    other,
                    origin,
                    event,
                    passage,
                ),
    ;
}

impl<T: ProtocolMiddleware> ProtocolMiddlewareChainable for T {
    fn stack<M: ProtocolMiddleware>(self, other: M) -> (chain: ProtocolMiddlewareChain<Self, M>) {
        ProtocolMiddlewareChain::new(self, other)
    }
}

/// Putting a protocol behind a middleware, for every middleware in front of
/// protocols.
pub trait ProtocolHandable: ProtocolMiddleware + Sized {
    /// This middleware with the protocol as its next stage.
    fn then_protocol<P: Protocol>(self, handler: P) -> (made: ProtocolChainHandler<Self, P>)
        ensures
            made.middleware() == self,
            made.protocol() == handler,
            made.ready() <==> self.ready() && handler.ready(),
            forall|origin: Scene<Occurrence>, event: Envelope| #[trigger]
                made.accepts(origin, event) <==> handler.accepts(origin, event),
            forall|origin: Scene<Occurrence>, event: Envelope, after: Connection, out: JuntaResult<()>| #[trigger]
                made.executes(origin, event, after, out) <==> passed_to(
                    self,
                    handler,
                    origin,
                    event,
                    after,
                    out,
                ),
    ;
}

impl<T: ProtocolMiddleware> ProtocolHandable for T {
    fn then_protocol<P: Protocol>(self, handler: P) -> (made: ProtocolChainHandler<Self, P>) {
        ProtocolChainHandler::new(self, handler)
    }
}

/// The middleware that leaves a value in the extension bag of every event,
/// under a key, and hands the event on.
pub struct Annotate {
    key: String,
    value: Payload,
}

impl Annotate {
    /// The key under which the value is left.
    pub closed spec fn key(&self) -> Seq<char> {
        self.key@
    }

    /// The value that is left.
    pub closed spec fn value(&self) -> crate::value::Tree {
        self.value@
    }

    pub fn new(key: String, value: Payload) -> (made: Annotate)
        ensures
            made.key() == key@,
            made.value() == value@,
    {
        Annotate { key, value }
    }
}

impl ProtocolMiddleware for Annotate {
    open spec fn ready(&self) -> bool {
        true
    }

    /// The event goes on as it came, with the value under the key in the
    /// bag of its context.
    open spec fn passes(&self, origin: Scene<Occurrence>, event: Envelope, passage: Passage) -> bool {
        passage matches Passage::Forward(ctx) && ctx.decoded()@ == event && ctx.scene() == (Scene {
            extensions: put(origin.extensions, self.key(), self.value()),
            ..origin
        })
    }

    fn call(&self, ctx: ChildContext<ClientEvent, Event>) -> (passage: Passage) {
        let mut ctx = ctx;
        let _ = ctx.extend(self.key.as_str(), self.value.duplicate());
        Passage::Forward(ctx)
    }
}

} // verus!
