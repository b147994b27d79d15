//! What the server hands each event of a connection to.
use vstd::prelude::*;
use crate::client::{Client, Connection};
use crate::context::{Context, Scene};
use crate::error::{JuntaError, JuntaErrorKind, JuntaResult, ServiceError};
use crate::message::{ClientEvent, Occurrence};

verus! {

impl Connection {
    /// The same connection at a later time: its identity, the address of its
    /// peer and the depth of its queue are as before, and it is well formed
    /// if it was.
    pub open spec fn follows(self, before: Connection) -> bool {
        &&& self.id == before.id
        &&& self.address == before.address
        &&& self.depth == before.depth
        &&& before.wf() ==> self.wf()
    }
}

/// A unit that handles the events of a connection. It gets the context of
/// the event, which holds the state of the connection, and hands the state
/// back with the outcome.
pub trait Handler {
    /// What has to hold of the handler for it to be called.
    spec fn ready(&self) -> bool;

    /// Whether the handler takes the event. A chain asks this before it hands
    /// the event over.
    spec fn accepts(&self, scene: Scene<Occurrence>) -> bool;

    /// What handling an event may lead to: the state in which the connection
    /// is left, and the outcome.
    spec fn handles(&self, before: Scene<Occurrence>, after: Connection, out: JuntaResult<()>) -> bool;

    fn handle(&self, ctx: Context<ClientEvent>) -> (done: (Client, JuntaResult<()>))
        requires
            self.ready(),
        ensures
            self.handles(ctx.scene(), done.0@, done.1),
            done.0@.follows(ctx@.client),
    ;

    fn check(&self, ctx: &Context<ClientEvent>) -> (b: bool)
        requires
            self.ready(),
        ensures
            b == self.accepts(ctx.scene()),
    ;
}

/// What turns into a handler.
pub trait IntoHandler {
    type Handler: Handler;

    /// The handler that the value turns into.
    spec fn handler(self) -> Self::Handler;

    fn into_handler(self) -> (handler: Self::Handler)
        ensures
            handler == self.handler(),
    ;
}

impl<T: Handler> IntoHandler for T {
    type Handler = T;

    open spec fn handler(self) -> T {
        self
    }

    fn into_handler(self) -> (handler: T) {
        self
    }
}

/// The function takes every context, and hands back the connection that it
/// was given: the same id, address and depth, and well formed if it was.
pub open spec fn handles_all<F: Fn(Context<ClientEvent>) -> (Client, JuntaResult<()>)>(
    function: F,
) -> bool {
    &&& forall|ctx: Context<ClientEvent>| call_requires(function, (ctx,))
    &&& forall|ctx: Context<ClientEvent>, done: (Client, JuntaResult<()>)|
        call_ensures(function, (ctx,), done) ==> done.0@.follows(ctx@.client)
}

/// Some call of the function leads from the scene to the connection and the
/// outcome.
pub open spec fn ran<F: Fn(Context<ClientEvent>) -> (Client, JuntaResult<()>)>(
    function: F,
    before: Scene<Occurrence>,
    after: Connection,
    out: JuntaResult<()>,
) -> bool {
    exists|ctx: Context<ClientEvent>, client: Client|
        ctx.scene() == before && client@ == after && #[trigger] call_ensures(
            function,
            (ctx,),
            (client, out),
        )
}

/// A handler made of a function.
pub struct HandleFn<F> {
    inner: F,
}

impl<F: Fn(Context<ClientEvent>) -> (Client, JuntaResult<()>)> HandleFn<F> {
    /// The function that the handler calls.
    pub closed spec fn function(&self) -> F {
        self.inner
    }
}

impl<F: Fn(Context<ClientEvent>) -> (Client, JuntaResult<()>)> Handler for HandleFn<F> {
    /// The function takes every context, and hands back the connection that
    /// it was given.
    open spec fn ready(&self) -> bool {
        handles_all(self.function())
    }

    open spec fn accepts(&self, scene: Scene<Occurrence>) -> bool {
        true
    }

    /// Some call of the function leads from the one to the other.
    open spec fn handles(&self, before: Scene<Occurrence>, after: Connection, out: JuntaResult<()>) -> bool {
        ran(self.function(), before, after, out)
    }

    fn handle(&self, ctx: Context<ClientEvent>) -> (done: (Client, JuntaResult<()>)) {
        assert(call_requires(self.function(), (ctx,)));
        let done = (self.inner)(ctx);
        assert(call_ensures(self.function(), (ctx,), (done.0, done.1)));
        done
    }

    fn check(&self, ctx: &Context<ClientEvent>) -> (b: bool) {
        true
    }
}

/// Makes a handler of a function. The handler takes every event.
pub fn handle_fn<F: Fn(Context<ClientEvent>) -> (Client, JuntaResult<()>)>(service: F) -> (handler:
    HandleFn<F>)
    ensures
        handler.function() == service,
        handler.ready() <==> handles_all(service),
        forall|scene: Scene<Occurrence>| #[trigger] handler.accepts(scene),
        forall|before: Scene<Occurrence>, after: Connection, out: JuntaResult<()>| #[trigger]
            handler.handles(before, after, out) <==> ran(service, before, after, out),
{
    HandleFn { inner: service }
}

/// What a chain of two handlers may lead to: what the first of the two that
/// takes the event leads to; where neither takes it, the connection is left
/// as it was and the outcome is the failure `InvalidRequest`.
pub open spec fn handled_in_chain<S1: Handler, S2: Handler>(
    s1: S1,
    s2: S2,
    before: Scene<Occurrence>,
    after: Connection,
    out: JuntaResult<()>,
) -> bool {
    if s1.accepts(before) {
        s1.handles(before, after, out)
    } else if s2.accepts(before) {
        s2.handles(before, after, out)
    } else {
        after == before.client && out is Err && out->Err_0.is_service(ServiceError::InvalidRequest)
    }
}

/// Two handlers, the first of which is asked first.
pub struct HandlerChain<S1, S2> {
    s1: S1,
    s2: S2,
}

impl<S1, S2> HandlerChain<S1, S2> {
    /// The handler that is asked first.
    pub closed spec fn first(&self) -> S1 {
        self.s1
    }

    /// The handler that is asked when the first does not take the event.
    pub closed spec fn second(&self) -> S2 {
        self.s2
    }
}

impl<S1: Handler, S2: Handler> HandlerChain<S1, S2> {
    pub fn new(s1: S1, s2: S2) -> (chain: HandlerChain<S1, S2>)
        ensures
            chain.first() == s1,
            chain.second() == s2,
            chain.ready() <==> s1.ready() && s2.ready(),
            forall|scene: Scene<Occurrence>| #[trigger]
                chain.accepts(scene) <==> s1.accepts(scene) || s2.accepts(scene),
            forall|before: Scene<Occurrence>, after: Connection, out: JuntaResult<()>| #[trigger]
                chain.handles(before, after, out) <==> handled_in_chain(s1, s2, before, after, out),
    {
        HandlerChain { s1, s2 }
    }
}

impl<S1: Handler, S2: Handler> Handler for HandlerChain<S1, S2> {
    open spec fn ready(&self) -> bool {
        self.first().ready() && self.second().ready()
    }

    /// The chain takes what either of the two takes.
    open spec fn accepts(&self, scene: Scene<Occurrence>) -> bool {
        self.first().accepts(scene) || self.second().accepts(scene)
    }

    /// The first handler that takes the event handles it, and no other. Where
    /// neither takes it, the connection is left as it was and the outcome is
    /// the failure `InvalidRequest`.
    open spec fn handles(&self, before: Scene<Occurrence>, after: Connection, out: JuntaResult<()>) -> bool {
        handled_in_chain(self.first(), self.second(), before, after, out)
    }

    fn handle(&self, ctx: Context<ClientEvent>) -> (done: (Client, JuntaResult<()>)) {
        if self.s1.check(&ctx) {
            self.s1.handle(ctx)
        } else if self.s2.check(&ctx) {
            self.s2.handle(ctx)
        } else {
            (
                ctx.into_client(),
                Err(JuntaError::new(JuntaErrorKind::Service(ServiceError::InvalidRequest))),
            )
        }
    }

    fn check(&self, ctx: &Context<ClientEvent>) -> (b: bool) {
        self.s1.check(ctx) || self.s2.check(ctx)
    }
}

/// Chaining for every handler.
pub trait HandlerExt: Handler + Sized {
    /// This handler first, then the other.
    fn or<S: Handler>(self, service: S) -> (chain: HandlerChain<Self, S>)
        ensures
            chain.first() == self,
            chain.second() == service,
            chain.ready() <==> self.ready() && service.ready(),
            forall|scene: Scene<Occurrence>| #[trigger]
                chain.accepts(scene) <==> self.accepts(scene) || service.accepts(scene),
            forall|before: Scene<Occurrence>, after: Connection, out: JuntaResult<()>| #[trigger]
                chain.handles(before, after, out) <==> handled_in_chain(
                    self,
                    service,
                    before,
                    after,
                    out,
                ),
    ;
}

impl<T: Handler> HandlerExt for T {
    fn or<S: Handler>(self, service: S) -> (chain: HandlerChain<Self, S>) {
        HandlerChain::new(self, service)
    }
}

} // verus!
