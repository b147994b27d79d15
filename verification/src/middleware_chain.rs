//! Middleware stacked on middleware: inputs enter the first, and what the
//! first hands on enters the second.
use vstd::prelude::*;
use crate::middleware::{stage, through, Deferred, Middleware, Next, Stage};
use crate::service::Service;
use std::sync::Arc;

verus! {

/// Calls `Arc::clone`, which makes another handle to the same value.
#[verifier::external_body]
pub(crate) fn share<T>(handle: &Arc<T>) -> (other: Arc<T>)
    ensures
        other == *handle,
{
    handle.clone()
}

/// What a middleware does as the next stage of another, given what its own
/// next stage does: what it hands back for an input, finished.
pub open spec fn linked<M, I, O, E, D>(middleware: M, next: Stage<I, O, E>) -> Stage<I, O, E> where
    M: Middleware<Input = I, Output = O, Error = E, Future = D>,
    D: Deferred<Input = I, Output = O, Error = E>,
 {
    |input: I, out: Result<O, E>|
        exists|fut: D| #[trigger] middleware.defers(input, fut) && fut.settles(next, out)
}

/// A middleware with a service as its next stage, both borrowed: what stands
/// behind the first middleware of a stack.
struct Link<'a, M, S> {
    middleware: &'a M,
    next: &'a S,
}

impl<'a, M, S> Service for Link<'a, M, S> where
    M: Middleware,
    S: Service<Input = M::Input, Output = M::Output, Error = M::Error>,
 {
    type Input = M::Input;

    type Output = M::Output;

    type Error = M::Error;

    closed spec fn ready(&self) -> bool {
        self.middleware.ready() && self.next.ready()
    }

    closed spec fn accepts(&self, input: M::Input) -> bool {
        true
    }

    closed spec fn resolves(&self, input: M::Input, out: Result<M::Output, M::Error>) -> bool {
        linked(*self.middleware, stage(*self.next))(input, out)
    }

    fn call(&self, input: M::Input) -> (out: Result<M::Output, M::Error>) {
        let fut = self.middleware.call(input, Next::new());
        assert(self.middleware.defers(input, fut));
        fut.settle(self.next)
    }

    fn should_call(&self, input: &M::Input) -> (b: bool) {
        true
    }
}

/// Two middleware, the first of which gets the input.
pub struct MiddlewareChain<S1, S2> {
    s1: Arc<S1>,
    s2: Arc<S2>,
}

impl<S1, S2> MiddlewareChain<S1, S2> {
    /// The middleware that gets the input.
    pub closed spec fn first(&self) -> S1 {
        *self.s1
    }

    /// The middleware that gets what the first hands on.
    pub closed spec fn second(&self) -> S2 {
        *self.s2
    }
}

impl<S1, S2, I, O, E, D1, D2> MiddlewareChain<S1, S2> where
    S1: Middleware<Input = I, Output = O, Error = E, Future = D1>,
    S2: Middleware<Input = I, Output = O, Error = E, Future = D2>,
    D1: Deferred<Input = I, Output = O, Error = E>,
    D2: Deferred<Input = I, Output = O, Error = E>,
 {
    pub fn new(s1: S1, s2: S2) -> (chain: MiddlewareChain<S1, S2>)
        ensures
            chain.first() == s1,
            chain.second() == s2,
            chain.ready() <==> s1.ready() && s2.ready(),
            forall|input: I, fut: MiddlewareChainFuture<D1, S2>| #[trigger]
                chain.defers(input, fut) <==> s1.defers(input, fut.upstream()) && fut.downstream()
                    == s2,
            forall|fut: MiddlewareChainFuture<D1, S2>, next: Stage<I, O, E>, out: Result<O, E>| #[trigger]
                fut.settles(next, out) <==> fut.upstream().settles(
                    linked(fut.downstream(), next),
                    out,
                ),
    {
        MiddlewareChain { s1: Arc::new(s1), s2: Arc::new(s2) }
    }
}

/// What a stack hands back: what its first middleware handed back, and the
/// second middleware, which is the next stage of the first.
pub struct MiddlewareChainFuture<D, M> {
    first: D,
    second: Arc<M>,
}

impl<D, M> MiddlewareChainFuture<D, M> {
    /// What the first middleware handed back.
    pub closed spec fn upstream(&self) -> D {
        self.first
    }

    /// The middleware that is the next stage of the first.
    pub closed spec fn downstream(&self) -> M {
        *self.second
    }

    pub fn new(first: D, second: Arc<M>) -> (fut: MiddlewareChainFuture<D, M>)
        ensures
            fut.upstream() == first,
            fut.downstream() == *second,
    {
        MiddlewareChainFuture { first, second }
    }
}

impl<D, M> Deferred for MiddlewareChainFuture<D, M> where
    M: Middleware,
    D: Deferred<Input = M::Input, Output = M::Output, Error = M::Error>,
 {
    type Input = M::Input;

    type Output = M::Output;

    type Error = M::Error;

    open spec fn ready(&self) -> bool {
        self.upstream().ready() && self.downstream().ready()
    }

    /// What the first middleware handed back is finished with the second
    /// middleware as its next stage; the next stage of the stack is that of
    /// the second middleware.
    open spec fn settles(
        &self,
        next: Stage<M::Input, M::Output, M::Error>,
        out: Result<M::Output, M::Error>,
    ) -> bool {
        self.upstream().settles(linked(self.downstream(), next), out)
    }

    fn settle<S: Service<Input = M::Input, Output = M::Output, Error = M::Error>>(
        self,
        next: &S,
    ) -> (out: Result<M::Output, M::Error>) {
        let link = Link { middleware: &*self.second, next };
        assert(stage(link) =~= linked(self.downstream(), stage(*next)));
        self.first.settle(&link)
    }
}

impl<S1, S2> Middleware for MiddlewareChain<S1, S2> where
    S1: Middleware,
    S2: Middleware<Input = S1::Input, Output = S1::Output, Error = S1::Error>,
 {
    type Input = S1::Input;

    type Output = S1::Output;

    type Error = S1::Error;

    type Future = MiddlewareChainFuture<S1::Future, S2>;

    open spec fn ready(&self) -> bool {
        self.first().ready() && self.second().ready()
    }

    /// The input enters the first middleware. What that one hands back
    /// comes with the second middleware, which is its next stage.
    open spec fn defers(&self, input: S1::Input, fut: MiddlewareChainFuture<S1::Future, S2>) -> bool {
        self.first().defers(input, fut.upstream()) && fut.downstream() == self.second()
    }

    fn call(&self, input: S1::Input, next: Next<S1::Input, S1::Output, S1::Error>) -> (fut:
        MiddlewareChainFuture<S1::Future, S2>) {
        let upstream = self.s1.call(input, Next::new());
        let fut = MiddlewareChainFuture::new(upstream, share(&self.s2));
        assert(fut.upstream().ready());
        assert(fut.downstream().ready());
        assert(fut.ready());
        fut
    }
}

/// Stacking, for every middleware.
pub trait MiddlewareChainable: Middleware + Sized {
    /// This middleware first, then the other: inputs enter this one, and
    /// what it hands on enters the other.
    fn stack<M, I, O, E, D1, D2>(self, other: M) -> (chain: MiddlewareChain<Self, M>) where
        Self: Middleware<Input = I, Output = O, Error = E, Future = D1>,
        M: Middleware<Input = I, Output = O, Error = E, Future = D2>,
        D1: Deferred<Input = I, Output = O, Error = E>,
        D2: Deferred<Input = I, Output = O, Error = E>,

        ensures
            chain.first() == self,
            chain.second() == other,
            chain.ready() <==> self.ready() && other.ready(),
            forall|input: I, fut: MiddlewareChainFuture<D1, M>| #[trigger]
                chain.defers(input, fut) <==> self.defers(input, fut.upstream()) && fut.downstream()
                    == other,
            forall|fut: MiddlewareChainFuture<D1, M>, next: Stage<I, O, E>, out: Result<O, E>| #[trigger]
                fut.settles(next, out) <==> fut.upstream().settles(
                    linked(fut.downstream(), next),
                    out,
                ),
    ;
}

impl<T: Middleware> MiddlewareChainable for T {
    fn stack<M, I, O, E, D1, D2>(self, other: M) -> (chain: MiddlewareChain<Self, M>) where
        Self: Middleware<Input = I, Output = O, Error = E, Future = D1>,
        M: Middleware<Input = I, Output = O, Error = E, Future = D2>,
        D1: Deferred<Input = I, Output = O, Error = E>,
        D2: Deferred<Input = I, Output = O, Error = E>,
     {
        MiddlewareChain::new(self, other)
    }
}

/// Inputs enter the first middleware of a stack first: whatever a stack in
/// front of a service resolves with is what its first middleware handed
/// back for the input, finished with the second middleware in front of the
/// service as the next stage.
pub proof fn lemma_stack_left_to_right<S1, S2, F>(
    chain: MiddlewareChain<S1, S2>,
    downstream: F,
    input: S1::Input,
    out: Result<S1::Output, S1::Error>,
) where
    S1: Middleware,
    S2: Middleware<Input = S1::Input, Output = S1::Output, Error = S1::Error>,
    F: Service<Input = S1::Input, Output = S1::Output, Error = S1::Error>,

    requires
        through(chain, downstream, input, out),
    ensures
        exists|upstream: S1::Future|
            #[trigger] chain.first().defers(input, upstream) && upstream.settles(
                linked(chain.second(), stage(downstream)),
                out,
            ),
{
    let fut = choose|fut: MiddlewareChainFuture<S1::Future, S2>| #[trigger]
        chain.defers(input, fut) && fut.settles(stage(downstream), out);
    assert(chain.first().defers(input, fut.upstream()));
}

/// A middleware in front of a service, where the service decides what the
/// two take.
pub struct ChainHandler<S, F> {
    s: Arc<S>,
    f: Arc<F>,
}

impl<S, F> ChainHandler<S, F> {
    /// The middleware.
    pub closed spec fn middleware(&self) -> S {
        *self.s
    }

    /// The service that the middleware hands on to.
    pub closed spec fn downstream(&self) -> F {
        *self.f
    }
}

impl<S, F, I, O, E, D> ChainHandler<S, F> where
    S: Middleware<Input = I, Output = O, Error = E, Future = D>,
    D: Deferred<Input = I, Output = O, Error = E>,
    F: Service<Input = I, Output = O, Error = E>,
 {
    pub fn new(s: S, f: F) -> (handler: ChainHandler<S, F>)
        ensures
            handler.middleware() == s,
            handler.downstream() == f,
            handler.ready() <==> s.ready() && f.ready(),
            forall|input: I| #[trigger] handler.accepts(input) <==> f.accepts(input),
            forall|input: I, out: Result<O, E>| #[trigger]
                handler.resolves(input, out) <==> through(s, f, input, out),
    {
        ChainHandler { s: Arc::new(s), f: Arc::new(f) }
    }
}

impl<S, F> Service for ChainHandler<S, F> where
    S: Middleware,
    F: Service<Input = S::Input, Output = S::Output, Error = S::Error>,
 {
    type Input = S::Input;

    type Output = S::Output;

    type Error = S::Error;

    open spec fn ready(&self) -> bool {
        self.middleware().ready() && self.downstream().ready()
    }

    /// The handler takes what the service behind the middleware takes.
    open spec fn accepts(&self, input: S::Input) -> bool {
        self.downstream().accepts(input)
    }

    open spec fn resolves(&self, input: S::Input, out: Result<S::Output, S::Error>) -> bool {
        through(self.middleware(), self.downstream(), input, out)
    }

    fn call(&self, input: S::Input) -> (out: Result<S::Output, S::Error>) {
        let fut = self.s.call(input, Next::new());
        assert(self.middleware().defers(input, fut));
        fut.settle(&*self.f)
    }

    fn should_call(&self, input: &S::Input) -> (b: bool) {
        self.f.should_call(input)
    }
}

} // verus!
