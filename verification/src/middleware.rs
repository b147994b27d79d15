//! Middleware: units that get an input together with a continuation, and
//! that either resolve on their own or hand an input on to the next stage.
use vstd::prelude::*;
use crate::error::ServiceError;
use crate::service::{raised, Service};
use std::sync::Arc;

verus! {

/// The continuation that a middleware is given. It can be used once:
/// calling it consumes it.
pub struct Next<I, O, E> {
    _i: core::marker::PhantomData<I>,
    _o: core::marker::PhantomData<O>,
    _e: core::marker::PhantomData<E>,
}

impl<I, O, E> Next<I, O, E> {
    pub fn new() -> (next: Next<I, O, E>) {
        Next {
            _i: core::marker::PhantomData,
            _o: core::marker::PhantomData,
            _e: core::marker::PhantomData,
        }
    }

    /// Hands an input, rewritten or not, on to the next stage. What comes
    /// back resolves with what the next stage resolves with.
    pub fn call(self, req: I) -> (fut: NextFuture<I, O, E>)
        ensures
            fut.forwards() == Some(req),
    {
        NextFuture::new(req)
    }
}

/// What a stage does, as a relation: the stage may resolve a call on the
/// input with the result.
pub type Stage<I, O, E> = spec_fn(I, Result<O, E>) -> bool;

/// What a service does as a stage.
pub open spec fn stage<S, I, O, E>(service: S) -> Stage<I, O, E> where
    S: Service<Input = I, Output = O, Error = E>,
 {
    |input: I, out: Result<O, E>| service.resolves(input, out)
}

/// What a middleware hands back: a computation that is finished once the
/// next stage, if it is called at all, has resolved.
pub trait Deferred {
    type Input;

    type Output;

    type Error;

    /// What has to hold of the computation for it to be finished.
    spec fn ready(&self) -> bool;

    /// What the computation may resolve with, given what the next stage
    /// does.
    spec fn settles(
        &self,
        next: Stage<Self::Input, Self::Output, Self::Error>,
        out: Result<Self::Output, Self::Error>,
    ) -> bool;

    /// Finishes the computation. The next stage is called where the
    /// computation hands an input on, and not otherwise.
    fn settle<S: Service<Input = Self::Input, Output = Self::Output, Error = Self::Error>>(
        self,
        next: &S,
    ) -> (out: Result<Self::Output, Self::Error>)
        requires
            self.ready(),
            next.ready(),
        ensures
            self.settles(stage(*next), out),
    ;
}

/// The computation that waits for the next stage and resolves with what the
/// next stage resolves with.
pub struct NextFuture<I, O, E> {
    inner: Option<I>,
    _o: core::marker::PhantomData<O>,
    _e: core::marker::PhantomData<E>,
}

impl<I, O, E> NextFuture<I, O, E> {
    /// The input that is handed on to the next stage, if there is one.
    pub closed spec fn forwards(&self) -> Option<I> {
        self.inner
    }

    /// The computation that hands this input on.
    pub fn new(req: I) -> (fut: NextFuture<I, O, E>)
        ensures
            fut.forwards() == Some(req),
    {
        NextFuture { inner: Some(req), _o: core::marker::PhantomData, _e: core::marker::PhantomData }
    }

    /// The computation that has nothing to hand on. It fails with
    /// `NullFuture`.
    pub fn null() -> (fut: NextFuture<I, O, E>)
        ensures
            fut.forwards() is None,
    {
        NextFuture { inner: None, _o: core::marker::PhantomData, _e: core::marker::PhantomData }
    }
}

impl<I, O, E: From<ServiceError>> Deferred for NextFuture<I, O, E> {
    type Input = I;

    type Output = O;

    type Error = E;

    open spec fn ready(&self) -> bool {
        true
    }

    /// The next stage is called on the input that was handed on, and its
    /// resolution is the resolution: an error of the next stage is final.
    /// With nothing to hand on, the computation fails with `NullFuture`.
    open spec fn settles(&self, next: Stage<I, O, E>, out: Result<O, E>) -> bool {
        match self.forwards() {
            Some(req) => next(req, out),
            None => out is Err && raised(ServiceError::NullFuture, out->Err_0),
        }
    }

    fn settle<S: Service<Input = I, Output = O, Error = E>>(self, next: &S) -> (out: Result<O, E>) {
        match self.inner {
            Some(req) => next.call(req),
            None => Err(E::from(ServiceError::NullFuture)),
        }
    }
}

/// The computation that is finished already: what a middleware hands back
/// when it resolves without calling the continuation.
pub struct FutureResult<I, O, E> {
    result: Result<O, E>,
    _i: core::marker::PhantomData<I>,
}

impl<I, O, E> FutureResult<I, O, E> {
    /// What the computation resolves with.
    pub closed spec fn result(&self) -> Result<O, E> {
        self.result
    }

    pub fn new(result: Result<O, E>) -> (fut: FutureResult<I, O, E>)
        ensures
            fut.result() == result,
    {
        FutureResult { result, _i: core::marker::PhantomData }
    }
}

impl<I, O, E> Deferred for FutureResult<I, O, E> {
    type Input = I;

    type Output = O;

    type Error = E;

    open spec fn ready(&self) -> bool {
        true
    }

    /// The resolution is the result that the computation was made with,
    /// whatever the next stage is: the next stage is not called.
    open spec fn settles(&self, next: Stage<I, O, E>, out: Result<O, E>) -> bool {
        out == self.result()
    }

    fn settle<S: Service<Input = I, Output = O, Error = E>>(self, next: &S) -> (out: Result<O, E>) {
        self.result
    }
}

/// The function can be called on every value.
pub open spec fn total_once<G: FnOnce(T) -> U, T, U>(function: G) -> bool {
    forall|value: T| call_requires(function, (value,))
}

/// A computation followed by a function on its value: what a middleware hands
/// back when it has work to do after the next stage.
pub struct AndThen<D, G> {
    inner: D,
    after: G,
}

impl<D, G> AndThen<D, G> {
    /// The computation that comes first.
    pub closed spec fn first(&self) -> D {
        self.inner
    }

    /// The function that gets the value of the computation.
    pub closed spec fn function(&self) -> G {
        self.after
    }
}

impl<D, G> AndThen<D, G> where D: Deferred, G: FnOnce(D::Output) -> Result<D::Output, D::Error> {
    pub fn new(inner: D, after: G) -> (fut: AndThen<D, G>)
        ensures
            fut.first() == inner,
            fut.function() == after,
            fut.ready() <==> inner.ready() && total_once::<G, D::Output, Result<D::Output, D::Error>>(
                after,
            ),
    {
        AndThen { inner, after }
    }
}

impl<D, G> Deferred for AndThen<D, G> where
    D: Deferred,
    G: FnOnce(D::Output) -> Result<D::Output, D::Error>,
 {
    type Input = D::Input;

    type Output = D::Output;

    type Error = D::Error;

    /// The computation can be finished, and the function takes every value.
    open spec fn ready(&self) -> bool {
        self.first().ready() && total_once::<G, D::Output, Result<D::Output, D::Error>>(
            self.function(),
        )
    }

    /// Where the computation fails, its error is the outcome and the
    /// function is not called. Else the outcome is what the function makes
    /// of the value.
    open spec fn settles(
        &self,
        next: Stage<D::Input, D::Output, D::Error>,
        out: Result<D::Output, D::Error>,
    ) -> bool {
        exists|between: Result<D::Output, D::Error>|
            {
                &&& #[trigger] self.first().settles(next, between)
                &&& match between {
                    Ok(value) => call_ensures(self.function(), (value,), out),
                    Err(error) => out == Err::<D::Output, D::Error>(error),
                }
            }
    }

    fn settle<S: Service<Input = D::Input, Output = D::Output, Error = D::Error>>(
        self,
        next: &S,
    ) -> (out: Result<D::Output, D::Error>) {
        let between = self.inner.settle(next);
        assert(self.first().settles(stage(*next), between));
        match between {
            Ok(value) => {
                assert(call_requires(self.function(), (value,)));
                (self.after)(value)
            },
            Err(error) => Err(error),
        }
    }
}

/// Work after the next stage, for every computation.
pub trait DeferredExt: Deferred + Sized {
    /// This computation, followed by the function on its value.
    fn and_then<G>(self, after: G) -> (fut: AndThen<Self, G>) where
        G: FnOnce(Self::Output) -> Result<Self::Output, Self::Error>,

        ensures
            fut.first() == self,
            fut.function() == after,
            fut.ready() <==> self.ready() && total_once::<G, Self::Output, Result<
                Self::Output,
                Self::Error,
            >>(after),
    ;
}

impl<T: Deferred> DeferredExt for T {
    fn and_then<G>(self, after: G) -> (fut: AndThen<Self, G>) where
        G: FnOnce(Self::Output) -> Result<Self::Output, Self::Error>,
     {
        AndThen::new(self, after)
    }
}

/// A unit that gets an input and a continuation.
pub trait Middleware {
    type Input;

    type Output;

    type Error;

    type Future: Deferred<Input = Self::Input, Output = Self::Output, Error = Self::Error>;

    /// What has to hold of the middleware for it to be called.
    spec fn ready(&self) -> bool;

    /// What a call on the input may hand back.
    spec fn defers(&self, input: Self::Input, fut: Self::Future) -> bool;

    fn call(&self, input: Self::Input, next: Next<Self::Input, Self::Output, Self::Error>) -> (fut:
        Self::Future)
        requires
            self.ready(),
        ensures
            self.defers(input, fut),
            fut.ready(),
    ;
}

/// What turns into a middleware.
pub trait IntoMiddleware {
    type Middleware: Middleware;

    /// The middleware that the value turns into.
    spec fn middleware(self) -> Self::Middleware;

    fn into_middleware(self) -> (middleware: Self::Middleware)
        ensures
            middleware == self.middleware(),
    ;
}

impl<T: Middleware> IntoMiddleware for T {
    type Middleware = T;

    open spec fn middleware(self) -> T {
        self
    }

    fn into_middleware(self) -> (middleware: T) {
        self
    }
}

/// The function takes every input and continuation, and what it hands back
/// can be finished.
pub open spec fn defers_all<F, I, O, E, U>(function: F) -> bool where
    F: Fn(I, Next<I, O, E>) -> U,
    U: Deferred<Input = I, Output = O, Error = E>,
 {
    &&& forall|input: I, next: Next<I, O, E>| call_requires(function, (input, next))
    &&& forall|input: I, next: Next<I, O, E>, fut: U|
        call_ensures(function, (input, next), fut) ==> fut.ready()
}

/// A middleware made of a function.
pub struct MiddlewareFn<F, I, O, E> {
    inner: F,
    _i: core::marker::PhantomData<I>,
    _o: core::marker::PhantomData<O>,
    _e: core::marker::PhantomData<E>,
}

impl<F, I, O, E> MiddlewareFn<F, I, O, E> {
    /// The function that the middleware calls.
    pub closed spec fn function(&self) -> F {
        self.inner
    }
}

impl<F, I, O, E, U> Middleware for MiddlewareFn<F, I, O, E> where
    F: Fn(I, Next<I, O, E>) -> U,
    U: Deferred<Input = I, Output = O, Error = E>,
 {
    type Input = I;

    type Output = O;

    type Error = E;

    type Future = U;

    /// The function takes every input, and what it hands back can be
    /// finished.
    open spec fn ready(&self) -> bool {
        defers_all::<F, I, O, E, U>(self.function())
    }

    /// The call hands back what the function returns.
    open spec fn defers(&self, input: I, fut: U) -> bool {
        deferred_by::<F, I, O, E, U>(self.function(), input, fut)
    }

    fn call(&self, input: I, next: Next<I, O, E>) -> (fut: U) {
        assert(call_requires(self.function(), (input, next)));
        let fut = (self.inner)(input, next);
        assert(call_ensures(self.function(), (input, next), fut));
        fut
    }
}

/// Makes a middleware of a function.
pub fn middleware_fn<F, I, O, E, U>(service: F) -> (made: MiddlewareFn<F, I, O, E>) where
    F: Fn(I, Next<I, O, E>) -> U,
    U: Deferred<Input = I, Output = O, Error = E>,

    ensures
        made.function() == service,
        made.ready() <==> defers_all::<F, I, O, E, U>(service),
        forall|input: I, fut: U| #[trigger]
            made.defers(input, fut) <==> deferred_by::<F, I, O, E, U>(service, input, fut),
{
    MiddlewareFn {
        inner: service,
        _i: core::marker::PhantomData,
        _o: core::marker::PhantomData,
        _e: core::marker::PhantomData,
    }
}

/// A middleware in front of a service: the service is the next stage of the
/// middleware.
pub struct ThenServiceHandler<S, F> {
    s: S,
    f: Arc<F>,
}

impl<S, F> ThenServiceHandler<S, F> {
    /// The middleware.
    pub closed spec fn middleware(&self) -> S {
        self.s
    }

    /// The service that the middleware hands on to.
    pub closed spec fn downstream(&self) -> F {
        *self.f
    }
}

impl<S, F, I, O, E, D> ThenServiceHandler<S, F> where
    S: Middleware<Input = I, Output = O, Error = E, Future = D>,
    D: Deferred<Input = I, Output = O, Error = E>,
    F: Service<Input = I, Output = O, Error = E>,
 {
    pub fn new(s: S, f: F) -> (handler: ThenServiceHandler<S, F>)
        ensures
            handler.middleware() == s,
            handler.downstream() == f,
            handler.ready() <==> s.ready() && f.ready(),
            forall|input: I| #[trigger] handler.accepts(input),
            forall|input: I, out: Result<O, E>| #[trigger]
                handler.resolves(input, out) <==> through(s, f, input, out),
    {
        ThenServiceHandler { s, f: Arc::new(f) }
    }
}

/// What a middleware in front of a service may resolve with: what the
/// middleware hands back, finished with the service as the next stage.
pub open spec fn through<M, F, I, O, E, D>(
    middleware: M,
    downstream: F,
    input: I,
    out: Result<O, E>,
) -> bool where
    M: Middleware<Input = I, Output = O, Error = E, Future = D>,
    D: Deferred<Input = I, Output = O, Error = E>,
    F: Service<Input = I, Output = O, Error = E>,
 {
    exists|fut: D| #[trigger] middleware.defers(input, fut) && fut.settles(stage(downstream), out)
}

/// What a function hands back for an input, whatever the continuation.
pub open spec fn deferred_by<F, I, O, E, U>(function: F, input: I, fut: U) -> bool where
    F: Fn(I, Next<I, O, E>) -> U,
 {
    exists|next: Next<I, O, E>| #[trigger] call_ensures(function, (input, next), fut)
}

impl<S, F> Service for ThenServiceHandler<S, F> where
    S: Middleware,
    F: Service<Input = S::Input, Output = S::Output, Error = S::Error>,
 {
    type Input = S::Input;

    type Output = S::Output;

    type Error = S::Error;

    open spec fn ready(&self) -> bool {
        self.middleware().ready() && self.downstream().ready()
    }

    /// The handler takes every input.
    open spec fn accepts(&self, input: S::Input) -> bool {
        true
    }

    open spec fn resolves(&self, input: S::Input, out: Result<S::Output, S::Error>) -> bool {
        through(self.middleware(), self.downstream(), input, out)
    }

    fn call(&self, input: S::Input) -> (out: Result<S::Output, S::Error>) {
        let fut = self.s.call(input, Next::new());
        assert(self.middleware().defers(input, fut));
        fut.settle(&*self.f)
    }

    fn should_call(&self, input: &S::Input) -> (b: bool) {
        true
    }
}

/// Putting a service behind a middleware, for every middleware.
pub trait ThenService: Middleware + Sized {
    /// This middleware with the service as its next stage.
    fn then<F, I, O, E, D>(self, service: F) -> (handler: ThenServiceHandler<Self, F>) where
        Self: Middleware<Input = I, Output = O, Error = E, Future = D>,
        D: Deferred<Input = I, Output = O, Error = E>,
        F: Service<Input = I, Output = O, Error = E>,

        ensures
            handler.middleware() == self,
            handler.downstream() == service,
            handler.ready() <==> self.ready() && service.ready(),
            forall|input: I| #[trigger] handler.accepts(input),
            forall|input: I, out: Result<O, E>| #[trigger]
                handler.resolves(input, out) <==> through(self, service, input, out),
    ;
}

impl<T: Middleware> ThenService for T {
    fn then<F, I, O, E, D>(self, service: F) -> (handler: ThenServiceHandler<Self, F>) where
        Self: Middleware<Input = I, Output = O, Error = E, Future = D>,
        D: Deferred<Input = I, Output = O, Error = E>,
        F: Service<Input = I, Output = O, Error = E>,
     {
        ThenServiceHandler::new(self, service)
    }
}

/// A middleware that resolves without calling the continuation leaves the
/// next stage uncalled: where everything that the middleware hands back for
/// an input is finished already, the handler resolves with it whatever
/// service stands behind the middleware.
pub proof fn lemma_short_circuit<M, I, O, E, F, G>(
    middleware: M,
    downstream: F,
    other: G,
    input: I,
    out: Result<O, E>,
) where
    M: Middleware<Input = I, Output = O, Error = E, Future = FutureResult<I, O, E>>,
    F: Service<Input = I, Output = O, Error = E>,
    G: Service<Input = I, Output = O, Error = E>,

    ensures
        through(middleware, downstream, input, out) <==> through(middleware, other, input, out),
        through(middleware, downstream, input, out) <==> exists|fut: FutureResult<I, O, E>|
            #[trigger] middleware.defers(input, fut) && fut.result() == out,
{
    if through(middleware, downstream, input, out) {
        let fut = choose|fut: FutureResult<I, O, E>| #[trigger]
            middleware.defers(input, fut) && fut.settles(stage(downstream), out);
        assert(middleware.defers(input, fut) && fut.settles(stage(other), out));
    }
    if through(middleware, other, input, out) {
        let fut = choose|fut: FutureResult<I, O, E>| #[trigger]
            middleware.defers(input, fut) && fut.settles(stage(other), out);
        assert(middleware.defers(input, fut) && fut.settles(stage(downstream), out));
    }
    if exists|fut: FutureResult<I, O, E>| #[trigger]
        middleware.defers(input, fut) && fut.result() == out {
        let fut = choose|fut: FutureResult<I, O, E>| #[trigger]
            middleware.defers(input, fut) && fut.result() == out;
        assert(middleware.defers(input, fut) && fut.settles(stage(downstream), out));
    }
}

} // verus!
