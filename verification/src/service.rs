//! Services: units with an input, an output and an error, and a predicate
//! that tells whether a unit takes an input.
use vstd::prelude::*;
use crate::error::ServiceError;

verus! {

/// A callable unit. A chain consults `should_call` before it hands an input
/// over; the answer is pure, so that asking twice gives one answer.
pub trait Service {
    type Input;

    type Output;

    type Error;

    /// What has to hold of the service for it to be called.
    spec fn ready(&self) -> bool;

    /// Whether the service takes the input.
    spec fn accepts(&self, input: Self::Input) -> bool;

    /// What a call on the input may resolve with.
    spec fn resolves(&self, input: Self::Input, out: Result<Self::Output, Self::Error>) -> bool;

    fn call(&self, input: Self::Input) -> (out: Result<Self::Output, Self::Error>)
        requires
            self.ready(),
        ensures
            self.resolves(input, out),
    ;

    fn should_call(&self, input: &Self::Input) -> (b: bool)
        requires
            self.ready(),
        ensures
            b == self.accepts(*input),
    ;
}

/// What turns into a service.
pub trait IntoService {
    type Service: Service;

    /// The service that the value turns into.
    spec fn service(self) -> Self::Service;

    fn into_service(self) -> (service: Self::Service)
        ensures
            service == self.service(),
    ;
}

impl<T: Service> IntoService for T {
    type Service = T;

    open spec fn service(self) -> T {
        self
    }

    fn into_service(self) -> (service: T) {
        self
    }
}

/// The error is what the conversion from a pipeline failure yields.
pub open spec fn raised<E: From<ServiceError>>(failure: ServiceError, error: E) -> bool {
    call_ensures(E::from, (failure,), error)
}

/// The function can be called on every input.
pub open spec fn total<F: Fn(I) -> U, I, U>(function: F) -> bool {
    forall|input: I| call_requires(function, (input,))
}

/// A service made of a function. It takes every input.
pub struct ServiceFn<F, I> {
    inner: F,
    _i: core::marker::PhantomData<I>,
}

impl<F, I> ServiceFn<F, I> {
    /// The function that the service calls.
    pub closed spec fn function(&self) -> F {
        self.inner
    }
}

impl<F, I, O, E> Service for ServiceFn<F, I> where F: Fn(I) -> Result<O, E> {
    type Input = I;

    type Output = O;

    type Error = E;

    /// The function takes every input.
    open spec fn ready(&self) -> bool {
        total::<F, I, Result<O, E>>(self.function())
    }

    open spec fn accepts(&self, input: I) -> bool {
        true
    }

    /// The call resolves with what the function returns.
    open spec fn resolves(&self, input: I, out: Result<O, E>) -> bool {
        call_ensures(self.function(), (input,), out)
    }

    fn call(&self, input: I) -> (out: Result<O, E>) {
        assert(call_requires(self.function(), (input,)));
        (self.inner)(input)
    }

    fn should_call(&self, input: &I) -> (b: bool) {
        true
    }
}

/// Makes a service of a function.
pub fn service_fn<F, I, O, E>(service: F) -> (made: ServiceFn<F, I>) where F: Fn(I) -> Result<O, E>
    ensures
        made.function() == service,
        made.ready() <==> total::<F, I, Result<O, E>>(service),
        forall|input: I| #[trigger] made.accepts(input),
        forall|input: I, out: Result<O, E>| #[trigger]
            made.resolves(input, out) <==> call_ensures(service, (input,), out),
{
    ServiceFn { inner: service, _i: core::marker::PhantomData }
}

/// Calls a service. The result is typed by the output and the error that the
/// caller names, so that what is known of the service applies to it.
pub fn invoke<S, I, O, E>(service: &S, input: I) -> (out: Result<O, E>) where
    S: Service<Input = I, Output = O, Error = E>,

    requires
        service.ready(),
    ensures
        service.resolves(input, out),
{
    service.call(input)
}

/// Asks a service whether it takes an input: as [`invoke`], for
/// `should_call`.
pub fn asks<S, I>(service: &S, input: &I) -> (b: bool) where S: Service<Input = I>
    requires
        service.ready(),
    ensures
        b == service.accepts(*input),
{
    service.should_call(input)
}

/// A service behind a predicate: it takes the inputs that the predicate
/// holds of.
pub struct CheckService<F, S> {
    check: F,
    service: S,
}

impl<F, S> CheckService<F, S> {
    /// The predicate.
    pub closed spec fn predicate(&self) -> F {
        self.check
    }

    /// The service behind the predicate.
    pub closed spec fn inner(&self) -> S {
        self.service
    }
}

/// The predicate takes every input and gives one answer for each.
pub open spec fn decides<F: Fn(&I) -> bool, I>(check: F) -> bool {
    &&& forall|input: I| call_requires(check, (&input,))
    &&& forall|input: I|
        !(call_ensures(check, (&input,), true) && call_ensures(check, (&input,), false))
}

impl<F, S, I> CheckService<F, S> where
    S: Service<Input = I>,
    S::Error: From<ServiceError>,
    F: Fn(&I) -> bool,
 {
    pub fn new(check: F, service: S) -> (made: CheckService<F, S>)
        ensures
            made.predicate() == check,
            made.inner() == service,
            made.ready() <==> service.ready() && decides::<F, I>(check),
            forall|input: I| #[trigger] made.accepts(input) <==> call_ensures(check, (&input,), true),
            forall|input: I, out: Result<S::Output, S::Error>| #[trigger]
                made.resolves(input, out) <==> if call_ensures(check, (&input,), true) {
                    service.resolves(input, out)
                } else {
                    out is Err && raised(ServiceError::InvalidRequest, out->Err_0)
                },
    {
        CheckService { check, service }
    }
}

impl<F, S> Service for CheckService<F, S> where
    S: Service,
    S::Error: From<ServiceError>,
    F: Fn(&S::Input) -> bool,
 {
    type Input = S::Input;

    type Output = S::Output;

    type Error = S::Error;

    /// The predicate takes every input and gives one answer for each, and
    /// the service behind it can be called.
    open spec fn ready(&self) -> bool {
        self.inner().ready() && decides::<F, S::Input>(self.predicate())
    }

    /// The predicate decides.
    open spec fn accepts(&self, input: S::Input) -> bool {
        call_ensures(self.predicate(), (&input,), true)
    }

    /// An input that the predicate holds of goes to the service. Any other
    /// is refused with the failure `InvalidRequest`.
    open spec fn resolves(&self, input: S::Input, out: Result<S::Output, S::Error>) -> bool {
        if self.accepts(input) {
            self.inner().resolves(input, out)
        } else {
            out is Err && raised(ServiceError::InvalidRequest, out->Err_0)
        }
    }

    fn call(&self, input: S::Input) -> (out: Result<S::Output, S::Error>) {
        assert(call_requires(self.predicate(), (&input,)));
        if (self.check)(&input) {
            self.service.call(input)
        } else {
            Err(S::Error::from(ServiceError::InvalidRequest))
        }
    }

    fn should_call(&self, input: &S::Input) -> (b: bool) {
        assert(call_requires(self.predicate(), (input,)));
        (self.check)(input)
    }
}

/// Puts a service behind a predicate.
pub fn check_fn<F, S, I>(check: F, service: S) -> (made: CheckService<F, S>) where
    S: Service<Input = I>,
    S::Error: From<ServiceError>,
    F: Fn(&I) -> bool,

    ensures
        made.predicate() == check,
        made.inner() == service,
        made.ready() <==> service.ready() && decides::<F, I>(check),
        forall|input: I| #[trigger] made.accepts(input) <==> call_ensures(check, (&input,), true),
        forall|input: I, out: Result<S::Output, S::Error>| #[trigger]
            made.resolves(input, out) <==> if call_ensures(check, (&input,), true) {
                service.resolves(input, out)
            } else {
                out is Err && raised(ServiceError::InvalidRequest, out->Err_0)
            },
{
    CheckService::new(check, service)
}

} // verus!
