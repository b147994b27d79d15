//! The combinators that every service has.
use vstd::prelude::*;
use crate::error::ServiceError;
use crate::pipe_chain::{piped, Pipe};
use crate::service::Service;
use crate::service_chain::{chained, ServiceChain};

verus! {

/// Chaining and piping, for every service.
pub trait ServiceExt: Service + Sized {
    /// This service first, then the other: the first of the two that takes
    /// an input gets it.
    fn or<S, I, O, E>(self, service: S) -> (chain: ServiceChain<Self, S>) where
        Self: Service<Input = I, Output = O, Error = E>,
        S: Service<Input = I, Output = O, Error = E>,
        E: From<ServiceError>,

        ensures
            chain.first() == self,
            chain.second() == service,
            chain.ready() <==> self.ready() && service.ready(),
            forall|input: I| #[trigger]
                chain.accepts(input) <==> self.accepts(input) || service.accepts(input),
            forall|input: I, out: Result<O, E>| #[trigger]
                chain.resolves(input, out) <==> chained(self, service, input, out),
    ;

    /// This service, then the other on its output.
    fn pipe<S, I, M, O, E>(self, service: S) -> (pipe: Pipe<Self, S>) where
        Self: Service<Input = I, Output = M, Error = E>,
        S: Service<Input = M, Output = O, Error = E>,

        ensures
            pipe.first() == self,
            pipe.second() == service,
            pipe.ready() <==> self.ready() && service.ready(),
            forall|input: I| #[trigger] pipe.accepts(input),
            forall|input: I, out: Result<O, E>| #[trigger]
                pipe.resolves(input, out) <==> piped(self, service, input, out),
    ;
}

impl<T: Service> ServiceExt for T {
    fn or<S, I, O, E>(self, service: S) -> (chain: ServiceChain<Self, S>) where
        Self: Service<Input = I, Output = O, Error = E>,
        S: Service<Input = I, Output = O, Error = E>,
        E: From<ServiceError>,
     {
        ServiceChain::new(self, service)
    }

    fn pipe<S, I, M, O, E>(self, service: S) -> (pipe: Pipe<Self, S>) where
        Self: Service<Input = I, Output = M, Error = E>,
        S: Service<Input = M, Output = O, Error = E>,
     {
        Pipe::new(self, service)
    }
}

} // verus!
