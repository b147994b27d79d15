//! A chain of two services: the first that takes the input gets it.
use vstd::prelude::*;
use crate::error::ServiceError;
use crate::service::{raised, Service};

verus! {

/// Two services of one input, output and error, the first of which is asked
/// first.
pub struct ServiceChain<S1, S2> {
    s1: S1,
    s2: S2,
}

impl<S1, S2> ServiceChain<S1, S2> {
    /// The service that is asked first.
    pub closed spec fn first(&self) -> S1 {
        self.s1
    }

    /// The service that is asked when the first does not take the input.
    pub closed spec fn second(&self) -> S2 {
        self.s2
    }

}

/// What a chain of two may resolve with: what the first of the two that takes
/// the input resolves with, and the failure `InvalidRequest` where neither
/// takes it.
pub open spec fn chained<S1, S2, I, O, E>(s1: S1, s2: S2, input: I, out: Result<O, E>) -> bool where
    S1: Service<Input = I, Output = O, Error = E>,
    S2: Service<Input = I, Output = O, Error = E>,
    E: From<ServiceError>,
 {
    if s1.accepts(input) {
        s1.resolves(input, out)
    } else if s2.accepts(input) {
        s2.resolves(input, out)
    } else {
        out is Err && raised(ServiceError::InvalidRequest, out->Err_0)
    }
}

impl<S1, S2, I, O, E> ServiceChain<S1, S2> where
    S1: Service<Input = I, Output = O, Error = E>,
    S2: Service<Input = I, Output = O, Error = E>,
    E: From<ServiceError>,
 {
    pub fn new(s1: S1, s2: S2) -> (chain: ServiceChain<S1, S2>)
        ensures
            chain.first() == s1,
            chain.second() == s2,
            chain.ready() <==> s1.ready() && s2.ready(),
            forall|input: I| #[trigger] chain.accepts(input) <==> s1.accepts(input) || s2.accepts(input),
            forall|input: I, out: Result<O, E>| #[trigger]
                chain.resolves(input, out) <==> chained(s1, s2, input, out),
    {
        ServiceChain { s1, s2 }
    }
}

impl<S1, S2> Service for ServiceChain<S1, S2> where
    S1: Service,
    S1::Error: From<ServiceError>,
    S2: Service<Input = S1::Input, Output = S1::Output, Error = S1::Error>,
 {
    type Input = S1::Input;

    type Output = S1::Output;

    type Error = S1::Error;

    open spec fn ready(&self) -> bool {
        self.first().ready() && self.second().ready()
    }

    /// The chain takes what either of the two takes.
    open spec fn accepts(&self, input: Self::Input) -> bool {
        self.first().accepts(input) || self.second().accepts(input)
    }

    /// The first service that takes the input is called, and no other. Where
    /// neither takes it, the chain resolves with the failure
    /// `InvalidRequest`.
    open spec fn resolves(&self, input: Self::Input, out: Result<Self::Output, Self::Error>) -> bool {
        chained(self.first(), self.second(), input, out)
    }

    fn call(&self, input: Self::Input) -> (out: Result<Self::Output, Self::Error>) {
        if self.s1.should_call(&input) {
            self.s1.call(input)
        } else if self.s2.should_call(&input) {
            self.s2.call(input)
        } else {
            Err(S1::Error::from(ServiceError::InvalidRequest))
        }
    }

    fn should_call(&self, input: &Self::Input) -> (b: bool) {
        self.s1.should_call(input) || self.s2.should_call(input)
    }
}

/// In a chain of three, the first service that takes the input is the one
/// that is called, whichever it is; where none takes it, the chain resolves
/// with the failure `InvalidRequest`. Longer chains nest in the same way.
pub proof fn lemma_first_match_wins<S1, S2, S3>(
    chain: ServiceChain<ServiceChain<S1, S2>, S3>,
    input: S1::Input,
    out: Result<S1::Output, S1::Error>,
) where
    S1: Service,
    S1::Error: From<ServiceError>,
    S2: Service<Input = S1::Input, Output = S1::Output, Error = S1::Error>,
    S3: Service<Input = S1::Input, Output = S1::Output, Error = S1::Error>,

    requires
        chain.resolves(input, out),
    ensures
        chain.accepts(input) <==> chain.first().first().accepts(input)
            || chain.first().second().accepts(input) || chain.second().accepts(input),
        if chain.first().first().accepts(input) {
            chain.first().first().resolves(input, out)
        } else if chain.first().second().accepts(input) {
            chain.first().second().resolves(input, out)
        } else if chain.second().accepts(input) {
            chain.second().resolves(input, out)
        } else {
            out is Err && raised(ServiceError::InvalidRequest, out->Err_0)
        },
{
}

} // verus!
