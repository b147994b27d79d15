//! Two services in a row: the output of the first is the input of the
//! second.
use vstd::prelude::*;
use crate::service::Service;

verus! {

/// A service followed by another that takes its output.
pub struct Pipe<S1, S2> {
    s1: S1,
    s2: S2,
}

impl<S1, S2> Pipe<S1, S2> {
    /// The service that gets the input.
    pub closed spec fn first(&self) -> S1 {
        self.s1
    }

    /// The service that gets the output of the first.
    pub closed spec fn second(&self) -> S2 {
        self.s2
    }

}

/// What two services in a row may resolve with: the error of the first, or
/// what the second makes of the output of the first.
pub open spec fn piped<S1, S2, I, M, O, E>(s1: S1, s2: S2, input: I, out: Result<O, E>) -> bool where
    S1: Service<Input = I, Output = M, Error = E>,
    S2: Service<Input = M, Output = O, Error = E>,
 {
    exists|between: Result<M, E>|
        {
            &&& #[trigger] s1.resolves(input, between)
            &&& match between {
                Ok(value) => s2.resolves(value, out),
                Err(error) => out == Err::<O, E>(error),
            }
        }
}

impl<S1, S2, I, M, O, E> Pipe<S1, S2> where
    S1: Service<Input = I, Output = M, Error = E>,
    S2: Service<Input = M, Output = O, Error = E>,
 {
    pub fn new(s1: S1, s2: S2) -> (pipe: Pipe<S1, S2>)
        ensures
            pipe.first() == s1,
            pipe.second() == s2,
            pipe.ready() <==> s1.ready() && s2.ready(),
            forall|input: I| #[trigger] pipe.accepts(input),
            forall|input: I, out: Result<O, E>| #[trigger]
                pipe.resolves(input, out) <==> piped(s1, s2, input, out),
    {
        Pipe { s1, s2 }
    }
}

impl<S1, S2> Service for Pipe<S1, S2> where
    S1: Service,
    S2: Service<Input = S1::Output, Error = S1::Error>,
 {
    type Input = S1::Input;

    type Output = S2::Output;

    type Error = S1::Error;

    open spec fn ready(&self) -> bool {
        self.first().ready() && self.second().ready()
    }

    /// A pipe takes every input.
    open spec fn accepts(&self, input: Self::Input) -> bool {
        true
    }

    /// Where the first service fails, the pipe fails with its error and the
    /// second is not called. Else the pipe resolves with what the second
    /// makes of the output of the first.
    open spec fn resolves(&self, input: Self::Input, out: Result<Self::Output, Self::Error>) -> bool {
        piped(self.first(), self.second(), input, out)
    }

    fn call(&self, input: Self::Input) -> (out: Result<Self::Output, Self::Error>) {
        let between = self.s1.call(input);
        assert(self.first().resolves(input, between));
        match between {
            Ok(value) => self.s2.call(value),
            Err(error) => Err(error),
        }
    }

    fn should_call(&self, input: &Self::Input) -> (b: bool) {
        true
    }
}

} // verus!
