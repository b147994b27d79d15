//! The decisions of the two polled state machines of the framework, for a
//! program that drives them with non-blocking I/O: the glue between a
//! middleware and its next stage, and the pump of a connection.
//!
//! The program does the polling and reports what it saw; the functions here
//! say what follows.
use vstd::prelude::*;
use crate::error::{JuntaError, JuntaErrorKind, ServiceError};
use crate::message::OwnedMessage;

verus! {

/// What polling yields when it does not fail.
#[derive(Debug, PartialEq, Eq)]
pub enum Async<T> {
    Ready(T),
    NotReady,
}

/// What polling yields.
pub type Poll<T, E> = Result<Async<T>, E>;

/// Where the glue between a middleware and its next stage stands.
#[derive(Clone, Copy, Debug, PartialEq, Eq, Structural)]
pub enum ChainState {
    /// The future whose value has to reach the result channel is still
    /// being polled.
    UpstreamPending,
    /// The value was forwarded; only the other future is polled.
    DownstreamPending,
    /// The chain is resolved.
    Done,
}

/// What the glue does after the first future was polled.
#[derive(Debug, PartialEq, Eq)]
pub enum Forwarding<O, E> {
    /// Put the value on the result channel, then poll the second future.
    Forward(O),
    /// Poll the second future.
    Proceed,
    /// The chain resolves with this error; nothing else is polled.
    Fail(E),
}

/// The glue between a middleware and its next stage, as a state machine.
#[derive(Debug, PartialEq, Eq)]
pub struct ChainPoll {
    pub state: ChainState,
}

impl ChainPoll {
    /// The glue of a chain that has not been polled.
    pub fn new() -> (chain: ChainPoll)
        ensures
            chain.state == ChainState::UpstreamPending,
    {
        ChainPoll { state: ChainState::UpstreamPending }
    }

    /// True while the first future is to be polled.
    pub fn polls_upstream(&self) -> (b: bool)
        ensures
            b == (self.state == ChainState::UpstreamPending),
    {
        match self.state {
            ChainState::UpstreamPending => true,
            _ => false,
        }
    }

    /// The state after the first future was polled with the given outcome.
    pub open spec fn after_upstream<O, E>(state: ChainState, polled: Poll<O, E>) -> ChainState {
        match state {
            ChainState::UpstreamPending => match polled {
                Ok(Async::Ready(_)) => ChainState::DownstreamPending,
                Ok(Async::NotReady) => ChainState::UpstreamPending,
                Err(_) => ChainState::Done,
            },
            other => other,
        }
    }

    /// Takes the outcome of polling the first future. A value is forwarded
    /// and the first future is done with; an error ends the chain; while the
    /// future is not ready the state stays. Outside the first state nothing
    /// is forwarded and nothing fails.
    pub fn upstream<O, E>(&mut self, polled: Poll<O, E>) -> (next: Forwarding<O, E>)
        ensures
            final(self).state == Self::after_upstream(old(self).state, polled),
            next == match (old(self).state, polled) {
                (ChainState::UpstreamPending, Ok(Async::Ready(value))) => Forwarding::Forward(value),
                (ChainState::UpstreamPending, Err(error)) => Forwarding::Fail(error),
                _ => Forwarding::Proceed,
            },
    {
        match self.state {
            ChainState::UpstreamPending => match polled {
                Ok(Async::Ready(value)) => {
                    self.state = ChainState::DownstreamPending;
                    Forwarding::Forward(value)
                },
                Ok(Async::NotReady) => Forwarding::Proceed,
                Err(error) => {
                    self.state = ChainState::Done;
                    Forwarding::Fail(error)
                },
            },
            _ => Forwarding::Proceed,
        }
    }

    /// Takes the outcome of polling the second future, which is the outcome
    /// of the chain. The chain is done once that future is.
    pub fn downstream<O, E>(&mut self, polled: Poll<O, E>) -> (out: Poll<O, E>)
        ensures
            out == polled,
            final(self).state == if polled is Ok && polled->Ok_0 is NotReady {
                old(self).state
            } else {
                ChainState::Done
            },
    {
        match &polled {
            Ok(Async::NotReady) => {},
            _ => {
                self.state = ChainState::Done;
            },
        }
        polled
    }
}

/// What polling a stream of frames yielded.
#[derive(Debug, PartialEq, Eq)]
pub enum Inbound {
    /// The stream has ended.
    Ended,
    /// The stream yielded a frame.
    Item(OwnedMessage),
    /// The stream has nothing yet.
    NotReady,
    /// The stream failed.
    Failed,
}

/// What the pump does after it polled one of its two streams.
#[derive(Debug)]
pub enum Pumping {
    /// Hand the frame to the other side, then poll the same stream again.
    Pass(OwnedMessage),
    /// Go on with the next step of the round.
    Proceed,
    /// The round is over, with this outcome.
    Finish(Poll<(), JuntaError>),
}

/// What the pump sees of the close trigger at the end of a round.
#[derive(Clone, Copy, Debug, PartialEq, Eq, Structural)]
pub enum Trigger {
    /// The trigger fired: a close frame has gone out.
    Fired,
    /// The trigger has not fired.
    NotReady,
    /// The trigger is gone: the connection is not held any more.
    Canceled,
}

/// The pump of a connection: it moves frames between the socket and the two
/// queues of the connection until the connection closes.
#[derive(Debug, PartialEq, Eq)]
pub struct ClientFuture {
    closed: bool,
    fired: bool,
}

impl ClientFuture {
    /// Whether the pump has closed its sink.
    pub closed spec fn is_closed(&self) -> bool {
        self.closed
    }

    /// Whether a close frame has gone out to the socket.
    pub closed spec fn has_fired(&self) -> bool {
        self.fired
    }

    /// What the pump sees of the close trigger: it has fired once a close
    /// frame has gone out; else it is gone where the connection is not held
    /// any more.
    pub open spec fn observed(&self, held: bool) -> Trigger {
        if self.has_fired() {
            Trigger::Fired
        } else if held {
            Trigger::NotReady
        } else {
            Trigger::Canceled
        }
    }

    /// The pump of a connection that is open.
    pub fn new() -> (pump: ClientFuture)
        ensures
            !pump.is_closed(),
            !pump.has_fired(),
    {
        ClientFuture { closed: false, fired: false }
    }

    /// At the start of a round: a pump that has closed its sink is done, and
    /// polls nothing.
    pub fn begin(&self) -> (done: Option<Poll<(), JuntaError>>)
        ensures
            match done {
                Some(out) => self.is_closed() && out == Ok::<Async<()>, JuntaError>(Async::Ready(())),
                None => !self.is_closed(),
            },
    {
        if self.closed {
            Some(Ok(Async::Ready(())))
        } else {
            None
        }
    }

    /// After polling the outbound queue or the inbound stream. The end of
    /// either ends the pump; a frame is passed on; a failure ends the pump
    /// with `ReceiverClosed`.
    pub fn stream(&self, polled: Inbound) -> (next: Pumping)
        ensures
            match polled {
                Inbound::Ended => next matches Pumping::Finish(Ok(Async::Ready(_))),
                Inbound::Item(frame) => next matches Pumping::Pass(passed) && passed == frame,
                Inbound::NotReady => next is Proceed,
                Inbound::Failed => next matches Pumping::Finish(Err(error)) && error.is_service(
                    ServiceError::ReceiverClosed,
                ),
            },
    {
        match polled {
            Inbound::Ended => Pumping::Finish(Ok(Async::Ready(()))),
            Inbound::Item(frame) => Pumping::Pass(frame),
            Inbound::NotReady => Pumping::Proceed,
            Inbound::Failed => Pumping::Finish(
                Err(JuntaError::new(JuntaErrorKind::Service(ServiceError::ReceiverClosed))),
            ),
        }
    }

    /// After the sink of the socket took an outbound frame. A close frame
    /// that has gone out fires the close trigger.
    pub fn sent(&mut self, frame: &OwnedMessage)
        ensures
            final(self).is_closed() == old(self).is_closed(),
            final(self).has_fired() == (old(self).has_fired() || frame@ is Close),
    {
        match frame {
            OwnedMessage::Close(_) => {
                self.fired = true;
            },
            _ => {},
        }
    }

    /// After writing to or flushing the sink of the socket. A failure ends
    /// the pump with a transport error that carries its message.
    pub fn flushed_sink(&self, failure: Option<String>) -> (next: Pumping)
        ensures
            match failure {
                None => next is Proceed,
                Some(message) => next matches Pumping::Finish(Err(error)) && error.kind
                    == JuntaErrorKind::Transport(message),
            },
    {
        match failure {
            None => Pumping::Proceed,
            Some(message) => Pumping::Finish(
                Err(JuntaError::new(JuntaErrorKind::Transport(message))),
            ),
        }
    }

    /// At the end of a round, given whether the connection is still held.
    /// `close_sink`, the first of the pair, tells whether the sink is to be
    /// closed now: exactly when the trigger has fired, and from then on the
    /// pump is closed. A trigger that is gone ends the pump; else the round
    /// ends not ready.
    pub fn round_end(&mut self, held: bool) -> (done: (bool, Poll<(), JuntaError>))
        ensures
            done.0 == (old(self).observed(held) == Trigger::Fired),
            final(self).is_closed() == (old(self).is_closed() || old(self).observed(held)
                == Trigger::Fired),
            final(self).has_fired() == old(self).has_fired(),
            done.1 == if old(self).observed(held) == Trigger::Canceled {
                Ok::<Async<()>, JuntaError>(Async::Ready(()))
            } else {
                Ok::<Async<()>, JuntaError>(Async::NotReady)
            },
    {
        if self.fired {
            self.closed = true;
            (true, Ok(Async::NotReady))
        } else if held {
            (false, Ok(Async::NotReady))
        } else {
            (false, Ok(Async::Ready(())))
        }
    }
}

} // verus!
