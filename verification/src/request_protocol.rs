//! The arm that answers the requests of the peer: a name, and the service
//! that computes the reply.
use vstd::prelude::*;
use crate::client::{Client, Connection};
use crate::client_ext::sent_as;
use crate::context::{BorrowedContext, ChildContext, Context, Scene};
use crate::error::{Describe, JuntaError, JuntaResult};
use crate::event::{Envelope, Event, EventType, Failure, Kind, ResError, ResResult};
use crate::message::{ClientEvent, Occurrence};
use crate::handler::Handler;
use crate::protocol::{Protocol, ProtocolService};
use crate::response_protocol::ResponseProtocol;
use crate::value::{Payload, Tree};

verus! {

/// The message of the error for an event that is no request.
pub open spec fn invalid_request() -> Seq<char> {
    "invalid request"@
}

/// A service that computes the reply to a request. It gets the context of
/// the frame with the value of the request as its payload, and hands back
/// the state of the connection with the value of the reply, or with the
/// reason why there is none.
pub trait RequestProtocolService {
    type Error: Describe;

    /// What has to hold of the service for it to be called.
    spec fn ready(&self) -> bool;

    /// What serving a request may lead to.
    spec fn serves(
        &self,
        before: Scene<Tree>,
        after: Connection,
        out: Result<Payload, Self::Error>,
    ) -> bool;

    fn execute(&self, ctx: Context<Payload>) -> (done: (Client, Result<Payload, Self::Error>))
        requires
            self.ready(),
        ensures
            self.serves(ctx.scene(), done.0@, done.1),
            done.0@.follows(ctx.scene().client),
    ;
}

/// The function takes every context, and hands back the connection that it
/// was given: the same id, address and depth, and well formed if it was.
pub open spec fn serves_all<E, F: Fn(Context<Payload>) -> (Client, Result<Payload, E>)>(
    function: F,
) -> bool {
    &&& forall|ctx: Context<Payload>| call_requires(function, (ctx,))
    &&& forall|ctx: Context<Payload>, done: (Client, Result<Payload, E>)|
        call_ensures(function, (ctx,), done) ==> done.0@.follows(ctx@.client)
}

/// Some call of the function leads from the scene to the connection and the
/// outcome.
pub open spec fn served<E, F: Fn(Context<Payload>) -> (Client, Result<Payload, E>)>(
    function: F,
    before: Scene<Tree>,
    after: Connection,
    out: Result<Payload, E>,
) -> bool {
    exists|ctx: Context<Payload>, client: Client|
        ctx.scene() == before && client@ == after && #[trigger] call_ensures(
            function,
            (ctx,),
            (client, out),
        )
}

/// A request service made of a function.
pub struct RequestProtocolServiceFn<F> {
    inner: F,
}

impl<F> RequestProtocolServiceFn<F> {
    /// The function that the service calls.
    pub closed spec fn function(&self) -> F {
        self.inner
    }
}

impl<E: Describe, F: Fn(Context<Payload>) -> (Client, Result<Payload, E>)> RequestProtocolServiceFn<
    F,
> {
    /// The arm that answers the requests of the given name with this
    /// service.
    pub fn into_protocol(self, name: &str) -> (arm: RequestProtocol<Self>)
        ensures
            arm.name() == name@,
            arm.service() == self,
            arm.ready() <==> serves_all::<E, F>(self.function()),
            forall|origin: Scene<Occurrence>, event: Envelope| #[trigger]
                arm.accepts(origin, event) <==> asked_of(name@, event),
            forall|origin: Scene<Occurrence>, event: Envelope, after: Connection, out: JuntaResult<()>| #[trigger]
                arm.executes(origin, event, after, out) <==> answered_by(
                    self,
                    origin,
                    event,
                    after,
                    out,
                ),
            forall|before: Scene<Tree>, after: Connection, out: Result<Payload, E>| #[trigger]
                self.serves(before, after, out) <==> served::<E, F>(
                    self.function(),
                    before,
                    after,
                    out,
                ),
    {
        RequestProtocol::new(name, self)
    }
}

impl<E: Describe, F: Fn(Context<Payload>) -> (Client, Result<Payload, E>)> RequestProtocolService for RequestProtocolServiceFn<
    F,
> {
    type Error = E;

    /// The function takes every context, and hands back the connection that
    /// it was given.
    open spec fn ready(&self) -> bool {
        serves_all::<E, F>(self.function())
    }

    /// Some call of the function leads from the one to the other.
    open spec fn serves(&self, before: Scene<Tree>, after: Connection, out: Result<Payload, E>) -> bool {
        served::<E, F>(self.function(), before, after, out)
    }

    fn execute(&self, ctx: Context<Payload>) -> (done: (Client, Result<Payload, E>)) {
        assert(call_requires(self.function(), (ctx,)));
        let done = (self.inner)(ctx);
        assert(call_ensures(self.function(), (ctx,), (done.0, done.1)));
        done
    }
}

/// Makes the arm that answers the requests of the given name with a
/// function.
pub fn protocol_req_fn<E: Describe, F: Fn(Context<Payload>) -> (Client, Result<Payload, E>)>(
    name: &str,
    func: F,
) -> (arm: RequestProtocol<RequestProtocolServiceFn<F>>)
    ensures
        arm.name() == name@,
        arm.service().function() == func,
        arm.ready() <==> serves_all::<E, F>(func),
        forall|origin: Scene<Occurrence>, event: Envelope| #[trigger]
            arm.accepts(origin, event) <==> asked_of(name@, event),
        forall|origin: Scene<Occurrence>, event: Envelope, after: Connection, out: JuntaResult<()>| #[trigger]
            arm.executes(origin, event, after, out) <==> answered_by(
                arm.service(),
                origin,
                event,
                after,
                out,
            ),
        forall|before: Scene<Tree>, after: Connection, out: Result<Payload, E>| #[trigger]
            arm.service().serves(before, after, out) <==> served::<E, F>(func, before, after, out),
{
    RequestProtocol::new(name, RequestProtocolServiceFn { inner: func })
}

/// The arm that answers the requests of one name.
pub struct RequestProtocol<S> {
    service: S,
    name: String,
}

impl<S> RequestProtocol<S> {
    /// The name of the requests that the arm answers.
    pub closed spec fn name(&self) -> Seq<char> {
        self.name@
    }

    /// The service that computes the replies.
    pub closed spec fn service(&self) -> S {
        self.service
    }
}

impl<S, E> RequestProtocol<S> where S: RequestProtocolService<Error = E>, E: Describe {
    pub fn new(name: &str, service: S) -> (arm: RequestProtocol<S>)
        ensures
            arm.name() == name@,
            arm.service() == service,
            arm.ready() <==> service.ready(),
            forall|origin: Scene<Occurrence>, event: Envelope| #[trigger]
                arm.accepts(origin, event) <==> asked_of(name@, event),
            forall|origin: Scene<Occurrence>, event: Envelope, after: Connection, out: JuntaResult<()>| #[trigger]
                arm.executes(origin, event, after, out) <==> answered_by(
                    service,
                    origin,
                    event,
                    after,
                    out,
                ),
    {
        RequestProtocol { service, name: name.to_owned() }
    }
}

impl<S: RequestProtocolService> RequestProtocol<S> {
    /// The handler that decodes data frames and hands the events to this
    /// arm.
    pub fn into_service(self) -> (handler: ProtocolService<Self>)
        ensures
            handler.pipeline().first() == ResponseProtocol,
            handler.pipeline().second() == self,
            handler.ready() <==> self.ready(),
            forall|scene: Scene<Occurrence>| #[trigger]
                handler.accepts(scene) <==> crate::protocol::decodes_for(self, scene),
            forall|before: Scene<Occurrence>, after: Connection, out: JuntaResult<()>| #[trigger]
                handler.handles(before, after, out) <==> crate::protocol::decoded_for(
                    self,
                    before,
                    after,
                    out,
                ),
    {
        ProtocolService::new(self)
    }
}

/// The result that the reply to a request carries: the value that the
/// service computed, or a failure with the code 0 and what the error of the
/// service says.
pub open spec fn reply_result<E: Describe>(computed: Result<Payload, E>) -> ResResult<Tree, Failure> {
    match computed {
        Ok(value) => ResResult::Success(value@),
        Err(error) => ResResult::Failure(Failure { code: 0, message: error.description() }),
    }
}

/// The reply to a request: a response with the id and the name of the
/// request.
pub open spec fn reply<E: Describe>(id: usize, name: Seq<char>, computed: Result<Payload, E>) -> Envelope {
    Envelope { id, kind: Kind::Res(name, reply_result(computed)) }
}

/// What sending an event to the peer of a connection leads to, in the
/// encoding given: the frame joins the outbound queue if the event encodes
/// and the queue has room, and else nothing changes and the sending fails.
pub open spec fn sent(
    before: Connection,
    event: Envelope,
    binary: bool,
    after: Connection,
    out: JuntaResult<()>,
) -> bool {
    sent_as(before, event.tree(), binary, after, out)
}

/// Builds the reply to a request from what the service computed.
pub fn make_reply<E: Describe>(id: usize, name: String, computed: Result<Payload, E>) -> (event:
    Event)
    ensures
        event@ == reply(id, name@, computed),
{
    let result = match computed {
        Ok(value) => ResResult::Success(value),
        Err(error) => ResResult::Failure(ResError::new(error.describe())),
    };
    Event::new(id, EventType::Res(name, result))
}

/// Encodes an event, binary for a binary frame and text for a text frame,
/// and puts it on the outbound queue of the connection.
pub fn send_event(client: &mut Client, event: Event, binary: bool) -> (out: JuntaResult<()>)
    ensures
        sent(old(client)@, event@, binary, final(client)@, out),
{
    match event.encode(binary) {
        Ok(content) => client.send(content),
        Err(error) => Err(error),
    }
}

/// What answering an event with a service may lead to. A request goes to the
/// service with its value as the payload; the reply carries the id and the
/// name of the request and what the service computed, and is sent in the
/// encoding of the frame that carried the request. Any other event fails and
/// changes nothing.
pub open spec fn answered_by<S, E>(
    service: S,
    origin: Scene<Occurrence>,
    event: Envelope,
    after: Connection,
    out: JuntaResult<()>,
) -> bool where S: RequestProtocolService<Error = E>, E: Describe {
    match event.kind {
        Kind::Req(name, value) => exists|served: Connection, computed: Result<Payload, E>|
            {
                &&& #[trigger] service.serves(
                    Scene {
                        client: origin.client,
                        message: value,
                        binary: origin.binary,
                        extensions: origin.extensions,
                        peers: origin.peers,
                    },
                    served,
                    computed,
                )
                &&& served.follows(origin.client)
                &&& sent(served, reply(event.id, name, computed), origin.binary, after, out)
            },
        _ => after == origin.client && out is Err && out->Err_0.is_unknown(invalid_request()),
    }
}

/// Whether an arm of the given name takes an event: a request of that name,
/// and nothing else.
pub open spec fn asked_of(name: Seq<char>, event: Envelope) -> bool {
    match event.kind {
        Kind::Req(asked, _) => asked == name,
        _ => false,
    }
}

impl<S: RequestProtocolService> Protocol for RequestProtocol<S> {
    open spec fn ready(&self) -> bool {
        self.service().ready()
    }

    /// The arm takes the requests of its own name, and nothing else.
    open spec fn accepts(&self, origin: Scene<Occurrence>, event: Envelope) -> bool {
        asked_of(self.name(), event)
    }

    /// A request goes to the service with its value as the payload. The
    /// reply carries the id and the name of the request, and what the
    /// service computed; it is sent in the encoding of the frame that
    /// carried the request. Any other event fails and changes nothing.
    open spec fn executes(
        &self,
        origin: Scene<Occurrence>,
        event: Envelope,
        after: Connection,
        out: JuntaResult<()>,
    ) -> bool {
        answered_by(self.service(), origin, event, after, out)
    }

    fn execute(&self, ctx: ChildContext<ClientEvent, Event>) -> (done: (Client, JuntaResult<()>)) {
        let (parent, event) = ctx.into_parts();
        match event.event_type {
            EventType::Req(name, value) => {
                let binary = parent.binary();
                let (request, _) = parent.with_message(value);
                let ghost asked = request.scene();
                let (mut client, computed) = self.service.execute(request);
                let ghost served = client@;
                let answer = make_reply(event.id, name, computed);
                let out = send_event(&mut client, answer, binary);
                assert(self.service().serves(asked, served, computed));
                (client, out)
            },
            _ => (parent.into_client(), Err(JuntaError::unknown("invalid request"))),
        }
    }

    fn check(&self, ctx: &BorrowedContext<ClientEvent, Event>) -> (b: bool) {
        match &ctx.message().event_type {
            EventType::Req(name, _) => *name == self.name,
            _ => false,
        }
    }
}

} // verus!
