use junta::client::Client;
use junta::context::{ChildContext, Context, Scene};
use junta::error::{JuntaError, JuntaResult};
use junta::event::{Envelope, Event, EventType, ResResult};
use junta::message::{ClientEvent, MessageContent, Occurrence, OwnedMessage};
use junta::protocol::ProtocolService;
use junta::protocol_middleware::{
    Annotate, Passage, ProtocolChainHandler, ProtocolHandable, ProtocolMiddleware,
    ProtocolMiddlewareChainable,
};
use junta::request_protocol::protocol_req_fn;
use junta::server::Server;
use junta::value::Payload;

fn tenant(ctx: Context<Payload>) -> (Client, Result<Payload, JuntaError>) {
    let reply = match ctx.extension("tenant") {
        Some(value) => Ok(value.clone()),
        None => Err(JuntaError::unknown("nobody")),
    };
    (ctx.into_client(), reply)
}

struct Deny;

impl ProtocolMiddleware for Deny {
    fn ready(&self) -> bool {
        unreachable!()
    }

    fn passes(&self, _origin: Scene<Occurrence>, _event: Envelope, _passage: Passage) -> bool {
        unreachable!()
    }

    fn call(&self, ctx: ChildContext<ClientEvent, Event>) -> Passage {
        Passage::Resolve(
            ctx.into_parent().into_client(),
            Err(JuntaError::unknown("denied")),
        )
    }
}

fn ask(name: &str) -> OwnedMessage {
    OwnedMessage::Text(
        Event::new(1, EventType::Req(name.to_string(), Payload::Null))
            .to_text()
            .unwrap(),
    )
}

fn reply_of(frame: &OwnedMessage) -> Event {
    match frame {
        OwnedMessage::Text(text) => Event::try_from(&MessageContent::Text(text.clone())).unwrap(),
        other => panic!("no text frame: {:?}", other),
    }
}

#[test]
fn middleware_leaves_a_value_for_the_protocol() {
    let annotate = Annotate::new("tenant".to_string(), Payload::Text("acme".to_string()));
    let arm = annotate.then_protocol(protocol_req_fn("who", tenant));
    let mut server = Server::new(ProtocolService::new(arm));
    server.connect(1, "peer".to_string()).unwrap();
    server.receive(1, ask("who")).unwrap();
    let frames = server.drain(1).unwrap();
    assert_eq!(frames.len(), 1);
    assert_eq!(
        reply_of(&frames[0]).event_type,
        EventType::Res("who".to_string(), ResResult::Success(Payload::Text("acme".to_string())))
    );
}

#[test]
fn protocol_without_the_middleware_finds_nothing() {
    let mut server = Server::new(ProtocolService::new(protocol_req_fn("who", tenant)));
    server.connect(1, "peer".to_string()).unwrap();
    server.receive(1, ask("who")).unwrap();
    let frames = server.drain(1).unwrap();
    assert!(matches!(
        reply_of(&frames[0]).event_type,
        EventType::Res(_, ResResult::Failure(_))
    ));
}

#[test]
fn middleware_that_resolves_leaves_the_protocol_uncalled() {
    let arm = ProtocolChainHandler::new(Deny, protocol_req_fn("who", tenant));
    let mut server = Server::new(ProtocolService::new(arm));
    server.connect(1, "peer".to_string()).unwrap();
    let out: JuntaResult<()> = server.receive(1, ask("who"));
    assert_eq!(out.unwrap_err().to_text(), "denied");
    assert_eq!(server.drain(1), Some(vec![]));
    // The handler takes what the protocol takes, whatever stands in front.
    assert!(server.receive(1, ask("other")).is_err());
}

#[test]
fn stacked_middleware_are_entered_in_their_order() {
    let first = Annotate::new("tenant".to_string(), Payload::Text("first".to_string()));
    let second = Annotate::new("tenant".to_string(), Payload::Text("second".to_string()));
    let arm = first.stack(second).then_protocol(protocol_req_fn("who", tenant));
    let mut server = Server::new(ProtocolService::new(arm));
    server.connect(1, "peer".to_string()).unwrap();
    server.receive(1, ask("who")).unwrap();
    let frames = server.drain(1).unwrap();
    // The second wrote last.
    assert_eq!(
        reply_of(&frames[0]).event_type,
        EventType::Res("who".to_string(), ResResult::Success(Payload::Text("second".to_string())))
    );
    let arm = Annotate::new("tenant".to_string(), Payload::Null)
        .stack(Deny)
        .then_protocol(protocol_req_fn("who", tenant));
    let mut server = Server::new(ProtocolService::new(arm));
    server.connect(1, "peer".to_string()).unwrap();
    assert_eq!(server.receive(1, ask("who")).unwrap_err().to_text(), "denied");
}
