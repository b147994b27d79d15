use junta::client::Client;
use junta::context::Context;
use junta::context_ext::ContextExt;
use junta::error::{JuntaError, JuntaErrorKind, JuntaResult, ServiceError};
use junta::event::{Event, EventType, ResError, ResResult};
use junta::handler::{handle_fn, Handler};
use junta::message::{ClientEvent, CloseData, MessageContent, OwnedMessage};
use junta::protocol::{ProtocolExt, ProtocolService};
use junta::request_protocol::protocol_req_fn;
use junta::server::{negotiate, Server};
use junta::value::Payload;

fn greeting(ctx: Context<Payload>) -> (Client, Result<Payload, JuntaError>) {
    let reply = match ctx.message() {
        Payload::Text(name) => Ok(Payload::Text(format!("Hello, {}", name))),
        _ => Err(JuntaError::unknown("a name is expected")),
    };
    (ctx.into_client(), reply)
}

fn fail(ctx: Context<Payload>) -> (Client, Result<Payload, JuntaError>) {
    (
        ctx.into_client(),
        Err(JuntaError::new(JuntaErrorKind::Unknown("boom".to_string()))),
    )
}

fn binary(event: &Event) -> OwnedMessage {
    OwnedMessage::Binary(event.to_binary().unwrap())
}

fn text(event: &Event) -> OwnedMessage {
    OwnedMessage::Text(event.to_text().unwrap())
}

fn decode(frame: &OwnedMessage) -> Event {
    match frame {
        OwnedMessage::Binary(bytes) => {
            Event::try_from(&MessageContent::Binary(bytes.clone())).unwrap()
        }
        OwnedMessage::Text(text) => Event::try_from(&MessageContent::Text(text.clone())).unwrap(),
        other => panic!("no data frame: {:?}", other),
    }
}

#[test]
fn request_gets_its_response() {
    let mut server = Server::new(ProtocolService::new(protocol_req_fn("greeting", greeting)));
    server.connect(1, "127.0.0.1:1".to_string()).unwrap();
    let request = Event::new(1, EventType::Req("greeting".to_string(), Payload::Text("Alice".to_string())));
    server.receive(1, binary(&request)).unwrap();
    let frames = server.drain(1).unwrap();
    assert_eq!(frames.len(), 1);
    assert!(matches!(frames[0], OwnedMessage::Binary(_)));
    assert_eq!(
        decode(&frames[0]),
        Event::new(
            1,
            EventType::Res(
                "greeting".to_string(),
                ResResult::Success(Payload::Text("Hello, Alice".to_string()))
            )
        )
    );
}

#[test]
fn reply_to_a_text_frame_is_a_text_frame() {
    let mut server = Server::new(ProtocolService::new(protocol_req_fn("greeting", greeting)));
    server.connect(1, "peer".to_string()).unwrap();
    let request = Event::new(9, EventType::Req("greeting".to_string(), Payload::Text("Bob".to_string())));
    server.receive(1, text(&request)).unwrap();
    let frames = server.drain(1).unwrap();
    assert_eq!(
        frames,
        vec![OwnedMessage::Text(
            r#"{"id":9,"type":{"Res":["greeting",{"Ok":"Hello, Bob"}]}}"#.to_string()
        )]
    );
}

#[test]
fn request_of_an_unknown_name_falls_through() {
    let mut server = Server::new(ProtocolService::new(protocol_req_fn("greeting", greeting)));
    server.connect(1, "peer".to_string()).unwrap();
    let request = Event::new(2, EventType::Req("unknown".to_string(), Payload::Null));
    let failed = server.receive(1, binary(&request)).unwrap_err();
    assert!(matches!(
        failed.kind(),
        JuntaErrorKind::Service(ServiceError::InvalidRequest)
    ));
    assert_eq!(failed.to_text(), "InvalidRequest");
    // No response frame, and the connection remains open.
    assert_eq!(server.drain(1), Some(vec![]));
    assert!(server.client(1).is_some());
    assert!(server.client(1).unwrap().is_open());
}

#[test]
fn error_of_the_service_is_conveyed() {
    let mut server = Server::new(ProtocolService::new(protocol_req_fn("fail", fail)));
    server.connect(1, "peer".to_string()).unwrap();
    let request = Event::new(3, EventType::Req("fail".to_string(), Payload::Null));
    server.receive(1, binary(&request)).unwrap();
    let frames = server.drain(1).unwrap();
    assert_eq!(frames.len(), 1);
    match decode(&frames[0]) {
        Event { id: 3, event_type: EventType::Res(name, ResResult::Failure(error)) } => {
            assert_eq!(name, "fail");
            assert_eq!(error.code, 0);
            assert!(error.message.starts_with("boom"));
            assert_eq!(error, ResError::new("boom".to_string()));
        }
        other => panic!("unexpected reply {:?}", other),
    }
}

#[test]
fn requests_are_routed_by_name() {
    let service = protocol_req_fn("greeting", greeting).or(protocol_req_fn("fail", fail));
    let mut server = Server::new(ProtocolService::new(service));
    server.connect(1, "peer".to_string()).unwrap();
    server
        .receive(1, binary(&Event::new(1, EventType::Req("fail".to_string(), Payload::Null))))
        .unwrap();
    server
        .receive(
            1,
            binary(&Event::new(2, EventType::Req("greeting".to_string(), Payload::Text("A".to_string())))),
        )
        .unwrap();
    let frames = server.drain(1).unwrap();
    assert_eq!(frames.len(), 2);
    assert_eq!(decode(&frames[0]).id, 1);
    assert!(matches!(
        decode(&frames[0]).event_type,
        EventType::Res(_, ResResult::Failure(_))
    ));
    assert_eq!(decode(&frames[1]).id, 2);
}

type Waiters = std::rc::Rc<std::cell::RefCell<Vec<JuntaResult<junta::protocol::Waiter>>>>;

fn asking_server() -> (Server<impl Handler>, Waiters) {
    let waiters: Waiters = Default::default();
    let kept = waiters.clone();
    let protocol = ProtocolService::new(protocol_req_fn("greeting", greeting));
    let handler = handle_fn(move |ctx: Context<ClientEvent>| {
        if ctx.message().is_connect() {
            let mut ctx = ctx;
            let waiter = ctx.request("ping", &Payload::Text("hello".to_string()));
            kept.borrow_mut().push(waiter);
            (ctx.into_client(), Ok(()))
        } else {
            protocol.handle(ctx)
        }
    });
    (Server::new(handler), waiters)
}

fn take_waiter(waiters: &Waiters) -> junta::protocol::Waiter {
    waiters.borrow_mut().pop().unwrap().unwrap()
}

#[test]
fn request_of_the_server_is_resolved_by_its_response() {
    let (mut server, waiters) = asking_server();
    server.connect(1, "peer".to_string()).unwrap();
    let mut waiter = take_waiter(&waiters);
    let frames = server.drain(1).unwrap();
    assert_eq!(frames.len(), 1);
    let request = decode(&frames[0]);
    assert_eq!(
        request,
        Event::new(1, EventType::Req("ping".to_string(), Payload::Text("hello".to_string())))
    );
    assert!(server.client(1).unwrap().is_pending(request.id, "ping"));
    assert_eq!(waiter.try_recv(), Ok(None));
    // A response under another name resolves nothing.
    let other = Event::new(
        request.id,
        EventType::Res("pong".to_string(), ResResult::Success(Payload::Null)),
    );
    assert!(server.receive(1, text(&other)).is_err());
    assert!(server.client(1).unwrap().is_pending(request.id, "ping"));
    let response = Event::new(
        request.id,
        EventType::Res("ping".to_string(), ResResult::Success(Payload::Text("pong".to_string()))),
    );
    server.receive(1, text(&response)).unwrap();
    assert_eq!(
        waiter.try_recv(),
        Ok(Some(ResResult::Success(Payload::Text("pong".to_string()))))
    );
    assert!(!server.client(1).unwrap().is_pending(request.id, "ping"));
    // The same response once more matches nothing any more.
    assert!(server.receive(1, text(&response)).is_err());
}

#[test]
fn close_resolves_a_request_in_flight() {
    let (mut server, waiters) = asking_server();
    server.connect(1, "peer".to_string()).unwrap();
    let mut waiter = take_waiter(&waiters);
    assert!(server.client(1).unwrap().is_pending(1, "ping"));
    // The peer closes without replying.
    server.receive(1, OwnedMessage::Close(None)).unwrap();
    assert!(server.client(1).is_none());
    // The waiter learns that its resolver is gone.
    assert!(waiter.try_recv().is_err());
    server.finish(1).unwrap();
    assert_eq!(server.drain(1), None);
}

#[test]
fn end_of_the_driver_resolves_the_waiters() {
    let (mut server, waiters) = asking_server();
    server.connect(1, "peer".to_string()).unwrap();
    let mut waiter = take_waiter(&waiters);
    assert_eq!(waiter.try_recv(), Ok(None));
    let _ = server.finish(1);
    assert!(waiter.try_recv().is_err());
    assert!(server.client(1).is_none());
}

fn quiet(ctx: Context<ClientEvent>) -> (Client, JuntaResult<()>) {
    (ctx.into_client(), Ok(()))
}

fn shout(ctx: Context<ClientEvent>) -> (Client, JuntaResult<()>) {
    let mut ctx = ctx;
    if let ClientEvent::Message(content) = ctx.message() {
        let content = content.clone();
        ctx.broadcast(content).unwrap();
    }
    (ctx.into_client(), Ok(()))
}

#[test]
fn broadcast_reaches_everybody_else() {
    let mut server = Server::new(handle_fn(shout));
    for id in 1..=3 {
        server.connect(id, format!("peer-{}", id)).unwrap();
    }
    server.receive(1, OwnedMessage::Text("hi".to_string())).unwrap();
    assert_eq!(server.drain(1), Some(vec![]));
    assert_eq!(server.drain(2), Some(vec![OwnedMessage::Text("hi".to_string())]));
    assert_eq!(server.drain(3), Some(vec![OwnedMessage::Text("hi".to_string())]));
}

#[test]
fn broadcast_and_send_all_of_the_server() {
    let mut server = Server::new(handle_fn(quiet));
    for id in 1..=3 {
        server.connect(id, "peer".to_string()).unwrap();
    }
    server.broadcast(2, MessageContent::Text("b".to_string())).unwrap();
    server.send_all(MessageContent::Binary(vec![1, 2])).unwrap();
    assert_eq!(
        server.drain(1),
        Some(vec![OwnedMessage::Text("b".to_string()), OwnedMessage::Binary(vec![1, 2])])
    );
    assert_eq!(server.drain(2), Some(vec![OwnedMessage::Binary(vec![1, 2])]));
    server.send_to(3, MessageContent::Text("you".to_string())).unwrap();
    assert_eq!(server.drain(3).unwrap().len(), 3);
    assert!(matches!(
        server.send_to(9, MessageContent::Text("x".to_string())).unwrap_err().kind(),
        JuntaErrorKind::NotFound
    ));
}

#[test]
fn ping_is_answered_with_pong() {
    let mut server = Server::new(handle_fn(quiet));
    server.connect(1, "peer".to_string()).unwrap();
    server.receive(1, OwnedMessage::Ping(vec![7, 8])).unwrap();
    server.receive(1, OwnedMessage::Pong(vec![1])).unwrap();
    assert_eq!(server.drain(1), Some(vec![OwnedMessage::Pong(vec![7, 8])]));
}

#[test]
fn close_takes_the_connection_out_of_the_registry() {
    let mut server = Server::new(handle_fn(quiet));
    assert!(server.client(1).is_none());
    server.connect(1, "peer".to_string()).unwrap();
    assert!(server.client(1).is_some());
    assert_eq!(server.client(1).unwrap().id(), 1);
    assert_eq!(server.client(1).unwrap().address(), "peer");
    server
        .receive(1, OwnedMessage::Close(Some(CloseData::new(1001, "bye".to_string()))))
        .unwrap();
    assert!(server.client(1).is_none());
    // The normal close waits for the sink.
    assert_eq!(
        server.drain(1),
        Some(vec![OwnedMessage::Close(Some(CloseData::new(1000, "NORMAL".to_string())))])
    );
    // A frame for a connection that is gone finds nobody.
    assert!(matches!(
        server.receive(1, OwnedMessage::Text("late".to_string())).unwrap_err().kind(),
        JuntaErrorKind::NotFound
    ));
    server.finish(1).unwrap();
    assert!(matches!(server.finish(1).unwrap_err().kind(), JuntaErrorKind::NotFound));
}

#[test]
fn an_id_in_use_is_refused() {
    let mut server = Server::new(handle_fn(quiet));
    server.connect(1, "peer".to_string()).unwrap();
    assert_eq!(
        server.connect(1, "other".to_string()).unwrap_err().to_text(),
        "already connected"
    );
    assert_eq!(server.client(1).unwrap().address(), "peer");
}

#[test]
fn accept_draws_distinct_ids() {
    let mut server = Server::new(handle_fn(quiet));
    let (a, out) = server.accept("peer".to_string());
    out.unwrap();
    let (b, out) = server.accept("peer".to_string());
    out.unwrap();
    assert_ne!(a, b);
    assert!(server.client(a).is_some());
    assert!(server.client(b).is_some());
}

#[test]
fn frames_are_handled_in_their_order() {
    let mut server = Server::new(ProtocolService::new(protocol_req_fn("greeting", greeting)));
    server.connect(1, "peer".to_string()).unwrap();
    let frames = (1..=3)
        .map(|id| {
            text(&Event::new(
                id,
                EventType::Req("greeting".to_string(), Payload::Text(format!("{}", id))),
            ))
        })
        .collect();
    let outs = server.receive_all(1, frames);
    assert_eq!(outs.len(), 3);
    assert!(outs.iter().all(|out| out.is_ok()));
    let replies: Vec<usize> = server.drain(1).unwrap().iter().map(|f| decode(f).id).collect();
    assert_eq!(replies, vec![1, 2, 3]);
}

#[test]
fn handshake_needs_the_subprotocol() {
    assert!(negotiate(&vec!["chat".to_string(), "rust-websocket".to_string()]));
    assert!(!negotiate(&vec!["chat".to_string()]));
    assert!(!negotiate(&vec![]));
}

fn grumpy(ctx: Context<ClientEvent>) -> (Client, JuntaResult<()>) {
    (ctx.into_client(), Err(JuntaError::unknown("no")))
}

#[test]
fn failure_of_the_handler_does_not_end_the_connection() {
    let mut server = Server::new(handle_fn(grumpy));
    assert_eq!(server.connect(1, "peer".to_string()).unwrap_err().to_text(), "no");
    assert!(server.client(1).is_some());
    assert_eq!(
        server.receive(1, OwnedMessage::Text("x".to_string())).unwrap_err().to_text(),
        "no"
    );
    assert!(server.client(1).is_some());
    assert!(server.client(1).unwrap().is_open());
}

#[test]
fn connection_is_closed_in_turn_even_if_the_handler_fails() {
    let mut server = Server::new(handle_fn(grumpy));
    let _ = server.connect(1, "peer".to_string());
    assert_eq!(server.receive(1, OwnedMessage::Close(None)).unwrap_err().to_text(), "no");
    assert!(server.client(1).is_none());
    assert_eq!(
        server.drain(1),
        Some(vec![OwnedMessage::Close(Some(CloseData::new(1000, "NORMAL".to_string())))])
    );
}

fn huge(ctx: Context<Payload>) -> (Client, Result<Payload, JuntaError>) {
    (ctx.into_client(), Ok(Payload::Integer(1i128 << 64)))
}

#[test]
fn every_answered_request_on_a_text_frame_gets_one_reply() {
    let mut server = Server::new(ProtocolService::new(protocol_req_fn("huge", huge)));
    server.connect(1, "peer".to_string()).unwrap();
    let request = Event::new(4, EventType::Req("huge".to_string(), Payload::Null));
    server.receive(1, text(&request)).unwrap();
    assert_eq!(
        server.drain(1),
        Some(vec![OwnedMessage::Text(
            r#"{"id":4,"type":{"Res":["huge",{"Ok":18446744073709551616}]}}"#.to_string()
        )])
    );
    // CBOR cannot carry the number: the reply fails with the codec's error.
    let failed = server.receive(1, binary(&request)).unwrap_err();
    assert!(matches!(failed.kind(), JuntaErrorKind::Encoding(_)));
    assert_eq!(server.drain(1), Some(vec![]));
}

fn whisper(ctx: Context<ClientEvent>) -> (Client, JuntaResult<()>) {
    let mut ctx = ctx;
    if let ClientEvent::Message(content) = ctx.message() {
        let content = content.clone();
        // The handler looks the other connections up, and not its own.
        assert!(ctx.peer(ctx.client().id()).is_none());
        let known: Vec<u128> = ctx.peers().iter().map(|peer| peer.id).collect();
        let target = known.iter().copied().max();
        match target.and_then(|id| ctx.peer(id).map(|peer| (peer.id, peer.address.clone()))) {
            Some((id, address)) => {
                assert_eq!(address, format!("peer-{}", id));
                ctx.send_to(id, content).unwrap();
            }
            None => {}
        }
        ctx.send_to(99, MessageContent::Text("nobody".to_string())).unwrap();
    }
    (ctx.into_client(), Ok(()))
}

#[test]
fn handler_looks_another_connection_up_and_sends_to_it() {
    let mut server = Server::new(handle_fn(whisper));
    for id in 1..=3 {
        server.connect(id, format!("peer-{}", id)).unwrap();
    }
    server.receive(1, OwnedMessage::Text("psst".to_string())).unwrap();
    assert_eq!(server.drain(1), Some(vec![]));
    assert_eq!(server.drain(2), Some(vec![]));
    assert_eq!(server.drain(3), Some(vec![OwnedMessage::Text("psst".to_string())]));
    server.receive(3, OwnedMessage::Text("back".to_string())).unwrap();
    assert_eq!(server.drain(2), Some(vec![OwnedMessage::Text("back".to_string())]));
    assert_eq!(server.drain(3), Some(vec![]));
}
