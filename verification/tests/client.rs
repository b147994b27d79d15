use junta::client::{Client, OUTBOUND_DEPTH};
use junta::context::Context;
use junta::context_ext::ContextExt;
use junta::error::JuntaErrorKind;
use junta::message::{ClientEvent, CloseData, MessageContent, OwnedMessage};
use junta::poll::{Async, ChainPoll, ChainState, ClientFuture, Forwarding, Inbound, Pumping};
use junta::protocol::{poll_request, resolve_request, Listener};
use junta::response_protocol::{settle, Settled};
use junta::event::{ResError, ResResult};
use junta::value::Payload;

#[test]
fn outbound_queue_is_bounded() {
    let mut client = Client::new(1, "peer".to_string());
    assert_eq!(client.depth(), 20);
    assert_eq!(OUTBOUND_DEPTH, 20);
    for n in 0..20 {
        client.send(MessageContent::Text(format!("{}", n))).unwrap();
    }
    assert_eq!(client.queued(), 20);
    let refused = client.send(MessageContent::Text("21".to_string())).unwrap_err();
    assert!(matches!(refused.kind(), JuntaErrorKind::Transport(_)));
    assert_eq!(refused.to_text(), "outbound queue full");
    assert_eq!(client.queued(), 20);
    let frames = client.drain();
    assert_eq!(frames.len(), 20);
    assert_eq!(frames[0], OwnedMessage::Text("0".to_string()));
    assert_eq!(frames[19], OwnedMessage::Text("19".to_string()));
    assert_eq!(client.queued(), 0);
}

#[test]
fn close_takes_the_trigger_once() {
    let mut client = Client::new(1, "peer".to_string());
    assert!(client.is_open());
    client.close().unwrap();
    assert!(!client.is_open());
    client.close().unwrap();
    client.close().unwrap();
    assert_eq!(
        client.drain(),
        vec![OwnedMessage::Close(Some(CloseData::new(1000, "NORMAL".to_string())))]
    );
}

#[test]
fn close_on_a_full_queue_fails_and_takes_the_trigger() {
    let mut client = Client::with_depth(1, "peer".to_string(), 1);
    client.send(MessageContent::Binary(vec![1])).unwrap();
    assert!(client.close().is_err());
    assert!(!client.is_open());
    assert!(client.close().is_ok());
    assert_eq!(client.queued(), 1);
}

#[test]
fn sequence_numbers_start_at_one() {
    let mut client = Client::new(1, "peer".to_string());
    assert_eq!(client.next_seq(), 1);
    assert_eq!(client.next_seq(), 2);
    assert_eq!(client.next_seq(), 3);
}

#[test]
fn pending_requests_are_unique() {
    let mut client = Client::new(1, "peer".to_string());
    let (first, _w1) = Listener::new(1, "ping".to_string());
    let (again, _w2) = Listener::new(1, "ping".to_string());
    let (other, _w3) = Listener::new(1, "pong".to_string());
    assert!(client.listen(first).is_ok());
    assert!(client.listen(again).is_err());
    assert!(client.listen(other).is_ok());
    assert!(client.is_pending(1, "ping"));
    assert!(client.is_pending(1, "pong"));
    assert!(!client.is_pending(2, "ping"));
    assert!(client.unlisten(1, "ping").is_some());
    assert!(client.unlisten(1, "ping").is_none());
    assert_eq!(client.forget_pending(), 1);
    assert!(!client.is_pending(1, "pong"));
}

#[test]
fn settle_tells_what_became_of_the_reply() {
    let mut client = Client::new(1, "peer".to_string());
    let (listener, mut waiter) = Listener::new(4, "ping".to_string());
    client.listen(listener).unwrap_or_else(|_| panic!("refused"));
    assert!(matches!(
        settle(&mut client, 5, "ping", ResResult::Success(Payload::Null)),
        Settled::Unmatched(_)
    ));
    assert!(matches!(
        settle(&mut client, 4, "ping", ResResult::Success(Payload::Integer(1))),
        Settled::Delivered
    ));
    assert_eq!(waiter.try_recv(), Ok(Some(ResResult::Success(Payload::Integer(1)))));
    let (listener, waiter) = Listener::new(6, "ping".to_string());
    client.listen(listener).unwrap_or_else(|_| panic!("refused"));
    drop(waiter);
    assert!(matches!(
        settle(&mut client, 6, "ping", ResResult::Success(Payload::Integer(2))),
        Settled::Unclaimed(ResResult::Success(Payload::Integer(2)))
    ));
    assert!(!client.is_pending(6, "ping"));
}

#[test]
fn request_that_does_not_go_out_leaves_nothing_pending() {
    let client = Client::with_depth(1, "peer".to_string(), 0);
    let mut ctx = Context::new(client, ClientEvent::Connect);
    let failed = ctx.request("ping", &Payload::Null).unwrap_err();
    assert_eq!(failed.to_text(), "outbound queue full");
    let failed = ctx.request("ping", &Payload::Integer(1i128 << 70)).unwrap_err();
    assert_eq!(failed.to_text(), "outbound queue full");
    let mut client = ctx.into_client();
    assert!(!client.is_pending(1, "ping"));
    assert!(!client.is_pending(2, "ping"));
    assert_eq!(client.next_seq(), 3);
}

#[test]
fn context_knows_whether_the_frame_was_binary() {
    let client = Client::new(1, "peer".to_string());
    let ctx = Context::new(client, ClientEvent::Message(MessageContent::Binary(vec![0xf6])));
    assert!(ctx.binary());
    assert_eq!(ctx.decode().unwrap(), Payload::Null);
    let (ctx, old) = ctx.with_message(7u8);
    assert!(ctx.binary());
    assert_eq!(*ctx.message(), 7);
    assert_eq!(old, ClientEvent::Message(MessageContent::Binary(vec![0xf6])));
    let ctx = Context::new(ctx.into_client(), ClientEvent::Message(MessageContent::Text("1".to_string())));
    assert!(!ctx.binary());
    let ctx = Context::new(ctx.into_client(), ClientEvent::Connect);
    assert!(!ctx.binary());
    assert_eq!(ctx.decode().unwrap_err().to_text(), "invalid");
}

#[test]
fn context_sends_in_the_encoding_of_the_frame() {
    let client = Client::new(1, "peer".to_string());
    let mut ctx = Context::new(client, ClientEvent::Message(MessageContent::Binary(vec![])));
    ctx.send(&Payload::Text("a".to_string())).unwrap();
    let mut ctx = Context::new(ctx.into_client(), ClientEvent::Message(MessageContent::Text(String::new())));
    ctx.send(&Payload::Text("a".to_string())).unwrap();
    assert_eq!(
        ctx.into_client().drain(),
        vec![
            OwnedMessage::Binary(vec![0x61, b'a']),
            OwnedMessage::Text("\"a\"".to_string())
        ]
    );
}

#[test]
fn events_tell_their_kind() {
    assert!(ClientEvent::Connect.is_connect());
    assert!(!ClientEvent::Connect.is_message());
    assert!(ClientEvent::Message(MessageContent::Text(String::new())).is_message());
    assert!(ClientEvent::Close(None).is_close());
    assert!(!ClientEvent::Close(None).is_connect());
    assert!(MessageContent::Binary(vec![]).is_binary());
    assert!(MessageContent::Text(String::new()).is_text());
    assert_eq!(
        MessageContent::Text("t".to_string()).to_message(),
        OwnedMessage::Text("t".to_string())
    );
    assert_eq!(
        MessageContent::Binary(vec![1]).to_message(),
        OwnedMessage::Binary(vec![1])
    );
}

#[test]
fn chain_glue_forwards_then_follows_the_second_future() {
    let mut glue = ChainPoll::new();
    assert!(glue.polls_upstream());
    assert_eq!(glue.upstream::<i32, ()>(Ok(Async::NotReady)), Forwarding::Proceed);
    assert_eq!(glue.state, ChainState::UpstreamPending);
    assert_eq!(glue.downstream::<i32, ()>(Ok(Async::NotReady)), Ok(Async::NotReady));
    assert_eq!(glue.state, ChainState::UpstreamPending);
    assert_eq!(glue.upstream::<i32, ()>(Ok(Async::Ready(5))), Forwarding::Forward(5));
    assert_eq!(glue.state, ChainState::DownstreamPending);
    assert!(!glue.polls_upstream());
    assert_eq!(glue.upstream::<i32, ()>(Ok(Async::Ready(6))), Forwarding::Proceed);
    assert_eq!(glue.downstream::<i32, ()>(Ok(Async::Ready(9))), Ok(Async::Ready(9)));
    assert_eq!(glue.state, ChainState::Done);
    let mut glue = ChainPoll::new();
    assert_eq!(glue.upstream::<i32, &str>(Err("e")), Forwarding::Fail("e"));
    assert_eq!(glue.state, ChainState::Done);
}

#[test]
fn pump_ends_with_its_streams_and_its_trigger() {
    let mut pump = ClientFuture::new();
    assert!(pump.begin().is_none());
    assert!(matches!(pump.stream(Inbound::NotReady), Pumping::Proceed));
    assert!(matches!(
        pump.stream(Inbound::Item(OwnedMessage::Ping(vec![]))),
        Pumping::Pass(OwnedMessage::Ping(_))
    ));
    assert!(matches!(pump.stream(Inbound::Ended), Pumping::Finish(Ok(Async::Ready(())))));
    match pump.stream(Inbound::Failed) {
        Pumping::Finish(Err(error)) => assert_eq!(error.to_text(), "ReceiverClosed"),
        _ => panic!("a failed stream ends the pump"),
    }
    assert!(matches!(pump.flushed_sink(None), Pumping::Proceed));
    match pump.flushed_sink(Some("reset".to_string())) {
        Pumping::Finish(Err(error)) => {
            assert!(matches!(error.kind(), JuntaErrorKind::Transport(_)));
            assert_eq!(error.to_text(), "reset");
        }
        _ => panic!("a failed sink ends the pump"),
    }
    // Nothing has fired: the round ends not ready while the connection is held.
    pump.sent(&OwnedMessage::Text("x".to_string()));
    assert!(matches!(pump.round_end(true), (false, Ok(Async::NotReady))));
    assert!(pump.begin().is_none());
    // A close frame that went out fires the trigger: the sink is closed.
    pump.sent(&OwnedMessage::Close(None));
    assert!(matches!(pump.round_end(true), (true, Ok(Async::NotReady))));
    assert!(matches!(pump.begin(), Some(Ok(Async::Ready(())))));
    // A connection that is not held any more ends the pump.
    let mut pump = ClientFuture::new();
    assert!(matches!(pump.round_end(false), (false, Ok(Async::Ready(())))));
}

#[test]
fn waiter_tells_what_the_one_who_asked_gets() {
    let (listener, mut waiter) = Listener::new(1, "ping".to_string());
    assert!(poll_request(&mut waiter).is_none());
    listener
        .deliver(ResResult::Success(Payload::Text("pong".to_string())))
        .unwrap_or_else(|_| panic!("the waiter is there"));
    assert_eq!(
        poll_request(&mut waiter).unwrap().unwrap(),
        Payload::Text("pong".to_string())
    );

    let (listener, mut waiter) = Listener::new(2, "ping".to_string());
    listener
        .deliver(ResResult::Failure(ResError::new("no".to_string())))
        .unwrap_or_else(|_| panic!("the waiter is there"));
    let conveyed = poll_request(&mut waiter).unwrap().unwrap_err();
    assert!(matches!(conveyed.kind(), JuntaErrorKind::Error(message) if message == "no"));

    let (listener, mut waiter) = Listener::new(3, "ping".to_string());
    drop(listener);
    let closed = poll_request(&mut waiter).unwrap().unwrap_err();
    assert_eq!(closed.to_text(), "ReceiverClosed");

    assert!(resolve_request(Ok(None)).is_none());
    assert_eq!(
        resolve_request(Ok(Some(ResResult::Success(Payload::Null)))).unwrap().unwrap(),
        Payload::Null
    );
    assert_eq!(resolve_request(Err(())).unwrap().unwrap_err().to_text(), "ReceiverClosed");
}

#[test]
fn request_that_does_not_encode_is_an_encoding_error() {
    let client = Client::new(1, "peer".to_string());
    let mut ctx = Context::new(client, ClientEvent::Message(MessageContent::Binary(vec![])));
    let failed = ctx.request("ping", &Payload::Integer(1i128 << 64)).unwrap_err();
    assert!(matches!(failed.kind(), JuntaErrorKind::Encoding(_)));
    let mut client = ctx.into_client();
    assert_eq!(client.queued(), 0);
    assert!(!client.is_pending(1, "ping"));
    assert_eq!(client.next_seq(), 2);
}

#[test]
fn request_that_json_can_carry_goes_out_as_text() {
    let client = Client::new(1, "peer".to_string());
    let mut ctx = Context::new(client, ClientEvent::Message(MessageContent::Text(String::new())));
    let waiter = ctx.request("ping", &Payload::Integer(1i128 << 64));
    assert!(waiter.is_ok());
    let mut client = ctx.into_client();
    assert!(client.is_pending(1, "ping"));
    assert_eq!(
        client.drain(),
        vec![OwnedMessage::Text(
            r#"{"id":1,"type":{"Req":["ping",18446744073709551616]}}"#.to_string()
        )]
    );
}
