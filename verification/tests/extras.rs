use junta::address::Address;
use junta::client::Client;
use junta::client_ext::ClientExt;
use junta::context::{BorrowedContext, ChildContext, Context};
use junta::error::{Describe, JuntaError, JuntaErrorKind, ServiceError};
use junta::extensions::Extensions;
use junta::handler::{handle_fn, Handler, HandlerChain, HandlerExt, IntoHandler};
use junta::message::{ClientEvent, MessageContent, OwnedMessage};
use junta::middleware::{Middleware, Next, ThenServiceHandler};
use junta::persist::{
    Extended, Extensible, PersistMiddleware, PersistentError, PersistentInto, PersistentItem, Read,
    State, Write,
};
use junta::protocol::ListenerList;
use junta::registry::{Broadcast, Broadcaster};
use junta::server::Server;
use junta::service::{service_fn, Service};
use junta::value::Payload;
use std::sync::Arc;

#[test]
fn address_is_a_host_and_a_port() {
    assert_eq!(
        Address::parse("127.0.0.1:2794").unwrap(),
        Address { host: "127.0.0.1".to_string(), port: 2794 }
    );
    assert_eq!(
        Address::parse("localhost:0").unwrap(),
        Address { host: "localhost".to_string(), port: 0 }
    );
    assert_eq!(
        Address::parse("[::1]:65535").unwrap(),
        Address { host: "[::1]".to_string(), port: 65535 }
    );
    assert_eq!(
        Address::parse("h:00080").unwrap(),
        Address { host: "h".to_string(), port: 80 }
    );
}

#[test]
fn address_that_is_no_host_and_port_is_invalid() {
    for text in ["", "localhost", "localhost:", ":80", "h:65536", "h:123456", "h:8o", "h:-1", "h: 80"] {
        let refused = Address::parse(text).unwrap_err();
        assert!(matches!(refused.kind(), JuntaErrorKind::InvalidAddress), "{}", text);
    }
    assert_eq!(Address::parse("x").unwrap_err().to_text(), "InvalidAddress");
}

#[test]
fn bind_then_serve() {
    let builder = Server::bind("0.0.0.0:8080").unwrap();
    assert_eq!(builder.address().port, 8080);
    assert_eq!(builder.address().host, "0.0.0.0");
    let mut server = builder.serve(handle_fn(|ctx: Context<ClientEvent>| (ctx.into_client(), Ok(()))));
    server.connect(1, "peer".to_string()).unwrap();
    assert!(server.client(1).is_some());
    assert!(Server::bind("nowhere").is_err());
}

#[test]
fn extension_bag_only_grows() {
    let mut bag = Extensions::new();
    assert_eq!(bag.len(), 0);
    assert!(bag.get("user").is_none());
    assert!(bag.insert("user", Payload::Text("alice".to_string())));
    assert!(bag.insert("role", Payload::Integer(1)));
    assert_eq!(bag.len(), 2);
    assert_eq!(bag.get("user"), Some(&Payload::Text("alice".to_string())));
    // A value put under a key that is there replaces the value, not the key.
    assert!(!bag.insert("user", Payload::Text("bob".to_string())));
    assert_eq!(bag.len(), 2);
    assert_eq!(bag.get("user"), Some(&Payload::Text("bob".to_string())));
    assert_eq!(bag.get("role"), Some(&Payload::Integer(1)));
}

#[test]
fn context_carries_the_bag_through_a_change_of_payload() {
    let mut ctx = Context::new(Client::new(1, "peer".to_string()), ClientEvent::Connect);
    assert!(ctx.extend("seen", Payload::Bool(true)));
    let (ctx, _) = ctx.with_message(5u32);
    assert_eq!(ctx.extension("seen"), Some(&Payload::Bool(true)));
    assert_eq!(ctx.extensions().len(), 1);
    assert!(ctx.extension("other").is_none());
}

#[test]
fn child_and_borrowed_contexts_decode_their_event() {
    let ctx = Context::new(Client::new(1, "peer".to_string()), ClientEvent::Connect);
    let event = ClientEvent::Message(MessageContent::Text("[1]".to_string()));
    {
        let borrowed = BorrowedContext::new(&ctx, &event);
        assert_eq!(borrowed.decode().unwrap(), Payload::Array(vec![Payload::Integer(1)]));
        assert!(!borrowed.binary());
        assert_eq!(borrowed.client().id(), 1);
        assert_eq!(borrowed.message(), &event);
    }
    let child = ChildContext::new(ctx, ClientEvent::Close(None));
    assert_eq!(child.decode().unwrap_err().to_text(), "invalid");
    assert!(child.message().is_close());
    assert_eq!(child.parent().client().id(), 1);
    let (parent, event) = child.into_parts();
    assert!(event.is_close());
    assert!(parent.message().is_connect());
}

#[test]
fn client_sends_in_a_chosen_encoding() {
    let mut client = Client::new(1, "peer".to_string());
    client.send_text(&Payload::Integer(5)).unwrap();
    client.send_binary(&Payload::Integer(5)).unwrap();
    assert_eq!(
        client.drain(),
        vec![OwnedMessage::Text("5".to_string()), OwnedMessage::Binary(vec![0x05])]
    );
    assert_eq!(
        client.send_binary(&Payload::Integer(1 << 65)).unwrap_err().to_text(),
        "Encoding(Binary)"
    );
    assert_eq!(client.queued(), 0);
}

#[test]
fn registry_keeps_ids_unique() {
    let mut registry = Broadcaster::new();
    assert!(registry.insert(Client::new(1, "a".to_string())).is_ok());
    assert!(registry.insert(Client::new(2, "b".to_string())).is_ok());
    assert!(registry.insert(Client::new(1, "c".to_string())).is_err());
    assert_eq!(registry.len(), 2);
    assert_eq!(registry.find(2), Some(1));
    assert_eq!(registry.find(3), None);
    assert_eq!(registry.client(1).unwrap().address(), "a");
    registry.broadcast(1, MessageContent::Text("x".to_string())).unwrap();
    registry.send_all(MessageContent::Text("y".to_string())).unwrap();
    assert_eq!(registry.client(1).unwrap().queued(), 1);
    assert_eq!(registry.client(2).unwrap().queued(), 2);
    let gone = registry.remove(1).unwrap();
    assert_eq!(gone.id(), 1);
    assert!(registry.remove(1).is_none());
    assert!(registry.client(1).is_none());
}

#[test]
fn fanout_passes_over_a_full_queue() {
    let mut registry = Broadcaster::new();
    assert!(registry.insert(Client::with_depth(1, "a".to_string(), 0)).is_ok());
    assert!(registry.insert(Client::with_depth(2, "b".to_string(), 1)).is_ok());
    assert!(registry.send_all(MessageContent::Binary(vec![1])).is_ok());
    assert_eq!(registry.client(1).unwrap().queued(), 0);
    assert_eq!(registry.client(2).unwrap().queued(), 1);
}

fn only_connect(ctx: Context<ClientEvent>) -> (Client, Result<(), JuntaError>) {
    let mut ctx = ctx;
    let _ = ctx.send_raw(MessageContent::Text("first".to_string()));
    (ctx.into_client(), Ok(()))
}

#[test]
fn handler_chain_asks_the_first_handler_first() {
    let chain = HandlerChain::new(handle_fn(only_connect), handle_fn(only_connect));
    let ctx = Context::new(Client::new(1, "peer".to_string()), ClientEvent::Connect);
    assert!(chain.check(&ctx));
    let (mut client, out) = chain.handle(ctx);
    assert!(out.is_ok());
    assert_eq!(client.drain(), vec![OwnedMessage::Text("first".to_string())]);
    let chained = handle_fn(only_connect).or(handle_fn(only_connect)).into_handler();
    let ctx = Context::new(Client::new(1, "peer".to_string()), ClientEvent::Connect);
    assert!(chained.check(&ctx));
}

#[test]
fn errors_describe_themselves() {
    assert_eq!(ServiceError::ReceiverClosed.to_text(), "ReceiverClosed");
    assert_eq!(ServiceError::NullFuture.to_text(), "NullFuture");
    assert_eq!(ServiceError::InvalidRequest.describe(), "InvalidRequest");
    assert_eq!(JuntaError::from(ServiceError::NullFuture).to_text(), "NullFuture");
    assert!(matches!(
        JuntaError::from(JuntaErrorKind::Send).into_kind(),
        JuntaErrorKind::Send
    ));
    assert_eq!(JuntaError::new(JuntaErrorKind::Send).to_text(), "Send");
    assert_eq!(JuntaError::new(JuntaErrorKind::NotFound).describe(), "NotFound");
    assert_eq!(
        JuntaError::new(JuntaErrorKind::MissingOption("addr".to_string())).to_text(),
        "addr"
    );
    assert_eq!(JuntaError::new(JuntaErrorKind::Io("refused".to_string())).to_text(), "refused");
    assert_eq!(JuntaError::new(JuntaErrorKind::Error("e".to_string())).to_text(), "e");
    assert_eq!(JuntaError::transport("t").to_text(), "t");
    assert_eq!(PersistentError::NotFound.to_text(), "Value not found in extensions.");
    assert!(matches!(
        JuntaError::from(PersistentError::NotFound).kind(),
        JuntaErrorKind::NotFound
    ));
    assert_eq!("plain".to_string().describe(), "plain");
}

struct Limit;

impl junta::persist::Key for Limit {
    type Value = u32;
}

#[test]
fn persist_middleware_puts_the_kept_value_into_the_input() {
    type Input = Extended<&'static str, Read<Limit>>;
    let middleware: PersistMiddleware<Limit, Read<Limit>, Input, u32, JuntaError> =
        Read::<Limit>::middleware(7);
    let handler = ThenServiceHandler::new(
        middleware,
        service_fn(|input: Input| match input.eval() {
            Ok(limit) => Ok::<u32, JuntaError>(**limit + input.input.len() as u32),
            Err(error) => Err(JuntaError::from(error)),
        }),
    );
    assert_eq!(handler.call(Extended::new("abc")).unwrap(), 10);
    assert_eq!(handler.call(Extended::new("")).unwrap(), 7);
}

#[test]
fn kept_value_is_missing_without_the_middleware() {
    let input: Extended<u8, State<Limit>> = Extended::new(1);
    assert_eq!(input.eval().unwrap_err(), PersistentError::NotFound);
    let mut input = input;
    input.insert(Arc::new(std::sync::RwLock::new(3)));
    assert_eq!(*input.eval().unwrap().read().unwrap(), 3);
}

#[test]
fn write_through_the_state_is_seen_by_later_requests() {
    type Input = Extended<u32, State<Limit>>;
    let state: PersistMiddleware<Limit, State<Limit>, Input, u32, JuntaError> =
        State::<Limit>::middleware(4);
    let handler = ThenServiceHandler::new(
        state,
        service_fn(|input: Input| match input.eval() {
            Ok(kept) => {
                let seen = *kept.read().unwrap();
                *kept.write().unwrap() = seen + input.input;
                Ok::<u32, JuntaError>(seen)
            }
            Err(error) => Err(JuntaError::from(error)),
        }),
    );
    // Before any write the content is the start value.
    assert_eq!(handler.call(Extended::new(10)).unwrap(), 4);
    assert_eq!(handler.call(Extended::new(1)).unwrap(), 14);
    assert_eq!(handler.call(Extended::new(0)).unwrap(), 15);
}

#[test]
fn write_through_the_mutex_is_seen_by_later_requests() {
    type Input = Extended<u32, Write<Limit>>;
    let write: PersistMiddleware<Limit, Write<Limit>, Input, u32, JuntaError> =
        Write::<Limit>::middleware(5);
    let handler = ThenServiceHandler::new(
        write,
        service_fn(|input: Input| match input.eval() {
            Ok(kept) => {
                let mut guard = kept.lock().unwrap();
                let seen = *guard;
                *guard = input.input;
                Ok::<u32, JuntaError>(seen)
            }
            Err(error) => Err(JuntaError::from(error)),
        }),
    );
    assert_eq!(handler.call(Extended::new(8)).unwrap(), 5);
    assert_eq!(handler.call(Extended::new(9)).unwrap(), 8);
}

#[test]
fn handles_are_read_and_written_through_the_library() {
    let state = Arc::new(std::sync::RwLock::new(1u32));
    let other = state.clone();
    assert_eq!(State::<Limit>::read(&state), 1);
    State::<Limit>::write(&other, 2);
    assert_eq!(State::<Limit>::read(&state), 2);
    let kept = Arc::new(std::sync::Mutex::new(3u32));
    Write::<Limit>::write(&kept.clone(), 4);
    assert_eq!(Write::<Limit>::read(&kept), 4);
}

#[test]
fn kept_values_are_made_of_values_and_of_handles() {
    let shared: Arc<u32> = 9u32.persistent_into();
    assert_eq!(*shared, 9);
    let same: u32 = 9u32.persistent_into();
    assert_eq!(same, 9);
    let holder = PersistMiddleware::<Limit, Keeper, (), (), JuntaError>::new(Keeper(Arc::new(2)));
    let _ = holder;
    assert_eq!(**Keeper(Arc::new(2)).data(), 2);
    let _marker = ListenerList;
}

struct Keeper(Arc<u32>);

impl PersistentItem for Keeper {
    type Item = Arc<u32>;

    fn item(&self) -> Arc<u32> {
        unreachable!()
    }

    fn data(&self) -> &Arc<u32> {
        &self.0
    }

    fn share(&self) -> Arc<u32> {
        self.0.clone()
    }
}

#[test]
fn child_context_sends_like_its_parent() {
    let ctx = Context::new(
        Client::new(1, "peer".to_string()),
        ClientEvent::Message(MessageContent::Binary(vec![])),
    );
    let mut child = ChildContext::new(ctx, 0u8);
    child.send(&Payload::Bool(true)).unwrap();
    assert_eq!(
        child.encode_text(&Payload::Bool(true)).unwrap(),
        MessageContent::Text("true".to_string())
    );
    assert_eq!(
        child.encode_binary(&Payload::Bool(true)).unwrap(),
        MessageContent::Binary(vec![0xf5])
    );
    assert!(child.binary());
    let mut client = child.into_parent().into_client();
    assert_eq!(client.drain(), vec![OwnedMessage::Binary(vec![0xf5])]);
}
