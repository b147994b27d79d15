//! The names that a program which uses the library needs most.
pub use crate::client::{Client, Reach};
pub use crate::client_ext::ClientExt;
pub use crate::context::{BorrowedContext, ChildContext, Context, Peer};
pub use crate::context_ext::ContextExt;
pub use crate::error::{
    Describe, EncodingError, JuntaError, JuntaErrorKind, JuntaResult, ServiceError,
};
pub use crate::event::{Event, EventType, ResError, ResResult};
pub use crate::handler::{handle_fn, HandleFn, Handler, HandlerChain, HandlerExt, IntoHandler};
pub use crate::message::{ClientEvent, CloseData, MessageContent, OwnedMessage};
pub use crate::middleware::{
    middleware_fn, AndThen, Deferred, DeferredExt, FutureResult, IntoMiddleware, Middleware,
    MiddlewareFn, Next, NextFuture, ThenService, ThenServiceHandler,
};
pub use crate::middleware_chain::{
    ChainHandler, MiddlewareChain, MiddlewareChainFuture, MiddlewareChainable,
};
pub use crate::persist::{
    Extended, Extensible, Key, PersistMiddleware, PersistentError, PersistentInto, PersistentItem,
    Read, State, Write,
};
pub use crate::pipe_chain::Pipe;
pub use crate::protocol::{
    IntoProtocol, Listener, ListenerList, Protocol, ProtocolChain, ProtocolExt, ProtocolService,
    Waiter,
};
pub use crate::protocol_middleware::{
    Annotate, Passage, ProtocolChainHandler, ProtocolHandable, ProtocolMiddleware,
    ProtocolMiddlewareChain, ProtocolMiddlewareChainable,
};
pub use crate::registry::{Broadcast, Broadcaster};
pub use crate::request_protocol::{
    protocol_req_fn, RequestProtocol, RequestProtocolService, RequestProtocolServiceFn,
};
pub use crate::response_protocol::ResponseProtocol;
pub use crate::server::{negotiate, Server, ServerBuilder};
pub use crate::service::{
    asks, check_fn, invoke, service_fn, CheckService, IntoService, Service, ServiceFn,
};
pub use crate::service_chain::ServiceChain;
pub use crate::service_ext::ServiceExt;
pub use crate::value::{Entry, Payload};
