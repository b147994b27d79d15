//! A synchronous, verified core for a bidirectional WebSocket application
//! framework: the service and middleware algebra, the framing of application
//! events, the per-connection state, the client registry with its fanout, and
//! the request/response correlation table.
//!
//! Sockets, timers and task scheduling are left to the embedding program. It
//! feeds inbound frames to a [`server::Server`] and drains the outbound queues
//! that the server fills.
//!
//! The modules, leaves first:
//!
//! - [`error`]: the failure taxonomy.
//! - [`value`], [`event`]: payloads, their two codecs, and application events.
//! - [`message`]: frames and connection events.
//! - [`service`], [`service_chain`], [`pipe_chain`], [`service_ext`]: services
//!   and their combinators.
//! - [`middleware`], [`middleware_chain`], [`persist`]: middleware and their
//!   combinators.
//! - [`client`], [`client_ext`], [`extensions`], [`context`], [`context_ext`]:
//!   the state of a connection and the context of an event.
//! - [`handler`], [`protocol`], [`protocol_middleware`], [`request_protocol`],
//!   [`response_protocol`]: what handles the events of a connection.
//! - [`registry`], [`address`], [`server`]: the registry with its fanout, and
//!   the life of every connection.
//! - [`poll`]: the decisions of the polled state machines, for a program that
//!   drives the library with non-blocking I/O.
pub mod address;
pub mod client;
pub mod client_ext;
pub mod context;
pub mod context_ext;
pub mod error;
pub mod event;
pub mod extensions;
pub mod handler;
pub mod message;
pub mod middleware;
pub mod middleware_chain;
pub mod persist;
pub mod pipe_chain;
pub mod poll;
pub mod prelude;
pub mod protocol;
pub mod protocol_middleware;
pub mod registry;
pub mod request_protocol;
pub mod response_protocol;
pub mod server;
pub mod service;
pub mod service_chain;
pub mod service_ext;
pub mod value;
