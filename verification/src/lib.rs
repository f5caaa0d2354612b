//! Server-side connection core of an HTTP/2-based RPC transport.
//!
//! One established socket carries many logical request/response streams.
//! This crate holds the verified core of the server role: stream-id
//! validation and the per-stream state machine (`conn`), the response
//! abstraction that unifies "headers plus body parts" (`resp`), the
//! flow-control-aware response pump (`pump`), panic isolation of user
//! handlers (`handler`), and the error taxonomy (`error`).
//!
//! The generic frame engine that owns the socket, the TLS handshake and
//! the task executor are external collaborators: the functions here are
//! the decisions they call into, stated over plain values, so that the
//! surrounding event loop only performs I/O and message passing.

pub mod error;
pub mod headers;
pub mod parts;
pub mod message;
pub mod resp;
pub mod handler;
pub mod conn;
pub mod pump;
pub mod net;
