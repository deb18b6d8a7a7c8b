//! A server-side WebSocket endpoint without any I/O of its own.
//!
//! [`handshake`] decides whether a request is one to open a WebSocket and answers
//! it. [`receiver`] takes in a client's frame read by read, [`sender`] gives the
//! bytes of a server's frame, and [`connection`] puts the two together in
//! [`Websocket`]. [`reception`] states what becomes of whole frames.
//!
//! [`handshake_laws`], [`receiving_laws`], [`sending_laws`] and [`text_laws`] state
//! what these operations come to on plain characters and bytes.

pub mod bigendian;
pub mod connection;
pub mod digest;
pub mod error;
pub mod frame;
pub mod handshake;
pub mod handshake_laws;
pub mod http;
pub mod mask;
pub mod number;
pub mod receiver;
pub mod receiving_laws;
pub mod reception;
pub mod sender;
pub mod sending_laws;
pub mod text;
pub mod text_laws;

pub use crate::connection::Websocket;
pub use crate::error::WebsocketError;
pub use crate::frame::{Frame, Message};
pub use crate::handshake::is_websocket_request;
pub use crate::http::{Header, HeaderField, Request, Response, StatusCode};
pub use crate::receiver::{Breach, ReadOutcome, RecvError, RecvErrorKind};
