//! A small real-time chat core.
//!
//! Clients and a server exchange [`Event`]s over byte streams. This library
//! holds the three parts of that which are rules rather than plumbing:
//!
//! - [`wire`] says what a frame is, byte for byte, and [`codec`] writes
//!   frames into a buffer and reads them out of one that fills in pieces;
//! - [`registry`] keeps who is connected, under which id and name, and each
//!   user's outbound queue;
//! - [`dispatch`] says what the server does with each thing that arrives on
//!   a connection.
//!
//! Sockets, tasks and locks are the caller's. [`trusted`] lists what is
//! called and not proved.

pub mod client;
pub mod codec;
pub mod dispatch;
pub mod event;
pub mod keys;
pub mod registry;
pub mod trusted;
pub mod wire;

pub use client::{Action, Fault, Occurrence};
pub use codec::{DecodeError, Decoded, EncodeError, EventCodec, Scanned};
pub use dispatch::{Dispatched, Flow, Inbound, Step};
pub use event::Event;
pub use registry::{Enqueued, State, User};
