//! The core of an actor-style game server: the wire frames its clients send, the messages inside
//! them, the handlers that answer them, the table of connected clients, and the decisions of the
//! loops that tie these together.
//!
//! Everything here is free of I/O. A program around the library owns the sockets, the queues and
//! the tasks: it reports what happened and carries out what the library decides.
#![allow(non_camel_case_types)]

pub mod clients;
pub mod dispatch;
pub mod envelope;
pub mod errors;
pub mod frame;
pub mod handler;
pub mod layer;
pub mod message;
pub mod priority;
pub mod registry;
pub mod running;
pub mod server;
