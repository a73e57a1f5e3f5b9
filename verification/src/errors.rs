//! Why a received frame was refused.

use vstd::prelude::*;

verus! {

/// The ways in which a frame can fail on its way to the request queue.
#[derive(Debug)]
pub enum MyError {
    /// The payload is no MessagePack.
    NotMessagePack(),
    /// The payload has no text field `_t`.
    MessageNoTField(),
    /// No message type of that name is registered.
    MessageHandlerNotFound(String),
    /// The payload does not fit the message type that it names.
    MessageObjectConvertFailed(),
    /// The request queue is closed.
    SendRequestFailed(),
}

/// A result that fails with a [`MyError`].
pub type RetResult<T> = Result<T, MyError>;

impl MyError {
    /// Whether the connection has to be given up. Every other failure costs only the frame.
    pub fn closes_connection(&self) -> (r: bool)
        ensures
            r == (*self is SendRequestFailed),
    {
        match self {
            MyError::SendRequestFailed() => true,
            _ => false,
        }
    }
}

} // verus!
