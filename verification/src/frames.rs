//! What arrives on a client's websocket, as the connection logic sees it.
use vstd::prelude::*;

verus! {

/// An incoming websocket frame: `C` is the reason a close frame carries, `E`
/// the error of a frame that could not be read.
#[derive(Clone, Debug, PartialEq, Eq)]
pub enum Frame<C, E> {
    Ping(Vec<u8>),
    Pong(Vec<u8>),
    Text(String),
    Binary(Vec<u8>),
    Close(C),
    Continuation,
    Nop,
    Failed(E),
}

/// Whether a connection stops after the lobby has answered its request to
/// join: it stops when the request could not be delivered.
pub fn stops_after_join_reply(delivered: bool) -> (stop: bool)
    ensures
        stop == !delivered,
{
    !delivered
}

} // verus!
