//! A video client's signalling connection: joining and leaving, and what each
//! incoming frame leads to.
use vstd::prelude::*;
use crate::frames::Frame;
use crate::ids::new_uuid;
use crate::messages::SignalConnect;
use crate::messages::SignalDisconnect;

verus! {

/// A video client's connection to the video lobby at `lobby`.
pub struct SignalSocket<L> {
    pub user_id: u128,
    pub lobby: L,
    pub username: String,
}

/// What an incoming frame on a signalling connection leads to.
#[derive(Clone, Debug, PartialEq, Eq)]
pub enum SignalFrameAction<C> {
    /// Answer with a pong carrying this payload.
    Pong(Vec<u8>),
    /// Read this text as a signal and hand it to the video lobby.
    Relay(String),
    /// Close the websocket with this reason, then stop the connection.
    Close(C),
    /// Nothing to do.
    Nothing,
}

impl<L> SignalSocket<L> {
    /// A connection with a fresh random identifier for user `username`.
    pub fn new(lobby: L, username: String) -> (s: Self)
        ensures
            s.lobby == lobby,
            s.username == username,
            (s.user_id >> 76u128) & 0xfu128 == 4u128,
            (s.user_id >> 62u128) & 3u128 == 2u128,
    {
        SignalSocket { user_id: new_uuid(), lobby, username }
    }

    /// The request to join the video lobby that a starting connection sends,
    /// with `addr` as where the lobby's messages for it go.
    pub fn started<R>(&self, addr: R) -> (m: SignalConnect<R>)
        ensures
            m.addr == addr,
            m.user_id == self.user_id,
            m.username@ == self.username@,
    {
        SignalConnect { addr, username: self.username.clone(), user_id: self.user_id }
    }

    /// The notice to the video lobby that a stopping connection sends.
    pub fn stopping(&self) -> (m: SignalDisconnect)
        ensures
            m == (SignalDisconnect { user_id: self.user_id }),
    {
        SignalDisconnect { user_id: self.user_id }
    }

    /// What a frame from the client leads to; frames that cannot be read are
    /// passed over.
    pub fn handle<C, E>(&self, frame: Frame<C, E>) -> (a: SignalFrameAction<C>)
        ensures
            match frame {
                Frame::Ping(p) => a == SignalFrameAction::<C>::Pong(p),
                Frame::Text(t) => a == SignalFrameAction::<C>::Relay(t),
                Frame::Close(c) => a == SignalFrameAction::<C>::Close(c),
                _ => a == SignalFrameAction::<C>::Nothing,
            },
    {
        match frame {
            Frame::Ping(msg) => SignalFrameAction::Pong(msg),
            Frame::Text(signal) => SignalFrameAction::Relay(signal),
            Frame::Close(reason) => SignalFrameAction::Close(reason),
            Frame::Continuation => SignalFrameAction::Nothing,
            Frame::Nop => SignalFrameAction::Nothing,
            _ => SignalFrameAction::Nothing,
        }
    }
}

} // verus!
