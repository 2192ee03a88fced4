//! A chat client's connection: heartbeat, joining and leaving, and what each
//! incoming frame leads to.
use vstd::prelude::*;
use crate::frames::Frame;
use crate::ids::new_uuid;
use crate::messages::ClientActorMessage;
use crate::messages::Connect;
use crate::messages::Disconnect;

verus! {

/// The room that every chat client joins.
pub const CHAT_ROOM_ID: u128 = 0x67e55044_10b1_426f_9247_bb680e5fe0c8u128;

/// Seconds between two heartbeat checks.
pub const HEARTBEAT_INTERVAL_SECS: u64 = 5;

/// Nanoseconds of silence after which a client counts as gone.
pub const CLIENT_TIMEOUT_NANOS: u128 = 10_000_000_000u128;

/// Whether a client last heard from at `last` (nanoseconds on a monotonic
/// clock) is still alive at `now`: the time since then, zero if `now` comes
/// first, is at most the timeout.
pub open spec fn client_alive(last: u128, now: u128) -> bool {
    alive_at(last as int, now as int)
}

/// [`client_alive`] on unbounded times.
pub open spec fn alive_at(last: int, now: int) -> bool {
    now <= last || now - last <= CLIENT_TIMEOUT_NANOS
}

/// The time of the `k`-th heartbeat check of a timer started at `start`:
/// the checks come every [`HEARTBEAT_INTERVAL_SECS`] seconds.
pub open spec fn tick(start: int, k: int) -> int {
    start + k * (HEARTBEAT_INTERVAL_SECS as int * 1_000_000_000)
}

/// A chat client's connection to the lobby at `lobby_addr`.
pub struct WebSocketConnection<L> {
    pub room: u128,
    pub lobby_addr: L,
    /// When the client was last heard from, in nanoseconds on a monotonic clock.
    pub hb: u128,
    pub id: u128,
    pub username: String,
}

/// What a heartbeat check decides.
#[derive(Clone, Copy, Debug, PartialEq, Eq)]
pub enum HeartbeatAction {
    /// The client is alive: ping it.
    Ping,
    /// The client is gone: tell the lobby, then stop the connection.
    Disconnect(Disconnect),
}

/// What an incoming frame on a chat connection leads to.
#[derive(Clone, Debug, PartialEq, Eq)]
pub enum ChatFrameAction<C> {
    /// Answer with a pong carrying this payload.
    Pong(Vec<u8>),
    /// Send these bytes back to the client.
    Binary(Vec<u8>),
    /// Close the websocket with this reason, then stop the connection.
    Close(C),
    /// Hand this line to the lobby.
    ToLobby(ClientActorMessage),
    /// Nothing to do.
    Nothing,
}

impl<L> WebSocketConnection<L> {
    /// A connection with a fresh random identifier for user `username` in
    /// `room`, heard from at `now`.
    pub fn new(room: u128, lobby: L, username: String, now: u128) -> (c: Self)
        ensures
            c.room == room,
            c.lobby_addr == lobby,
            c.username == username,
            c.hb == now,
            (c.id >> 76u128) & 0xfu128 == 4u128,
            (c.id >> 62u128) & 3u128 == 2u128,
    {
        WebSocketConnection { id: new_uuid(), room, hb: now, lobby_addr: lobby, username }
    }

    /// The heartbeat check at `now`.
    pub fn hb(&self, now: u128) -> (a: HeartbeatAction)
        ensures
            client_alive(self.hb, now) ==> a == HeartbeatAction::Ping,
            !client_alive(self.hb, now) ==> a == HeartbeatAction::Disconnect(
                Disconnect { room_id: self.room, id: self.id },
            ),
    {
        let is_client_connected = now <= self.hb || now - self.hb <= CLIENT_TIMEOUT_NANOS;
        if is_client_connected {
            HeartbeatAction::Ping
        } else {
            HeartbeatAction::Disconnect(Disconnect { id: self.id, room_id: self.room })
        }
    }

    /// The request to join the lobby that a starting connection sends, with
    /// `addr` as where the lobby's messages for it go.
    pub fn started<R>(&self, addr: R) -> (m: Connect<R>)
        ensures
            m.addr == addr,
            m.lobby_id == self.room,
            m.self_id == self.id,
            m.username@ == self.username@,
    {
        Connect { addr, lobby_id: self.room, self_id: self.id, username: self.username.clone() }
    }

    /// The notice to the lobby that a stopping connection sends.
    pub fn stopping(&self) -> (m: Disconnect)
        ensures
            m == (Disconnect { room_id: self.room, id: self.id }),
    {
        Disconnect { id: self.id, room_id: self.room }
    }

    /// What a frame from the client, arriving at `now`, leads to. A ping or a
    /// pong shows that the client is alive. A frame that could not be read is
    /// a failure of the connection, on which the caller stops.
    pub fn handle<C, E>(&mut self, frame: Frame<C, E>, now: u128) -> (a: ChatFrameAction<C>)
        requires
            !(frame is Failed),
        ensures
            final(self).room == old(self).room,
            final(self).id == old(self).id,
            final(self).username == old(self).username,
            final(self).lobby_addr == old(self).lobby_addr,
            final(self).hb == (match frame {
                Frame::Ping(_) | Frame::Pong(_) => now,
                _ => old(self).hb,
            }),
            match frame {
                Frame::Ping(p) => a == ChatFrameAction::<C>::Pong(p),
                Frame::Pong(_) => a == ChatFrameAction::<C>::Nothing,
                Frame::Binary(b) => a == ChatFrameAction::<C>::Binary(b),
                Frame::Close(c) => a == ChatFrameAction::<C>::Close(c),
                Frame::Continuation | Frame::Nop => a == ChatFrameAction::<C>::Nothing,
                Frame::Text(t) => a matches ChatFrameAction::ToLobby(m) && m.id == old(self).id
                    && m.room_id == old(self).room && m.msg == t,
                Frame::Failed(_) => true,
            },
    {
        match frame {
            Frame::Ping(msg) => {
                self.hb = now;
                ChatFrameAction::Pong(msg)
            },
            Frame::Pong(_) => {
                self.hb = now;
                ChatFrameAction::Nothing
            },
            Frame::Binary(bin) => ChatFrameAction::Binary(bin),
            Frame::Close(reason) => ChatFrameAction::Close(reason),
            Frame::Continuation => ChatFrameAction::Nothing,
            Frame::Nop => ChatFrameAction::Nothing,
            Frame::Text(text) => ChatFrameAction::ToLobby(
                ClientActorMessage { id: self.id, msg: text, room_id: self.room },
            ),
            // Excluded by the precondition.
            Frame::Failed(_) => ChatFrameAction::Nothing,
        }
    }
}

/// A client heard from at `last` stays alive until the timeout has passed.
pub proof fn lemma_heard_client_stays_alive(last: u128, now: u128)
    requires
        now <= last + CLIENT_TIMEOUT_NANOS,
    ensures
        client_alive(last, now),
{
}

/// A client silent for longer than the timeout is gone.
pub proof fn lemma_silent_client_is_gone(last: u128, now: u128)
    requires
        now > last + CLIENT_TIMEOUT_NANOS,
    ensures
        !client_alive(last, now),
{
}

/// On a timer started at `start` that checks every five seconds, a client
/// last heard from at `last`, no earlier than ten seconds before the timer
/// started, and silent since, is found gone by a check no later than fifteen
/// seconds after `last`, and every check before that one finds it alive.
pub proof fn lemma_silent_client_caught_within_a_tick(start: int, last: int)
    requires
        start <= last + CLIENT_TIMEOUT_NANOS,
    ensures
        exists|k: int|
            #![trigger tick(start, k)]
            k >= 1 && !alive_at(last, tick(start, k)) && tick(start, k) <= last + CLIENT_TIMEOUT_NANOS
                + HEARTBEAT_INTERVAL_SECS * 1_000_000_000 && forall|j: int|
                1 <= j < k ==> #[trigger] alive_at(last, tick(start, j)),
{
    let d: int = last + CLIENT_TIMEOUT_NANOS - start;
    vstd::arithmetic::div_mod::lemma_fundamental_div_mod(d, 5_000_000_000);
    vstd::arithmetic::div_mod::lemma_mod_bound(d, 5_000_000_000);
    let q = d / 5_000_000_000;
    assert(q >= 0) by {
        vstd::arithmetic::div_mod::lemma_div_pos_is_pos(d, 5_000_000_000);
    }
    let k = q + 1;
    assert(HEARTBEAT_INTERVAL_SECS as int * 1_000_000_000 == 5_000_000_000);
    assert(tick(start, k) == start + q * 5_000_000_000 + 5_000_000_000);
    assert(!alive_at(last, tick(start, k)));
    assert forall|j: int| 1 <= j < k implies #[trigger] alive_at(last, tick(start, j)) by {
        assert(j * 5_000_000_000 <= q * 5_000_000_000);
    }
    assert(tick(start, k) <= last + CLIENT_TIMEOUT_NANOS + HEARTBEAT_INTERVAL_SECS * 1_000_000_000);
}

} // verus!
