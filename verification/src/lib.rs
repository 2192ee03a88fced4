//! Verified core of a chat and video-call signalling server.
//!
//! The library holds the rooms, sessions and per-connection decisions of the
//! server; the networking layer performs the deliveries that it computes.

pub mod messages;
pub mod ids;
pub mod text;
pub mod outside;
pub mod lobby;
pub mod videolobby;
pub mod frames;
pub mod websocket;
pub mod signalsocket;
