use rrchat::frames::stops_after_join_reply;
use rrchat::frames::Frame;
use rrchat::messages::ClientActorMessage;
use rrchat::messages::Disconnect;
use rrchat::messages::SignalDisconnect;
use rrchat::signalsocket::SignalFrameAction;
use rrchat::signalsocket::SignalSocket;
use rrchat::text::is_whisper_text;
use rrchat::text::second_field_text;
use rrchat::websocket::ChatFrameAction;
use rrchat::websocket::HeartbeatAction;
use rrchat::websocket::WebSocketConnection;
use rrchat::websocket::CHAT_ROOM_ID;
use rrchat::websocket::CLIENT_TIMEOUT_NANOS;
use rrchat::websocket::HEARTBEAT_INTERVAL_SECS;

fn version(id: u128) -> u128 {
    (id >> 76) & 0xf
}

#[test]
fn new_connection_has_random_v4_id() {
    let a = WebSocketConnection::new(CHAT_ROOM_ID, 0u8, "alice".to_string(), 100);
    let b = WebSocketConnection::new(CHAT_ROOM_ID, 0u8, "bob".to_string(), 100);
    assert_eq!(version(a.id), 4);
    assert_eq!((a.id >> 62) & 3, 2);
    assert_ne!(a.id, b.id);
    assert_eq!(a.hb, 100);
    assert_eq!(a.room, CHAT_ROOM_ID);
    assert_eq!(a.username, "alice");
}

#[test]
fn heartbeat_allows_exactly_the_timeout() {
    let c = WebSocketConnection::new(CHAT_ROOM_ID, (), "alice".to_string(), 1_000);
    assert_eq!(c.hb(1_000 + CLIENT_TIMEOUT_NANOS), HeartbeatAction::Ping);
    assert_eq!(c.hb(500), HeartbeatAction::Ping);
    assert_eq!(
        c.hb(1_001 + CLIENT_TIMEOUT_NANOS),
        HeartbeatAction::Disconnect(Disconnect { room_id: CHAT_ROOM_ID, id: c.id })
    );
}

#[test]
fn ping_and_pong_reset_the_heartbeat() {
    let mut c = WebSocketConnection::new(CHAT_ROOM_ID, (), "alice".to_string(), 0);
    let a = c.handle(Frame::<(), ()>::Ping(vec![1, 2, 3]), 50);
    assert_eq!(a, ChatFrameAction::Pong(vec![1, 2, 3]));
    assert_eq!(c.hb, 50);
    let a = c.handle(Frame::<(), ()>::Pong(vec![9]), 70);
    assert_eq!(a, ChatFrameAction::Nothing);
    assert_eq!(c.hb, 70);
    let a = c.handle(Frame::<(), ()>::Nop, 90);
    assert_eq!(a, ChatFrameAction::Nothing);
    assert_eq!(c.hb, 70);
}

#[test]
fn chat_frames_map_to_actions() {
    let mut c = WebSocketConnection::new(CHAT_ROOM_ID, (), "alice".to_string(), 0);
    let id = c.id;
    assert_eq!(
        c.handle(Frame::<u16, &str>::Text("hi".to_string()), 1),
        ChatFrameAction::ToLobby(ClientActorMessage { id, msg: "hi".to_string(), room_id: CHAT_ROOM_ID })
    );
    assert_eq!(c.handle(Frame::<u16, &str>::Binary(vec![7]), 1), ChatFrameAction::Binary(vec![7]));
    assert_eq!(c.handle(Frame::<u16, &str>::Close(1000), 1), ChatFrameAction::Close(1000));
    assert_eq!(c.handle(Frame::<u16, &str>::Continuation, 1), ChatFrameAction::Nothing);
    assert_eq!(c.hb, 0);
}

#[test]
fn chat_connection_join_and_leave_messages() {
    let c = WebSocketConnection::new(CHAT_ROOM_ID, (), "alice".to_string(), 0);
    let m = c.started(42u32);
    assert_eq!(m.addr, 42);
    assert_eq!(m.lobby_id, CHAT_ROOM_ID);
    assert_eq!(m.self_id, c.id);
    assert_eq!(m.username, "alice");
    assert_eq!(c.stopping(), Disconnect { room_id: CHAT_ROOM_ID, id: c.id });
    assert!(stops_after_join_reply(false));
    assert!(!stops_after_join_reply(true));
}

#[test]
fn signal_socket_frames_map_to_actions() {
    let s = SignalSocket::new((), "bob".to_string());
    assert_eq!(version(s.user_id), 4);
    assert_eq!(s.handle(Frame::<u8, ()>::Ping(vec![5])), SignalFrameAction::Pong(vec![5]));
    assert_eq!(
        s.handle(Frame::<u8, ()>::Text("{}".to_string())),
        SignalFrameAction::Relay("{}".to_string())
    );
    assert_eq!(s.handle(Frame::<u8, ()>::Close(3)), SignalFrameAction::Close(3));
    assert_eq!(s.handle(Frame::<u8, ()>::Pong(vec![])), SignalFrameAction::Nothing);
    assert_eq!(s.handle(Frame::<u8, ()>::Binary(vec![1])), SignalFrameAction::Nothing);
    assert_eq!(s.handle(Frame::<u8, ()>::Failed(())), SignalFrameAction::Nothing);
    let m = s.started(9u8);
    assert_eq!(m.user_id, s.user_id);
    assert_eq!(m.username, "bob");
    assert_eq!(m.addr, 9);
    assert_eq!(s.stopping(), SignalDisconnect { user_id: s.user_id });
}

#[test]
fn whisper_lines_are_recognised() {
    assert!(is_whisper_text("\\w abc"));
    assert!(is_whisper_text("\\wabc"));
    assert!(!is_whisper_text("w abc"));
    assert!(!is_whisper_text("\\"));
    assert!(!is_whisper_text(""));
}

#[test]
fn second_field_is_the_second_space_separated_piece() {
    assert_eq!(second_field_text("\\w abc def"), Some("abc"));
    assert_eq!(second_field_text("\\w abc"), Some("abc"));
    assert_eq!(second_field_text("\\w  abc"), Some(""));
    assert_eq!(second_field_text("\\w "), Some(""));
    assert_eq!(second_field_text("\\wabc"), None);
    assert_eq!(second_field_text("é ü ö"), Some("ü"));
}

#[test]
fn a_silent_client_is_caught_at_the_third_tick() {
    let c = WebSocketConnection::new(CHAT_ROOM_ID, (), "alice".to_string(), 0);
    let interval = HEARTBEAT_INTERVAL_SECS as u128 * 1_000_000_000;
    assert_eq!(c.hb(interval), HeartbeatAction::Ping);
    assert_eq!(c.hb(2 * interval), HeartbeatAction::Ping);
    assert_eq!(c.hb(3 * interval), HeartbeatAction::Disconnect(Disconnect { room_id: CHAT_ROOM_ID, id: c.id }));
}
