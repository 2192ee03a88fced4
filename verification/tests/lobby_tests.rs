use rrchat::lobby::Lobby;
use rrchat::lobby::LobbyError;
use rrchat::messages::ClientActorMessage;
use rrchat::messages::Connect;
use rrchat::messages::Delivery;
use rrchat::messages::Disconnect;
use rrchat::messages::MessageValue;
use rrchat::messages::OutgoingMessageType;
use rrchat::messages::WebSocketMessage;
use rrchat::websocket::CHAT_ROOM_ID;

const ALICE: u128 = 0x67e55044_10b1_426f_9247_bb680e5fe0c8;
const ALICE_TEXT: &str = "67e55044-10b1-426f-9247-bb680e5fe0c8";
const BOB: u128 = 0xa1a2a3a4_b1b2_c1c2_d1d2_d3d4d5d6d7d8;
const BOB_TEXT: &str = "a1a2a3a4-b1b2-c1c2-d1d2-d3d4d5d6d7d8";
const CAROL: u128 = 0x00000000_0000_4000_8000_00000000000c;

fn join(lobby: &mut Lobby<u32>, id: u128, name: &str, socket: u32) -> Vec<Delivery> {
    lobby.handle_connect(Connect {
        addr: socket,
        lobby_id: CHAT_ROOM_ID,
        self_id: id,
        username: name.to_string(),
    })
}

fn roster_text(d: &Delivery) -> String {
    assert_eq!(d.message.msgType, OutgoingMessageType::Roster);
    match &d.message.data {
        MessageValue::String(s) => s.clone(),
        MessageValue::Message(_) => panic!("a roster carries text"),
    }
}

fn line(from: u128, text: &str) -> ClientActorMessage {
    ClientActorMessage { id: from, msg: text.to_string(), room_id: CHAT_ROOM_ID }
}

#[test]
fn first_user_gets_own_id_then_roster() {
    let mut lobby: Lobby<u32> = Lobby::new();
    let out = join(&mut lobby, ALICE, "alice", 7);
    assert_eq!(out.len(), 2);
    assert_eq!(
        out[0],
        Delivery {
            to: ALICE,
            message: WebSocketMessage {
                msgType: OutgoingMessageType::UserInfo,
                data: MessageValue::String(ALICE_TEXT.to_string()),
            },
        }
    );
    assert_eq!(out[1].to, ALICE);
    assert_eq!(roster_text(&out[1]), "[\"alice\"]");
    assert_eq!(lobby.user(ALICE).unwrap().socket, 7);
    assert_eq!(lobby.user(ALICE).unwrap().name, "alice");
    assert_eq!(lobby.room_members(CHAT_ROOM_ID), Some(vec![ALICE]));
}

#[test]
fn second_user_roster_reaches_both() {
    let mut lobby: Lobby<u32> = Lobby::new();
    join(&mut lobby, ALICE, "alice", 1);
    let out = join(&mut lobby, BOB, "bob", 2);
    assert_eq!(out.len(), 3);
    assert_eq!(out[0].to, BOB);
    assert_eq!(out[0].message.data, MessageValue::String(BOB_TEXT.to_string()));
    let mut targets = vec![out[1].to, out[2].to];
    targets.sort();
    let mut expected = vec![ALICE, BOB];
    expected.sort();
    assert_eq!(targets, expected);
    let text = roster_text(&out[1]);
    assert_eq!(text, roster_text(&out[2]));
    assert!(text == "[\"alice\",\"bob\"]" || text == "[\"bob\",\"alice\"]");
    // The names come in the order in which the roster goes out.
    if out[1].to == ALICE {
        assert_eq!(text, "[\"alice\",\"bob\"]");
    } else {
        assert_eq!(text, "[\"bob\",\"alice\"]");
    }
}

#[test]
fn roster_names_are_json_escaped() {
    let mut lobby: Lobby<u32> = Lobby::new();
    let out = join(&mut lobby, ALICE, "a\"b\\c", 1);
    assert_eq!(roster_text(&out[1]), "[\"a\\\"b\\\\c\"]");
}

#[test]
fn leaving_a_room_of_two_sends_roster_to_the_rest() {
    let mut lobby: Lobby<u32> = Lobby::new();
    join(&mut lobby, ALICE, "alice", 1);
    join(&mut lobby, BOB, "bob", 2);
    let out = lobby.handle_disconnect(Disconnect { room_id: CHAT_ROOM_ID, id: ALICE });
    assert_eq!(out.len(), 1);
    assert_eq!(out[0].to, BOB);
    assert_eq!(roster_text(&out[0]), "[\"bob\"]");
    assert!(lobby.user(ALICE).is_none());
    assert_eq!(lobby.room_members(CHAT_ROOM_ID), Some(vec![BOB]));
}

#[test]
fn last_user_leaving_closes_the_room() {
    let mut lobby: Lobby<u32> = Lobby::new();
    join(&mut lobby, ALICE, "alice", 1);
    let out = lobby.handle_disconnect(Disconnect { room_id: CHAT_ROOM_ID, id: ALICE });
    assert!(out.is_empty());
    assert!(lobby.user(ALICE).is_none());
    assert_eq!(lobby.room_members(CHAT_ROOM_ID), None);
}

#[test]
fn leaving_twice_changes_nothing_more() {
    let mut lobby: Lobby<u32> = Lobby::new();
    join(&mut lobby, ALICE, "alice", 1);
    join(&mut lobby, BOB, "bob", 2);
    lobby.handle_disconnect(Disconnect { room_id: CHAT_ROOM_ID, id: ALICE });
    let out = lobby.handle_disconnect(Disconnect { room_id: CHAT_ROOM_ID, id: ALICE });
    assert!(out.is_empty());
    assert_eq!(lobby.room_members(CHAT_ROOM_ID), Some(vec![BOB]));
    assert!(lobby.user(BOB).is_some());
}

#[test]
fn join_then_leave_restores_the_lobby() {
    let mut lobby: Lobby<u32> = Lobby::new();
    join(&mut lobby, ALICE, "alice", 1);
    join(&mut lobby, BOB, "bob", 2);
    lobby.handle_disconnect(Disconnect { room_id: CHAT_ROOM_ID, id: BOB });
    assert!(lobby.user(BOB).is_none());
    assert_eq!(lobby.room_members(CHAT_ROOM_ID), Some(vec![ALICE]));
    assert!(lobby.user(ALICE).is_some());
}

#[test]
fn a_line_goes_to_every_member() {
    let mut lobby: Lobby<u32> = Lobby::new();
    join(&mut lobby, ALICE, "alice", 1);
    join(&mut lobby, BOB, "bob", 2);
    let out = lobby.handle_client_message(&line(BOB, "hello all"));
    assert_eq!(out.len(), 2);
    let mut targets = vec![out[0].to, out[1].to];
    targets.sort();
    let mut expected = vec![ALICE, BOB];
    expected.sort();
    assert_eq!(targets, expected);
    for d in &out {
        assert_eq!(d.message.msgType, OutgoingMessageType::Msg);
        match &d.message.data {
            MessageValue::Message(t) => {
                assert_eq!(t.sender, "bob");
                assert_eq!(t.senderId, BOB_TEXT);
                assert_eq!(t.message, "hello all");
                assert!(t.time.ends_with(" UTC"));
            },
            MessageValue::String(_) => panic!("a chat line carries a message"),
        }
    }
}

#[test]
fn a_whisper_reaches_only_its_addressee() {
    let mut lobby: Lobby<u32> = Lobby::new();
    join(&mut lobby, ALICE, "alice", 1);
    join(&mut lobby, BOB, "bob", 2);
    join(&mut lobby, CAROL, "carol", 3);
    let text = format!("\\w {} see you", ALICE_TEXT);
    let out = lobby.handle_client_message(&line(BOB, &text));
    assert_eq!(out.len(), 1);
    assert_eq!(out[0].to, ALICE);
    assert_eq!(lobby.try_handle_client_message(&line(BOB, &text)).unwrap().len(), 1);
    match &out[0].message.data {
        MessageValue::Message(t) => {
            assert_eq!(t.sender, "bob");
            assert_eq!(t.message, text);
            assert!(t.time.ends_with(" UTC"));
        },
        MessageValue::String(_) => panic!("a chat line carries a message"),
    }
}

#[test]
fn a_whisper_with_uppercase_id_still_arrives() {
    let mut lobby: Lobby<u32> = Lobby::new();
    join(&mut lobby, ALICE, "alice", 1);
    join(&mut lobby, BOB, "bob", 2);
    let text = format!("\\w {}", ALICE_TEXT.to_uppercase());
    let out = lobby.handle_client_message(&line(BOB, &text));
    assert_eq!(out.len(), 1);
    assert_eq!(out[0].to, ALICE);
}

#[test]
fn a_whisper_without_addressee_goes_nowhere() {
    let mut lobby: Lobby<u32> = Lobby::new();
    join(&mut lobby, ALICE, "alice", 1);
    let out = lobby.handle_client_message(&line(ALICE, "\\whello"));
    assert!(out.is_empty());
    assert_eq!(lobby.try_handle_client_message(&line(ALICE, "\\whello")), Ok(vec![]));
}

#[test]
fn a_whisper_to_a_malformed_id_is_refused() {
    let mut lobby: Lobby<u32> = Lobby::new();
    join(&mut lobby, ALICE, "alice", 1);
    assert_eq!(
        lobby.try_handle_client_message(&line(ALICE, "\\w bob hi")),
        Err(LobbyError::InvalidRecipient)
    );
    assert_eq!(
        lobby.try_handle_client_message(&line(ALICE, &format!("\\w  {}", ALICE_TEXT))),
        Err(LobbyError::InvalidRecipient)
    );
}

#[test]
fn a_whisper_to_an_unknown_session_is_refused() {
    let mut lobby: Lobby<u32> = Lobby::new();
    join(&mut lobby, ALICE, "alice", 1);
    let text = format!("\\w {} hi", BOB_TEXT);
    assert_eq!(lobby.try_handle_client_message(&line(ALICE, &text)), Err(LobbyError::UnknownRecipient));
}

#[test]
fn a_whisper_from_an_unknown_session_is_refused() {
    let mut lobby: Lobby<u32> = Lobby::new();
    join(&mut lobby, ALICE, "alice", 1);
    let text = format!("\\w {} hi", ALICE_TEXT);
    assert_eq!(lobby.try_handle_client_message(&line(BOB, &text)), Err(LobbyError::UnknownSender));
}

#[test]
fn text_delivery_is_exact() {
    let mut lobby: Lobby<u32> = Lobby::new();
    join(&mut lobby, ALICE, "alice", 1);
    join(&mut lobby, BOB, "bob", 2);
    let d = lobby.text_delivery(&"hi".to_string(), BOB, ALICE, "noon".to_string());
    assert_eq!(d.to, ALICE);
    assert_eq!(d.message.msgType, OutgoingMessageType::Msg);
    match d.message.data {
        MessageValue::Message(t) => {
            assert_eq!(t.sender, "bob");
            assert_eq!(t.senderId, BOB_TEXT);
            assert_eq!(t.message, "hi");
            assert_eq!(t.time, "noon");
        },
        MessageValue::String(_) => panic!("a chat line carries a message"),
    }
}

#[test]
fn try_handle_checks_addressee_before_sender() {
    let mut lobby: Lobby<u32> = Lobby::new();
    join(&mut lobby, BOB, "bob", 2);
    let text = format!("\\w {} x", ALICE_TEXT);
    assert_eq!(lobby.try_handle_client_message(&line(CAROL, &text)), Err(LobbyError::UnknownRecipient));
    let text = format!("\\w {} x", BOB_TEXT);
    assert_eq!(lobby.try_handle_client_message(&line(CAROL, &text)), Err(LobbyError::UnknownSender));
    let out = lobby.try_handle_client_message(&line(BOB, &text)).unwrap();
    assert_eq!(out.len(), 1);
    assert_eq!(out[0].to, BOB);
}

#[test]
fn a_broadcast_goes_out_in_the_roster_order() {
    let mut lobby: Lobby<u32> = Lobby::new();
    join(&mut lobby, ALICE, "alice", 1);
    join(&mut lobby, BOB, "bob", 2);
    let out = join(&mut lobby, CAROL, "carol", 3);
    let roster_order: Vec<u128> = out[1..].iter().map(|d| d.to).collect();
    let lines = lobby.handle_client_message(&line(ALICE, "hi"));
    let line_order: Vec<u128> = lines.iter().map(|d| d.to).collect();
    assert_eq!(roster_order, line_order);
    assert_eq!(lobby.room_members(CHAT_ROOM_ID), Some(line_order));
}

#[test]
fn readiness_checks() {
    let mut lobby: Lobby<u32> = Lobby::new();
    assert!(lobby.room_known_except(CHAT_ROOM_ID, ALICE));
    assert!(!lobby.can_broadcast(CHAT_ROOM_ID, ALICE));
    join(&mut lobby, ALICE, "alice", 1);
    assert!(lobby.can_broadcast(CHAT_ROOM_ID, ALICE));
    assert!(!lobby.can_broadcast(CHAT_ROOM_ID, BOB));
    assert!(lobby.room_known_except(CHAT_ROOM_ID, BOB));
}

#[test]
fn default_lobby_is_empty() {
    let lobby: Lobby<u32> = Lobby::default();
    assert!(lobby.user(ALICE).is_none());
    assert_eq!(lobby.room_members(CHAT_ROOM_ID), None);
}

#[test]
fn a_roster_leaving_one_out_keeps_its_text() {
    let mut lobby: Lobby<u32> = Lobby::new();
    join(&mut lobby, ALICE, "alice", 1);
    join(&mut lobby, BOB, "bob", 2);
    join(&mut lobby, CAROL, "carol", 3);
    let full = lobby.send_roster(CHAT_ROOM_ID, None);
    let partial = lobby.send_roster(CHAT_ROOM_ID, Some(BOB));
    assert_eq!(full.len(), 3);
    let expected: Vec<Delivery> = full.iter().filter(|d| d.to != BOB).cloned().collect();
    assert_eq!(partial, expected);
    assert!(roster_text(&partial[0]).contains("\"bob\""));
}
