use rrchat::messages::SDPType;
use rrchat::messages::Signal;
use rrchat::messages::SignalConnect;
use rrchat::messages::SignalDisconnect;
use rrchat::videolobby::VideoLobby;

const ALICE: u128 = 0x67e55044_10b1_426f_9247_bb680e5fe0c8;
const ALICE_TEXT: &str = "67e55044-10b1-426f-9247-bb680e5fe0c8";
const BOB: u128 = 0xa1a2a3a4_b1b2_c1c2_d1d2_d3d4d5d6d7d8;
const BOB_TEXT: &str = "a1a2a3a4-b1b2-c1c2-d1d2-d3d4d5d6d7d8";

fn join(lobby: &mut VideoLobby<u8>, id: u128, name: &str, socket: u8) -> Vec<rrchat::messages::SignalDelivery> {
    lobby.handle_connect(SignalConnect { user_id: id, username: name.to_string(), addr: socket })
}

#[test]
fn joining_user_gets_id_and_roster() {
    let mut lobby: VideoLobby<u8> = VideoLobby::new();
    let out = join(&mut lobby, ALICE, "alice", 1);
    assert_eq!(out.len(), 2);
    assert_eq!(out[0].to, ALICE);
    assert_eq!(out[0].message.MsgType, SDPType::UserInfo(ALICE_TEXT.to_string()));
    assert_eq!(out[1].to, ALICE);
    assert_eq!(out[1].message.MsgType, SDPType::Roster(vec![ALICE_TEXT.to_string()]));
    assert_eq!(lobby.user(ALICE).unwrap().name, "alice");
    assert_eq!(lobby.user(ALICE).unwrap().socket, 1);
}

#[test]
fn roster_lists_every_user_once() {
    let mut lobby: VideoLobby<u8> = VideoLobby::new();
    join(&mut lobby, ALICE, "alice", 1);
    let out = join(&mut lobby, BOB, "bob", 2);
    assert_eq!(out[1].to, BOB);
    match &out[1].message.MsgType {
        SDPType::Roster(names) => {
            let mut names = names.clone();
            names.sort();
            assert_eq!(names, vec![ALICE_TEXT.to_string(), BOB_TEXT.to_string()]);
        },
        _ => panic!("expected a roster"),
    }
}

#[test]
fn leaving_hands_back_the_user() {
    let mut lobby: VideoLobby<u8> = VideoLobby::new();
    join(&mut lobby, ALICE, "alice", 1);
    join(&mut lobby, BOB, "bob", 2);
    let user = lobby.handle_disconnect(SignalDisconnect { user_id: ALICE });
    assert_eq!(user.id, ALICE);
    assert_eq!(user.name, "alice");
    assert!(lobby.user(ALICE).is_none());
    assert!(lobby.user(BOB).is_some());
}

#[test]
fn a_signal_is_relayed_unchanged() {
    let mut lobby: VideoLobby<u8> = VideoLobby::new();
    join(&mut lobby, ALICE, "alice", 1);
    join(&mut lobby, BOB, "bob", 2);
    let signal = Signal { user_id: BOB, signal: "{\"sdp\":\"offer\"}".to_string(), from_user_id: ALICE };
    let d = lobby.handle_signal(signal.clone());
    assert_eq!(d.to, BOB);
    assert_eq!(d.message.MsgType, SDPType::Signal(signal));
}

#[test]
fn default_video_lobby_is_empty() {
    let lobby: VideoLobby<u8> = VideoLobby::default();
    assert!(lobby.user(ALICE).is_none());
}
