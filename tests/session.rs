use link_cable::ids::{generate_player_id, generate_room_code};
use link_cable::protocol::{
    Create, IceCandidate, Join, Offer, Player, PlayerChoice, Request, Response, RoomInfo, SDPOffer,
};
use link_cable::registry::{Disconnect, ToRoom};
use link_cable::session::{Command, PlayerSession, Tick, CLIENT_TIMEOUT_MS};

fn in_room() -> PlayerSession {
    let mut s = PlayerSession::new(0);
    s.handle_response(&Response::You(Player { id: "p1".to_string(), c: None, i: Some(0) }));
    s.handle_response(&Response::RoomInfo(RoomInfo {
        code: "abcd".to_string(),
        players: vec![Some(Player { id: "p1".to_string(), c: None, i: Some(0) })],
    }));
    s
}

fn offer() -> Offer {
    Offer { offer: SDPOffer { kind: "offer".to_string(), sdp: "v=0".to_string() } }
}

#[test]
fn new_session_has_no_room() {
    let s = PlayerSession::new(42);
    assert_eq!(s.id(), None);
    assert_eq!(s.room(), None);
    assert_eq!(s.heartbeat_at(), 42);
    assert_eq!(s.stopping(), None);
}

#[test]
fn create_outside_room_asks_for_room() {
    let s = PlayerSession::new(0);
    assert_eq!(s.handle_request(Request::Create(Create {})), Command::CreateRoom);
}

#[test]
fn create_inside_room_resends_snapshot() {
    let s = in_room();
    assert_eq!(s.handle_request(Request::Create(Create {})), Command::Snapshot("abcd".to_string()));
}

#[test]
fn join_is_passed_on_without_changing_session() {
    let s = PlayerSession::new(0);
    let c = s.handle_request(Request::Join(Join { code: "wxyz".to_string() }));
    assert_eq!(c, Command::JoinRoom("wxyz".to_string()));
    assert_eq!(s.room(), None);
    let s = in_room();
    let c = s.handle_request(Request::Join(Join { code: "wxyz".to_string() }));
    assert_eq!(c, Command::JoinRoom("wxyz".to_string()));
    assert_eq!(s.room(), Some("abcd".to_string()));
}

#[test]
fn choice_is_relayed_as_player_update() {
    let s = in_room();
    let c = s.handle_request(Request::PlayerChoice(PlayerChoice { c: 7 }));
    assert_eq!(
        c,
        Command::ToRoom(ToRoom {
            msg: Response::Player(Player { id: "p1".to_string(), c: Some(7), i: None }),
            room: "abcd".to_string(),
            id: "p1".to_string(),
        })
    );
}

#[test]
fn signaling_is_relayed_verbatim() {
    let s = in_room();
    let c = s.handle_request(Request::Offer(offer()));
    assert_eq!(
        c,
        Command::ToRoom(ToRoom {
            msg: Response::Offer(offer()),
            room: "abcd".to_string(),
            id: "p1".to_string()
        })
    );
    let c = s.handle_request(Request::Answer(offer()));
    assert_eq!(
        c,
        Command::ToRoom(ToRoom {
            msg: Response::Answer(offer()),
            room: "abcd".to_string(),
            id: "p1".to_string()
        })
    );
    let ice = IceCandidate { candidate: serde_json::Value::from(5) };
    let c = s.handle_request(Request::IceCandidate(ice.clone()));
    assert_eq!(
        c,
        Command::ToRoom(ToRoom {
            msg: Response::IceCandidate(ice),
            room: "abcd".to_string(),
            id: "p1".to_string()
        })
    );
}

#[test]
fn relays_outside_room_are_dropped() {
    let s = PlayerSession::new(0);
    assert_eq!(s.handle_request(Request::PlayerChoice(PlayerChoice { c: 1 })), Command::Ignore);
    assert_eq!(s.handle_request(Request::Offer(offer())), Command::Ignore);
    assert_eq!(s.handle_request(Request::Answer(offer())), Command::Ignore);
    let ice = IceCandidate { candidate: serde_json::Value::Null };
    assert_eq!(s.handle_request(Request::IceCandidate(ice)), Command::Ignore);
}

#[test]
fn confirmations_set_identity_and_room() {
    let s = in_room();
    assert_eq!(s.id(), Some("p1".to_string()));
    assert_eq!(s.room(), Some("abcd".to_string()));
    assert_eq!(
        s.stopping(),
        Some(Disconnect { id: Some("p1".to_string()), room: Some("abcd".to_string()) })
    );
}

#[test]
fn failed_join_clears_room_only() {
    let mut s = in_room();
    s.handle_response(&Response::RoomInfo(RoomInfo { code: String::new(), players: vec![] }));
    assert_eq!(s.room(), None);
    assert_eq!(s.id(), Some("p1".to_string()));
    assert_eq!(s.stopping(), None);
}

#[test]
fn other_events_leave_session_alone() {
    let mut s = in_room();
    s.handle_response(&Response::Player(Player { id: "p9".to_string(), c: Some(1), i: Some(3) }));
    s.handle_response(&Response::Offer(offer()));
    assert_eq!(s.id(), Some("p1".to_string()));
    assert_eq!(s.room(), Some("abcd".to_string()));
}

#[test]
fn heartbeat_timeout() {
    let mut s = PlayerSession::new(1000);
    assert_eq!(s.tick(1000 + CLIENT_TIMEOUT_MS), Tick::Ping);
    assert_eq!(s.tick(1000 + CLIENT_TIMEOUT_MS + 1), Tick::Stop);
    s.heartbeat(9000);
    assert_eq!(s.heartbeat_at(), 9000);
    assert_eq!(s.tick(1000 + CLIENT_TIMEOUT_MS + 1), Tick::Ping);
    assert_eq!(s.tick(500), Tick::Ping);
}

#[test]
fn generated_codes_and_ids_have_their_shape() {
    for _ in 0..50 {
        let code = generate_room_code();
        assert_eq!(code.len(), 4);
        assert!(code.chars().all(|c| c.is_ascii_lowercase()));
        let id = generate_player_id();
        assert_eq!(id.len(), 8);
        assert!(id.chars().all(|c| c.is_ascii_alphanumeric()));
    }
}
