use link_cable::protocol::{Chat, IceCandidate, Offer, Player, Response, RoomInfo, SDPOffer};
use link_cable::registry::{
    Broadcast, CreateRoom, Delivery, Disconnect, JoinRoom, RoomServer, ToRoom, VACATED,
};

fn player(id: &str, i: usize) -> Player {
    Player { id: id.to_string(), c: None, i: Some(i) }
}

fn room(code: &str, players: Vec<Option<Player>>) -> Response {
    Response::RoomInfo(RoomInfo { code: code.to_string(), players })
}

fn to(addr: u64, msg: Response) -> Delivery {
    Delivery { to: addr, msg }
}

fn snapshot(server: &RoomServer, code: &str) -> Vec<Option<Player>> {
    let out = server.room_snapshot(0, &code.to_string());
    assert_eq!(out.len(), 1);
    match &out[0].msg {
        Response::RoomInfo(info) => info.players.clone(),
        other => panic!("not a snapshot: {:?}", other),
    }
}

/// A room "abcd" with players p1, p2, p3 at sessions 1, 2, 3.
fn three_players() -> RoomServer {
    let mut server = RoomServer::new();
    server.create_room_with(1, "abcd".to_string(), "p1".to_string());
    server.join_room_with(2, "abcd".to_string(), "p2".to_string());
    server.join_room_with(3, "abcd".to_string(), "p3".to_string());
    server
}

#[test]
fn example_trace_create_then_join() {
    let mut server = RoomServer::new();
    let out = server.create_room_with(1, "abcd".to_string(), "p1".to_string());
    assert_eq!(
        out,
        vec![
            to(1, Response::You(player("p1", 0))),
            to(1, room("abcd", vec![Some(player("p1", 0))])),
        ]
    );
    let out = server.join_room_with(2, "abcd".to_string(), "p2".to_string());
    assert_eq!(
        out,
        vec![
            to(2, Response::You(player("p2", 1))),
            to(1, Response::Player(player("p2", 1))),
            to(2, room("abcd", vec![Some(player("p1", 0)), Some(player("p2", 1))])),
        ]
    );
}

#[test]
fn join_unknown_room_gives_empty_snapshot() {
    let mut server = RoomServer::new();
    let out = server.join_room(JoinRoom { addr: 7, code: "zzzz".to_string() });
    assert_eq!(out, vec![to(7, room("", vec![]))]);
    assert!(!server.contains(&"zzzz".to_string()));
}

#[test]
fn create_room_draws_code_and_id() {
    let mut server = RoomServer::new();
    let out = server.create_room(CreateRoom { addr: 4 });
    assert_eq!(out.len(), 2);
    let id = match &out[0].msg {
        Response::You(p) => {
            assert_eq!(p.i, Some(0));
            assert_eq!(p.c, None);
            p.id.clone()
        }
        other => panic!("expected you: {:?}", other),
    };
    assert_eq!(id.len(), 8);
    assert!(id.chars().all(|c| c.is_ascii_alphanumeric()));
    let code = match &out[1].msg {
        Response::RoomInfo(info) => {
            assert_eq!(info.players, vec![Some(player(&id, 0))]);
            info.code.clone()
        }
        other => panic!("expected room: {:?}", other),
    };
    assert_eq!(code.chars().count(), 4);
    assert!(code.chars().all(|c| c.is_ascii_lowercase()));
    assert!(out.iter().all(|d| d.to == 4));
    assert!(server.contains(&code));
}

#[test]
fn join_room_draws_fresh_id() {
    let mut server = RoomServer::new();
    server.create_room_with(1, "abcd".to_string(), "p1".to_string());
    let out = server.join_room(JoinRoom { addr: 2, code: "abcd".to_string() });
    assert_eq!(out.len(), 3);
    match &out[0].msg {
        Response::You(p) => {
            assert_eq!(p.i, Some(1));
            assert_eq!(p.id.len(), 8);
            assert!(p.id.chars().all(|c| c.is_ascii_alphanumeric()));
        }
        other => panic!("expected you: {:?}", other),
    }
    assert_eq!(out[1].to, 1);
    assert_eq!(snapshot(&server, "abcd").len(), 2);
}

#[test]
fn join_notifies_each_occupant_once() {
    let mut server = three_players();
    let out = server.join_room_with(9, "abcd".to_string(), "p4".to_string());
    assert_eq!(out.len(), 5);
    assert_eq!(out[0], to(9, Response::You(player("p4", 3))));
    for (k, addr) in [1u64, 2, 3].iter().enumerate() {
        assert_eq!(out[k + 1], to(*addr, Response::Player(player("p4", 3))));
    }
    match &out[4] {
        Delivery { to: 9, msg: Response::RoomInfo(info) } => {
            assert_eq!(info.code, "abcd");
            assert_eq!(info.players.len(), 4);
        }
        other => panic!("expected room: {:?}", other),
    }
}

#[test]
fn disconnect_vacates_seat_and_tells_the_rest() {
    let mut server = three_players();
    let out = server.disconnect(Disconnect {
        id: Some("p2".to_string()),
        room: Some("abcd".to_string()),
    });
    let gone = Response::Player(Player { id: "p2".to_string(), c: None, i: Some(VACATED) });
    assert_eq!(out, vec![to(1, gone.clone()), to(3, gone)]);
    assert_eq!(
        snapshot(&server, "abcd"),
        vec![Some(player("p1", 0)), None, Some(player("p3", 2))]
    );
}

#[test]
fn joiner_takes_lowest_vacated_seat() {
    let mut server = three_players();
    server.disconnect(Disconnect { id: Some("p3".to_string()), room: Some("abcd".to_string()) });
    server.disconnect(Disconnect { id: Some("p1".to_string()), room: Some("abcd".to_string()) });
    assert_eq!(snapshot(&server, "abcd"), vec![None, Some(player("p2", 1)), None]);
    let out = server.join_room_with(5, "abcd".to_string(), "p5".to_string());
    assert_eq!(out[0], to(5, Response::You(player("p5", 0))));
    assert_eq!(out[1], to(2, Response::Player(player("p5", 0))));
    assert_eq!(
        out[2],
        to(5, room("abcd", vec![Some(player("p5", 0)), Some(player("p2", 1)), None]))
    );
    server.join_room_with(6, "abcd".to_string(), "p6".to_string());
    server.join_room_with(7, "abcd".to_string(), "p7".to_string());
    assert_eq!(
        snapshot(&server, "abcd"),
        vec![
            Some(player("p5", 0)),
            Some(player("p2", 1)),
            Some(player("p6", 2)),
            Some(player("p7", 3)),
        ]
    );
}

#[test]
fn seats_never_shrink() {
    let mut server = three_players();
    let mut len = snapshot(&server, "abcd").len();
    for id in ["p1", "p2", "p3"] {
        server.disconnect(Disconnect { id: Some(id.to_string()), room: Some("abcd".to_string()) });
        let now = snapshot(&server, "abcd").len();
        assert!(now >= len);
        len = now;
    }
    assert_eq!(snapshot(&server, "abcd"), vec![None, None, None]);
}

#[test]
fn disconnect_is_idempotent() {
    let mut server = three_players();
    let first = server.disconnect(Disconnect {
        id: Some("p1".to_string()),
        room: Some("abcd".to_string()),
    });
    assert_eq!(first.len(), 2);
    let before = snapshot(&server, "abcd");
    let again = server.disconnect(Disconnect {
        id: Some("p1".to_string()),
        room: Some("abcd".to_string()),
    });
    assert!(again.is_empty());
    assert_eq!(snapshot(&server, "abcd"), before);
    assert!(server.disconnect(Disconnect { id: None, room: Some("abcd".to_string()) }).is_empty());
    assert!(server.disconnect(Disconnect { id: Some("p2".to_string()), room: None }).is_empty());
    assert!(server
        .disconnect(Disconnect { id: Some("p2".to_string()), room: Some("nope".to_string()) })
        .is_empty());
    assert_eq!(snapshot(&server, "abcd"), before);
}

#[test]
fn relay_skips_the_sender() {
    let server = three_players();
    let offer = Response::Offer(Offer {
        offer: SDPOffer { kind: "offer".to_string(), sdp: "v=0".to_string() },
    });
    let out = server.to_room(&ToRoom {
        msg: offer.clone(),
        room: "abcd".to_string(),
        id: "p2".to_string(),
    });
    assert_eq!(out, vec![to(1, offer.clone()), to(3, offer)]);
}

#[test]
fn relay_carries_ice_candidate_unchanged() {
    let server = three_players();
    let mut fields = serde_json::Map::new();
    fields.insert("candidate".to_string(), serde_json::Value::String("a=1".to_string()));
    fields.insert("sdpMLineIndex".to_string(), serde_json::Value::from(0));
    let ice = Response::IceCandidate(IceCandidate { candidate: serde_json::Value::Object(fields) });
    let out = server.to_room(&ToRoom { msg: ice.clone(), room: "abcd".to_string(), id: "p1".to_string() });
    assert_eq!(out, vec![to(2, ice.clone()), to(3, ice)]);
}

#[test]
fn relay_to_unknown_room_is_dropped() {
    let server = three_players();
    let out = server.to_room(&ToRoom {
        msg: Response::Chat(Chat { msg: "hi".to_string() }),
        room: "wxyz".to_string(),
        id: "p1".to_string(),
    });
    assert!(out.is_empty());
}

#[test]
fn broadcast_reaches_every_room_or_one() {
    let mut server = three_players();
    server.create_room_with(8, "efgh".to_string(), "q1".to_string());
    let alert = Response::Alert(Chat { msg: "hello".to_string() });
    let out = server.broadcast(&Broadcast::all("hello".to_string()));
    assert_eq!(
        out,
        vec![to(1, alert.clone()), to(2, alert.clone()), to(3, alert.clone()), to(8, alert.clone())]
    );
    let out = server.broadcast(&Broadcast::room("efgh".to_string(), "hello".to_string()));
    assert_eq!(out, vec![to(8, alert)]);
    assert!(server.broadcast(&Broadcast::room("none".to_string(), "x".to_string())).is_empty());
}

#[test]
fn broadcast_builders() {
    let all = Broadcast::all("m".to_string());
    assert_eq!(all, Broadcast { room: None, text: "m".to_string() });
    let one = Broadcast::room("abcd".to_string(), "m".to_string());
    assert_eq!(one, Broadcast { room: Some("abcd".to_string()), text: "m".to_string() });
}

#[test]
fn create_with_taken_code_replaces_room() {
    let mut server = three_players();
    server.create_room_with(9, "abcd".to_string(), "z1".to_string());
    assert_eq!(snapshot(&server, "abcd"), vec![Some(player("z1", 0))]);
}

#[test]
fn snapshot_of_unknown_room_is_empty() {
    let server = RoomServer::new();
    assert_eq!(server.room_snapshot(3, &"abcd".to_string()), vec![to(3, room("", vec![]))]);
}

#[test]
fn duplicate_keeps_content() {
    let info = room("abcd", vec![Some(player("p1", 0)), None]);
    assert_eq!(info.duplicate(), info);
    let choice = Response::Player(Player { id: "p1".to_string(), c: Some(3), i: None });
    assert_eq!(choice.duplicate(), choice);
}
