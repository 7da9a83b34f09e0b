use rust_websocket_server::websocket::data_transfer::{
    Answer, Candidate, DataType, Offer, Outbound, SignalError, StoreRoom,
};
use rust_websocket_server::websocket::payload::decimal_u8;
use rust_websocket_server::websocket::webrtc::{
    parse_kind, Incoming, Kind, Problem, Step, WebRTCStreamTransfer,
};
use rust_websocket_server::websocket::{ChatRooms, ConnId, PeerMap};

const X: ConnId = 1;
const Y: ConnId = 2;

fn candidate(text: &str) -> Candidate {
    Candidate {
        candidate: String::from(text),
        sdpMid: String::from("0"),
        sdpMLineIndex: 0,
        usernameFragment: String::from("u"),
    }
}

fn envelope(data_type: &str, room_id: &str) -> StoreRoom {
    StoreRoom {
        data_type: String::from(data_type),
        room_id: String::from(room_id),
        offer: Offer {
            kind: String::new(),
            sdp: String::new(),
        },
        answer: Answer {
            kind: String::new(),
            sdp: String::new(),
        },
        candidate: candidate(""),
    }
}

fn step(rooms: &mut ChatRooms, peers: &mut PeerMap, addr: ConnId, data: StoreRoom) -> Step {
    WebRTCStreamTransfer::response_msg(rooms, peers, addr, Incoming::Envelope(data))
}

fn texts(s: &Step) -> Vec<(ConnId, String)> {
    s.deliveries.iter().map(|d| (d.to, d.text.clone())).collect()
}

#[test]
fn test_webrtc_response_msg() {
    let mut rooms = ChatRooms::new();
    let mut peers = PeerMap::new();
    peers.register(X);
    let s = step(&mut rooms, &mut peers, X, envelope("store_room", "r1"));
    assert!(s.keep_reading);
    assert_eq!(s.problem, None);
    assert!(s.deliveries.is_empty());
    assert_eq!(rooms.len(), 1);
}

#[test]
fn offer_then_candidate_are_replayed_in_order() {
    let mut rooms = ChatRooms::new();
    let mut peers = PeerMap::new();
    peers.register(X);
    step(&mut rooms, &mut peers, X, envelope("store_room", "r1"));
    let mut offer = envelope("store_offer", "r1");
    offer.offer = Offer {
        kind: String::from("offer"),
        sdp: String::from("v=0..."),
    };
    assert_eq!(step(&mut rooms, &mut peers, X, offer).problem, None);
    let mut cand = envelope("store_candidate", "r1");
    cand.candidate = candidate("cand1");
    assert_eq!(step(&mut rooms, &mut peers, X, cand).problem, None);
    let s = step(&mut rooms, &mut peers, X, envelope("join_call", "r1"));
    assert_eq!(s.problem, None);
    assert_eq!(
        texts(&s),
        vec![
            (X, String::from(r#"{"data_type":"offer","offer":{"type":"offer","sdp":"v=0..."}}"#)),
            (
                X,
                String::from(
                    r#"{"data_type":"candidate","candidate":{"candidate":"cand1","sdpMid":"0","sdpMLineIndex":0,"usernameFragment":"u"}}"#
                )
            ),
        ]
    );
}

#[test]
fn offer_without_room_changes_nothing() {
    let mut rooms = ChatRooms::new();
    let mut peers = PeerMap::new();
    peers.register(X);
    let s = step(&mut rooms, &mut peers, X, envelope("store_offer", "r1"));
    assert_eq!(s.problem, Some(Problem::Signal(SignalError::RoomNotFound)));
    assert!(s.deliveries.is_empty());
    assert!(s.keep_reading);
    assert_eq!(rooms.len(), 0);
    let s = step(&mut rooms, &mut peers, X, envelope("store_candidate", "r1"));
    assert_eq!(s.problem, Some(Problem::Signal(SignalError::RoomNotFound)));
    assert_eq!(rooms.len(), 0);
}

#[test]
fn second_creator_of_same_room_is_refused() {
    let mut rooms = ChatRooms::new();
    let mut peers = PeerMap::new();
    peers.register(X);
    peers.register(Y);
    assert_eq!(step(&mut rooms, &mut peers, X, envelope("store_room", "r1")).problem, None);
    let s = step(&mut rooms, &mut peers, Y, envelope("store_room", "r1"));
    assert_eq!(s.problem, Some(Problem::Signal(SignalError::RoomExists)));
    assert_eq!(rooms.len(), 1);
    assert_eq!(rooms.owner_at(0), X);
    assert!(rooms.get(Y).is_none());
}

#[test]
fn same_creator_cannot_replace_its_room() {
    let mut rooms = ChatRooms::new();
    let data = envelope("store_room", "first");
    assert_eq!(DataType::store_room(&mut rooms, None, &data, X), Ok(()));
    let again = envelope("store_room", "second");
    assert_eq!(
        DataType::store_room(&mut rooms, None, &again, X),
        Err(SignalError::RoomExists)
    );
    assert_eq!(rooms.len(), 1);
    assert_eq!(rooms.get(X).unwrap().room_id, "first");
}

#[test]
fn close_forgets_the_connection_and_is_idempotent() {
    let mut rooms = ChatRooms::new();
    let mut peers = PeerMap::new();
    peers.register(X);
    peers.register(Y);
    step(&mut rooms, &mut peers, X, envelope("store_room", "r1"));
    step(&mut rooms, &mut peers, Y, envelope("store_room", "r2"));
    let s = WebRTCStreamTransfer::response_msg(&mut rooms, &mut peers, X, Incoming::Close);
    assert!(!s.keep_reading);
    assert_eq!(s.problem, None);
    assert!(rooms.get(X).is_none());
    assert!(!peers.contains(X));
    assert_eq!(rooms.len(), 1);
    assert_eq!(peers.len(), 1);
    DataType::close(&mut rooms, &mut peers, X);
    assert_eq!(rooms.len(), 1);
    assert_eq!(peers.len(), 1);
    assert!(rooms.get(Y).is_some());
    assert!(peers.contains(Y));
}

#[test]
fn read_failure_and_end_of_stream_close() {
    let mut rooms = ChatRooms::new();
    let mut peers = PeerMap::new();
    peers.register(X);
    step(&mut rooms, &mut peers, X, envelope("store_room", "r1"));
    let s = WebRTCStreamTransfer::response_msg(&mut rooms, &mut peers, X, Incoming::Failed);
    assert_eq!(s.problem, Some(Problem::TransportFailed));
    assert!(!s.keep_reading);
    assert_eq!(rooms.len(), 0);
    assert_eq!(peers.len(), 0);
    peers.register(Y);
    let s = WebRTCStreamTransfer::response_msg(&mut rooms, &mut peers, Y, Incoming::Ended);
    assert_eq!(s.problem, None);
    assert!(!s.keep_reading);
    assert_eq!(peers.len(), 0);
}

#[test]
fn undecodable_and_unknown_messages_are_dropped() {
    let mut rooms = ChatRooms::new();
    let mut peers = PeerMap::new();
    peers.register(X);
    let s = WebRTCStreamTransfer::response_msg(&mut rooms, &mut peers, X, Incoming::Undecodable);
    assert_eq!(s.problem, Some(Problem::Undecodable));
    assert!(s.keep_reading);
    let s = WebRTCStreamTransfer::response_msg(&mut rooms, &mut peers, X, Incoming::Control);
    assert_eq!(s.problem, None);
    assert!(s.keep_reading);
    let s = step(&mut rooms, &mut peers, X, envelope("hello", "r1"));
    assert_eq!(s.problem, Some(Problem::UnknownDataType));
    assert!(s.deliveries.is_empty());
    assert_eq!(rooms.len(), 0);
    assert!(peers.contains(X));
}

#[test]
fn candidates_replay_in_arrival_order() {
    let mut rooms = ChatRooms::new();
    let mut peers = PeerMap::new();
    step(&mut rooms, &mut peers, X, envelope("store_room", "r1"));
    for name in ["A", "B", "C"] {
        let mut e = envelope("store_candidate", "r1");
        e.candidate = candidate(name);
        assert_eq!(step(&mut rooms, &mut peers, X, e).problem, None);
    }
    let out = DataType::join_call(&rooms, Some(X)).unwrap();
    let names: Vec<String> = out
        .iter()
        .filter_map(|m| match m {
            Outbound::Candidate(c) => Some(c.candidate.clone()),
            _ => None,
        })
        .collect();
    assert_eq!(names, vec!["A", "B", "C"]);
    assert!(matches!(out[0], Outbound::Offer(_)));
}

#[test]
fn stored_offer_comes_back_unchanged() {
    let mut rooms = ChatRooms::new();
    let mut peers = PeerMap::new();
    step(&mut rooms, &mut peers, X, envelope("store_room", "r1"));
    let given = Offer {
        kind: String::from("offer"),
        sdp: String::from("v=0\r\no=- 1 \"q\" é"),
    };
    let mut e = envelope("store_offer", "r1");
    e.offer = Offer {
        kind: given.kind.clone(),
        sdp: given.sdp.clone(),
    };
    step(&mut rooms, &mut peers, X, e);
    let out = DataType::join_call(&rooms, Some(X)).unwrap();
    match &out[0] {
        Outbound::Offer(o) => assert_eq!(*o, given),
        other => panic!("unexpected first broadcast {:?}", other),
    }
    assert_eq!(
        out[0].to_json(),
        "{\"data_type\":\"offer\",\"offer\":{\"type\":\"offer\",\"sdp\":\"v=0\\r\\no=- 1 \\\"q\\\" é\"}}"
    );
}

#[test]
fn answer_is_broadcast_to_every_peer_in_registration_order() {
    let mut rooms = ChatRooms::new();
    let mut peers = PeerMap::new();
    peers.register(Y);
    peers.register(X);
    peers.register(Y);
    assert_eq!(peers.len(), 2);
    step(&mut rooms, &mut peers, X, envelope("store_room", "r1"));
    let mut e = envelope("send_answer", "r1");
    e.answer = Answer {
        kind: String::from("answer"),
        sdp: String::from("s"),
    };
    let s = step(&mut rooms, &mut peers, X, e);
    let text = String::from(r#"{"data_type":"answer","answer":{"type":"answer","sdp":"s"}}"#);
    assert_eq!(texts(&s), vec![(Y, text.clone()), (X, text)]);
}

#[test]
fn candidate_is_sent_only_for_a_known_room() {
    let mut rooms = ChatRooms::new();
    let mut peers = PeerMap::new();
    peers.register(X);
    let mut e = envelope("send_candidate", "r1");
    e.candidate = candidate("c");
    let s = step(&mut rooms, &mut peers, X, e);
    assert_eq!(s.problem, Some(Problem::Signal(SignalError::RoomNotFound)));
    assert!(s.deliveries.is_empty());
    let s = step(&mut rooms, &mut peers, X, envelope("join_call", "r1"));
    assert_eq!(s.problem, Some(Problem::Signal(SignalError::RoomNotFound)));
}

#[test]
fn data_types_are_read_exactly() {
    assert_eq!(parse_kind(&String::from("store_room")), Some(Kind::StoreRoom));
    assert_eq!(parse_kind(&String::from("store_offer")), Some(Kind::StoreOffer));
    assert_eq!(parse_kind(&String::from("store_candidate")), Some(Kind::StoreCandidate));
    assert_eq!(parse_kind(&String::from("send_answer")), Some(Kind::SendAnswer));
    assert_eq!(parse_kind(&String::from("send_candidate")), Some(Kind::SendCandidate));
    assert_eq!(parse_kind(&String::from("join_call")), Some(Kind::JoinCall));
    assert_eq!(parse_kind(&String::from("Store_room")), None);
    assert_eq!(parse_kind(&String::from("")), None);
}

#[test]
fn line_index_is_written_in_decimal() {
    assert_eq!(decimal_u8(0), "0");
    assert_eq!(decimal_u8(7), "7");
    assert_eq!(decimal_u8(42), "42");
    assert_eq!(decimal_u8(100), "100");
    assert_eq!(decimal_u8(255), "255");
    let mut c = candidate("x");
    c.sdpMLineIndex = 12;
    assert_eq!(
        Outbound::Candidate(c).to_json(),
        r#"{"data_type":"candidate","candidate":{"candidate":"x","sdpMid":"0","sdpMLineIndex":12,"usernameFragment":"u"}}"#
    );
}
