use room_relay::frame::{CloseReason, Command, Frame, ProtocolError};
use room_relay::lobby::Lobby;
use room_relay::messages::{ClientActorMessage, Connect, Disconnect, WsMessage};
use room_relay::ws::{Phase, Started, WsConn, CLIENT_TIMEOUT, HEARTBEAT_INTERVAL, INTERNAL_ERROR};

const ROOM: u128 = 0xc048a89b_4e45_44cf_bf6c_1674e6de9ee8;
const ID: u128 = 7;
const SECOND: u128 = 1_000_000_000;

fn running(now: u128) -> WsConn {
    let mut conn = WsConn::with_id(ID, ROOM, now);
    assert!(conn.started("sink").is_some());
    conn.joined(true);
    conn
}

fn leave() -> Command {
    Command::Leave(Disconnect { room_id: ROOM, id: ID })
}

#[test]
fn timings() {
    assert_eq!(HEARTBEAT_INTERVAL, 15 * SECOND);
    assert_eq!(CLIENT_TIMEOUT, 30 * SECOND);
    assert_eq!(INTERNAL_ERROR, 1011);
}

#[test]
fn new_connection_has_a_random_identifier() {
    let one = WsConn::new(ROOM, 5);
    let other = WsConn::new(ROOM, 5);
    assert_ne!(one.id(), other.id());
    for conn in [&one, &other] {
        assert_eq!((conn.id() >> 76) & 0xf, 4);
        assert_eq!((conn.id() >> 62) & 0x3, 2);
        assert_eq!(conn.room(), ROOM);
        assert_eq!(conn.last_seen(), 5);
        assert_eq!(conn.phase(), Phase::Starting);
    }
}

#[test]
fn connection_with_a_given_identifier() {
    let conn = WsConn::with_id(ID, ROOM, 9);
    assert_eq!(conn.id(), ID);
    assert_eq!(conn.room(), ROOM);
    assert_eq!(conn.last_seen(), 9);
    assert_eq!(conn.phase(), Phase::Starting);
    assert!(!conn.is_live());
}

#[test]
fn start_asks_for_the_room() {
    let mut conn = WsConn::with_id(ID, ROOM, 0);
    let out = conn.started("sink");
    assert_eq!(
        out,
        Some(Started {
            connect: Connect { addr: "sink", lobby_id: ROOM, self_id: ID },
            heartbeat_interval: 15 * SECOND,
        })
    );
    assert_eq!(conn.phase(), Phase::Joined);
    assert!(conn.is_live());
    assert_eq!(conn.started("sink"), None);
    assert_eq!(conn.phase(), Phase::Joined);
}

#[test]
fn consent_makes_active() {
    let mut conn = WsConn::with_id(ID, ROOM, 0);
    conn.joined(true);
    assert_eq!(conn.phase(), Phase::Starting);
    conn.started("sink");
    conn.joined(true);
    assert_eq!(conn.phase(), Phase::Active);
    conn.joined(false);
    assert_eq!(conn.phase(), Phase::Active);
}

#[test]
fn refusal_changes_nothing() {
    let mut conn = WsConn::with_id(ID, ROOM, 0);
    conn.started("sink");
    conn.joined(false);
    assert_eq!(conn.phase(), Phase::Joined);
    assert!(conn.is_live());
    assert_eq!(
        conn.handle(Ok(Frame::Text("still here".to_string())), SECOND),
        vec![Command::Relay(ClientActorMessage {
            id: ID,
            msg: "still here".to_string(),
            room_id: ROOM
        })]
    );
    conn.joined(true);
    assert_eq!(conn.phase(), Phase::Active);
}

#[test]
fn frames_are_handled_before_the_lobby_answers() {
    let mut conn = WsConn::with_id(ID, ROOM, 0);
    conn.started("sink");
    assert_eq!(
        conn.handle(Ok(Frame::Text("early".to_string())), 1),
        vec![Command::Relay(ClientActorMessage { id: ID, msg: "early".to_string(), room_id: ROOM })]
    );
}

#[test]
fn ping_is_answered_and_refreshes() {
    let mut conn = running(0);
    let out = conn.handle(Ok(Frame::Ping(vec![1, 2, 3])), 10 * SECOND);
    assert_eq!(out, vec![Command::Pong(vec![1, 2, 3])]);
    assert_eq!(conn.last_seen(), 10 * SECOND);
    assert_eq!(conn.phase(), Phase::Active);
}

#[test]
fn pong_refreshes_without_a_word() {
    let mut conn = running(0);
    assert_eq!(conn.handle(Ok(Frame::Pong(vec![9])), 12 * SECOND), vec![]);
    assert_eq!(conn.last_seen(), 12 * SECOND);
}

#[test]
fn last_seen_never_goes_back() {
    let mut conn = running(20 * SECOND);
    conn.handle(Ok(Frame::Pong(vec![])), 5 * SECOND);
    assert_eq!(conn.last_seen(), 20 * SECOND);
    conn.handle(Ok(Frame::Ping(vec![])), 20 * SECOND);
    assert_eq!(conn.last_seen(), 20 * SECOND);
    conn.handle(Ok(Frame::Ping(vec![])), 21 * SECOND);
    assert_eq!(conn.last_seen(), 21 * SECOND);
}

#[test]
fn text_goes_to_the_lobby() {
    let mut conn = running(0);
    let out = conn.handle(Ok(Frame::Text("hello".to_string())), 3 * SECOND);
    assert_eq!(
        out,
        vec![Command::Relay(ClientActorMessage { id: ID, msg: "hello".to_string(), room_id: ROOM })]
    );
    assert_eq!(conn.last_seen(), 0);
    assert_eq!(conn.phase(), Phase::Active);
}

#[test]
fn binary_comes_back_as_it_went() {
    let mut conn = running(0);
    let bytes = vec![0u8, 255, 7, 7, 0];
    let out = conn.handle(Ok(Frame::Binary(bytes.clone())), 3 * SECOND);
    assert_eq!(out, vec![Command::Binary(bytes)]);
    assert_eq!(conn.handle(Ok(Frame::Binary(vec![])), 3 * SECOND), vec![Command::Binary(vec![])]);
    assert_eq!(conn.last_seen(), 0);
    assert_eq!(conn.phase(), Phase::Active);
}

#[test]
fn binary_is_no_business_of_the_lobby() {
    let mut lobby = Lobby::new();
    lobby.connect(Connect { addr: "x", lobby_id: ROOM, self_id: ID });
    lobby.connect(Connect { addr: "y", lobby_id: ROOM, self_id: 8 });
    let mut conn = running(0);
    let out = conn.handle(Ok(Frame::Binary(vec![1, 2])), SECOND);
    assert_eq!(out, vec![Command::Binary(vec![1, 2])]);
    assert!(out.iter().all(|c| !matches!(c, Command::Relay(_))));
    assert_eq!(lobby.members(ROOM), vec![ID, 8]);
}

#[test]
fn close_is_answered_and_stops() {
    let mut conn = running(0);
    let reason = Some(CloseReason { code: 1000, description: Some("bye".to_string()) });
    let out = conn.handle(Ok(Frame::Close(reason.clone())), SECOND);
    assert_eq!(out, vec![Command::Close(reason), Command::Stop]);
    assert_eq!(conn.phase(), Phase::Stopping);

    let mut other = running(0);
    assert_eq!(other.handle(Ok(Frame::Close(None)), SECOND), vec![Command::Close(None), Command::Stop]);
}

#[test]
fn fragment_stops() {
    let mut conn = running(0);
    assert_eq!(conn.handle(Ok(Frame::Continuation), SECOND), vec![Command::Stop]);
    assert_eq!(conn.phase(), Phase::Stopping);
}

#[test]
fn nop_is_nothing() {
    let mut conn = running(0);
    assert_eq!(conn.handle(Ok(Frame::Nop), 40 * SECOND), vec![]);
    assert_eq!(conn.phase(), Phase::Active);
    assert_eq!(conn.last_seen(), 0);
}

#[test]
fn bytes_that_are_no_frame_close_with_an_internal_error() {
    for fault in [
        ProtocolError::UnmaskedFrame,
        ProtocolError::MaskedFrame,
        ProtocolError::InvalidOpcode(3),
        ProtocolError::InvalidLength(126),
        ProtocolError::BadOpCode,
        ProtocolError::Overflow,
        ProtocolError::ContinuationNotStarted,
        ProtocolError::ContinuationStarted,
        ProtocolError::ContinuationFragment(2),
        ProtocolError::Io,
    ] {
        let mut conn = running(0);
        let out = conn.handle(Err(fault), SECOND);
        assert_eq!(
            out,
            vec![
                Command::Close(Some(CloseReason { code: 1011, description: None })),
                Command::Stop,
            ]
        );
        assert_eq!(conn.phase(), Phase::Stopping);
    }
}

#[test]
fn heartbeat_probes_a_client_in_time() {
    let mut conn = running(0);
    assert_eq!(conn.hb(15 * SECOND), vec![Command::Ping(b"PING".to_vec())]);
    assert_eq!(conn.hb(30 * SECOND), vec![Command::Ping(b"PING".to_vec())]);
    assert_eq!(conn.phase(), Phase::Active);
    assert_eq!(conn.last_seen(), 0);
}

#[test]
fn heartbeat_drops_a_silent_client() {
    let mut conn = running(0);
    assert_eq!(conn.hb(30 * SECOND + 1), vec![leave(), Command::Stop]);
    assert_eq!(conn.phase(), Phase::Stopping);
    assert_eq!(conn.stopping(), vec![leave()]);
    assert_eq!(conn.phase(), Phase::Stopped);
}

#[test]
fn heartbeat_before_the_last_sign_of_life() {
    let mut conn = running(50 * SECOND);
    assert_eq!(conn.hb(10 * SECOND), vec![Command::Ping(b"PING".to_vec())]);
    assert_eq!(conn.hb(u128::MAX), vec![leave(), Command::Stop]);
}

#[test]
fn silent_client_is_dropped_and_the_lobby_sees_it() {
    let mut lobby = Lobby::new();
    let mut conn = WsConn::with_id(ID, ROOM, 0);
    let start = conn.started("sink").unwrap();
    lobby.connect(start.connect);
    lobby.connect(Connect { addr: "other", lobby_id: ROOM, self_id: 8 });
    conn.joined(true);
    assert_eq!(conn.hb(15 * SECOND), vec![Command::Ping(b"PING".to_vec())]);
    assert_eq!(conn.hb(30 * SECOND), vec![Command::Ping(b"PING".to_vec())]);
    let out = conn.hb(45 * SECOND);
    assert_eq!(out, vec![leave(), Command::Stop]);
    for command in out {
        if let Command::Leave(notice) = command {
            lobby.disconnect(notice);
        }
    }
    assert_eq!(lobby.members(ROOM), vec![8]);
    assert_eq!(lobby.sink(ID), None);
    for command in conn.stopping() {
        if let Command::Leave(notice) = command {
            lobby.disconnect(notice);
        }
    }
    assert_eq!(lobby.members(ROOM), vec![8]);
}

#[test]
fn answering_client_stays() {
    let mut lobby = Lobby::new();
    let mut conn = WsConn::with_id(ID, ROOM, 0);
    lobby.connect(conn.started("sink").unwrap().connect);
    conn.joined(true);
    let mut now = 0;
    for _ in 0..1000 {
        now += 15 * SECOND;
        assert_eq!(conn.hb(now), vec![Command::Ping(b"PING".to_vec())]);
        assert_eq!(conn.handle(Ok(Frame::Pong(b"PING".to_vec())), now + SECOND), vec![]);
    }
    assert!(conn.is_live());
    assert_eq!(conn.last_seen(), now + SECOND);
    assert_eq!(lobby.members(ROOM), vec![ID]);
}

#[test]
fn last_step_tells_the_lobby_once() {
    let mut conn = running(0);
    assert_eq!(conn.stopping(), vec![leave()]);
    assert_eq!(conn.phase(), Phase::Stopped);
    assert_eq!(conn.stopping(), vec![]);

    let mut never_started = WsConn::with_id(ID, ROOM, 0);
    assert_eq!(never_started.stopping(), vec![leave()]);
}

#[test]
fn delivery_is_written_as_text() {
    let conn = running(0);
    assert_eq!(conn.deliver(WsMessage("hi".to_string())), vec![Command::Text("hi".to_string())]);
}

#[test]
fn connection_that_is_not_live_ignores_everything() {
    let mut fresh = WsConn::with_id(ID, ROOM, 0);
    assert_eq!(fresh.handle(Ok(Frame::Text("x".to_string())), SECOND), vec![]);
    assert_eq!(fresh.hb(100 * SECOND), vec![]);
    assert_eq!(fresh.deliver(WsMessage("x".to_string())), vec![]);
    assert_eq!(fresh.phase(), Phase::Starting);

    let mut conn = running(0);
    conn.handle(Ok(Frame::Continuation), SECOND);
    assert_eq!(conn.handle(Ok(Frame::Ping(vec![1])), 2 * SECOND), vec![]);
    assert_eq!(conn.handle(Ok(Frame::Close(None)), 2 * SECOND), vec![]);
    assert_eq!(conn.hb(100 * SECOND), vec![]);
    assert_eq!(conn.deliver(WsMessage("x".to_string())), vec![]);
    assert_eq!(conn.last_seen(), 0);
    assert_eq!(conn.phase(), Phase::Stopping);

    conn.stopping();
    assert_eq!(conn.handle(Ok(Frame::Text("x".to_string())), 3 * SECOND), vec![]);
    assert_eq!(conn.phase(), Phase::Stopped);
}
