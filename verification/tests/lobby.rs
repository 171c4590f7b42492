use room_relay::lobby::{Lobby, Request};
use room_relay::messages::{ClientActorMessage, Connect, Disconnect};

const R1: u128 = 0xc048a89b_4e45_44cf_bf6c_1674e6de9ee8;
const R2: u128 = 0x0e0dd1a0_0000_4000_8000_000000000002;
const A: u128 = 11;
const B: u128 = 22;
const C: u128 = 33;

fn join(lobby: &mut Lobby<&'static str>, id: u128, room: u128, addr: &'static str) {
    lobby.connect(Connect { addr, lobby_id: room, self_id: id });
}

fn text(id: u128, room: u128, msg: &str) -> ClientActorMessage {
    ClientActorMessage { id, msg: msg.to_string(), room_id: room }
}

#[test]
fn new_lobby_is_empty() {
    let lobby: Lobby<&'static str> = Lobby::new();
    assert_eq!(lobby.len(), 0);
    assert_eq!(lobby.members(R1), Vec::<u128>::new());
    assert_eq!(lobby.sink(A), None);
    assert_eq!(lobby.room_of(A), None);
    assert_eq!(lobby.client_message(&text(A, R1, "anyone?")), Vec::<u128>::new());
}

#[test]
fn text_reaches_the_others_and_not_the_sender() {
    let mut lobby = Lobby::new();
    join(&mut lobby, A, R1, "a");
    join(&mut lobby, B, R1, "b");
    join(&mut lobby, C, R1, "c");
    assert_eq!(lobby.client_message(&text(A, R1, "hello")), vec![B, C]);
    assert_eq!(lobby.client_message(&text(B, R1, "hello")), vec![A, C]);
    assert_eq!(lobby.client_message(&text(C, R1, "hello")), vec![A, B]);
    assert_eq!(lobby.members(R1), vec![A, B, C]);
}

#[test]
fn text_stays_in_its_room() {
    let mut lobby = Lobby::new();
    join(&mut lobby, A, R1, "a");
    join(&mut lobby, B, R2, "b");
    join(&mut lobby, C, R1, "c");
    assert_eq!(lobby.client_message(&text(A, R1, "hello")), vec![C]);
    assert_eq!(lobby.client_message(&text(B, R2, "hello")), Vec::<u128>::new());
    assert_eq!(lobby.room_of(A), Some(R1));
    assert_eq!(lobby.room_of(B), Some(R2));
}

#[test]
fn room_with_one_member_or_none_delivers_nothing() {
    let mut lobby = Lobby::new();
    assert_eq!(lobby.client_message(&text(A, R1, "hello")), Vec::<u128>::new());
    join(&mut lobby, A, R1, "a");
    assert_eq!(lobby.client_message(&text(A, R1, "hello")), Vec::<u128>::new());
    assert_eq!(lobby.members(R1), vec![A]);
}

#[test]
fn text_from_outside_reaches_the_room() {
    let mut lobby = Lobby::new();
    join(&mut lobby, A, R1, "a");
    assert_eq!(lobby.client_message(&text(B, R1, "hello")), vec![A]);
}

#[test]
fn connection_that_left_gets_nothing() {
    let mut lobby = Lobby::new();
    join(&mut lobby, A, R1, "a");
    join(&mut lobby, B, R1, "b");
    join(&mut lobby, C, R1, "c");
    lobby.disconnect(Disconnect { room_id: R1, id: B });
    assert_eq!(lobby.client_message(&text(A, R1, "hello")), vec![C]);
    assert_eq!(lobby.client_message(&text(C, R1, "hello")), vec![A]);
    assert_eq!(lobby.sink(B), None);
    assert_eq!(lobby.room_of(B), None);
    assert_eq!(lobby.len(), 2);
}

#[test]
fn reused_identifier_gets_the_new_handle() {
    let mut lobby = Lobby::new();
    join(&mut lobby, A, R1, "a");
    join(&mut lobby, B, R1, "first b");
    lobby.disconnect(Disconnect { room_id: R1, id: B });
    assert_eq!(lobby.sink(B), None);
    join(&mut lobby, B, R1, "second b");
    assert_eq!(lobby.client_message(&text(A, R1, "hello")), vec![B]);
    assert_eq!(lobby.sink(B), Some(&"second b"));
}

#[test]
fn leaving_twice_is_leaving_once() {
    let mut lobby = Lobby::new();
    join(&mut lobby, A, R1, "a");
    join(&mut lobby, B, R1, "b");
    join(&mut lobby, C, R1, "c");
    lobby.disconnect(Disconnect { room_id: R1, id: B });
    let once = (lobby.members(R1), lobby.len());
    lobby.disconnect(Disconnect { room_id: R1, id: B });
    assert_eq!((lobby.members(R1), lobby.len()), once);
    assert_eq!(lobby.members(R1), vec![A, C]);
    assert_eq!(lobby.sink(A), Some(&"a"));
    assert_eq!(lobby.sink(C), Some(&"c"));
}

#[test]
fn leaving_unknown_is_nothing() {
    let mut lobby = Lobby::new();
    join(&mut lobby, A, R1, "a");
    lobby.disconnect(Disconnect { room_id: R1, id: B });
    lobby.disconnect(Disconnect { room_id: R2, id: B });
    assert_eq!(lobby.members(R1), vec![A]);
    assert_eq!(lobby.len(), 1);
}

#[test]
fn leaving_another_room_is_nothing() {
    let mut lobby = Lobby::new();
    join(&mut lobby, A, R1, "a");
    lobby.disconnect(Disconnect { room_id: R2, id: A });
    assert_eq!(lobby.members(R1), vec![A]);
    assert_eq!(lobby.room_of(A), Some(R1));
    assert_eq!(lobby.sink(A), Some(&"a"));
}

#[test]
fn last_to_leave_closes_the_room() {
    let mut lobby = Lobby::new();
    join(&mut lobby, A, R1, "a");
    lobby.disconnect(Disconnect { room_id: R1, id: A });
    assert_eq!(lobby.members(R1), Vec::<u128>::new());
    assert_eq!(lobby.len(), 0);
    join(&mut lobby, B, R1, "b");
    assert_eq!(lobby.members(R1), vec![B]);
}

#[test]
fn joining_again_overwrites() {
    let mut lobby = Lobby::new();
    join(&mut lobby, A, R1, "a");
    join(&mut lobby, B, R1, "b");
    join(&mut lobby, A, R1, "a again");
    assert_eq!(lobby.members(R1), vec![B, A]);
    assert_eq!(lobby.sink(A), Some(&"a again"));
    assert_eq!(lobby.len(), 2);
}

#[test]
fn joining_another_room_moves_the_connection() {
    let mut lobby = Lobby::new();
    join(&mut lobby, A, R1, "a");
    join(&mut lobby, B, R1, "b");
    join(&mut lobby, A, R2, "a moved");
    assert_eq!(lobby.members(R1), vec![B]);
    assert_eq!(lobby.members(R2), vec![A]);
    assert_eq!(lobby.room_of(A), Some(R2));
    assert_eq!(lobby.sink(A), Some(&"a moved"));
    assert_eq!(lobby.client_message(&text(B, R1, "hello")), Vec::<u128>::new());
    assert_eq!(lobby.len(), 2);
}

#[test]
fn first_alone_then_in_company() {
    let x = A;
    let y = B;
    let mut lobby = Lobby::new();
    join(&mut lobby, x, R1, "x");
    assert_eq!(lobby.client_message(&text(x, R1, "hello")), Vec::<u128>::new());
    join(&mut lobby, y, R1, "y");
    let to = lobby.client_message(&text(x, R1, "hi"));
    assert_eq!(to, vec![y]);
    assert_eq!(lobby.sink(to[0]), Some(&"y"));
    assert_eq!(lobby.client_message(&text(y, R1, "hi yourself")), vec![x]);
}

#[test]
fn requests_of_every_kind() {
    let mut lobby = Lobby::new();
    let none = Vec::<u128>::new();
    assert_eq!(lobby.handle(Request::Connect(Connect { addr: "a", lobby_id: R1, self_id: A })), none);
    assert_eq!(lobby.handle(Request::Connect(Connect { addr: "b", lobby_id: R1, self_id: B })), none);
    assert_eq!(lobby.handle(Request::ClientMessage(text(A, R1, "hello"))), vec![B]);
    assert_eq!(lobby.handle(Request::Disconnect(Disconnect { room_id: R1, id: B })), none);
    assert_eq!(lobby.handle(Request::ClientMessage(text(A, R1, "hello"))), none);
    assert_eq!(lobby.members(R1), vec![A]);
}
