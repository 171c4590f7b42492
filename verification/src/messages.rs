//! The records that a connection and the lobby send each other.

use vstd::prelude::*;

verus! {

/// Text that the lobby hands to one connection, to be written to its client.
#[derive(Clone, Debug, PartialEq, Eq)]
pub struct WsMessage(pub String);

impl View for WsMessage {
    type V = Seq<char>;

    open spec fn view(&self) -> Seq<char> {
        self.0@
    }
}

/// A connection asks the lobby to put it into a room. `addr` is the handle by
/// which the lobby reaches the connection from then on.
#[derive(Clone, Debug, PartialEq, Eq)]
pub struct Connect<S> {
    pub addr: S,
    pub lobby_id: u128,
    pub self_id: u128,
}

/// A connection asks the lobby to take it out of a room.
#[derive(Clone, Copy, Debug, PartialEq, Eq, Structural)]
pub struct Disconnect {
    pub room_id: u128,
    pub id: u128,
}

/// Text that the client of connection `id` sent, for the others in `room_id`.
#[derive(Clone, Debug, PartialEq, Eq)]
pub struct ClientActorMessage {
    pub id: u128,
    pub msg: String,
    pub room_id: u128,
}

/// What a [`ClientActorMessage`] holds, with the text as a sequence.
pub struct ClientActorMessageView {
    pub id: u128,
    pub msg: Seq<char>,
    pub room_id: u128,
}

impl View for ClientActorMessage {
    type V = ClientActorMessageView;

    open spec fn view(&self) -> ClientActorMessageView {
        ClientActorMessageView { id: self.id, msg: self.msg@, room_id: self.room_id }
    }
}

} // verus!
