//! The lobby: the one owner of who is in which room.
//!
//! A [`Lobby`] takes the requests of all connections one at a time. It keeps
//! the handle of each connection from the request that brings it in until
//! the request that takes it out, and says who gets a text. Handing the text
//! to those handles is left to the caller.

use std::collections::HashMap;
use vstd::prelude::*;
use crate::messages::{ClientActorMessage, Connect, Disconnect};
use crate::roster::{lemma_join, lemma_vacate, lemma_without_push, without, LobbyView, Seat};

verus! {

broadcast use vstd::std_specs::hash::group_hash_axioms;

/// One request to the lobby.
#[derive(Clone, Debug, PartialEq, Eq)]
pub enum Request<S> {
    Connect(Connect<S>),
    Disconnect(Disconnect),
    ClientMessage(ClientActorMessage),
}

impl<S> Request<S> {
    /// The books after this request.
    pub open spec fn applied(self, books: LobbyView<S>) -> LobbyView<S> {
        match self {
            Request::Connect(msg) => books.join(msg.self_id, msg.lobby_id, msg.addr),
            Request::Disconnect(msg) => books.leave(msg.room_id, msg.id),
            Request::ClientMessage(_) => books,
        }
    }

    /// The connections that this request has a text delivered to.
    pub open spec fn deliveries(self, books: LobbyView<S>) -> Seq<u128> {
        match self {
            Request::ClientMessage(msg) => books.recipients(msg.room_id, msg.id),
            _ => Seq::empty(),
        }
    }
}

/// The books after all of `requests`, in order.
pub open spec fn served<S>(books: LobbyView<S>, requests: Seq<Request<S>>) -> LobbyView<S>
    decreases requests.len(),
{
    if requests.len() == 0 {
        books
    } else {
        requests.last().applied(served(books, requests.drop_last()))
    }
}

/// The two tables behind a lobby.
struct Books<S> {
    sessions: HashMap<u128, Seat<S>>,
    rooms: HashMap<u128, Vec<u128>>,
}

impl<S> View for Books<S> {
    type V = LobbyView<S>;

    closed spec fn view(&self) -> LobbyView<S> {
        LobbyView {
            seats: self.sessions@,
            rooms: self.rooms@.map_values(|list: Vec<u128>| list@),
        }
    }
}

/// Copies `list` without `id`.
fn copy_without(list: &Vec<u128>, id: u128) -> (out: Vec<u128>)
    ensures
        out@ == without(list@, id),
{
    let mut out: Vec<u128> = Vec::new();
    let mut i: usize = 0;
    while i < list.len()
        invariant
            i <= list.len(),
            out@ == without(list@.take(i as int), id),
        decreases list.len() - i,
    {
        proof {
            lemma_without_push(list@.take(i as int), list@[i as int], id);
            assert(list@.take(i as int).push(list@[i as int]) =~= list@.take(i + 1));
        }
        if list[i] != id {
            out.push(list[i]);
        }
        i += 1;
    }
    assert(list@.take(i as int) =~= list@);
    out
}

impl<S> Books<S> {
    fn new() -> (books: Books<S>)
        ensures
            books@ == LobbyView::<S>::empty(),
            books@.wf(),
    {
        let books = Books { sessions: HashMap::new(), rooms: HashMap::new() };
        assert(books@.rooms =~= Map::<u128, Seq<u128>>::empty());
        books
    }

    fn vacate(&mut self, id: u128)
        requires
            old(self)@.wf(),
        ensures
            final(self)@ == old(self)@.vacate(id),
            final(self)@.wf(),
    {
        proof {
            lemma_vacate(old(self)@, id);
        }
        match self.sessions.remove(&id) {
            None => {},
            Some(seat) => {
                let room = seat.room;
                match self.rooms.remove(&room) {
                    None => {
                        assert(false);
                    },
                    Some(list) => {
                        let rest = copy_without(&list, id);
                        if rest.len() > 0 {
                            self.rooms.insert(room, rest);
                        }
                    },
                }
            },
        }
        assert(self@.rooms =~= old(self)@.vacate(id).rooms);
        assert(self@.seats =~= old(self)@.vacate(id).seats);
    }

    fn join(&mut self, id: u128, room: u128, sink: S)
        requires
            old(self)@.wf(),
        ensures
            final(self)@ == old(self)@.join(id, room, sink),
            final(self)@.wf(),
    {
        proof {
            lemma_join(old(self)@, id, room, sink);
        }
        self.vacate(id);
        let ghost cleared = self@;
        let mut list = match self.rooms.remove(&room) {
            Some(list) => list,
            None => Vec::new(),
        };
        assert(list@ =~= cleared.members(room));
        list.push(id);
        self.rooms.insert(room, list);
        self.sessions.insert(id, Seat { room, sink });
        assert(self@.rooms =~= old(self)@.join(id, room, sink).rooms);
        assert(self@.seats =~= old(self)@.join(id, room, sink).seats);
    }

    fn leave(&mut self, room: u128, id: u128)
        requires
            old(self)@.wf(),
        ensures
            final(self)@ == old(self)@.leave(room, id),
            final(self)@.wf(),
    {
        let there = match self.sessions.get(&id) {
            Some(seat) => seat.room == room,
            None => false,
        };
        if there {
            self.vacate(id);
        }
    }
}

/// Room membership, kept for all connections of the process.
///
/// The books of a lobby are well kept at all times ([`LobbyView::wf`]), and
/// each function that reads or changes them says so in its contract.
pub struct Lobby<S> {
    books: Books<S>,
}

impl<S> View for Lobby<S> {
    type V = LobbyView<S>;

    closed spec fn view(&self) -> LobbyView<S> {
        self.books@
    }
}

impl<S> Lobby<S> {
    /// The books of a lobby agree with each other at all times.
    #[verifier::type_invariant]
    closed spec fn well_kept(&self) -> bool {
        self.books@.wf()
    }

    /// A lobby with nobody in it.
    pub fn new() -> (lobby: Lobby<S>)
        ensures
            lobby@ == LobbyView::<S>::empty(),
            lobby@.wf(),
    {
        Lobby { books: Books::new() }
    }

    /// Takes the connection `msg.self_id` into the room `msg.lobby_id` and
    /// keeps `msg.addr` as its handle. The room is opened if nobody was in
    /// it. A connection that was in the books already is moved, and its
    /// earlier handle is dropped.
    pub fn connect(&mut self, msg: Connect<S>)
        ensures
            final(self)@ == old(self)@.join(msg.self_id, msg.lobby_id, msg.addr),
            old(self)@.wf(),
            final(self)@.wf(),
    {
        proof {
            use_type_invariant(&*self);
        }
        let mut books = Books::new();
        core::mem::swap(&mut self.books, &mut books);
        books.join(msg.self_id, msg.lobby_id, msg.addr);
        self.books = books;
    }

    /// Takes the connection `msg.id` out of the room `msg.room_id` and drops
    /// its handle. Nothing happens if it is not in that room.
    pub fn disconnect(&mut self, msg: Disconnect)
        ensures
            final(self)@ == old(self)@.leave(msg.room_id, msg.id),
            old(self)@.wf(),
            final(self)@.wf(),
    {
        proof {
            use_type_invariant(&*self);
        }
        let mut books = Books::new();
        core::mem::swap(&mut self.books, &mut books);
        books.leave(msg.room_id, msg.id);
        self.books = books;
    }

    /// Says who gets the text of `msg`: everyone in the room `msg.room_id`
    /// but the sender, in the order in which they came. The books stay as
    /// they are.
    pub fn client_message(&self, msg: &ClientActorMessage) -> (out: Vec<u128>)
        ensures
            out@ == self@.recipients(msg.room_id, msg.id),
            self@.wf(),
    {
        proof {
            use_type_invariant(self);
        }
        match self.books.rooms.get(&msg.room_id) {
            Some(list) => copy_without(list, msg.id),
            None => Vec::new(),
        }
    }

    /// Takes one request, whatever its kind, and says who gets a text
    /// because of it.
    pub fn handle(&mut self, request: Request<S>) -> (out: Vec<u128>)
        ensures
            final(self)@ == request.applied(old(self)@),
            out@ == request.deliveries(old(self)@),
            old(self)@.wf(),
            final(self)@.wf(),
    {
        match request {
            Request::Connect(msg) => {
                self.connect(msg);
                Vec::new()
            },
            Request::Disconnect(msg) => {
                self.disconnect(msg);
                Vec::new()
            },
            Request::ClientMessage(msg) => self.client_message(&msg),
        }
    }

    /// The handle of connection `id`, if it is in the books.
    pub fn sink(&self, id: u128) -> (out: Option<&S>)
        ensures
            match out {
                Some(sink) => self@.seats.contains_key(id) && *sink == self@.seats[id].sink,
                None => !self@.seats.contains_key(id),
            },
    {
        match self.books.sessions.get(&id) {
            Some(seat) => Some(&seat.sink),
            None => None,
        }
    }

    /// The room of connection `id`, if it is in the books.
    pub fn room_of(&self, id: u128) -> (out: Option<u128>)
        ensures
            match out {
                Some(room) => self@.is_member(room, id),
                None => !self@.seats.contains_key(id),
            },
    {
        match self.books.sessions.get(&id) {
            Some(seat) => Some(seat.room),
            None => None,
        }
    }

    /// The connections in `room`, in the order in which they came.
    pub fn members(&self, room: u128) -> (out: Vec<u128>)
        ensures
            out@ == self@.members(room),
    {
        match self.books.rooms.get(&room) {
            Some(list) => list.clone(),
            None => Vec::new(),
        }
    }

    /// How many connections are in the books.
    pub fn len(&self) -> (n: usize)
        ensures
            n == self@.seats.len(),
    {
        self.books.sessions.len()
    }
}

} // verus!
