//! The mathematical model of the lobby: who sits in which room, and in what
//! order they came.

use vstd::prelude::*;

verus! {

/// One connection's place in the lobby: its room, and the handle by which
/// the lobby reaches it.
#[derive(Clone, Debug, PartialEq, Eq)]
pub struct Seat<S> {
    pub room: u128,
    pub sink: S,
}

/// The sequence `s` without `id`, the others in their order.
pub open spec fn without(s: Seq<u128>, id: u128) -> Seq<u128>
    decreases s.len(),
{
    if s.len() == 0 {
        Seq::empty()
    } else if s.last() == id {
        without(s.drop_last(), id)
    } else {
        without(s.drop_last(), id).push(s.last())
    }
}

/// `without` keeps exactly the items that differ from `id`.
pub proof fn lemma_without_contains(s: Seq<u128>, id: u128, x: u128)
    ensures
        without(s, id).contains(x) <==> s.contains(x) && x != id,
    decreases s.len(),
{
    if s.len() > 0 {
        let front = s.drop_last();
        lemma_without_contains(front, id, x);
        if s.contains(x) {
            let i = choose|i: int| 0 <= i < s.len() && s[i] == x;
            if i < front.len() {
                assert(front[i] == x);
            }
        }
        if front.contains(x) {
            let i = choose|i: int| 0 <= i < front.len() && front[i] == x;
            assert(s[i] == x);
        }
        if s.last() != id {
            let kept = without(front, id);
            let out = kept.push(s.last());
            assert(out[kept.len() as int] == s.last());
            assert(s[s.len() - 1] == s.last());
            if kept.contains(x) {
                let i = choose|i: int| 0 <= i < kept.len() && kept[i] == x;
                assert(out[i] == x);
            }
            if out.contains(x) {
                let i = choose|i: int| 0 <= i < out.len() && out[i] == x;
                if i < kept.len() {
                    assert(kept[i] == x);
                }
            }
        }
    }
}

/// `without` never makes a sequence longer.
pub proof fn lemma_without_len(s: Seq<u128>, id: u128)
    ensures
        without(s, id).len() <= s.len(),
    decreases s.len(),
{
    if s.len() > 0 {
        lemma_without_len(s.drop_last(), id);
    }
}

/// A sequence that does not hold `id` is left as it is.
pub proof fn lemma_without_absent(s: Seq<u128>, id: u128)
    requires
        !s.contains(id),
    ensures
        without(s, id) == s,
    decreases s.len(),
{
    if s.len() > 0 {
        let front = s.drop_last();
        assert(s[s.len() - 1] == s.last());
        assert forall|i: int| 0 <= i < front.len() implies front[i] != id by {
            assert(s[i] == front[i]);
        }
        lemma_without_absent(front, id);
        assert(front.push(s.last()) =~= s);
    } else {
        assert(s =~= Seq::<u128>::empty());
    }
}

/// A sequence in which nothing occurs twice stays so.
pub proof fn lemma_without_no_duplicates(s: Seq<u128>, id: u128)
    requires
        s.no_duplicates(),
    ensures
        without(s, id).no_duplicates(),
    decreases s.len(),
{
    if s.len() > 0 {
        let front = s.drop_last();
        assert forall|i: int, j: int|
            0 <= i < front.len() && 0 <= j < front.len() && i != j implies front[i] != front[j] by {
            assert(s[i] == front[i] && s[j] == front[j]);
        }
        lemma_without_no_duplicates(front, id);
        if s.last() != id {
            let kept = without(front, id);
            lemma_without_contains(front, id, s.last());
            if front.contains(s.last()) {
                let i = choose|i: int| 0 <= i < front.len() && front[i] == s.last();
                assert(s[i] == s[s.len() - 1]);
            }
            assert(!kept.contains(s.last()));
        }
    }
}

/// Pushing an item and then taking `id` out is taking `id` out and then
/// pushing the item, unless the item is `id` itself.
pub proof fn lemma_without_push(s: Seq<u128>, x: u128, id: u128)
    ensures
        without(s.push(x), id) == if x == id {
            without(s, id)
        } else {
            without(s, id).push(x)
        },
{
    assert(s.push(x).drop_last() =~= s);
}

/// The lobby's books: a seat for each connection, and for each room that
/// has anyone in it the connections there, in the order in which they came.
pub struct LobbyView<S> {
    pub seats: Map<u128, Seat<S>>,
    pub rooms: Map<u128, Seq<u128>>,
}

impl<S> LobbyView<S> {
    /// A lobby with nobody in it.
    pub open spec fn empty() -> LobbyView<S> {
        LobbyView { seats: Map::empty(), rooms: Map::empty() }
    }

    /// The two books agree. No room is listed without anyone in it and
    /// nobody is listed twice; whoever is listed under a room has a seat
    /// that names that room, and whoever has a seat is listed under the room
    /// that it names. So a connection is in one room at most.
    pub open spec fn wf(self) -> bool {
        &&& self.seats.dom().finite()
        &&& self.rooms.dom().finite()
        &&& forall|room: u128| #[trigger]
            self.rooms.contains_key(room) ==> self.rooms[room].len() > 0
                && self.rooms[room].no_duplicates()
        &&& forall|room: u128, i: int|
            self.rooms.contains_key(room) && 0 <= i < self.rooms[room].len() ==> {
                &&& self.seats.contains_key(#[trigger] self.rooms[room][i])
                &&& self.seats[self.rooms[room][i]].room == room
            }
        &&& forall|id: u128| #[trigger]
            self.seats.contains_key(id) ==> self.rooms.contains_key(self.seats[id].room)
                && self.rooms[self.seats[id].room].contains(id)
    }

    /// The connections in `room`, in the order in which they came.
    pub open spec fn members(self, room: u128) -> Seq<u128> {
        if self.rooms.contains_key(room) {
            self.rooms[room]
        } else {
            Seq::empty()
        }
    }

    /// Whether connection `id` is in `room`.
    pub open spec fn is_member(self, room: u128, id: u128) -> bool {
        self.seats.contains_key(id) && self.seats[id].room == room
    }

    /// The books after `id` is struck from them, wherever it was. A room
    /// that is left with nobody in it is no longer listed.
    pub open spec fn vacate(self, id: u128) -> LobbyView<S> {
        if self.seats.contains_key(id) {
            let room = self.seats[id].room;
            let rest = without(self.members(room), id);
            LobbyView {
                seats: self.seats.remove(id),
                rooms: if rest.len() == 0 {
                    self.rooms.remove(room)
                } else {
                    self.rooms.insert(room, rest)
                },
            }
        } else {
            self
        }
    }

    /// The books after `id` comes into `room` with the handle `sink`. If it
    /// had a seat already, that one is given up first: the last request
    /// wins.
    pub open spec fn join(self, id: u128, room: u128, sink: S) -> LobbyView<S> {
        let cleared = self.vacate(id);
        LobbyView {
            seats: cleared.seats.insert(id, Seat { room, sink }),
            rooms: cleared.rooms.insert(room, cleared.members(room).push(id)),
        }
    }

    /// The books after `id` asks to leave `room`: nothing changes unless it
    /// is there.
    pub open spec fn leave(self, room: u128, id: u128) -> LobbyView<S> {
        if self.is_member(room, id) {
            self.vacate(id)
        } else {
            self
        }
    }

    /// Who gets a text that `sender` sends to `room`: everyone there but the
    /// sender, in the order in which they came.
    pub open spec fn recipients(self, room: u128, sender: u128) -> Seq<u128> {
        without(self.members(room), sender)
    }
}

/// Whoever is listed under a room has a seat in that room, and the other
/// way round.
pub proof fn lemma_members_are_seated<S>(l: LobbyView<S>, room: u128, id: u128)
    requires
        l.wf(),
    ensures
        l.members(room).contains(id) <==> l.is_member(room, id),
{
    if l.members(room).contains(id) {
        let i = choose|i: int| 0 <= i < l.members(room).len() && l.members(room)[i] == id;
        assert(l.seats.contains_key(l.rooms[room][i]));
    }
}

/// Striking a connection from well-kept books leaves them well kept. The
/// connection is gone from every room, and everybody else sits where they
/// sat, in the same order.
pub proof fn lemma_vacate<S>(l: LobbyView<S>, id: u128)
    requires
        l.wf(),
    ensures
        l.vacate(id).wf(),
        !l.vacate(id).seats.contains_key(id),
        forall|other: u128|
            other != id ==> (#[trigger] l.vacate(id).seats.contains_key(other)
                <==> l.seats.contains_key(other)),
        forall|other: u128|
            other != id && l.seats.contains_key(other) ==> #[trigger] l.vacate(id).seats[other]
                == l.seats[other],
        forall|room: u128| #[trigger] l.vacate(id).members(room) == without(l.members(room), id),
{
    let v = l.vacate(id);
    if l.seats.contains_key(id) {
        let home = l.seats[id].room;
        let rest = without(l.rooms[home], id);
        lemma_without_no_duplicates(l.rooms[home], id);
        assert forall|room: u128| #[trigger] v.members(room) == without(l.members(room), id) by {
            if room != home {
                lemma_members_are_seated(l, room, id);
                lemma_without_absent(l.members(room), id);
            }
        }
        assert forall|room: u128, i: int|
            v.rooms.contains_key(room) && 0 <= i < v.rooms[room].len() implies v.seats.contains_key(
            #[trigger] v.rooms[room][i],
        ) && v.seats[v.rooms[room][i]].room == room by {
            let x = v.rooms[room][i];
            assert(v.members(room).contains(x));
            lemma_without_contains(l.members(room), id, x);
            lemma_members_are_seated(l, room, x);
        }
        assert forall|other: u128| #[trigger] v.seats.contains_key(other) implies v.rooms.contains_key(
            v.seats[other].room,
        ) && v.rooms[v.seats[other].room].contains(other) by {
            let room = l.seats[other].room;
            lemma_members_are_seated(l, room, other);
            lemma_without_contains(l.members(room), id, other);
            assert(v.members(room).contains(other));
        }
    } else {
        assert forall|room: u128| #[trigger] v.members(room) == without(l.members(room), id) by {
            lemma_members_are_seated(l, room, id);
            lemma_without_absent(l.members(room), id);
        }
    }
}

/// Taking a connection into a room of well-kept books leaves them well
/// kept. The newcomer is the last of its room, everybody else sits where
/// they sat.
pub proof fn lemma_join<S>(l: LobbyView<S>, id: u128, room: u128, sink: S)
    requires
        l.wf(),
    ensures
        l.join(id, room, sink).wf(),
        l.join(id, room, sink).is_member(room, id),
        l.join(id, room, sink).seats[id].sink == sink,
        l.join(id, room, sink).members(room) == without(l.members(room), id).push(id),
        forall|other: u128|
            other != room ==> #[trigger] l.join(id, room, sink).members(other) == without(
                l.members(other),
                id,
            ),
        forall|other: u128|
            other != id ==> (#[trigger] l.join(id, room, sink).seats.contains_key(other)
                <==> l.seats.contains_key(other)),
        forall|other: u128|
            other != id && l.seats.contains_key(other) ==> #[trigger] l.join(
                id,
                room,
                sink,
            ).seats[other] == l.seats[other],
{
    let v = l.vacate(id);
    let j = l.join(id, room, sink);
    lemma_vacate(l, id);
    lemma_members_are_seated(v, room, id);
    let list = v.members(room).push(id);
    assert(list.no_duplicates());
    assert(list[list.len() - 1] == id);
    assert forall|r: u128, i: int|
        j.rooms.contains_key(r) && 0 <= i < j.rooms[r].len() implies j.seats.contains_key(
        #[trigger] j.rooms[r][i],
    ) && j.seats[j.rooms[r][i]].room == r by {
        let x = j.rooms[r][i];
        if r == room {
            if i < v.members(room).len() {
                assert(v.members(room)[i] == x);
                assert(v.members(room).contains(x));
                lemma_members_are_seated(v, room, x);
            }
        } else {
            assert(v.seats.contains_key(v.rooms[r][i]));
            lemma_members_are_seated(v, r, id);
            assert(v.members(r).contains(x));
        }
    }
    assert forall|other: u128| #[trigger] j.seats.contains_key(other) implies j.rooms.contains_key(
        j.seats[other].room,
    ) && j.rooms[j.seats[other].room].contains(other) by {
        if other != id {
            let r = v.seats[other].room;
            lemma_members_are_seated(v, r, other);
            if r == room {
                let i = choose|i: int|
                    0 <= i < v.members(room).len() && v.members(room)[i] == other;
                assert(list[i] == other);
            }
        }
    }
    assert forall|other: u128| other != room implies #[trigger] j.members(other) == without(
        l.members(other),
        id,
    ) by {
        assert(j.members(other) == v.members(other));
    }
}

/// A request to leave keeps well-kept books well kept.
pub proof fn lemma_leave<S>(l: LobbyView<S>, room: u128, id: u128)
    requires
        l.wf(),
    ensures
        l.leave(room, id).wf(),
        !l.leave(room, id).is_member(room, id),
{
    lemma_vacate(l, id);
}

} // verus!
