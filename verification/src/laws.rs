//! What holds of the lobby and of a connection whatever they are asked.

use vstd::prelude::*;
use crate::frame::CommandView;
use crate::lobby::{served, Request};
use crate::roster::{
    lemma_join, lemma_leave, lemma_members_are_seated, lemma_vacate, lemma_without_contains,
    lemma_without_no_duplicates, without, LobbyView,
};
use crate::ws::{Event, Moment, Phase, WsConnView, CLIENT_TIMEOUT};

verus! {

/// Every request leaves well-kept books well kept: a connection is never in
/// two rooms.
pub proof fn lemma_requests_keep_the_books<S>(books: LobbyView<S>, requests: Seq<Request<S>>)
    requires
        books.wf(),
    ensures
        served(books, requests).wf(),
    decreases requests.len(),
{
    if requests.len() > 0 {
        lemma_requests_keep_the_books(books, requests.drop_last());
        let before = served(books, requests.drop_last());
        match requests.last() {
            Request::Connect(msg) => lemma_join(before, msg.self_id, msg.lobby_id, msg.addr),
            Request::Disconnect(msg) => lemma_leave(before, msg.room_id, msg.id),
            Request::ClientMessage(_) => {},
        }
    }
}

/// A connection is in one room at most.
pub proof fn lemma_one_room_at_most<S>(books: LobbyView<S>, room: u128, other: u128, id: u128)
    requires
        books.wf(),
        books.members(room).contains(id),
        books.members(other).contains(id),
    ensures
        room == other,
{
    lemma_members_are_seated(books, room, id);
    lemma_members_are_seated(books, other, id);
}

/// A text goes to every connection of the room but the one that sent it,
/// once to each, and to nobody else.
pub proof fn lemma_text_reaches_the_others<S>(books: LobbyView<S>, room: u128, sender: u128)
    requires
        books.wf(),
    ensures
        forall|id: u128| #[trigger]
            books.recipients(room, sender).contains(id) <==> books.is_member(room, id) && id
                != sender,
        books.recipients(room, sender).no_duplicates(),
        !books.recipients(room, sender).contains(sender),
{
    assert forall|id: u128| #[trigger]
        books.recipients(room, sender).contains(id) <==> books.is_member(room, id) && id
            != sender by {
        lemma_without_contains(books.members(room), sender, id);
        lemma_members_are_seated(books, room, id);
    }
    lemma_without_no_duplicates(books.members(room), sender);
    lemma_without_contains(books.members(room), sender, sender);
}

/// A room with nobody in it, or with nobody but the sender, has a text
/// delivered to nobody.
pub proof fn lemma_alone_in_the_room<S>(books: LobbyView<S>, room: u128, sender: u128)
    requires
        books.wf(),
        books.members(room).len() <= 1,
        books.members(room).len() == 1 ==> books.members(room)[0] == sender,
    ensures
        books.recipients(room, sender) == Seq::<u128>::empty(),
{
    let list = books.members(room);
    if list.len() == 1 {
        assert(list.last() == sender);
        assert(without(list.drop_last(), sender) =~= Seq::<u128>::empty());
    }
    assert(without(list, sender) =~= Seq::<u128>::empty());
}

/// Once a connection has left its room, the lobby holds no handle for it
/// and no text of any room goes to it.
pub proof fn lemma_gone_after_leave<S>(books: LobbyView<S>, room: u128, id: u128)
    requires
        books.wf(),
        books.is_member(room, id),
    ensures
        !books.leave(room, id).seats.contains_key(id),
        forall|any_room: u128, sender: u128|
            !(#[trigger] books.leave(room, id).recipients(any_room, sender)).contains(id),
{
    lemma_vacate(books, id);
    lemma_absent_gets_nothing(books.leave(room, id), id);
}

/// No text of any room goes to a connection that the lobby holds no handle
/// for.
pub proof fn lemma_absent_gets_nothing<S>(books: LobbyView<S>, id: u128)
    requires
        books.wf(),
        !books.seats.contains_key(id),
    ensures
        forall|room: u128, sender: u128|
            !(#[trigger] books.recipients(room, sender)).contains(id),
{
    assert forall|room: u128, sender: u128|
        !(#[trigger] books.recipients(room, sender)).contains(id) by {
        lemma_without_contains(books.members(room), sender, id);
        lemma_members_are_seated(books, room, id);
    }
}

/// Whether `request` brings connection `id` into a room.
pub open spec fn brings_in<S>(request: Request<S>, id: u128) -> bool {
    request matches Request::Connect(msg) && msg.self_id == id
}

/// A connection that the lobby holds no handle for stays out, whatever is
/// asked of the lobby, until a request brings it in again: none of the
/// requests has a text delivered to it.
pub proof fn lemma_stays_out_until_it_joins<S>(
    books: LobbyView<S>,
    requests: Seq<Request<S>>,
    id: u128,
)
    requires
        books.wf(),
        !books.seats.contains_key(id),
        forall|k: int| 0 <= k < requests.len() ==> !brings_in(#[trigger] requests[k], id),
    ensures
        !served(books, requests).seats.contains_key(id),
        forall|k: int|
            0 <= k < requests.len() ==> !(#[trigger] requests[k].deliveries(
                served(books, requests.take(k)),
            )).contains(id),
    decreases requests.len(),
{
    if requests.len() > 0 {
        let front = requests.drop_last();
        let last = requests.last();
        assert forall|k: int| 0 <= k < front.len() implies !brings_in(#[trigger] front[k], id) by {
            assert(front[k] == requests[k]);
        }
        lemma_stays_out_until_it_joins(books, front, id);
        lemma_requests_keep_the_books(books, front);
        let before = served(books, front);
        assert(!brings_in(requests[requests.len() - 1], id));
        match last {
            Request::Connect(msg) => lemma_join(before, msg.self_id, msg.lobby_id, msg.addr),
            Request::Disconnect(msg) => lemma_vacate(before, msg.id),
            Request::ClientMessage(_) => {},
        }
        assert forall|k: int| 0 <= k < requests.len() implies !(#[trigger] requests[k].deliveries(
            served(books, requests.take(k)),
        )).contains(id) by {
            if k < front.len() {
                assert(requests.take(k) =~= front.take(k));
                assert(front[k] == requests[k]);
            } else {
                assert(requests.take(k) =~= front);
                lemma_absent_gets_nothing(before, id);
            }
        }
    }
}

/// When an identifier comes back into use, what the lobby holds for it is
/// the handle of a later request, never the one it dropped: if the lobby
/// held no handle for `id` and holds one after `requests`, one of them
/// brought `id` in with just that handle.
pub proof fn lemma_handle_is_from_a_later_join<S>(
    books: LobbyView<S>,
    requests: Seq<Request<S>>,
    id: u128,
)
    requires
        books.wf(),
        !books.seats.contains_key(id),
        served(books, requests).seats.contains_key(id),
    ensures
        exists|k: int|
            0 <= k < requests.len() && brings_in(#[trigger] requests[k], id)
                && requests[k]->Connect_0.addr == served(books, requests).seats[id].sink,
    decreases requests.len(),
{
    if requests.len() > 0 {
        let front = requests.drop_last();
        let last = requests.last();
        let before = served(books, front);
        lemma_requests_keep_the_books(books, front);
        let k = requests.len() - 1;
        assert(requests[k] == last);
        let found_in_front = match last {
            Request::Connect(msg) => {
                lemma_join(before, msg.self_id, msg.lobby_id, msg.addr);
                msg.self_id != id
            },
            Request::Disconnect(msg) => {
                lemma_vacate(before, msg.id);
                true
            },
            Request::ClientMessage(_) => true,
        };
        if found_in_front {
            lemma_handle_is_from_a_later_join(books, front, id);
            let j = choose|j: int|
                0 <= j < front.len() && brings_in(#[trigger] front[j], id)
                    && front[j]->Connect_0.addr == before.seats[id].sink;
            assert(requests[j] == front[j]);
        }
    }
}

/// Asking twice to leave is asking once, and everybody else sits where they
/// sat, in the same order.
pub proof fn lemma_leaving_twice<S>(books: LobbyView<S>, room: u128, id: u128)
    requires
        books.wf(),
    ensures
        books.leave(room, id).leave(room, id) == books.leave(room, id),
        forall|other: u128|
            other != id ==> (#[trigger] books.leave(room, id).seats.contains_key(other)
                <==> books.seats.contains_key(other)),
        forall|other: u128|
            other != id && books.seats.contains_key(other) ==> #[trigger] books.leave(
                room,
                id,
            ).seats[other] == books.seats[other],
        forall|any_room: u128| #[trigger]
            books.leave(room, id).members(any_room) == if books.is_member(room, id) {
                without(books.members(any_room), id)
            } else {
                books.members(any_room)
            },
{
    lemma_vacate(books, id);
}

/// Whether `event` shows that the client is alive: a ping or a pong.
pub open spec fn is_sign_of_life(event: Event) -> bool {
    event matches Event::Inbound(Ok(frame)) && (frame is Ping || frame is Pong)
}

/// Whether `event` is one that by itself stops no connection: anything but a
/// close frame, a fragment, bytes that are no frame, and the order to stop.
pub open spec fn is_harmless(event: Event) -> bool {
    match event {
        Event::JoinResult(_) => true,
        Event::Inbound(Ok(frame)) => !(frame is Close) && !(frame is Continuation),
        Event::Inbound(Err(_)) => false,
        Event::Tick => true,
        Event::Deliver(_) => true,
        Event::Stop => false,
    }
}

/// Whether the client was heard of in time for the event at place `k` of
/// `trace`: no longer than [`CLIENT_TIMEOUT`] before it the connection was
/// seen alive, at its start or by a ping or pong earlier in the trace.
pub open spec fn heard_in_time(conn: WsConnView, trace: Seq<Moment>, k: int) -> bool {
    ||| trace[k].at - conn.hb <= CLIENT_TIMEOUT
    ||| exists|j: int|
        0 <= j < k && is_sign_of_life(#[trigger] trace[j].event) && trace[k].at - trace[j].at
            <= CLIENT_TIMEOUT
}

/// Whether none of `commands` takes the connection out of its room or
/// stops it.
pub open spec fn keeps_running(commands: Seq<CommandView>) -> bool {
    forall|i: int|
        0 <= i < commands.len() ==> !(#[trigger] commands[i] is Leave) && !(commands[i] is Stop)
}

proof fn lemma_harmless_trace(conn: WsConnView, trace: Seq<Moment>)
    requires
        conn.live(),
        forall|k: int| 0 <= k < trace.len() ==> is_harmless(#[trigger] trace[k].event),
        forall|k: int|
            0 <= k < trace.len() && (#[trigger] trace[k]).event is Tick ==> heard_in_time(
                conn,
                trace,
                k,
            ),
    ensures
        conn.after(trace).live(),
        conn.after(trace).id == conn.id,
        conn.after(trace).room == conn.room,
        conn.after(trace).hb >= conn.hb,
        forall|j: int|
            0 <= j < trace.len() && is_sign_of_life(#[trigger] trace[j].event) ==> conn.after(
                trace,
            ).hb >= trace[j].at,
        forall|k: int|
            0 <= k < trace.len() ==> keeps_running(#[trigger] conn.commands_at(trace, k)),
    decreases trace.len(),
{
    if trace.len() > 0 {
        let front = trace.drop_last();
        let last = trace.last();
        let n = trace.len() - 1;
        assert(trace[n] == last);
        assert forall|k: int| 0 <= k < front.len() implies is_harmless(
            #[trigger] front[k].event,
        ) by {
            assert(front[k] == trace[k]);
        }
        assert forall|k: int|
            0 <= k < front.len() && (#[trigger] front[k]).event is Tick implies heard_in_time(
            conn,
            front,
            k,
        ) by {
            assert(front[k] == trace[k]);
            assert(heard_in_time(conn, trace, k));
            if !(trace[k].at - conn.hb <= CLIENT_TIMEOUT) {
                let j = choose|j: int|
                    0 <= j < k && is_sign_of_life(#[trigger] trace[j].event) && trace[k].at
                        - trace[j].at <= CLIENT_TIMEOUT;
                assert(front[j] == trace[j]);
            }
        }
        lemma_harmless_trace(conn, front);
        let before = conn.after(front);
        if last.event is Tick {
            assert(heard_in_time(conn, trace, n));
            if !(trace[n].at - conn.hb <= CLIENT_TIMEOUT) {
                let j = choose|j: int|
                    0 <= j < n && is_sign_of_life(#[trigger] trace[j].event) && trace[n].at
                        - trace[j].at <= CLIENT_TIMEOUT;
                assert(front[j] == trace[j]);
            }
            assert(!before.timed_out(last.at));
        }
        assert forall|j: int|
            0 <= j < trace.len() && is_sign_of_life(#[trigger] trace[j].event) implies conn.after(
            trace,
        ).hb >= trace[j].at by {
            if j < n {
                assert(front[j] == trace[j]);
            }
        }
        assert forall|k: int| 0 <= k < trace.len() implies keeps_running(
            #[trigger] conn.commands_at(trace, k),
        ) by {
            if k < n {
                assert(trace.take(k) =~= front.take(k));
                assert(front[k] == trace[k]);
                assert(conn.commands_at(trace, k) == conn.commands_at(front, k));
            } else {
                assert(trace.take(k) =~= front);
            }
        }
    }
}

/// A client that is heard of in time before every heartbeat stays: whatever
/// harmless events come, in whatever number, the connection remains live
/// and none of its commands takes it out of its room or stops it.
pub proof fn lemma_answering_client_stays(conn: WsConnView, trace: Seq<Moment>)
    requires
        conn.live(),
        forall|k: int| 0 <= k < trace.len() ==> is_harmless(#[trigger] trace[k].event),
        forall|k: int|
            0 <= k < trace.len() && (#[trigger] trace[k]).event is Tick ==> heard_in_time(
                conn,
                trace,
                k,
            ),
    ensures
        conn.after(trace).live(),
        forall|k: int|
            0 <= k < trace.len() ==> keeps_running(#[trigger] conn.commands_at(trace, k)),
{
    lemma_harmless_trace(conn, trace);
}

/// Whether `event` is one that a client who sends nothing can meet: a
/// heartbeat, a delivery, or the lobby's answer.
pub open spec fn is_silent(event: Event) -> bool {
    match event {
        Event::JoinResult(_) => true,
        Event::Tick => true,
        Event::Deliver(_) => true,
        _ => false,
    }
}

/// The commands by which a connection that timed out is dropped.
pub open spec fn dropped(conn: WsConnView) -> Seq<CommandView> {
    seq![CommandView::Leave(conn.leave()), CommandView::Stop]
}

proof fn lemma_silent_trace(conn: WsConnView, trace: Seq<Moment>)
    requires
        conn.live(),
        forall|k: int| 0 <= k < trace.len() ==> is_silent(#[trigger] trace[k].event),
    ensures
        conn.after(trace).id == conn.id,
        conn.after(trace).room == conn.room,
        conn.after(trace).hb == conn.hb,
        conn.after(trace).live() || exists|k: int|
            0 <= k < trace.len() && #[trigger] conn.commands_at(trace, k) == dropped(conn),
    decreases trace.len(),
{
    if trace.len() > 0 {
        let front = trace.drop_last();
        let last = trace.last();
        let n = trace.len() - 1;
        assert(trace[n] == last);
        assert forall|k: int| 0 <= k < front.len() implies is_silent(#[trigger] front[k].event) by {
            assert(front[k] == trace[k]);
        }
        lemma_silent_trace(conn, front);
        let before = conn.after(front);
        if before.live() {
            if !conn.after(trace).live() {
                assert(trace.take(n) =~= front);
                assert(conn.commands_at(trace, n) == dropped(conn));
            }
        } else {
            let k = choose|k: int|
                0 <= k < front.len() && #[trigger] conn.commands_at(front, k) == dropped(conn);
            assert(trace.take(k) =~= front.take(k));
            assert(front[k] == trace[k]);
            assert(conn.commands_at(trace, k) == dropped(conn));
        }
    }
}

/// A client that sends nothing is dropped: at a heartbeat that comes more
/// than [`CLIENT_TIMEOUT`] after the connection was last seen alive, the
/// connection is no longer live, and at that heartbeat or an earlier one
/// it has told the lobby that it leaves and has asked to be stopped. Once
/// the lobby has served that notice, it holds no handle for the connection.
pub proof fn lemma_silent_client_is_dropped<S>(
    conn: WsConnView,
    trace: Seq<Moment>,
    now: u128,
    books: LobbyView<S>,
)
    requires
        conn.live(),
        forall|k: int| 0 <= k < trace.len() ==> is_silent(#[trigger] trace[k].event),
        now - conn.hb > CLIENT_TIMEOUT,
        books.wf(),
        books.seats.contains_key(conn.id) ==> books.is_member(conn.room, conn.id),
    ensures
        !conn.after(trace.push(Moment { at: now, event: Event::Tick })).live(),
        exists|k: int|
            0 <= k <= trace.len() && #[trigger] conn.commands_at(
                trace.push(Moment { at: now, event: Event::Tick }),
                k,
            ) == dropped(conn),
        !Request::<S>::Disconnect(conn.leave()).applied(books).seats.contains_key(conn.id),
{
    let tick = Moment { at: now, event: Event::Tick };
    let full = trace.push(tick);
    let n = trace.len() as int;
    lemma_silent_trace(conn, trace);
    assert(full.drop_last() =~= trace);
    assert(full.last() == tick);
    let before = conn.after(trace);
    if before.live() {
        assert(before.timed_out(now));
        assert(full.take(n) =~= trace);
        assert(conn.commands_at(full, n) == dropped(conn));
    } else {
        let k = choose|k: int|
            0 <= k < trace.len() && #[trigger] conn.commands_at(trace, k) == dropped(conn);
        assert(full.take(k) =~= trace.take(k));
        assert(full[k] == trace[k]);
        assert(conn.commands_at(full, k) == dropped(conn));
    }
    lemma_vacate(books, conn.id);
}

/// Whatever brought a connection to its last step, that step tells the
/// lobby that the connection leaves its room, once.
pub proof fn lemma_last_step_tells_the_lobby(conn: WsConnView)
    ensures
        conn.phase != Phase::Stopped ==> conn.on_stop().1 == seq![
            CommandView::Leave(conn.leave()),
        ],
        conn.on_stop().0.phase == Phase::Stopped,
        conn.on_stop().0.on_stop().1 == Seq::<CommandView>::empty(),
{
}

/// A live connection stops being live in three ways only: by a close frame,
/// by a frame that it cannot take (a fragment, or bytes that are no frame),
/// and by a heartbeat that finds the client timed out. The order to stop
/// ends it whatever it was doing.
pub proof fn lemma_what_stops_a_connection(conn: WsConnView, moment: Moment)
    requires
        conn.live(),
        !conn.step(moment).0.live(),
    ensures
        match moment.event {
            Event::Inbound(Ok(frame)) => frame is Close || frame is Continuation,
            Event::Inbound(Err(_)) => true,
            Event::Tick => conn.timed_out(moment.at),
            Event::Stop => true,
            _ => false,
        },
        moment.event is Stop ==> conn.step(moment).0.phase == Phase::Stopped,
        !(moment.event is Stop) ==> conn.step(moment).0.phase == Phase::Stopping,
{
}

/// The time at which a connection was last seen alive never goes back.
pub proof fn lemma_last_seen_never_goes_back(conn: WsConnView, moment: Moment)
    ensures
        conn.step(moment).0.hb >= conn.hb,
        conn.step(moment).0.id == conn.id,
        conn.step(moment).0.room == conn.room,
{
}

} // verus!
