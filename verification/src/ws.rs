//! One client connection, as a state machine.
//!
//! A [`WsConn`] owns no socket and no timer. Whoever does hands it what
//! happened (a frame arrived, the heartbeat timer fired, the lobby delivered
//! a text) together with the time on a monotonic clock, in nanoseconds, and
//! carries out the [`Command`]s it gets back, in order.

use vstd::prelude::*;
use crate::frame::{
    command_views, inbound_view, CloseReason, CloseReasonView, Command, CommandView, Frame,
    FrameView, ProtocolError,
};
use crate::messages::{ClientActorMessage, ClientActorMessageView, Connect, Disconnect, WsMessage};

verus! {

/// How often the heartbeat timer fires, in nanoseconds.
pub const HEARTBEAT_INTERVAL: u128 = 15_000_000_000;

/// How long a client may stay silent before it is dropped, in nanoseconds.
pub const CLIENT_TIMEOUT: u128 = 30_000_000_000;

/// The status code of a close frame that reports a fault on the server's side.
pub const INTERNAL_ERROR: u16 = 1011;

/// Where a connection is in its life.
#[derive(Clone, Copy, Debug, PartialEq, Eq, Structural)]
pub enum Phase {
    /// Created; the lobby does not know it yet.
    Starting,
    /// It asked the lobby for its room and has no consent yet.
    Joined,
    /// The lobby has confirmed the room.
    Active,
    /// It asked to be stopped and waits for its last step.
    Stopping,
    /// It took its last step.
    Stopped,
}

/// The state of a connection.
pub struct WsConnView {
    pub room: u128,
    pub hb: u128,
    pub id: u128,
    pub phase: Phase,
}

/// The payload of the probe that is sent on each heartbeat: the bytes of `PING`.
pub open spec fn ping_payload() -> Seq<u8> {
    seq![80u8, 73u8, 78u8, 71u8]
}

/// The time from `last` to `now`, and zero where `now` is the earlier one.
pub open spec fn elapsed(last: u128, now: u128) -> int {
    if now >= last {
        now - last
    } else {
        0
    }
}

/// The later of the two times.
pub open spec fn later(last: u128, now: u128) -> u128 {
    if now >= last {
        now
    } else {
        last
    }
}

/// Whether `id` has the shape of a random (version 4) UUID: the version
/// nibble is 4 and the two variant bits are `10`.
pub open spec fn is_random_uuid(id: u128) -> bool {
    id & 0x0000_0000_0000_f000_c000_0000_0000_0000u128
        == 0x0000_0000_0000_4000_8000_0000_0000_0000u128
}

impl WsConnView {
    /// Whether the connection reacts to frames, ticks and deliveries.
    pub open spec fn live(self) -> bool {
        self.phase == Phase::Joined || self.phase == Phase::Active
    }

    /// The same connection in another phase.
    pub open spec fn in_phase(self, phase: Phase) -> WsConnView {
        WsConnView { phase, ..self }
    }

    /// The same connection, seen alive at `now`.
    pub open spec fn seen_at(self, now: u128) -> WsConnView {
        WsConnView { hb: later(self.hb, now), ..self }
    }

    /// The notice by which this connection leaves its room.
    pub open spec fn leave(self) -> Disconnect {
        Disconnect { room_id: self.room, id: self.id }
    }

    /// The state after the lobby was asked for the room.
    pub open spec fn on_start(self) -> WsConnView {
        if self.phase == Phase::Starting {
            self.in_phase(Phase::Joined)
        } else {
            self
        }
    }

    /// The state after the lobby answered the request for the room. Consent
    /// makes the connection active. A refusal, or no answer at all, changes
    /// nothing: the connection goes on as it is.
    pub open spec fn on_join_result(self, accepted: bool) -> WsConnView {
        if self.phase == Phase::Joined && accepted {
            self.in_phase(Phase::Active)
        } else {
            self
        }
    }

    /// The state and the commands after one message of the client, read at
    /// `now`.
    ///
    /// Ping and pong show that the client is alive, and a ping is answered.
    /// Text goes to the lobby, binary data goes back to the client as it
    /// came. A close frame is answered in kind and stops the connection; a
    /// fragment stops it without a word; bytes that are no frame close it
    /// with [`INTERNAL_ERROR`]. A connection that is not live ignores all of
    /// them.
    pub open spec fn on_frame(self, msg: Result<FrameView, ProtocolError>, now: u128) -> (
        WsConnView,
        Seq<CommandView>,
    ) {
        if !self.live() {
            (self, seq![])
        } else {
            match msg {
                Ok(FrameView::Ping(bytes)) => (self.seen_at(now), seq![CommandView::Pong(bytes)]),
                Ok(FrameView::Pong(_)) => (self.seen_at(now), seq![]),
                Ok(FrameView::Binary(bytes)) => (self, seq![CommandView::Binary(bytes)]),
                Ok(FrameView::Close(reason)) => (
                    self.in_phase(Phase::Stopping),
                    seq![CommandView::Close(reason), CommandView::Stop],
                ),
                Ok(FrameView::Continuation) => (
                    self.in_phase(Phase::Stopping),
                    seq![CommandView::Stop],
                ),
                Ok(FrameView::Nop) => (self, seq![]),
                Ok(FrameView::Text(text)) => (
                    self,
                    seq![
                        CommandView::Relay(
                            ClientActorMessageView { id: self.id, msg: text, room_id: self.room },
                        ),
                    ],
                ),
                Err(_) => (
                    self.in_phase(Phase::Stopping),
                    seq![
                        CommandView::Close(
                            Some(CloseReasonView { code: INTERNAL_ERROR, description: None }),
                        ),
                        CommandView::Stop,
                    ],
                ),
            }
        }
    }

    /// Whether the client has been silent for longer than [`CLIENT_TIMEOUT`]
    /// at `now`.
    pub open spec fn timed_out(self, now: u128) -> bool {
        elapsed(self.hb, now) > CLIENT_TIMEOUT
    }

    /// The state and the commands after the heartbeat timer fired at `now`:
    /// a client that timed out is dropped, any other is probed.
    pub open spec fn on_tick(self, now: u128) -> (WsConnView, Seq<CommandView>) {
        if !self.live() {
            (self, seq![])
        } else if self.timed_out(now) {
            (
                self.in_phase(Phase::Stopping),
                seq![CommandView::Leave(self.leave()), CommandView::Stop],
            )
        } else {
            (self, seq![CommandView::Ping(ping_payload())])
        }
    }

    /// The commands after the lobby delivered `text` for the client.
    pub open spec fn on_deliver(self, text: Seq<char>) -> Seq<CommandView> {
        if self.live() {
            seq![CommandView::Text(text)]
        } else {
            seq![]
        }
    }

    /// The state and the commands of the last step: the lobby is told once,
    /// whatever brought the connection here.
    pub open spec fn on_stop(self) -> (WsConnView, Seq<CommandView>) {
        if self.phase == Phase::Stopped {
            (self, seq![])
        } else {
            (self.in_phase(Phase::Stopped), seq![CommandView::Leave(self.leave())])
        }
    }
}

/// One thing that can happen to a connection after it has started.
pub enum Event {
    /// The lobby answered the request for the room.
    JoinResult(bool),
    /// The socket's decoder handed over a frame, or the fault it met.
    Inbound(Result<FrameView, ProtocolError>),
    /// The heartbeat timer fired.
    Tick,
    /// The lobby delivered a text.
    Deliver(Seq<char>),
    /// The connection was told to take its last step.
    Stop,
}

/// An event and the time at which it happened.
pub struct Moment {
    pub at: u128,
    pub event: Event,
}

impl WsConnView {
    /// The state and the commands after one event.
    pub open spec fn step(self, moment: Moment) -> (WsConnView, Seq<CommandView>) {
        match moment.event {
            Event::JoinResult(accepted) => (self.on_join_result(accepted), seq![]),
            Event::Inbound(msg) => self.on_frame(msg, moment.at),
            Event::Tick => self.on_tick(moment.at),
            Event::Deliver(text) => (self, self.on_deliver(text)),
            Event::Stop => self.on_stop(),
        }
    }

    /// The state after all events of `trace`, in order.
    pub open spec fn after(self, trace: Seq<Moment>) -> WsConnView
        decreases trace.len(),
    {
        if trace.len() == 0 {
            self
        } else {
            self.after(trace.drop_last()).step(trace.last()).0
        }
    }

    /// The commands that the event at place `k` of `trace` brings.
    pub open spec fn commands_at(self, trace: Seq<Moment>, k: int) -> Seq<CommandView> {
        self.after(trace.take(k)).step(trace[k]).1
    }
}

/// What a connection hands back when it starts: the request that takes it
/// into its room, and the interval at which its heartbeat timer is to fire.
#[derive(Clone, Debug, PartialEq, Eq)]
pub struct Started<S> {
    pub connect: Connect<S>,
    pub heartbeat_interval: u128,
}

/// The server's side of one client connection.
#[derive(Clone, Debug, PartialEq, Eq)]
pub struct WsConn {
    room: u128,
    hb: u128,
    id: u128,
    phase: Phase,
}

impl View for WsConn {
    type V = WsConnView;

    closed spec fn view(&self) -> WsConnView {
        WsConnView { room: self.room, hb: self.hb, id: self.id, phase: self.phase }
    }
}

/// Draws an identifier with `uuid::Uuid::new_v4` and hands it out as the
/// 128-bit number that `Uuid::as_u128` makes of it. The bits come from the
/// operating system's random source; all that is claimed of them is the
/// version and the variant that `new_v4` stamps on every result. Where the
/// operating system hands out no random bytes, `new_v4` panics.
#[verifier::external_body]
fn random_id() -> (id: u128)
    ensures
        is_random_uuid(id),
{
    uuid::Uuid::new_v4().as_u128()
}

impl WsConn {
    /// A connection for `room` with a freshly drawn identifier, created at
    /// `now`.
    pub fn new(room: u128, now: u128) -> (conn: WsConn)
        ensures
            conn@ == (WsConnView { room, hb: now, id: conn@.id, phase: Phase::Starting }),
            is_random_uuid(conn@.id),
    {
        let id = random_id();
        WsConn::with_id(id, room, now)
    }

    /// A connection for `room` with the identifier `id`, created at `now`.
    pub fn with_id(id: u128, room: u128, now: u128) -> (conn: WsConn)
        ensures
            conn@ == (WsConnView { room, hb: now, id, phase: Phase::Starting }),
    {
        WsConn { room, hb: now, id, phase: Phase::Starting }
    }

    /// The identifier of this connection.
    pub fn id(&self) -> (id: u128)
        ensures
            id == self@.id,
    {
        self.id
    }

    /// The room of this connection.
    pub fn room(&self) -> (room: u128)
        ensures
            room == self@.room,
    {
        self.room
    }

    /// When the client was last seen alive.
    pub fn last_seen(&self) -> (at: u128)
        ensures
            at == self@.hb,
    {
        self.hb
    }

    /// Where the connection is in its life.
    pub fn phase(&self) -> (phase: Phase)
        ensures
            phase == self@.phase,
    {
        self.phase
    }

    fn seen(&mut self, now: u128)
        ensures
            final(self)@ == old(self)@.seen_at(now),
    {
        if now >= self.hb {
            self.hb = now;
        }
    }

    fn leave_notice(&self) -> (notice: Disconnect)
        ensures
            notice == self@.leave(),
    {
        Disconnect { room_id: self.room, id: self.id }
    }

    /// Starts the connection: `addr` is the handle by which the lobby will
    /// reach it. A connection starts once; later calls hand back nothing and
    /// change nothing.
    pub fn started<S>(&mut self, addr: S) -> (out: Option<Started<S>>)
        ensures
            final(self)@ == old(self)@.on_start(),
            old(self)@.phase == Phase::Starting ==> out == Some(
                Started {
                    connect: Connect {
                        addr,
                        lobby_id: old(self)@.room,
                        self_id: old(self)@.id,
                    },
                    heartbeat_interval: HEARTBEAT_INTERVAL,
                },
            ),
            old(self)@.phase != Phase::Starting ==> out is None,
    {
        match self.phase {
            Phase::Starting => {
                self.phase = Phase::Joined;
                Some(
                    Started {
                        connect: Connect { addr, lobby_id: self.room, self_id: self.id },
                        heartbeat_interval: HEARTBEAT_INTERVAL,
                    },
                )
            },
            _ => None,
        }
    }

    /// Takes the lobby's answer to the request for the room.
    pub fn joined(&mut self, accepted: bool)
        ensures
            final(self)@ == old(self)@.on_join_result(accepted),
    {
        match self.phase {
            Phase::Joined => {
                if accepted {
                    self.phase = Phase::Active;
                }
            },
            _ => {},
        }
    }

    /// Whether the connection reacts to frames, ticks and deliveries.
    pub fn is_live(&self) -> (live: bool)
        ensures
            live == self@.live(),
    {
        match self.phase {
            Phase::Joined => true,
            Phase::Active => true,
            _ => false,
        }
    }

    /// Takes the firing of the heartbeat timer at `now`.
    pub fn hb(&mut self, now: u128) -> (out: Vec<Command>)
        ensures
            final(self)@ == old(self)@.on_tick(now).0,
            command_views(out@) == old(self)@.on_tick(now).1,
    {
        let mut out: Vec<Command> = Vec::new();
        if self.is_live() {
            if now >= self.hb && now - self.hb > CLIENT_TIMEOUT {
                out.push(Command::Leave(self.leave_notice()));
                out.push(Command::Stop);
                self.phase = Phase::Stopping;
            } else {
                let probe: Vec<u8> = vec![80u8, 73u8, 78u8, 71u8];
                assert(probe@ =~= ping_payload());
                out.push(Command::Ping(probe));
            }
        }
        assert(command_views(out@) =~= old(self)@.on_tick(now).1);
        out
    }

    /// Takes the last step of the connection.
    pub fn stopping(&mut self) -> (out: Vec<Command>)
        ensures
            final(self)@ == old(self)@.on_stop().0,
            command_views(out@) == old(self)@.on_stop().1,
    {
        let mut out: Vec<Command> = Vec::new();
        match self.phase {
            Phase::Stopped => {},
            _ => {
                out.push(Command::Leave(self.leave_notice()));
                self.phase = Phase::Stopped;
            },
        }
        assert(command_views(out@) =~= old(self)@.on_stop().1);
        out
    }

    /// Takes one message of the client, read at `now`.
    pub fn handle(&mut self, msg: Result<Frame, ProtocolError>, now: u128) -> (out: Vec<Command>)
        ensures
            final(self)@ == old(self)@.on_frame(inbound_view(msg), now).0,
            command_views(out@) == old(self)@.on_frame(inbound_view(msg), now).1,
    {
        let mut out: Vec<Command> = Vec::new();
        if self.is_live() {
            match msg {
                Ok(Frame::Ping(bytes)) => {
                    self.seen(now);
                    out.push(Command::Pong(bytes));
                },
                Ok(Frame::Pong(_)) => {
                    self.seen(now);
                },
                Ok(Frame::Binary(bytes)) => {
                    out.push(Command::Binary(bytes));
                },
                Ok(Frame::Close(reason)) => {
                    out.push(Command::Close(reason));
                    out.push(Command::Stop);
                    self.phase = Phase::Stopping;
                },
                Ok(Frame::Continuation) => {
                    out.push(Command::Stop);
                    self.phase = Phase::Stopping;
                },
                Ok(Frame::Nop) => {},
                Ok(Frame::Text(text)) => {
                    out.push(
                        Command::Relay(
                            ClientActorMessage { id: self.id, msg: text, room_id: self.room },
                        ),
                    );
                },
                Err(_) => {
                    out.push(
                        Command::Close(Some(CloseReason { code: INTERNAL_ERROR, description: None })),
                    );
                    out.push(Command::Stop);
                    self.phase = Phase::Stopping;
                },
            }
        }
        assert(command_views(out@) =~= old(self)@.on_frame(inbound_view(msg), now).1);
        out
    }

    /// Takes a text that the lobby delivered for the client.
    pub fn deliver(&self, msg: WsMessage) -> (out: Vec<Command>)
        ensures
            command_views(out@) == self@.on_deliver(msg@),
    {
        let mut out: Vec<Command> = Vec::new();
        if self.is_live() {
            out.push(Command::Text(msg.0));
        }
        assert(command_views(out@) =~= self@.on_deliver(msg@));
        out
    }
}

} // verus!
