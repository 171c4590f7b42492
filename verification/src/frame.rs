//! What arrives on a client's socket, and what a connection asks its owner to do.

use vstd::prelude::*;
use crate::messages::{ClientActorMessage, ClientActorMessageView, Disconnect};

verus! {

/// Why a socket is being closed: a status code and an optional explanation.
#[derive(Clone, Debug, PartialEq, Eq)]
pub struct CloseReason {
    pub code: u16,
    pub description: Option<String>,
}

/// What a [`CloseReason`] holds, with the explanation as a sequence.
pub struct CloseReasonView {
    pub code: u16,
    pub description: Option<Seq<char>>,
}

impl View for CloseReason {
    type V = CloseReasonView;

    open spec fn view(&self) -> CloseReasonView {
        CloseReasonView {
            code: self.code,
            description: match self.description {
                Some(text) => Some(text@),
                None => None,
            },
        }
    }
}

/// The view of an optional close reason.
pub open spec fn reason_view(reason: Option<CloseReason>) -> Option<CloseReasonView> {
    match reason {
        Some(r) => Some(r@),
        None => None,
    }
}

/// One message of a client, as the socket's decoder hands it over.
#[derive(Clone, Debug, PartialEq, Eq)]
pub enum Frame {
    Text(String),
    Binary(Vec<u8>),
    /// A piece of a fragmented message. Fragments are not put together again.
    Continuation,
    Ping(Vec<u8>),
    Pong(Vec<u8>),
    Close(Option<CloseReason>),
    Nop,
}

/// What a [`Frame`] holds, with payloads as sequences.
pub enum FrameView {
    Text(Seq<char>),
    Binary(Seq<u8>),
    Continuation,
    Ping(Seq<u8>),
    Pong(Seq<u8>),
    Close(Option<CloseReasonView>),
    Nop,
}

impl View for Frame {
    type V = FrameView;

    open spec fn view(&self) -> FrameView {
        match *self {
            Frame::Text(text) => FrameView::Text(text@),
            Frame::Binary(bytes) => FrameView::Binary(bytes@),
            Frame::Continuation => FrameView::Continuation,
            Frame::Ping(bytes) => FrameView::Ping(bytes@),
            Frame::Pong(bytes) => FrameView::Pong(bytes@),
            Frame::Close(reason) => FrameView::Close(reason_view(reason)),
            Frame::Nop => FrameView::Nop,
        }
    }
}

/// The ways in which the bytes on a socket can fail to be a frame.
#[derive(Clone, Copy, Debug, PartialEq, Eq)]
pub enum ProtocolError {
    UnmaskedFrame,
    MaskedFrame,
    InvalidOpcode(u8),
    InvalidLength(usize),
    BadOpCode,
    Overflow,
    ContinuationNotStarted,
    ContinuationStarted,
    ContinuationFragment(u8),
    Io,
}

/// The view of what the decoder hands over: a frame, or the fault it met.
pub open spec fn inbound_view(msg: Result<Frame, ProtocolError>) -> Result<
    FrameView,
    ProtocolError,
> {
    match msg {
        Ok(frame) => Ok(frame@),
        Err(fault) => Err(fault),
    }
}

/// One thing that a connection asks the owner of its socket to do.
#[derive(Clone, Debug, PartialEq, Eq)]
pub enum Command {
    /// Write a ping frame to the client.
    Ping(Vec<u8>),
    /// Write a pong frame to the client.
    Pong(Vec<u8>),
    /// Write a text frame to the client.
    Text(String),
    /// Write a binary frame to the client.
    Binary(Vec<u8>),
    /// Write a close frame to the client.
    Close(Option<CloseReason>),
    /// Send the client's text to the lobby.
    Relay(ClientActorMessage),
    /// Tell the lobby that this connection leaves its room.
    Leave(Disconnect),
    /// Stop the connection. Its owner then runs the connection's last step.
    Stop,
}

/// What a [`Command`] holds, with payloads as sequences.
pub enum CommandView {
    Ping(Seq<u8>),
    Pong(Seq<u8>),
    Text(Seq<char>),
    Binary(Seq<u8>),
    Close(Option<CloseReasonView>),
    Relay(ClientActorMessageView),
    Leave(Disconnect),
    Stop,
}

impl View for Command {
    type V = CommandView;

    open spec fn view(&self) -> CommandView {
        match *self {
            Command::Ping(bytes) => CommandView::Ping(bytes@),
            Command::Pong(bytes) => CommandView::Pong(bytes@),
            Command::Text(text) => CommandView::Text(text@),
            Command::Binary(bytes) => CommandView::Binary(bytes@),
            Command::Close(reason) => CommandView::Close(reason_view(reason)),
            Command::Relay(msg) => CommandView::Relay(msg@),
            Command::Leave(msg) => CommandView::Leave(msg),
            Command::Stop => CommandView::Stop,
        }
    }
}

/// The views of a list of commands, in order.
pub open spec fn command_views(commands: Seq<Command>) -> Seq<CommandView> {
    commands.map_values(|c: Command| c@)
}

} // verus!
