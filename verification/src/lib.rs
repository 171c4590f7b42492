//! A relay for text messages between the clients of a room.
//!
//! Each client connection is a [`ws::WsConn`]: a state machine that turns the
//! frames, timer ticks and deliveries of one socket into commands for whoever
//! owns the socket ([`frame`]). The [`lobby::Lobby`] is the single owner of
//! room membership and decides to whom a client's text goes; [`roster`] is
//! the mathematical model of its books. The records that connections and
//! lobby exchange are in [`messages`], what holds of both whatever they are
//! asked is in [`laws`], and [`client`] holds the decisions of a client for
//! trying the relay out.

pub mod client;
pub mod frame;
pub mod laws;
pub mod lobby;
pub mod messages;
pub mod roster;
pub mod ws;
