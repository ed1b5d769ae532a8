//! Core of a real-time relay server for a two-player match game.
//!
//! The crate is a state machine: every handler takes the current state and one
//! event, and returns the next state together with the messages to deliver.
//! Transport, persistence and timing live with the caller, which feeds events in
//! and performs the returned deliveries.
//!
//! - [`protocol`]: the messages between client and server.
//! - [`gateway`]: the login handshake and the reading of frames.
//! - [`registry`]: the connected players.
//! - [`queue`]: the matchmaking queue and the pairing of waiting players.
//! - [`session`]: one match, from its start over the countdown to a rematch or
//!   its end.
//! - [`directory`]: the sessions and the assignment of players to them.
//! - [`server`]: all of these together, and the routing of client messages.
//! - [`rating`] and [`elo`]: profiles, and what a finished match does to them.
//! - [`ids`]: fresh identifiers.

pub mod directory;
pub mod elo;
pub mod gateway;
pub mod ids;
pub mod protocol;
pub mod queue;
pub mod rating;
pub mod registry;
pub mod server;
pub mod session;
