//! The decisions of a connection: the login handshake, and what to do with
//! each frame that arrives afterwards.
//!
//! A connection is a stranger until its first message has been a login request
//! and the rating store has resolved the username.  The decisions are taken here;
//! reading frames, asking the store and writing replies is the caller's work.

use crate::protocol::{ClientMessage, ServerMessage};
use crate::rating::User;
use vstd::prelude::*;
use vstd::string::StringExecFns;

verus! {

/// What arrived on a connection.
#[derive(Debug, Clone, PartialEq, Eq)]
pub enum Inbound {
    /// A text frame that parsed as a client message.
    Message(ClientMessage),
    /// A text frame that did not parse.
    Malformed,
    /// A close frame of the peer.
    CloseFrame,
    /// The transport reported an error.
    TransportError,
    /// The stream has ended.
    EndOfStream,
    /// Any other frame: binary data, a ping, a pong.
    Other,
}

/// What to do with a connection that has not logged in yet.
#[derive(Debug, Clone, PartialEq, Eq)]
pub enum HandshakeStep {
    /// Resolve this username with the rating store.
    Authenticate { username: String },
    /// Send this rejection, then close the connection.
    Reject { notice: ServerMessage },
    /// Close the connection without a word.
    Close,
    /// Keep waiting for the login request.
    Wait,
}

/// What to do with a frame of a connection that has logged in.
#[derive(Debug, Clone, PartialEq, Eq)]
pub enum ReaderStep {
    /// Hand this message to the server.
    Handle { message: ClientMessage },
    /// Drop the frame and read on.
    Skip,
    /// Stop reading and clean up after the player.
    Stop,
}

/// The reason given to a client whose first message is not a login request.
pub open spec fn login_expected() -> Seq<char> {
    "Expected Login message first"@
}

/// The reason given to a client whose first message cannot be parsed.
pub open spec fn invalid_format() -> Seq<char> {
    "Invalid message format"@
}

/// The reason given to a client when the rating store fails with `error`.
pub open spec fn store_failure(error: Seq<char>) -> Seq<char> {
    "Database error: "@ + error
}

/// Whether `notice` is a rejection that carries exactly `reason`.
pub open spec fn is_rejection(notice: ServerMessage, reason: Seq<char>) -> bool {
    notice matches ServerMessage::AuthRejected { reason: r } && r@ == reason
}

/// Whether `notice` accepts the login of `user` and carries its identity and stats.
pub open spec fn is_acceptance(notice: ServerMessage, user: User) -> bool {
    notice matches ServerMessage::AuthAccepted {
        player_id,
        username,
        elo,
        wins,
        losses,
        bricks,
        gold,
    } && player_id == user.id && username@ == user.username@ && elo == user.elo && wins
        == user.wins && losses == user.losses && bricks == user.bricks && gold == user.gold
}

/// Decides the next step of the handshake.  A login request is passed on to
/// authentication with its username; any other message, and any frame that does
/// not parse, is rejected with a reason; a close frame or the end of the stream
/// ends the handshake; a transport error and all other frames are skipped.
pub fn handshake_step(event: Inbound) -> (step: HandshakeStep)
    ensures
        match event {
            Inbound::Message(ClientMessage::Login { username }) => step
                == (HandshakeStep::Authenticate { username }),
            Inbound::Message(_) => step matches HandshakeStep::Reject { notice }
                && is_rejection(notice, login_expected()),
            Inbound::Malformed => step matches HandshakeStep::Reject { notice }
                && is_rejection(notice, invalid_format()),
            Inbound::CloseFrame => step == HandshakeStep::Close,
            Inbound::EndOfStream => step == HandshakeStep::Close,
            Inbound::TransportError => step == HandshakeStep::Wait,
            Inbound::Other => step == HandshakeStep::Wait,
        },
{
    match event {
        Inbound::Message(ClientMessage::Login { username }) => HandshakeStep::Authenticate {
            username,
        },
        Inbound::Message(_) => HandshakeStep::Reject {
            notice: ServerMessage::AuthRejected {
                reason: "Expected Login message first".to_owned(),
            },
        },
        Inbound::Malformed => HandshakeStep::Reject {
            notice: ServerMessage::AuthRejected { reason: "Invalid message format".to_owned() },
        },
        Inbound::CloseFrame => HandshakeStep::Close,
        Inbound::EndOfStream => HandshakeStep::Close,
        Inbound::TransportError => HandshakeStep::Wait,
        Inbound::Other => HandshakeStep::Wait,
    }
}

/// Decides what to do with a frame of a connection that has logged in.  A
/// message goes to the server, except for a repeated login request, which is
/// dropped like a frame that does not parse or holds no text, a close frame
/// among them.  A transport error or the end of the stream stops the reader.
pub fn reader_step(event: Inbound) -> (step: ReaderStep)
    ensures
        match event {
            Inbound::Message(ClientMessage::Login { .. }) => step == ReaderStep::Skip,
            Inbound::Message(message) => step == (ReaderStep::Handle { message }),
            Inbound::Malformed => step == ReaderStep::Skip,
            Inbound::CloseFrame => step == ReaderStep::Skip,
            Inbound::TransportError => step == ReaderStep::Stop,
            Inbound::EndOfStream => step == ReaderStep::Stop,
            Inbound::Other => step == ReaderStep::Skip,
        },
{
    match event {
        Inbound::Message(ClientMessage::Login { .. }) => ReaderStep::Skip,
        Inbound::Message(message) => ReaderStep::Handle { message },
        Inbound::Malformed => ReaderStep::Skip,
        Inbound::CloseFrame => ReaderStep::Skip,
        Inbound::TransportError => ReaderStep::Stop,
        Inbound::EndOfStream => ReaderStep::Stop,
        Inbound::Other => ReaderStep::Skip,
    }
}

/// The reply to a login, once the rating store has answered: the acceptance with
/// the resolved profile, or a rejection that quotes the store's error.
pub fn auth_reply(resolved: Result<&User, &str>) -> (notice: ServerMessage)
    ensures
        match resolved {
            Ok(user) => is_acceptance(notice, *user),
            Err(error) => is_rejection(notice, store_failure(error@)),
        },
{
    match resolved {
        Ok(user) => ServerMessage::AuthAccepted {
            player_id: user.id,
            username: user.username.clone(),
            elo: user.elo,
            wins: user.wins,
            losses: user.losses,
            bricks: user.bricks,
            gold: user.gold,
        },
        Err(error) => ServerMessage::AuthRejected {
            reason: "Database error: ".to_owned().concat(error),
        },
    }
}

} // verus!
