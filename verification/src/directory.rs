//! The session directory: which sessions exist, and which session each player
//! belongs to.

use crate::protocol::{GameId, PlayerId};
use crate::session::{GameSession, SessionView};
use std::collections::HashMap;
use vstd::prelude::*;

verus! {

broadcast use vstd::std_specs::hash::group_hash_axioms;

/// The mathematical content of the directory.
pub struct DirectoryView {
    /// The sessions that exist, by id.
    pub sessions: Map<GameId, SessionView>,
    /// The session each player is assigned to.
    pub assignment: Map<PlayerId, GameId>,
}

impl DirectoryView {
    /// The invariant of the directory: every session is stored under its own id
    /// and satisfies the invariant of sessions.
    pub open spec fn wf(self) -> bool {
        forall|game: GameId| #[trigger]
            self.sessions.contains_key(game) ==> self.sessions[game].id == game
                && self.sessions[game].wf()
    }

    /// An empty directory.
    pub open spec fn empty() -> DirectoryView {
        DirectoryView { sessions: Map::empty(), assignment: Map::empty() }
    }

    /// The session `player` is assigned to, if any.
    pub open spec fn session_for(self, player: PlayerId) -> Option<GameId> {
        if self.assignment.contains_key(player) {
            Some(self.assignment[player])
        } else {
            None
        }
    }

    /// Whether `player` is assigned to `game`.
    pub open spec fn is_assigned(self, player: PlayerId, game: GameId) -> bool {
        self.assignment.contains_key(player) && self.assignment[player] == game
    }

    /// The session that the messages of `player` are routed to: the one it is
    /// assigned to, if that session exists.
    pub open spec fn routed(self, player: PlayerId) -> Option<SessionView> {
        if self.assignment.contains_key(player) && self.sessions.contains_key(
            self.assignment[player],
        ) {
            Some(self.sessions[self.assignment[player]])
        } else {
            None
        }
    }

    /// Whether `game` exists and neither of its players is assigned to it.
    pub open spec fn is_abandoned(self, game: GameId) -> bool {
        self.sessions.contains_key(game) && !self.is_assigned(self.sessions[game].player1, game)
            && !self.is_assigned(self.sessions[game].player2, game)
    }

    /// The directory with `session` stored under its id.
    pub open spec fn with_session(self, session: SessionView) -> DirectoryView {
        DirectoryView { sessions: self.sessions.insert(session.id, session), ..self }
    }

    /// The directory without the session `game`.
    pub open spec fn without_session(self, game: GameId) -> DirectoryView {
        DirectoryView { sessions: self.sessions.remove(game), ..self }
    }

    /// The directory after `player` was unregistered: its assignment is gone,
    /// and so is its session if the other player is not assigned to it either.
    pub open spec fn after_unregister(self, player: PlayerId) -> DirectoryView {
        let released = DirectoryView { assignment: self.assignment.remove(player), ..self };
        if self.assignment.contains_key(player) && released.is_abandoned(self.assignment[player]) {
            released.without_session(self.assignment[player])
        } else {
            released
        }
    }

    /// The directory after `session` was registered: both players are taken out
    /// of whatever session they were assigned to, the session is stored, and
    /// both players are assigned to it.
    pub open spec fn after_register(self, session: SessionView) -> DirectoryView {
        let cleared = self.after_unregister(session.player1).after_unregister(session.player2);
        DirectoryView {
            sessions: cleared.sessions.insert(session.id, session),
            assignment: cleared.assignment.insert(session.player1, session.id).insert(
                session.player2,
                session.id,
            ),
        }
    }
}

/// Maps session ids to sessions, and player ids to session ids.
#[derive(Debug)]
pub struct SessionDirectory {
    games: HashMap<GameId, GameSession>,
    player_to_game: HashMap<PlayerId, GameId>,
}

impl View for SessionDirectory {
    type V = DirectoryView;

    closed spec fn view(&self) -> DirectoryView {
        DirectoryView {
            sessions: Map::new(
                |game: GameId| self.games@.contains_key(game),
                |game: GameId| self.games@[game]@,
            ),
            assignment: self.player_to_game@,
        }
    }
}

impl SessionDirectory {
    /// Whether the directory satisfies its invariant.
    pub open spec fn wf(&self) -> bool {
        self@.wf()
    }

    /// An empty directory.
    pub fn new() -> (directory: Self)
        ensures
            directory.wf(),
            directory@ == DirectoryView::empty(),
    {
        let directory = SessionDirectory { games: HashMap::new(), player_to_game: HashMap::new() };
        assert(directory@.sessions =~= Map::empty());
        directory
    }

    /// Stores `session` and assigns both of its players to it, after taking
    /// them out of the sessions they were assigned to before.
    pub fn register(&mut self, session: GameSession)
        requires
            old(self).wf(),
            session.wf(),
        ensures
            final(self).wf(),
            final(self)@ == old(self)@.after_register(session@),
    {
        let game = session.id();
        let player1 = session.player1().id;
        let player2 = session.player2().id;
        self.unregister(player1);
        self.unregister(player2);
        let ghost cleared = self@;
        self.games.insert(game, session);
        self.player_to_game.insert(player1, game);
        self.player_to_game.insert(player2, game);
        assert(self@.sessions =~= cleared.sessions.insert(game, session@));
    }

    /// The session `player` is assigned to, if any.
    pub fn session_for(&self, player: PlayerId) -> (game: Option<GameId>)
        ensures
            game == self@.session_for(player),
    {
        match self.player_to_game.get(&player) {
            Some(game) => Some(*game),
            None => None,
        }
    }

    /// The session stored under `game`, if any.
    pub fn session(&self, game: GameId) -> (session: Option<&GameSession>)
        ensures
            match session {
                Some(s) => self@.sessions.contains_key(game) && s@ == self@.sessions[game]
                    && s.created_at() == self@.sessions[game].created,
                None => !self@.sessions.contains_key(game),
            },
    {
        self.games.get(&game)
    }

    /// Whether `player` is assigned to `game`.
    pub fn is_assigned(&self, player: PlayerId, game: GameId) -> (assigned: bool)
        ensures
            assigned == self@.is_assigned(player, game),
    {
        match self.player_to_game.get(&player) {
            Some(g) => *g == game,
            None => false,
        }
    }

    /// Removes the assignment of `player`.  Its session stays for the other
    /// player, and goes with this one if the other is not assigned to it.
    pub fn unregister(&mut self, player: PlayerId)
        requires
            old(self).wf(),
        ensures
            final(self).wf(),
            final(self)@ == old(self)@.after_unregister(player),
    {
        let game = match self.player_to_game.remove(&player) {
            Some(game) => game,
            None => {
                assert(self@.assignment =~= old(self)@.assignment);
                return ;
            },
        };
        let abandoned = match self.games.get(&game) {
            Some(session) => !self.is_assigned(session.player1().id, game) && !self.is_assigned(
                session.player2().id,
                game,
            ),
            None => false,
        };
        if abandoned {
            self.games.remove(&game);
            assert(self@.sessions =~= old(self)@.sessions.remove(game));
        }
    }

    /// Takes the session stored under `game` out of the directory, to be put
    /// back after it has handled an event.
    pub(crate) fn take(&mut self, game: GameId) -> (session: Option<GameSession>)
        requires
            old(self).wf(),
        ensures
            final(self).wf(),
            final(self)@ == old(self)@.without_session(game),
            match session {
                Some(s) => old(self)@.sessions.contains_key(game) && s@ == old(self)@.sessions[game]
                    && s.created_at() == old(self)@.sessions[game].created && s.wf() && s@.id
                    == game,
                None => !old(self)@.sessions.contains_key(game),
            },
    {
        let session = self.games.remove(&game);
        assert(self@.sessions =~= old(self)@.sessions.remove(game));
        session
    }

    /// Stores `session` under its id.
    pub(crate) fn put(&mut self, session: GameSession)
        requires
            old(self).wf(),
            session.wf(),
        ensures
            final(self).wf(),
            final(self)@ == old(self)@.with_session(session@),
    {
        let game = session.id();
        self.games.insert(game, session);
        assert(self@.sessions =~= old(self)@.sessions.insert(game, session@));
    }
}

/// A player is assigned to at most one session at any time.
pub proof fn lemma_at_most_one_session(
    directory: DirectoryView,
    player: PlayerId,
    a: GameId,
    b: GameId,
)
    requires
        directory.is_assigned(player, a),
        directory.is_assigned(player, b),
    ensures
        a == b,
        directory.session_for(player) == Some(a),
{
}

/// Registering a session assigns both of its players to it and to no other
/// session, stores the session, and leaves the assignment of everyone else alone.
pub proof fn lemma_register_assigns_both_players(directory: DirectoryView, session: SessionView)
    requires
        directory.wf(),
        session.wf(),
    ensures
        directory.after_register(session).wf(),
        directory.after_register(session).session_for(session.player1) == Some(session.id),
        directory.after_register(session).session_for(session.player2) == Some(session.id),
        directory.after_register(session).routed(session.player1) == Some(session),
        directory.after_register(session).routed(session.player2) == Some(session),
        forall|other: PlayerId|
            other != session.player1 && other != session.player2 ==> #[trigger] directory.after_register(
                session,
            ).session_for(other) == directory.session_for(other),
{
    lemma_unregister_keeps_invariant(directory, session.player1);
    lemma_unregister_keeps_invariant(
        directory.after_unregister(session.player1),
        session.player2,
    );
}

/// Unregistering a player removes its assignment and nobody else's, and keeps
/// every session but, at most, the one the player was assigned to.
pub proof fn lemma_unregister_keeps_invariant(directory: DirectoryView, player: PlayerId)
    requires
        directory.wf(),
    ensures
        directory.after_unregister(player).wf(),
        directory.after_unregister(player).session_for(player).is_none(),
        forall|other: PlayerId|
            other != player ==> #[trigger] directory.after_unregister(player).session_for(other)
                == directory.session_for(other),
        forall|game: GameId|
            directory.session_for(player) != Some(game) ==> (
            #[trigger] directory.after_unregister(player).sessions.contains_key(game)
                <==> directory.sessions.contains_key(game)),
        forall|game: GameId| #[trigger]
            directory.after_unregister(player).sessions.contains_key(game)
                ==> directory.sessions.contains_key(game) && directory.after_unregister(
                player,
            ).sessions[game] == directory.sessions[game],
{
}

} // verus!
