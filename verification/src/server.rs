//! The server as a whole: registry, matchmaking queue and session directory,
//! and the handler that routes every client message to the right place.

use crate::directory::{DirectoryView, SessionDirectory};
use crate::ids::is_random_uuid;
use crate::protocol::{to, ClientMessage, Delivery, GameId, PlayerId, ServerMessage};
use crate::queue::{enqueued, without, MatchmakingQueue};
use crate::registry::PlayerRegistry;
use crate::session::{GameSession, Player, SessionPhase, SessionView, TickOutcome, TimerStep};
use vstd::prelude::*;

verus! {

/// What the server does in answer to an event.
#[derive(Debug, Clone, PartialEq, Eq)]
pub struct Reaction {
    /// The messages to send, in this order.
    pub deliveries: Vec<Delivery>,
    /// The session whose countdown has to be started, if any.
    pub start_timer: Option<GameId>,
}

/// The mathematical content of the server.
pub struct ServerView {
    /// The registered players.
    pub players: Set<PlayerId>,
    /// The waiting players, oldest first.
    pub queue: Seq<PlayerId>,
    /// The sessions and the assignment of players to them.
    pub directory: DirectoryView,
}

/// No messages.
pub open spec fn nothing() -> Seq<Delivery> {
    Seq::empty()
}

/// The notice that the opponent gets for a gameplay message that is relayed
/// as it is: a swap, garbage, a special or a booster.
pub open spec fn relayed_notice(msg: ClientMessage) -> Option<ServerMessage> {
    match msg {
        ClientMessage::SwapGems { row1, col1, row2, col2 } => Some(
            ServerMessage::OpponentSwap { row1, col1, row2, col2 },
        ),
        ClientMessage::SendGarbage { amount } => Some(ServerMessage::ReceiveGarbage { amount }),
        ClientMessage::ActivateSpecial { row, col } => Some(
            ServerMessage::OpponentActivatedSpecial { row, col },
        ),
        ClientMessage::ActivateBooster { booster_id } => Some(
            ServerMessage::OpponentActivatedBooster { booster_id },
        ),
        _ => None,
    }
}

/// A session that was created in answer to an event.
pub struct Started {
    /// The id that was drawn for it.
    pub id: GameId,
    /// The instant at which it was created.
    pub created: std::time::Instant,
}

/// What the two players of a new session are told: who the opponent is.
pub open spec fn match_found_notices(session: SessionView) -> Seq<Delivery> {
    seq![
        to(
            session.player1,
            ServerMessage::MatchFound { game_id: session.id, opponent_id: session.player2 },
        ),
        to(
            session.player2,
            ServerMessage::MatchFound { game_id: session.id, opponent_id: session.player1 },
        ),
    ]
}

impl ServerView {
    /// The invariant of the server: no player waits twice, two waiting players
    /// are never left unpaired, the directory is in order, every session holds
    /// its players until it is terminated, and no player plays in two sessions.
    pub open spec fn wf(self) -> bool {
        &&& self.queue.no_duplicates()
        &&& self.queue.len() <= 1
        &&& self.directory.wf()
        &&& self.sessions_hold_their_players()
        &&& self.one_active_session_each()
    }

    /// Both players of a session are assigned to it for as long as it is not
    /// terminated, and no longer: a session is terminated by the departure of a
    /// player, who then loses its assignment.
    pub open spec fn sessions_hold_their_players(self) -> bool {
        forall|game: GameId| #[trigger]
            self.directory.sessions.contains_key(game) ==> (self.directory.sessions[game].phase
                != SessionPhase::Terminated <==> self.directory.is_assigned(
                self.directory.sessions[game].player1,
                game,
            ) && self.directory.is_assigned(self.directory.sessions[game].player2, game))
    }

    /// No player is one of the two players of two sessions whose active flag
    /// is set.
    pub open spec fn one_active_session_each(self) -> bool {
        forall|player: PlayerId, a: GameId, b: GameId|
            self.directory.sessions.contains_key(a) && self.directory.sessions.contains_key(b)
                && #[trigger] self.directory.sessions[a].plays(player)
                && #[trigger] self.directory.sessions[b].plays(player) ==> a == b
    }

    /// The session that an event created, as the server now holds it.
    pub open spec fn started(self, timer: Option<GameId>) -> Option<Started> {
        match timer {
            Some(id) => Some(Started { id, created: self.directory.sessions[id].created }),
            None => None,
        }
    }

    /// A server without players or sessions.
    pub open spec fn empty() -> ServerView {
        ServerView {
            players: Set::empty(),
            queue: Seq::empty(),
            directory: DirectoryView::empty(),
        }
    }

    /// The server with `session` stored in place of the session of that id.
    pub open spec fn with_session(self, session: SessionView) -> ServerView {
        ServerView { directory: self.directory.with_session(session), ..self }
    }

    /// The server after `player` was registered.
    pub open spec fn after_add_player(self, player: PlayerId) -> ServerView {
        ServerView { players: self.players.insert(player), ..self }
    }

    /// The server after the session of `player`, if it has one, learnt that the
    /// player is gone.
    pub open spec fn after_departure(self, player: PlayerId) -> ServerView {
        match self.directory.routed(player) {
            Some(session) => self.with_session(session.after_departure(player)),
            None => self,
        }
    }

    /// What the departure of `player` sends: `notice` to the opponent in its
    /// session, if that session is not terminated yet.
    pub open spec fn departure_notices(self, player: PlayerId, notice: ServerMessage) -> Seq<
        Delivery,
    > {
        match self.directory.routed(player) {
            Some(session) => session.departure_notices(player, notice),
            None => nothing(),
        }
    }

    /// The server after the cleanup for a player who left or whose connection is
    /// gone: the player is out of the registry and out of the queue, its session
    /// is terminated, and its assignment is removed.
    pub open spec fn after_remove_player(self, player: PlayerId) -> ServerView {
        let ended = self.after_departure(player);
        ServerView {
            players: self.players.remove(player),
            queue: without(self.queue, player),
            directory: ended.directory.after_unregister(player),
        }
    }

    /// Whether two players can be matched: both are registered.
    pub open spec fn can_match(self, first: PlayerId, second: PlayerId) -> bool {
        self.players.contains(first) && self.players.contains(second)
    }

    /// The server after `session` was started as a match: each of its players
    /// has left the session it was in before, and the new session is started and
    /// registered.  A session that was started before is not taken.
    pub open spec fn with_match(self, session: SessionView) -> ServerView {
        if session.phase == SessionPhase::AwaitingStart {
            let left = self.after_departure(session.player1).after_departure(session.player2);
            ServerView { directory: left.directory.after_register(session.after_start()), ..self }
        } else {
            self
        }
    }

    /// What starting `session` as a match sends: the opponents that its players
    /// had before are told that they left; then the two are told who the
    /// opponent is, and that the game has started.
    pub open spec fn match_notices(self, session: SessionView) -> Seq<Delivery> {
        if session.phase == SessionPhase::AwaitingStart {
            self.departure_notices(session.player1, ServerMessage::OpponentLeft)
                + self.after_departure(session.player1).departure_notices(
                session.player2,
                ServerMessage::OpponentLeft,
            ) + match_found_notices(session) + session.start_notices()
        } else {
            nothing()
        }
    }

    /// The server after an attempt to match `first` with `second`, where
    /// `started` is the session that was created, if one was.
    pub open spec fn after_create_match(
        self,
        first: PlayerId,
        second: PlayerId,
        started: Option<Started>,
    ) -> ServerView {
        match started {
            Some(new) => self.with_match(SessionView::fresh(new.id, new.created, first, second)),
            None => self,
        }
    }

    /// What an attempt to match `first` with `second` sends.
    pub open spec fn create_match_notices(
        self,
        first: PlayerId,
        second: PlayerId,
        started: Option<Started>,
    ) -> Seq<Delivery> {
        match started {
            Some(new) => self.match_notices(
                SessionView::fresh(new.id, new.created, first, second),
            ),
            None => nothing(),
        }
    }

    /// The pair that is taken out of the queue when `player` joins it: the two
    /// oldest entries, once the newcomer has made them two.
    pub open spec fn pair_on_joining(self, player: PlayerId) -> Option<(PlayerId, PlayerId)> {
        let queue = self.queue.push(player);
        if !self.queue.contains(player) && queue.len() >= 2 {
            Some((queue[0], queue[1]))
        } else {
            None
        }
    }

    /// Whether a session starts when `player` joins the queue.
    pub open spec fn joining_starts_match(self, player: PlayerId) -> bool {
        match self.pair_on_joining(player) {
            Some((first, second)) => self.can_match(first, second),
            None => false,
        }
    }

    /// The queue after `player` asked to join and pairing was done.
    pub open spec fn queue_after_joining(self, player: PlayerId) -> Seq<PlayerId> {
        if self.pair_on_joining(player).is_some() {
            enqueued(self.queue, player).skip(2)
        } else {
            enqueued(self.queue, player)
        }
    }

    /// The server after `player` asked to join the queue.
    pub open spec fn after_join_queue(
        self,
        player: PlayerId,
        started: Option<Started>,
    ) -> ServerView {
        let queued = ServerView { queue: self.queue_after_joining(player), ..self };
        match self.pair_on_joining(player) {
            Some((first, second)) => queued.after_create_match(first, second, started),
            None => queued,
        }
    }

    /// The position sent to a registered player who newly joined the queue.
    pub open spec fn queued_notice(self, player: PlayerId) -> Seq<Delivery> {
        if !self.queue.contains(player) && self.players.contains(player) {
            seq![to(player, ServerMessage::Queued { position: (self.queue.len() + 1) as usize })]
        } else {
            nothing()
        }
    }

    /// What a request of `player` to join the queue sends.
    pub open spec fn join_notices(
        self,
        player: PlayerId,
        started: Option<Started>,
    ) -> Seq<Delivery> {
        self.queued_notice(player) + (match self.pair_on_joining(player) {
            Some((first, second)) => self.create_match_notices(first, second, started),
            None => nothing(),
        })
    }

    /// The server after a message of `player`, where `started` is the session
    /// that was created in answer, if one was.
    pub open spec fn after_message(
        self,
        player: PlayerId,
        msg: ClientMessage,
        started: Option<Started>,
    ) -> ServerView {
        match msg {
            ClientMessage::JoinQueue => self.after_join_queue(player, started),
            ClientMessage::ScoreUpdate { score } => match self.directory.routed(player) {
                Some(session) => self.with_session(session.after_score(player, score)),
                None => self,
            },
            ClientMessage::RequestRematch => match self.directory.routed(player) {
                Some(session) => self.with_session(session.after_rematch_request(player)),
                None => self,
            },
            ClientMessage::LeaveGame => self.after_remove_player(player),
            _ => self,
        }
    }

    /// What a message of `player` sends.
    pub open spec fn message_notices(
        self,
        player: PlayerId,
        msg: ClientMessage,
        started: Option<Started>,
    ) -> Seq<Delivery> {
        match msg {
            ClientMessage::Login { .. } => nothing(),
            ClientMessage::JoinQueue => self.join_notices(player, started),
            ClientMessage::ScoreUpdate { score } => match self.directory.routed(player) {
                Some(session) => session.score_notices(player, score),
                None => nothing(),
            },
            ClientMessage::RequestRematch => match self.directory.routed(player) {
                Some(session) => session.rematch_notices(player),
                None => nothing(),
            },
            ClientMessage::LeaveGame => self.departure_notices(player, ServerMessage::OpponentLeft),
            _ => match (self.directory.routed(player), relayed_notice(msg)) {
                (Some(session), Some(notice)) => session.relay_notices(player, notice),
                _ => nothing(),
            },
        }
    }

    /// The session whose countdown a message of `player` starts: the one just
    /// created by joining the queue, or the one whose rematch fired.
    pub open spec fn timer_after_message(
        self,
        player: PlayerId,
        msg: ClientMessage,
        started: Option<GameId>,
    ) -> Option<GameId> {
        match msg {
            ClientMessage::JoinQueue => started,
            ClientMessage::RequestRematch => match self.directory.routed(player) {
                Some(session) => if session.rematch_fires(player) {
                    Some(session.id)
                } else {
                    None
                },
                None => None,
            },
            _ => None,
        }
    }

    /// The server after a timer tick for the session `game`.
    pub open spec fn after_tick(self, game: GameId) -> ServerView {
        if self.directory.sessions.contains_key(game) {
            self.with_session(self.directory.sessions[game].after_tick())
        } else {
            self
        }
    }

    /// What a timer tick for the session `game` sends.
    pub open spec fn tick_notices(self, game: GameId) -> Seq<Delivery> {
        if self.directory.sessions.contains_key(game) {
            self.directory.sessions[game].tick_notices()
        } else {
            nothing()
        }
    }

    /// What the timer of the session `game` does after a tick.  The timer of a
    /// session that no longer exists halts.
    pub open spec fn tick_step(self, game: GameId) -> TimerStep {
        if self.directory.sessions.contains_key(game) {
            self.directory.sessions[game].tick_step()
        } else {
            TimerStep::Halted
        }
    }
}

/// The state of the server.
#[derive(Debug)]
pub struct ServerState {
    players: PlayerRegistry,
    directory: SessionDirectory,
    matchmaking_queue: MatchmakingQueue,
}

impl View for ServerState {
    type V = ServerView;

    closed spec fn view(&self) -> ServerView {
        ServerView {
            players: self.players@,
            queue: self.matchmaking_queue@,
            directory: self.directory@,
        }
    }
}

impl ServerState {
    /// Whether the server satisfies its invariant.
    pub open spec fn wf(&self) -> bool {
        self@.wf()
    }

    /// A server without players or sessions.
    pub fn new() -> (state: Self)
        ensures
            state.wf(),
            state@ == ServerView::empty(),
    {
        ServerState {
            players: PlayerRegistry::new(),
            directory: SessionDirectory::new(),
            matchmaking_queue: MatchmakingQueue::new(),
        }
    }

    /// Whether `player_id` is registered.
    pub fn is_connected(&self, player_id: PlayerId) -> (connected: bool)
        ensures
            connected == self@.players.contains(player_id),
    {
        self.players.contains(player_id)
    }

    /// Whether `player_id` waits in the matchmaking queue.
    pub fn is_queued(&self, player_id: PlayerId) -> (queued: bool)
        ensures
            queued == self@.queue.contains(player_id),
    {
        self.matchmaking_queue.contains(player_id)
    }

    /// The number of players waiting in the matchmaking queue.
    pub fn queue_len(&self) -> (n: usize)
        ensures
            n == self@.queue.len(),
    {
        self.matchmaking_queue.len()
    }

    /// The session `player_id` is assigned to, if any.
    pub fn session_for(&self, player_id: PlayerId) -> (game: Option<GameId>)
        ensures
            game == self@.directory.session_for(player_id),
    {
        self.directory.session_for(player_id)
    }

    /// The session stored under `game_id`, if any.
    pub fn session(&self, game_id: GameId) -> (session: Option<&GameSession>)
        ensures
            match session {
                Some(s) => self@.directory.sessions.contains_key(game_id) && s@
                    == self@.directory.sessions[game_id] && s.created_at()
                    == self@.directory.sessions[game_id].created,
                None => !self@.directory.sessions.contains_key(game_id),
            },
    {
        self.directory.session(game_id)
    }

    /// Registers a player who has logged in, and confirms the connection to it.
    pub fn add_player(&mut self, player: Player) -> (out: Vec<Delivery>)
        requires
            old(self).wf(),
        ensures
            final(self).wf(),
            final(self)@ == old(self)@.after_add_player(player.id),
            out@ == seq![to(player.id, ServerMessage::Connected { player_id: player.id })],
    {
        self.players.add(player)
    }

    /// Takes the session that the messages of `player` are routed to out of
    /// the directory.
    fn take_routed(&mut self, player: PlayerId) -> (session: Option<GameSession>)
        requires
            old(self)@.directory.wf(),
        ensures
            final(self)@.directory.wf(),
            match session {
                Some(s) => old(self)@.directory.routed(player) == Some(s@) && s.wf()
                    && final(self)@ == (ServerView {
                    directory: old(self)@.directory.without_session(s@.id),
                    ..old(self)@
                }),
                None => old(self)@.directory.routed(player).is_none() && final(self)@ == old(self)@,
            },
    {
        match self.directory.session_for(player) {
            Some(game) => {
                let session = self.directory.take(game);
                proof {
                    if session.is_none() {
                        assert(self@.directory.sessions =~= old(self)@.directory.sessions);
                    }
                }
                session
            },
            None => None,
        }
    }

    /// Puts a session back that `take_routed` took out.
    fn put_back(&mut self, session: GameSession, Ghost(before): Ghost<ServerView>)
        requires
            old(self)@.directory.wf(),
            session.wf(),
            old(self)@ == (ServerView {
                directory: before.directory.without_session(session@.id),
                ..before
            }),
        ensures
            final(self)@.directory.wf(),
            final(self)@ == before.with_session(session@),
    {
        self.directory.put(session);
        assert(self@.directory.sessions =~= before.directory.sessions.insert(
            session@.id,
            session@,
        ));
    }

    /// Tells the session of `player`, if it has one, that the player is gone.
    /// The assignment of the player is left to the caller.
    fn end_session_of(&mut self, player: PlayerId, notice: ServerMessage) -> (out: Vec<Delivery>)
        requires
            old(self)@.directory.wf(),
        ensures
            final(self)@.directory.wf(),
            final(self)@ == old(self)@.after_departure(player),
            out@ == old(self)@.departure_notices(player, notice),
    {
        let ghost before = self@;
        match self.take_routed(player) {
            Some(mut session) => {
                let out = session.end_for(player, notice);
                self.put_back(session, Ghost(before));
                out
            },
            None => Vec::new(),
        }
    }

    /// Takes a player out of the registry and the queue, terminates its session
    /// with `notice` to the opponent, and removes its assignment.
    fn depart(&mut self, player_id: PlayerId, notice: ServerMessage) -> (out: Vec<Delivery>)
        requires
            old(self).wf(),
        ensures
            final(self).wf(),
            final(self)@ == old(self)@.after_remove_player(player_id),
            out@ == old(self)@.departure_notices(player_id, notice),
    {
        self.players.remove(player_id);
        self.matchmaking_queue.remove_if_present(player_id);
        let out = self.end_session_of(player_id, notice);
        self.directory.unregister(player_id);
        proof {
            lemma_removal_keeps_invariant(old(self)@, player_id);
        }
        out
    }

    /// The cleanup for a player whose connection is gone: takes it out of the
    /// registry and the queue, terminates its session with a notice to the
    /// opponent, and removes its assignment.  For a player who is not there it
    /// does nothing.
    pub fn remove_player(&mut self, player_id: PlayerId) -> (out: Vec<Delivery>)
        requires
            old(self).wf(),
        ensures
            final(self).wf(),
            final(self)@ == old(self)@.after_remove_player(player_id),
            out@ == old(self)@.departure_notices(player_id, ServerMessage::OpponentDisconnected),
    {
        self.depart(player_id, ServerMessage::OpponentDisconnected)
    }

    /// Starts `session` as a match.  Each of its players first leaves the
    /// session it was in, with a notice to the opponent it had there; then the
    /// two are told that they are matched and that the game has started, and the
    /// session is registered.  A session that was started before is not taken:
    /// nothing happens.
    pub fn start_match(&mut self, session: GameSession) -> (reaction: Reaction)
        requires
            old(self).wf(),
            session.wf(),
        ensures
            final(self).wf(),
            final(self)@ == old(self)@.with_match(session@),
            reaction.deliveries@ == old(self)@.match_notices(session@),
            reaction.start_timer == if session@.phase == SessionPhase::AwaitingStart {
                Some(session@.id)
            } else {
                None
            },
            reaction.start_timer.is_some() ==> final(self)@.directory.sessions.contains_key(
                session@.id,
            ) && final(self)@.directory.sessions[session@.id].created == session.created_at(),
    {
        let mut session = session;
        match session.phase() {
            SessionPhase::AwaitingStart => {},
            _ => {
                return Reaction { deliveries: Vec::new(), start_timer: None };
            },
        }
        let game_id = session.id();
        let first_id = session.player1().id;
        let second_id = session.player2().id;
        let mut out = self.end_session_of(first_id, ServerMessage::OpponentLeft);
        let mut more = self.end_session_of(second_id, ServerMessage::OpponentLeft);
        out.append(&mut more);
        out.push(
            Delivery {
                to: first_id,
                message: ServerMessage::MatchFound { game_id, opponent_id: second_id },
            },
        );
        out.push(
            Delivery {
                to: second_id,
                message: ServerMessage::MatchFound { game_id, opponent_id: first_id },
            },
        );
        let ghost fresh = session@;
        let mut started = session.start();
        out.append(&mut started);
        self.directory.register(session);
        proof {
            lemma_match_keeps_invariant(old(self)@, fresh);
            assert(out@ == old(self)@.match_notices(fresh));
        }
        Reaction { deliveries: out, start_timer: Some(game_id) }
    }

    /// Creates a session for two players under a fresh id and starts it as a
    /// match, if both are registered.  If one of them is not, nothing happens.
    pub fn create_match(&mut self, first_id: PlayerId, second_id: PlayerId) -> (reaction: Reaction)
        requires
            old(self).wf(),
        ensures
            final(self).wf(),
            reaction.start_timer.is_some() == old(self)@.can_match(first_id, second_id),
            reaction.start_timer matches Some(id) ==> is_random_uuid(id),
            final(self)@ == old(self)@.after_create_match(
                first_id,
                second_id,
                final(self)@.started(reaction.start_timer),
            ),
            reaction.deliveries@ == old(self)@.create_match_notices(
                first_id,
                second_id,
                final(self)@.started(reaction.start_timer),
            ),
    {
        if self.players.contains(first_id) && self.players.contains(second_id) {
            let session = GameSession::new(Player { id: first_id }, Player { id: second_id });
            self.start_match(session)
        } else {
            Reaction { deliveries: Vec::new(), start_timer: None }
        }
    }

    /// Puts `player_id` into the matchmaking queue and tells it its position.
    /// As soon as two players wait, the two are taken out and matched.  A
    /// player who already waits is ignored.
    pub fn join_queue(&mut self, player_id: PlayerId) -> (reaction: Reaction)
        requires
            old(self).wf(),
        ensures
            final(self).wf(),
            reaction.start_timer.is_some() == old(self)@.joining_starts_match(player_id),
            reaction.start_timer matches Some(id) ==> is_random_uuid(id),
            final(self)@ == old(self)@.after_join_queue(
                player_id,
                final(self)@.started(reaction.start_timer),
            ),
            reaction.deliveries@ == old(self)@.join_notices(
                player_id,
                final(self)@.started(reaction.start_timer),
            ),
    {
        let mut out: Vec<Delivery> = Vec::new();
        let position = match self.matchmaking_queue.enqueue(player_id) {
            Some(position) => position,
            None => {
                return Reaction { deliveries: out, start_timer: None };
            },
        };
        if self.players.contains(player_id) {
            out.push(Delivery { to: player_id, message: ServerMessage::Queued { position } });
        }
        match self.matchmaking_queue.take_pair() {
            Some((first_id, second_id)) => {
                proof {
                    crate::queue::lemma_skip_keeps_distinct(
                        enqueued(old(self)@.queue, player_id),
                        2,
                    );
                }
                let mut reaction = self.create_match(first_id, second_id);
                out.append(&mut reaction.deliveries);
                Reaction { deliveries: out, start_timer: reaction.start_timer }
            },
            None => {
                proof {
                    assert(out@ == old(self)@.join_notices(player_id, None));
                }
                Reaction { deliveries: out, start_timer: None }
            },
        }
    }

    /// Hands a score report to the session that `player_id` is routed to.
    fn report_score(&mut self, player_id: PlayerId, score: u32) -> (out: Vec<Delivery>)
        requires
            old(self).wf(),
        ensures
            final(self).wf(),
            final(self)@ == old(self)@.after_message(
                player_id,
                ClientMessage::ScoreUpdate { score },
                None,
            ),
            out@ == old(self)@.message_notices(
                player_id,
                ClientMessage::ScoreUpdate { score },
                None,
            ),
    {
        let ghost before = self@;
        match self.take_routed(player_id) {
            Some(mut game) => {
                let out = game.update_score(player_id, score);
                self.put_back(game, Ghost(before));
                proof {
                    lemma_session_event_keeps_invariant(before, game@);
                }
                out
            },
            None => Vec::new(),
        }
    }

    /// Hands a rematch request to the session that `player_id` is routed to.
    fn request_rematch(&mut self, player_id: PlayerId) -> (reaction: Reaction)
        requires
            old(self).wf(),
        ensures
            final(self).wf(),
            final(self)@ == old(self)@.after_message(
                player_id,
                ClientMessage::RequestRematch,
                None,
            ),
            reaction.deliveries@ == old(self)@.message_notices(
                player_id,
                ClientMessage::RequestRematch,
                None,
            ),
            reaction.start_timer == old(self)@.timer_after_message(
                player_id,
                ClientMessage::RequestRematch,
                None,
            ),
    {
        let ghost before = self@;
        match self.take_routed(player_id) {
            Some(mut game) => {
                let outcome = game.handle_rematch_request(player_id);
                let start_timer = if outcome.restarted {
                    Some(game.id())
                } else {
                    None
                };
                self.put_back(game, Ghost(before));
                proof {
                    lemma_session_event_keeps_invariant(before, game@);
                }
                Reaction { deliveries: outcome.deliveries, start_timer }
            },
            None => Reaction { deliveries: Vec::new(), start_timer: None },
        }
    }

    /// Handles one message of a logged-in player.  Gameplay messages go to the
    /// session the player is assigned to, and are dropped if it has none.  A
    /// login request from a player who is logged in already is ignored.
    pub fn handle_client_message(&mut self, player_id: PlayerId, msg: ClientMessage) -> (reaction:
        Reaction)
        requires
            old(self).wf(),
        ensures
            final(self).wf(),
            final(self)@ == old(self)@.after_message(
                player_id,
                msg,
                final(self)@.started(reaction.start_timer),
            ),
            reaction.deliveries@ == old(self)@.message_notices(
                player_id,
                msg,
                final(self)@.started(reaction.start_timer),
            ),
            reaction.start_timer == old(self)@.timer_after_message(
                player_id,
                msg,
                reaction.start_timer,
            ),
            msg is JoinQueue ==> reaction.start_timer.is_some() == old(self)@.joining_starts_match(
                player_id,
            ),
            msg is JoinQueue ==> (reaction.start_timer matches Some(id) ==> is_random_uuid(id)),
    {
        match msg {
            ClientMessage::Login { .. } => Reaction { deliveries: Vec::new(), start_timer: None },
            ClientMessage::JoinQueue => self.join_queue(player_id),
            ClientMessage::SwapGems { row1, col1, row2, col2 } => {
                let out = match self.directory.session_for(player_id) {
                    Some(game_id) => match self.directory.session(game_id) {
                        Some(game) => game.handle_swap(player_id, row1, col1, row2, col2),
                        None => Vec::new(),
                    },
                    None => Vec::new(),
                };
                Reaction { deliveries: out, start_timer: None }
            },
            ClientMessage::ScoreUpdate { score } => {
                let out = self.report_score(player_id, score);
                Reaction { deliveries: out, start_timer: None }
            },
            ClientMessage::SendGarbage { amount } => {
                let out = self.relay(player_id, ServerMessage::ReceiveGarbage { amount });
                Reaction { deliveries: out, start_timer: None }
            },
            ClientMessage::ActivateSpecial { row, col } => {
                let out = self.relay(
                    player_id,
                    ServerMessage::OpponentActivatedSpecial { row, col },
                );
                Reaction { deliveries: out, start_timer: None }
            },
            ClientMessage::ActivateBooster { booster_id } => {
                let out = self.relay(
                    player_id,
                    ServerMessage::OpponentActivatedBooster { booster_id },
                );
                Reaction { deliveries: out, start_timer: None }
            },
            ClientMessage::RequestRematch => self.request_rematch(player_id),
            ClientMessage::LeaveGame => {
                let out = self.depart(player_id, ServerMessage::OpponentLeft);
                Reaction { deliveries: out, start_timer: None }
            },
        }
    }

    /// Relays `notice` from `from` to its opponent in the session it is
    /// assigned to.
    fn relay(&self, from: PlayerId, notice: ServerMessage) -> (out: Vec<Delivery>)
        requires
            self.wf(),
        ensures
            out@ == (match self@.directory.routed(from) {
                Some(session) => session.relay_notices(from, notice),
                None => nothing(),
            }),
    {
        match self.directory.session_for(from) {
            Some(game_id) => match self.directory.session(game_id) {
                Some(game) => game.relay(from, notice),
                None => Vec::new(),
            },
            None => Vec::new(),
        }
    }

    /// One tick of the countdown of the session `game_id`.
    pub fn tick(&mut self, game_id: GameId) -> (outcome: TickOutcome)
        requires
            old(self).wf(),
        ensures
            final(self).wf(),
            final(self)@ == old(self)@.after_tick(game_id),
            outcome.deliveries@ == old(self)@.tick_notices(game_id),
            outcome.step == old(self)@.tick_step(game_id),
    {
        match self.directory.take(game_id) {
            Some(mut game) => {
                let outcome = game.timer_tick();
                self.directory.put(game);
                assert(self@.directory.sessions =~= old(self)@.directory.sessions.insert(
                    game_id,
                    game@,
                ));
                proof {
                    lemma_session_event_keeps_invariant(old(self)@, game@);
                }
                outcome
            },
            None => {
                assert(self@.directory.sessions =~= old(self)@.directory.sessions);
                TickOutcome { deliveries: Vec::new(), step: TimerStep::Halted }
            },
        }
    }
}

/// An event of a session that neither terminates it nor changes its players
/// keeps the invariant of the server.
pub proof fn lemma_session_event_keeps_invariant(s: ServerView, after: SessionView)
    requires
        s.wf(),
        after.wf(),
        s.directory.sessions.contains_key(after.id),
        after.player1 == s.directory.sessions[after.id].player1,
        after.player2 == s.directory.sessions[after.id].player2,
        after.phase == SessionPhase::Terminated <==> s.directory.sessions[after.id].phase
            == SessionPhase::Terminated,
    ensures
        s.with_session(after).wf(),
{
    let t = s.with_session(after);
    assert forall|game: GameId| #[trigger] t.directory.sessions.contains_key(game) implies (
    t.directory.sessions[game].phase != SessionPhase::Terminated <==> t.directory.is_assigned(
        t.directory.sessions[game].player1,
        game,
    ) && t.directory.is_assigned(t.directory.sessions[game].player2, game)) by {
        assert(s.directory.sessions.contains_key(game));
    }
    lemma_players_play_once(t);
}

/// Where every session that is not terminated has both players assigned to
/// it, no player plays in two sessions.
pub proof fn lemma_players_play_once(s: ServerView)
    requires
        s.sessions_hold_their_players(),
    ensures
        s.one_active_session_each(),
{
    assert forall|player: PlayerId, a: GameId, b: GameId|
        s.directory.sessions.contains_key(a) && s.directory.sessions.contains_key(b)
            && #[trigger] s.directory.sessions[a].plays(player)
            && #[trigger] s.directory.sessions[b].plays(player) implies a == b by {
        assert(s.directory.is_assigned(player, a));
        assert(s.directory.is_assigned(player, b));
    }
}

/// The cleanup for a player keeps the invariant of the server.
pub proof fn lemma_removal_keeps_invariant(s: ServerView, player: PlayerId)
    requires
        s.wf(),
    ensures
        s.after_remove_player(player).wf(),
{
    let left = s.after_departure(player);
    let t = s.after_remove_player(player);
    crate::queue::lemma_without_keeps_distinct(s.queue, player);
    assert(left.directory.wf());
    crate::directory::lemma_unregister_keeps_invariant(left.directory, player);
    assert forall|game: GameId| #[trigger] t.directory.sessions.contains_key(game) implies (
    t.directory.sessions[game].phase != SessionPhase::Terminated <==> t.directory.is_assigned(
        t.directory.sessions[game].player1,
        game,
    ) && t.directory.is_assigned(t.directory.sessions[game].player2, game)) by {
        assert(left.directory.sessions.contains_key(game));
        assert(s.directory.sessions.contains_key(game));
        assert(t.directory.sessions[game] == left.directory.sessions[game]);
    }
    lemma_players_play_once(t);
}

/// Starting a match keeps the invariant of the server: the sessions that the
/// two players were in are terminated, and the new one holds them both.
pub proof fn lemma_match_keeps_invariant(s: ServerView, session: SessionView)
    requires
        s.wf(),
        session.wf(),
    ensures
        s.with_match(session).wf(),
{
    if session.phase == SessionPhase::AwaitingStart {
        let first = session.player1;
        let second = session.player2;
        let left1 = s.after_departure(first);
        let left2 = left1.after_departure(second);
        let t = s.with_match(session);
        assert(left1.directory.wf());
        assert(left2.directory.wf());
        crate::directory::lemma_unregister_keeps_invariant(left2.directory, first);
        let cleared1 = left2.directory.after_unregister(first);
        crate::directory::lemma_unregister_keeps_invariant(cleared1, second);
        crate::directory::lemma_register_assigns_both_players(
            left2.directory,
            session.after_start(),
        );
        assert forall|game: GameId| #[trigger] t.directory.sessions.contains_key(game) implies (
        t.directory.sessions[game].phase != SessionPhase::Terminated <==> t.directory.is_assigned(
            t.directory.sessions[game].player1,
            game,
        ) && t.directory.is_assigned(t.directory.sessions[game].player2, game)) by {
            if game != session.id {
                assert(cleared1.after_unregister(second).sessions.contains_key(game));
                assert(cleared1.sessions.contains_key(game));
                assert(left2.directory.sessions.contains_key(game));
                assert(left1.directory.sessions.contains_key(game));
                assert(s.directory.sessions.contains_key(game));
                assert(t.directory.sessions[game] == left2.directory.sessions[game]);
            }
        }
        lemma_players_play_once(t);
    }
}

/// No player is one of the two players of two sessions whose active flag is
/// set, and a player of a session that is not terminated is routed to it.
pub proof fn lemma_one_active_session_per_player(
    s: ServerView,
    player: PlayerId,
    a: GameId,
    b: GameId,
)
    requires
        s.wf(),
        s.directory.sessions.contains_key(a),
        s.directory.sessions.contains_key(b),
        s.directory.sessions[a].has_player(player),
        s.directory.sessions[b].has_player(player),
        s.directory.sessions[a].phase != SessionPhase::Terminated,
        s.directory.sessions[b].phase != SessionPhase::Terminated,
    ensures
        a == b,
        s.directory.routed(player) == Some(s.directory.sessions[a]),
{
}

/// Two registered players without a session who join an empty queue one after
/// the other are matched at once.  The first is told that it waits at position
/// 1.  When the second joins, it is told its position and then both are told
/// that a match was found, each with the other as its opponent, and that the
/// game has started.  The queue is empty again, and both are routed to the
/// new, active session.
pub proof fn lemma_two_joiners_are_matched(
    s: ServerView,
    first: PlayerId,
    second: PlayerId,
    new: Started,
)
    requires
        s.wf(),
        s.queue.len() == 0,
        first != second,
        s.players.contains(first),
        s.players.contains(second),
        s.directory.routed(first).is_none(),
        s.directory.routed(second).is_none(),
    ensures
        !s.joining_starts_match(first),
        s.join_notices(first, None) == seq![to(first, ServerMessage::Queued { position: 1 })],
        s.after_join_queue(first, None).queue == seq![first],
        s.after_join_queue(first, None).wf(),
        s.after_join_queue(first, None).joining_starts_match(second),
        ({
            let waiting = s.after_join_queue(first, None);
            let matched = waiting.after_join_queue(second, Some(new));
            let session = SessionView::fresh(new.id, new.created, first, second).after_start();
            &&& waiting.join_notices(second, Some(new)) == seq![
                to(second, ServerMessage::Queued { position: 2 }),
                to(first, ServerMessage::MatchFound { game_id: new.id, opponent_id: second }),
                to(second, ServerMessage::MatchFound { game_id: new.id, opponent_id: first }),
                to(first, ServerMessage::GameStarted { game_id: new.id }),
                to(second, ServerMessage::GameStarted { game_id: new.id }),
            ]
            &&& matched.wf()
            &&& matched.queue.len() == 0
            &&& matched.directory.routed(first) == Some(session)
            &&& matched.directory.routed(second) == Some(session)
            &&& session.phase == SessionPhase::Active
            &&& session.scores == (0u32, 0u32)
        }),
{
    let waiting = s.after_join_queue(first, None);
    assert(s.queue.push(first) =~= seq![first]);
    assert(waiting.queue =~= seq![first]);
    assert(!waiting.queue.contains(second));
    let queue = waiting.queue.push(second);
    assert(queue[0] == first && queue[1] == second);
    assert(waiting.pair_on_joining(second) == Some((first, second)));
    assert(queue.skip(2) =~= Seq::<PlayerId>::empty());
    let fresh = SessionView::fresh(new.id, new.created, first, second);
    let queued = ServerView { queue: waiting.queue_after_joining(second), ..waiting };
    assert(queued.after_departure(first) == queued);
    assert(queued.after_departure(first).after_departure(second) == queued);
    lemma_match_keeps_invariant(queued, fresh);
    crate::directory::lemma_register_assigns_both_players(
        queued.directory,
        fresh.after_start(),
    );
    assert(waiting.join_notices(second, Some(new)) =~= seq![
        to(second, ServerMessage::Queued { position: 2 }),
        to(first, ServerMessage::MatchFound { game_id: new.id, opponent_id: second }),
        to(second, ServerMessage::MatchFound { game_id: new.id, opponent_id: first }),
        to(first, ServerMessage::GameStarted { game_id: new.id }),
        to(second, ServerMessage::GameStarted { game_id: new.id }),
    ]);
}

/// When the connection of one of two matched players goes away, the
/// opponent, and nobody else, is told once that it disconnected.  The session
/// is no longer active, the player is in neither registry, queue nor
/// directory, and the next tick of the session's timer halts it without a
/// message.
pub proof fn lemma_disconnect_ends_match(s: ServerView, player: PlayerId, opponent: PlayerId)
    requires
        s.wf(),
        s.directory.routed(player) matches Some(session) && s.directory.routed(opponent) == Some(
            session,
        ) && session.has_player(player) && session.opponent_of(player) == opponent
            && session.has_player(opponent) && session.opponent_of(opponent) == player,
    ensures
        ({
            let session = s.directory.routed(player).unwrap();
            let after = s.after_remove_player(player);
            &&& s.departure_notices(player, ServerMessage::OpponentDisconnected) == seq![
                to(opponent, ServerMessage::OpponentDisconnected),
            ]
            &&& after.wf()
            &&& !after.players.contains(player)
            &&& !after.queue.contains(player)
            &&& after.directory.session_for(player).is_none()
            &&& after.tick_notices(session.id) == nothing()
            &&& after.tick_step(session.id) == TimerStep::Halted
            &&& after.directory.sessions.contains_key(session.id)
                ==> !after.directory.sessions[session.id].is_active()
        }),
{
    let session = s.directory.routed(player).unwrap();
    let ended = s.after_departure(player);
    assert(s.directory.sessions.contains_key(session.id));
    assert(s.directory.is_assigned(session.player1, session.id));
    assert(s.directory.is_assigned(session.player2, session.id));
    crate::queue::lemma_without_keeps_distinct(s.queue, player);
    lemma_removal_keeps_invariant(s, player);
    crate::directory::lemma_unregister_keeps_invariant(ended.directory, player);
    assert(ended.directory.sessions[session.id] == session.after_departure(player));
}

/// Every event keeps the invariant of the server.  In particular the queue
/// never holds two players at rest: the second to arrive is paired at once.
pub proof fn lemma_events_keep_invariant(
    s: ServerView,
    player: PlayerId,
    msg: ClientMessage,
    started: Option<Started>,
    game: GameId,
)
    requires
        s.wf(),
    ensures
        s.after_add_player(player).wf(),
        s.after_remove_player(player).wf(),
        s.after_join_queue(player, started).wf(),
        s.after_message(player, msg, started).wf(),
        s.after_tick(game).wf(),
{
    lemma_removal_keeps_invariant(s, player);
    if s.pair_on_joining(player).is_some() {
        crate::queue::lemma_skip_keeps_distinct(enqueued(s.queue, player), 2);
    }
    let queued = ServerView { queue: s.queue_after_joining(player), ..s };
    assert(queued.wf());
    match (s.pair_on_joining(player), started) {
        (Some((first, second)), Some(new)) => {
            lemma_match_keeps_invariant(
                queued,
                SessionView::fresh(new.id, new.created, first, second),
            );
        },
        _ => {},
    }
    match s.directory.routed(player) {
        Some(session) => {
            match msg {
                ClientMessage::ScoreUpdate { score } => {
                    lemma_session_event_keeps_invariant(s, session.after_score(player, score));
                },
                ClientMessage::RequestRematch => {
                    lemma_session_event_keeps_invariant(s, session.after_rematch_request(player));
                },
                _ => {},
            }
        },
        None => {},
    }
    if s.directory.sessions.contains_key(game) {
        lemma_session_event_keeps_invariant(s, s.directory.sessions[game].after_tick());
    }
}

} // verus!
