//! One match between two players: its scores, countdown, rematch votes and
//! lifecycle.
//!
//! A session moves through `AwaitingStart -> Active -> Over`, may cycle from
//! `Over` through `RematchPending` back to `Active`, and ends in `Terminated` as
//! soon as either player leaves or disconnects.  Gameplay messages are taken
//! while the active flag is set, from creation to the end of the countdown.  An
//! event that has no transition in the current phase, or that comes from a
//! player outside the session, changes nothing and sends nothing.

use crate::ids::{is_random_uuid, random_uuid};
use crate::protocol::{to, Delivery, GameId, GameResult, PlayerId, ServerMessage};
use vstd::prelude::*;

verus! {

/// Length of a game, in timer ticks of one second.
pub const GAME_DURATION: u64 = 90;

/// Declares `std::time::Instant` to the verifier as an opaque type: a session
/// carries the instant of its creation and nothing reads it.
#[verifier::external_type_specification]
#[verifier::external_body]
pub struct ExInstant(std::time::Instant);

/// A connected player as a session refers to it.
#[derive(Debug, Clone, Copy, PartialEq, Eq, Structural)]
pub struct Player {
    pub id: PlayerId,
}

/// Where a session stands in its lifecycle.
#[derive(Debug, Clone, Copy, PartialEq, Eq, Structural)]
pub enum SessionPhase {
    /// Created, the countdown not yet running.
    AwaitingStart,
    /// The countdown runs.
    Active,
    /// The countdown ran out; no rematch vote is cast.
    Over,
    /// Exactly one player has voted for a rematch.
    RematchPending,
    /// A player left or disconnected.  Nothing leaves this phase.
    Terminated,
}

/// What the timer of a session does after a tick.
#[derive(Debug, Clone, Copy, PartialEq, Eq, Structural)]
pub enum TimerStep {
    /// The game goes on: tick again in a second.
    Continue,
    /// The game is over: stop, and record this result with the rating store.
    /// In a tie the first player of the session is named as `winner`.
    Finished { winner: PlayerId, loser: PlayerId, is_tie: bool },
    /// The session is not running: stop.
    Halted,
}

/// What a timer tick came to.
#[derive(Debug, Clone, PartialEq, Eq)]
pub struct TickOutcome {
    pub deliveries: Vec<Delivery>,
    pub step: TimerStep,
}

/// What a rematch request came to.
#[derive(Debug, Clone, PartialEq, Eq)]
pub struct RematchOutcome {
    pub deliveries: Vec<Delivery>,
    /// Whether the rematch fired, so that a new countdown has to be started.
    pub restarted: bool,
}

/// The mathematical content of a session.
pub struct SessionView {
    pub id: GameId,
    pub player1: PlayerId,
    pub player2: PlayerId,
    /// The last score each player reported: the first player's, then the second's.
    pub scores: (u32, u32),
    /// Who has voted for a rematch: the first player, the second player.
    pub rematch_requests: (bool, bool),
    pub phase: SessionPhase,
    /// Ticks left on the countdown.
    pub remaining: u64,
    /// The instant at which the session was created.
    pub created: std::time::Instant,
}

impl SessionView {
    /// The invariant of every session: the countdown is within the game's
    /// length, is full before the start and has not run out while the session
    /// is active; votes exist only
    /// after a game is over, never both at once, and exactly one while a rematch
    /// is pending.
    pub open spec fn wf(self) -> bool {
        &&& self.remaining <= GAME_DURATION
        &&& (self.is_active() ==> self.remaining >= 1)
        &&& (self.phase == SessionPhase::AwaitingStart ==> self.remaining == GAME_DURATION)
        &&& !(self.rematch_requests.0 && self.rematch_requests.1)
        &&& (self.phase == SessionPhase::RematchPending ==> (self.rematch_requests.0
            || self.rematch_requests.1))
        &&& (self.phase == SessionPhase::AwaitingStart || self.phase == SessionPhase::Active
            || self.phase == SessionPhase::Over ==> !self.rematch_requests.0
            && !self.rematch_requests.1)
    }

    /// The active flag: set from creation until the game is over or a player is gone.
    pub open spec fn is_active(self) -> bool {
        self.phase == SessionPhase::AwaitingStart || self.phase == SessionPhase::Active
    }

    /// Whether `player` is one of the two players of the session.
    pub open spec fn has_player(self, player: PlayerId) -> bool {
        player == self.player1 || player == self.player2
    }

    /// The player on the other side of `player`.
    pub open spec fn opponent_of(self, player: PlayerId) -> PlayerId {
        if player == self.player1 {
            self.player2
        } else {
            self.player1
        }
    }

    /// A session as it is created at the instant `created`.
    pub open spec fn fresh(
        id: GameId,
        created: std::time::Instant,
        player1: PlayerId,
        player2: PlayerId,
    ) -> SessionView {
        SessionView {
            id,
            player1,
            player2,
            scores: (0, 0),
            rematch_requests: (false, false),
            phase: SessionPhase::AwaitingStart,
            remaining: GAME_DURATION,
            created,
        }
    }

    /// The same message for both players, the first player's first.
    pub open spec fn to_both(self, message: ServerMessage) -> Seq<Delivery> {
        seq![to(self.player1, message), to(self.player2, message)]
    }

    /// The session after `start`.
    pub open spec fn after_start(self) -> SessionView {
        if self.phase == SessionPhase::AwaitingStart {
            SessionView { phase: SessionPhase::Active, ..self }
        } else {
            self
        }
    }

    /// What `start` sends.
    pub open spec fn start_notices(self) -> Seq<Delivery> {
        if self.phase == SessionPhase::AwaitingStart {
            self.to_both(ServerMessage::GameStarted { game_id: self.id })
        } else {
            Seq::empty()
        }
    }

    /// Whether the next tick is the last of the game.
    pub open spec fn is_last_tick(self) -> bool {
        self.phase == SessionPhase::Active && self.remaining <= 1
    }

    /// The session after a timer tick.
    pub open spec fn after_tick(self) -> SessionView {
        if self.phase != SessionPhase::Active {
            self
        } else if self.remaining <= 1 {
            SessionView { phase: SessionPhase::Over, remaining: 0, ..self }
        } else {
            SessionView { remaining: (self.remaining - 1) as u64, ..self }
        }
    }

    /// The result of the game as the rating store is to record it: the higher
    /// score wins, equal scores tie.
    pub open spec fn verdict(self) -> TimerStep {
        if self.scores.0 >= self.scores.1 {
            TimerStep::Finished {
                winner: self.player1,
                loser: self.player2,
                is_tie: self.scores.0 == self.scores.1,
            }
        } else {
            TimerStep::Finished { winner: self.player2, loser: self.player1, is_tie: false }
        }
    }

    /// What each player is told when the game is over: its own result.
    pub open spec fn game_over_notices(self) -> Seq<Delivery> {
        seq![
            to(
                self.player1,
                ServerMessage::GameOver {
                    winner: GameResult::of_scores(self.scores.0, self.scores.1),
                },
            ),
            to(
                self.player2,
                ServerMessage::GameOver {
                    winner: GameResult::of_scores(self.scores.1, self.scores.0),
                },
            ),
        ]
    }

    /// What a timer tick sends: the time left to both players and, on the last
    /// tick, the result to each.
    pub open spec fn tick_notices(self) -> Seq<Delivery> {
        if self.phase != SessionPhase::Active {
            Seq::empty()
        } else {
            let time = self.to_both(
                ServerMessage::TimeUpdate { seconds_remaining: self.after_tick().remaining },
            );
            if self.is_last_tick() {
                time + self.game_over_notices()
            } else {
                time
            }
        }
    }

    /// What the timer does after a tick.
    pub open spec fn tick_step(self) -> TimerStep {
        if self.phase != SessionPhase::Active {
            TimerStep::Halted
        } else if self.is_last_tick() {
            self.verdict()
        } else {
            TimerStep::Continue
        }
    }

    /// Whether a gameplay message of `player` is taken: the active flag is set
    /// and the player is in the session.
    pub open spec fn plays(self, player: PlayerId) -> bool {
        self.is_active() && self.has_player(player)
    }

    /// What relaying `notice` from `from` sends: the notice, to the opponent only.
    pub open spec fn relay_notices(self, from: PlayerId, notice: ServerMessage) -> Seq<Delivery> {
        if self.plays(from) {
            seq![to(self.opponent_of(from), notice)]
        } else {
            Seq::empty()
        }
    }

    /// The score pair after `player` reported `score`: its own slot overwritten.
    pub open spec fn scores_with(self, player: PlayerId, score: u32) -> (u32, u32) {
        if player == self.player1 {
            (score, self.scores.1)
        } else {
            (self.scores.0, score)
        }
    }

    /// The session after `player` reported `score`.
    pub open spec fn after_score(self, player: PlayerId, score: u32) -> SessionView {
        if self.plays(player) {
            SessionView { scores: self.scores_with(player, score), ..self }
        } else {
            self
        }
    }

    /// What a score report sends: the new pair to both players, each seeing its
    /// own score first.
    pub open spec fn score_notices(self, player: PlayerId, score: u32) -> Seq<Delivery> {
        if self.plays(player) {
            let scores = self.scores_with(player, score);
            seq![
                to(
                    self.player1,
                    ServerMessage::ScoreUpdate { player_score: scores.0, opponent_score: scores.1 },
                ),
                to(
                    self.player2,
                    ServerMessage::ScoreUpdate { player_score: scores.1, opponent_score: scores.0 },
                ),
            ]
        } else {
            Seq::empty()
        }
    }

    /// Whether the departure of `player` ends the session.
    pub open spec fn ends_with(self, player: PlayerId) -> bool {
        self.phase != SessionPhase::Terminated && self.has_player(player)
    }

    /// The session after `player` left or disconnected.
    pub open spec fn after_departure(self, player: PlayerId) -> SessionView {
        if self.ends_with(player) {
            SessionView { phase: SessionPhase::Terminated, ..self }
        } else {
            self
        }
    }

    /// What the departure of `player` sends: `notice`, to the player who remains.
    pub open spec fn departure_notices(self, player: PlayerId, notice: ServerMessage) -> Seq<
        Delivery,
    > {
        if self.ends_with(player) {
            seq![to(self.opponent_of(player), notice)]
        } else {
            Seq::empty()
        }
    }

    /// Whether a rematch vote of `player` counts: the game is over, the session
    /// not terminated, and the player is in it.
    pub open spec fn may_vote(self, player: PlayerId) -> bool {
        (self.phase == SessionPhase::Over || self.phase == SessionPhase::RematchPending)
            && self.has_player(player)
    }

    /// The vote pair with the vote of `player` set.
    pub open spec fn votes_with(self, player: PlayerId) -> (bool, bool) {
        if player == self.player1 {
            (true, self.rematch_requests.1)
        } else {
            (self.rematch_requests.0, true)
        }
    }

    /// Whether a rematch request of `player` fires the rematch: the vote counts
    /// and, with it, both votes are set.
    pub open spec fn rematch_fires(self, player: PlayerId) -> bool {
        self.may_vote(player) && self.votes_with(player).0 && self.votes_with(player).1
    }

    /// The session after a rematch request of `player`.
    pub open spec fn after_rematch_request(self, player: PlayerId) -> SessionView {
        if !self.may_vote(player) {
            self
        } else if self.rematch_fires(player) {
            SessionView {
                scores: (0, 0),
                rematch_requests: (false, false),
                phase: SessionPhase::Active,
                remaining: GAME_DURATION,
                ..self
            }
        } else {
            SessionView {
                rematch_requests: self.votes_with(player),
                phase: SessionPhase::RematchPending,
                ..self
            }
        }
    }

    /// What a rematch request of `player` sends: the request to the opponent and,
    /// if the rematch fires, the acceptance to both.
    pub open spec fn rematch_notices(self, player: PlayerId) -> Seq<Delivery> {
        if !self.may_vote(player) {
            Seq::empty()
        } else {
            let request = seq![
                to(self.opponent_of(player), ServerMessage::OpponentRequestedRematch),
            ];
            if self.rematch_fires(player) {
                request + self.to_both(ServerMessage::RematchAccepted)
            } else {
                request
            }
        }
    }
}

/// The authoritative state of one match.
#[derive(Debug)]
pub struct GameSession {
    id: GameId,
    player1: Player,
    player2: Player,
    scores: (u32, u32),
    start_time: std::time::Instant,
    phase: SessionPhase,
    remaining: u64,
    rematch_requests: (bool, bool),
}

impl View for GameSession {
    type V = SessionView;

    closed spec fn view(&self) -> SessionView {
        SessionView {
            id: self.id,
            player1: self.player1.id,
            player2: self.player2.id,
            scores: self.scores,
            rematch_requests: self.rematch_requests,
            phase: self.phase,
            remaining: self.remaining,
            created: self.start_time,
        }
    }
}

/// Reads the clock.
///
/// Trusted: calls `std::time::Instant::now`.  Nothing is claimed of the result.
#[verifier::external_body]
fn now() -> std::time::Instant {
    std::time::Instant::now()
}

impl GameSession {
    /// Whether the session satisfies its invariant.
    pub open spec fn wf(&self) -> bool {
        self@.wf()
    }

    /// The instant at which the session was created.  No event changes it.
    pub open spec fn created_at(&self) -> std::time::Instant {
        self@.created
    }

    /// Creates the session of two players under a fresh random id.  The first
    /// player stays the first for the life of the session.
    pub fn new(player1: Player, player2: Player) -> (session: GameSession)
        ensures
            session.wf(),
            is_random_uuid(session@.id),
            session@ == SessionView::fresh(session@.id, session@.created, player1.id, player2.id),
    {
        GameSession::with_id(random_uuid(), player1, player2)
    }

    /// Creates the session of two players under the given id: no score, no vote,
    /// the full countdown ahead, waiting to be started.
    pub fn with_id(id: GameId, player1: Player, player2: Player) -> (session: GameSession)
        ensures
            session.wf(),
            session@ == SessionView::fresh(id, session@.created, player1.id, player2.id),
    {
        GameSession {
            id,
            player1,
            player2,
            scores: (0, 0),
            start_time: now(),
            phase: SessionPhase::AwaitingStart,
            remaining: GAME_DURATION,
            rematch_requests: (false, false),
        }
    }

    /// The id of the session.
    pub fn id(&self) -> (id: GameId)
        ensures
            id == self@.id,
    {
        self.id
    }

    /// The first player.
    pub fn player1(&self) -> (player: Player)
        ensures
            player.id == self@.player1,
    {
        self.player1
    }

    /// The second player.
    pub fn player2(&self) -> (player: Player)
        ensures
            player.id == self@.player2,
    {
        self.player2
    }

    /// The last score each player reported: the first player's, then the second's.
    pub fn scores(&self) -> (scores: (u32, u32))
        ensures
            scores == self@.scores,
    {
        self.scores
    }

    /// Who has voted for a rematch: the first player, the second player.
    pub fn rematch_requests(&self) -> (votes: (bool, bool))
        ensures
            votes == self@.rematch_requests,
    {
        self.rematch_requests
    }

    /// Where the session stands in its lifecycle.
    pub fn phase(&self) -> (phase: SessionPhase)
        ensures
            phase == self@.phase,
    {
        self.phase
    }

    /// The ticks left on the countdown.
    pub fn remaining(&self) -> (ticks: u64)
        ensures
            ticks == self@.remaining,
    {
        self.remaining
    }

    /// When the session was created: the instant that the session has carried
    /// since its creation.
    pub fn start_time(&self) -> (created: std::time::Instant)
        ensures
            created == self.created_at(),
    {
        self.start_time
    }

    /// The active flag: set from creation until the game is over or a player is gone.
    pub fn is_active(&self) -> (active: bool)
        ensures
            active == self@.is_active(),
    {
        match self.phase {
            SessionPhase::AwaitingStart | SessionPhase::Active => true,
            _ => false,
        }
    }

    /// Whether `player` is one of the two players of the session.
    pub fn has_player(&self, player: PlayerId) -> (found: bool)
        ensures
            found == self@.has_player(player),
    {
        player == self.player1.id || player == self.player2.id
    }

    /// The player on the other side of `player`.
    pub fn opponent_of(&self, player: PlayerId) -> (opponent: PlayerId)
        ensures
            opponent == self@.opponent_of(player),
    {
        if player == self.player1.id {
            self.player2.id
        } else {
            self.player1.id
        }
    }

    /// Starts the game: tells both players so and makes the session active.  The
    /// caller starts the countdown when anything was sent.
    pub fn start(&mut self) -> (out: Vec<Delivery>)
        requires
            old(self).wf(),
        ensures
            final(self).wf(),
            final(self).created_at() == old(self).created_at(),
            final(self)@ == old(self)@.after_start(),
            out@ == old(self)@.start_notices(),
    {
        let mut out: Vec<Delivery> = Vec::new();
        match self.phase {
            SessionPhase::AwaitingStart => {
                out.push(
                    Delivery {
                        to: self.player1.id,
                        message: ServerMessage::GameStarted { game_id: self.id },
                    },
                );
                out.push(
                    Delivery {
                        to: self.player2.id,
                        message: ServerMessage::GameStarted { game_id: self.id },
                    },
                );
                self.phase = SessionPhase::Active;
            },
            _ => {},
        }
        out
    }

    /// One tick of the countdown.  While the game is active, the time left goes
    /// to both players.  The tick that brings it to zero ends the game: each
    /// player is told its result, and the result is handed back for the rating
    /// store.  A session that is not active halts its timer and sends nothing.
    pub fn timer_tick(&mut self) -> (outcome: TickOutcome)
        requires
            old(self).wf(),
        ensures
            final(self).wf(),
            final(self).created_at() == old(self).created_at(),
            final(self)@ == old(self)@.after_tick(),
            outcome.deliveries@ == old(self)@.tick_notices(),
            outcome.step == old(self)@.tick_step(),
    {
        let mut out: Vec<Delivery> = Vec::new();
        match self.phase {
            SessionPhase::Active => {},
            _ => {
                return TickOutcome { deliveries: out, step: TimerStep::Halted };
            },
        }
        let last = self.remaining <= 1;
        let left: u64 = if last {
            0
        } else {
            self.remaining - 1
        };
        self.remaining = left;
        out.push(
            Delivery {
                to: self.player1.id,
                message: ServerMessage::TimeUpdate { seconds_remaining: left },
            },
        );
        out.push(
            Delivery {
                to: self.player2.id,
                message: ServerMessage::TimeUpdate { seconds_remaining: left },
            },
        );
        if !last {
            return TickOutcome { deliveries: out, step: TimerStep::Continue };
        }
        self.phase = SessionPhase::Over;
        let (score1, score2) = self.scores;
        out.push(
            Delivery {
                to: self.player1.id,
                message: ServerMessage::GameOver { winner: GameResult::from_scores(score1, score2) },
            },
        );
        out.push(
            Delivery {
                to: self.player2.id,
                message: ServerMessage::GameOver { winner: GameResult::from_scores(score2, score1) },
            },
        );
        let step = if score1 >= score2 {
            TimerStep::Finished {
                winner: self.player1.id,
                loser: self.player2.id,
                is_tie: score1 == score2,
            }
        } else {
            TimerStep::Finished { winner: self.player2.id, loser: self.player1.id, is_tie: false }
        };
        proof {
            assert(out@ == old(self)@.tick_notices());
        }
        TickOutcome { deliveries: out, step }
    }

    /// Relays `notice` from `from` to its opponent.  The notice is passed on as it
    /// is; nothing of it is read.
    pub fn relay(&self, from: PlayerId, notice: ServerMessage) -> (out: Vec<Delivery>)
        ensures
            out@ == self@.relay_notices(from, notice),
    {
        let mut out: Vec<Delivery> = Vec::new();
        if self.is_active() && self.has_player(from) {
            out.push(Delivery { to: self.opponent_of(from), message: notice });
        }
        out
    }

    /// Tells the opponent of `from_player` which two cells it swapped.
    pub fn handle_swap(
        &self,
        from_player: PlayerId,
        row1: usize,
        col1: usize,
        row2: usize,
        col2: usize,
    ) -> (out: Vec<Delivery>)
        ensures
            out@ == self@.relay_notices(
                from_player,
                ServerMessage::OpponentSwap { row1, col1, row2, col2 },
            ),
    {
        self.relay(from_player, ServerMessage::OpponentSwap { row1, col1, row2, col2 })
    }

    /// Overwrites the score of `player_id` with `new_score` and tells both players
    /// the new pair.  The score is taken as reported.
    pub fn update_score(&mut self, player_id: PlayerId, new_score: u32) -> (out: Vec<Delivery>)
        requires
            old(self).wf(),
        ensures
            final(self).wf(),
            final(self).created_at() == old(self).created_at(),
            final(self)@ == old(self)@.after_score(player_id, new_score),
            out@ == old(self)@.score_notices(player_id, new_score),
    {
        let mut out: Vec<Delivery> = Vec::new();
        if !self.is_active() || !self.has_player(player_id) {
            return out;
        }
        if player_id == self.player1.id {
            self.scores = (new_score, self.scores.1);
        } else {
            self.scores = (self.scores.0, new_score);
        }
        out.push(
            Delivery {
                to: self.player1.id,
                message: ServerMessage::ScoreUpdate {
                    player_score: self.scores.0,
                    opponent_score: self.scores.1,
                },
            },
        );
        out.push(
            Delivery {
                to: self.player2.id,
                message: ServerMessage::ScoreUpdate {
                    player_score: self.scores.1,
                    opponent_score: self.scores.0,
                },
            },
        );
        out
    }

    /// Ends the session because `player` is gone, and sends `notice` to the
    /// player who remains.
    pub(crate) fn end_for(&mut self, player: PlayerId, notice: ServerMessage) -> (out: Vec<Delivery>)
        requires
            old(self).wf(),
        ensures
            final(self).wf(),
            final(self).created_at() == old(self).created_at(),
            final(self)@ == old(self)@.after_departure(player),
            out@ == old(self)@.departure_notices(player, notice),
    {
        let mut out: Vec<Delivery> = Vec::new();
        match self.phase {
            SessionPhase::Terminated => {},
            _ => {
                if self.has_player(player) {
                    out.push(Delivery { to: self.opponent_of(player), message: notice });
                    self.phase = SessionPhase::Terminated;
                }
            },
        }
        out
    }

    /// Ends the session because the connection of `player_id` is gone.
    pub fn handle_disconnect(&mut self, player_id: PlayerId) -> (out: Vec<Delivery>)
        requires
            old(self).wf(),
        ensures
            final(self).wf(),
            final(self).created_at() == old(self).created_at(),
            final(self)@ == old(self)@.after_departure(player_id),
            out@ == old(self)@.departure_notices(player_id, ServerMessage::OpponentDisconnected),
    {
        self.end_for(player_id, ServerMessage::OpponentDisconnected)
    }

    /// Ends the session because `player_id` left the game.
    pub fn handle_leave(&mut self, player_id: PlayerId) -> (out: Vec<Delivery>)
        requires
            old(self).wf(),
        ensures
            final(self).wf(),
            final(self).created_at() == old(self).created_at(),
            final(self)@ == old(self)@.after_departure(player_id),
            out@ == old(self)@.departure_notices(player_id, ServerMessage::OpponentLeft),
    {
        self.end_for(player_id, ServerMessage::OpponentLeft)
    }

    /// Records the rematch vote of `player_id` and tells the opponent.  When both
    /// players have voted the rematch fires: votes and scores are reset, the
    /// session is active again under the same id, both players are told, and the
    /// caller starts a new countdown.
    pub fn handle_rematch_request(&mut self, player_id: PlayerId) -> (outcome: RematchOutcome)
        requires
            old(self).wf(),
        ensures
            final(self).wf(),
            final(self).created_at() == old(self).created_at(),
            final(self)@ == old(self)@.after_rematch_request(player_id),
            outcome.deliveries@ == old(self)@.rematch_notices(player_id),
            outcome.restarted == old(self)@.rematch_fires(player_id),
    {
        let mut out: Vec<Delivery> = Vec::new();
        match self.phase {
            SessionPhase::Over | SessionPhase::RematchPending => {},
            _ => {
                return RematchOutcome { deliveries: out, restarted: false };
            },
        }
        if !self.has_player(player_id) {
            return RematchOutcome { deliveries: out, restarted: false };
        }
        if player_id == self.player1.id {
            self.rematch_requests = (true, self.rematch_requests.1);
        } else {
            self.rematch_requests = (self.rematch_requests.0, true);
        }
        out.push(
            Delivery {
                to: self.opponent_of(player_id),
                message: ServerMessage::OpponentRequestedRematch,
            },
        );
        if self.rematch_requests.0 && self.rematch_requests.1 {
            self.rematch_requests = (false, false);
            self.scores = (0, 0);
            self.phase = SessionPhase::Active;
            self.remaining = GAME_DURATION;
            out.push(Delivery { to: self.player1.id, message: ServerMessage::RematchAccepted });
            out.push(Delivery { to: self.player2.id, message: ServerMessage::RematchAccepted });
            proof {
                assert(out@ == old(self)@.rematch_notices(player_id));
            }
            RematchOutcome { deliveries: out, restarted: true }
        } else {
            self.phase = SessionPhase::RematchPending;
            RematchOutcome { deliveries: out, restarted: false }
        }
    }
}

impl SessionView {
    /// The session after `n` timer ticks with no other event in between.
    pub open spec fn after_ticks(self, n: nat) -> SessionView
        decreases n,
    {
        if n == 0 {
            self
        } else {
            self.after_tick().after_ticks((n - 1) as nat)
        }
    }
}

/// Every transition keeps the invariant of a session.
pub proof fn lemma_transitions_keep_invariant(
    s: SessionView,
    player: PlayerId,
    score: u32,
)
    requires
        s.wf(),
    ensures
        s.after_start().wf(),
        s.after_tick().wf(),
        s.after_score(player, score).wf(),
        s.after_departure(player).wf(),
        s.after_rematch_request(player).wf(),
{
}

/// Starting a session that has not been started tells each player once that
/// the game has started, and makes it active with the full countdown ahead;
/// scores and votes stay.  Starting it again sends nothing and changes nothing.
pub proof fn lemma_start_begins_the_game(s: SessionView)
    requires
        s.wf(),
        s.phase == SessionPhase::AwaitingStart,
    ensures
        s.start_notices() == seq![
            to(s.player1, ServerMessage::GameStarted { game_id: s.id }),
            to(s.player2, ServerMessage::GameStarted { game_id: s.id }),
        ],
        s.after_start().phase == SessionPhase::Active,
        s.after_start().remaining == GAME_DURATION,
        s.after_start().scores == s.scores,
        s.after_start().rematch_requests == s.rematch_requests,
        s.after_start().start_notices() == Seq::<Delivery>::empty(),
        s.after_start().after_start() == s.after_start(),
{
}

/// A rematch fires exactly when a vote is cast that makes both votes true at
/// once.  After it fired no vote is set, the score pair is (0, 0), and the session
/// is active again under its old id with the full countdown ahead.  A vote that
/// does not fire is recorded and leaves the scores alone.  At rest the two
/// votes are never both set.
pub proof fn lemma_rematch_fires_iff_both_voted(s: SessionView, player: PlayerId)
    requires
        s.wf(),
    ensures
        s.rematch_fires(player) <==> s.may_vote(player) && s.votes_with(player) == (true, true),
        s.player1 != s.player2 ==> (s.rematch_fires(player) <==> s.may_vote(player) && (if player
            == s.player1 {
            s.rematch_requests.1
        } else {
            s.rematch_requests.0
        })),
        s.rematch_fires(player) ==> {
            let after = s.after_rematch_request(player);
            &&& after.rematch_requests == (false, false)
            &&& after.scores == (0u32, 0u32)
            &&& after.phase == SessionPhase::Active
            &&& after.is_active()
            &&& after.remaining == GAME_DURATION
            &&& after.id == s.id
            &&& after.player1 == s.player1
            &&& after.player2 == s.player2
        },
        s.may_vote(player) && !s.rematch_fires(player) ==> {
            let after = s.after_rematch_request(player);
            &&& after.rematch_requests == s.votes_with(player)
            &&& after.scores == s.scores
            &&& after.phase == SessionPhase::RematchPending
        },
        !s.may_vote(player) ==> s.after_rematch_request(player) == s && s.rematch_notices(player)
            == Seq::<Delivery>::empty(),
        !(s.after_rematch_request(player).rematch_requests.0 && s.after_rematch_request(
            player,
        ).rematch_requests.1),
{
}

/// A terminated session stays as it is whatever arrives, and sends nothing.
pub proof fn lemma_terminated_is_final(
    s: SessionView,
    player: PlayerId,
    score: u32,
    notice: ServerMessage,
)
    requires
        s.phase == SessionPhase::Terminated,
    ensures
        s.after_start() == s,
        s.after_tick() == s,
        s.after_score(player, score) == s,
        s.after_departure(player) == s,
        s.after_rematch_request(player) == s,
        s.start_notices() == Seq::<Delivery>::empty(),
        s.tick_notices() == Seq::<Delivery>::empty(),
        s.tick_step() == TimerStep::Halted,
        s.relay_notices(player, notice) == Seq::<Delivery>::empty(),
        s.score_notices(player, score) == Seq::<Delivery>::empty(),
        s.departure_notices(player, notice) == Seq::<Delivery>::empty(),
        s.rematch_notices(player) == Seq::<Delivery>::empty(),
        !s.is_active(),
{
}

/// The departure of one of its players terminates a session from any phase, and
/// the player who remains is the only one told.  From then on the timer halts
/// without a message.
pub proof fn lemma_departure_terminates(s: SessionView, player: PlayerId, notice: ServerMessage)
    requires
        s.has_player(player),
    ensures
        s.after_departure(player).phase == SessionPhase::Terminated,
        !s.after_departure(player).is_active(),
        s.after_departure(player).tick_notices() == Seq::<Delivery>::empty(),
        s.after_departure(player).tick_step() == TimerStep::Halted,
        s.phase != SessionPhase::Terminated ==> s.departure_notices(player, notice) == seq![
            to(s.opponent_of(player), notice),
        ],
{
}

/// A score report overwrites the reporter's own score and nothing else: the
/// opponent's score stays whatever the opponent last reported.
pub proof fn lemma_score_is_last_write_per_player(s: SessionView, player: PlayerId, score: u32)
    requires
        s.plays(player),
        s.player1 != s.player2,
    ensures
        player == s.player1 ==> s.after_score(player, score).scores == (score, s.scores.1),
        player == s.player2 ==> s.after_score(player, score).scores == (s.scores.0, score),
        s.after_score(player, score).phase == s.phase,
        s.after_score(player, score).rematch_requests == s.rematch_requests,
        s.after_score(player, score).remaining == s.remaining,
{
}

/// The countdown of an active session: while ticks are left each tick takes one
/// off, and the tick that takes the last one ends the game.
pub proof fn lemma_countdown_runs_out(s: SessionView, n: nat)
    requires
        s.wf(),
        s.phase == SessionPhase::Active,
        n <= s.remaining,
    ensures
        s.after_ticks(n).remaining == s.remaining - n,
        s.after_ticks(n).scores == s.scores,
        n < s.remaining ==> s.after_ticks(n).phase == SessionPhase::Active,
        n == s.remaining ==> s.after_ticks(n).phase == SessionPhase::Over,
    decreases n,
{
    if n > 0 {
        let next = s.after_tick();
        if n > 1 {
            lemma_countdown_runs_out(next, (n - 1) as nat);
        } else {
            assert(next.after_ticks(0) == next);
        }
    }
}

/// When a game ends each player is told its own result, and the two results are
/// complementary.  The rating store is handed the player with the higher score
/// as the winner, and a tie exactly when the scores are equal.
pub proof fn lemma_verdict_matches_scores(s: SessionView)
    ensures
        s.game_over_notices().len() == 2,
        s.game_over_notices()[0] == to(
            s.player1,
            ServerMessage::GameOver { winner: GameResult::of_scores(s.scores.0, s.scores.1) },
        ),
        s.game_over_notices()[1] == to(
            s.player2,
            ServerMessage::GameOver {
                winner: GameResult::of_scores(s.scores.0, s.scores.1).mirrored(),
            },
        ),
        s.scores.0 > s.scores.1 ==> s.verdict() == (TimerStep::Finished {
            winner: s.player1,
            loser: s.player2,
            is_tie: false,
        }),
        s.scores.0 < s.scores.1 ==> s.verdict() == (TimerStep::Finished {
            winner: s.player2,
            loser: s.player1,
            is_tie: false,
        }),
        s.scores.0 == s.scores.1 ==> s.verdict() == (TimerStep::Finished {
            winner: s.player1,
            loser: s.player2,
            is_tie: true,
        }),
{
}

} // verus!
