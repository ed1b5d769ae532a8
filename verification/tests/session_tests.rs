use match3_server::ids::{UUID_KIND_MASK, UUID_RANDOM_KIND};
use match3_server::protocol::{Delivery, GameResult, ServerMessage};
use match3_server::session::{
    GameSession, Player, SessionPhase, TimerStep, GAME_DURATION,
};

const ANN: u128 = 0x11;
const BEN: u128 = 0x22;
const GAME: u128 = 0x99;

fn to(player: u128, message: ServerMessage) -> Delivery {
    Delivery { to: player, message }
}

fn started() -> GameSession {
    let mut session = GameSession::with_id(GAME, Player { id: ANN }, Player { id: BEN });
    session.start();
    session
}

fn finished(score1: u32, score2: u32) -> GameSession {
    let mut session = started();
    session.update_score(ANN, score1);
    session.update_score(BEN, score2);
    for _ in 0..GAME_DURATION {
        session.timer_tick();
    }
    session
}

#[test]
fn new_session_has_a_random_uuid_and_a_clean_slate() {
    let session = GameSession::new(Player { id: ANN }, Player { id: BEN });
    assert_eq!(session.id() & UUID_KIND_MASK, UUID_RANDOM_KIND);
    assert_eq!(session.player1(), Player { id: ANN });
    assert_eq!(session.player2(), Player { id: BEN });
    assert_eq!(session.scores(), (0, 0));
    assert_eq!(session.rematch_requests(), (false, false));
    assert_eq!(session.phase(), SessionPhase::AwaitingStart);
    assert_eq!(session.remaining(), 90);
    assert!(session.is_active());
}

#[test]
fn new_sessions_get_different_ids() {
    let a = GameSession::new(Player { id: ANN }, Player { id: BEN });
    let b = GameSession::new(Player { id: ANN }, Player { id: BEN });
    assert_ne!(a.id(), b.id());
}

#[test]
fn start_tells_both_players_once() {
    let mut session = GameSession::with_id(GAME, Player { id: ANN }, Player { id: BEN });
    let out = session.start();
    assert_eq!(
        out,
        vec![
            to(ANN, ServerMessage::GameStarted { game_id: GAME }),
            to(BEN, ServerMessage::GameStarted { game_id: GAME }),
        ]
    );
    assert_eq!(session.phase(), SessionPhase::Active);
    assert_eq!(session.start(), vec![]);
}

#[test]
fn tick_counts_down_from_the_game_duration() {
    let mut session = started();
    let first = session.timer_tick();
    assert_eq!(
        first.deliveries,
        vec![
            to(ANN, ServerMessage::TimeUpdate { seconds_remaining: 89 }),
            to(BEN, ServerMessage::TimeUpdate { seconds_remaining: 89 }),
        ]
    );
    assert_eq!(first.step, TimerStep::Continue);
    let second = session.timer_tick();
    assert_eq!(
        second.deliveries[0],
        to(ANN, ServerMessage::TimeUpdate { seconds_remaining: 88 })
    );
    assert_eq!(session.remaining(), 88);
}

#[test]
fn tick_before_start_halts() {
    let mut session = GameSession::with_id(GAME, Player { id: ANN }, Player { id: BEN });
    let outcome = session.timer_tick();
    assert_eq!(outcome.deliveries, vec![]);
    assert_eq!(outcome.step, TimerStep::Halted);
    assert_eq!(session.remaining(), 90);
}

#[test]
fn last_tick_ends_the_game_with_complementary_results() {
    let mut session = started();
    session.update_score(ANN, 30);
    session.update_score(BEN, 50);
    for _ in 0..89 {
        assert_eq!(session.timer_tick().step, TimerStep::Continue);
    }
    assert_eq!(session.remaining(), 1);
    let last = session.timer_tick();
    assert_eq!(
        last.deliveries,
        vec![
            to(ANN, ServerMessage::TimeUpdate { seconds_remaining: 0 }),
            to(BEN, ServerMessage::TimeUpdate { seconds_remaining: 0 }),
            to(ANN, ServerMessage::GameOver { winner: GameResult::Loss }),
            to(BEN, ServerMessage::GameOver { winner: GameResult::Win }),
        ]
    );
    assert_eq!(last.step, TimerStep::Finished { winner: BEN, loser: ANN, is_tie: false });
    assert_eq!(session.phase(), SessionPhase::Over);
    assert!(!session.is_active());
    let after = session.timer_tick();
    assert_eq!(after.deliveries, vec![]);
    assert_eq!(after.step, TimerStep::Halted);
}

#[test]
fn higher_score_of_the_first_player_wins() {
    let mut session = started();
    session.update_score(ANN, 7);
    let mut last = session.timer_tick();
    for _ in 1..90 {
        last = session.timer_tick();
    }
    assert_eq!(last.step, TimerStep::Finished { winner: ANN, loser: BEN, is_tie: false });
    assert_eq!(last.deliveries[2], to(ANN, ServerMessage::GameOver { winner: GameResult::Win }));
    assert_eq!(last.deliveries[3], to(BEN, ServerMessage::GameOver { winner: GameResult::Loss }));
}

#[test]
fn equal_scores_tie_for_both() {
    let mut session = started();
    session.update_score(ANN, 12);
    session.update_score(BEN, 12);
    let mut last = session.timer_tick();
    for _ in 1..90 {
        last = session.timer_tick();
    }
    assert_eq!(last.step, TimerStep::Finished { winner: ANN, loser: BEN, is_tie: true });
    assert_eq!(last.deliveries[2], to(ANN, ServerMessage::GameOver { winner: GameResult::Tie }));
    assert_eq!(last.deliveries[3], to(BEN, ServerMessage::GameOver { winner: GameResult::Tie }));
}

#[test]
fn score_report_reaches_both_players_from_their_own_side() {
    let mut session = started();
    let out = session.update_score(ANN, 30);
    assert_eq!(
        out,
        vec![
            to(ANN, ServerMessage::ScoreUpdate { player_score: 30, opponent_score: 0 }),
            to(BEN, ServerMessage::ScoreUpdate { player_score: 0, opponent_score: 30 }),
        ]
    );
    assert_eq!(session.scores(), (30, 0));
}

#[test]
fn score_report_overwrites_only_the_own_slot() {
    let mut session = started();
    session.update_score(ANN, 30);
    session.update_score(BEN, 45);
    let out = session.update_score(ANN, 10);
    assert_eq!(session.scores(), (10, 45));
    assert_eq!(
        out,
        vec![
            to(ANN, ServerMessage::ScoreUpdate { player_score: 10, opponent_score: 45 }),
            to(BEN, ServerMessage::ScoreUpdate { player_score: 45, opponent_score: 10 }),
        ]
    );
}

#[test]
fn score_report_of_a_stranger_is_ignored() {
    let mut session = started();
    assert_eq!(session.update_score(0x33, 99), vec![]);
    assert_eq!(session.scores(), (0, 0));
}

#[test]
fn score_report_after_the_game_is_ignored() {
    let mut session = finished(1, 2);
    assert_eq!(session.update_score(ANN, 99), vec![]);
    assert_eq!(session.scores(), (1, 2));
}

#[test]
fn swap_is_relayed_to_the_opponent_only() {
    let session = started();
    assert_eq!(
        session.handle_swap(ANN, 1, 2, 1, 3),
        vec![to(BEN, ServerMessage::OpponentSwap { row1: 1, col1: 2, row2: 1, col2: 3 })]
    );
    assert_eq!(
        session.handle_swap(BEN, 4, 4, 5, 4),
        vec![to(ANN, ServerMessage::OpponentSwap { row1: 4, col1: 4, row2: 5, col2: 4 })]
    );
    assert_eq!(session.handle_swap(0x33, 0, 0, 0, 1), vec![]);
}

#[test]
fn relay_passes_the_notice_on_unchanged() {
    let session = started();
    assert_eq!(
        session.relay(BEN, ServerMessage::ReceiveGarbage { amount: 3 }),
        vec![to(ANN, ServerMessage::ReceiveGarbage { amount: 3 })]
    );
    let over = finished(1, 2);
    assert_eq!(over.relay(BEN, ServerMessage::ReceiveGarbage { amount: 3 }), vec![]);
}

#[test]
fn disconnect_terminates_and_tells_the_other_player() {
    let mut session = started();
    let out = session.handle_disconnect(ANN);
    assert_eq!(out, vec![to(BEN, ServerMessage::OpponentDisconnected)]);
    assert_eq!(session.phase(), SessionPhase::Terminated);
    assert!(!session.is_active());
    let tick = session.timer_tick();
    assert_eq!(tick.deliveries, vec![]);
    assert_eq!(tick.step, TimerStep::Halted);
}

#[test]
fn leave_terminates_and_tells_the_other_player() {
    let mut session = started();
    assert_eq!(session.handle_leave(BEN), vec![to(ANN, ServerMessage::OpponentLeft)]);
    assert_eq!(session.phase(), SessionPhase::Terminated);
}

#[test]
fn terminated_session_answers_nothing() {
    let mut session = started();
    session.update_score(ANN, 5);
    session.handle_leave(ANN);
    assert_eq!(session.handle_disconnect(BEN), vec![]);
    assert_eq!(session.handle_leave(BEN), vec![]);
    assert_eq!(session.update_score(BEN, 8), vec![]);
    assert_eq!(session.handle_swap(BEN, 0, 0, 0, 1), vec![]);
    let vote = session.handle_rematch_request(BEN);
    assert_eq!(vote.deliveries, vec![]);
    assert!(!vote.restarted);
    assert_eq!(session.start(), vec![]);
    assert_eq!(session.scores(), (5, 0));
    assert_eq!(session.phase(), SessionPhase::Terminated);
}

#[test]
fn first_rematch_vote_notifies_the_opponent() {
    let mut session = finished(3, 4);
    let vote = session.handle_rematch_request(ANN);
    assert_eq!(vote.deliveries, vec![to(BEN, ServerMessage::OpponentRequestedRematch)]);
    assert!(!vote.restarted);
    assert_eq!(session.rematch_requests(), (true, false));
    assert_eq!(session.phase(), SessionPhase::RematchPending);
    assert_eq!(session.scores(), (3, 4));
    assert!(!session.is_active());
}

#[test]
fn second_rematch_vote_fires_the_rematch() {
    let mut session = finished(3, 4);
    session.handle_rematch_request(BEN);
    assert_eq!(session.rematch_requests(), (false, true));
    let vote = session.handle_rematch_request(ANN);
    assert_eq!(
        vote.deliveries,
        vec![
            to(BEN, ServerMessage::OpponentRequestedRematch),
            to(ANN, ServerMessage::RematchAccepted),
            to(BEN, ServerMessage::RematchAccepted),
        ]
    );
    assert!(vote.restarted);
    assert_eq!(session.rematch_requests(), (false, false));
    assert_eq!(session.scores(), (0, 0));
    assert_eq!(session.phase(), SessionPhase::Active);
    assert!(session.is_active());
    assert_eq!(session.remaining(), 90);
    assert_eq!(session.id(), GAME);
}

#[test]
fn repeated_vote_of_one_player_does_not_fire() {
    let mut session = finished(3, 4);
    session.handle_rematch_request(ANN);
    let again = session.handle_rematch_request(ANN);
    assert_eq!(again.deliveries, vec![to(BEN, ServerMessage::OpponentRequestedRematch)]);
    assert!(!again.restarted);
    assert_eq!(session.rematch_requests(), (true, false));
    assert_eq!(session.phase(), SessionPhase::RematchPending);
}

#[test]
fn rematch_vote_during_the_game_does_not_count() {
    let mut session = started();
    let vote = session.handle_rematch_request(ANN);
    assert_eq!(vote.deliveries, vec![]);
    assert!(!vote.restarted);
    assert_eq!(session.rematch_requests(), (false, false));
    assert_eq!(session.phase(), SessionPhase::Active);
}

#[test]
fn rematch_runs_a_full_second_game() {
    let mut session = finished(3, 4);
    session.handle_rematch_request(ANN);
    session.handle_rematch_request(BEN);
    session.update_score(ANN, 20);
    let mut last = session.timer_tick();
    assert_eq!(
        last.deliveries[0],
        to(ANN, ServerMessage::TimeUpdate { seconds_remaining: 89 })
    );
    for _ in 1..90 {
        last = session.timer_tick();
    }
    assert_eq!(last.step, TimerStep::Finished { winner: ANN, loser: BEN, is_tie: false });
    assert_eq!(session.phase(), SessionPhase::Over);
}

#[test]
fn disconnect_while_a_rematch_is_pending_terminates() {
    let mut session = finished(3, 4);
    session.handle_rematch_request(ANN);
    assert_eq!(
        session.handle_disconnect(BEN),
        vec![to(ANN, ServerMessage::OpponentDisconnected)]
    );
    assert_eq!(session.phase(), SessionPhase::Terminated);
    assert!(!session.handle_rematch_request(BEN).restarted);
}

#[test]
fn opponent_of_names_the_other_side() {
    let session = started();
    assert_eq!(session.opponent_of(ANN), BEN);
    assert_eq!(session.opponent_of(BEN), ANN);
    assert!(session.has_player(ANN));
    assert!(!session.has_player(0x33));
}

#[test]
fn results_from_scores() {
    assert_eq!(GameResult::from_scores(2, 1), GameResult::Win);
    assert_eq!(GameResult::from_scores(1, 2), GameResult::Loss);
    assert_eq!(GameResult::from_scores(5, 5), GameResult::Tie);
}

#[test]
fn creation_instant_stays_through_the_life_of_a_session() {
    let before = std::time::Instant::now();
    let mut session = GameSession::with_id(GAME, Player { id: ANN }, Player { id: BEN });
    let created = session.start_time();
    assert!(before <= created);
    assert!(created <= std::time::Instant::now());
    session.start();
    session.update_score(ANN, 3);
    session.timer_tick();
    assert_eq!(session.start_time(), created);
    session.handle_disconnect(BEN);
    session.handle_rematch_request(ANN);
    assert_eq!(session.start_time(), created);
}

#[test]
fn swap_on_a_session_not_yet_started_reaches_the_opponent() {
    let session = GameSession::new(Player { id: ANN }, Player { id: BEN });
    assert!(session.is_active());
    assert_eq!(
        session.handle_swap(ANN, 1, 2, 1, 3),
        vec![to(BEN, ServerMessage::OpponentSwap { row1: 1, col1: 2, row2: 1, col2: 3 })]
    );
    assert_eq!(session.scores(), (0, 0));
    assert_eq!(session.rematch_requests(), (false, false));
}

#[test]
fn score_report_on_a_session_not_yet_started_is_taken() {
    let mut session = GameSession::with_id(GAME, Player { id: ANN }, Player { id: BEN });
    assert_eq!(
        session.update_score(BEN, 12),
        vec![
            to(ANN, ServerMessage::ScoreUpdate { player_score: 0, opponent_score: 12 }),
            to(BEN, ServerMessage::ScoreUpdate { player_score: 12, opponent_score: 0 }),
        ]
    );
    assert_eq!(session.scores(), (0, 12));
    assert_eq!(session.phase(), SessionPhase::AwaitingStart);
    assert_eq!(session.remaining(), 90);
    assert_eq!(session.id(), GAME);
}
