use match3_server::gateway::{auth_reply, handshake_step, HandshakeStep, Inbound};
use match3_server::ids::{UUID_KIND_MASK, UUID_RANDOM_KIND};
use match3_server::protocol::{ClientMessage, Delivery, GameResult, ServerMessage};
use match3_server::rating::{get_or_create_user, ProfileLookup};
use match3_server::server::{Reaction, ServerState};
use match3_server::session::{GameSession, Player, SessionPhase, TimerStep};

const ALICE: u128 = 0xa11ce;
const BOB: u128 = 0xb0b;
const CAROL: u128 = 0xca401;

fn send(player: u128, message: ServerMessage) -> Delivery {
    Delivery { to: player, message }
}

fn quiet() -> Reaction {
    Reaction { deliveries: vec![], start_timer: None }
}

fn server_with(players: &[u128]) -> ServerState {
    let mut state = ServerState::new();
    for id in players {
        state.add_player(Player { id: *id });
    }
    state
}

fn matched() -> (ServerState, u128) {
    let mut state = server_with(&[ALICE, BOB]);
    state.join_queue(ALICE);
    let game = state.join_queue(BOB).start_timer.unwrap();
    (state, game)
}

#[test]
fn add_player_confirms_the_connection() {
    let mut state = ServerState::new();
    assert!(!state.is_connected(ALICE));
    assert_eq!(
        state.add_player(Player { id: ALICE }),
        vec![send(ALICE, ServerMessage::Connected { player_id: ALICE })]
    );
    assert!(state.is_connected(ALICE));
    assert!(!state.is_connected(BOB));
}

#[test]
fn first_player_in_the_queue_waits() {
    let mut state = server_with(&[ALICE, BOB]);
    let reaction = state.join_queue(ALICE);
    assert_eq!(
        reaction,
        Reaction {
            deliveries: vec![send(ALICE, ServerMessage::Queued { position: 1 })],
            start_timer: None,
        }
    );
    assert!(state.is_queued(ALICE));
    assert_eq!(state.queue_len(), 1);
    assert_eq!(state.session_for(ALICE), None);
}

#[test]
fn two_players_are_matched_as_soon_as_both_wait() {
    let mut state = server_with(&[ALICE, BOB]);
    state.handle_client_message(ALICE, ClientMessage::JoinQueue);
    let reaction = state.handle_client_message(BOB, ClientMessage::JoinQueue);
    let game = reaction.start_timer.unwrap();
    assert_eq!(game & UUID_KIND_MASK, UUID_RANDOM_KIND);
    assert_eq!(
        reaction.deliveries,
        vec![
            send(BOB, ServerMessage::Queued { position: 2 }),
            send(ALICE, ServerMessage::MatchFound { game_id: game, opponent_id: BOB }),
            send(BOB, ServerMessage::MatchFound { game_id: game, opponent_id: ALICE }),
            send(ALICE, ServerMessage::GameStarted { game_id: game }),
            send(BOB, ServerMessage::GameStarted { game_id: game }),
        ]
    );
    assert_eq!(state.queue_len(), 0);
    assert_eq!(state.session_for(ALICE), Some(game));
    assert_eq!(state.session_for(BOB), Some(game));
    let session = state.session(game).unwrap();
    assert_eq!(session.player1(), Player { id: ALICE });
    assert_eq!(session.player2(), Player { id: BOB });
    assert_eq!(session.phase(), SessionPhase::Active);
    assert!(session.is_active());
}

#[test]
fn joining_twice_is_ignored() {
    let mut state = server_with(&[ALICE]);
    state.join_queue(ALICE);
    assert_eq!(state.join_queue(ALICE), quiet());
    assert_eq!(state.queue_len(), 1);
}

#[test]
fn players_pair_in_arrival_order() {
    let mut state = server_with(&[ALICE, BOB, CAROL, 4]);
    state.join_queue(CAROL);
    let first = state.join_queue(ALICE).start_timer.unwrap();
    state.join_queue(4);
    let second = state.join_queue(BOB).start_timer.unwrap();
    assert_ne!(first, second);
    assert_eq!(state.session(first).unwrap().player1(), Player { id: CAROL });
    assert_eq!(state.session(first).unwrap().player2(), Player { id: ALICE });
    assert_eq!(state.session(second).unwrap().player1(), Player { id: 4 });
    assert_eq!(state.session(second).unwrap().player2(), Player { id: BOB });
    assert_eq!(state.session_for(CAROL), Some(first));
    assert_eq!(state.session_for(BOB), Some(second));
}

#[test]
fn unregistered_player_gets_no_position_and_no_match() {
    let mut state = server_with(&[ALICE]);
    assert_eq!(state.join_queue(BOB), quiet());
    assert!(state.is_queued(BOB));
    let reaction = state.join_queue(ALICE);
    assert_eq!(
        reaction,
        Reaction {
            deliveries: vec![send(ALICE, ServerMessage::Queued { position: 2 })],
            start_timer: None,
        }
    );
    assert_eq!(state.queue_len(), 0);
    assert_eq!(state.session_for(ALICE), None);
}

#[test]
fn create_match_needs_both_players_registered() {
    let mut state = server_with(&[ALICE]);
    assert_eq!(state.create_match(ALICE, BOB), quiet());
    state.add_player(Player { id: BOB });
    let reaction = state.create_match(ALICE, BOB);
    let game = reaction.start_timer.unwrap();
    assert_eq!(reaction.deliveries.len(), 4);
    assert_eq!(state.session_for(ALICE), Some(game));
}

#[test]
fn start_match_registers_the_given_session() {
    let mut state = server_with(&[ALICE, BOB]);
    let session = GameSession::with_id(0x5e55, Player { id: ALICE }, Player { id: BOB });
    let reaction = state.start_match(session);
    assert_eq!(
        reaction,
        Reaction {
            deliveries: vec![
                send(ALICE, ServerMessage::MatchFound { game_id: 0x5e55, opponent_id: BOB }),
                send(BOB, ServerMessage::MatchFound { game_id: 0x5e55, opponent_id: ALICE }),
                send(ALICE, ServerMessage::GameStarted { game_id: 0x5e55 }),
                send(BOB, ServerMessage::GameStarted { game_id: 0x5e55 }),
            ],
            start_timer: Some(0x5e55),
        }
    );
    assert_eq!(state.session_for(BOB), Some(0x5e55));
}

#[test]
fn score_report_is_relayed_to_both_sides() {
    let (mut state, game) = matched();
    let reaction = state.handle_client_message(ALICE, ClientMessage::ScoreUpdate { score: 30 });
    assert_eq!(
        reaction,
        Reaction {
            deliveries: vec![
                send(ALICE, ServerMessage::ScoreUpdate { player_score: 30, opponent_score: 0 }),
                send(BOB, ServerMessage::ScoreUpdate { player_score: 0, opponent_score: 30 }),
            ],
            start_timer: None,
        }
    );
    assert_eq!(state.session(game).unwrap().scores(), (30, 0));
    let reaction = state.handle_client_message(BOB, ClientMessage::ScoreUpdate { score: 45 });
    assert_eq!(
        reaction.deliveries,
        vec![
            send(ALICE, ServerMessage::ScoreUpdate { player_score: 30, opponent_score: 45 }),
            send(BOB, ServerMessage::ScoreUpdate { player_score: 45, opponent_score: 30 }),
        ]
    );
}

#[test]
fn gameplay_messages_reach_the_opponent_only() {
    let (mut state, _) = matched();
    assert_eq!(
        state
            .handle_client_message(
                ALICE,
                ClientMessage::SwapGems { row1: 0, col1: 1, row2: 0, col2: 2 }
            )
            .deliveries,
        vec![send(BOB, ServerMessage::OpponentSwap { row1: 0, col1: 1, row2: 0, col2: 2 })]
    );
    assert_eq!(
        state.handle_client_message(BOB, ClientMessage::SendGarbage { amount: 4 }).deliveries,
        vec![send(ALICE, ServerMessage::ReceiveGarbage { amount: 4 })]
    );
    assert_eq!(
        state
            .handle_client_message(ALICE, ClientMessage::ActivateSpecial { row: 3, col: 5 })
            .deliveries,
        vec![send(BOB, ServerMessage::OpponentActivatedSpecial { row: 3, col: 5 })]
    );
    assert_eq!(
        state
            .handle_client_message(BOB, ClientMessage::ActivateBooster { booster_id: 2 })
            .deliveries,
        vec![send(ALICE, ServerMessage::OpponentActivatedBooster { booster_id: 2 })]
    );
}

#[test]
fn messages_of_a_player_without_a_session_are_dropped() {
    let mut state = server_with(&[ALICE]);
    for msg in [
        ClientMessage::ScoreUpdate { score: 1 },
        ClientMessage::SwapGems { row1: 0, col1: 0, row2: 0, col2: 1 },
        ClientMessage::SendGarbage { amount: 1 },
        ClientMessage::ActivateSpecial { row: 0, col: 0 },
        ClientMessage::ActivateBooster { booster_id: 0 },
        ClientMessage::RequestRematch,
    ] {
        assert_eq!(state.handle_client_message(ALICE, msg), quiet());
    }
    assert!(state.is_connected(ALICE));
}

#[test]
fn login_after_login_is_ignored() {
    let (mut state, game) = matched();
    let msg = ClientMessage::Login { username: "alice".to_string() };
    assert_eq!(state.handle_client_message(ALICE, msg), quiet());
    assert_eq!(state.session_for(ALICE), Some(game));
    assert!(state.is_connected(ALICE));
}

#[test]
fn disconnect_tells_the_opponent_and_stops_the_timer() {
    let (mut state, game) = matched();
    assert_eq!(state.tick(game).step, TimerStep::Continue);
    let out = state.remove_player(ALICE);
    assert_eq!(out, vec![send(BOB, ServerMessage::OpponentDisconnected)]);
    assert!(!state.is_connected(ALICE));
    assert_eq!(state.session_for(ALICE), None);
    assert_eq!(state.session_for(BOB), Some(game));
    let session = state.session(game).unwrap();
    assert!(!session.is_active());
    assert_eq!(session.phase(), SessionPhase::Terminated);
    let tick = state.tick(game);
    assert_eq!(tick.deliveries, vec![]);
    assert_eq!(tick.step, TimerStep::Halted);
}

#[test]
fn disconnect_of_a_waiting_player_empties_the_queue() {
    let mut state = server_with(&[ALICE, BOB]);
    state.join_queue(ALICE);
    assert_eq!(state.remove_player(ALICE), vec![]);
    assert!(!state.is_queued(ALICE));
    let reaction = state.join_queue(BOB);
    assert_eq!(
        reaction,
        Reaction {
            deliveries: vec![send(BOB, ServerMessage::Queued { position: 1 })],
            start_timer: None,
        }
    );
}

#[test]
fn removing_an_absent_player_does_nothing() {
    let (mut state, game) = matched();
    assert_eq!(state.remove_player(CAROL), vec![]);
    assert_eq!(state.remove_player(CAROL), vec![]);
    assert_eq!(state.session_for(ALICE), Some(game));
    assert!(state.session(game).unwrap().is_active());
}

#[test]
fn session_goes_when_both_players_are_gone() {
    let (mut state, game) = matched();
    state.remove_player(ALICE);
    assert!(state.session(game).is_some());
    assert_eq!(state.remove_player(BOB), vec![]);
    assert!(state.session(game).is_none());
    assert_eq!(state.tick(game).step, TimerStep::Halted);
}

#[test]
fn leaving_tells_the_opponent_once() {
    let (mut state, game) = matched();
    let reaction = state.handle_client_message(BOB, ClientMessage::LeaveGame);
    assert_eq!(
        reaction,
        Reaction { deliveries: vec![send(ALICE, ServerMessage::OpponentLeft)], start_timer: None }
    );
    assert!(!state.is_connected(BOB));
    assert_eq!(state.session_for(BOB), None);
    assert_eq!(state.session(game).unwrap().phase(), SessionPhase::Terminated);
    assert_eq!(
        state.handle_client_message(ALICE, ClientMessage::ScoreUpdate { score: 3 }),
        quiet()
    );
}

#[test]
fn timer_runs_the_game_to_its_end() {
    let (mut state, game) = matched();
    state.handle_client_message(ALICE, ClientMessage::ScoreUpdate { score: 10 });
    state.handle_client_message(BOB, ClientMessage::ScoreUpdate { score: 25 });
    for left in (1..90u64).rev() {
        let tick = state.tick(game);
        assert_eq!(tick.step, TimerStep::Continue);
        assert_eq!(
            tick.deliveries,
            vec![
                send(ALICE, ServerMessage::TimeUpdate { seconds_remaining: left }),
                send(BOB, ServerMessage::TimeUpdate { seconds_remaining: left }),
            ]
        );
    }
    let last = state.tick(game);
    assert_eq!(last.step, TimerStep::Finished { winner: BOB, loser: ALICE, is_tie: false });
    assert_eq!(
        last.deliveries,
        vec![
            send(ALICE, ServerMessage::TimeUpdate { seconds_remaining: 0 }),
            send(BOB, ServerMessage::TimeUpdate { seconds_remaining: 0 }),
            send(ALICE, ServerMessage::GameOver { winner: GameResult::Loss }),
            send(BOB, ServerMessage::GameOver { winner: GameResult::Win }),
        ]
    );
    assert_eq!(state.tick(game).step, TimerStep::Halted);
}

#[test]
fn tick_of_an_unknown_session_halts() {
    let mut state = ServerState::new();
    let tick = state.tick(12345);
    assert_eq!(tick.deliveries, vec![]);
    assert_eq!(tick.step, TimerStep::Halted);
}

#[test]
fn rematch_restarts_the_same_session() {
    let (mut state, game) = matched();
    state.handle_client_message(ALICE, ClientMessage::ScoreUpdate { score: 10 });
    for _ in 0..90 {
        state.tick(game);
    }
    let first = state.handle_client_message(ALICE, ClientMessage::RequestRematch);
    assert_eq!(
        first,
        Reaction {
            deliveries: vec![send(BOB, ServerMessage::OpponentRequestedRematch)],
            start_timer: None,
        }
    );
    let second = state.handle_client_message(BOB, ClientMessage::RequestRematch);
    assert_eq!(
        second,
        Reaction {
            deliveries: vec![
                send(ALICE, ServerMessage::OpponentRequestedRematch),
                send(ALICE, ServerMessage::RematchAccepted),
                send(BOB, ServerMessage::RematchAccepted),
            ],
            start_timer: Some(game),
        }
    );
    let session = state.session(game).unwrap();
    assert_eq!(session.scores(), (0, 0));
    assert_eq!(session.rematch_requests(), (false, false));
    assert!(session.is_active());
    assert_eq!(state.tick(game).step, TimerStep::Continue);
}

#[test]
fn a_player_maps_to_one_session_at_a_time() {
    let mut state = server_with(&[ALICE, BOB, CAROL]);
    state.join_queue(ALICE);
    let first = state.join_queue(BOB).start_timer.unwrap();
    assert_eq!(
        state.join_queue(ALICE).deliveries,
        vec![send(ALICE, ServerMessage::Queued { position: 1 })]
    );
    assert!(state.session(first).unwrap().is_active());
    let reaction = state.join_queue(CAROL);
    let second = reaction.start_timer.unwrap();
    assert_ne!(first, second);
    assert_eq!(
        reaction.deliveries,
        vec![
            send(CAROL, ServerMessage::Queued { position: 2 }),
            send(BOB, ServerMessage::OpponentLeft),
            send(ALICE, ServerMessage::MatchFound { game_id: second, opponent_id: CAROL }),
            send(CAROL, ServerMessage::MatchFound { game_id: second, opponent_id: ALICE }),
            send(ALICE, ServerMessage::GameStarted { game_id: second }),
            send(CAROL, ServerMessage::GameStarted { game_id: second }),
        ]
    );
    assert!(!state.session(first).unwrap().is_active());
    assert_eq!(state.session(first).unwrap().phase(), SessionPhase::Terminated);
    assert!(state.session(second).unwrap().is_active());
    assert_eq!(state.tick(first).step, TimerStep::Halted);
    assert_eq!(state.session_for(ALICE), Some(second));
    assert_eq!(state.session_for(CAROL), Some(second));
    assert_eq!(state.session_for(BOB), Some(first));
    assert_eq!(
        state.handle_client_message(ALICE, ClientMessage::ScoreUpdate { score: 5 }).deliveries,
        vec![
            send(ALICE, ServerMessage::ScoreUpdate { player_score: 5, opponent_score: 0 }),
            send(CAROL, ServerMessage::ScoreUpdate { player_score: 0, opponent_score: 5 }),
        ]
    );
    assert_eq!(state.session(first).unwrap().scores(), (0, 0));
    assert_eq!(
        state.handle_client_message(BOB, ClientMessage::ScoreUpdate { score: 9 }),
        quiet()
    );
}

#[test]
fn started_session_is_not_taken_as_a_match() {
    let mut state = server_with(&[ALICE, BOB]);
    let mut session = GameSession::with_id(0x5e55, Player { id: ALICE }, Player { id: BOB });
    session.start();
    assert_eq!(state.start_match(session), quiet());
    assert!(state.session(0x5e55).is_none());
    assert_eq!(state.session_for(ALICE), None);
}

#[test]
fn vote_before_a_new_match_cannot_revive_the_old_session() {
    let (mut state, game) = matched();
    for _ in 0..90 {
        state.tick(game);
    }
    state.handle_client_message(ALICE, ClientMessage::RequestRematch);
    state.add_player(Player { id: CAROL });
    state.join_queue(ALICE);
    let reaction = state.join_queue(CAROL);
    let next = reaction.start_timer.unwrap();
    assert_eq!(reaction.deliveries[1], send(BOB, ServerMessage::OpponentLeft));
    assert_eq!(
        state.handle_client_message(BOB, ClientMessage::RequestRematch),
        quiet()
    );
    assert_eq!(state.session(game).unwrap().phase(), SessionPhase::Terminated);
    assert!(state.session(next).unwrap().is_active());
}

#[test]
fn two_players_log_in_and_are_matched() {
    let mut state = ServerState::new();
    let mut ids = vec![];
    for name in ["alice", "bob"] {
        let login = Inbound::Message(ClientMessage::Login { username: name.to_string() });
        let username = match handshake_step(login) {
            HandshakeStep::Authenticate { username } => username,
            other => panic!("login was not passed on: {:?}", other),
        };
        let user = match get_or_create_user(None, &username) {
            ProfileLookup::Created(user) => user,
            ProfileLookup::Existing(_) => panic!("nothing was stored"),
        };
        assert_eq!(
            auth_reply(Ok(&user)),
            ServerMessage::AuthAccepted {
                player_id: user.id,
                username: name.to_string(),
                elo: 1000,
                wins: 0,
                losses: 0,
                bricks: 0,
                gold: 0,
            }
        );
        assert_eq!(
            state.add_player(Player { id: user.id }),
            vec![send(user.id, ServerMessage::Connected { player_id: user.id })]
        );
        ids.push(user.id);
    }
    let (alice, bob) = (ids[0], ids[1]);
    assert_ne!(alice, bob);
    assert_eq!(
        state.handle_client_message(alice, ClientMessage::JoinQueue),
        Reaction {
            deliveries: vec![send(alice, ServerMessage::Queued { position: 1 })],
            start_timer: None,
        }
    );
    let reaction = state.handle_client_message(bob, ClientMessage::JoinQueue);
    let game = reaction.start_timer.unwrap();
    assert_eq!(
        reaction.deliveries,
        vec![
            send(bob, ServerMessage::Queued { position: 2 }),
            send(alice, ServerMessage::MatchFound { game_id: game, opponent_id: bob }),
            send(bob, ServerMessage::MatchFound { game_id: game, opponent_id: alice }),
            send(alice, ServerMessage::GameStarted { game_id: game }),
            send(bob, ServerMessage::GameStarted { game_id: game }),
        ]
    );
}
