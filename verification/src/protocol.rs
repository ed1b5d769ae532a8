//! The tagged messages exchanged between a client and the server.

use vstd::prelude::*;

verus! {

/// Identity of a connected player: the 128-bit value of its UUID.
pub type PlayerId = u128;

/// Identity of a game session: the 128-bit value of its UUID.
pub type GameId = u128;

/// Messages a client sends to the server.
#[derive(Debug, Clone, PartialEq, Eq)]
pub enum ClientMessage {
    Login { username: String },
    JoinQueue,
    SwapGems { row1: usize, col1: usize, row2: usize, col2: usize },
    ScoreUpdate { score: u32 },
    SendGarbage { amount: u8 },
    ActivateSpecial { row: usize, col: usize },
    ActivateBooster { booster_id: u8 },
    RequestRematch,
    LeaveGame,
}

/// How a finished game ended, from one player's point of view.
#[derive(Debug, Clone, Copy, PartialEq, Eq, Structural)]
pub enum GameResult {
    Win,
    Loss,
    Tie,
}

/// Messages the server sends to a client.
#[derive(Debug, Clone, PartialEq, Eq)]
pub enum ServerMessage {
    AuthAccepted {
        player_id: PlayerId,
        username: String,
        elo: i32,
        wins: u32,
        losses: u32,
        bricks: u32,
        gold: u32,
    },
    AuthRejected { reason: String },
    Connected { player_id: PlayerId },
    Queued { position: usize },
    MatchFound { game_id: GameId, opponent_id: PlayerId },
    GameStarted { game_id: GameId },
    OpponentSwap { row1: usize, col1: usize, row2: usize, col2: usize },
    ScoreUpdate { player_score: u32, opponent_score: u32 },
    TimeUpdate { seconds_remaining: u64 },
    ReceiveGarbage { amount: u8 },
    OpponentActivatedSpecial { row: usize, col: usize },
    OpponentActivatedBooster { booster_id: u8 },
    GameOver { winner: GameResult },
    MatchResult { new_elo: i32, elo_change: i32, wins: u32, losses: u32, bricks: u32, gold: u32 },
    OpponentRequestedRematch,
    RematchAccepted,
    OpponentLeft,
    OpponentDisconnected,
    Error { message: String },
}

/// One outbound message together with the player it is addressed to.
#[derive(Debug, Clone, PartialEq, Eq)]
pub struct Delivery {
    pub to: PlayerId,
    pub message: ServerMessage,
}

/// One message addressed to one player.
pub open spec fn to(player: PlayerId, message: ServerMessage) -> Delivery {
    Delivery { to: player, message }
}

impl GameResult {
    /// The result the other player sees: a win against a loss, a tie against a tie.
    pub open spec fn mirrored(self) -> GameResult {
        match self {
            GameResult::Win => GameResult::Loss,
            GameResult::Loss => GameResult::Win,
            GameResult::Tie => GameResult::Tie,
        }
    }

    /// The result of the player who scored `mine` against an opponent who scored `theirs`.
    pub open spec fn of_scores(mine: u32, theirs: u32) -> GameResult {
        if mine > theirs {
            GameResult::Win
        } else if mine < theirs {
            GameResult::Loss
        } else {
            GameResult::Tie
        }
    }

    /// Compares two final scores from the point of view of the player who scored `mine`.
    pub fn from_scores(mine: u32, theirs: u32) -> (result: GameResult)
        ensures
            result == GameResult::of_scores(mine, theirs),
    {
        if mine > theirs {
            GameResult::Win
        } else if mine < theirs {
            GameResult::Loss
        } else {
            GameResult::Tie
        }
    }
}

/// The two players of a game always see complementary results: swapping the
/// scores mirrors the result, and only equal scores give a tie.
pub proof fn lemma_results_are_complementary(a: u32, b: u32)
    ensures
        GameResult::of_scores(b, a) == GameResult::of_scores(a, b).mirrored(),
        GameResult::of_scores(a, b) == GameResult::Tie <==> a == b,
        GameResult::of_scores(a, b) == GameResult::Tie <==> GameResult::of_scores(b, a)
            == GameResult::Tie,
{
}

} // verus!
