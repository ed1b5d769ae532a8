//! Player profiles and the bookkeeping applied to them when a match ends.
//!
//! The rating store itself is outside this crate.  This module states what the
//! store is expected to do with a profile: which values a new profile starts
//! with, and how a finished match changes the rating, the counters and the
//! currencies of each side.

use crate::elo::{
    elo_after, exact_rating_change, lemma_equal_ratings, lemma_rating_change_exists,
    lemma_rating_change_is_bounded, lemma_rating_changes_cancel, rating_change, winner_result,
};
use crate::ids::{is_random_uuid, random_uuid};
use crate::protocol::{to, Delivery, GameResult, PlayerId, ServerMessage};
use vstd::prelude::*;

verus! {

/// The rating every new profile starts with.
pub const DEFAULT_ELO: i32 = 1000;

/// A player's durable identity, rating and statistics.
#[derive(Debug, Clone, PartialEq, Eq)]
pub struct User {
    pub id: PlayerId,
    pub username: String,
    pub elo: i32,
    pub wins: u32,
    pub losses: u32,
    pub bricks: u32,
    pub gold: u32,
}

/// What looking a username up in the rating store came to.
#[derive(Debug, Clone, PartialEq, Eq)]
pub enum ProfileLookup {
    /// The store already held this profile.
    Existing(User),
    /// The store held none: this new profile has to be inserted.
    Created(User),
}

/// What recording a match came to: both profiles as they now are, and the
/// change that the match made to each rating.
#[derive(Debug, Clone, PartialEq, Eq)]
pub struct MatchRecord {
    pub winner: User,
    pub loser: User,
    pub winner_change: i32,
    pub loser_change: i32,
}

/// What one side of a finished match is credited with.
#[derive(Debug, Clone, Copy, PartialEq, Eq)]
pub struct MatchRewards {
    pub wins: u32,
    pub losses: u32,
    pub bricks: u32,
    pub gold: u32,
}

impl User {
    /// Whether `self` is the profile a new player starts with.
    pub open spec fn is_new_profile(self, id: PlayerId, username: Seq<char>) -> bool {
        &&& self.id == id
        &&& self.username@ == username
        &&& self.elo == DEFAULT_ELO
        &&& self.wins == 0
        &&& self.losses == 0
        &&& self.bricks == 0
        &&& self.gold == 0
    }

    /// The profile with `rewards` added and the rating replaced by `elo`.
    pub open spec fn credited(self, rewards: MatchRewards, elo: i32) -> User {
        User {
            id: self.id,
            username: self.username,
            elo,
            wins: (self.wins + rewards.wins) as u32,
            losses: (self.losses + rewards.losses) as u32,
            bricks: (self.bricks + rewards.bricks) as u32,
            gold: (self.gold + rewards.gold) as u32,
        }
    }

    /// Whether every counter of the profile has room for `rewards`.
    pub open spec fn has_room_for(self, rewards: MatchRewards) -> bool {
        &&& self.wins + rewards.wins <= u32::MAX
        &&& self.losses + rewards.losses <= u32::MAX
        &&& self.bricks + rewards.bricks <= u32::MAX
        &&& self.gold + rewards.gold <= u32::MAX
    }

    /// The notice that tells the owner of this profile, as it is after a match,
    /// how the match changed it: the new rating, the change of the rating by this
    /// match, and the counters.
    pub open spec fn result_notice(self, elo_change: i32) -> ServerMessage {
        ServerMessage::MatchResult {
            new_elo: self.elo,
            elo_change,
            wins: self.wins,
            losses: self.losses,
            bricks: self.bricks,
            gold: self.gold,
        }
    }

    /// A new profile: the default rating, no wins, no losses, no currency.
    pub fn new(id: PlayerId, username: String) -> (user: User)
        ensures
            user.is_new_profile(id, username@),
            user.username == username,
    {
        User { id, username, elo: DEFAULT_ELO, wins: 0, losses: 0, bricks: 0, gold: 0 }
    }

    /// Adds `rewards` to the counters and sets the rating to `elo`.  Gives `None`,
    /// and credits nothing, exactly when a counter would overflow.
    pub fn credit(self, rewards: MatchRewards, elo: i32) -> (updated: Option<User>)
        ensures
            self.has_room_for(rewards) ==> updated == Some(self.credited(rewards, elo)),
            !self.has_room_for(rewards) ==> updated.is_none(),
    {
        let wins = self.wins.checked_add(rewards.wins);
        let losses = self.losses.checked_add(rewards.losses);
        let bricks = self.bricks.checked_add(rewards.bricks);
        let gold = self.gold.checked_add(rewards.gold);
        match (wins, losses, bricks, gold) {
            (Some(wins), Some(losses), Some(bricks), Some(gold)) => Some(
                User { id: self.id, username: self.username, elo, wins, losses, bricks, gold },
            ),
            _ => None,
        }
    }
}

impl MatchRewards {
    /// What the first-named player of a result earns: the winner of a decisive
    /// match gets a win, 100 bricks and 10 gold; in a tie, 50 bricks and 5 gold.
    pub open spec fn winner_share(is_tie: bool) -> MatchRewards {
        if is_tie {
            MatchRewards { wins: 0, losses: 0, bricks: 50, gold: 5 }
        } else {
            MatchRewards { wins: 1, losses: 0, bricks: 100, gold: 10 }
        }
    }

    /// What the second-named player of a result earns: the loser of a decisive
    /// match gets a loss and 25 bricks; in a tie, 50 bricks and 5 gold.
    pub open spec fn loser_share(is_tie: bool) -> MatchRewards {
        if is_tie {
            MatchRewards { wins: 0, losses: 0, bricks: 50, gold: 5 }
        } else {
            MatchRewards { wins: 0, losses: 1, bricks: 25, gold: 0 }
        }
    }

    /// The rewards of the winner, or of the first player of a tie.
    pub fn for_winner(is_tie: bool) -> (rewards: MatchRewards)
        ensures
            rewards == MatchRewards::winner_share(is_tie),
    {
        if is_tie {
            MatchRewards { wins: 0, losses: 0, bricks: 50, gold: 5 }
        } else {
            MatchRewards { wins: 1, losses: 0, bricks: 100, gold: 10 }
        }
    }

    /// The rewards of the loser, or of the second player of a tie.
    pub fn for_loser(is_tie: bool) -> (rewards: MatchRewards)
        ensures
            rewards == MatchRewards::loser_share(is_tie),
    {
        if is_tie {
            MatchRewards { wins: 0, losses: 0, bricks: 50, gold: 5 }
        } else {
            MatchRewards { wins: 0, losses: 1, bricks: 25, gold: 0 }
        }
    }
}

/// Decides what a lookup by username returns: the stored profile where there is
/// one, else a new profile under a fresh random id, which the caller inserts.
pub fn get_or_create_user(existing: Option<User>, username: &str) -> (lookup: ProfileLookup)
    ensures
        match existing {
            Some(user) => lookup == ProfileLookup::Existing(user),
            None => lookup matches ProfileLookup::Created(user) && is_random_uuid(user.id)
                && user.is_new_profile(user.id, username@),
        },
{
    match existing {
        Some(user) => ProfileLookup::Existing(user),
        None => ProfileLookup::Created(User::new(random_uuid(), username.to_owned())),
    }
}

/// The rating change of the first-named player of a match.
pub open spec fn winner_change(winner: User, loser: User, is_tie: bool) -> int {
    exact_rating_change(winner.elo as int, loser.elo as int, winner_result(is_tie))
}

/// The rating change of the second-named player of a match.
pub open spec fn loser_change(winner: User, loser: User, is_tie: bool) -> int {
    exact_rating_change(loser.elo as int, winner.elo as int, winner_result(is_tie).mirrored())
}

/// What recording a match makes of the two profiles: each side gets its new
/// rating by the rating formula, and its share of wins, losses and currency.
/// `winner` is the first player of a tie.  There is no result if a new rating
/// or a counter does not fit its type.
pub open spec fn match_result(winner: User, loser: User, is_tie: bool) -> Option<MatchRecord> {
    match elo_after(winner.elo, loser.elo, is_tie) {
        Some((winner_elo, loser_elo)) => if winner.has_room_for(MatchRewards::winner_share(is_tie))
            && loser.has_room_for(MatchRewards::loser_share(is_tie)) {
            Some(
                MatchRecord {
                    winner: winner.credited(MatchRewards::winner_share(is_tie), winner_elo),
                    loser: loser.credited(MatchRewards::loser_share(is_tie), loser_elo),
                    winner_change: winner_change(winner, loser, is_tie) as i32,
                    loser_change: loser_change(winner, loser, is_tie) as i32,
                },
            )
        } else {
            None
        },
        None => None,
    }
}

/// Applies a finished match to both profiles at once: the new ratings, the win
/// or loss, and the currency rewards, and says by how much each rating changed.
/// `winner` is the first player of a tie.  Gives `None`, changing neither
/// profile, exactly when a rating or a counter of either would overflow.
pub fn update_match_result(winner: User, loser: User, is_tie: bool) -> (updated: Option<
    MatchRecord,
>)
    ensures
        updated == match_result(winner, loser, is_tie),
{
    let (winner_result, loser_result) = if is_tie {
        (GameResult::Tie, GameResult::Tie)
    } else {
        (GameResult::Win, GameResult::Loss)
    };
    let winner_change = rating_change(winner.elo, loser.elo, winner_result);
    let loser_change = rating_change(loser.elo, winner.elo, loser_result);
    let (winner_elo, loser_elo) = match (
        winner.elo.checked_add(winner_change),
        loser.elo.checked_add(loser_change),
    ) {
        (Some(winner_elo), Some(loser_elo)) => (winner_elo, loser_elo),
        _ => {
            return None;
        },
    };
    let winner_after = winner.credit(MatchRewards::for_winner(is_tie), winner_elo);
    let loser_after = loser.credit(MatchRewards::for_loser(is_tie), loser_elo);
    match (winner_after, loser_after) {
        (Some(winner), Some(loser)) => Some(
            MatchRecord { winner, loser, winner_change, loser_change },
        ),
        _ => None,
    }
}

/// What the players are told once the rating store has answered: each updated
/// profile goes to its owner with the change of its rating, the winner's first.
/// If the store failed, so that there is no record to report, nothing is sent.
pub open spec fn result_notices(recorded: Option<MatchRecord>) -> Seq<Delivery> {
    match recorded {
        Some(record) => seq![
            to(record.winner.id, record.winner.result_notice(record.winner_change)),
            to(record.loser.id, record.loser.result_notice(record.loser_change)),
        ],
        None => Seq::empty(),
    }
}

/// The notices that follow the attempt to record a match.
pub fn match_result_notices(recorded: Option<&MatchRecord>) -> (out: Vec<Delivery>)
    ensures
        out@ == result_notices(
            match recorded {
                Some(record) => Some(*record),
                None => None,
            },
        ),
{
    let mut out: Vec<Delivery> = Vec::new();
    match recorded {
        Some(record) => {
            out.push(
                Delivery {
                    to: record.winner.id,
                    message: match_result_notice(&record.winner, record.winner_change),
                },
            );
            out.push(
                Delivery {
                    to: record.loser.id,
                    message: match_result_notice(&record.loser, record.loser_change),
                },
            );
        },
        None => {},
    }
    out
}

/// The notice that carries one updated profile, and the change of its rating,
/// to its owner.
pub fn match_result_notice(profile: &User, elo_change: i32) -> (notice: ServerMessage)
    ensures
        notice == profile.result_notice(elo_change),
{
    ServerMessage::MatchResult {
        new_elo: profile.elo,
        elo_change,
        wins: profile.wins,
        losses: profile.losses,
        bricks: profile.bricks,
        gold: profile.gold,
    }
}

/// A decisive match gives the winner a win, 100 bricks and 10 gold, and the loser
/// a loss and 25 bricks; a tie gives both 50 bricks and 5 gold and counts as
/// neither a win nor a loss.  The ratings move by the rating formula, and
/// identity and name stay.
pub proof fn lemma_match_rewards(winner: User, loser: User, is_tie: bool)
    requires
        match_result(winner, loser, is_tie).is_some(),
    ensures
        ({
            let record = match_result(winner, loser, is_tie).unwrap();
            let w = record.winner;
            let l = record.loser;
            &&& w.id == winner.id && l.id == loser.id
            &&& w.username == winner.username && l.username == loser.username
            &&& w.elo == winner.elo + winner_change(winner, loser, is_tie)
            &&& l.elo == loser.elo + loser_change(winner, loser, is_tie)
            &&& w.elo - winner.elo == loser.elo - l.elo
            &&& !is_tie ==> {
                &&& w.wins == winner.wins + 1 && w.losses == winner.losses
                &&& w.bricks == winner.bricks + 100 && w.gold == winner.gold + 10
                &&& l.wins == loser.wins && l.losses == loser.losses + 1
                &&& l.bricks == loser.bricks + 25 && l.gold == loser.gold
            }
            &&& is_tie ==> {
                &&& w.wins == winner.wins && w.losses == winner.losses
                &&& w.bricks == winner.bricks + 50 && w.gold == winner.gold + 5
                &&& l.wins == loser.wins && l.losses == loser.losses
                &&& l.bricks == loser.bricks + 50 && l.gold == loser.gold + 5
            }
        }),
{
    lemma_rating_change_exists(winner.elo as int, loser.elo as int, winner_result(is_tie));
    lemma_rating_changes_cancel(
        winner.elo as int,
        loser.elo as int,
        winner_result(is_tie),
        exact_rating_change(winner.elo as int, loser.elo as int, winner_result(is_tie)),
    );
}

/// The notice of a recorded match tells each player its new rating and the
/// change that this match made to it: the new rating less the rating before
/// the match.
pub proof fn lemma_notice_reports_the_change(winner: User, loser: User, is_tie: bool)
    requires
        match_result(winner, loser, is_tie).is_some(),
    ensures
        ({
            let record = match_result(winner, loser, is_tie).unwrap();
            let notices = result_notices(Some(record));
            &&& record.winner_change == record.winner.elo - winner.elo
            &&& record.loser_change == record.loser.elo - loser.elo
            &&& notices.len() == 2
            &&& notices[0] == to(
                winner.id,
                ServerMessage::MatchResult {
                    new_elo: record.winner.elo,
                    elo_change: (record.winner.elo - winner.elo) as i32,
                    wins: record.winner.wins,
                    losses: record.winner.losses,
                    bricks: record.winner.bricks,
                    gold: record.winner.gold,
                },
            )
            &&& notices[1] == to(
                loser.id,
                ServerMessage::MatchResult {
                    new_elo: record.loser.elo,
                    elo_change: (record.loser.elo - loser.elo) as i32,
                    wins: record.loser.wins,
                    losses: record.loser.losses,
                    bricks: record.loser.bricks,
                    gold: record.loser.gold,
                },
            )
        }),
{
    lemma_rating_change_exists(winner.elo as int, loser.elo as int, winner_result(is_tie));
    lemma_rating_change_exists(
        loser.elo as int,
        winner.elo as int,
        winner_result(is_tie).mirrored(),
    );
    lemma_rating_change_is_bounded(
        winner.elo as int,
        loser.elo as int,
        winner_result(is_tie),
        winner_change(winner, loser, is_tie),
    );
    lemma_rating_change_is_bounded(
        loser.elo as int,
        winner.elo as int,
        winner_result(is_tie).mirrored(),
        loser_change(winner, loser, is_tie),
    );
}

/// Two new players who meet: the winner of a decisive match goes to 1016 and
/// the loser to 984, and a tie leaves both at 1000.
pub proof fn lemma_first_match()
    ensures
        elo_after(DEFAULT_ELO, DEFAULT_ELO, false) == Some((1016i32, 984i32)),
        elo_after(DEFAULT_ELO, DEFAULT_ELO, true) == Some((1000i32, 1000i32)),
{
    lemma_equal_ratings(1000);
}

} // verus!
