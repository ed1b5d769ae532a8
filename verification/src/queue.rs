//! The matchmaking queue: players waiting for an opponent, oldest first.

use crate::protocol::PlayerId;
use vstd::prelude::*;

verus! {

/// The queue after `player` asked to join: unchanged if the player already
/// waits, else with the player at the back.
pub open spec fn enqueued(queue: Seq<PlayerId>, player: PlayerId) -> Seq<PlayerId> {
    if queue.contains(player) {
        queue
    } else {
        queue.push(player)
    }
}

/// The 1-based position given to `player` on joining, if the request counts.
pub open spec fn position_on_joining(queue: Seq<PlayerId>, player: PlayerId) -> Option<usize> {
    if queue.contains(player) {
        None
    } else {
        Some((queue.len() + 1) as usize)
    }
}

/// The queue with every entry of `player` taken out, the others in their order.
pub open spec fn without(queue: Seq<PlayerId>, player: PlayerId) -> Seq<PlayerId> {
    queue.filter(is_other_than(player))
}

/// The test that every player but `player` passes.
pub open spec fn is_other_than(player: PlayerId) -> spec_fn(PlayerId) -> bool {
    |id: PlayerId| id != player
}

/// The pairs that pairing forms from a queue: the two oldest entries, then the
/// next two, and so on while two are left.
pub open spec fn pairs_of(queue: Seq<PlayerId>) -> Seq<(PlayerId, PlayerId)>
    decreases queue.len(),
{
    if queue.len() < 2 {
        Seq::empty()
    } else {
        seq![(queue[0], queue[1])] + pairs_of(queue.skip(2))
    }
}

/// What pairing leaves in the queue: nothing, or the newest entry of an odd queue.
pub open spec fn unpaired(queue: Seq<PlayerId>) -> Seq<PlayerId>
    decreases queue.len(),
{
    if queue.len() < 2 {
        queue
    } else {
        unpaired(queue.skip(2))
    }
}

/// Players waiting for an opponent, in arrival order.  No player waits twice.
#[derive(Debug, Clone)]
pub struct MatchmakingQueue {
    waiting: Vec<PlayerId>,
}

impl View for MatchmakingQueue {
    type V = Seq<PlayerId>;

    /// The waiting players, oldest first.
    closed spec fn view(&self) -> Seq<PlayerId> {
        self.waiting@
    }
}

impl MatchmakingQueue {
    /// The queue's invariant: no player occurs twice.
    pub open spec fn wf(&self) -> bool {
        self@.no_duplicates()
    }

    /// An empty queue.
    pub fn new() -> (queue: Self)
        ensures
            queue@ == Seq::<PlayerId>::empty(),
            queue.wf(),
    {
        MatchmakingQueue { waiting: Vec::new() }
    }

    /// The number of waiting players.
    pub fn len(&self) -> (n: usize)
        ensures
            n == self@.len(),
    {
        self.waiting.len()
    }

    /// Whether `player` waits in the queue.
    pub fn contains(&self, player: PlayerId) -> (found: bool)
        ensures
            found == self@.contains(player),
    {
        let mut i: usize = 0;
        while i < self.waiting.len()
            invariant
                i <= self.waiting@.len(),
                forall|j: int| 0 <= j < i ==> self.waiting@[j] != player,
            decreases self.waiting.len() - i,
        {
            if self.waiting[i] == player {
                return true;
            }
            i += 1;
        }
        false
    }

    /// Adds `player` at the back and returns its 1-based position.  A player who
    /// already waits is not added again and gets no position.
    pub fn enqueue(&mut self, player: PlayerId) -> (position: Option<usize>)
        requires
            old(self).wf(),
        ensures
            final(self).wf(),
            final(self)@ == enqueued(old(self)@, player),
            final(self)@.contains(player),
            position == position_on_joining(old(self)@, player),
    {
        if self.contains(player) {
            None
        } else {
            self.waiting.push(player);
            assert(self.waiting@[self.waiting@.len() - 1] == player);
            Some(self.waiting.len())
        }
    }

    /// Takes `player` out of the queue, if it waits there, and says whether it did.
    pub fn remove_if_present(&mut self, player: PlayerId) -> (removed: bool)
        requires
            old(self).wf(),
        ensures
            final(self).wf(),
            final(self)@ == without(old(self)@, player),
            removed == old(self)@.contains(player),
    {
        let ghost keep = is_other_than(player);
        let mut kept: Vec<PlayerId> = Vec::new();
        let mut removed = false;
        let mut i: usize = 0;
        while i < self.waiting.len()
            invariant
                i <= self.waiting@.len(),
                keep == is_other_than(player),
                self@ == old(self)@,
                kept@ == self.waiting@.take(i as int).filter(keep),
                removed == self.waiting@.take(i as int).contains(player),
            decreases self.waiting.len() - i,
        {
            let id = self.waiting[i];
            proof {
                let before = self.waiting@.take(i as int);
                let after = self.waiting@.take(i + 1);
                assert(after.drop_last() == before);
                assert(after.last() == id);
                reveal(Seq::filter);
                if before.contains(player) {
                    let j = choose|j: int| 0 <= j < before.len() && before[j] == player;
                    assert(after[j] == player);
                }
                if after.contains(player) && id != player {
                    let j = choose|j: int| 0 <= j < after.len() && after[j] == player;
                    assert(before[j] == player);
                }
            }
            if id != player {
                kept.push(id);
            } else {
                removed = true;
            }
            i += 1;
        }
        proof {
            assert(self.waiting@.take(i as int) == self.waiting@);
            lemma_without_keeps_distinct(self.waiting@, player);
        }
        self.waiting = kept;
        removed
    }

    /// Takes the two oldest players out of the queue, if two or more wait.
    pub fn take_pair(&mut self) -> (pair: Option<(PlayerId, PlayerId)>)
        requires
            old(self).wf(),
        ensures
            final(self).wf(),
            old(self)@.len() >= 2 ==> pair == Some((old(self)@[0], old(self)@[1])) && final(self)@
                == old(self)@.skip(2) && old(self)@[0] != old(self)@[1],
            old(self)@.len() < 2 ==> pair.is_none() && final(self)@ == old(self)@,
    {
        if self.waiting.len() >= 2 {
            let first = self.waiting.remove(0);
            let second = self.waiting.remove(0);
            proof {
                assert(self.waiting@ == old(self)@.skip(2));
                lemma_skip_keeps_distinct(old(self)@, 2);
            }
            Some((first, second))
        } else {
            None
        }
    }

    /// Pairs the waiting players off, oldest first, until fewer than two wait.
    pub fn pair_all(&mut self) -> (pairs: Vec<(PlayerId, PlayerId)>)
        requires
            old(self).wf(),
        ensures
            final(self).wf(),
            pairs@ == pairs_of(old(self)@),
            final(self)@ == unpaired(old(self)@),
    {
        let mut pairs: Vec<(PlayerId, PlayerId)> = Vec::new();
        while self.waiting.len() >= 2
            invariant
                self.wf(),
                pairs@ + pairs_of(self@) == pairs_of(old(self)@),
                unpaired(self@) == unpaired(old(self)@),
            decreases self.waiting@.len(),
        {
            let ghost before = self@;
            let pair = self.take_pair();
            match pair {
                Some(p) => {
                    pairs.push(p);
                    proof {
                        assert(pairs@ + pairs_of(self@) == pairs@.drop_last() + pairs_of(before));
                    }
                },
                None => {},
            }
        }
        proof {
            assert(pairs@ + pairs_of(self@) == pairs@);
        }
        pairs
    }
}

/// Dropping the oldest entries of a queue without duplicates leaves no duplicates.
pub proof fn lemma_skip_keeps_distinct(queue: Seq<PlayerId>, n: int)
    requires
        queue.no_duplicates(),
        0 <= n <= queue.len(),
    ensures
        queue.skip(n).no_duplicates(),
{
    let rest = queue.skip(n);
    assert forall|i: int, j: int| 0 <= i < rest.len() && 0 <= j < rest.len() && i != j implies rest[i]
        != rest[j] by {
        assert(rest[i] == queue[i + n]);
        assert(rest[j] == queue[j + n]);
    }
}

/// Taking a player out of a queue keeps the others in their order: what is left
/// holds exactly the other players, and none twice if none was there twice.
pub proof fn lemma_without_keeps_distinct(queue: Seq<PlayerId>, player: PlayerId)
    ensures
        !without(queue, player).contains(player),
        forall|id: PlayerId|
            id != player ==> (#[trigger] without(queue, player).contains(id) <==> queue.contains(
                id,
            )),
        queue.no_duplicates() ==> without(queue, player).no_duplicates(),
        !queue.contains(player) ==> without(queue, player) == queue,
        without(queue, player).len() <= queue.len(),
    decreases queue.len(),
{
    let keep = is_other_than(player);
    reveal(Seq::filter);
    if queue.len() > 0 {
        let front = queue.drop_last();
        let last = queue.last();
        lemma_without_keeps_distinct(front, player);
        let kept_front = without(front, player);
        let kept = without(queue, player);
        assert(kept == if last != player {
            kept_front.push(last)
        } else {
            kept_front
        });
        assert forall|id: PlayerId| id != player implies (#[trigger] kept.contains(id)
            <==> queue.contains(id)) by {
            if kept.contains(id) {
                let i = choose|i: int| 0 <= i < kept.len() && kept[i] == id;
                if i < kept_front.len() {
                    assert(kept_front[i] == id);
                    assert(kept_front.contains(id));
                    let j = choose|j: int| 0 <= j < front.len() && front[j] == id;
                    assert(queue[j] == id);
                } else {
                    assert(queue[queue.len() - 1] == id);
                }
            }
            if queue.contains(id) {
                let j = choose|j: int| 0 <= j < queue.len() && queue[j] == id;
                if j < front.len() {
                    assert(front[j] == id);
                    assert(front.contains(id));
                    assert(kept_front.contains(id));
                    let i = choose|i: int| 0 <= i < kept_front.len() && kept_front[i] == id;
                    assert(kept[i] == id);
                } else {
                    assert(kept[kept.len() - 1] == id);
                }
            }
        }
        if kept.contains(player) {
            let i = choose|i: int| 0 <= i < kept.len() && kept[i] == player;
            if i < kept_front.len() {
                assert(kept_front[i] == player);
            }
        }
        if queue.no_duplicates() {
            assert forall|i: int, j: int| 0 <= i < front.len() && 0 <= j < front.len() && i
                != j implies front[i] != front[j] by {
                assert(front[i] == queue[i]);
                assert(front[j] == queue[j]);
            }
            if last != player {
                if kept_front.contains(last) {
                    assert(front.contains(last));
                    let j = choose|j: int| 0 <= j < front.len() && front[j] == last;
                    assert(queue[j] == queue[queue.len() - 1]);
                }
                assert forall|i: int, j: int| 0 <= i < kept.len() && 0 <= j < kept.len() && i
                    != j implies kept[i] != kept[j] by {
                    if i < kept_front.len() && j < kept_front.len() {
                        assert(kept[i] == kept_front[i]);
                        assert(kept[j] == kept_front[j]);
                    } else if i < kept_front.len() {
                        assert(kept_front[i] == kept[i]);
                        assert(kept_front.contains(kept[i]));
                    } else {
                        assert(kept_front[j] == kept[j]);
                        assert(kept_front.contains(kept[j]));
                    }
                }
            }
        }
        if !queue.contains(player) {
            assert(!front.contains(player)) by {
                if front.contains(player) {
                    let j = choose|j: int| 0 <= j < front.len() && front[j] == player;
                    assert(queue[j] == player);
                }
            }
            assert(last != player) by {
                assert(queue[queue.len() - 1] == last);
            }
            assert(kept == queue);
        }
    }
}

/// Pairing a queue in which no player waits twice forms one pair for every two
/// players, in arrival order: the pair at index `i` holds the players that
/// arrived at positions `2i` and `2i + 1`, who are two different players.  What is
/// left is the newest player of an odd queue, or nothing.
pub proof fn lemma_pairing_follows_arrival_order(queue: Seq<PlayerId>)
    requires
        queue.no_duplicates(),
    ensures
        pairs_of(queue).len() == queue.len() / 2,
        forall|i: int|
            0 <= i < queue.len() / 2 ==> (#[trigger] pairs_of(queue)[i]) == (
                queue[2 * i],
                queue[2 * i + 1],
            ),
        forall|i: int|
            0 <= i < queue.len() / 2 ==> (#[trigger] pairs_of(queue)[i]).0 != pairs_of(queue)[i].1,
        unpaired(queue) == queue.skip(2 * (queue.len() as int / 2)),
        unpaired(queue).len() == queue.len() % 2,
    decreases queue.len(),
{
    if queue.len() >= 2 {
        let rest = queue.skip(2);
        lemma_skip_keeps_distinct(queue, 2);
        lemma_pairing_follows_arrival_order(rest);
        let pairs = pairs_of(queue);
        assert(pairs == seq![(queue[0], queue[1])] + pairs_of(rest));
        assert forall|i: int| 0 <= i < queue.len() / 2 implies (#[trigger] pairs[i]) == (
            queue[2 * i],
            queue[2 * i + 1],
        ) && pairs[i].0 != pairs[i].1 by {
            if i > 0 {
                assert(pairs[i] == pairs_of(rest)[i - 1]);
                assert(rest[2 * (i - 1)] == queue[2 * i]);
                assert(rest[2 * (i - 1) + 1] == queue[2 * i + 1]);
            }
        }
        assert(rest.skip(2 * (rest.len() as int / 2)) == queue.skip(2 * (queue.len() as int / 2)));
    } else {
        assert(queue.skip(0) == queue);
    }
}

} // verus!
