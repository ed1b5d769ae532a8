//! Rating changes by the logistic expected-score formula.
//!
//! A player with rating `own` who meets a player with rating `opponent` is
//! expected to score `1 / (1 + 10^((opponent - own) / 400))`.  Its rating
//! changes by `32 * (actual - expected)`, rounded to the nearest whole number,
//! halves away from zero, where the actual score is 1 for a win, 1/2 for a tie
//! and 0 for a loss.
//!
//! The formula is stated here in whole numbers.  With `t = 10^(e / 400)` for the
//! rating difference `e = opponent - own`, twice the exact change is
//! `64 * actual - 64 / (1 + t)`, and it is at least `h` exactly when
//! `p * t >= 64 - p` for `p = 64 * actual - h`.  A comparison `p * t >= q` between
//! positive numbers is decided on the 400th powers of both sides, which are
//! whole: `p^400 * 10^e >= q^400`.

use crate::protocol::GameResult;
use vstd::arithmetic::power::{
    lemma_pow0, lemma_pow1, lemma_pow_adds, lemma_pow_increases, lemma_pow_positive, pow,
};
use vstd::prelude::*;

verus! {

/// The most a rating changes in one match.
pub const K_FACTOR: i32 = 32;

/// 64 times the actual score of a result: 1 for a win, 1/2 for a tie, 0 for a loss.
pub open spec fn actual64(result: GameResult) -> int {
    match result {
        GameResult::Win => 64,
        GameResult::Tie => 32,
        GameResult::Loss => 0,
    }
}

/// Whether `p * 10^(e / 400) >= q`, for positive `p` and `q`.
pub open spec fn scaled_at_least(e: int, p: int, q: int) -> bool {
    if e >= 0 {
        pow(p, 400) * pow(10, e as nat) >= pow(q, 400)
    } else {
        pow(p, 400) >= pow(q, 400) * pow(10, (-e) as nat)
    }
}

/// Whether `p * 10^(e / 400) > q`, for positive `p` and `q`.
pub open spec fn scaled_above(e: int, p: int, q: int) -> bool {
    if e >= 0 {
        pow(p, 400) * pow(10, e as nat) > pow(q, 400)
    } else {
        pow(p, 400) > pow(q, 400) * pow(10, (-e) as nat)
    }
}

/// Whether twice the exact rating change, `64 * (actual - expected)`, is at
/// least `h`.
pub open spec fn twice_change_at_least(own: int, opponent: int, result: GameResult, h: int) -> bool {
    let p = actual64(result) - h;
    if p >= 64 {
        true
    } else if p <= 0 {
        false
    } else {
        scaled_at_least(opponent - own, p, 64 - p)
    }
}

/// Whether twice the exact rating change, `64 * (actual - expected)`, is more
/// than `h`.
pub open spec fn twice_change_above(own: int, opponent: int, result: GameResult, h: int) -> bool {
    let p = actual64(result) - h;
    if p >= 64 {
        true
    } else if p <= 0 {
        false
    } else {
        scaled_above(opponent - own, p, 64 - p)
    }
}

/// Whether `change` is the exact rating change `32 * (actual - expected)`
/// rounded to the nearest whole number, halves away from zero: a positive
/// `change` is the one with `change - 1/2 <= exact < change + 1/2`, a negative
/// one the one with `change - 1/2 < exact <= change + 1/2`, and zero stands for
/// `-1/2 < exact < 1/2`.
pub open spec fn is_rating_change(own: int, opponent: int, result: GameResult, change: int) -> bool {
    if change > 0 {
        twice_change_at_least(own, opponent, result, 2 * change - 1) && !twice_change_at_least(
            own,
            opponent,
            result,
            2 * change + 1,
        )
    } else if change < 0 {
        twice_change_above(own, opponent, result, 2 * change - 1) && !twice_change_above(
            own,
            opponent,
            result,
            2 * change + 1,
        )
    } else {
        twice_change_above(own, opponent, result, -1) && !twice_change_at_least(
            own,
            opponent,
            result,
            1,
        )
    }
}

/// The rating change that the formula gives: the one whole number that
/// `is_rating_change` accepts.
pub open spec fn exact_rating_change(own: int, opponent: int, result: GameResult) -> int {
    choose|change: int| is_rating_change(own, opponent, result, change)
}

/// The new ratings of both sides of a match: each side's old rating plus its
/// own rating change.  There are none if one of them does not fit the
/// rating's type.
pub open spec fn elo_after(winner_elo: i32, loser_elo: i32, is_tie: bool) -> Option<(i32, i32)> {
    let winner = winner_elo + exact_rating_change(
        winner_elo as int,
        loser_elo as int,
        winner_result(is_tie),
    );
    let loser = loser_elo + exact_rating_change(
        loser_elo as int,
        winner_elo as int,
        winner_result(is_tie).mirrored(),
    );
    if i32::MIN <= winner <= i32::MAX && i32::MIN <= loser <= i32::MAX {
        Some((winner as i32, loser as i32))
    } else {
        None
    }
}

/// The result of the first-named player of a match.
pub open spec fn winner_result(is_tie: bool) -> GameResult {
    if is_tie {
        GameResult::Tie
    } else {
        GameResult::Win
    }
}

/// `b^e` by repeated squaring.
spec fn fast_pow(b: int, e: nat) -> int
    decreases e,
{
    if e == 0 {
        1
    } else {
        let h = fast_pow(b, e / 2);
        if e % 2 == 0 {
            h * h
        } else {
            h * h * b
        }
    }
}

proof fn lemma_fast_pow(b: int, e: nat)
    ensures
        fast_pow(b, e) == pow(b, e),
    decreases e,
{
    reveal(pow);
    if e > 0 {
        lemma_fast_pow(b, e / 2);
        lemma_pow_adds(b, e / 2, e / 2);
        if e % 2 == 1 {
            lemma_pow_adds(b, (e / 2 + e / 2) as nat, 1);
            lemma_pow1(b);
        }
    }
}

/// Whether `10^m < (p / q)^400 < 10^(m + 1)`.
spec fn in_band(q: int, p: int, m: nat) -> bool {
    pow(q, 400) * pow(10, m) < pow(p, 400) < pow(q, 400) * pow(10, m + 1)
}

/// The powers that `in_band` speaks of, in the form that is computed.
proof fn lemma_band_powers(q: int, p: int, m: nat)
    ensures
        pow(q, 400) == fast_pow(q, 400),
        pow(p, 400) == fast_pow(p, 400),
        pow(10, m) == fast_pow(10, m),
        pow(10, m + 1) == 10 * fast_pow(10, m),
{
    lemma_fast_pow(q, 400);
    lemma_fast_pow(p, 400);
    lemma_fast_pow(10, m);
    lemma_pow_adds(10, m, 1);
    lemma_pow1(10);
    assert(pow(10, m) * 10 == 10 * pow(10, m)) by (nonlinear_arith);
}

/// For `k` from 1 to 16, the whole part of `400 * log10((65 - 2k) / (2k - 1))`:
/// the greatest lead in rating with which a win is still worth `k` points or
/// more.  The leads for 17 to 32 points mirror these.
spec fn band(k: int) -> nat {
    if k == 1 {
        719
    } else if k == 2 {
        523
    } else if k == 3 {
        428
    } else if k == 4 {
        364
    } else if k == 5 {
        314
    } else if k == 6 {
        273
    } else if k == 7 {
        237
    } else if k == 8 {
        205
    } else if k == 9 {
        176
    } else if k == 10 {
        149
    } else if k == 11 {
        124
    } else if k == 12 {
        100
    } else if k == 13 {
        77
    } else if k == 14 {
        54
    } else if k == 15 {
        32
    } else {
        10
    }
}

#[verifier::nonlinear]
proof fn lemma_band_1()
    ensures
        in_band(1, 63, 719),
{
    lemma_band_powers(1, 63, 719);
    reveal_with_fuel(fast_pow, 11);
}

#[verifier::nonlinear]
proof fn lemma_band_2()
    ensures
        in_band(3, 61, 523),
{
    lemma_band_powers(3, 61, 523);
    reveal_with_fuel(fast_pow, 11);
}

#[verifier::nonlinear]
proof fn lemma_band_3()
    ensures
        in_band(5, 59, 428),
{
    lemma_band_powers(5, 59, 428);
    reveal_with_fuel(fast_pow, 11);
}

#[verifier::nonlinear]
proof fn lemma_band_4()
    ensures
        in_band(7, 57, 364),
{
    lemma_band_powers(7, 57, 364);
    reveal_with_fuel(fast_pow, 11);
}

#[verifier::nonlinear]
proof fn lemma_band_5()
    ensures
        in_band(9, 55, 314),
{
    lemma_band_powers(9, 55, 314);
    reveal_with_fuel(fast_pow, 11);
}

#[verifier::nonlinear]
proof fn lemma_band_6()
    ensures
        in_band(11, 53, 273),
{
    lemma_band_powers(11, 53, 273);
    reveal_with_fuel(fast_pow, 11);
}

#[verifier::nonlinear]
proof fn lemma_band_7()
    ensures
        in_band(13, 51, 237),
{
    lemma_band_powers(13, 51, 237);
    reveal_with_fuel(fast_pow, 11);
}

#[verifier::nonlinear]
proof fn lemma_band_8()
    ensures
        in_band(15, 49, 205),
{
    lemma_band_powers(15, 49, 205);
    reveal_with_fuel(fast_pow, 11);
}

#[verifier::nonlinear]
proof fn lemma_band_9()
    ensures
        in_band(17, 47, 176),
{
    lemma_band_powers(17, 47, 176);
    reveal_with_fuel(fast_pow, 11);
}

#[verifier::nonlinear]
proof fn lemma_band_10()
    ensures
        in_band(19, 45, 149),
{
    lemma_band_powers(19, 45, 149);
    reveal_with_fuel(fast_pow, 11);
}

#[verifier::nonlinear]
proof fn lemma_band_11()
    ensures
        in_band(21, 43, 124),
{
    lemma_band_powers(21, 43, 124);
    reveal_with_fuel(fast_pow, 11);
}

#[verifier::nonlinear]
proof fn lemma_band_12()
    ensures
        in_band(23, 41, 100),
{
    lemma_band_powers(23, 41, 100);
    reveal_with_fuel(fast_pow, 11);
}

#[verifier::nonlinear]
proof fn lemma_band_13()
    ensures
        in_band(25, 39, 77),
{
    lemma_band_powers(25, 39, 77);
    reveal_with_fuel(fast_pow, 11);
}

#[verifier::nonlinear]
proof fn lemma_band_14()
    ensures
        in_band(27, 37, 54),
{
    lemma_band_powers(27, 37, 54);
    reveal_with_fuel(fast_pow, 11);
}

#[verifier::nonlinear]
proof fn lemma_band_15()
    ensures
        in_band(29, 35, 32),
{
    lemma_band_powers(29, 35, 32);
    reveal_with_fuel(fast_pow, 11);
}

#[verifier::nonlinear]
proof fn lemma_band_16()
    ensures
        in_band(31, 33, 10),
{
    lemma_band_powers(31, 33, 10);
    reveal_with_fuel(fast_pow, 11);
}

/// Every entry of the table is right.
proof fn lemma_band(k: int)
    requires
        1 <= k <= 16,
    ensures
        in_band(2 * k - 1, 65 - 2 * k, band(k)),
{
    if k == 1 {
        lemma_band_1();
    }
    if k == 2 {
        lemma_band_2();
    }
    if k == 3 {
        lemma_band_3();
    }
    if k == 4 {
        lemma_band_4();
    }
    if k == 5 {
        lemma_band_5();
    }
    if k == 6 {
        lemma_band_6();
    }
    if k == 7 {
        lemma_band_7();
    }
    if k == 8 {
        lemma_band_8();
    }
    if k == 9 {
        lemma_band_9();
    }
    if k == 10 {
        lemma_band_10();
    }
    if k == 11 {
        lemma_band_11();
    }
    if k == 12 {
        lemma_band_12();
    }
    if k == 13 {
        lemma_band_13();
    }
    if k == 14 {
        lemma_band_14();
    }
    if k == 15 {
        lemma_band_15();
    }
    if k == 16 {
        lemma_band_16();
    }
}

/// Executable form of `band`.
fn band_of(k: u8) -> (m: i64)
    requires
        1 <= k <= 16,
    ensures
        m == band(k as int),
{
    match k {
        1 => 719,
        2 => 523,
        3 => 428,
        4 => 364,
        5 => 314,
        6 => 273,
        7 => 237,
        8 => 205,
        9 => 176,
        10 => 149,
        11 => 124,
        12 => 100,
        13 => 77,
        14 => 54,
        15 => 32,
        _ => 10,
    }
}

/// The smallest rating difference `opponent - own` at which a win is worth at
/// least `n` points, for `n` from 1 to 32.
spec fn threshold(n: int) -> int {
    if n <= 16 {
        -(band(n) as int)
    } else {
        band(33 - n) as int + 1
    }
}

/// Executable form of `threshold`.
fn threshold_of(n: u8) -> (e: i64)
    requires
        1 <= n <= 32,
    ensures
        e == threshold(n as int),
{
    if n <= 16 {
        -band_of(n)
    } else {
        band_of(33 - n) + 1
    }
}

/// At its threshold a win is worth more than `n - 1/2` points, and one rating
/// point below it is worth less.
proof fn lemma_threshold(n: int)
    requires
        1 <= n <= 32,
    ensures
        scaled_above(threshold(n), 65 - 2 * n, 2 * n - 1),
        !scaled_at_least(threshold(n) - 1, 65 - 2 * n, 2 * n - 1),
{
    if n <= 16 {
        lemma_band(n);
    } else {
        lemma_band(33 - n);
        let k = 33 - n;
        let m = band(k);
        assert(pow(2 * k - 1, 400) * pow(10, m + 1) == pow(65 - 2 * n, 400) * pow(
            10,
            (m + 1) as nat,
        ));
    }
}

/// A comparison that holds at one rating difference holds at every greater one.
proof fn lemma_scaled_monotone(e1: int, e2: int, p: int, q: int)
    requires
        e1 <= e2,
        p > 0,
        q > 0,
    ensures
        scaled_at_least(e1, p, q) ==> scaled_at_least(e2, p, q),
        scaled_above(e1, p, q) ==> scaled_above(e2, p, q),
{
    let pp = pow(p, 400);
    let qq = pow(q, 400);
    lemma_pow_positive(p, 400);
    lemma_pow_positive(q, 400);
    if e1 >= 0 {
        let t1 = pow(10, e1 as nat);
        let t2 = pow(10, e2 as nat);
        lemma_pow_increases(10, e1 as nat, e2 as nat);
        assert(pp * t1 <= pp * t2) by (nonlinear_arith)
            requires
                pp > 0,
                t1 <= t2,
        ;
    } else if e2 < 0 {
        let t1 = pow(10, (-e1) as nat);
        let t2 = pow(10, (-e2) as nat);
        lemma_pow_increases(10, (-e2) as nat, (-e1) as nat);
        assert(qq * t2 <= qq * t1) by (nonlinear_arith)
            requires
                qq > 0,
                t2 <= t1,
        ;
    } else {
        let t1 = pow(10, (-e1) as nat);
        let t2 = pow(10, e2 as nat);
        lemma_pow_positive(10, (-e1) as nat);
        lemma_pow_positive(10, e2 as nat);
        assert(qq * t1 >= qq) by (nonlinear_arith)
            requires
                qq > 0,
                t1 >= 1,
        ;
        assert(pp * t2 >= pp) by (nonlinear_arith)
            requires
                pp > 0,
                t2 >= 1,
        ;
    }
}

/// The number of points a win is worth at the rating difference `e`: the
/// number of thresholds that `e` has reached.
fn win_points(e: i64) -> (points: u8)
    ensures
        points <= 32,
        points >= 1 ==> threshold(points as int) <= e,
        points <= 31 ==> e < threshold(points + 1),
{
    let mut points: u8 = 0;
    while points < 32 && threshold_of(points + 1) <= e
        invariant
            points <= 32,
            points >= 1 ==> threshold(points as int) <= e,
        decreases 32 - points,
    {
        points += 1;
    }
    points
}

/// What the thresholds say of the exact value of a win: with `points` between
/// the thresholds around `e`, a win is worth more than `points - 1/2` and less
/// than `points + 1/2`.
proof fn lemma_win_points(e: int, points: int)
    requires
        0 <= points <= 32,
        points >= 1 ==> threshold(points) <= e,
        points <= 31 ==> e < threshold(points + 1),
    ensures
        points >= 1 ==> scaled_above(e, 65 - 2 * points, 2 * points - 1) && scaled_at_least(
            e,
            65 - 2 * points,
            2 * points - 1,
        ),
        points <= 31 ==> !scaled_at_least(e, 63 - 2 * points, 2 * points + 1) && !scaled_above(
            e,
            63 - 2 * points,
            2 * points + 1,
        ),
{
    if points >= 1 {
        lemma_threshold(points);
        lemma_scaled_monotone(threshold(points), e, 65 - 2 * points, 2 * points - 1);
    }
    if points <= 31 {
        lemma_threshold(points + 1);
        lemma_scaled_monotone(e, threshold(points + 1) - 1, 63 - 2 * points, 2 * points + 1);
    }
}

/// The rating change of a player rated `own` after a match with the given
/// result against a player rated `opponent`.
pub fn rating_change(own: i32, opponent: i32, result: GameResult) -> (change: i32)
    ensures
        change == exact_rating_change(own as int, opponent as int, result),
        is_rating_change(own as int, opponent as int, result, change as int),
        -K_FACTOR <= change <= K_FACTOR,
{
    let e: i64 = opponent as i64 - own as i64;
    let points = win_points(e);
    // The actual score of a tie is 1/2 less than that of a win, and that of a
    // loss 1 less: the exact change is 16 or 32 less, and so is the rounded one.
    let change = match result {
        GameResult::Win => points as i32,
        GameResult::Tie => points as i32 - 16,
        GameResult::Loss => points as i32 - 32,
    };
    proof {
        lemma_win_points(e as int, points as int);
        assert(is_rating_change(own as int, opponent as int, result, change as int));
        lemma_rating_change_is_unique(
            own as int,
            opponent as int,
            result,
            change as int,
            exact_rating_change(own as int, opponent as int, result),
        );
    }
    change
}

/// The new ratings of the winner and the loser of a match, or of the two
/// players of a tie.  Gives `None` exactly when a new rating does not fit.
pub fn calculate_elo_change(winner_elo: i32, loser_elo: i32, is_tie: bool) -> (ratings: Option<
    (i32, i32),
>)
    ensures
        ratings == elo_after(winner_elo, loser_elo, is_tie),
{
    let (winner_result, loser_result) = if is_tie {
        (GameResult::Tie, GameResult::Tie)
    } else {
        (GameResult::Win, GameResult::Loss)
    };
    let winner_change = rating_change(winner_elo, loser_elo, winner_result);
    let loser_change = rating_change(loser_elo, winner_elo, loser_result);
    match (winner_elo.checked_add(winner_change), loser_elo.checked_add(loser_change)) {
        (Some(winner), Some(loser)) => Some((winner, loser)),
        _ => None,
    }
}

/// A greater positive base gives a greater power.
proof fn lemma_pow_base_strictly_increases(a: int, b: int, n: nat)
    requires
        0 < a < b,
        n >= 1,
    ensures
        0 < pow(a, n) < pow(b, n),
    decreases n,
{
    reveal(pow);
    lemma_pow_positive(a, n);
    if n == 1 {
        lemma_pow1(a);
        lemma_pow1(b);
    } else {
        lemma_pow_base_strictly_increases(a, b, (n - 1) as nat);
        let x = pow(a, (n - 1) as nat);
        let y = pow(b, (n - 1) as nat);
        assert(a * x < b * y) by (nonlinear_arith)
            requires
                0 < a < b,
                0 < x < y,
        ;
    }
}

/// The exact change is above every bound below one that it reaches.
proof fn lemma_change_bounds_are_ordered(
    own: int,
    opponent: int,
    result: GameResult,
    h1: int,
    h2: int,
)
    requires
        h1 <= h2,
    ensures
        twice_change_above(own, opponent, result, h2) ==> twice_change_at_least(
            own,
            opponent,
            result,
            h2,
        ),
        twice_change_at_least(own, opponent, result, h2) ==> twice_change_at_least(
            own,
            opponent,
            result,
            h1,
        ),
        h1 < h2 && twice_change_at_least(own, opponent, result, h2) ==> twice_change_above(
            own,
            opponent,
            result,
            h1,
        ),
{
    let e = opponent - own;
    let p_low = actual64(result) - h1;
    let p_high = actual64(result) - h2;
    if 0 < p_high < p_low < 64 {
        let big_p = pow(p_low, 400);
        let small_p = pow(p_high, 400);
        let small_q = pow(64 - p_low, 400);
        let big_q = pow(64 - p_high, 400);
        lemma_pow_base_strictly_increases(p_high, p_low, 400);
        lemma_pow_base_strictly_increases(64 - p_low, 64 - p_high, 400);
        if e >= 0 {
            let t = pow(10, e as nat);
            lemma_pow_positive(10, e as nat);
            assert(small_p * t < big_p * t) by (nonlinear_arith)
                requires
                    small_p < big_p,
                    t > 0,
            ;
        } else {
            let t = pow(10, (-e) as nat);
            lemma_pow_positive(10, (-e) as nat);
            assert(small_q * t < big_q * t) by (nonlinear_arith)
                requires
                    small_q < big_q,
                    t > 0,
            ;
        }
    }
}

/// The rounded rating change is unique: the formula gives every match one
/// rating change for each side.
pub proof fn lemma_rating_change_is_unique(
    own: int,
    opponent: int,
    result: GameResult,
    c1: int,
    c2: int,
)
    requires
        is_rating_change(own, opponent, result, c1),
        is_rating_change(own, opponent, result, c2),
    ensures
        c1 == c2,
{
    if c1 < c2 {
        lemma_change_bounds_are_ordered(own, opponent, result, 2 * c1 + 1, 2 * c2 - 1);
    } else if c2 < c1 {
        lemma_change_bounds_are_ordered(own, opponent, result, 2 * c2 + 1, 2 * c1 - 1);
    }
}

/// A rating never changes by more than 32 points in one match.
pub proof fn lemma_rating_change_is_bounded(
    own: int,
    opponent: int,
    result: GameResult,
    change: int,
)
    requires
        is_rating_change(own, opponent, result, change),
    ensures
        -K_FACTOR <= change <= K_FACTOR,
        result == GameResult::Win ==> change >= 0,
        result == GameResult::Loss ==> change <= 0,
        result == GameResult::Tie ==> -16 <= change <= 16,
{
}

/// The formula gives every match a rating change for each side: some whole
/// number is the rounded exact change, so `exact_rating_change` is it.
pub proof fn lemma_rating_change_exists(own: int, opponent: int, result: GameResult)
    ensures
        is_rating_change(own, opponent, result, exact_rating_change(own, opponent, result)),
{
    let e = opponent - own;
    lemma_thresholds_enclose(e, 0);
    let points = choose|points: int| encloses(e, points);
    lemma_win_points(e, points);
    let change = match result {
        GameResult::Win => points,
        GameResult::Tie => points - 16,
        GameResult::Loss => points - 32,
    };
    assert(is_rating_change(own, opponent, result, change));
}

/// Whether the rating difference `e` has reached the threshold of `points`
/// and not the next one.
spec fn encloses(e: int, points: int) -> bool {
    &&& 0 <= points <= 32
    &&& points >= 1 ==> threshold(points) <= e
    &&& points <= 31 ==> e < threshold(points + 1)
}

/// Every rating difference lies between two thresholds next to each other.
proof fn lemma_thresholds_enclose(e: int, from: int)
    requires
        0 <= from <= 32,
        from >= 1 ==> threshold(from) <= e,
    ensures
        exists|points: int| encloses(e, points),
    decreases 32 - from,
{
    if from <= 31 && threshold(from + 1) <= e {
        lemma_thresholds_enclose(e, from + 1);
    } else {
        assert(encloses(e, from));
    }
}

/// Between players of equal rating the expected score is 1/2: the winner of
/// a decisive match gains 16 points, the loser loses 16, and a tie changes
/// neither rating.
pub proof fn lemma_equal_ratings(rating: int)
    ensures
        exact_rating_change(rating, rating, GameResult::Win) == 16,
        exact_rating_change(rating, rating, GameResult::Loss) == -16,
        exact_rating_change(rating, rating, GameResult::Tie) == 0,
        is_rating_change(rating, rating, GameResult::Win, 16),
        is_rating_change(rating, rating, GameResult::Loss, -16),
        is_rating_change(rating, rating, GameResult::Tie, 0),
{
    lemma_win_points(0, 16);
    lemma_rating_change_exists(rating, rating, GameResult::Win);
    lemma_rating_change_exists(rating, rating, GameResult::Loss);
    lemma_rating_change_exists(rating, rating, GameResult::Tie);
    lemma_rating_change_is_unique(
        rating,
        rating,
        GameResult::Win,
        16,
        exact_rating_change(rating, rating, GameResult::Win),
    );
    lemma_rating_change_is_unique(
        rating,
        rating,
        GameResult::Loss,
        -16,
        exact_rating_change(rating, rating, GameResult::Loss),
    );
    lemma_rating_change_is_unique(
        rating,
        rating,
        GameResult::Tie,
        0,
        exact_rating_change(rating, rating, GameResult::Tie),
    );
}

/// What one side gains the other loses: the rating change of the opponent,
/// who sees the mirrored result, is the negative of one's own.
pub proof fn lemma_rating_changes_cancel(
    own: int,
    opponent: int,
    result: GameResult,
    change: int,
)
    requires
        is_rating_change(own, opponent, result, change),
    ensures
        is_rating_change(opponent, own, result.mirrored(), -change),
        exact_rating_change(opponent, own, result.mirrored()) == -exact_rating_change(
            own,
            opponent,
            result,
        ),
{
    lemma_rating_change_is_unique(
        own,
        opponent,
        result,
        change,
        exact_rating_change(own, opponent, result),
    );
    lemma_rating_change_exists(opponent, own, result.mirrored());
    lemma_mirrored_bounds(own, opponent, result, 2 * change - 1);
    lemma_mirrored_bounds(own, opponent, result, 2 * change + 1);
    lemma_mirrored_bounds(own, opponent, result, -1);
    lemma_mirrored_bounds(own, opponent, result, 1);
    lemma_rating_change_is_unique(
        opponent,
        own,
        result.mirrored(),
        -change,
        exact_rating_change(opponent, own, result.mirrored()),
    );
}

/// The opponent's exact change is the negative of one's own.
proof fn lemma_mirrored_bounds(own: int, opponent: int, result: GameResult, h: int)
    ensures
        twice_change_at_least(opponent, own, result.mirrored(), -h) <==> !twice_change_above(
            own,
            opponent,
            result,
            h,
        ),
        twice_change_above(opponent, own, result.mirrored(), -h) <==> !twice_change_at_least(
            own,
            opponent,
            result,
            h,
        ),
{
    let e = opponent - own;
    let p = actual64(result) - h;
    if 0 < p < 64 {
        lemma_pow0(10);
        let pp = pow(p, 400);
        let qq = pow(64 - p, 400);
        if e == 0 {
            assert(pp * 1 == pp && qq * 1 == qq);
        }
    }
}

} // verus!
