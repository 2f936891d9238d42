//! The per-game engine: a randomised seat order, the main loop with endgame
//! detection and in-game disqualification, and the payout computation.

use vstd::prelude::*;

verus! {

use crate::dice::DiceSource;
use crate::rules::{
    PlayerState, TurnEnd, TurnHistoryEntry, lemma_turn_fold_banked, lemma_turn_fold_bounded,
    simulate_turn, turn_fold, turn_init,
};
use crate::strategy::{Strategy, StrategyFault};
use vstd::pervasive::VecAdditionalExecFns;
use vstd::seq_lib::group_to_multiset_ensures;

/// Why a game stopped without producing results.
#[derive(Debug)]
pub enum GameError {
    /// A strategy raised a non-memory fault; it propagates to the runner.
    Fault(StrategyFault),
    /// The turn budget ran out: some strategy never lets the game finish.
    /// Treated like a fault by the runner.
    OutOfTurns,
}

/// The most seats a game can pay out without its 64-bit money totals
/// overflowing.
pub const MAX_SEATS: usize = 1_000_000_000;

/// The money column of per-seat results, summed.
pub open spec fn sum_money(results: Seq<(u32, i64)>) -> int
    decreases results.len(),
{
    if results.len() == 0 {
        0
    } else {
        sum_money(results.drop_last()) + results.last().1
    }
}

/// The wins column of per-seat results, summed.
pub open spec fn sum_wins(results: Seq<(u32, i64)>) -> int
    decreases results.len(),
{
    if results.len() == 0 {
        0
    } else {
        sum_wins(results.drop_last()) + results.last().0
    }
}

/// Appending one row adds its money to the total.
proof fn lemma_sum_push(results: Seq<(u32, i64)>, row: (u32, i64))
    ensures
        sum_money(results.push(row)) == sum_money(results) + row.1,
        sum_wins(results.push(row)) == sum_wins(results) + row.0,
{
    assert(results.push(row).drop_last() =~= results);
}

/// All-zero rows sum to zero.
proof fn lemma_sum_zero_rows(results: Seq<(u32, i64)>)
    requires
        forall|i: int| 0 <= i < results.len() ==> results[i] == (0u32, 0i64),
    ensures
        sum_money(results) == 0,
        sum_wins(results) == 0,
    decreases results.len(),
{
    if results.len() > 0 {
        lemma_sum_zero_rows(results.drop_last());
    }
}

/// What a losing seat pays the winner: the score gap, doubled for a seat
/// that ends on zero.
pub open spec fn payment(winner_score: u32, loser_score: u32) -> int {
    if loser_score == 0 {
        2 * (winner_score - loser_score)
    } else {
        winner_score - loser_score
    }
}

/// The payments owed to the winner by the active seats before `upto`.
pub open spec fn losers_total(
    scores: Seq<u32>,
    disqualified: Seq<bool>,
    winner: int,
    upto: int,
) -> int
    decreases upto,
{
    if upto <= 0 {
        0
    } else {
        losers_total(scores, disqualified, winner, upto - 1) + if upto - 1 != winner
            && !disqualified[upto - 1] {
            payment(scores[winner], scores[upto - 1])
        } else {
            0
        }
    }
}

/// The payout table determined by final scores, the disqualification flags
/// and a winner: the winner's row holds the single win and everything the
/// active losers pay; every active loser pays its gap to the winner (doubled
/// from zero); disqualified rows are zero.
pub open spec fn payout_rows(scores: Seq<u32>, disqualified: Seq<bool>, winner: int) -> Seq<
    (u32, i64),
> {
    Seq::new(
        scores.len(),
        |j: int|
            if disqualified[j] {
                (0u32, 0i64)
            } else if j == winner {
                (1u32, losers_total(scores, disqualified, winner, scores.len() as int) as i64)
            } else {
                (0u32, (0 - payment(scores[winner], scores[j])) as i64)
            },
    )
}

/// The rows a finished game may report: with any seat left standing, the
/// payout table of some final scores under some winner — an active seat
/// whose score no active seat beats; with none, all rows zero.
pub open spec fn valid_game_rows(results: Seq<(u32, i64)>, disqualified: Seq<bool>) -> bool {
    if exists|i: int| 0 <= i < disqualified.len() && !(#[trigger] disqualified[i]) {
        exists|scores: Seq<u32>, winner: int|
            {
                &&& scores.len() == disqualified.len()
                &&& 0 <= winner < scores.len()
                &&& !disqualified[winner]
                &&& (forall|j: int|
                    0 <= j < scores.len() && !disqualified[j] ==> (#[trigger] scores[j])
                        <= scores[winner])
                &&& results == #[trigger] payout_rows(scores, disqualified, winner)
            }
    } else {
        forall|i: int| 0 <= i < results.len() ==> (#[trigger] results[i]) == (0u32, 0i64)
    }
}

/// The rows of a game that ended through the endgame: a payout table whose
/// winner crossed the threshold.
pub open spec fn endgame_game_rows(results: Seq<(u32, i64)>, disqualified: Seq<bool>) -> bool {
    exists|scores: Seq<u32>, winner: int|
        {
            &&& scores.len() == disqualified.len()
            &&& 0 <= winner < scores.len()
            &&& !disqualified[winner]
            &&& (forall|j: int|
                0 <= j < scores.len() && !disqualified[j] ==> (#[trigger] scores[j])
                    <= scores[winner])
            &&& scores[winner] > 100
            &&& results == #[trigger] payout_rows(scores, disqualified, winner)
        }
}

/// A vector of `n` copies of one plain value.
pub fn filled<T: Copy>(n: usize, value: T) -> (r: Vec<T>)
    ensures
        r@.len() == n,
        forall|i: int| 0 <= i < n ==> r@[i] == value,
{
    let mut r: Vec<T> = Vec::new();
    let mut i: usize = 0;
    while i < n
        invariant
            0 <= i <= n,
            r@.len() == i,
            forall|k: int| 0 <= k < i ==> r@[k] == value,
        decreases n - i,
    {
        r.push(value);
        i = i + 1;
    }
    r
}

/// The payout table for one finished game, per the rules: every active
/// non-winner pays the winner its score gap (doubled from zero), the winner
/// collects the lot and the single win, and disqualified seats pay and
/// receive nothing. The table is zero-sum.
#[verifier::loop_isolation(false)]
pub fn compute_payouts(scores: &Vec<u32>, disqualified: &Vec<bool>, winner_index: usize) -> (results:
    Vec<(u32, i64)>)
    requires
        scores@.len() == disqualified@.len(),
        scores@.len() <= MAX_SEATS,
        winner_index < scores@.len(),
        !disqualified@[winner_index as int],
        forall|j: int|
            0 <= j < scores@.len() && !disqualified@[j] ==> scores@[j] <= scores@[winner_index as int],
    ensures
        results@.len() == scores@.len(),
        forall|j: int| 0 <= j < results@.len() && disqualified@[j] ==> results@[j] == (0u32, 0i64),
        forall|j: int|
            0 <= j < results@.len() && !disqualified@[j] && j != winner_index ==> ((#[trigger] results@[j]).0
                == 0 && results@[j].1 == 0 - payment(scores@[winner_index as int], scores@[j])),
        results@[winner_index as int].0 == 1,
        results@[winner_index as int].1 == losers_total(
            scores@,
            disqualified@,
            winner_index as int,
            scores@.len() as int,
        ),
        sum_money(results@) == 0,
        sum_wins(results@) == 1,
        forall|j: int| 0 <= j < results@.len() ==> (#[trigger] results@[j]).0 <= 1,
        results@ == payout_rows(scores@, disqualified@, winner_index as int),
{
    let n: usize = scores.len();
    let winner_score: u32 = scores[winner_index];
    let mut total: i64 = 0;
    let mut j: usize = 0;
    while j < n
        invariant
            0 <= j <= n,
            total == losers_total(scores@, disqualified@, winner_index as int, j as int),
            0 <= total <= j * 0x2_0000_0000,
        decreases n - j,
    {
        if j != winner_index && !disqualified[j] {
            let diff: u32 = winner_score - scores[j];
            let pay: i64 = if scores[j] == 0 {
                2 * (diff as i64)
            } else {
                diff as i64
            };
            assert(pay == payment(scores@[winner_index as int], scores@[j as int]));
            total = total + pay;
        }
        j = j + 1;
    }
    let mut results: Vec<(u32, i64)> = Vec::new();
    let mut k: usize = 0;
    while k < n
        invariant
            0 <= k <= n,
            results@.len() == k,
            total == losers_total(scores@, disqualified@, winner_index as int, n as int),
            forall|t: int| 0 <= t < k && disqualified@[t] ==> results@[t] == (0u32, 0i64),
            forall|t: int|
                0 <= t < k && !disqualified@[t] && t != winner_index ==> ((#[trigger] results@[t]).0
                    == 0 && results@[t].1 == 0 - payment(scores@[winner_index as int], scores@[t])),
            winner_index < k ==> results@[winner_index as int] == (1u32, total),
            sum_money(results@) == (if winner_index < k {
                total as int
            } else {
                0
            }) - losers_total(scores@, disqualified@, winner_index as int, k as int),
            sum_wins(results@) == (if winner_index < k {
                1int
            } else {
                0
            }),
            forall|t: int| 0 <= t < k ==> (#[trigger] results@[t]).0 <= 1,
        decreases n - k,
    {
        let row: (u32, i64) = if k == winner_index {
            (1, total)
        } else if disqualified[k] {
            (0, 0)
        } else {
            let diff: u32 = winner_score - scores[k];
            let pay: i64 = if scores[k] == 0 {
                2 * (diff as i64)
            } else {
                diff as i64
            };
            (0, 0 - pay)
        };
        proof {
            lemma_sum_push(results@, row);
        }
        results.push(row);
        k = k + 1;
    }
    proof {
        assert(results@ =~= payout_rows(scores@, disqualified@, winner_index as int));
    }
    results
}

/// The seats `0..n` in some order: a permutation of the identity.
pub open spec fn is_seat_permutation(order: Seq<usize>, n: nat) -> bool {
    order.to_multiset() == Seq::new(n, |i: int| i as usize).to_multiset()
}

/// A seat permutation has length `n` and every entry below `n`.
pub proof fn lemma_seat_permutation_bounds(order: Seq<usize>, n: nat)
    requires
        is_seat_permutation(order, n),
    ensures
        order.len() == n,
        forall|i: int| 0 <= i < order.len() ==> (#[trigger] order[i]) < n,
{
    broadcast use group_to_multiset_ensures;

    let identity = Seq::new(n, |i: int| i as usize);
    assert(order.len() == order.to_multiset().len());
    assert(identity.len() == identity.to_multiset().len());
    assert forall|i: int| 0 <= i < order.len() implies (#[trigger] order[i]) < n by {
        assert(order.contains(order[i]));
        assert(order.to_multiset().count(order[i]) > 0);
        assert(identity.to_multiset().count(order[i]) > 0);
        assert(identity.contains(order[i]));
        let j = choose|j: int| 0 <= j < identity.len() && identity[j] == order[i];
        assert(identity[j] == j as usize);
    }
}

/// A seat permutation visits every seat exactly once: distinct positions
/// hold distinct seats, and every seat has a position.
/// Seat `s` sits at some position of `order`.
pub open spec fn has_position(order: Seq<usize>, s: int) -> bool {
    exists|t: int| 0 <= t < order.len() && (#[trigger] order[t]) as int == s
}

pub proof fn lemma_seat_permutation_injective(order: Seq<usize>, n: nat)
    requires
        is_seat_permutation(order, n),
        n <= usize::MAX,
    ensures
        order.len() == n,
        forall|t1: int, t2: int|
            0 <= t1 < t2 < order.len() ==> (#[trigger] order[t1]) != (#[trigger] order[t2]),
        forall|s: int| 0 <= s < n ==> #[trigger] has_position(order, s),
{
    broadcast use group_to_multiset_ensures;

    lemma_seat_permutation_bounds(order, n);
    let identity = Seq::new(n, |i: int| i as usize);
    assert(identity.no_duplicates());
    identity.lemma_multiset_has_no_duplicates();
    assert forall|x: usize| order.to_multiset().contains(x) implies order.to_multiset().count(x)
        == 1 by {
        assert(identity.to_multiset().count(x) == order.to_multiset().count(x));
    }
    order.lemma_multiset_has_no_duplicates_conv();
    assert forall|s: int| 0 <= s < n implies #[trigger] has_position(order, s) by {
        assert(identity[s] == s as usize);
        assert(identity.contains(s as usize));
        assert(identity.to_multiset().count(s as usize) > 0);
        assert(order.to_multiset().count(s as usize) > 0);
        assert(order.contains(s as usize));
        let t = choose|t: int| 0 <= t < order.len() && order[t] == s as usize;
        assert(order[t] as int == s);
    }
}

/// How many steps the cycle over `n` positions takes from `from` to `to`.
pub open spec fn cyc_dist(from: int, to: int, n: int) -> int {
    if to >= from {
        to - from
    } else {
        to - from + n
    }
}

/// Once the cycle has come all the way around from the leader's position,
/// every active seat has had its response turn: each seat sits at some
/// position, and every position was either the leader's own, the one just
/// acted on, or strictly between the two — all accounted for.
proof fn lemma_cycle_covered(
    order: Seq<usize>,
    n: int,
    leader_pos: int,
    current: int,
    disqualified: Seq<bool>,
    had: Seq<bool>,
    leader_seat: usize,
)
    requires
        is_seat_permutation(order, n as nat),
        n <= usize::MAX,
        disqualified.len() == n,
        had.len() == n,
        0 <= leader_pos < n,
        0 <= current < n,
        cyc_dist(leader_pos, current, n) == n - 1,
        order[leader_pos] == leader_seat,
        had[leader_seat as int],
        disqualified[order[current] as int] || had[order[current] as int],
        forall|t: int|
            0 <= t < n && 0 < cyc_dist(leader_pos, t, n) < n - 1 && !disqualified[(
            #[trigger] order[t]) as int] ==> had[order[t] as int],
    ensures
        forall|x: int| 0 <= x < n && !(#[trigger] disqualified[x]) ==> had[x],
{
    lemma_seat_permutation_injective(order, n as nat);
    assert forall|x: int| 0 <= x < n && !(#[trigger] disqualified[x]) implies had[x] by {
        assert(has_position(order, x));
        let t = choose|t: int| 0 <= t < order.len() && (#[trigger] order[t]) as int == x;
        if t == leader_pos {
            assert(x == leader_seat as int);
        } else if t == current {
        } else {
            assert(0 < cyc_dist(leader_pos, t, n) < n - 1);
        }
    }
}

/// Marking one seat disqualified lowers the active count by at most one.
proof fn lemma_active_seats_update_true(disqualified: Seq<bool>, i: int)
    requires
        0 <= i < disqualified.len(),
    ensures
        active_seats(disqualified.update(i, true)) >= active_seats(disqualified) - 1,
    decreases disqualified.len(),
{
    let u = disqualified.update(i, true);
    if i == disqualified.len() - 1 {
        assert(u.drop_last() =~= disqualified.drop_last());
    } else {
        assert(u.drop_last() =~= disqualified.drop_last().update(i, true));
        assert(u.last() == disqualified.last());
        lemma_active_seats_update_true(disqualified.drop_last(), i);
    }
}

/// With two seats standing, any seat has an active seat other than itself.
pub proof fn lemma_two_active_seats(disqualified: Seq<bool>, i: int)
    requires
        active_seats(disqualified) >= 2,
        0 <= i < disqualified.len(),
    ensures
        exists|j: int| 0 <= j < disqualified.len() && j != i && !(#[trigger] disqualified[j]),
{
    lemma_active_seats_update_true(disqualified, i);
    lemma_active_seats_exists(disqualified.update(i, true));
    let j = choose|j: int|
        0 <= j < disqualified.update(i, true).len() && !(#[trigger] disqualified.update(
            i,
            true,
        )[j]);
    assert(j != i && !disqualified[j]);
}

/// Relies on rand's `SliceRandom::shuffle`: an in-place permutation of the
/// slice — elements are rearranged, none added or dropped.
#[verifier::external_body]
fn shuffle_seats(order: &mut Vec<usize>)
    ensures
        final(order)@.to_multiset() == old(order)@.to_multiset(),
{
    let mut rng = rand::rng();
    rand::seq::SliceRandom::shuffle(order.as_mut_slice(), &mut rng);
}

/// A fresh random order of the seats `0..num_players`.
pub fn random_player_order(num_players: usize) -> (order: Vec<usize>)
    ensures
        is_seat_permutation(order@, num_players as nat),
{
    let mut order: Vec<usize> = Vec::new();
    let mut i: usize = 0;
    while i < num_players
        invariant
            0 <= i <= num_players,
            order@.len() == i,
            forall|k: int| 0 <= k < i ==> order@[k] == k as usize,
        decreases num_players - i,
    {
        order.push(i);
        i = i + 1;
    }
    proof {
        assert(order@ =~= Seq::new(num_players as nat, |k: int| k as usize));
    }
    shuffle_seats(&mut order);
    order
}

/// The number of seats not marked disqualified.
pub open spec fn active_seats(disqualified: Seq<bool>) -> int
    decreases disqualified.len(),
{
    if disqualified.len() == 0 {
        0
    } else {
        active_seats(disqualified.drop_last()) + if disqualified.last() {
            0int
        } else {
            1int
        }
    }
}

/// No more seats are active than there are seats.
pub proof fn lemma_active_seats_le_len(disqualified: Seq<bool>)
    ensures
        0 <= active_seats(disqualified) <= disqualified.len(),
    decreases disqualified.len(),
{
    if disqualified.len() > 0 {
        lemma_active_seats_le_len(disqualified.drop_last());
    }
}

/// A positive active count names an active seat.
pub proof fn lemma_active_seats_exists(disqualified: Seq<bool>)
    requires
        active_seats(disqualified) > 0,
    ensures
        exists|i: int| 0 <= i < disqualified.len() && !(#[trigger] disqualified[i]),
    decreases disqualified.len(),
{
    if disqualified.len() > 0 {
        if disqualified.last() {
            lemma_active_seats_exists(disqualified.drop_last());
            let i = choose|i: int|
                0 <= i < disqualified.drop_last().len() && !(#[trigger] disqualified.drop_last()[i]);
            assert(!disqualified[i]);
        } else {
            assert(!disqualified[disqualified.len() - 1]);
        }
    }
}

/// Count the seats not marked disqualified.
#[verifier::loop_isolation(false)]
pub fn count_active(disqualified: &Vec<bool>) -> (c: usize)
    ensures
        c == active_seats(disqualified@),
{
    let n: usize = disqualified.len();
    let mut c: usize = 0;
    let mut i: usize = 0;
    while i < n
        invariant
            0 <= i <= n,
            c <= i,
            c == active_seats(disqualified@.take(i as int)),
        decreases n - i,
    {
        proof {
            assert(disqualified@.take(i + 1).drop_last() =~= disqualified@.take(i as int));
        }
        if !disqualified[i] {
            c = c + 1;
        }
        i = i + 1;
    }
    proof {
        assert(disqualified@.take(n as int) =~= disqualified@);
    }
    c
}

/// The position the cycle visits after `current`.
fn next_position(current: usize, num_players: usize) -> (r: usize)
    requires
        current < num_players,
    ensures
        r < num_players,
        r as int == (if current + 1 == num_players {
            0int
        } else {
            current as int + 1
        }),
{
    if current + 1 == num_players {
        0
    } else {
        current + 1
    }
}

/// Whether every active seat has had its response turn since the last
/// leader change.
#[verifier::loop_isolation(false)]
fn all_active_had_turn(disqualified: &Vec<bool>, had_final_turn: &Vec<bool>) -> (r: bool)
    requires
        disqualified@.len() == had_final_turn@.len(),
    ensures
        r == forall|i: int|
            0 <= i < disqualified@.len() ==> (disqualified@[i] || had_final_turn@[i]),
{
    let n: usize = disqualified.len();
    let mut i: usize = 0;
    while i < n
        invariant
            0 <= i <= n,
            forall|k: int| 0 <= k < i ==> (disqualified@[k] || had_final_turn@[k]),
        decreases n - i,
    {
        if !disqualified[i] && !had_final_turn[i] {
            return false;
        }
        i = i + 1;
    }
    true
}

/// The banked scores of all seats, in seat order.
#[verifier::loop_isolation(false)]
fn banked_scores(players: &Vec<PlayerState>) -> (r: Vec<u32>)
    ensures
        r@.len() == players@.len(),
        forall|i: int| 0 <= i < players@.len() ==> r@[i] == (#[trigger] players@[i]).banked_score,
{
    let n: usize = players.len();
    let mut r: Vec<u32> = Vec::new();
    let mut i: usize = 0;
    while i < n
        invariant
            0 <= i <= n,
            r@.len() == i,
            forall|k: int| 0 <= k < i ==> r@[k] == (#[trigger] players@[k]).banked_score,
        decreases n - i,
    {
        r.push(players[i].banked_score);
        i = i + 1;
    }
    r
}

/// Choose the winner among the active seats: the highest final score wins,
/// and a tie at the top resolves to `leader_index` — the last seat to
/// strictly exceed the previous leader — so that the first seat to cross
/// the threshold keeps the win. Away from that tie, the lowest-numbered
/// seat holding the highest score wins.
#[verifier::loop_isolation(false)]
pub fn select_winner(scores: &Vec<u32>, disqualified: &Vec<bool>, leader_index: usize) -> (w: usize)
    requires
        scores@.len() == disqualified@.len(),
        leader_index < scores@.len(),
        exists|i: int| 0 <= i < disqualified@.len() && !(#[trigger] disqualified@[i]),
    ensures
        w < scores@.len(),
        !disqualified@[w as int],
        forall|j: int|
            0 <= j < scores@.len() && !disqualified@[j] ==> (#[trigger] scores@[j])
                <= scores@[w as int],
        (!disqualified@[leader_index as int] && (forall|j: int|
            0 <= j < scores@.len() && !disqualified@[j] ==> (#[trigger] scores@[j])
                <= scores@[leader_index as int])) ==> w == leader_index,
        w != leader_index ==> (forall|j: int|
            0 <= j < w && !disqualified@[j] ==> (#[trigger] scores@[j]) < scores@[w as int]),
{
    let n: usize = scores.len();
    let mut found = false;
    let mut max_index: usize = 0;
    let mut max_score: u32 = 0;
    let mut j: usize = 0;
    while j < n
        invariant
            0 <= j <= n,
            found == exists|k: int| 0 <= k < j && !(#[trigger] disqualified@[k]),
            found ==> (max_index < j && !disqualified@[max_index as int]
                && scores@[max_index as int] == max_score),
            found ==> forall|k: int|
                0 <= k < j && !disqualified@[k] ==> (#[trigger] scores@[k]) <= max_score,
            found ==> forall|k: int|
                0 <= k < max_index && !disqualified@[k] ==> (#[trigger] scores@[k]) < max_score,
        decreases n - j,
    {
        if !disqualified[j] && (!found || scores[j] > max_score) {
            found = true;
            max_index = j;
            max_score = scores[j];
        }
        j = j + 1;
    }
    if !disqualified[leader_index] && scores[leader_index] == max_score {
        leader_index
    } else {
        max_index
    }
}

/// Settle a finished game: the winner comes from [`select_winner`], and the
/// payout table and peak-memory readings are produced. With no active seat
/// left there is no winner and every row is zero.
#[verifier::loop_isolation(false)]
fn finish_game<S: Strategy>(
    strategies: &Vec<S>,
    players: &Vec<PlayerState>,
    disqualified: Vec<bool>,
    leader_index: usize,
) -> (r: (Vec<(u32, i64)>, Vec<u64>, Vec<bool>))
    requires
        strategies@.len() == players@.len(),
        disqualified@.len() == players@.len(),
        players@.len() <= MAX_SEATS,
        leader_index < players@.len(),
    ensures
        r.0@.len() == players@.len(),
        r.1@.len() == players@.len(),
        r.2@ == disqualified@,
        forall|i: int| 0 <= i < r.0@.len() && disqualified@[i] ==> r.0@[i] == (0u32, 0i64),
        sum_money(r.0@) == 0,
        (exists|i: int| 0 <= i < disqualified@.len() && !disqualified@[i]) ==> sum_wins(r.0@) == 1,
        (forall|i: int| 0 <= i < disqualified@.len() ==> disqualified@[i]) ==> sum_wins(r.0@) == 0,
        forall|i: int| 0 <= i < r.0@.len() && (#[trigger] r.0@[i]).0 == 1 ==> !disqualified@[i],
        forall|i: int| 0 <= i < r.0@.len() ==> (#[trigger] r.0@[i]).0 <= 1,
        valid_game_rows(r.0@, disqualified@),
        (exists|i: int|
            0 <= i < players@.len() && !disqualified@[i] && (#[trigger] players@[i]).score > 100)
            ==> endgame_game_rows(r.0@, disqualified@),
{
    let n: usize = players.len();
    let mut usage: Vec<u64> = Vec::new();
    let mut i: usize = 0;
    while i < n
        invariant
            0 <= i <= n,
            usage@.len() == i,
        decreases n - i,
    {
        usage.push(strategies[i].peak_memory_bytes());
        i = i + 1;
    }
    let mut found = false;
    let mut j: usize = 0;
    while j < n
        invariant
            0 <= j <= n,
            found == exists|k: int| 0 <= k < j && !disqualified@[k],
        decreases n - j,
    {
        if !disqualified[j] {
            found = true;
            j = n;
        } else {
            j = j + 1;
        }
    }
    if !found {
        let results: Vec<(u32, i64)> = filled(n, (0u32, 0i64));
        proof {
            lemma_sum_zero_rows(results@);
        }
        return (results, usage, disqualified);
    }
    let mut scores: Vec<u32> = Vec::new();
    let mut t: usize = 0;
    while t < n
        invariant
            0 <= t <= n,
            scores@.len() == t,
            forall|k: int| 0 <= k < t ==> scores@[k] == (#[trigger] players@[k]).score,
        decreases n - t,
    {
        scores.push(players[t].score);
        t = t + 1;
    }
    let winner_index = select_winner(&scores, &disqualified, leader_index);
    let results = compute_payouts(&scores, &disqualified, winner_index);
    proof {
        assert(results@ == payout_rows(scores@, disqualified@, winner_index as int));
        if exists|i: int|
            0 <= i < players@.len() && !disqualified@[i] && (#[trigger] players@[i]).score > 100 {
            let witness = choose|i: int|
                0 <= i < players@.len() && !disqualified@[i] && (#[trigger] players@[i]).score
                    > 100;
            assert(scores@[witness] == players@[witness].score);
            assert(scores@[winner_index as int] > 100);
        }
    }
    (results, usage, disqualified)
}

/// Run one game between the given seats, visiting them in `player_order`.
///
/// Seats already disqualified are skipped and stay disqualified; a seat
/// whose strategy breaches its memory limit is disqualified mid-game. The
/// game ends when, after some seat crosses one hundred, every active seat
/// has had a turn without overtaking the leader — or at once when at most
/// one active seat remains. The returned rows are zero-sum, award exactly
/// one win when any seat is left standing, and give disqualified seats
/// nothing.
#[verifier::loop_isolation(false)]
pub fn simulate_game_with_order<S: Strategy, D: DiceSource>(
    strategies: &mut Vec<S>,
    already_disqualified: &Vec<bool>,
    player_order: &Vec<usize>,
    dice: &mut D,
    turn_budget: u64,
) -> (r: Result<(Vec<(u32, i64)>, Vec<u64>, Vec<bool>), GameError>)
    requires
        old(strategies)@.len() == already_disqualified@.len(),
        old(strategies)@.len() <= MAX_SEATS,
        is_seat_permutation(player_order@, old(strategies)@.len() as nat),
        exists|i: int|
            0 <= i < already_disqualified@.len() && !(#[trigger] already_disqualified@[i]),
    ensures
        final(strategies)@.len() == old(strategies)@.len(),
        turn_budget == 0 ==> r is Err,
        match r {
            Ok(out) => {
                let n = old(strategies)@.len() as int;
                &&& out.0@.len() == n
                &&& out.1@.len() == n
                &&& out.2@.len() == n
                &&& forall|i: int|
                    0 <= i < n && already_disqualified@[i] ==> (#[trigger] out.2@[i])
                &&& forall|i: int| 0 <= i < n && out.2@[i] ==> out.0@[i] == (0u32, 0i64)
                &&& sum_money(out.0@) == 0
                &&& ((exists|i: int| 0 <= i < n && !(#[trigger] out.2@[i])) ==> sum_wins(out.0@)
                    == 1)
                &&& ((forall|i: int| 0 <= i < n ==> (#[trigger] out.2@[i])) ==> sum_wins(out.0@)
                    == 0)
                &&& forall|i: int| 0 <= i < n && (#[trigger] out.0@[i]).0 == 1 ==> !out.2@[i]
                &&& forall|i: int| 0 <= i < n ==> (#[trigger] out.0@[i]).0 <= 1
                &&& valid_game_rows(out.0@, out.2@)
                &&& ((out.2@ == already_disqualified@ && active_seats(already_disqualified@) >= 2)
                    ==> endgame_game_rows(out.0@, out.2@))
            },
            Err(_) => true,
        },
{
    let num_players: usize = strategies.len();
    proof {
        lemma_seat_permutation_bounds(player_order@, num_players as nat);
        lemma_seat_permutation_injective(player_order@, num_players as nat);
        lemma_active_seats_le_len(already_disqualified@);
    }
    let mut players: Vec<PlayerState> = filled(num_players, PlayerState::new());
    let mut disqualified: Vec<bool> = crate::rules::copy_vec(already_disqualified);
    let mut turn_history: Vec<TurnHistoryEntry> = Vec::new();
    let mut players_had_final_turn: Vec<bool> = filled(num_players, false);
    let mut current_player_index: usize = 0;
    let mut leader_score: u32 = 0;
    let mut leader_index: usize = 0;
    let mut endgame_started = false;
    let mut turns_used: u64 = 0;
    let ghost mut newly_disqualified: bool = false;
    let ghost mut leader_pos: int = 0;
    loop
        invariant
            strategies@.len() == num_players,
            players@.len() == num_players,
            disqualified@.len() == num_players,
            players_had_final_turn@.len() == num_players,
            current_player_index < num_players,
            leader_index < num_players,
            forall|i: int|
                0 <= i < num_players && already_disqualified@[i] ==> (#[trigger] disqualified@[i]),
            exists|i: int| 0 <= i < num_players && !(#[trigger] disqualified@[i]),
            // the data-model invariant: at turn boundaries an active seat's
            // bank equals its score
            forall|i: int|
                0 <= i < num_players && !disqualified@[i] ==> (#[trigger] players@[i]).banked_score
                    == players@[i].score,
            // and no active seat's score passes the threshold before the
            // endgame begins
            !endgame_started ==> forall|i: int|
                0 <= i < num_players && !disqualified@[i] ==> (#[trigger] players@[i]).score <= 99,
            newly_disqualified == (disqualified@ != already_disqualified@),
            // while nobody was disqualified mid-game, the standing leader
            // crossed the threshold, and the cycle never returns to the
            // leader's own position: every active seat strictly between the
            // leader's position and the cycle's current one has had its
            // response turn, and some active seat still awaits one
            (endgame_started && !newly_disqualified && active_seats(already_disqualified@) >= 2)
                ==> ({
                &&& 0 <= leader_pos < num_players
                &&& player_order@[leader_pos] == leader_index
                &&& !disqualified@[leader_index as int]
                &&& players@[leader_index as int].score == leader_score
                &&& leader_score > 100
                &&& players_had_final_turn@[leader_index as int]
                &&& current_player_index as int != leader_pos
                &&& (exists|x: int|
                    0 <= x < num_players && !(#[trigger] disqualified@[x])
                        && !players_had_final_turn@[x])
                &&& (forall|t: int|
                    #![trigger player_order@[t]]
                    0 <= t < num_players && 0 < cyc_dist(leader_pos, t, num_players as int)
                        < cyc_dist(leader_pos, current_player_index as int, num_players as int)
                        && !disqualified@[player_order@[t] as int]
                        ==> players_had_final_turn@[player_order@[t] as int])
            }),
            turns_used <= turn_budget,
        decreases turn_budget - turns_used,
    {
        if turns_used == turn_budget {
            return Err(GameError::OutOfTurns);
        }
        turns_used = turns_used + 1;
        let current: usize = player_order[current_player_index];
        if disqualified[current] {
            proof {
                if endgame_started && !newly_disqualified && active_seats(already_disqualified@)
                    >= 2 {
                    if cyc_dist(leader_pos, current_player_index as int, num_players as int)
                        == num_players - 1 {
                        lemma_cycle_covered(
                            player_order@,
                            num_players as int,
                            leader_pos,
                            current_player_index as int,
                            disqualified@,
                            players_had_final_turn@,
                            leader_index,
                        );
                        let x = choose|x: int|
                            0 <= x < num_players && !(#[trigger] disqualified@[x])
                                && !players_had_final_turn@[x];
                        assert(false);
                    }
                }
            }
            current_player_index = next_position(current_player_index, num_players);
            continue;
        }
        if strategies[current].is_memory_limit_exceeded() {
            disqualified.set(current, true);
            proof {
                newly_disqualified = true;
                assert(disqualified@[current as int] != already_disqualified@[current as int]);
                assert(disqualified@ != already_disqualified@);
            }
            current_player_index = next_position(current_player_index, num_players);
            if count_active(&disqualified) <= 1 {
                return Ok(finish_game(strategies, &players, disqualified, leader_index));
            }
            proof {
                lemma_active_seats_exists(disqualified@);
            }
            continue;
        }
        let all_banked = banked_scores(&players);
        let mut player_state = players[current];
        let ghost entry_state: PlayerState = player_state;
        let ghost history_before: Seq<TurnHistoryEntry> = turn_history@;
        let mut strategy = strategies.remove(current);
        let turn = simulate_turn(
            &mut player_state,
            &all_banked,
            current,
            &mut strategy,
            &mut turn_history,
            dice,
        );
        strategies.insert(current, strategy);
        proof {
            assert(strategies@.len() == num_players);
        }
        players.set(current, player_state);
        proof {
            // Before the endgame the seat came in below the threshold, so
            // only a crossing roll — which starts the endgame below — can
            // leave it above one hundred.
            if !endgame_started {
                let rolls = turn_history@.skip(history_before.len() as int).map_values(
                    |e: TurnHistoryEntry| e.1,
                );
                let init = turn_init(entry_state);
                lemma_turn_fold_bounded(init, rolls);
                let ft = turn_fold(init, rolls);
                match ft.ended {
                    None => {},
                    Some(TurnEnd::SnakeEyes) => {},
                    Some(TurnEnd::SevenOut) => {},
                    Some(TurnEnd::TripleDoubles) => {},
                    Some(TurnEnd::ExactHundred) => {},
                    Some(TurnEnd::CrossedHundred) => {},
                }
                assert(player_state.score <= 99 || player_state.score > 100);
            }
        }
        let memory_exceeded: bool = match turn {
            Err(fault) => {
                return Err(GameError::Fault(fault));
            },
            Ok(pair) => pair.1,
        };
        if memory_exceeded || strategies[current].is_memory_limit_exceeded() {
            disqualified.set(current, true);
            proof {
                newly_disqualified = true;
                assert(disqualified@[current as int] != already_disqualified@[current as int]);
                assert(disqualified@ != already_disqualified@);
            }
            if count_active(&disqualified) <= 1 {
                return Ok(finish_game(strategies, &players, disqualified, leader_index));
            }
            proof {
                lemma_active_seats_exists(disqualified@);
            }
            current_player_index = next_position(current_player_index, num_players);
            continue;
        }
        proof {
            // The turn ended cleanly, so the seat's bank equals its score
            // again: a hold banks it, and every ending roll either clears
            // both, restores the turn start (which equalled the bank), or
            // banks the crossing score.
            let rolls = turn_history@.skip(history_before.len() as int).map_values(
                |e: TurnHistoryEntry| e.1,
            );
            let init = turn_init(entry_state);
            lemma_turn_fold_banked(init, rolls);
            let ft = crate::rules::turn_fold(init, rolls);
            match ft.ended {
                None => {},
                Some(crate::rules::TurnEnd::SnakeEyes) => {},
                Some(crate::rules::TurnEnd::SevenOut) => {},
                Some(crate::rules::TurnEnd::TripleDoubles) => {},
                Some(crate::rules::TurnEnd::ExactHundred) => {},
                Some(crate::rules::TurnEnd::CrossedHundred) => {},
            }
            assert(player_state.banked_score == player_state.score);
        }
        if !endgame_started && players[current].score > 100 {
            endgame_started = true;
            leader_score = players[current].score;
            leader_index = current;
            players_had_final_turn = filled(num_players, false);
            players_had_final_turn.set(current, true);
            proof {
                leader_pos = current_player_index as int;
                if !newly_disqualified && active_seats(already_disqualified@) >= 2 {
                    lemma_two_active_seats(disqualified@, current as int);
                }
            }
        } else if endgame_started {
            players_had_final_turn.set(current, true);
            if players[current].score > leader_score {
                leader_score = players[current].score;
                leader_index = current;
                players_had_final_turn = filled(num_players, false);
                players_had_final_turn.set(current, true);
                proof {
                    leader_pos = current_player_index as int;
                    if !newly_disqualified && active_seats(already_disqualified@) >= 2 {
                        lemma_two_active_seats(disqualified@, current as int);
                    }
                }
            }
            if all_active_had_turn(&disqualified, &players_had_final_turn) {
                proof {
                    if !newly_disqualified && active_seats(already_disqualified@) >= 2 {
                        if leader_pos != current_player_index as int {
                            assert(player_order@[leader_pos] != player_order@[current_player_index as int]);
                            assert(leader_index != current);
                        }
                        assert(!disqualified@[leader_index as int]);
                        assert(players@[leader_index as int].score > 100);
                    }
                }
                return Ok(finish_game(strategies, &players, disqualified, leader_index));
            }
        }
        proof {
            if endgame_started && !newly_disqualified && active_seats(already_disqualified@) >= 2 {
                if cyc_dist(leader_pos, current_player_index as int, num_players as int)
                    == num_players - 1 {
                    lemma_cycle_covered(
                        player_order@,
                        num_players as int,
                        leader_pos,
                        current_player_index as int,
                        disqualified@,
                        players_had_final_turn@,
                        leader_index,
                    );
                    assert(false);
                }
            }
        }
        current_player_index = next_position(current_player_index, num_players);
    }
}

/// Run one game with a freshly randomised seat order.
pub fn simulate_game<S: Strategy, D: DiceSource>(
    strategies: &mut Vec<S>,
    already_disqualified: &Vec<bool>,
    dice: &mut D,
    turn_budget: u64,
) -> (r: Result<(Vec<(u32, i64)>, Vec<u64>, Vec<bool>), GameError>)
    requires
        old(strategies)@.len() == already_disqualified@.len(),
        old(strategies)@.len() <= MAX_SEATS,
        exists|i: int|
            0 <= i < already_disqualified@.len() && !(#[trigger] already_disqualified@[i]),
    ensures
        final(strategies)@.len() == old(strategies)@.len(),
        turn_budget == 0 ==> r is Err,
        match r {
            Ok(out) => {
                let n = old(strategies)@.len() as int;
                &&& out.0@.len() == n
                &&& out.1@.len() == n
                &&& out.2@.len() == n
                &&& forall|i: int|
                    0 <= i < n && already_disqualified@[i] ==> (#[trigger] out.2@[i])
                &&& forall|i: int| 0 <= i < n && out.2@[i] ==> out.0@[i] == (0u32, 0i64)
                &&& sum_money(out.0@) == 0
                &&& ((exists|i: int| 0 <= i < n && !(#[trigger] out.2@[i])) ==> sum_wins(out.0@)
                    == 1)
                &&& ((forall|i: int| 0 <= i < n ==> (#[trigger] out.2@[i])) ==> sum_wins(out.0@)
                    == 0)
                &&& forall|i: int| 0 <= i < n && (#[trigger] out.0@[i]).0 == 1 ==> !out.2@[i]
                &&& forall|i: int| 0 <= i < n ==> (#[trigger] out.0@[i]).0 <= 1
                &&& valid_game_rows(out.0@, out.2@)
                &&& ((out.2@ == already_disqualified@ && active_seats(already_disqualified@) >= 2)
                    ==> endgame_game_rows(out.0@, out.2@))
            },
            Err(_) => true,
        },
{
    let order = random_player_order(strategies.len());
    simulate_game_with_order(strategies, already_disqualified, &order, dice, turn_budget)
}

} // verus!
