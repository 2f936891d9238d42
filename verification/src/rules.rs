//! The per-turn rules engine: the dice-resolution state machine, its
//! mathematical model, and the interactive turn procedure that drives a
//! strategy through it.

use vstd::prelude::*;

verus! {

use crate::dice::DiceSource;
use crate::strategy::{Strategy, StrategyFault};

/// One roll of two dice.
pub type DiceRoll = (u32, u32);

/// One history record: which seat rolled, and what came up.
pub type TurnHistoryEntry = (u32, DiceRoll);

/// Per-seat, per-game score tracking.
#[derive(Clone, Copy, PartialEq, Eq, Structural, Debug)]
pub struct PlayerState {
    /// Current round-accumulating score.
    pub score: u32,
    /// Score locked in at the end of the most recently held turn.
    pub banked_score: u32,
    /// Snapshot of `score` at the start of the current turn.
    pub turn_start_score: u32,
    /// Consecutive doubles rolled in the current turn.
    pub doubles_count: u32,
}

impl PlayerState {
    /// The zero-initialised state every seat starts a game with.
    pub fn new() -> (ps: PlayerState)
        ensures
            ps == (PlayerState {
                score: 0u32,
                banked_score: 0u32,
                turn_start_score: 0u32,
                doubles_count: 0u32,
            }),
    {
        PlayerState { score: 0, banked_score: 0, turn_start_score: 0, doubles_count: 0 }
    }
}

/// What a strategy sees at a decision point. Immutable from the strategy's
/// point of view.
pub struct GameState {
    /// The seat being asked.
    pub current_player_index: u32,
    /// That seat's banked score.
    pub current_banked_score: u32,
    /// That seat's current total score.
    pub current_total_score: u32,
    /// Every seat's banked score, in seat order.
    pub all_players_banked_scores: Vec<u32>,
    /// Every roll so far this game.
    pub turn_history: Vec<TurnHistoryEntry>,
}

/// A die face.
pub open spec fn die_valid(d: u32) -> bool {
    1 <= d <= 6
}

/// Both dice of a roll show faces.
pub open spec fn roll_valid(r: DiceRoll) -> bool {
    die_valid(r.0) && die_valid(r.1)
}

/// The banked scores of a sequence of seats, summed modulo four.
pub open spec fn spec_sum_mod4(s: Seq<u32>) -> int
    decreases s.len(),
{
    if s.len() == 0 {
        0
    } else {
        (spec_sum_mod4(s.drop_last()) + s.last()) % 4
    }
}

/// Score accumulation, capped at the top of the counter so that the rules
/// stay total; no reachable game comes near the cap.
pub open spec fn sat_add_score(score: u32, add: u32) -> u32 {
    if score + add > u32::MAX {
        u32::MAX
    } else {
        (score + add) as u32
    }
}

/// How a turn ended, when a roll ended it.
#[derive(Clone, Copy, PartialEq, Eq, Structural, Debug)]
pub enum TurnEnd {
    /// Both dice showed one pip: score and bank reset to zero.
    SnakeEyes,
    /// The dice summed to seven: score reset to the turn's starting value.
    SevenOut,
    /// A third consecutive double: score and bank reset to zero.
    TripleDoubles,
    /// The score landed on exactly one hundred: score and bank reset to zero.
    ExactHundred,
    /// The score passed one hundred: banked, and the endgame begins.
    CrossedHundred,
}

/// A point in the turn state machine: the seat's state, whether (and how) a
/// roll has ended the turn, and whether the next roll is forced.
#[derive(Clone, Copy, PartialEq, Eq, Structural, Debug)]
pub struct TurnStep {
    /// The seat's state at this point.
    pub state: PlayerState,
    /// Set once a roll ended the turn.
    pub ended: Option<TurnEnd>,
    /// A just-rolled double forces the seat to roll again.
    pub must_roll: bool,
}

/// A seat's state at the start of its turn: the turn-start snapshot is
/// taken, and the doubles counter cleared.
pub open spec fn turn_init(ps: PlayerState) -> PlayerState {
    PlayerState { turn_start_score: ps.score, doubles_count: 0u32, ..ps }
}

/// The resolution rules for one roll, in order: snake eyes busts, a seven
/// resets to the turn start, a third double busts, otherwise the sum
/// accumulates — landing exactly on one hundred busts, passing it banks the
/// score and ends the turn.
pub open spec fn roll_step(ps: PlayerState, roll: DiceRoll) -> TurnStep {
    let a = roll.0;
    let b = roll.1;
    if a == 1 && b == 1 {
        TurnStep {
            state: PlayerState { score: 0u32, banked_score: 0u32, doubles_count: 0u32, ..ps },
            ended: Some(TurnEnd::SnakeEyes),
            must_roll: false,
        }
    } else if a + b == 7 {
        TurnStep {
            state: PlayerState { score: ps.turn_start_score, doubles_count: 0u32, ..ps },
            ended: Some(TurnEnd::SevenOut),
            must_roll: false,
        }
    } else if a == b && ps.doubles_count >= 2 {
        TurnStep {
            state: PlayerState { score: 0u32, banked_score: 0u32, doubles_count: 0u32, ..ps },
            ended: Some(TurnEnd::TripleDoubles),
            must_roll: false,
        }
    } else {
        let doubles = if a == b {
            (ps.doubles_count + 1) as u32
        } else {
            0u32
        };
        let new_score = sat_add_score(ps.score, (a + b) as u32);
        if new_score == 100 {
            TurnStep {
                state: PlayerState { score: 0u32, banked_score: 0u32, doubles_count: 0u32, ..ps },
                ended: Some(TurnEnd::ExactHundred),
                must_roll: false,
            }
        } else if new_score > 100 {
            TurnStep {
                state: PlayerState {
                    score: new_score,
                    banked_score: new_score,
                    doubles_count: doubles,
                    ..ps
                },
                ended: Some(TurnEnd::CrossedHundred),
                must_roll: false,
            }
        } else {
            TurnStep {
                state: PlayerState { score: new_score, doubles_count: doubles, ..ps },
                ended: None,
                must_roll: a == b,
            }
        }
    }
}

/// The turn state machine folded over a sequence of rolls, starting from a
/// turn-initialised seat state. Once a roll ends the turn, later rolls (of
/// which there are none in any run of the engine) change nothing.
pub open spec fn turn_fold(init: PlayerState, rolls: Seq<DiceRoll>) -> TurnStep
    decreases rolls.len(),
{
    if rolls.len() == 0 {
        TurnStep { state: init, ended: None, must_roll: true }
    } else {
        let prev = turn_fold(init, rolls.drop_last());
        if prev.ended is Some {
            prev
        } else {
            roll_step(prev.state, rolls.last())
        }
    }
}

/// Extending an unfinished turn by one roll applies the resolution rules
/// once.
pub proof fn lemma_turn_fold_push(init: PlayerState, rolls: Seq<DiceRoll>, roll: DiceRoll)
    requires
        turn_fold(init, rolls).ended is None,
    ensures
        turn_fold(init, rolls.push(roll)) == roll_step(turn_fold(init, rolls).state, roll),
{
    assert(rolls.push(roll).drop_last() =~= rolls);
}

/// Bookkeeping the turn machine never breaks: the turn-start snapshot is
/// fixed for the whole turn; the bank moves only when a roll ends the turn,
/// and then as the ending rule says.
pub proof fn lemma_turn_fold_banked(init: PlayerState, rolls: Seq<DiceRoll>)
    ensures
        ({
            let ft = turn_fold(init, rolls);
            &&& ft.state.turn_start_score == init.turn_start_score
            &&& (ft.ended is None ==> ft.state.banked_score == init.banked_score)
            &&& (ft.ended == Some(TurnEnd::SnakeEyes) ==> ft.state.banked_score == 0
                && ft.state.score == 0)
            &&& (ft.ended == Some(TurnEnd::TripleDoubles) ==> ft.state.banked_score == 0
                && ft.state.score == 0)
            &&& (ft.ended == Some(TurnEnd::ExactHundred) ==> ft.state.banked_score == 0
                && ft.state.score == 0)
            &&& (ft.ended == Some(TurnEnd::SevenOut) ==> ft.state.banked_score
                == init.banked_score && ft.state.score == init.turn_start_score)
            &&& (ft.ended == Some(TurnEnd::CrossedHundred) ==> ft.state.banked_score
                == ft.state.score)
        }),
    decreases rolls.len(),
{
    if rolls.len() > 0 {
        lemma_turn_fold_banked(init, rolls.drop_last());
    }
}

/// At the end of a turn begun with the bank equal to the score — as every
/// turn of a game begins — the bank is zero, the turn's starting score, or
/// the score at exit; and it is zero when the turn ended by snake eyes or
/// triple doubles (or landed on the nose).
pub proof fn lemma_turn_end_banked(init: PlayerState, rolls: Seq<DiceRoll>)
    requires
        init.banked_score == init.score,
        init.turn_start_score == init.score,
    ensures
        ({
            let ft = turn_fold(init, rolls);
            &&& (ft.state.banked_score == 0 || ft.state.banked_score == init.turn_start_score
                || ft.state.banked_score == ft.state.score)
            &&& ((ft.ended == Some(TurnEnd::SnakeEyes) || ft.ended == Some(
                TurnEnd::TripleDoubles,
            )) ==> ft.state.banked_score == 0)
        }),
{
    lemma_turn_fold_banked(init, rolls);
    let ft = turn_fold(init, rolls);
    match ft.ended {
        None => {},
        Some(TurnEnd::SnakeEyes) => {},
        Some(TurnEnd::SevenOut) => {},
        Some(TurnEnd::TripleDoubles) => {},
        Some(TurnEnd::ExactHundred) => {},
        Some(TurnEnd::CrossedHundred) => {},
    }
}

/// Score bounds the turn machine keeps: a turn begun below the threshold
/// stays below it while it runs, and only a crossing roll leaves a score
/// above one hundred behind.
pub proof fn lemma_turn_fold_bounded(init: PlayerState, rolls: Seq<DiceRoll>)
    requires
        init.score <= 99,
        init.turn_start_score <= 99,
    ensures
        ({
            let ft = turn_fold(init, rolls);
            &&& ft.state.turn_start_score == init.turn_start_score
            &&& (ft.ended is None ==> ft.state.score <= 99)
            &&& (ft.ended == Some(TurnEnd::SnakeEyes) ==> ft.state.score == 0)
            &&& (ft.ended == Some(TurnEnd::TripleDoubles) ==> ft.state.score == 0)
            &&& (ft.ended == Some(TurnEnd::ExactHundred) ==> ft.state.score == 0)
            &&& (ft.ended == Some(TurnEnd::SevenOut) ==> ft.state.score <= 99)
            &&& (ft.ended == Some(TurnEnd::CrossedHundred) ==> ft.state.score > 100)
        }),
    decreases rolls.len(),
{
    if rolls.len() > 0 {
        lemma_turn_fold_bounded(init, rolls.drop_last());
    }
}

/// Rolling snake eyes at any point busts the turn: score and bank both
/// clear to zero.
pub proof fn lemma_snake_eyes_busts(ps: PlayerState)
    ensures
        roll_step(ps, (1u32, 1u32)).ended == Some(TurnEnd::SnakeEyes),
        roll_step(ps, (1u32, 1u32)).state.score == 0,
        roll_step(ps, (1u32, 1u32)).state.banked_score == 0,
{
}

/// A roll that lands the score exactly on one hundred busts the turn to
/// zero; it does not bank a score, so it cannot start the endgame.
pub proof fn lemma_exact_hundred_resets(ps: PlayerState, roll: DiceRoll)
    requires
        roll_valid(roll),
        !(roll.0 == 1 && roll.1 == 1),
        roll.0 + roll.1 != 7,
        !(roll.0 == roll.1 && ps.doubles_count >= 2),
        ps.score + roll.0 + roll.1 == 100,
    ensures
        roll_step(ps, roll).ended == Some(TurnEnd::ExactHundred),
        roll_step(ps, roll).state.score == 0,
        roll_step(ps, roll).state.banked_score == 0,
{
}

/// How far a turn still has to run: the gap to the threshold that ends it.
pub open spec fn turn_progress(score: u32) -> int {
    if score > 100 {
        0
    } else {
        100 - score
    }
}

/// A copy of a vector of plain values.
pub fn copy_vec<T: Copy>(src: &Vec<T>) -> (r: Vec<T>)
    ensures
        r@ == src@,
{
    let mut r: Vec<T> = Vec::new();
    let n: usize = src.len();
    let mut i: usize = 0;
    while i < n
        invariant
            0 <= i <= n,
            n == src@.len(),
            r@ == src@.take(i as int),
        decreases n - i,
    {
        r.push(src[i]);
        proof {
            assert(src@.take(i + 1).drop_last() =~= src@.take(i as int));
            assert(r@ =~= src@.take(i + 1));
        }
        i = i + 1;
    }
    proof {
        assert(src@.take(n as int) =~= src@);
    }
    r
}

/// Run one seat's turn: snapshot the turn start, then alternate decision
/// and roll until a resolution rule or a hold ends it.
///
/// Returns `(score, memory_breached)`. On a clean end the final state is the
/// roll fold of the dice appended to the history — with the score banked if
/// the seat held. On a memory breach (second component `true`) or a fault
/// (`Err`), the turn stops at the decision point, mid-fold.
#[verifier::loop_isolation(false)]
pub fn simulate_turn<S: Strategy, D: DiceSource>(
    player_state: &mut PlayerState,
    all_banked_scores: &Vec<u32>,
    player_index: usize,
    strategy: &mut S,
    turn_history: &mut Vec<TurnHistoryEntry>,
    dice: &mut D,
) -> (r: Result<(u32, bool), StrategyFault>)
    requires
        player_index <= u32::MAX,
    ensures
        ({
            let pre = old(turn_history)@;
            let post = final(turn_history)@;
            &&& post.len() >= pre.len()
            &&& post.take(pre.len() as int) == pre
            &&& forall|i: int|
                pre.len() <= i < post.len() ==> ((#[trigger] post[i]).0 == player_index as u32
                    && roll_valid(post[i].1))
        }),
        ({
            let init = turn_init(*old(player_state));
            let post = final(turn_history)@;
            let rolls = post.skip(old(turn_history)@.len() as int).map_values(
                |e: TurnHistoryEntry| e.1,
            );
            let ft = turn_fold(init, rolls);
            &&& forall|i: int|
                0 <= i < rolls.len() ==> (#[trigger] turn_fold(init, rolls.take(i))).ended is None
            &&& match r {
                Ok(pair) => {
                    &&& pair.0 == final(player_state).score
                    &&& if pair.1 {
                        *final(player_state) == ft.state && ft.ended is None
                    } else if ft.ended is Some {
                        *final(player_state) == ft.state
                    } else {
                        *final(player_state) == (PlayerState { banked_score: ft.state.score, ..ft.state })
                    }
                },
                Err(_) => *final(player_state) == ft.state && ft.ended is None,
            }
        }),
{
    player_state.turn_start_score = player_state.score;
    player_state.doubles_count = 0;
    let mut must_roll = true;
    let ghost init: PlayerState = turn_init(*old(player_state));
    let ghost pre: Seq<TurnHistoryEntry> = old(turn_history)@;
    loop
        invariant
            player_index <= u32::MAX,
            turn_history@.len() >= pre.len(),
            turn_history@.take(pre.len() as int) == pre,
            forall|i: int|
                pre.len() <= i < turn_history@.len() ==> ((#[trigger] turn_history@[i]).0
                    == player_index as u32 && roll_valid(turn_history@[i].1)),
            ({
                let rolls = turn_history@.skip(pre.len() as int).map_values(
                    |e: TurnHistoryEntry| e.1,
                );
                let ft = turn_fold(init, rolls);
                &&& forall|i: int|
                    0 <= i < rolls.len() ==> (#[trigger] turn_fold(
                        init,
                        rolls.take(i),
                    )).ended is None
                &&& ft.ended is None
                &&& ft.state == *player_state
                &&& ft.must_roll == must_roll
            }),
            player_state.doubles_count <= 2,
        decreases turn_progress(player_state.score),
    {
        let ghost rolls_head: Seq<DiceRoll> = turn_history@.skip(pre.len() as int).map_values(
            |e: TurnHistoryEntry| e.1,
        );
        let ghost head_state: PlayerState = *player_state;
        if !must_roll {
            let game_state = GameState {
                current_player_index: player_index as u32,
                current_banked_score: player_state.banked_score,
                current_total_score: player_state.score,
                all_players_banked_scores: copy_vec(all_banked_scores),
                turn_history: copy_vec(turn_history),
            };
            match strategy.should_roll(&game_state) {
                Err(fault) => {
                    return Err(fault);
                },
                Ok(decision) => {
                    if strategy.is_memory_limit_exceeded() {
                        return Ok((player_state.score, true));
                    }
                    if !decision {
                        player_state.banked_score = player_state.score;
                        return Ok((player_state.score, false));
                    }
                },
            }
        }
        let roll = dice.roll();
        let die1 = roll.0;
        let die2 = roll.1;
        let sum = die1 + die2;
        turn_history.push((player_index as u32, roll));
        proof {
            lemma_turn_fold_push(init, rolls_head, roll);
            let rolls_now = turn_history@.skip(pre.len() as int).map_values(
                |e: TurnHistoryEntry| e.1,
            );
            assert(turn_history@.take(pre.len() as int) =~= pre);
            assert(rolls_now =~= rolls_head.push(roll));
            assert forall|i: int| 0 <= i < rolls_now.len() implies (#[trigger] turn_fold(
                init,
                rolls_now.take(i),
            )).ended is None by {
                assert(rolls_now.take(i) =~= rolls_head.take(i));
                if i == rolls_head.len() {
                    assert(rolls_head.take(i) =~= rolls_head);
                }
            }
            assert(turn_fold(init, rolls_now) == roll_step(head_state, roll));
        }
        if die1 == 1 && die2 == 1 {
            player_state.score = 0;
            player_state.banked_score = 0;
            player_state.doubles_count = 0;
            return Ok((player_state.score, false));
        }
        if sum == 7 {
            player_state.score = player_state.turn_start_score;
            player_state.doubles_count = 0;
            return Ok((player_state.score, false));
        }
        if die1 == die2 {
            player_state.doubles_count = player_state.doubles_count + 1;
            if player_state.doubles_count >= 3 {
                player_state.score = 0;
                player_state.banked_score = 0;
                player_state.doubles_count = 0;
                return Ok((player_state.score, false));
            }
            must_roll = true;
        } else {
            player_state.doubles_count = 0;
            must_roll = false;
        }
        let new_score = if player_state.score > u32::MAX - sum {
            u32::MAX
        } else {
            player_state.score + sum
        };
        player_state.score = new_score;
        if player_state.score == 100 {
            player_state.score = 0;
            player_state.banked_score = 0;
            player_state.doubles_count = 0;
            return Ok((player_state.score, false));
        }
        if player_state.score > 100 {
            player_state.banked_score = player_state.score;
            return Ok((player_state.score, false));
        }
    }
}

} // verus!
