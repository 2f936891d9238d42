use pig_pen::dice::{RandomDice, ScriptedDice};
use pig_pen::game::{compute_payouts, random_player_order, select_winner, simulate_game_with_order};
use pig_pen::rules::GameState;
use pig_pen::strategy::{BreachingStrategy, FaultingStrategy, ScriptedStrategy, Strategy, StrategyFault};
use pig_pen::tournament::run_tournament;

const BUDGET: u64 = 1_000_000;

/// A roster slot that can hold any of the stub backends, so that one game
/// can seat a mix of them.
enum Seat {
    Scripted(ScriptedStrategy),
    Breaching(BreachingStrategy),
    Faulting(FaultingStrategy),
}

impl Strategy for Seat {
    fn should_roll(&mut self, state: &GameState) -> Result<bool, StrategyFault> {
        match self {
            Seat::Scripted(s) => s.should_roll(state),
            Seat::Breaching(s) => s.should_roll(state),
            Seat::Faulting(s) => s.should_roll(state),
        }
    }

    fn is_memory_limit_exceeded(&self) -> bool {
        match self {
            Seat::Scripted(s) => s.is_memory_limit_exceeded(),
            Seat::Breaching(s) => s.is_memory_limit_exceeded(),
            Seat::Faulting(s) => s.is_memory_limit_exceeded(),
        }
    }

    fn peak_memory_bytes(&self) -> u64 {
        match self {
            Seat::Scripted(s) => s.peak_memory_bytes(),
            Seat::Breaching(s) => s.peak_memory_bytes(),
            Seat::Faulting(s) => s.peak_memory_bytes(),
        }
    }
}

#[test]
fn endgame_and_tiebreak_three_seats() {
    // Seat 0 rolls to exactly 105 in one turn and crosses; the two other
    // seats each get one response turn, neither strictly exceeds 105, so
    // seat 0 keeps the win and the payouts sum to zero.
    let mut strategies = vec![
        ScriptedStrategy::new(vec![], true),   // seat 0: always roll
        ScriptedStrategy::new(vec![], false),  // seat 1: hold after the forced roll
        ScriptedStrategy::new(vec![], false),  // seat 2: hold after the forced roll
    ];
    let mut rolls = vec![(6, 5); 9]; // seat 0 climbs to 99
    rolls.push((2, 4)); // and crosses to 105
    rolls.push((6, 4)); // seat 1 banks 10
    rolls.push((6, 2)); // seat 2 banks 8
    let mut dice = ScriptedDice::new(rolls);
    let none_disqualified = vec![false, false, false];
    let order = vec![0, 1, 2];
    let r = simulate_game_with_order(&mut strategies, &none_disqualified, &order, &mut dice, BUDGET)
        .unwrap();
    let (results, usage, disqualified) = r;
    assert_eq!(results, vec![(1, 192), (0, -95), (0, -97)]);
    assert_eq!(results.iter().map(|r| r.1).sum::<i64>(), 0);
    assert_eq!(results.iter().map(|r| r.0).sum::<u32>(), 1);
    assert_eq!(usage, vec![0, 0, 0]);
    assert_eq!(disqualified, vec![false, false, false]);
}

#[test]
fn single_seat_ends_on_first_crossing() {
    // A single seat's tournament ends as soon as its first turn crosses
    // 100: nobody else gets a turn, and there is nobody to pay.
    let mut strategies = vec![ScriptedStrategy::new(vec![], true)];
    let mut dice = ScriptedDice::new(vec![]); // fallback (6, 5) throughout
    let order = vec![0];
    let r = simulate_game_with_order(&mut strategies, &vec![false], &order, &mut dice, BUDGET)
        .unwrap();
    let (results, _usage, disqualified) = r;
    assert_eq!(results, vec![(1, 0)]);
    assert_eq!(disqualified, vec![false]);
}

#[test]
fn zero_score_loser_pays_double() {
    // A loser stuck on zero pays twice the gap.
    let scores = vec![105u32, 0u32, 50u32];
    let disqualified = vec![false, false, false];
    let results = compute_payouts(&scores, &disqualified, 0);
    assert_eq!(results, vec![(1, 210 + 55), (0, -210), (0, -55)]);
    assert_eq!(results.iter().map(|r| r.1).sum::<i64>(), 0);
}

#[test]
fn disqualified_seats_pay_and_receive_nothing() {
    let scores = vec![105u32, 0u32, 50u32];
    let disqualified = vec![false, true, false];
    let results = compute_payouts(&scores, &disqualified, 0);
    assert_eq!(results, vec![(1, 55), (0, 0), (0, -55)]);
    assert_eq!(results.iter().map(|r| r.1).sum::<i64>(), 0);
}

#[test]
fn breach_disqualifies_and_tournament_completes() {
    // Seat 0 allocates unboundedly on its first decision: the host absorbs
    // the breach into a hold, the seat finishes the turn, is disqualified,
    // later games skip it, and the tournament completes with the seat at
    // zero wins and zero money.
    let mut strategies = vec![
        Seat::Breaching(BreachingStrategy::new(512 * 1024 * 1024)),
        Seat::Scripted(ScriptedStrategy::new(vec![], false)),
    ];
    let mut dice = RandomDice;
    let state = run_tournament(&mut strategies, 3, &mut dice, BUDGET).unwrap();
    assert_eq!(state.totals[0], (0, 0));
    assert!(state.permanently_disqualified[0]);
    assert!(!state.permanently_disqualified[1]);
    assert_eq!(state.totals[1].0, 1);
    assert_eq!(state.totals[1].1, 0);
    // Early termination: once one seat is left, no further games run.
    assert_eq!(state.games_completed, 1);
    // The breached seat's peak reading survives into the aggregates.
    assert_eq!(state.peak_memory[0], 512 * 1024 * 1024);
}

#[test]
fn fault_aborts_the_game() {
    let mut strategies = vec![
        Seat::Faulting(FaultingStrategy { message: "trap: unreachable executed".to_string() }),
        Seat::Scripted(ScriptedStrategy::new(vec![], false)),
    ];
    let mut dice = ScriptedDice::new(vec![]); // fallback (6, 5): no turn ends on the roll
    let r = run_tournament(&mut strategies, 2, &mut dice, BUDGET);
    assert!(r.is_err());
}

#[test]
fn tournament_aggregates_two_games() {
    // Two deterministic seats over two games: two wins are handed out in
    // all, and the money stays zero-sum.
    let mut strategies = vec![
        ScriptedStrategy::new(vec![], false),
        ScriptedStrategy::new(vec![], false),
    ];
    let mut dice = ScriptedDice::new(vec![]); // fallback (6, 5) throughout
    let state = run_tournament(&mut strategies, 2, &mut dice, BUDGET).unwrap();
    assert_eq!(state.games_completed, 2);
    assert_eq!(state.totals.iter().map(|t| t.0).sum::<u32>(), 2);
    assert_eq!(state.totals.iter().map(|t| t.1).sum::<i64>(), 0);
    assert_eq!(state.permanently_disqualified, vec![false, false]);
}

#[test]
fn tied_scores_pay_nothing() {
    // Equal scores leave no gap to pay; zero scores pay double the gap,
    // which is still nothing.
    let scores = vec![110u32, 110u32];
    let disqualified = vec![false, false];
    let results = compute_payouts(&scores, &disqualified, 0);
    assert_eq!(results, vec![(1, 0), (0, 0)]);
    let zeroes = vec![0u32, 0u32];
    let results2 = compute_payouts(&zeroes, &disqualified, 1);
    assert_eq!(results2, vec![(0, 0), (1, 0)]);
}

#[test]
fn breach_hands_the_game_to_the_remaining_seat() {
    // Seat 0 breaches during its first turn; seat 1 is the only seat left
    // and takes the game without having rolled.
    let mut strategies = vec![
        Seat::Breaching(BreachingStrategy::new(1024)),
        Seat::Scripted(ScriptedStrategy::new(vec![], false)),
    ];
    let mut dice = ScriptedDice::new(vec![(3, 2)]);
    let order = vec![0, 1];
    let r = simulate_game_with_order(&mut strategies, &vec![false, false], &order, &mut dice, BUDGET)
        .unwrap();
    let (results, usage, disqualified) = r;
    assert_eq!(results, vec![(0, 0), (1, 0)]);
    assert_eq!(disqualified, vec![true, false]);
    assert_eq!(usage, vec![1024, 0]);
}

#[test]
fn tied_top_score_resolves_to_the_leader() {
    // The standing endgame leader keeps the win when another seat ties its
    // score; away from that tie the lowest-numbered top scorer wins.
    let scores = vec![105u32, 105u32, 80u32];
    let none = vec![false, false, false];
    assert_eq!(select_winner(&scores, &none, 0), 0);
    assert_eq!(select_winner(&scores, &none, 1), 1);
    // A leader that fell behind does not keep the win.
    assert_eq!(select_winner(&scores, &none, 2), 0);
    // A disqualified leader cannot win.
    let leader_out = vec![true, false, false];
    assert_eq!(select_winner(&scores, &leader_out, 0), 1);
}

#[test]
fn first_crosser_keeps_the_win_on_a_tie() {
    // Both seats hold after each forced roll of (6, 5): seat 0 crosses to
    // 110 first; seat 1's response turn ties at 110 and does not dethrone.
    let mut strategies = vec![
        ScriptedStrategy::new(vec![], false),
        ScriptedStrategy::new(vec![], false),
    ];
    let mut dice = ScriptedDice::new(vec![]);
    let order = vec![0, 1];
    let r = simulate_game_with_order(&mut strategies, &vec![false, false], &order, &mut dice, BUDGET)
        .unwrap();
    let (results, _usage, disqualified) = r;
    assert_eq!(results, vec![(1, 0), (0, 0)]);
    assert_eq!(disqualified, vec![false, false]);
}

#[test]
fn random_order_is_a_permutation() {
    let order = random_player_order(5);
    let mut sorted = order.clone();
    sorted.sort();
    assert_eq!(sorted, vec![0, 1, 2, 3, 4]);
}
