use pig_pen::dice::ScriptedDice;
use pig_pen::rules::{PlayerState, simulate_turn};
use pig_pen::strategy::{BreachingStrategy, ScriptedStrategy};

fn fresh_state() -> PlayerState {
    PlayerState::new()
}

#[test]
fn seven_resets_to_turn_start() {
    // Two seats; seat 0 rolls (3, 4) on its first turn: the sum is seven,
    // so the score resets to the turn start (zero) and the turn ends.
    let mut ps = fresh_state();
    let banked = vec![0u32, 0u32];
    let mut strategy = ScriptedStrategy::new(vec![], true);
    let mut history = Vec::new();
    let mut dice = ScriptedDice::new(vec![(3, 4)]);
    let r = simulate_turn(&mut ps, &banked, 0, &mut strategy, &mut history, &mut dice);
    assert!(matches!(r, Ok((0, false))));
    assert_eq!(ps.score, 0);
    assert_eq!(ps.banked_score, 0);
    assert_eq!(ps.doubles_count, 0);
    assert_eq!(history, vec![(0, (3, 4))]);
}

#[test]
fn seven_resets_to_nonzero_turn_start() {
    // At score 93, a (4, 3) sums to seven: back to the turn start, not to
    // 100.
    let mut ps = PlayerState {
        score: 93,
        banked_score: 93,
        turn_start_score: 93,
        doubles_count: 0,
    };
    let banked = vec![93u32];
    let mut strategy = ScriptedStrategy::new(vec![], true);
    let mut history = Vec::new();
    let mut dice = ScriptedDice::new(vec![(4, 3)]);
    let r = simulate_turn(&mut ps, &banked, 0, &mut strategy, &mut history, &mut dice);
    assert!(matches!(r, Ok((93, false))));
    assert_eq!(ps.score, 93);
    assert_eq!(ps.banked_score, 93);
}

#[test]
fn triple_doubles_bust() {
    // Three consecutive doubles clear the score and the bank.
    let mut ps = fresh_state();
    let banked = vec![0u32, 0u32];
    let mut strategy = ScriptedStrategy::new(vec![], true);
    let mut history = Vec::new();
    let mut dice = ScriptedDice::new(vec![(2, 2), (3, 3), (5, 5)]);
    let r = simulate_turn(&mut ps, &banked, 0, &mut strategy, &mut history, &mut dice);
    assert!(matches!(r, Ok((0, false))));
    assert_eq!(ps.score, 0);
    assert_eq!(ps.banked_score, 0);
    assert_eq!(ps.doubles_count, 0);
    assert_eq!(history.len(), 3);
}

#[test]
fn exactly_one_hundred_resets() {
    // At 94, rolling (3, 3) lands on exactly 100: score and bank clear.
    let mut ps = PlayerState {
        score: 94,
        banked_score: 94,
        turn_start_score: 94,
        doubles_count: 0,
    };
    let banked = vec![94u32];
    let mut strategy = ScriptedStrategy::new(vec![], true);
    let mut history = Vec::new();
    let mut dice = ScriptedDice::new(vec![(3, 3)]);
    let r = simulate_turn(&mut ps, &banked, 0, &mut strategy, &mut history, &mut dice);
    assert!(matches!(r, Ok((0, false))));
    assert_eq!(ps.score, 0);
    assert_eq!(ps.banked_score, 0);
}

#[test]
fn snake_eyes_busts_and_clears_bank() {
    // Snake eyes at any point clears both the score and the banked score.
    let mut ps = PlayerState {
        score: 50,
        banked_score: 50,
        turn_start_score: 50,
        doubles_count: 0,
    };
    let banked = vec![50u32];
    let mut strategy = ScriptedStrategy::new(vec![], true);
    let mut history = Vec::new();
    let mut dice = ScriptedDice::new(vec![(1, 1)]);
    let r = simulate_turn(&mut ps, &banked, 0, &mut strategy, &mut history, &mut dice);
    assert!(matches!(r, Ok((0, false))));
    assert_eq!(ps.score, 0);
    assert_eq!(ps.banked_score, 0);
}

#[test]
fn hold_banks_the_score() {
    // A (3, 2) takes the score to five; the strategy holds and the five is
    // banked.
    let mut ps = fresh_state();
    let banked = vec![0u32];
    let mut strategy = ScriptedStrategy::new(vec![false], true);
    let mut history = Vec::new();
    let mut dice = ScriptedDice::new(vec![(3, 2)]);
    let r = simulate_turn(&mut ps, &banked, 0, &mut strategy, &mut history, &mut dice);
    assert!(matches!(r, Ok((5, false))));
    assert_eq!(ps.score, 5);
    assert_eq!(ps.banked_score, 5);
}

#[test]
fn crossing_one_hundred_banks_and_ends() {
    // At 95, an (6, 4) crosses to 105: the score is banked and the turn
    // ends.
    let mut ps = PlayerState {
        score: 95,
        banked_score: 95,
        turn_start_score: 95,
        doubles_count: 0,
    };
    let banked = vec![95u32];
    let mut strategy = ScriptedStrategy::new(vec![], true);
    let mut history = Vec::new();
    let mut dice = ScriptedDice::new(vec![(6, 4)]);
    let r = simulate_turn(&mut ps, &banked, 0, &mut strategy, &mut history, &mut dice);
    assert!(matches!(r, Ok((105, false))));
    assert_eq!(ps.score, 105);
    assert_eq!(ps.banked_score, 105);
}

#[test]
fn memory_breach_forces_hold_and_flags() {
    // A strategy that breaches on its first decision: the breach is
    // absorbed into a hold and the turn reports it.
    let mut ps = fresh_state();
    let banked = vec![0u32, 0u32];
    let mut strategy = BreachingStrategy::new(4096);
    let mut history = Vec::new();
    let mut dice = ScriptedDice::new(vec![(3, 2)]);
    let r = simulate_turn(&mut ps, &banked, 0, &mut strategy, &mut history, &mut dice);
    assert!(matches!(r, Ok((5, true))));
    assert_eq!(ps.score, 5);
    // The breach interrupted the turn: nothing was banked.
    assert_eq!(ps.banked_score, 0);
}

#[test]
fn doubles_force_another_roll() {
    // A double keeps the turn going without consulting the strategy; the
    // next plain roll hands the decision back, and a hold banks the total.
    let mut ps = fresh_state();
    let banked = vec![0u32];
    let mut strategy = ScriptedStrategy::new(vec![false], true);
    let mut history = Vec::new();
    let mut dice = ScriptedDice::new(vec![(2, 2), (3, 2)]);
    let r = simulate_turn(&mut ps, &banked, 0, &mut strategy, &mut history, &mut dice);
    assert!(matches!(r, Ok((9, false))));
    assert_eq!(ps.score, 9);
    assert_eq!(ps.banked_score, 9);
    assert_eq!(history.len(), 2);
}
