use pig_pen::dice::{DiceSource, RandomDice, ScriptedDice};
use pig_pen::rules::GameState;
use pig_pen::strategy::{RandomRoller, Strategy};

fn state(total: u32, banked: u32, all_banked: Vec<u32>) -> GameState {
    GameState {
        current_player_index: 0,
        current_banked_score: banked,
        current_total_score: total,
        all_players_banked_scores: all_banked,
        turn_history: vec![],
    }
}

#[test]
fn roller_rolls_with_nothing_at_stake() {
    // Score equals the bank: nothing to lose, always roll.
    assert!(RandomRoller::decide(&state(20, 20, vec![20, 4])));
}

#[test]
fn roller_follows_the_banked_sum() {
    // Sum of banked scores divisible by four: hold; otherwise roll.
    assert!(!RandomRoller::decide(&state(25, 20, vec![1, 1, 1, 1])));
    assert!(RandomRoller::decide(&state(25, 20, vec![1, 1, 1, 2])));
}

#[test]
fn roller_is_a_strategy() {
    let mut roller = RandomRoller;
    let d = roller.should_roll(&state(5, 0, vec![1, 0])).unwrap();
    assert!(d);
    // Banked scores summing to a multiple of four say hold.
    let h = roller.should_roll(&state(5, 0, vec![0, 0])).unwrap();
    assert!(!h);
    assert!(!roller.is_memory_limit_exceeded());
    assert_eq!(roller.peak_memory_bytes(), 0);
}

#[test]
fn random_dice_show_faces() {
    let mut dice = RandomDice;
    for _ in 0..200 {
        let (a, b) = dice.roll();
        assert!((1..=6).contains(&a));
        assert!((1..=6).contains(&b));
    }
}

#[test]
fn scripted_dice_play_back_then_fall_back() {
    let mut dice = ScriptedDice::new(vec![(1, 1), (2, 3)]);
    assert_eq!(dice.roll(), (1, 1));
    assert_eq!(dice.roll(), (2, 3));
    assert_eq!(dice.roll(), (6, 5));
    assert_eq!(dice.roll(), (6, 5));
}

#[test]
fn scripted_dice_replace_invalid_entries() {
    let mut dice = ScriptedDice::new(vec![(0, 9)]);
    assert_eq!(dice.roll(), (6, 5));
}
