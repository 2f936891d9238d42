//! Dice backends: the entropy-backed roller the harness plays with, and a
//! scripted roller that drives the rules engine deterministically.

use vstd::prelude::*;

verus! {

use crate::rules::{DiceRoll, roll_valid};

/// A source of rolls. Every backend hands back two faces in `1..=6`.
pub trait DiceSource {
    /// Roll two dice.
    fn roll(&mut self) -> (r: DiceRoll)
        ensures
            roll_valid(r),
    ;
}

/// Relies on rand's `Rng::random_range(1..=6)`: the sample lies within the
/// given (non-empty) range.
#[verifier::external_body]
fn random_dice_roll() -> (r: DiceRoll)
    ensures
        roll_valid(r),
{
    let mut rng = rand::rng();
    (rand::Rng::random_range(&mut rng, 1..=6), rand::Rng::random_range(&mut rng, 1..=6))
}

/// Two independent uniform dice from the process entropy source.
pub struct RandomDice;

impl DiceSource for RandomDice {
    fn roll(&mut self) -> (r: DiceRoll) {
        random_dice_roll()
    }
}

/// A deterministic roller: plays back a script, then repeats a fixed
/// harmless roll (six and five: no double, no seven) once the script runs
/// out. A script entry that is not a pair of faces is replaced by that same
/// fixed roll.
pub struct ScriptedDice {
    /// The rolls to play back, in order.
    pub rolls: Vec<DiceRoll>,
    /// How many script entries have been played.
    pub next: usize,
}

impl ScriptedDice {
    /// A roller that plays back `rolls` from the start.
    pub fn new(rolls: Vec<DiceRoll>) -> (d: ScriptedDice)
        ensures
            d.rolls@ == rolls@,
            d.next == 0,
    {
        ScriptedDice { rolls, next: 0 }
    }

    /// Play back the next roll: while script entries remain the script
    /// advances by one and a face-valued entry comes out as written; an
    /// entry off the faces, or an exhausted script, comes out as the fixed
    /// fallback roll.
    pub fn next_roll(&mut self) -> (r: DiceRoll)
        ensures
            roll_valid(r),
            final(self).rolls@ == old(self).rolls@,
            if old(self).next < old(self).rolls@.len() {
                &&& final(self).next == old(self).next + 1
                &&& r == (if roll_valid(old(self).rolls@[old(self).next as int]) {
                    old(self).rolls@[old(self).next as int]
                } else {
                    (6u32, 5u32)
                })
            } else {
                &&& final(self).next == old(self).next
                &&& r == (6u32, 5u32)
            },
    {
        if self.next < self.rolls.len() {
            let entry = self.rolls[self.next];
            self.next = self.next + 1;
            if 1 <= entry.0 && entry.0 <= 6 && 1 <= entry.1 && entry.1 <= 6 {
                return entry;
            }
        }
        (6, 5)
    }
}

impl DiceSource for ScriptedDice {
    fn roll(&mut self) -> (r: DiceRoll) {
        self.next_roll()
    }
}

} // verus!
