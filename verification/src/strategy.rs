//! The strategy capability: a single boolean decision over the game state,
//! plus the memory readings the tournament runner consults.

use vstd::prelude::*;

verus! {

use crate::rules::{GameState, spec_sum_mod4};

/// A non-memory fault raised by a strategy call. It propagates to the
/// tournament runner, which fails the tournament.
#[derive(Debug)]
pub struct StrategyFault {
    /// What the failed call reported.
    pub message: String,
}

/// A seat's decision backend: anything that can answer `should_roll` may
/// drive the rules engine — a sandboxed component, or a deterministic stub.
pub trait Strategy {
    /// Decide whether to roll again (`true`) or hold (`false`).
    /// A memory breach is absorbed by the backend into a forced hold;
    /// only genuine faults surface as errors.
    fn should_roll(&mut self, state: &GameState) -> Result<bool, StrategyFault>;

    /// Whether this seat's backend has breached its memory limit.
    fn is_memory_limit_exceeded(&self) -> bool;

    /// The backend's peak memory reading, in bytes.
    fn peak_memory_bytes(&self) -> u64;
}

/// The example strategy shipped with the harness: roll whenever nothing is
/// at stake this turn, or whenever the banked scores do not sum to a
/// multiple of four.
pub struct RandomRoller;

impl RandomRoller {
    /// The decision rule, stated exactly.
    pub fn decide(state: &GameState) -> (r: bool)
        ensures
            r == (state.current_total_score == state.current_banked_score
                || spec_sum_mod4(state.all_players_banked_scores@) != 0),
    {
        if state.current_total_score == state.current_banked_score {
            return true;
        }
        let n: usize = state.all_players_banked_scores.len();
        let mut acc: u32 = 0;
        let mut i: usize = 0;
        while i < n
            invariant
                0 <= i <= n,
                n == state.all_players_banked_scores@.len(),
                acc == spec_sum_mod4(state.all_players_banked_scores@.take(i as int)),
                acc < 4,
            decreases n - i,
        {
            acc = (acc + state.all_players_banked_scores[i] % 4) % 4;
            proof {
                assert(state.all_players_banked_scores@.take(i + 1).drop_last()
                    =~= state.all_players_banked_scores@.take(i as int));
            }
            i = i + 1;
        }
        proof {
            assert(state.all_players_banked_scores@.take(n as int)
                =~= state.all_players_banked_scores@);
        }
        acc != 0
    }
}

impl Strategy for RandomRoller {
    fn should_roll(&mut self, state: &GameState) -> Result<bool, StrategyFault> {
        Ok(RandomRoller::decide(state))
    }

    fn is_memory_limit_exceeded(&self) -> bool {
        false
    }

    fn peak_memory_bytes(&self) -> u64 {
        0
    }
}

/// A deterministic decision backend: plays back a script of decisions, then
/// keeps answering `fallback`. Never breaches its memory limit.
pub struct ScriptedStrategy {
    /// The decisions to play back, in order.
    pub decisions: Vec<bool>,
    /// How many scripted decisions have been handed out.
    pub next: usize,
    /// The answer once the script runs out.
    pub fallback: bool,
}

impl ScriptedStrategy {
    /// A backend that plays back `decisions`, then answers `fallback`.
    pub fn new(decisions: Vec<bool>, fallback: bool) -> (s: ScriptedStrategy)
        ensures
            s.decisions@ == decisions@,
            s.next == 0,
            s.fallback == fallback,
    {
        ScriptedStrategy { decisions, next: 0, fallback }
    }

    /// Play back the next decision: while script entries remain the script
    /// advances by one and hands its entry out; once it is exhausted, the
    /// fallback answer repeats.
    pub fn next_decision(&mut self) -> (d: bool)
        ensures
            final(self).decisions@ == old(self).decisions@,
            final(self).fallback == old(self).fallback,
            if old(self).next < old(self).decisions@.len() {
                final(self).next == old(self).next + 1 && d == old(self).decisions@[old(self).next as int]
            } else {
                final(self).next == old(self).next && d == old(self).fallback
            },
    {
        if self.next < self.decisions.len() {
            let d = self.decisions[self.next];
            self.next = self.next + 1;
            d
        } else {
            self.fallback
        }
    }
}

impl Strategy for ScriptedStrategy {
    fn should_roll(&mut self, _state: &GameState) -> Result<bool, StrategyFault> {
        Ok(self.next_decision())
    }

    fn is_memory_limit_exceeded(&self) -> bool {
        false
    }

    fn peak_memory_bytes(&self) -> u64 {
        0
    }
}

/// A backend standing for a strategy that blows its memory limit on its
/// first decision: the breach is absorbed into a forced hold, the latch
/// stays set, and the peak reading reports the breach-sized allocation.
pub struct BreachingStrategy {
    /// Latched once the first decision was asked for.
    pub breached: bool,
    /// The peak reading the backend reports after breaching.
    pub peak_memory: u64,
}

impl BreachingStrategy {
    /// A backend that has not been asked anything yet.
    pub fn new(peak_memory: u64) -> (s: BreachingStrategy)
        ensures
            !s.breached,
            s.peak_memory == peak_memory,
    {
        BreachingStrategy { breached: false, peak_memory }
    }
}

impl Strategy for BreachingStrategy {
    fn should_roll(&mut self, _state: &GameState) -> Result<bool, StrategyFault> {
        self.breached = true;
        Ok(false)
    }

    fn is_memory_limit_exceeded(&self) -> bool {
        self.breached
    }

    fn peak_memory_bytes(&self) -> u64 {
        if self.breached {
            self.peak_memory
        } else {
            0
        }
    }
}

/// A backend that raises a non-memory fault on its first decision, as a
/// trapped component does.
pub struct FaultingStrategy {
    /// What the fault reports.
    pub message: String,
}

impl Strategy for FaultingStrategy {
    fn should_roll(&mut self, _state: &GameState) -> Result<bool, StrategyFault> {
        Err(StrategyFault { message: self.message.clone() })
    }

    fn is_memory_limit_exceeded(&self) -> bool {
        false
    }

    fn peak_memory_bytes(&self) -> u64 {
        0
    }
}

} // verus!
