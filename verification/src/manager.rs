//! The simulation manager: a single-worker FIFO queue of submitted
//! tournaments. The manager decides which task to start; spawning the
//! worker and receiving its completion signal belong to the surrounding
//! runtime, which feeds the signal back into [`SimulationManager::check_and_start_next`].

use vstd::prelude::*;

verus! {

use crate::records::Bot;
use std::collections::VecDeque;

/// One submitted tournament, waiting in the queue.
pub struct SimulationTask {
    /// The simulation to run.
    pub simulation_id: String,
    /// The seated bots, in seat order.
    pub bots: Vec<Bot>,
    /// Games to run.
    pub num_games: u32,
}

/// The FIFO queue and the single-worker flag. At most one task runs at a
/// time: a task is handed out only when none is running, and handing one
/// out marks the manager running until the completion signal comes back.
pub struct SimulationManager {
    /// Tasks waiting, in submission order.
    pub queue: VecDeque<SimulationTask>,
    /// Whether a worker is running a task now.
    pub is_running: bool,
}

impl SimulationManager {
    /// An idle manager with an empty queue.
    pub fn new() -> (m: SimulationManager)
        ensures
            m.queue@.len() == 0,
            !m.is_running,
    {
        SimulationManager { queue: VecDeque::new(), is_running: false }
    }

    /// Pop the queue's head to start it, if there is one; otherwise go idle.
    fn start_next(&mut self) -> (start: Option<SimulationTask>)
        ensures
            if old(self).queue@.len() > 0 {
                &&& final(self).queue@ == old(self).queue@.drop_first()
                &&& start == Some(old(self).queue@.first())
                &&& final(self).is_running
            } else {
                &&& final(self).queue@ == old(self).queue@
                &&& start is None
                &&& !final(self).is_running
            },
    {
        match self.queue.pop_front() {
            Some(task) => {
                self.is_running = true;
                proof {
                    assert(self.queue@ =~= old(self).queue@.drop_first());
                }
                Some(task)
            },
            None => {
                self.is_running = false;
                None
            },
        }
    }

    /// Append a submission. When no worker is running, the queue's head —
    /// the oldest submission — is handed out to start at once.
    pub fn queue_simulation(&mut self, simulation_id: String, bots: Vec<Bot>, num_games: u32) -> (start:
        Option<SimulationTask>)
        ensures
            ({
                let queued = (SimulationTask { simulation_id, bots, num_games });
                let grown = old(self).queue@.push(queued);
                if old(self).is_running {
                    &&& final(self).queue@ == grown
                    &&& start is None
                    &&& final(self).is_running
                } else {
                    &&& final(self).queue@ == grown.drop_first()
                    &&& start == Some(grown.first())
                    &&& final(self).is_running
                }
            }),
    {
        self.queue.push_back(SimulationTask { simulation_id, bots, num_games });
        if !self.is_running {
            self.start_next()
        } else {
            None
        }
    }

    /// The periodic tick: take in the worker's completion signal, and when
    /// idle with work queued, hand out the queue's head to start.
    pub fn check_and_start_next(&mut self, completion_signaled: bool) -> (start: Option<
        SimulationTask,
    >)
        ensures
            ({
                let still_running = old(self).is_running && !completion_signaled;
                if !still_running && old(self).queue@.len() > 0 {
                    &&& final(self).queue@ == old(self).queue@.drop_first()
                    &&& start == Some(old(self).queue@.first())
                    &&& final(self).is_running
                } else {
                    &&& final(self).queue@ == old(self).queue@
                    &&& start is None
                    &&& final(self).is_running == still_running
                }
            }),
    {
        if completion_signaled {
            self.is_running = false;
        }
        if !self.is_running && self.queue.len() > 0 {
            self.start_next()
        } else {
            None
        }
    }
}

} // verus!
