//! A tournament harness for the dice game Pig-Pen: a per-turn rules state
//! machine, a sandbox-host memory meter with graceful disqualification, a
//! tournament runner that aggregates wins and payouts across games, a FIFO
//! simulation queue, and a content-addressed bot registry.

pub mod dice;
pub mod game;
pub mod host;
pub mod manager;
pub mod records;
pub mod registry;
pub mod rules;
pub mod strategy;
pub mod tournament;
