use pig_pen::manager::SimulationManager;
use pig_pen::records::SimulationEvent::{Faulted, Finished, Started};
use pig_pen::records::SimulationStatus::{Completed, Failed, Pending, Running};
use pig_pen::records::{SimulationRejected, validate_simulation_request};

#[test]
fn submissions_start_in_fifo_order() {
    let mut m = SimulationManager::new();
    let a = m.queue_simulation("sim-a".to_string(), vec![], 10);
    assert_eq!(a.unwrap().simulation_id, "sim-a");
    // A worker is running: further submissions only queue.
    assert!(m.queue_simulation("sim-b".to_string(), vec![], 10).is_none());
    assert!(m.queue_simulation("sim-c".to_string(), vec![], 10).is_none());
    // No completion yet: the tick starts nothing.
    assert!(m.check_and_start_next(false).is_none());
    // Completions hand out the queue in submission order.
    let b = m.check_and_start_next(true);
    assert_eq!(b.unwrap().simulation_id, "sim-b");
    let c = m.check_and_start_next(true);
    assert_eq!(c.unwrap().simulation_id, "sim-c");
    // Queue drained: the final completion leaves the manager idle.
    assert!(m.check_and_start_next(true).is_none());
    assert!(!m.is_running);
}

#[test]
fn tick_on_idle_empty_queue_does_nothing() {
    let mut m = SimulationManager::new();
    assert!(m.check_and_start_next(false).is_none());
    assert!(!m.is_running);
}

#[test]
fn simulation_lifecycle_single_path() {
    assert_eq!(Pending.transition(Started), Some(Running));
    assert_eq!(Running.transition(Finished), Some(Completed));
    assert_eq!(Running.transition(Faulted), Some(Failed));
    // Completed and failed runs are final; pending runs cannot finish.
    assert_eq!(Completed.transition(Started), None);
    assert_eq!(Failed.transition(Finished), None);
    assert_eq!(Pending.transition(Finished), None);
    assert_eq!(Pending.transition(Faulted), None);
    assert_eq!(Running.transition(Started), None);
    assert_eq!(Pending.label(), "pending");
    assert_eq!(Running.label(), "running");
    assert_eq!(Completed.label(), "completed");
    assert_eq!(Failed.label(), "failed");
}

#[test]
fn empty_bot_list_is_rejected() {
    assert_eq!(validate_simulation_request(0, 100), Err(SimulationRejected::NoBots));
    // The empty roster is reported even when the game count is also bad.
    assert_eq!(validate_simulation_request(0, 0), Err(SimulationRejected::NoBots));
}

#[test]
fn num_games_bounds() {
    assert_eq!(validate_simulation_request(2, 0), Err(SimulationRejected::InvalidNumGames));
    assert_eq!(validate_simulation_request(2, -5), Err(SimulationRejected::InvalidNumGames));
    assert_eq!(
        validate_simulation_request(2, 1_000_001),
        Err(SimulationRejected::InvalidNumGames)
    );
    assert_eq!(validate_simulation_request(2, 1_000_000), Ok(()));
    assert_eq!(validate_simulation_request(1, 1), Ok(()));
}
