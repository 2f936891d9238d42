use pig_pen::host::{
    MemoryAccounting, is_resource_error, per_seat_memory_limit, resolve_strategy_call,
};

#[test]
fn memory_growing_meters_and_latches() {
    let mut acct = MemoryAccounting::new(Some(1000));
    assert!(acct.memory_growing(500, None));
    assert_eq!(acct.current_memory_bytes, 500);
    assert_eq!(acct.peak_memory_bytes, 500);
    assert!(!acct.memory_limit_hit);
    // Over the instance limit: denied, latched, but still metered.
    assert!(!acct.memory_growing(1200, None));
    assert_eq!(acct.current_memory_bytes, 1200);
    assert_eq!(acct.peak_memory_bytes, 1200);
    assert!(acct.memory_limit_hit);
    // Shrinking afterwards: allowed, latch stays, peak never drops.
    assert!(acct.memory_growing(100, None));
    assert_eq!(acct.current_memory_bytes, 100);
    assert_eq!(acct.peak_memory_bytes, 1200);
    assert!(acct.memory_limit_hit);
}

#[test]
fn engine_maximum_denies_without_latching() {
    let mut acct = MemoryAccounting::new(Some(10_000));
    assert!(!acct.memory_growing(800, Some(700)));
    assert!(!acct.memory_limit_hit);
    assert_eq!(acct.peak_memory_bytes, 800);
}

#[test]
fn table_growing_is_unrestricted() {
    let acct = MemoryAccounting::new(Some(1));
    assert!(acct.table_growing(1_000_000, Some(10)));
}

#[test]
fn latched_breach_skips_the_sandbox_call() {
    let mut acct = MemoryAccounting::new(Some(10));
    assert_eq!(acct.pre_call_hold(), None);
    acct.memory_growing(20, None); // latch
    assert_eq!(acct.pre_call_hold(), Some(false));
}

#[test]
fn clean_decision_passes_through() {
    let mut acct = MemoryAccounting::new(Some(1000));
    assert_eq!(resolve_strategy_call(&mut acct, Ok(true)).unwrap(), true);
    assert_eq!(resolve_strategy_call(&mut acct, Ok(false)).unwrap(), false);
    assert!(!acct.memory_limit_hit);
}

#[test]
fn resource_errors_absorb_into_hold() {
    let mut acct = MemoryAccounting::new(Some(1000));
    let r = resolve_strategy_call(&mut acct, Err("OUT OF fuel".to_string()));
    assert_eq!(r.unwrap(), false);
    assert!(acct.memory_limit_hit);

    let mut acct2 = MemoryAccounting::new(Some(1000));
    let r2 = resolve_strategy_call(&mut acct2, Err("Memory allocation failed".to_string()));
    assert_eq!(r2.unwrap(), false);
    assert!(acct2.memory_limit_hit);
}

#[test]
fn latched_breach_forces_hold_whatever_the_message() {
    let mut acct = MemoryAccounting::new(Some(10));
    acct.memory_growing(20, None); // latch
    let r = resolve_strategy_call(&mut acct, Err("completely unrelated".to_string()));
    assert_eq!(r.unwrap(), false);
}

#[test]
fn other_faults_propagate() {
    let mut acct = MemoryAccounting::new(Some(1000));
    let r = resolve_strategy_call(&mut acct, Err("trap: unreachable executed".to_string()));
    let fault = r.unwrap_err();
    assert_eq!(fault.message, "trap: unreachable executed");
    assert!(!acct.memory_limit_hit);
}

#[test]
fn resource_error_classification() {
    assert!(is_resource_error("RESOURCE exhausted"));
    assert!(is_resource_error("hit the LIMIT"));
    assert!(is_resource_error("ran Out Of fuel"));
    assert!(is_resource_error("wasm memory grow refused"));
    assert!(!is_resource_error("division by zero"));
    assert!(!is_resource_error("lim it"));
    assert!(!is_resource_error(""));
}

#[test]
fn per_seat_memory_limit_splits_the_budget() {
    assert_eq!(per_seat_memory_limit(1), 200 * 1024 * 1024);
    assert_eq!(per_seat_memory_limit(2), 100 * 1024 * 1024);
    assert_eq!(per_seat_memory_limit(3), (200 * 1024 * 1024) / 3);
}
