use thermalctld::monitor::ThermalMonitor;
use thermalctld::policy::{
    ThermalPolicyManager, DEFAULT_INTERVAL_SECS, FAST_START_INTERVAL_SECS,
    RUN_POLICY_WARN_THRESHOLD_SECS,
};
use thermalctld::schedule::{secs_to_nanos, wait_after, NANOS_PER_SEC};

const SEC: u128 = 1_000_000_000;

#[test]
fn seconds_to_nanoseconds() {
    assert_eq!(NANOS_PER_SEC, SEC);
    assert_eq!(secs_to_nanos(0), 0);
    assert_eq!(secs_to_nanos(60), 60 * SEC);
    assert_eq!(secs_to_nanos(u64::MAX), u64::MAX as u128 * SEC);
}

#[test]
fn wait_after_a_cycle() {
    assert_eq!(wait_after(60, 10, 5), 50);
    assert_eq!(wait_after(60, 60, 5), 5);
    assert_eq!(wait_after(60, 75, 5), 5);
    assert_eq!(wait_after(0, 0, 7), 7);
}

#[test]
fn monitor_starts_with_initial_interval() {
    let m = ThermalMonitor::new(5, 60, 30);
    assert_eq!(m.wait_time(), 5 * SEC);
}

#[test]
fn monitor_keeps_update_cadence() {
    let mut m = ThermalMonitor::new(5, 60, 30);
    let slow = m.record_cycle(10 * SEC);
    assert!(!slow);
    assert_eq!(m.wait_time(), 50 * SEC);
    let slow = m.record_cycle(SEC / 2);
    assert!(!slow);
    assert_eq!(m.wait_time(), 60 * SEC - SEC / 2);
}

#[test]
fn monitor_overrun_falls_back_to_initial_interval() {
    let mut m = ThermalMonitor::new(5, 60, 30);
    let slow = m.record_cycle(60 * SEC);
    assert!(slow);
    assert_eq!(m.wait_time(), 5 * SEC);
    let slow = m.record_cycle(30 * SEC);
    assert!(!slow);
    assert_eq!(m.wait_time(), 30 * SEC);
    let slow = m.record_cycle(30 * SEC + 1);
    assert!(slow);
}

#[test]
fn policy_without_file_does_not_run() {
    let mut p = ThermalPolicyManager::new(false);
    assert!(!p.is_policy_loaded());
    assert!(!p.init_algorithm());
    assert!(!p.run_policy());
    assert!(!p.deinitialize());
    assert_eq!(p.start_run(true), None);
    assert!(!p.is_policy_loaded());
}

#[test]
fn policy_load_is_sticky() {
    let mut p = ThermalPolicyManager::new(false);
    p.load_policy(false);
    assert!(!p.is_policy_loaded());
    p.load_policy(true);
    assert!(p.is_policy_loaded());
    p.load_policy(false);
    assert!(p.is_policy_loaded());
    assert!(p.init_algorithm());
    assert!(p.run_policy());
    assert!(p.deinitialize());
}

#[test]
fn policy_run_schedule() {
    let mut p = ThermalPolicyManager::new(true);
    assert_eq!(p.interval_nanos(), 60 * SEC);
    assert_eq!(p.start_run(false), Some(DEFAULT_INTERVAL_SECS as u128 * SEC));
    assert!(p.is_policy_loaded());
    assert_eq!(p.next_wait(20 * SEC), 40 * SEC);
    assert_eq!(p.next_wait(60 * SEC), FAST_START_INTERVAL_SECS as u128 * SEC);
    assert_eq!(p.next_wait(90 * SEC), 15 * SEC);
    assert!(!ThermalPolicyManager::is_slow_run(RUN_POLICY_WARN_THRESHOLD_SECS as u128 * SEC));
    assert!(ThermalPolicyManager::is_slow_run(30 * SEC + 1));
}
