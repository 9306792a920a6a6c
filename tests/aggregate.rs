use system_monitor::aggregate::{InterfaceReading, NetworkTotals};
use system_monitor::monitor::names_of;
use system_monitor::rate::RateTracker;
use system_monitor::scale::{scale_of, ByteScale};

fn reading(name: &str, total_rx: u64, total_tx: u64, rx: u64, tx: u64) -> InterfaceReading {
    InterfaceReading {
        name: name.to_string(),
        total_received: total_rx,
        total_transmitted: total_tx,
        received: rx,
        transmitted: tx,
    }
}

fn totals(tx: u64, rx: u64, rps: u64, tps: u64) -> NetworkTotals {
    NetworkTotals { tx, rx, received_per_sec: rps, transmitted_per_sec: tps }
}

#[test]
fn empty_interface_list_gives_zero_totals() {
    let mut t = RateTracker::new();
    assert_eq!(t.record_cycle(&vec![], 1000), totals(0, 0, 0, 0));
    assert_eq!(t.len(), 0);
}

#[test]
fn first_cycle_reports_nothing() {
    let mut t = RateTracker::new();
    let r = vec![reading("eth0", 1000, 500, 1000, 500)];
    assert_eq!(t.record_cycle(&r, 0), totals(0, 0, 0, 0));
    assert_eq!(t.len(), 1);
}

#[test]
fn cycles_sum_primary_interfaces_only() {
    let mut t = RateTracker::new();
    let first = vec![
        reading("eth0", 1000, 100, 0, 0),
        reading("lo", 1000, 1000, 0, 0),
        reading("en0", 0, 0, 0, 0),
    ];
    t.record_cycle(&first, 0);
    assert_eq!(t.len(), 2);
    let second = vec![
        reading("eth0", 3000, 300, 2000, 200),
        reading("lo", 9000, 9000, 8000, 8000),
        reading("en0", 4000, 0, 4000, 0),
        reading("enp3s0", 50, 50, 50, 50),
    ];
    assert_eq!(t.record_cycle(&second, 2000), totals(200, 6000, 3000, 100));
    assert_eq!(t.len(), 3);
}

#[test]
fn reset_in_a_cycle_contributes_zero() {
    let mut t = RateTracker::new();
    t.record_cycle(&vec![reading("eth0", 3000, 3000, 0, 0)], 2000);
    let r = t.record_cycle(&vec![reading("eth0", 2000, 4000, 10, 20)], 3000);
    assert_eq!(r, totals(20, 10, 0, 1000));
}

#[test]
fn stale_interface_restarts_after_gap() {
    let mut t = RateTracker::new();
    t.record_cycle(&vec![reading("eth0", 0, 0, 0, 0)], 0);
    let r = t.record_cycle(&vec![reading("eth0", 70000, 70000, 5, 5)], 70000);
    assert_eq!(r, totals(0, 0, 0, 0));
    let r = t.record_cycle(&vec![reading("eth0", 71000, 72000, 5, 6)], 71000);
    assert_eq!(r, totals(6, 5, 1000, 2000));
}

#[test]
fn totals_saturate() {
    let mut t = RateTracker::new();
    t.record_cycle(&vec![reading("eth0", 0, 0, 0, 0), reading("eth1", 0, 0, 0, 0)], 0);
    let r = t.record_cycle(
        &vec![
            reading("eth0", u64::MAX, 0, u64::MAX, 0),
            reading("eth1", u64::MAX, 0, 1, 0),
        ],
        1,
    );
    assert_eq!(r, totals(0, u64::MAX, u64::MAX, 0));
}

#[test]
fn identical_inputs_give_identical_totals() {
    let runs = [
        (vec![reading("eth0", 100, 100, 0, 0), reading("docker0", 1, 1, 1, 1)], 0u64),
        (vec![reading("eth0", 2100, 600, 2000, 500)], 1000),
        (vec![reading("eth0", 2000, 700, 0, 100)], 1500),
    ];
    let mut a = RateTracker::new();
    let mut b = RateTracker::new();
    for (readings, now) in runs.iter() {
        assert_eq!(a.record_cycle(readings, *now), b.record_cycle(readings, *now));
    }
}

#[test]
fn names_of_readings() {
    let r = vec![reading("eth0", 0, 0, 0, 0), reading("lo", 0, 0, 0, 0)];
    assert_eq!(names_of(&r), vec!["eth0".to_string(), "lo".to_string()]);
}

#[test]
fn byte_scales() {
    assert_eq!(scale_of(0), ByteScale::Bytes);
    assert_eq!(scale_of(1023), ByteScale::Bytes);
    assert_eq!(scale_of(1024), ByteScale::Kilo);
    assert_eq!(scale_of(1048575), ByteScale::Kilo);
    assert_eq!(scale_of(1048576), ByteScale::Mega);
    assert_eq!(scale_of(1073741823), ByteScale::Mega);
    assert_eq!(scale_of(1073741824), ByteScale::Giga);
    assert_eq!(scale_of(u64::MAX), ByteScale::Giga);
}

#[test]
fn first_sampling_of_host_reports_zero() {
    let mut m = system_monitor::monitor::NetworkMonitor::new();
    assert_eq!(m.get_network_info(0), (0, 0, 0, 0));
    let names = m.get_interface_names();
    let mut sorted = names.clone();
    sorted.sort();
    sorted.dedup();
    assert_eq!(sorted.len(), names.len());
}
