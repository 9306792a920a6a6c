//! The network counter source of the host, tied to a rate tracker.

use vstd::prelude::*;
use sysinfo::Networks;
use crate::aggregate::{cycle, InterfaceReading, NetworkTotals};
use crate::rate::{Reading, RateTracker};

verus! {

#[verifier::external_type_specification]
#[verifier::external_body]
pub struct ExNetworks(sysinfo::Networks);

#[verifier::external_type_specification]
#[verifier::external_body]
pub struct ExNetworkData(sysinfo::NetworkData);

/// Relies on sysinfo's `Networks::new_with_refreshed_list`: a handle on the
/// host's network interfaces with their list loaded.
#[verifier::external_body]
fn load_networks() -> Networks {
    Networks::new_with_refreshed_list()
}

/// Relies on sysinfo's `Networks::refresh`: re-reads every interface's
/// counters and drops interfaces that are gone.
#[verifier::external_body]
fn refresh_networks(networks: &mut Networks) {
    networks.refresh(true)
}

/// Relies on sysinfo's `Networks` (a map from interface name to
/// `NetworkData`) and on `NetworkData`'s `total_received`,
/// `total_transmitted`, `received` and `transmitted`: one reading per
/// interface, in the map's iteration order.
#[verifier::external_body]
fn network_readings(networks: &Networks) -> Vec<InterfaceReading> {
    networks
        .iter()
        .map(|(name, data)| InterfaceReading {
            name: name.clone(),
            total_received: data.total_received(),
            total_transmitted: data.total_transmitted(),
            received: data.received(),
            transmitted: data.transmitted(),
        })
        .collect()
}

/// The names of the given readings, in order.
pub fn names_of(readings: &Vec<InterfaceReading>) -> (r: Vec<String>)
    ensures
        r@.len() == readings@.len(),
        forall|i: int| 0 <= i < r@.len() ==> #[trigger] r@[i]@ == readings@[i].name@,
{
    let mut r: Vec<String> = Vec::new();
    let mut i: usize = 0;
    while i < readings.len()
        invariant
            i <= readings@.len(),
            r@.len() == i,
            forall|j: int| 0 <= j < i ==> #[trigger] r@[j]@ == readings@[j].name@,
        decreases readings@.len() - i,
    {
        r.push(readings[i].name.clone());
        i = i + 1;
    }
    r
}

/// Network throughput of the host, measured between successive calls.
pub struct NetworkMonitor {
    networks: Networks,
    tracker: RateTracker,
}

impl View for NetworkMonitor {
    type V = Map<Seq<char>, Reading>;

    /// The last reading of each tracked interface.
    closed spec fn view(&self) -> Map<Seq<char>, Reading> {
        self.tracker@
    }
}

impl NetworkMonitor {
    pub closed spec fn wf(&self) -> bool {
        self.tracker.wf()
    }

    pub fn new() -> (r: NetworkMonitor)
        ensures
            r.wf(),
            r@ == Map::<Seq<char>, Reading>::empty(),
    {
        NetworkMonitor { networks: load_networks(), tracker: RateTracker::new() }
    }

    /// Refreshes the counters and runs one sampling cycle at `now_ms`
    /// (milliseconds on a monotonic clock). Returns `(tx, rx,
    /// received_per_sec, transmitted_per_sec)`: the cycle's totals for
    /// whatever interfaces the host reported.
    pub fn get_network_info(&mut self, now_ms: u64) -> (r: (u64, u64, u64, u64))
        requires
            old(self).wf(),
        ensures
            final(self).wf(),
            exists|readings: Seq<InterfaceReading>|
                #[trigger] cycle(old(self)@, readings, now_ms) == (
                    final(self)@,
                    NetworkTotals { tx: r.0, rx: r.1, received_per_sec: r.2, transmitted_per_sec: r.3 },
                ),
    {
        refresh_networks(&mut self.networks);
        let readings = network_readings(&self.networks);
        let t = self.tracker.record_cycle(&readings, now_ms);
        assert(cycle(old(self)@, readings@, now_ms) == (self@, t));
        (t.tx, t.rx, t.received_per_sec, t.transmitted_per_sec)
    }

    /// The names of the interfaces the host currently reports.
    pub fn get_interface_names(&self) -> Vec<String> {
        let readings = network_readings(&self.networks);
        names_of(&readings)
    }
}

} // verus!
