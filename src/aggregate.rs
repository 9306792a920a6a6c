//! One sampling cycle over the interfaces that the counter source reports.

use vstd::prelude::*;
use crate::filter::{is_primary_name, is_valid_interface};
use crate::rate::{evicted, prior_of, rate_from, Reading, RateTracker};

verus! {

/// Milliseconds after which an interface that was not seen is forgotten.
pub const STALE_AFTER_MS: u64 = 60000;

/// What the counter source reports for one interface.
pub struct InterfaceReading {
    pub name: String,
    /// Bytes received since the interface came up.
    pub total_received: u64,
    /// Bytes transmitted since the interface came up.
    pub total_transmitted: u64,
    /// Bytes received since the source's previous refresh.
    pub received: u64,
    /// Bytes transmitted since the source's previous refresh.
    pub transmitted: u64,
}

/// The network part of one display snapshot. `tx` and `rx` sum the
/// per-refresh byte counts of tracked primary interfaces; the two rates sum
/// the per-second rates derived from the cumulative counters. All sums
/// saturate at `u64::MAX`.
#[derive(Clone, Copy, Debug, PartialEq, Eq)]
pub struct NetworkTotals {
    pub tx: u64,
    pub rx: u64,
    pub received_per_sec: u64,
    pub transmitted_per_sec: u64,
}

pub open spec fn sat_add(a: u64, b: u64) -> u64 {
    if a + b > u64::MAX {
        u64::MAX
    } else {
        (a + b) as u64
    }
}

pub open spec fn zero_totals() -> NetworkTotals {
    NetworkTotals { tx: 0, rx: 0, received_per_sec: 0, transmitted_per_sec: 0 }
}

/// The effect of one reported interface on the tracked state and the totals.
/// Interfaces that are not primary are ignored. A primary interface is
/// recorded; its rate is added to the rate totals, and its per-refresh
/// counts are added to `tx` and `rx` when it was already tracked.
pub open spec fn absorb(
    state: Map<Seq<char>, Reading>,
    totals: NetworkTotals,
    r: InterfaceReading,
    now: u64,
) -> (Map<Seq<char>, Reading>, NetworkTotals) {
    if !is_primary_name(r.name@) {
        (state, totals)
    } else {
        let rate = rate_from(prior_of(state, r.name@), r.total_received, r.total_transmitted, now);
        let known = state.contains_key(r.name@);
        (
            state.insert(
                r.name@,
                Reading { received: r.total_received, transmitted: r.total_transmitted, observed_at: now },
            ),
            NetworkTotals {
                tx: if known { sat_add(totals.tx, r.transmitted) } else { totals.tx },
                rx: if known { sat_add(totals.rx, r.received) } else { totals.rx },
                received_per_sec: sat_add(totals.received_per_sec, rate.received_per_sec),
                transmitted_per_sec: sat_add(totals.transmitted_per_sec, rate.transmitted_per_sec),
            },
        )
    }
}

/// The readings taken in order, starting from `state` and zero totals.
pub open spec fn absorb_all(
    state: Map<Seq<char>, Reading>,
    readings: Seq<InterfaceReading>,
    now: u64,
) -> (Map<Seq<char>, Reading>, NetworkTotals)
    decreases readings.len(),
{
    if readings.len() == 0 {
        (state, zero_totals())
    } else {
        let prev = absorb_all(state, readings.drop_last(), now);
        absorb(prev.0, prev.1, readings.last(), now)
    }
}

/// One full cycle: stale interfaces are evicted, then the readings are
/// absorbed in order.
pub open spec fn cycle(
    state: Map<Seq<char>, Reading>,
    readings: Seq<InterfaceReading>,
    now: u64,
) -> (Map<Seq<char>, Reading>, NetworkTotals) {
    absorb_all(evicted(state, now, STALE_AFTER_MS), readings, now)
}

/// The totals of successive cycles, each given its readings and time.
pub open spec fn run_cycles(
    state: Map<Seq<char>, Reading>,
    runs: Seq<(Seq<InterfaceReading>, u64)>,
) -> Seq<NetworkTotals>
    decreases runs.len(),
{
    if runs.len() == 0 {
        Seq::empty()
    } else {
        let next = cycle(state, runs[0].0, runs[0].1);
        seq![next.1] + run_cycles(next.0, runs.drop_first())
    }
}

/// Trackers in the same state, given the same readings at the same times,
/// produce the same totals cycle after cycle.
pub proof fn lemma_cycles_deterministic(
    a: Map<Seq<char>, Reading>,
    b: Map<Seq<char>, Reading>,
    runs: Seq<(Seq<InterfaceReading>, u64)>,
)
    requires
        a == b,
    ensures
        run_cycles(a, runs) == run_cycles(b, runs),
{
}

/// Readings of interfaces that are not primary change neither the state nor
/// the totals.
pub proof fn lemma_ignored_interface(
    state: Map<Seq<char>, Reading>,
    totals: NetworkTotals,
    r: InterfaceReading,
    now: u64,
)
    requires
        !is_primary_name(r.name@),
    ensures
        absorb(state, totals, r, now) == (state, totals),
{
}

impl RateTracker {
    /// Runs one sampling cycle at `now_ms` over the reported interfaces and
    /// returns the network totals of the cycle.
    pub fn record_cycle(&mut self, readings: &Vec<InterfaceReading>, now_ms: u64) -> (r: NetworkTotals)
        requires
            old(self).wf(),
        ensures
            final(self).wf(),
            (final(self)@, r) == cycle(old(self)@, readings@, now_ms),
    {
        self.evict_stale(now_ms, STALE_AFTER_MS);
        let ghost start = self@;
        let mut totals = NetworkTotals { tx: 0, rx: 0, received_per_sec: 0, transmitted_per_sec: 0 };
        let mut i: usize = 0;
        assert(readings@.subrange(0, 0) =~= Seq::<InterfaceReading>::empty());
        while i < readings.len()
            invariant
                self.wf(),
                i <= readings@.len(),
                (self@, totals) == absorb_all(start, readings@.subrange(0, i as int), now_ms),
            decreases readings@.len() - i,
        {
            let r = &readings[i];
            let ghost before = (self@, totals);
            if is_valid_interface(r.name.as_str()) {
                let known = self.get(r.name.as_str()).is_some();
                let rate = self.update(r.name.as_str(), r.total_received, r.total_transmitted, now_ms);
                if known {
                    totals.tx = totals.tx.saturating_add(r.transmitted);
                    totals.rx = totals.rx.saturating_add(r.received);
                }
                totals.received_per_sec = totals.received_per_sec.saturating_add(rate.received_per_sec);
                totals.transmitted_per_sec =
                    totals.transmitted_per_sec.saturating_add(rate.transmitted_per_sec);
            }
            assert(readings@.subrange(0, i + 1).drop_last() =~= readings@.subrange(0, i as int));
            assert((self@, totals) == absorb(before.0, before.1, readings@[i as int], now_ms));
            i = i + 1;
        }
        assert(readings@.subrange(0, readings@.len() as int) =~= readings@);
        totals
    }
}

} // verus!
