//! Per-interface rate tracking: converts cumulative byte counters into
//! per-second rates and forgets interfaces that have not been seen for a while.

use vstd::prelude::*;

verus! {

/// One stored observation of an interface's cumulative counters.
/// Timestamps are milliseconds on a monotonic clock.
#[derive(Clone, Copy, Debug, PartialEq, Eq)]
pub struct Reading {
    pub received: u64,
    pub transmitted: u64,
    pub observed_at: u64,
}

/// Bytes per second in each direction.
#[derive(Clone, Copy, Debug, PartialEq, Eq)]
pub struct RateResult {
    pub received_per_sec: u64,
    pub transmitted_per_sec: u64,
}

/// The stored state of one interface.
pub struct InterfaceSample {
    pub name: String,
    pub reading: Reading,
}

/// Last observation of each interface, keyed by interface name.
pub struct RateTracker {
    samples: Vec<InterfaceSample>,
}

pub open spec fn zero_rate() -> RateResult {
    RateResult { received_per_sec: 0, transmitted_per_sec: 0 }
}

/// The stored reading of `name`, if any.
pub open spec fn prior_of(m: Map<Seq<char>, Reading>, name: Seq<char>) -> Option<Reading> {
    if m.contains_key(name) {
        Some(m[name])
    } else {
        None
    }
}

/// Bytes per second for a counter that went from `prior` to `current` in
/// `elapsed_ms` milliseconds: the increase times 1000 divided by the elapsed
/// time, rounded down and capped at `u64::MAX`. A counter that went down
/// (a reset) contributes nothing.
pub open spec fn per_second(prior: u64, current: u64, elapsed_ms: int) -> u64 {
    if current <= prior {
        0
    } else {
        let r = (current - prior) * 1000 / elapsed_ms;
        if r > u64::MAX {
            u64::MAX
        } else {
            r as u64
        }
    }
}

/// The rate reported for a new reading given the stored one: zero on the
/// first observation and when the clock did not advance, otherwise the
/// per-second increase in each direction.
pub open spec fn rate_from(prior: Option<Reading>, received: u64, transmitted: u64, now: u64) -> RateResult {
    match prior {
        None => zero_rate(),
        Some(p) => if now <= p.observed_at {
            zero_rate()
        } else {
            RateResult {
                received_per_sec: per_second(p.received, received, now - p.observed_at),
                transmitted_per_sec: per_second(p.transmitted, transmitted, now - p.observed_at),
            }
        },
    }
}

/// A reading is stale when its age at `now` exceeds `timeout`.
pub open spec fn is_stale(r: Reading, now: u64, timeout: u64) -> bool {
    now - r.observed_at > timeout
}

/// What remains of `m` after stale readings are removed.
pub open spec fn evicted(m: Map<Seq<char>, Reading>, now: u64, timeout: u64) -> Map<Seq<char>, Reading> {
    Map::new(|n: Seq<char>| m.contains_key(n) && !is_stale(m[n], now, timeout), |n: Seq<char>| m[n])
}

pub open spec fn names_unique(s: Seq<InterfaceSample>) -> bool {
    forall|i: int, j: int| 0 <= i < s.len() && 0 <= j < s.len() && i != j ==> s[i].name@ != s[j].name@
}

pub open spec fn has_name(s: Seq<InterfaceSample>, n: Seq<char>) -> bool {
    exists|i: int| 0 <= i < s.len() && #[trigger] s[i].name@ == n
}

pub open spec fn samples_view(s: Seq<InterfaceSample>) -> Map<Seq<char>, Reading> {
    Map::new(
        |n: Seq<char>| has_name(s, n),
        |n: Seq<char>| s[choose|i: int| 0 <= i < s.len() && #[trigger] s[i].name@ == n].reading,
    )
}

proof fn lemma_view_at(s: Seq<InterfaceSample>, i: int)
    requires
        names_unique(s),
        0 <= i < s.len(),
    ensures
        samples_view(s).contains_key(s[i].name@),
        samples_view(s)[s[i].name@] == s[i].reading,
{
    let n = s[i].name@;
    assert(has_name(s, n));
    let j = choose|j: int| 0 <= j < s.len() && #[trigger] s[j].name@ == n;
    assert(j == i);
}

impl View for RateTracker {
    type V = Map<Seq<char>, Reading>;

    closed spec fn view(&self) -> Map<Seq<char>, Reading> {
        samples_view(self.samples@)
    }
}

impl RateTracker {
    /// Each interface name is stored at most once.
    pub closed spec fn wf(&self) -> bool {
        names_unique(self.samples@)
    }

    pub fn new() -> (r: RateTracker)
        ensures
            r.wf(),
            r@ == Map::<Seq<char>, Reading>::empty(),
    {
        let r = RateTracker { samples: Vec::new() };
        assert(r@ =~= Map::<Seq<char>, Reading>::empty());
        r
    }

    /// Number of interfaces currently tracked.
    pub fn len(&self) -> (r: usize)
        requires
            self.wf(),
        ensures
            r == self@.len(),
    {
        proof {
            let s = self.samples@;
            assert forall|i: int| 0 <= i < s.len() implies self@.contains_key(#[trigger] s[i].name@) by {
                lemma_view_at(s, i);
            }
            let names = s.map_values(|x: InterfaceSample| x.name@);
            assert(names.no_duplicates());
            names.unique_seq_to_set();
            assert forall|n: Seq<char>| self@.dom().contains(n) implies names.to_set().contains(n) by {
                let j = choose|j: int| 0 <= j < s.len() && #[trigger] s[j].name@ == n;
                assert(names[j] == n);
            }
            assert forall|n: Seq<char>| names.to_set().contains(n) implies self@.dom().contains(n) by {
                let j = choose|j: int| 0 <= j < names.len() && names[j] == n;
                assert(s[j].name@ == n);
            }
            assert(self@.dom() =~= names.to_set());
        }
        self.samples.len()
    }

    fn find(&self, name: &String) -> (r: Option<usize>)
        requires
            self.wf(),
        ensures
            match r {
                Some(i) => i < self.samples@.len() && self.samples@[i as int].name@ == name@,
                None => !self@.contains_key(name@),
            },
    {
        let mut i: usize = 0;
        while i < self.samples.len()
            invariant
                i <= self.samples@.len(),
                forall|j: int| 0 <= j < i ==> self.samples@[j].name@ != name@,
            decreases self.samples@.len() - i,
        {
            if self.samples[i].name == *name {
                return Some(i);
            }
            i = i + 1;
        }
        None
    }

    /// The stored reading of `name`, if the interface is tracked.
    pub fn get(&self, name: &str) -> (r: Option<Reading>)
        requires
            self.wf(),
        ensures
            r == prior_of(self@, name@),
    {
        let key = name.to_owned();
        match self.find(&key) {
            Some(i) => {
                proof { lemma_view_at(self.samples@, i as int); }
                Some(self.samples[i].reading)
            },
            None => None,
        }
    }

    /// Records a new reading of `name` at `now_ms` and returns the rate
    /// relative to the previous reading of the same interface.
    pub fn update(&mut self, name: &str, received: u64, transmitted: u64, now_ms: u64) -> (r: RateResult)
        requires
            old(self).wf(),
        ensures
            final(self).wf(),
            r == rate_from(prior_of(old(self)@, name@), received, transmitted, now_ms),
            final(self)@ == old(self)@.insert(
                name@,
                Reading { received, transmitted, observed_at: now_ms },
            ),
    {
        let key = name.to_owned();
        let reading = Reading { received, transmitted, observed_at: now_ms };
        let ghost s0 = self.samples@;
        let ghost m0 = self@;
        let ghost m1 = m0.insert(name@, reading);
        match self.find(&key) {
            Some(i) => {
                proof { lemma_view_at(s0, i as int); }
                let prior = self.samples[i].reading;
                let rate = rate_between(prior, received, transmitted, now_ms);
                self.samples.set(i, InterfaceSample { name: key, reading });
                proof {
                    let s1 = self.samples@;
                    assert(names_unique(s1));
                    assert forall|n: Seq<char>| #[trigger] m1.contains_key(n) implies
                        self@.contains_key(n) && self@[n] == m1[n] by {
                        if n == name@ {
                            lemma_view_at(s1, i as int);
                        } else {
                            let j = choose|j: int| 0 <= j < s0.len() && #[trigger] s0[j].name@ == n;
                            lemma_view_at(s0, j);
                            lemma_view_at(s1, j);
                        }
                    }
                    assert forall|n: Seq<char>| #[trigger] self@.contains_key(n) implies
                        m1.contains_key(n) by {
                        let j = choose|j: int| 0 <= j < s1.len() && #[trigger] s1[j].name@ == n;
                        if j != i {
                            lemma_view_at(s0, j);
                        }
                    }
                    assert(self@ =~= m1);
                }
                rate
            },
            None => {
                self.samples.push(InterfaceSample { name: key, reading });
                proof {
                    let s1 = self.samples@;
                    assert forall|a: int| 0 <= a < s0.len() implies #[trigger] s0[a].name@ != name@ by {
                        lemma_view_at(s0, a);
                    }
                    assert(names_unique(s1));
                    assert forall|n: Seq<char>| #[trigger] m1.contains_key(n) implies
                        self@.contains_key(n) && self@[n] == m1[n] by {
                        if n == name@ {
                            lemma_view_at(s1, s0.len() as int);
                        } else {
                            let j = choose|j: int| 0 <= j < s0.len() && #[trigger] s0[j].name@ == n;
                            lemma_view_at(s0, j);
                            lemma_view_at(s1, j);
                        }
                    }
                    assert forall|n: Seq<char>| #[trigger] self@.contains_key(n) implies
                        m1.contains_key(n) by {
                        let j = choose|j: int| 0 <= j < s1.len() && #[trigger] s1[j].name@ == n;
                        if j < s0.len() {
                            lemma_view_at(s0, j);
                        }
                    }
                    assert(self@ =~= m1);
                }
                zero_rate_exec()
            },
        }
    }

    /// Forgets every interface whose stored reading is older than
    /// `timeout_ms` at `now_ms`.
    pub fn evict_stale(&mut self, now_ms: u64, timeout_ms: u64)
        requires
            old(self).wf(),
        ensures
            final(self).wf(),
            final(self)@ == evicted(old(self)@, now_ms, timeout_ms),
    {
        let ghost s0 = self.samples@;
        let mut kept: Vec<InterfaceSample> = Vec::new();
        let mut i: usize = 0;
        while i < self.samples.len()
            invariant
                self.samples@ == s0,
                names_unique(s0),
                i <= s0.len(),
                names_unique(kept@),
                forall|j: int| 0 <= j < kept@.len() ==> exists|k: int|
                    0 <= k < i && #[trigger] s0[k] == #[trigger] kept@[j]
                        && !is_stale(s0[k].reading, now_ms, timeout_ms),
                forall|k: int| 0 <= k < i && !is_stale(#[trigger] s0[k].reading, now_ms, timeout_ms)
                    ==> exists|j: int| 0 <= j < kept@.len() && s0[k] == #[trigger] kept@[j],
            decreases s0.len() - i,
        {
            let r = self.samples[i].reading;
            if now_ms < r.observed_at || now_ms - r.observed_at <= timeout_ms {
                let name = self.samples[i].name.clone();
                let ghost k0 = kept@;
                kept.push(InterfaceSample { name, reading: r });
                proof {
                    assert(kept@[k0.len() as int] == s0[i as int]);
                    assert forall|j: int| 0 <= j < k0.len() implies
                        #[trigger] kept@[j].name@ != s0[i as int].name@ by {
                        assert(kept@[j] == k0[j]);
                        let k = choose|k: int| 0 <= k < i && #[trigger] s0[k] == #[trigger] k0[j]
                            && !is_stale(s0[k].reading, now_ms, timeout_ms);
                    }
                    assert forall|j: int| 0 <= j < kept@.len() implies exists|k: int|
                        0 <= k < i + 1 && #[trigger] s0[k] == #[trigger] kept@[j]
                            && !is_stale(s0[k].reading, now_ms, timeout_ms) by {
                        if j < k0.len() {
                            assert(kept@[j] == k0[j]);
                        } else {
                            assert(s0[i as int] == kept@[j]);
                        }
                    }
                    assert forall|k: int| 0 <= k < i + 1 && !is_stale(#[trigger] s0[k].reading, now_ms, timeout_ms)
                        implies exists|j: int| 0 <= j < kept@.len() && s0[k] == #[trigger] kept@[j] by {
                        if k < i {
                            let j = choose|j: int| 0 <= j < k0.len() && s0[k] == #[trigger] k0[j];
                            assert(kept@[j] == k0[j]);
                        } else {
                            assert(s0[k] == kept@[k0.len() as int]);
                        }
                    }
                }
            }
            i = i + 1;
        }
        self.samples = kept;
        proof {
            let s1 = self.samples@;
            let m0 = samples_view(s0);
            let m1 = evicted(m0, now_ms, timeout_ms);
            assert forall|n: Seq<char>| #[trigger] m1.contains_key(n) implies
                self@.contains_key(n) && self@[n] == m1[n] by {
                let k = choose|k: int| 0 <= k < s0.len() && #[trigger] s0[k].name@ == n;
                lemma_view_at(s0, k);
                let j = choose|j: int| 0 <= j < s1.len() && s0[k] == #[trigger] s1[j];
                lemma_view_at(s1, j);
            }
            assert forall|n: Seq<char>| #[trigger] self@.contains_key(n) implies m1.contains_key(n) by {
                let j = choose|j: int| 0 <= j < s1.len() && #[trigger] s1[j].name@ == n;
                let k = choose|k: int| 0 <= k < s0.len() && #[trigger] s0[k] == #[trigger] s1[j]
                    && !is_stale(s0[k].reading, now_ms, timeout_ms);
                lemma_view_at(s0, k);
            }
            assert(self@ =~= m1);
        }
    }
}

/// `x` capped at `u64::MAX`.
pub open spec fn capped(x: int) -> int {
    if x > u64::MAX {
        u64::MAX as int
    } else {
        x
    }
}

/// With time moving forward and counters that did not go down, each rate is
/// the non-negative increase per second, rounded down and capped at
/// `u64::MAX`.
pub proof fn lemma_forward_rates(prior: Reading, received: u64, transmitted: u64, now: u64)
    requires
        prior.observed_at < now,
        prior.received <= received,
        prior.transmitted <= transmitted,
    ensures
        ({
            let r = rate_from(Some(prior), received, transmitted, now);
            let dt = now - prior.observed_at;
            &&& r.received_per_sec as int == capped((received - prior.received) * 1000 / dt)
            &&& r.transmitted_per_sec as int == capped((transmitted - prior.transmitted) * 1000 / dt)
            &&& r.received_per_sec >= 0
            &&& r.transmitted_per_sec >= 0
        }),
{
    let dt = now - prior.observed_at;
    assert(0int * 1000 / dt == 0) by (nonlinear_arith)
        requires dt > 0;
}

/// A counter that went down (a reset) contributes a zero rate in its
/// direction, never a negative or wrapped value.
pub proof fn lemma_reset_contributes_zero(prior: Reading, received: u64, transmitted: u64, now: u64)
    ensures
        received < prior.received ==> rate_from(Some(prior), received, transmitted, now).received_per_sec == 0,
        transmitted < prior.transmitted ==> rate_from(Some(prior), received, transmitted, now).transmitted_per_sec == 0,
{
}

/// When the clock did not advance past the stored reading, the rate is zero
/// in both directions.
pub proof fn lemma_no_elapsed_time(prior: Reading, received: u64, transmitted: u64, now: u64)
    requires
        now <= prior.observed_at,
    ensures
        rate_from(Some(prior), received, transmitted, now) == zero_rate(),
{
}

/// The first observation of an interface yields a zero rate.
pub proof fn lemma_first_observation(
    state: Map<Seq<char>, Reading>,
    name: Seq<char>,
    received: u64,
    transmitted: u64,
    now: u64,
)
    requires
        !state.contains_key(name),
    ensures
        rate_from(prior_of(state, name), received, transmitted, now) == zero_rate(),
{
}

/// An interface whose reading is older than the timeout is gone after
/// eviction, and its next reading counts as a first observation.
pub proof fn lemma_evicted_is_forgotten(
    state: Map<Seq<char>, Reading>,
    now: u64,
    timeout: u64,
    name: Seq<char>,
    received: u64,
    transmitted: u64,
    later: u64,
)
    requires
        state.contains_key(name),
        is_stale(state[name], now, timeout),
    ensures
        !evicted(state, now, timeout).contains_key(name),
        rate_from(prior_of(evicted(state, now, timeout), name), received, transmitted, later) == zero_rate(),
{
}

fn zero_rate_exec() -> (r: RateResult)
    ensures
        r == zero_rate(),
{
    RateResult { received_per_sec: 0, transmitted_per_sec: 0 }
}

/// Computes `per_second(prior, current, elapsed_ms)`.
pub fn per_second_exec(prior: u64, current: u64, elapsed_ms: u64) -> (r: u64)
    requires
        elapsed_ms > 0,
    ensures
        r == per_second(prior, current, elapsed_ms as int),
{
    if current <= prior {
        0
    } else {
        let d: u128 = (current - prior) as u128;
        assert(d * 1000 <= 0xffff_ffff_ffff_ffffu128 * 1000) by (nonlinear_arith)
            requires d <= 0xffff_ffff_ffff_ffffu128;
        let q: u128 = d * 1000 / (elapsed_ms as u128);
        if q > u64::MAX as u128 {
            u64::MAX
        } else {
            q as u64
        }
    }
}

/// The rate between a stored reading and a new one taken at `now_ms`.
pub fn rate_between(prior: Reading, received: u64, transmitted: u64, now_ms: u64) -> (r: RateResult)
    ensures
        r == rate_from(Some(prior), received, transmitted, now_ms),
{
    if now_ms <= prior.observed_at {
        zero_rate_exec()
    } else {
        let dt = now_ms - prior.observed_at;
        RateResult {
            received_per_sec: per_second_exec(prior.received, received, dt),
            transmitted_per_sec: per_second_exec(prior.transmitted, transmitted, dt),
        }
    }
}

} // verus!
