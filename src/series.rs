//! Chart state: a fixed-capacity series of the most recent samples, indexed
//! from zero, plus the latest system figures.

use vstd::prelude::*;
use crate::monitor::NetworkMonitor;
use crate::rate::Reading;

verus! {

/// The values kept after `y` is appended to `values` in a window of
/// capacity `w`: the oldest value is dropped once there are more than `w`.
pub open spec fn window_push(values: Seq<u64>, y: u64, w: nat) -> Seq<u64> {
    let s = values.push(y);
    if s.len() > w {
        s.subrange(s.len() - w, s.len() as int)
    } else {
        s
    }
}

/// The values kept after pushing each of `values` in turn into an empty
/// window of capacity `w`.
pub open spec fn pushed_all(values: Seq<u64>, w: nat) -> Seq<u64>
    decreases values.len(),
{
    if values.len() == 0 {
        Seq::empty()
    } else {
        window_push(pushed_all(values.drop_last(), w), values.last(), w)
    }
}

/// Chart points: each value paired with its position.
pub open spec fn indexed(values: Seq<u64>) -> Seq<(usize, u64)> {
    Seq::new(values.len(), |i: int| (i as usize, values[i]))
}

/// A fixed-capacity series of the most recent values, indexed from zero.
pub struct SlidingWindow {
    data_points: Vec<(usize, u64)>,
    window_size: usize,
}

impl SlidingWindow {
    /// The points are numbered by position and never more than the window.
    pub closed spec fn wf(&self) -> bool {
        &&& self.data_points@.len() <= self.window_size
        &&& forall|i: int| 0 <= i < self.data_points@.len() ==> (#[trigger] self.data_points@[i]).0 == i
    }

    /// The values of the series, oldest first.
    pub closed spec fn values(&self) -> Seq<u64> {
        self.data_points@.map_values(|p: (usize, u64)| p.1)
    }

    /// The capacity of the series.
    pub closed spec fn window(&self) -> nat {
        self.window_size as nat
    }

    pub fn new(window_size: usize) -> (r: SlidingWindow)
        ensures
            r.wf(),
            r.values() == Seq::<u64>::empty(),
            r.window() == window_size,
    {
        let r = SlidingWindow { data_points: Vec::new(), window_size };
        assert(r.values() =~= Seq::<u64>::empty());
        r
    }

    /// Appends `y`; once the window is over capacity the oldest point is
    /// dropped and the rest are renumbered from zero.
    pub fn push(&mut self, y: u64)
        requires
            old(self).wf(),
            old(self).window() > 0,
        ensures
            final(self).wf(),
            final(self).values() == window_push(old(self).values(), y, old(self).window()),
            final(self).window() == old(self).window(),
    {
        let ghost v0 = self.values();
        let n = self.data_points.len();
        self.data_points.push((n, y));
        assert(self.values() =~= v0.push(y));
        if self.data_points.len() > self.window_size {
            self.data_points.remove(0);
            let ghost v1 = self.values();
            assert(v1 =~= v0.push(y).subrange(1, v0.len() + 1 as int));
            let mut i: usize = 0;
            while i < self.data_points.len()
                invariant
                    i <= self.data_points@.len(),
                    self.data_points@.len() == self.window_size,
                    self.data_points@.map_values(|p: (usize, u64)| p.1) == v1,
                    forall|j: int| 0 <= j < i ==> (#[trigger] self.data_points@[j]).0 == j,
                decreases self.data_points@.len() - i,
            {
                let p = self.data_points[i];
                self.data_points.set(i, (i, p.1));
                assert(self.data_points@.map_values(|p: (usize, u64)| p.1) =~= v1);
                i = i + 1;
            }
        }
    }

    /// The points, oldest first, numbered from zero.
    pub fn points(&self) -> (r: Vec<(usize, u64)>)
        requires
            self.wf(),
        ensures
            r@ == indexed(self.values()),
    {
        let mut r: Vec<(usize, u64)> = Vec::new();
        let mut i: usize = 0;
        while i < self.data_points.len()
            invariant
                self.wf(),
                i <= self.data_points@.len(),
                r@ == indexed(self.values()).subrange(0, i as int),
            decreases self.data_points@.len() - i,
        {
            r.push(self.data_points[i]);
            assert(r@ =~= indexed(self.values()).subrange(0, i + 1));
            i = i + 1;
        }
        assert(indexed(self.values()).subrange(0, i as int) =~= indexed(self.values()));
        r
    }

    /// The capacity of the series.
    pub fn window_size(&self) -> (r: usize)
        ensures
            r == self.window(),
    {
        self.window_size
    }
}

/// Pushing `n` values into an empty window of capacity `w` keeps the last
/// `min(n, w)` of them in order, numbered `0..` by position; the last point
/// holds the value pushed last.
pub proof fn lemma_pushes_fill_window(values: Seq<u64>, w: nat)
    requires
        0 < w <= usize::MAX,
    ensures
        ({
            let kept = pushed_all(values, w);
            let n = values.len();
            &&& kept.len() == if n <= w { n } else { w }
            &&& kept == values.subrange(n - kept.len(), n as int)
            &&& forall|i: int| 0 <= i < kept.len() ==> (#[trigger] indexed(kept)[i]).0 == i
            &&& n > 0 ==> indexed(kept).last().1 == values.last()
        }),
    decreases values.len(),
{
    let n = values.len();
    assert forall|i: int| 0 <= i < pushed_all(values, w).len() implies
        (#[trigger] indexed(pushed_all(values, w))[i]).0 == i by {
    }
    if n > 0 {
        lemma_pushes_fill_window(values.drop_last(), w);
        let prev = pushed_all(values.drop_last(), w);
        let kept = pushed_all(values, w);
        assert(prev == values.drop_last().subrange(n - 1 - prev.len(), n - 1));
        assert(kept =~= values.subrange(n - kept.len(), n as int));
        assert(kept.len() > 0);
        assert(kept.last() == values.last());
        assert(indexed(kept).last() == indexed(kept)[kept.len() - 1]);
    } else {
        assert(pushed_all(values, w) =~= values.subrange(0, 0));
    }
}

/// The chart's series and the latest system figures. CPU usage is in
/// hundredths of a percent; memory figures are in bytes.
pub struct ChartState {
    pub series: SlidingWindow,
    pub cpu_usage: u64,
    pub memory_used: u64,
    pub memory_total: u64,
    pub network_monitor: NetworkMonitor,
}

impl ChartState {
    pub open spec fn wf(&self) -> bool {
        self.series.wf() && self.network_monitor.wf()
    }

    pub fn new(window_size: usize) -> (r: ChartState)
        ensures
            r.wf(),
            r.series.values() == Seq::<u64>::empty(),
            r.series.window() == window_size,
            r.cpu_usage == 0,
            r.memory_used == 0,
            r.memory_total == 0,
            r.network_monitor@ == Map::<Seq<char>, Reading>::empty(),
    {
        ChartState {
            series: SlidingWindow::new(window_size),
            cpu_usage: 0,
            memory_used: 0,
            memory_total: 0,
            network_monitor: NetworkMonitor::new(),
        }
    }

    /// Appends a CPU sample to the chart's series.
    pub fn add_point(&mut self, y: u64)
        requires
            old(self).wf(),
            old(self).series.window() > 0,
        ensures
            final(self).wf(),
            final(self).series.values() == window_push(old(self).series.values(), y, old(self).series.window()),
            final(self).series.window() == old(self).series.window(),
            final(self).cpu_usage == old(self).cpu_usage,
            final(self).memory_used == old(self).memory_used,
            final(self).memory_total == old(self).memory_total,
            final(self).network_monitor == old(self).network_monitor,
    {
        self.series.push(y);
    }
}

} // verus!
