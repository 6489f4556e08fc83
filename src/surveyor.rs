//! The source scheduler: which sources are due on a tick, when the cached
//! source and metric lists are stale, and how long to sleep between ticks.
use vstd::prelude::*;

use crate::model::{ready_spec, Metric, Source};
use crate::state::{non_negative, valid_period};
use crate::window::valid_time;

verus! {

/// A source is dispatched on a tick at `now` when it is enabled and ready.
pub open spec fn due(s: Source, now: i64) -> bool {
    s.enabled && ready_spec(s.interval, s.last_update, now)
}

/// `s` after an optimistic dispatch at `now`: only `last_update` moves.
pub open spec fn mark_dispatched(s: Source, now: i64) -> Source {
    Source { last_update: now, ..s }
}

/// Indices, in ascending order, of the first `n` sources that are due at `now`.
pub open spec fn due_indices(srcs: Seq<Source>, now: i64, n: int) -> Seq<usize>
    decreases n,
{
    if n <= 0 {
        Seq::<usize>::empty()
    } else if due(srcs[n - 1], now) {
        due_indices(srcs, now, n - 1).push((n - 1) as usize)
    } else {
        due_indices(srcs, now, n - 1)
    }
}

/// Indices, in ascending order, of the metrics that belong to source `source_id`.
pub open spec fn metric_indices(metrics: Seq<Metric>, source_id: i64, n: int) -> Seq<usize>
    decreases n,
{
    if n <= 0 {
        Seq::<usize>::empty()
    } else if metrics[n - 1].source_id == source_id {
        metric_indices(metrics, source_id, n - 1).push((n - 1) as usize)
    } else {
        metric_indices(metrics, source_id, n - 1)
    }
}

/// What a tick at `now` does to the source list and which sources it dispatches.
pub open spec fn dispatch_result(
    before: Seq<Source>,
    after: Seq<Source>,
    dispatched: Seq<usize>,
    now: i64,
) -> bool {
    &&& dispatched == due_indices(before, now, before.len() as int)
    &&& after.len() == before.len()
    &&& forall|i: int|
        0 <= i < before.len() ==> #[trigger] after[i] == (if due(before[i], now) {
            mark_dispatched(before[i], now)
        } else {
            before[i]
        })
}

proof fn lemma_due_indices(srcs: Seq<Source>, now: i64, n: int)
    requires
        0 <= n <= srcs.len(),
        srcs.len() <= usize::MAX,
    ensures
        forall|k: int|
            0 <= k < due_indices(srcs, now, n).len() ==> {
                let i = #[trigger] due_indices(srcs, now, n)[k];
                &&& 0 <= i < n
                &&& due(srcs[i as int], now)
            },
        forall|i: int| 0 <= i < n && due(srcs[i], now) ==> due_indices(srcs, now, n).contains(i as usize),
    decreases n,
{
    if n > 0 {
        lemma_due_indices(srcs, now, n - 1);
        let prev = due_indices(srcs, now, n - 1);
        if due(srcs[n - 1], now) {
            let cur = prev.push((n - 1) as usize);
            assert(((n - 1) as usize) as int == n - 1);
            assert forall|i: int| 0 <= i < n && due(srcs[i], now) implies cur.contains(i as usize) by {
                if i < n - 1 {
                    let k = choose|k: int| 0 <= k < prev.len() && prev[k] == i as usize;
                    assert(cur[k] == i as usize);
                } else {
                    assert(cur[cur.len() - 1] == i as usize);
                }
            }
        }
    }
}

/// Every index that `metric_indices` yields points at a metric of the source.
pub proof fn lemma_metric_indices(metrics: Seq<Metric>, source_id: i64, n: int)
    requires
        0 <= n <= metrics.len(),
        metrics.len() <= usize::MAX,
    ensures
        forall|k: int|
            0 <= k < metric_indices(metrics, source_id, n).len() ==> {
                let i = #[trigger] metric_indices(metrics, source_id, n)[k];
                &&& 0 <= i < n
                &&& metrics[i as int].source_id == source_id
            },
    decreases n,
{
    if n > 0 {
        lemma_metric_indices(metrics, source_id, n - 1);
        let prev = metric_indices(metrics, source_id, n - 1);
        let cur = metric_indices(metrics, source_id, n);
        assert(((n - 1) as usize) as int == n - 1);
        assert forall|k: int| 0 <= k < cur.len() implies {
            let i = #[trigger] cur[k];
            &&& 0 <= i < n
            &&& metrics[i as int].source_id == source_id
        } by {
            if k < prev.len() {
                assert(cur[k] == prev[k]);
            }
        }
    }
}

/// The scheduler's cached lists and clocks.
pub struct Surveyor {
    pub sources: Vec<Source>,
    pub metrics: Vec<Metric>,
    /// Epoch seconds of the last reload of the source and metric lists.
    pub last_fetch: i64,
    /// Epoch seconds at which the last tick started.
    pub last_activation: i64,
    /// Tick period, in seconds.
    pub interval: i64,
    /// Age, in seconds, after which the cached lists are reloaded.
    pub cache_time: i64,
}

impl Surveyor {
    /// The scheduler invariant: clocks and periods inside the accepted ranges.
    pub open spec fn wf(&self) -> bool {
        &&& valid_time(self.last_fetch as int)
        &&& valid_time(self.last_activation as int)
        &&& valid_period(self.interval as int)
        &&& valid_period(self.cache_time as int)
    }

    /// A scheduler started at `now`, with empty lists that are due for a reload.
    pub fn new(interval: i64, cache_time: i64, now: i64) -> (r: Surveyor)
        requires
            valid_period(interval as int),
            valid_period(cache_time as int),
            valid_time(now as int),
        ensures
            r.wf(),
            r.sources@.len() == 0,
            r.metrics@.len() == 0,
            r.last_fetch == 0,
            r.last_activation == now,
            r.interval == interval,
            r.cache_time == cache_time,
    {
        Surveyor {
            sources: Vec::new(),
            metrics: Vec::new(),
            last_fetch: 0,
            last_activation: now,
            interval,
            cache_time,
        }
    }

    /// Seconds to sleep before the next tick: `max(0, interval - (now - last_activation))`.
    pub fn tick_delay(&self, now: i64) -> (r: i64)
        requires
            self.wf(),
            valid_time(now as int),
        ensures
            r == non_negative(self.interval - (now - self.last_activation)),
    {
        let d = self.interval - (now - self.last_activation);
        if d > 0 {
            d
        } else {
            0
        }
    }

    /// Records that a tick starts at `now`.
    pub fn start_tick(&mut self, now: i64)
        requires
            old(self).wf(),
            valid_time(now as int),
        ensures
            final(self).wf(),
            *final(self) == (Surveyor { last_activation: now, ..*old(self) }),
    {
        self.last_activation = now;
    }

    /// Whether the cached lists are older than `cache_time` at `now`.
    pub fn needs_refresh(&self, now: i64) -> (r: bool)
        requires
            self.wf(),
            valid_time(now as int),
        ensures
            r == (now - self.last_fetch > self.cache_time),
    {
        now - self.last_fetch > self.cache_time
    }

    /// Replaces the cached lists by a fresh read, taken at `now`.
    pub fn refresh(&mut self, now: i64, sources: Vec<Source>, metrics: Vec<Metric>)
        requires
            old(self).wf(),
            valid_time(now as int),
        ensures
            final(self).wf(),
            final(self).sources@ == sources@,
            final(self).metrics@ == metrics@,
            final(self).last_fetch == now,
            final(self).last_activation == old(self).last_activation,
            final(self).interval == old(self).interval,
            final(self).cache_time == old(self).cache_time,
    {
        self.sources = sources;
        self.metrics = metrics;
        self.last_fetch = now;
    }

    /// Picks the sources due at `now` and marks each as updated at `now` before its
    /// fetch runs, so that the next tick does not dispatch it again. Returns their
    /// indices in the source list.
    pub fn dispatch(&mut self, now: i64) -> (r: Vec<usize>)
        requires
            old(self).wf(),
        ensures
            final(self).wf(),
            dispatch_result(old(self).sources@, final(self).sources@, r@, now),
            final(self).metrics@ == old(self).metrics@,
            final(self).last_fetch == old(self).last_fetch,
            final(self).last_activation == old(self).last_activation,
            final(self).interval == old(self).interval,
            final(self).cache_time == old(self).cache_time,
    {
        let ghost start = self.sources@;
        let mut out: Vec<usize> = Vec::new();
        let mut i: usize = 0;
        while i < self.sources.len()
            invariant
                0 <= i <= start.len(),
                self.sources@.len() == start.len(),
                self.wf(),
                self.metrics@ == old(self).metrics@,
                self.last_fetch == old(self).last_fetch,
                self.last_activation == old(self).last_activation,
                self.interval == old(self).interval,
                self.cache_time == old(self).cache_time,
                start == old(self).sources@,
                out@ == due_indices(start, now, i as int),
                forall|j: int| i <= j < start.len() ==> #[trigger] self.sources@[j] == start[j],
                forall|j: int|
                    0 <= j < i ==> #[trigger] self.sources@[j] == (if due(start[j], now) {
                        mark_dispatched(start[j], now)
                    } else {
                        start[j]
                    }),
            decreases start.len() - i,
        {
            let ready = self.sources[i].enabled && self.sources[i].ready_at(now);
            if ready {
                self.sources[i].last_update = now;
                out.push(i);
            }
            i = i + 1;
        }
        out
    }

    /// Indices, in ascending order, of the cached metrics that belong to `source_id`.
    pub fn metrics_of(&self, source_id: i64) -> (r: Vec<usize>)
        ensures
            r@ == metric_indices(self.metrics@, source_id, self.metrics@.len() as int),
    {
        let mut out: Vec<usize> = Vec::new();
        let mut i: usize = 0;
        while i < self.metrics.len()
            invariant
                0 <= i <= self.metrics@.len(),
                out@ == metric_indices(self.metrics@, source_id, i as int),
            decreases self.metrics@.len() - i,
        {
            if self.metrics[i].source_id == source_id {
                out.push(i);
            }
            i = i + 1;
        }
        out
    }
}

/// A run of ticks: `states[j + 1]` and `dispatched[j]` are what the tick at `times[j]`
/// makes of `states[j]`, with no reload of the source list in between.
pub open spec fn tick_run(
    states: Seq<Seq<Source>>,
    dispatched: Seq<Seq<usize>>,
    times: Seq<i64>,
) -> bool {
    &&& states.len() == dispatched.len() + 1
    &&& times.len() == dispatched.len()
    &&& states[0].len() <= usize::MAX
    &&& forall|j: int|
        0 <= j < dispatched.len() ==> dispatch_result(
            #[trigger] states[j],
            states[j + 1],
            dispatched[j],
            times[j],
        )
}

proof fn lemma_run_since_dispatch(
    states: Seq<Seq<Source>>,
    dispatched: Seq<Seq<usize>>,
    times: Seq<i64>,
    i: usize,
    a: int,
    j: int,
)
    requires
        tick_run(states, dispatched, times),
        forall|u: int, v: int| 0 <= u <= v < times.len() ==> times[u] <= times[v],
        0 <= a < j <= dispatched.len(),
        dispatched[a].contains(i),
    ensures
        states[j].len() == states[0].len(),
        (i as int) < states[j].len(),
        states[j][i as int].interval == states[0][i as int].interval,
        states[j][i as int].last_update >= times[a],
    decreases j,
{
    lemma_run_lengths(states, dispatched, times, j);
    lemma_run_lengths(states, dispatched, times, a);
    assert(dispatch_result(states[a], states[a + 1], dispatched[a], times[a]));
    lemma_due_indices(states[a], times[a], states[a].len() as int);
    let k = choose|k: int| 0 <= k < dispatched[a].len() && dispatched[a][k] == i;
    assert(due(states[a][i as int], times[a]));
    if j == a + 1 {
        lemma_run_interval(states, dispatched, times, i, a);
    } else {
        lemma_run_since_dispatch(states, dispatched, times, i, a, j - 1);
        assert(dispatch_result(states[j - 1], states[j], dispatched[j - 1], times[j - 1]));
    }
}

proof fn lemma_run_lengths(
    states: Seq<Seq<Source>>,
    dispatched: Seq<Seq<usize>>,
    times: Seq<i64>,
    j: int,
)
    requires
        tick_run(states, dispatched, times),
        0 <= j <= dispatched.len(),
    ensures
        states[j].len() == states[0].len(),
    decreases j,
{
    if j > 0 {
        lemma_run_lengths(states, dispatched, times, j - 1);
        assert(dispatch_result(states[j - 1], states[j], dispatched[j - 1], times[j - 1]));
    }
}

proof fn lemma_run_interval(
    states: Seq<Seq<Source>>,
    dispatched: Seq<Seq<usize>>,
    times: Seq<i64>,
    i: usize,
    j: int,
)
    requires
        tick_run(states, dispatched, times),
        0 <= j <= dispatched.len(),
        (i as int) < states[0].len(),
    ensures
        states[j][i as int].interval == states[0][i as int].interval,
    decreases j,
{
    if j > 0 {
        lemma_run_interval(states, dispatched, times, i, j - 1);
        lemma_run_lengths(states, dispatched, times, j - 1);
        assert(dispatch_result(states[j - 1], states[j], dispatched[j - 1], times[j - 1]));
    }
}

/// Cooldown over any run of ticks: with tick times that do not go back and no reload
/// of the source list, a source that ticks `a < b` both dispatch was dispatched at
/// least `interval` seconds apart, whatever the ticks in between did.
pub proof fn lemma_no_redispatch_in_run(
    states: Seq<Seq<Source>>,
    dispatched: Seq<Seq<usize>>,
    times: Seq<i64>,
    i: usize,
    a: int,
    b: int,
)
    requires
        tick_run(states, dispatched, times),
        forall|u: int, v: int| 0 <= u <= v < times.len() ==> times[u] <= times[v],
        0 <= a < b < dispatched.len(),
        dispatched[a].contains(i),
        dispatched[b].contains(i),
    ensures
        times[b] - times[a] >= states[0][i as int].interval,
{
    lemma_run_since_dispatch(states, dispatched, times, i, a, b);
    lemma_run_lengths(states, dispatched, times, b);
    assert(dispatch_result(states[b], states[b + 1], dispatched[b], times[b]));
    lemma_due_indices(states[b], times[b], states[b].len() as int);
    let k = choose|k: int| 0 <= k < dispatched[b].len() && dispatched[b][k] == i;
    assert(due(states[b][i as int], times[b]));
}

} // verus!
