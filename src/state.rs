//! The state cache owned by the state-cache actor: the metadata lists, the point
//! window, and the timers that decide when each is refreshed.
use vstd::prelude::*;

use crate::model::{Metric, Panel, PanelMetric, Point, Source};
use crate::window::{insert_points, valid_time, valid_width, WindowCache};

verus! {

/// The metadata lists, cached in full.
pub struct Metadata {
    pub panels: Vec<Panel>,
    pub sources: Vec<Source>,
    pub metrics: Vec<Metric>,
    pub panel_metric: Vec<PanelMetric>,
}

/// What the actor publishes: the metadata lists and the points of the window.
pub open spec fn published(
    md: Metadata,
    points: Seq<Point>,
) -> (Seq<Panel>, Seq<Source>, Seq<Metric>, Seq<PanelMetric>, Seq<Point>) {
    (md.panels@, md.sources@, md.metrics@, md.panel_metric@, points)
}

/// The points a flush at `now` with `width_minutes` keeps of what storage returned.
pub open spec fn flushed_points(now: int, width_minutes: int, loaded: Seq<Point>) -> Seq<Point> {
    insert_points(Seq::<Point>::empty(), loaded, now - width_minutes * 60, now)
}

/// `post` is what a flush at `now` with `width_minutes` leaves, given the metadata and
/// points read from storage.
pub open spec fn flush_result(
    post: StateCache,
    now: i64,
    width_minutes: i64,
    md: Metadata,
    loaded: Seq<Point>,
) -> bool {
    &&& post.wf()
    &&& post.metadata == md
    &&& post.last_refresh == now
    &&& post.window.last_check == now
    &&& post.window.last_width == width_minutes * 60
    &&& post.window.points@ == flushed_points(now as int, width_minutes as int, loaded)
}

/// `max(0, v)`.
pub open spec fn non_negative(v: int) -> int {
    if v < 0 {
        0
    } else {
        v
    }
}

/// A delay or period, in seconds, that the timer arithmetic accepts.
pub open spec fn valid_period(p: int) -> bool {
    0 <= p <= crate::model::MAX_TIMESTAMP
}

/// The cache of the state-cache actor.
pub struct StateCache {
    pub metadata: Metadata,
    pub window: WindowCache,
    /// Epoch seconds of the last metadata refresh.
    pub last_refresh: i64,
}

impl StateCache {
    /// The cache invariant.
    pub open spec fn wf(&self) -> bool {
        &&& self.window.wf()
        &&& valid_time(self.last_refresh as int)
    }

    /// What the cache currently publishes.
    pub open spec fn view_published(&self) -> (
        Seq<Panel>,
        Seq<Source>,
        Seq<Metric>,
        Seq<PanelMetric>,
        Seq<Point>,
    ) {
        published(self.metadata, self.window.points@)
    }

    /// An empty cache, never refreshed.
    pub fn new() -> (r: StateCache)
        ensures
            r.wf(),
            r.metadata.panels@.len() == 0,
            r.metadata.sources@.len() == 0,
            r.metadata.metrics@.len() == 0,
            r.metadata.panel_metric@.len() == 0,
            r.window.points@.len() == 0,
            r.last_refresh == 0,
    {
        StateCache {
            metadata: Metadata {
                panels: Vec::new(),
                sources: Vec::new(),
                metrics: Vec::new(),
                panel_metric: Vec::new(),
            },
            window: WindowCache::new(),
            last_refresh: 0,
        }
    }

    /// Replaces the metadata lists by a fresh read, taken at `now`.
    pub fn refresh_metadata(&mut self, now: i64, md: Metadata)
        requires
            old(self).wf(),
            valid_time(now as int),
        ensures
            final(self).wf(),
            final(self).metadata == md,
            final(self).window == old(self).window,
            final(self).last_refresh == now,
    {
        self.metadata = md;
        self.last_refresh = now;
    }

    /// Full flush: replaces the metadata and the whole point window by fresh reads, the
    /// points being those read for `[now - width, now]`.
    pub fn flush_data(&mut self, now: i64, width_minutes: i64, md: Metadata, loaded: Vec<Point>)
        requires
            old(self).wf(),
            valid_time(now as int),
            valid_width(width_minutes as int),
        ensures
            flush_result(*final(self), now, width_minutes, md, loaded@),
    {
        self.refresh_metadata(now, md);
        self.window.flush_data(now, width_minutes, loaded);
    }

    /// Seconds until the metadata is stale: `max(0, cache_age - (now - last_refresh))`.
    pub fn metadata_delay(&self, now: i64, cache_age: i64) -> (r: i64)
        requires
            self.wf(),
            valid_time(now as int),
            valid_period(cache_age as int),
        ensures
            r == non_negative(cache_age - (now - self.last_refresh)),
    {
        let d = cache_age - (now - self.last_refresh);
        if d < 0 {
            0
        } else {
            d
        }
    }

    /// Seconds until the next point update: `max(0, interval - (now - last_check))`.
    pub fn points_delay(&self, now: i64, interval: i64) -> (r: i64)
        requires
            self.wf(),
            valid_time(now as int),
            valid_period(interval as int),
        ensures
            r == non_negative(interval - (now - self.window.last_check)),
    {
        let d = interval - (now - self.window.last_check);
        if d < 0 {
            0
        } else {
            d
        }
    }
}

/// Flushing twice in a row, with storage unchanged in between, publishes identical
/// snapshots: a flush's result depends on the time, the width and what storage
/// returned, never on the state it started from.
pub proof fn lemma_flush_twice_same_snapshot(
    first: StateCache,
    second: StateCache,
    now: i64,
    width_minutes: i64,
    md: Metadata,
    loaded: Seq<Point>,
)
    requires
        flush_result(first, now, width_minutes, md, loaded),
        flush_result(second, now, width_minutes, md, loaded),
    ensures
        first.view_published() == second.view_published(),
        first.window.last_check == second.window.last_check,
        first.window.last_width == second.window.last_width,
{
}

} // verus!
