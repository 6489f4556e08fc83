//! Records persisted by the dashboard: sources, metrics, panels, their
//! associations and the sampled points.
use vstd::prelude::*;

verus! {

/// Largest magnitude of a timestamp (epoch seconds) that the window arithmetic accepts.
pub const MAX_TIMESTAMP: i64 = 1099511627776;

/// A polled remote endpoint.
#[derive(Clone, Debug, PartialEq, Eq)]
pub struct Source {
    pub id: i64,
    pub name: String,
    pub enabled: bool,
    pub url: String,
    /// Poll interval in seconds.
    pub interval: i32,
    /// Epoch seconds of the last fetch (advanced optimistically by the scheduler).
    pub last_update: i64,
    pub position: i32,
}

/// A numeric series extracted from the responses of one source.
#[derive(Clone, Debug, PartialEq, Eq)]
pub struct Metric {
    pub id: i64,
    pub name: String,
    pub source_id: i64,
    /// Selector handed to the query engine.
    pub query: String,
    pub color: i32,
    pub position: i32,
}

/// A display grouping of metrics with its own window settings.
#[derive(Clone, Debug, PartialEq, Eq)]
pub struct Panel {
    pub id: i64,
    pub name: String,
    pub view_scroll: bool,
    /// Requested window width, in minutes.
    pub view_size: i32,
    pub height: i32,
    pub position: i32,
    pub reduce_view: bool,
    pub view_chunks: i32,
    /// View time offset, in minutes.
    pub view_offset: i32,
    pub average_view: bool,
}

/// Join record between a panel and a metric.
#[derive(Clone, Copy, Debug, PartialEq, Eq, Structural)]
pub struct PanelMetric {
    pub id: i64,
    pub panel_id: i64,
    pub metric_id: i64,
}

/// One sample of a metric.
#[derive(Clone, Copy, Debug, PartialEq, Eq, Structural)]
pub struct Point {
    pub id: i64,
    pub metric_id: i64,
    /// Sample time, in epoch seconds.
    pub x: i64,
    /// IEEE-754 bit pattern of the sampled value; the library carries it untouched.
    pub y: u64,
}

/// `v` clamped into the range of `i64`.
pub open spec fn clamp_i64(v: int) -> int {
    if v < i64::MIN {
        i64::MIN as int
    } else if v > i64::MAX {
        i64::MAX as int
    } else {
        v
    }
}

/// Seconds the source still has to wait at time `now` before it is due again.
pub open spec fn cooldown_spec(interval: i32, last_update: i64, now: i64) -> int {
    interval - (now - last_update)
}

/// A source is ready when at least `interval` seconds have passed since its last update.
pub open spec fn ready_spec(interval: i32, last_update: i64, now: i64) -> bool {
    now - last_update >= interval
}

/// Relies on chrono::Utc::now and DateTime::timestamp: the current wall-clock time in
/// epoch seconds. Nothing is promised of its value.
#[verifier::external_body]
pub(crate) fn now_seconds() -> (r: i64) {
    chrono::Utc::now().timestamp()
}

impl Source {
    /// Remaining cooldown at time `now`, saturated into `i64`.
    pub fn cooldown_at(&self, now: i64) -> (r: i64)
        ensures
            r == clamp_i64(cooldown_spec(self.interval, self.last_update, now)),
    {
        let v: i128 = self.interval as i128 - (now as i128 - self.last_update as i128);
        if v < i64::MIN as i128 {
            i64::MIN
        } else if v > i64::MAX as i128 {
            i64::MAX
        } else {
            v as i64
        }
    }

    /// Whether the source is due at time `now`.
    pub fn ready_at(&self, now: i64) -> (r: bool)
        ensures
            r == ready_spec(self.interval, self.last_update, now),
    {
        self.cooldown_at(now) <= 0
    }

    /// Remaining cooldown at the current wall-clock time.
    pub fn cooldown(&self) -> (r: i64)
        ensures
            exists|t: i64| r == clamp_i64(cooldown_spec(self.interval, self.last_update, t)),
    {
        let now = now_seconds();
        self.cooldown_at(now)
    }

    /// Whether the source is due at the current wall-clock time.
    pub fn ready(&self) -> (r: bool)
        ensures
            exists|t: i64| r == ready_spec(self.interval, self.last_update, t),
    {
        let now = now_seconds();
        self.ready_at(now)
    }
}

impl Default for Source {
    /// A disabled source with a one-minute interval, never updated.
    fn default() -> (r: Source)
        ensures
            r.id == 0,
            r.name@.len() == 0,
            !r.enabled,
            r.url@.len() == 0,
            r.interval == 60,
            r.last_update == 0,
            r.position == 0,
    {
        Source {
            id: 0,
            name: String::new(),
            enabled: false,
            url: String::new(),
            interval: 60,
            last_update: 0,
            position: 0,
        }
    }
}

impl Default for Metric {
    /// An empty metric of no source.
    fn default() -> (r: Metric)
        ensures
            r.id == 0,
            r.name@.len() == 0,
            r.source_id == 0,
            r.query@.len() == 0,
            r.color == 0,
            r.position == 0,
    {
        Metric { id: 0, name: String::new(), source_id: 0, query: String::new(), color: 0, position: 0 }
    }
}

impl Default for Panel {
    /// A scrolling panel of 1000 minutes, averaged over chunks of 10.
    fn default() -> (r: Panel)
        ensures
            r.id == 0,
            r.name@.len() == 0,
            r.view_scroll,
            r.view_size == 1000,
            r.height == 100,
            r.position == 0,
            !r.reduce_view,
            r.view_chunks == 10,
            r.view_offset == 0,
            r.average_view,
    {
        Panel {
            id: 0,
            name: String::new(),
            view_scroll: true,
            view_size: 1000,
            height: 100,
            position: 0,
            reduce_view: false,
            view_chunks: 10,
            view_offset: 0,
            average_view: true,
        }
    }
}

} // verus!
