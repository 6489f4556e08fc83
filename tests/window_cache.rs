use dashboard::model::{Panel, PanelMetric, Point, Source};
use dashboard::state::{Metadata, StateCache};
use dashboard::window::{TimeRange, WindowCache};

fn pt(id: i64, x: i64) -> Point {
    Point { id, metric_id: 1, x, y: (id as f64).to_bits() }
}

fn xs(points: &[Point]) -> Vec<i64> {
    points.iter().map(|p| p.x).collect()
}

fn ids(points: &[Point]) -> Vec<i64> {
    points.iter().map(|p| p.id).collect()
}

fn sorted_within(points: &[Point], lo: i64, hi: i64) -> bool {
    points.windows(2).all(|w| w[0].x <= w[1].x) && points.iter().all(|p| lo <= p.x && p.x <= hi)
}

fn empty_metadata() -> Metadata {
    Metadata { panels: vec![], sources: vec![], metrics: vec![], panel_metric: vec![] }
}

#[test]
fn flush_keeps_window_sorted() {
    let now = 10_000;
    let mut c = WindowCache::new();
    c.flush_data(now, 1, vec![pt(1, now - 30), pt(2, now - 90), pt(3, now - 10), pt(4, now + 5), pt(5, now - 60)]);
    let snap = c.snapshot();
    assert_eq!(ids(&snap), vec![5, 1, 3]);
    assert!(sorted_within(&snap, now - 60, now));
    assert_eq!(c.last_check, now);
    assert_eq!(c.last_width, 60);
}

#[test]
fn flush_drops_duplicates() {
    let now = 10_000;
    let mut c = WindowCache::new();
    c.flush_data(now, 1, vec![pt(1, now - 30), pt(1, now - 30), pt(2, now - 30)]);
    assert_eq!(ids(&c.snapshot()), vec![1, 2]);
}

#[test]
fn flush_of_empty_storage() {
    let mut c = WindowCache::new();
    c.flush_data(10_000, 5, vec![]);
    assert!(c.snapshot().is_empty());
}

#[test]
fn flush_twice_is_identical() {
    let now = 10_000;
    let loaded = vec![pt(1, now - 30), pt(2, now - 30), pt(3, now - 5)];
    let md = || Metadata {
        panels: vec![],
        sources: vec![Source {
            id: 1,
            name: "s".to_string(),
            enabled: true,
            url: "u".to_string(),
            interval: 5,
            last_update: 0,
            position: 0,
        }],
        metrics: vec![],
        panel_metric: vec![PanelMetric { id: 1, panel_id: 1, metric_id: 1 }],
    };
    let mut s = StateCache::new();
    s.flush_data(now, 1, md(), loaded.clone());
    let first = (s.metadata.sources.clone(), s.metadata.panel_metric.clone(), s.window.snapshot());
    s.flush_data(now, 1, md(), loaded.clone());
    let second = (s.metadata.sources.clone(), s.metadata.panel_metric.clone(), s.window.snapshot());
    assert_eq!(first, second);
}

#[test]
fn steady_update_appends_new_and_evicts_old() {
    let now = 10_000;
    let mut c = WindowCache::new();
    c.flush_data(now, 1, vec![pt(1, now - 55), pt(2, now - 20)]);
    let later = now + 10;
    let plan = c.plan_update(later, 1);
    assert_eq!(plan.older, None);
    assert_eq!(plan.newer, TimeRange { lo: now, hi: later });
    assert_eq!(plan.width, 60);
    let changed = c.update_points(later, 1, vec![], vec![pt(3, now + 4), pt(4, later)]);
    assert!(changed);
    assert_eq!(ids(&c.snapshot()), vec![2, 3, 4]);
    assert!(sorted_within(&c.snapshot(), later - 60, later));
}

#[test]
fn update_without_changes_reports_none() {
    let now = 10_000;
    let mut c = WindowCache::new();
    c.flush_data(now, 1, vec![pt(1, now - 20), pt(2, now)]);
    // the newer read includes the point at last_check again: it is not added twice
    let changed = c.update_points(now + 1, 1, vec![], vec![pt(2, now)]);
    assert!(!changed);
    assert_eq!(ids(&c.snapshot()), vec![1, 2]);
}

#[test]
fn growing_the_window_prepends_older_points() {
    let now = 10_000;
    let storage = vec![pt(1, now - 170), pt(2, now - 100), pt(3, now - 60), pt(4, now - 30), pt(5, now)];
    let in_range = |lo: i64, hi: i64| -> Vec<Point> {
        storage.iter().copied().filter(|p| lo <= p.x && p.x <= hi).collect()
    };
    let mut c = WindowCache::new();
    c.flush_data(now, 1, in_range(now - 60, now));
    assert_eq!(ids(&c.snapshot()), vec![3, 4, 5]);
    let plan = c.plan_update(now, 3);
    let older = plan.older.unwrap();
    assert_eq!(older, TimeRange { lo: now - 180, hi: now - 60 });
    assert_eq!(plan.newer, TimeRange { lo: now, hi: now });
    let mut older_points = in_range(older.lo, older.hi);
    older_points.reverse();
    let changed = c.update_points(now, 3, older_points, in_range(plan.newer.lo, plan.newer.hi));
    assert!(changed);
    assert_eq!(ids(&c.snapshot()), vec![1, 2, 3, 4, 5]);
    assert_eq!(xs(&c.snapshot()), vec![now - 170, now - 100, now - 60, now - 30, now]);
}

#[test]
fn shrinking_the_window_evicts_front() {
    let now = 10_000;
    let mut c = WindowCache::new();
    c.flush_data(now, 3, vec![pt(1, now - 170), pt(2, now - 100), pt(3, now - 30)]);
    let plan = c.plan_update(now, 1);
    assert_eq!(plan.older, None);
    let changed = c.update_points(now, 1, vec![], vec![]);
    assert!(changed);
    assert_eq!(ids(&c.snapshot()), vec![3]);
    assert_eq!(c.last_width, 60);
}

#[test]
fn points_out_of_range_are_refused() {
    let now = 10_000;
    let mut c = WindowCache::new();
    c.flush_data(now, 1, vec![]);
    let changed = c.update_points(now, 1, vec![pt(1, now - 61)], vec![pt(2, now + 1)]);
    assert!(!changed);
    assert!(c.snapshot().is_empty());
}

#[test]
fn timers_of_state_cache() {
    let mut s = StateCache::new();
    s.refresh_metadata(1_000, empty_metadata());
    assert_eq!(s.metadata_delay(1_100, 300), 200);
    assert_eq!(s.metadata_delay(1_400, 300), 0);
    s.window.flush_data(1_000, 1, vec![]);
    assert_eq!(s.points_delay(1_004, 10), 6);
    assert_eq!(s.points_delay(1_020, 10), 0);
}

#[test]
fn refresh_metadata_replaces_lists() {
    let mut s = StateCache::new();
    let panel = Panel {
        id: 1,
        name: "p".to_string(),
        view_scroll: true,
        view_size: 10,
        height: 100,
        position: 0,
        reduce_view: false,
        view_chunks: 10,
        view_offset: 0,
        average_view: true,
    };
    s.refresh_metadata(5, Metadata { panels: vec![panel.clone()], ..empty_metadata() });
    assert_eq!(s.metadata.panels, vec![panel]);
    assert_eq!(s.last_refresh, 5);
}
