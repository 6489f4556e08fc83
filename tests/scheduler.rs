use dashboard::model::{Metric, Source};
use dashboard::surveyor::Surveyor;

fn source(id: i64, enabled: bool, interval: i32, last_update: i64) -> Source {
    Source {
        id,
        name: format!("source {}", id),
        enabled,
        url: format!("http://example.invalid/{}", id),
        interval,
        last_update,
        position: 0,
    }
}

fn metric(id: i64, source_id: i64, query: &str) -> Metric {
    Metric {
        id,
        name: format!("metric {}", id),
        source_id,
        query: query.to_string(),
        color: 0,
        position: 0,
    }
}

#[test]
fn source_ready_after_interval() {
    let now = 1_700_000_000;
    assert!(source(1, true, 60, now - 61).ready_at(now));
    assert!(!source(1, true, 60, now - 10).ready_at(now));
}

#[test]
fn source_ready_exactly_at_interval() {
    let now = 1_700_000_000;
    assert!(source(1, true, 60, now - 60).ready_at(now));
    assert!(!source(1, true, 60, now - 59).ready_at(now));
}

#[test]
fn cooldown_values() {
    let now = 1_700_000_000;
    assert_eq!(source(1, true, 60, now - 10).cooldown_at(now), 50);
    assert_eq!(source(1, true, 60, now - 61).cooldown_at(now), -1);
    assert_eq!(source(1, true, 60, i64::MAX).cooldown_at(i64::MIN), i64::MAX);
    assert_eq!(source(1, true, 60, i64::MIN).cooldown_at(i64::MAX), i64::MIN);
}

#[test]
fn wall_clock_readiness() {
    // a source last updated at the epoch with a one-second interval is due now
    let s = source(1, true, 1, 0);
    assert!(s.ready());
    assert!(s.cooldown() <= 0);
}

#[test]
fn dispatch_marks_due_sources_only() {
    let now = 1_700_000_000;
    let mut sv = Surveyor::new(10, 300, now);
    sv.refresh(
        now,
        vec![
            source(1, true, 60, now - 61),
            source(2, true, 60, now - 10),
            source(3, false, 60, 0),
            source(4, true, 30, now - 30),
        ],
        vec![],
    );
    let due = sv.dispatch(now);
    assert_eq!(due, vec![0, 3]);
    assert_eq!(sv.sources[0].last_update, now);
    assert_eq!(sv.sources[1].last_update, now - 10);
    assert_eq!(sv.sources[2].last_update, 0);
    assert_eq!(sv.sources[3].last_update, now);
}

#[test]
fn no_second_dispatch_within_interval() {
    let now = 1_700_000_000;
    let mut sv = Surveyor::new(10, 300, now);
    sv.refresh(now, vec![source(1, true, 60, now - 100)], vec![]);
    assert_eq!(sv.dispatch(now), vec![0]);
    assert_eq!(sv.dispatch(now + 10), Vec::<usize>::new());
    assert_eq!(sv.dispatch(now + 59), Vec::<usize>::new());
    assert_eq!(sv.dispatch(now + 60), vec![0]);
}

#[test]
fn refresh_and_tick_timing() {
    let now = 1_700_000_000;
    let mut sv = Surveyor::new(10, 300, now);
    assert!(sv.needs_refresh(now));
    sv.refresh(now, vec![], vec![]);
    assert!(!sv.needs_refresh(now + 300));
    assert!(sv.needs_refresh(now + 301));
    assert_eq!(sv.tick_delay(now + 3), 7);
    assert_eq!(sv.tick_delay(now + 25), 0);
    sv.start_tick(now + 25);
    assert_eq!(sv.last_activation, now + 25);
    assert_eq!(sv.tick_delay(now + 25), 10);
}

#[test]
fn metrics_of_source_in_order() {
    let now = 1_700_000_000;
    let mut sv = Surveyor::new(10, 300, now);
    sv.refresh(
        now,
        vec![source(1, true, 60, 0)],
        vec![metric(10, 1, "a"), metric(11, 2, "b"), metric(12, 1, "c")],
    );
    assert_eq!(sv.metrics_of(1), vec![0, 2]);
    assert_eq!(sv.metrics_of(2), vec![1]);
    assert_eq!(sv.metrics_of(3), Vec::<usize>::new());
}
