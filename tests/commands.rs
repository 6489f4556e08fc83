use dashboard::actions::{link_transaction, plan_action, should_flush, BackgroundAction, LinkPlan, StorageOp};
use dashboard::editing::{EditingModel, EditingModelType};
use dashboard::model::{Metric, Panel, PanelMetric, Source};

fn panel(id: i64, name: &str, position: i32) -> Panel {
    Panel {
        id,
        name: name.to_string(),
        view_scroll: true,
        view_size: 1000,
        height: 100,
        position,
        reduce_view: false,
        view_chunks: 10,
        view_offset: 0,
        average_view: true,
    }
}

fn metric(id: i64) -> Metric {
    Metric { id, name: format!("m{}", id), source_id: 1, query: "\"v\"".to_string(), color: 0, position: 0 }
}

fn source(id: i64) -> Source {
    Source {
        id,
        name: "s".to_string(),
        enabled: true,
        url: "u".to_string(),
        interval: 60,
        last_update: 0,
        position: 0,
    }
}

#[test]
fn update_all_panels_replaces_in_one_transaction() {
    let first = panel(1, "one", 0);
    let second = panel(2, "two", 1);
    let plan = plan_action(BackgroundAction::UpdateAllPanels { panels: vec![first.clone(), second.clone()] });
    assert_eq!(plan.first, vec![StorageOp::DeleteAllPanels, StorageOp::InsertPanels(vec![first, second])]);
    assert_eq!(plan.links, None);
}

#[test]
fn update_existing_panel_then_links() {
    let p = panel(7, "seven", 0);
    let plan = plan_action(BackgroundAction::UpdatePanel { panel: p.clone(), new: false, metrics: vec![3, 4] });
    assert_eq!(plan.first, vec![StorageOp::UpdatePanel(p)]);
    let links = plan.links.unwrap();
    assert_eq!(links, LinkPlan { panel_id: Some(7), metric_ids: vec![3, 4] });
    assert_eq!(
        link_transaction(links, 99),
        vec![
            StorageOp::DeletePanelMetrics(7),
            StorageOp::InsertPanelMetrics { panel_id: 7, metric_ids: vec![3, 4] },
        ]
    );
}

#[test]
fn insert_new_panel_links_to_assigned_id() {
    let p = panel(0, "fresh", 0);
    let plan = plan_action(BackgroundAction::UpdatePanel { panel: p.clone(), new: true, metrics: vec![5] });
    assert_eq!(plan.first, vec![StorageOp::InsertPanel(p)]);
    let links = plan.links.unwrap();
    assert_eq!(links.panel_id, None);
    assert_eq!(
        link_transaction(links, 42),
        vec![
            StorageOp::DeletePanelMetrics(42),
            StorageOp::InsertPanelMetrics { panel_id: 42, metric_ids: vec![5] },
        ]
    );
}

#[test]
fn source_and_metric_commands() {
    let plan = plan_action(BackgroundAction::UpdateSource { source: source(3), new: true });
    assert_eq!(plan.first, vec![StorageOp::InsertSource(source(3))]);
    let plan = plan_action(BackgroundAction::UpdateSource { source: source(3), new: false });
    assert_eq!(plan.first, vec![StorageOp::UpdateSource(source(3))]);
    let plan = plan_action(BackgroundAction::UpdateMetric { metric: metric(8), new: true });
    assert_eq!(plan.first, vec![StorageOp::InsertMetric(metric(8))]);
    let plan = plan_action(BackgroundAction::UpdateMetric { metric: metric(8), new: false });
    assert_eq!(plan.first, vec![StorageOp::UpdateMetric(metric(8))]);
    assert_eq!(plan.links, None);
}

#[test]
fn flush_only_after_full_success() {
    assert!(should_flush(true, None));
    assert!(should_flush(true, Some(true)));
    assert!(!should_flush(true, Some(false)));
    assert!(!should_flush(false, None));
    assert!(!should_flush(false, Some(true)));
}

#[test]
fn edit_titles() {
    let e = EditingModel::from(panel(5, "p", 0));
    assert_eq!(e.id_repr(), "edit panel #5");
    let e = EditingModel::from(source(12));
    assert_eq!(e.id_repr(), "edit source #12");
    let e = EditingModel::from(metric(-3));
    assert_eq!(e.id_repr(), "edit metric #-3");
    let e = EditingModel::from(metric(0));
    assert_eq!(e.id_repr(), "edit metric #0");
    assert!(e.new);
}

#[test]
fn edit_state_flags() {
    let mut e = EditingModel::from(source(1));
    assert!(!e.new);
    assert!(e.modifying());
    assert!(!e.should_fetch());
    e.ready = true;
    assert!(!e.modifying());
    assert!(!e.should_fetch());
    e.valid = true;
    assert!(e.should_fetch());
}

#[test]
fn edit_panel_flags_linked_metrics() {
    let metrics = vec![metric(10), metric(11), metric(12)];
    let links = vec![
        PanelMetric { id: 1, panel_id: 2, metric_id: 12 },
        PanelMetric { id: 2, panel_id: 3, metric_id: 11 },
        PanelMetric { id: 3, panel_id: 2, metric_id: 10 },
    ];
    let e = EditingModel::make_edit_panel(panel(2, "p", 0), &metrics, &links);
    assert_eq!(e.id, 2);
    assert!(!e.new);
    match &e.m {
        EditingModelType::EditingPanel { opts, .. } => assert_eq!(opts, &vec![true, false, true]),
        _ => panic!("not a panel edit"),
    }
    match e.to_msg(&metrics) {
        BackgroundAction::UpdatePanel { panel: p, new, metrics: ids } => {
            assert_eq!(p, panel(2, "p", 0));
            assert!(!new);
            assert_eq!(ids, vec![10, 12]);
        }
        other => panic!("unexpected command {:?}", other),
    }
    let fresh = EditingModel::make_edit_panel(panel(0, "n", 0), &metrics, &links);
    assert!(fresh.new);
}

#[test]
fn edit_source_message() {
    let e = EditingModel::from(source(4));
    assert_eq!(e.to_msg(&vec![]), BackgroundAction::UpdateSource { source: source(4), new: false });
    let e = EditingModel::from(metric(0));
    assert_eq!(e.to_msg(&vec![]), BackgroundAction::UpdateMetric { metric: metric(0), new: true });
}

#[test]
fn default_records() {
    let p = Panel::default();
    assert_eq!((p.id, p.view_scroll, p.view_size, p.height, p.view_chunks, p.average_view), (0, true, 1000, 100, 10, true));
    assert!(!p.reduce_view);
    let s = Source::default();
    assert_eq!((s.enabled, s.interval, s.last_update), (false, 60, 0));
    assert!(s.name.is_empty() && s.url.is_empty());
    let m = Metric::default();
    assert_eq!((m.id, m.source_id, m.color), (0, 0, 0));
    assert!(m.query.is_empty());
}

#[test]
fn edit_titles_at_extremes() {
    assert_eq!(EditingModel::from(metric(i64::MIN)).id_repr(), "edit metric #-9223372036854775808");
    assert_eq!(EditingModel::from(metric(i64::MAX)).id_repr(), "edit metric #9223372036854775807");
    assert_eq!(EditingModel::from(metric(10)).id_repr(), "edit metric #10");
}

#[test]
fn panel_conversion_opens_empty_flags() {
    let e = EditingModel::from(panel(0, "p", 0));
    assert!(e.new && !e.valid && !e.ready);
    match &e.m {
        EditingModelType::EditingPanel { panel: p, opts } => {
            assert_eq!(p, &panel(0, "p", 0));
            assert!(opts.is_empty());
        }
        _ => panic!("not a panel edit"),
    }
}
