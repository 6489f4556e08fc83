//! The action processor: mutation commands, the storage transactions each one is
//! carried out with, and what those transactions do to the stored tables.
use vstd::prelude::*;

use crate::model::{Metric, Panel, Source};

verus! {

/// A mutation command. `new` marks a row to insert, whose id storage assigns;
/// otherwise the row with the record's id is updated in full.
#[derive(Debug, PartialEq, Eq)]
pub enum BackgroundAction {
    /// Replaces every stored panel by `panels`, in one transaction.
    UpdateAllPanels { panels: Vec<Panel> },
    /// Inserts or updates a panel, then replaces its metric associations by `metrics`.
    UpdatePanel { panel: Panel, new: bool, metrics: Vec<i64> },
    UpdateSource { source: Source, new: bool },
    UpdateMetric { metric: Metric, new: bool },
}

/// One storage statement.
#[derive(Debug, PartialEq, Eq)]
pub enum StorageOp {
    DeleteAllPanels,
    InsertPanels(Vec<Panel>),
    InsertPanel(Panel),
    UpdatePanel(Panel),
    /// Deletes every association row of the panel.
    DeletePanelMetrics(i64),
    /// Inserts one association row `(panel_id, metric_id)` for each metric id.
    InsertPanelMetrics { panel_id: i64, metric_ids: Vec<i64> },
    InsertSource(Source),
    UpdateSource(Source),
    InsertMetric(Metric),
    UpdateMetric(Metric),
}

/// The association transaction that still has to run after a panel's own row.
#[derive(Debug, PartialEq, Eq)]
pub struct LinkPlan {
    /// The panel whose rows are replaced; `None` for the id that the insert assigns.
    pub panel_id: Option<i64>,
    pub metric_ids: Vec<i64>,
}

/// How a command is carried out: a first transaction, then, for a panel update,
/// the association transaction.
#[derive(Debug, PartialEq, Eq)]
pub struct ActionPlan {
    pub first: Vec<StorageOp>,
    pub links: Option<LinkPlan>,
}

/// The stored tables, as far as the commands touch them. Rows keep their list order;
/// an inserted row is appended.
pub struct Tables {
    pub panels: Seq<Panel>,
    pub sources: Seq<Source>,
    pub metrics: Seq<Metric>,
    /// Association rows, as `(panel_id, metric_id)`.
    pub links: Seq<(i64, i64)>,
}

/// The association rows of `links` that do not belong to `panel_id`.
pub open spec fn links_without(links: Seq<(i64, i64)>, panel_id: i64) -> Seq<(i64, i64)>
    decreases links.len(),
{
    if links.len() == 0 {
        links
    } else if links.last().0 == panel_id {
        links_without(links.drop_last(), panel_id)
    } else {
        links_without(links.drop_last(), panel_id).push(links.last())
    }
}

/// `rows` with every row that has the id of `row` replaced by `row`.
pub open spec fn replace_panel(rows: Seq<Panel>, row: Panel) -> Seq<Panel> {
    rows.map_values(|p: Panel| if p.id == row.id { row } else { p })
}

/// `rows` with every row that has the id of `row` replaced by `row`.
pub open spec fn replace_source(rows: Seq<Source>, row: Source) -> Seq<Source> {
    rows.map_values(|s: Source| if s.id == row.id { row } else { s })
}

/// `rows` with every row that has the id of `row` replaced by `row`.
pub open spec fn replace_metric(rows: Seq<Metric>, row: Metric) -> Seq<Metric> {
    rows.map_values(|m: Metric| if m.id == row.id { row } else { m })
}

/// What one statement does to the tables.
pub open spec fn apply_op(t: Tables, op: StorageOp) -> Tables {
    match op {
        StorageOp::DeleteAllPanels => Tables { panels: Seq::<Panel>::empty(), ..t },
        StorageOp::InsertPanels(ps) => Tables { panels: t.panels + ps@, ..t },
        StorageOp::InsertPanel(p) => Tables { panels: t.panels.push(p), ..t },
        StorageOp::UpdatePanel(p) => Tables { panels: replace_panel(t.panels, p), ..t },
        StorageOp::DeletePanelMetrics(pid) => Tables { links: links_without(t.links, pid), ..t },
        StorageOp::InsertPanelMetrics { panel_id, metric_ids } => Tables {
            links: t.links + metric_ids@.map_values(|m: i64| (panel_id, m)),
            ..t
        },
        StorageOp::InsertSource(s) => Tables { sources: t.sources.push(s), ..t },
        StorageOp::UpdateSource(s) => Tables { sources: replace_source(t.sources, s), ..t },
        StorageOp::InsertMetric(m) => Tables { metrics: t.metrics.push(m), ..t },
        StorageOp::UpdateMetric(m) => Tables { metrics: replace_metric(t.metrics, m), ..t },
    }
}

/// The statements of `ops`, one after the other.
pub open spec fn apply_ops(t: Tables, ops: Seq<StorageOp>) -> Tables
    decreases ops.len(),
{
    if ops.len() == 0 {
        t
    } else {
        apply_op(apply_ops(t, ops.drop_last()), ops.last())
    }
}

/// A transaction: all of its statements when it commits, none when it fails.
pub open spec fn apply_transaction(t: Tables, ops: Seq<StorageOp>, committed: bool) -> Tables {
    if committed {
        apply_ops(t, ops)
    } else {
        t
    }
}

/// The association transaction for panel `panel_id`: delete its rows, insert the new set.
pub open spec fn link_ops(panel_id: i64, metric_ids: Vec<i64>) -> Seq<StorageOp> {
    seq![
        StorageOp::DeletePanelMetrics(panel_id),
        StorageOp::InsertPanelMetrics { panel_id, metric_ids },
    ]
}

/// The plan of each command.
pub open spec fn plan_spec(action: BackgroundAction, plan: ActionPlan) -> bool {
    match action {
        BackgroundAction::UpdateAllPanels { panels } => {
            &&& plan.first@ == seq![StorageOp::DeleteAllPanels, StorageOp::InsertPanels(panels)]
            &&& plan.links is None
        },
        BackgroundAction::UpdatePanel { panel, new, metrics } => {
            &&& plan.first@ == if new {
                seq![StorageOp::InsertPanel(panel)]
            } else {
                seq![StorageOp::UpdatePanel(panel)]
            }
            &&& plan.links == Some(
                LinkPlan {
                    panel_id: if new {
                        None
                    } else {
                        Some(panel.id)
                    },
                    metric_ids: metrics,
                },
            )
        },
        BackgroundAction::UpdateSource { source, new } => {
            &&& plan.first@ == if new {
                seq![StorageOp::InsertSource(source)]
            } else {
                seq![StorageOp::UpdateSource(source)]
            }
            &&& plan.links is None
        },
        BackgroundAction::UpdateMetric { metric, new } => {
            &&& plan.first@ == if new {
                seq![StorageOp::InsertMetric(metric)]
            } else {
                seq![StorageOp::UpdateMetric(metric)]
            }
            &&& plan.links is None
        },
    }
}

/// A transaction of one statement.
fn single(op: StorageOp) -> (r: Vec<StorageOp>)
    ensures
        r@ == seq![op],
{
    let mut v: Vec<StorageOp> = Vec::new();
    v.push(op);
    assert(v@ =~= seq![op]);
    v
}

/// A transaction of two statements.
fn pair(a: StorageOp, b: StorageOp) -> (r: Vec<StorageOp>)
    ensures
        r@ == seq![a, b],
{
    let mut v: Vec<StorageOp> = Vec::new();
    v.push(a);
    v.push(b);
    assert(v@ =~= seq![a, b]);
    v
}

/// The storage transactions that carry out `action`.
pub fn plan_action(action: BackgroundAction) -> (r: ActionPlan)
    ensures
        plan_spec(action, r),
{
    match action {
        BackgroundAction::UpdateAllPanels { panels } => ActionPlan {
            first: pair(StorageOp::DeleteAllPanels, StorageOp::InsertPanels(panels)),
            links: None,
        },
        BackgroundAction::UpdatePanel { panel, new, metrics } => {
            let panel_id = if new {
                None
            } else {
                Some(panel.id)
            };
            let first = if new {
                single(StorageOp::InsertPanel(panel))
            } else {
                single(StorageOp::UpdatePanel(panel))
            };
            ActionPlan { first, links: Some(LinkPlan { panel_id, metric_ids: metrics }) }
        },
        BackgroundAction::UpdateSource { source, new } => ActionPlan {
            first: if new {
                single(StorageOp::InsertSource(source))
            } else {
                single(StorageOp::UpdateSource(source))
            },
            links: None,
        },
        BackgroundAction::UpdateMetric { metric, new } => ActionPlan {
            first: if new {
                single(StorageOp::InsertMetric(metric))
            } else {
                single(StorageOp::UpdateMetric(metric))
            },
            links: None,
        },
    }
}

/// The association transaction of a panel update, once the panel's id is known:
/// `assigned` is the id the insert returned, used when the plan has none.
pub fn link_transaction(links: LinkPlan, assigned: i64) -> (r: Vec<StorageOp>)
    ensures
        r@ == link_ops(
            match links.panel_id {
                Some(id) => id,
                None => assigned,
            },
            links.metric_ids,
        ),
{
    let panel_id = match links.panel_id {
        Some(id) => id,
        None => assigned,
    };
    pair(
        StorageOp::DeletePanelMetrics(panel_id),
        StorageOp::InsertPanelMetrics { panel_id, metric_ids: links.metric_ids },
    )
}

/// Whether a command ends with a cache flush: exactly when every transaction it ran
/// committed. `links_committed` is `None` when the command had no association step.
pub fn should_flush(first_committed: bool, links_committed: Option<bool>) -> (r: bool)
    ensures
        r == (first_committed && match links_committed {
            Some(c) => c,
            None => true,
        }),
{
    first_committed && match links_committed {
        Some(c) => c,
        None => true,
    }
}

/// Replacing all panels: when the transaction of `UpdateAllPanels { panels }` commits,
/// the stored panels are exactly `panels`, in that order; no earlier panel remains.
pub proof fn lemma_update_all_panels_replaces(t: Tables, panels: Vec<Panel>, plan: ActionPlan)
    requires
        plan_spec(BackgroundAction::UpdateAllPanels { panels }, plan),
    ensures
        apply_transaction(t, plan.first@, true).panels == panels@,
        apply_transaction(t, plan.first@, true).links == t.links,
{
    let ops = plan.first@;
    assert(ops.drop_last().drop_last() =~= Seq::<StorageOp>::empty());
    assert(ops.drop_last().last() == StorageOp::DeleteAllPanels);
    assert(ops.last() == StorageOp::InsertPanels(panels));
    assert(apply_ops(t, ops.drop_last().drop_last()) == t);
    let s1 = apply_ops(t, ops.drop_last());
    assert(s1 == apply_op(t, StorageOp::DeleteAllPanels));
    assert(apply_ops(t, ops) == apply_op(s1, StorageOp::InsertPanels(panels)));
    assert(Seq::<Panel>::empty() + panels@ =~= panels@);
}

/// Atomic association replacement: for a panel update whose own row was written but
/// whose association transaction failed, the stored associations are those before the
/// command; when it commits, the panel's rows are exactly the new set.
pub proof fn lemma_panel_links_atomic(
    t: Tables,
    panel: Panel,
    new: bool,
    metrics: Vec<i64>,
    plan: ActionPlan,
    assigned: i64,
)
    requires
        plan_spec(BackgroundAction::UpdatePanel { panel, new, metrics }, plan),
    ensures
        ({
            let after_row = apply_transaction(t, plan.first@, true);
            let lp = plan.links->Some_0;
            let pid = match lp.panel_id {
                Some(id) => id,
                None => assigned,
            };
            &&& apply_transaction(after_row, link_ops(pid, lp.metric_ids), false).links == t.links
            &&& apply_transaction(after_row, link_ops(pid, lp.metric_ids), true).links
                == links_without(t.links, pid) + metrics@.map_values(|m: i64| (pid, m))
        }),
{
    let ops = plan.first@;
    assert(ops.drop_last() =~= Seq::<StorageOp>::empty());
    assert(apply_ops(t, ops.drop_last()) == t);
    let after_row = apply_ops(t, ops);
    assert(after_row == apply_op(t, ops.last()));
    assert(after_row.links == t.links);
    let lp = plan.links->Some_0;
    let pid = match lp.panel_id {
        Some(id) => id,
        None => assigned,
    };
    let lo = link_ops(pid, lp.metric_ids);
    assert(lo.drop_last().drop_last() =~= Seq::<StorageOp>::empty());
    assert(lo.drop_last().last() == StorageOp::DeletePanelMetrics(pid));
    assert(apply_ops(after_row, lo.drop_last().drop_last()) == after_row);
    let s1 = apply_ops(after_row, lo.drop_last());
    assert(s1 == apply_op(after_row, StorageOp::DeletePanelMetrics(pid)));
    assert(apply_ops(after_row, lo) == apply_op(s1, lo.last()));
}

} // verus!
