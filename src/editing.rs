//! Records being edited by a front end, and the command each one turns into.
use vstd::prelude::*;
use vstd::string::StringExecFns;

use crate::actions::BackgroundAction;
use crate::model::{Metric, Panel, PanelMetric, Source};

verus! {

/// The record under edit.
pub enum EditingModelType {
    /// A panel, with one flag per known metric: whether the panel shows it.
    EditingPanel { panel: Panel, opts: Vec<bool> },
    EditingSource { source: Source },
    EditingMetric { metric: Metric },
}

/// A record under edit, with the state of its edit form.
pub struct EditingModel {
    pub id: i64,
    pub m: EditingModelType,
    /// The record is not stored yet.
    pub new: bool,
    /// The form's content was accepted.
    pub valid: bool,
    /// The form was closed.
    pub ready: bool,
}

/// Decimal digits of `n >= 0`.
pub open spec fn digits(n: nat) -> Seq<char>
    decreases n,
{
    if n < 10 {
        seq![(('0' as u8) + n) as char]
    } else {
        digits(n / 10).push((('0' as u8) + (n % 10)) as char)
    }
}

/// Decimal form of `n`, with a leading `-` when negative.
pub open spec fn decimal_text(n: int) -> Seq<char> {
    if n < 0 {
        seq!['-'] + digits((-n) as nat)
    } else {
        digits(n as nat)
    }
}

/// The text of one decimal digit.
fn digit_text(d: u64) -> (r: &'static str)
    requires
        d < 10,
    ensures
        r@ == seq![(('0' as u8) + d) as char],
{
    proof {
        reveal_strlit("0");
        reveal_strlit("1");
        reveal_strlit("2");
        reveal_strlit("3");
        reveal_strlit("4");
        reveal_strlit("5");
        reveal_strlit("6");
        reveal_strlit("7");
        reveal_strlit("8");
        reveal_strlit("9");
    }
    let r = if d == 0 {
        "0"
    } else if d == 1 {
        "1"
    } else if d == 2 {
        "2"
    } else if d == 3 {
        "3"
    } else if d == 4 {
        "4"
    } else if d == 5 {
        "5"
    } else if d == 6 {
        "6"
    } else if d == 7 {
        "7"
    } else if d == 8 {
        "8"
    } else {
        "9"
    };
    assert(r@ =~= seq![(('0' as u8) + d) as char]);
    r
}

/// Appends the decimal digits of `n`.
fn push_digits(out: &mut String, n: u64)
    ensures
        final(out)@ == old(out)@ + digits(n as nat),
    decreases n,
{
    if n >= 10 {
        push_digits(out, n / 10);
        out.append(digit_text(n % 10));
        assert(final(out)@ =~= old(out)@ + digits(n as nat));
    } else {
        out.append(digit_text(n));
    }
}

/// Decimal form of `n`, with a leading `-` when negative.
fn decimal(n: i64) -> (r: String)
    ensures
        r@ == decimal_text(n as int),
{
    let mut out = String::new();
    let magnitude: u64 = if n < 0 {
        out.append("-");
        proof {
            reveal_strlit("-");
        }
        (-(n as i128)) as u64
    } else {
        n as u64
    };
    push_digits(&mut out, magnitude);
    out
}

/// The word naming the kind of record under edit.
pub open spec fn kind_word(m: EditingModelType) -> Seq<char> {
    match m {
        EditingModelType::EditingPanel { .. } => "panel"@,
        EditingModelType::EditingSource { .. } => "source"@,
        EditingModelType::EditingMetric { .. } => "metric"@,
    }
}

/// Some association row links `panel_id` to `metric_id`.
pub open spec fn linked(links: Seq<PanelMetric>, panel_id: i64, metric_id: i64) -> bool {
    exists|j: int| 0 <= j < links.len() && links[j].panel_id == panel_id && links[j].metric_id == metric_id
}

/// Ids of the first `n` metrics whose flag is set, in list order; a missing flag is unset.
pub open spec fn selected_ids(metrics: Seq<Metric>, opts: Seq<bool>, n: int) -> Seq<i64>
    decreases n,
{
    if n <= 0 {
        Seq::<i64>::empty()
    } else if n - 1 < opts.len() && opts[n - 1] {
        selected_ids(metrics, opts, n - 1).push(metrics[n - 1].id)
    } else {
        selected_ids(metrics, opts, n - 1)
    }
}

impl Panel {
    /// A field-by-field copy.
    pub fn duplicate(&self) -> (r: Panel)
        ensures
            r == *self,
    {
        Panel {
            id: self.id,
            name: self.name.clone(),
            view_scroll: self.view_scroll,
            view_size: self.view_size,
            height: self.height,
            position: self.position,
            reduce_view: self.reduce_view,
            view_chunks: self.view_chunks,
            view_offset: self.view_offset,
            average_view: self.average_view,
        }
    }
}

impl Source {
    /// A field-by-field copy.
    pub fn duplicate(&self) -> (r: Source)
        ensures
            r == *self,
    {
        Source {
            id: self.id,
            name: self.name.clone(),
            enabled: self.enabled,
            url: self.url.clone(),
            interval: self.interval,
            last_update: self.last_update,
            position: self.position,
        }
    }
}

impl Metric {
    /// A field-by-field copy.
    pub fn duplicate(&self) -> (r: Metric)
        ensures
            r == *self,
    {
        Metric {
            id: self.id,
            name: self.name.clone(),
            source_id: self.source_id,
            query: self.query.clone(),
            color: self.color,
            position: self.position,
        }
    }
}

impl EditingModel {
    /// Title of the edit form: `edit <kind> #<id>`.
    pub fn id_repr(&self) -> (r: String)
        ensures
            r@ == "edit "@ + kind_word(self.m) + " #"@ + decimal_text(self.id as int),
    {
        let prefix = match self.m {
            EditingModelType::EditingPanel { .. } => "panel",
            EditingModelType::EditingSource { .. } => "source",
            EditingModelType::EditingMetric { .. } => "metric",
        };
        let mut out = String::from_str("edit ");
        out.append(prefix);
        out.append(" #");
        let number = decimal(self.id);
        out.append(number.as_str());
        out
    }

    /// The edit was closed with valid content: its command should be sent.
    pub fn should_fetch(&self) -> (r: bool)
        ensures
            r == (self.ready && self.valid),
    {
        self.ready && self.valid
    }

    /// The edit is still open.
    pub fn modifying(&self) -> (r: bool)
        ensures
            r == !self.ready,
    {
        !self.ready
    }

    /// Opens an edit of `panel`, flagging each of `metrics` that an association row
    /// links to the panel.
    pub fn make_edit_panel(panel: Panel, metrics: &Vec<Metric>, panel_metric: &Vec<PanelMetric>) -> (r:
        EditingModel)
        ensures
            r.id == panel.id,
            r.new == (panel.id <= 0),
            !r.valid,
            !r.ready,
            match r.m {
                EditingModelType::EditingPanel { panel: p, opts } => {
                    &&& p == panel
                    &&& opts@.len() == metrics@.len()
                    &&& forall|i: int|
                        0 <= i < opts@.len() ==> #[trigger] opts@[i] == linked(
                            panel_metric@,
                            panel.id,
                            metrics@[i].id,
                        )
                },
                _ => false,
            },
    {
        let mut opts: Vec<bool> = Vec::new();
        let mut i: usize = 0;
        while i < metrics.len()
            invariant
                0 <= i <= metrics@.len(),
                opts@.len() == i,
                forall|k: int|
                    0 <= k < i ==> #[trigger] opts@[k] == linked(panel_metric@, panel.id, metrics@[k].id),
            decreases metrics@.len() - i,
        {
            let target = metrics[i].id;
            let mut found = false;
            let mut j: usize = 0;
            while j < panel_metric.len()
                invariant
                    0 <= j <= panel_metric@.len(),
                    found == exists|t: int|
                        0 <= t < j && panel_metric@[t].panel_id == panel.id
                            && panel_metric@[t].metric_id == target,
                decreases panel_metric@.len() - j,
            {
                if panel_metric[j].panel_id == panel.id && panel_metric[j].metric_id == target {
                    found = true;
                }
                j = j + 1;
            }
            opts.push(found);
            i = i + 1;
        }
        let id = panel.id;
        EditingModel {
            id,
            new: id <= 0,
            m: EditingModelType::EditingPanel { panel, opts },
            valid: false,
            ready: false,
        }
    }

    /// The command that stores the edited record. For a panel, its associations become
    /// the metrics of `metrics` whose flag is set.
    pub fn to_msg(&self, metrics: &Vec<Metric>) -> (r: BackgroundAction)
        ensures
            match self.m {
                EditingModelType::EditingPanel { panel, opts } => match r {
                    BackgroundAction::UpdatePanel { panel: p, new, metrics: ids } => p == panel
                        && new == self.new && ids@ == selected_ids(
                        metrics@,
                        opts@,
                        metrics@.len() as int,
                    ),
                    _ => false,
                },
                EditingModelType::EditingSource { source } => match r {
                    BackgroundAction::UpdateSource { source: s, new } => s == source && new
                        == self.new,
                    _ => false,
                },
                EditingModelType::EditingMetric { metric } => match r {
                    BackgroundAction::UpdateMetric { metric: m, new } => m == metric && new
                        == self.new,
                    _ => false,
                },
            },
    {
        match &self.m {
            EditingModelType::EditingPanel { panel, opts } => {
                let mut ids: Vec<i64> = Vec::new();
                let mut i: usize = 0;
                while i < metrics.len()
                    invariant
                        0 <= i <= metrics@.len(),
                        ids@ == selected_ids(metrics@, opts@, i as int),
                    decreases metrics@.len() - i,
                {
                    if i < opts.len() && opts[i] {
                        ids.push(metrics[i].id);
                    }
                    i = i + 1;
                }
                BackgroundAction::UpdatePanel { panel: panel.duplicate(), new: self.new, metrics: ids }
            },
            EditingModelType::EditingSource { source } => BackgroundAction::UpdateSource {
                source: source.duplicate(),
                new: self.new,
            },
            EditingModelType::EditingMetric { metric } => BackgroundAction::UpdateMetric {
                metric: metric.duplicate(),
                new: self.new,
            },
        }
    }
}

impl From<Source> for EditingModel {
    fn from(s: Source) -> (r: EditingModel) {
        let id = s.id;
        EditingModel {
            new: id == 0,
            id,
            m: EditingModelType::EditingSource { source: s },
            valid: false,
            ready: false,
        }
    }
}

impl vstd::std_specs::convert::FromSpecImpl<Source> for EditingModel {
    open spec fn obeys_from_spec() -> bool {
        true
    }

    open spec fn from_spec(s: Source) -> EditingModel {
        EditingModel {
            new: s.id == 0,
            id: s.id,
            m: EditingModelType::EditingSource { source: s },
            valid: false,
            ready: false,
        }
    }
}

impl From<Metric> for EditingModel {
    fn from(m: Metric) -> (r: EditingModel) {
        let id = m.id;
        EditingModel {
            new: id == 0,
            id,
            m: EditingModelType::EditingMetric { metric: m },
            valid: false,
            ready: false,
        }
    }
}

impl vstd::std_specs::convert::FromSpecImpl<Metric> for EditingModel {
    open spec fn obeys_from_spec() -> bool {
        true
    }

    open spec fn from_spec(m: Metric) -> EditingModel {
        EditingModel {
            new: m.id == 0,
            id: m.id,
            m: EditingModelType::EditingMetric { metric: m },
            valid: false,
            ready: false,
        }
    }
}

impl From<Panel> for EditingModel {
    fn from(p: Panel) -> (r: EditingModel)
        ensures
            r.id == p.id,
            r.new == (p.id == 0),
            !r.valid,
            !r.ready,
            match r.m {
                EditingModelType::EditingPanel { panel, opts } => panel == p && opts@.len() == 0,
                _ => false,
            },
    {
        let id = p.id;
        EditingModel {
            new: id == 0,
            id,
            m: EditingModelType::EditingPanel { panel: p, opts: Vec::new() },
            valid: false,
            ready: false,
        }
    }
}

/// What the conversion returns is stated on `from` itself: its empty flag vector has
/// no spec form here.
impl vstd::std_specs::convert::FromSpecImpl<Panel> for EditingModel {
    open spec fn obeys_from_spec() -> bool {
        false
    }

    open spec fn from_spec(p: Panel) -> EditingModel {
        arbitrary()
    }
}

} // verus!
