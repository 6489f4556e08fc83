//! The value extractor: runs a metric's query against a fetched JSON document and
//! tells a number, an absent value and a failed query apart.
use vstd::prelude::*;
use vstd::string::StringExecFns;

use crate::model::{Metric, Source};
use crate::surveyor::{lemma_metric_indices, metric_indices};

verus! {

#[verifier::external_type_specification]
#[verifier::external_body]
pub struct ExValue(serde_json::Value);

#[verifier::external_type_specification]
#[verifier::external_body]
pub struct ExNumber(serde_json::Number);

/// What a query selected, as far as extraction reads it.
#[derive(Debug, PartialEq, Eq)]
pub enum JsonKind {
    Null,
    Bool(bool),
    Number(serde_json::Number),
    Text(String),
    Array,
    Object,
}

/// Why a metric could not be extracted. Both carry the query and the source name.
#[derive(Debug, PartialEq, Eq)]
pub enum ExtractError {
    /// The query is malformed or could not be walked; `message` is the engine's.
    Query { query: String, source: String, message: String },
    /// The query selected a value that is not a number.
    NotNumeric { query: String, source: String },
}

/// What jql's walker yields for `query` on `doc`, by kind.
pub uninterp spec fn walk_of(doc: serde_json::Value, query: Seq<char>) -> Result<JsonKind, String>;

/// The character is an ASCII digit.
pub open spec fn is_digit(c: char) -> bool {
    '0' <= c && c <= '9'
}

/// The value of the ASCII digit `c`.
pub open spec fn digit_value(c: char) -> int {
    c as int - '0' as int
}

/// Scans `q` from position `i`, inside a quoted key when `quoted` (right after a
/// backslash when `escaped`), with `run` the value of the digits just read. Outside
/// quotes only digits, `[`, `]` and `.` may stand; each `[` opens on a digit, no two
/// dots follow each other, and every run of digits fits in `usize`.
pub open spec fn query_ok_from(q: Seq<char>, i: int, quoted: bool, escaped: bool, run: int) -> bool
    decreases q.len() - i,
{
    if i < 0 || i >= q.len() {
        true
    } else if quoted {
        if escaped {
            query_ok_from(q, i + 1, true, false, 0)
        } else if q[i] == '\\' {
            query_ok_from(q, i + 1, true, true, 0)
        } else if q[i] == '"' {
            query_ok_from(q, i + 1, false, false, 0)
        } else {
            query_ok_from(q, i + 1, true, false, 0)
        }
    } else if q[i] == '"' {
        query_ok_from(q, i + 1, true, false, 0)
    } else if is_digit(q[i]) {
        run * 10 + digit_value(q[i]) <= usize::MAX && query_ok_from(
            q,
            i + 1,
            false,
            false,
            run * 10 + digit_value(q[i]),
        )
    } else if q[i] == '[' {
        i + 1 < q.len() && is_digit(q[i + 1]) && query_ok_from(q, i + 1, false, false, 0)
    } else if q[i] == ']' {
        query_ok_from(q, i + 1, false, false, 0)
    } else if q[i] == '.' {
        !(i + 1 < q.len() && q[i + 1] == '.') && query_ok_from(q, i + 1, false, false, 0)
    } else {
        false
    }
}

/// A query that the engine walks without panicking and in one deterministic pass:
/// quoted keys, single array indices that fit in `usize`, and single dots. Without a
/// comma there is one group and one index per selector, so no parallel collection can
/// pick among several errors.
pub open spec fn query_ok(q: Seq<char>) -> bool {
    query_ok_from(q, 0, false, false, 0)
}

/// Relies on jql::walker: walks the document with the selectors of `query`, and
/// returns the selected value or the engine's error message; the outcome depends on
/// document and query alone. The selected value is handed on by kind, a number with
/// its `serde_json::Number`. The walker unwraps the parse of each index as a `usize`,
/// splits index lists on commas and unwraps each piece, and indexes objects, ranges
/// and filter results without bounds checks; the queries of `query_ok` reach none of
/// these. Several groups or indices are collected in parallel, and which error comes
/// back then varies; the queries of `query_ok` hold neither.
#[verifier::external_body]
fn walk(doc: &serde_json::Value, query: &str) -> (r: Result<JsonKind, String>)
    requires
        query_ok(query@),
    ensures
        r == walk_of(*doc, query@),
{
    match jql::walker(doc, query) {
        Ok(serde_json::Value::Null) => Ok(JsonKind::Null),
        Ok(serde_json::Value::Bool(b)) => Ok(JsonKind::Bool(b)),
        Ok(serde_json::Value::Number(n)) => Ok(JsonKind::Number(n)),
        Ok(serde_json::Value::String(s)) => Ok(JsonKind::Text(s)),
        Ok(serde_json::Value::Array(_)) => Ok(JsonKind::Array),
        Ok(serde_json::Value::Object(_)) => Ok(JsonKind::Object),
        Err(e) => Err(e),
    }
}

/// Whether the engine accepts `q` without risk of a panic.
pub fn is_query_supported(q: &str) -> (r: bool)
    ensures
        r == query_ok(q@),
{
    let n = q.unicode_len();
    let mut i: usize = 0;
    let mut quoted = false;
    let mut escaped = false;
    let mut run: u128 = 0;
    while i < n
        invariant
            0 <= i <= n,
            n == q@.len(),
            run <= usize::MAX,
            escaped ==> quoted,
            query_ok(q@) == query_ok_from(q@, i as int, quoted, escaped, run as int),
        decreases n - i,
    {
        let c = q.get_char(i);
        assert(q@[i as int] == c);
        if quoted {
            if escaped {
                escaped = false;
            } else if c == '\\' {
                escaped = true;
            } else if c == '"' {
                quoted = false;
            }
            run = 0;
        } else if c == '"' {
            quoted = true;
            escaped = false;
            run = 0;
        } else if '0' <= c && c <= '9' {
            let v: u128 = run * 10 + (c as u128 - '0' as u128);
            assert(v as int == run * 10 + digit_value(c));
            if v > usize::MAX as u128 {
                return false;
            }
            run = v;
        } else if c == '[' {
            if i + 1 >= n {
                return false;
            }
            let d = q.get_char(i + 1);
            if !('0' <= d && d <= '9') {
                return false;
            }
            run = 0;
        } else if c == ']' {
            run = 0;
        } else if c == '.' {
            if i + 1 < n && q.get_char(i + 1) == '.' {
                return false;
            }
            run = 0;
        } else {
            return false;
        }
        i = i + 1;
    }
    true
}

/// `pat` occurs in `m` at position `i`.
pub open spec fn occurs_at(m: Seq<char>, pat: Seq<char>, i: int) -> bool {
    0 <= i && i + pat.len() <= m.len() && m.subrange(i, i + pat.len()) == pat
}

/// `pat` occurs somewhere in `m`.
pub open spec fn occurs_in(m: Seq<char>, pat: Seq<char>) -> bool {
    exists|i: int| occurs_at(m, pat, i)
}

/// An engine message that reports a node or an index that the document does not have,
/// rather than a broken query.
pub open spec fn reports_absent(m: Seq<char>) -> bool {
    occurs_at(m, "Index ["@, 0) || (occurs_at(m, "Node \""@, 0) && occurs_in(m, "\" not found on "@))
}

/// `r` is the extraction outcome for the selection `sel` of `query` on source `source`:
/// a number is a value, null or an absent node is no value, any other kind or a failed
/// walk is an error carrying the query and the source name.
pub open spec fn outcome_of(
    sel: Result<JsonKind, String>,
    query: Seq<char>,
    source: Seq<char>,
    r: Result<Option<serde_json::Number>, ExtractError>,
) -> bool {
    match sel {
        Ok(JsonKind::Null) => r == Ok::<Option<serde_json::Number>, ExtractError>(None),
        Ok(JsonKind::Number(n)) => r == Ok::<Option<serde_json::Number>, ExtractError>(Some(n)),
        Ok(_) => match r {
            Err(ExtractError::NotNumeric { query: q, source: s }) => q@ == query && s@ == source,
            _ => false,
        },
        Err(m) => if reports_absent(m@) {
            r == Ok::<Option<serde_json::Number>, ExtractError>(None)
        } else {
            match r {
                Err(ExtractError::Query { query: q, source: s, message: e }) => q@ == query
                    && s@ == source && e@ == m@,
                _ => false,
            }
        },
    }
}

/// Whether `pat` occurs in `m` at position `i`.
fn occurs_at_exec(m: &str, pat: &str, i: usize) -> (r: bool)
    ensures
        r == occurs_at(m@, pat@, i as int),
{
    let n = m.unicode_len();
    let k = pat.unicode_len();
    if i > n || k > n - i {
        return false;
    }
    let mut j: usize = 0;
    while j < k
        invariant
            0 <= j <= k,
            k == pat@.len(),
            n == m@.len(),
            i + k <= n,
            forall|t: int| 0 <= t < j ==> m@[i + t] == pat@[t],
        decreases k - j,
    {
        if m.get_char(i + j) != pat.get_char(j) {
            assert(m@.subrange(i as int, i + k)[j as int] != pat@[j as int]);
            return false;
        }
        j = j + 1;
    }
    assert(m@.subrange(i as int, i + k) =~= pat@);
    true
}

/// Whether `pat` occurs anywhere in `m`.
fn occurs_in_exec(m: &str, pat: &str) -> (r: bool)
    ensures
        r == occurs_in(m@, pat@),
{
    let n = m.unicode_len();
    let mut i: usize = 0;
    loop
        invariant
            0 <= i <= n,
            n == m@.len(),
            forall|t: int| 0 <= t < i ==> !occurs_at(m@, pat@, t),
        decreases n - i,
    {
        if occurs_at_exec(m, pat, i) {
            return true;
        }
        if i == n {
            assert forall|t: int| !occurs_at(m@, pat@, t) by {
                if 0 <= t && t <= n {
                }
            }
            return false;
        }
        i = i + 1;
    }
}

/// Whether an engine message reports an absent node or index.
pub fn is_absent_message(m: &str) -> (r: bool)
    ensures
        r == reports_absent(m@),
{
    occurs_at_exec(m, "Index [", 0) || (occurs_at_exec(m, "Node \"", 0) && occurs_in_exec(
        m,
        "\" not found on ",
    ))
}

/// Turns what a query selected into the extraction outcome.
pub fn classify_selection(
    sel: Result<JsonKind, String>,
    query: &String,
    source: &String,
) -> (r: Result<Option<serde_json::Number>, ExtractError>)
    ensures
        outcome_of(sel, query@, source@, r),
{
    match sel {
        Ok(JsonKind::Null) => Ok(None),
        Ok(JsonKind::Number(n)) => Ok(Some(n)),
        Ok(_) => Err(ExtractError::NotNumeric { query: query.clone(), source: source.clone() }),
        Err(m) => {
            if is_absent_message(m.as_str()) {
                Ok(None)
            } else {
                Err(ExtractError::Query { query: query.clone(), source: source.clone(), message: m })
            }
        },
    }
}

/// The message of the error for a query outside what the engine accepts safely.
pub open spec fn unsupported_message() -> Seq<char> {
    "unsupported query: only quoted keys, single array indices and dots are accepted"@
}

/// `r` is the outcome of extracting with `query` from `doc`, fetched from `source`: a
/// query that the engine does not accept safely is an error, otherwise the outcome of
/// what the engine selects.
pub open spec fn extract_outcome(
    doc: serde_json::Value,
    query: Seq<char>,
    source: Seq<char>,
    r: Result<Option<serde_json::Number>, ExtractError>,
) -> bool {
    if query_ok(query) {
        outcome_of(walk_of(doc, query), query, source, r)
    } else {
        match r {
            Err(ExtractError::Query { query: q, source: s, message: e }) => q@ == query
                && s@ == source && e@ == unsupported_message(),
            _ => false,
        }
    }
}

impl Metric {
    /// Extracts this metric's value from a document fetched from source `source`.
    pub fn extract(&self, doc: &serde_json::Value, source: &String) -> (r: Result<
        Option<serde_json::Number>,
        ExtractError,
    >)
        ensures
            extract_outcome(*doc, self.query@, source@, r),
    {
        if !is_query_supported(self.query.as_str()) {
            return Err(
                ExtractError::Query {
                    query: self.query.clone(),
                    source: source.clone(),
                    message: String::from_str(
                        "unsupported query: only quoted keys, single array indices and dots are accepted",
                    ),
                },
            );
        }
        let sel = walk(doc, self.query.as_str());
        classify_selection(sel, &self.query, source)
    }
}

/// `e` is the extraction entry of metric `m` on document `doc` of source `source`.
pub open spec fn extraction_entry(
    m: Metric,
    doc: serde_json::Value,
    source: Seq<char>,
    e: (i64, Result<Option<serde_json::Number>, ExtractError>),
) -> bool {
    &&& e.0 == m.id
    &&& extract_outcome(doc, m.query@, source, e.1)
}

/// `r` holds one extraction entry on `doc` for each of the first `n` metrics that
/// belong to `source`, in list order.
pub open spec fn extraction_list(
    metrics: Seq<Metric>,
    source: Source,
    doc: serde_json::Value,
    n: int,
    r: Seq<(i64, Result<Option<serde_json::Number>, ExtractError>)>,
) -> bool {
    let idx = metric_indices(metrics, source.id, n);
    &&& r.len() == idx.len()
    &&& forall|k: int|
        0 <= k < r.len() ==> extraction_entry(
            metrics[idx[k] as int],
            doc,
            source.name@,
            #[trigger] r[k],
        )
}

/// Runs the extraction of every metric of `source`, in list order, on a document
/// fetched from it. Each entry pairs the metric's id with its outcome.
pub fn extract_all(metrics: &Vec<Metric>, source: &Source, doc: &serde_json::Value) -> (r: Vec<
    (i64, Result<Option<serde_json::Number>, ExtractError>),
>)
    ensures
        extraction_list(metrics@, *source, *doc, metrics@.len() as int, r@),
{
    let mut out: Vec<(i64, Result<Option<serde_json::Number>, ExtractError>)> = Vec::new();
    let mut i: usize = 0;
    while i < metrics.len()
        invariant
            0 <= i <= metrics@.len(),
            extraction_list(metrics@, *source, *doc, i as int, out@),
        decreases metrics@.len() - i,
    {
        let ghost prev = metric_indices(metrics@, source.id, i as int);
        let ghost before = out@;
        if metrics[i].source_id == source.id {
            let outcome = metrics[i].extract(doc, &source.name);
            let ghost m_i = metrics@[i as int];
            out.push((metrics[i].id, outcome));
            let ghost cur = metric_indices(metrics@, source.id, i + 1);
            assert(cur == prev.push(i as usize));
            assert(((i as usize) as int) == i);
            assert(extraction_entry(m_i, *doc, source.name@, out@[out@.len() - 1]));
            assert forall|k: int| 0 <= k < out@.len() implies extraction_entry(
                metrics@[cur[k] as int],
                *doc,
                source.name@,
                #[trigger] out@[k],
            ) by {
                if k < before.len() {
                    assert(out@[k] == before[k]);
                    assert(cur[k] == prev[k]);
                }
            }
        } else {
            assert(metric_indices(metrics@, source.id, i + 1) == prev);
        }
        i = i + 1;
    }
    out
}

/// Positions, in ascending order, of the first `n` entries that carry a value.
pub open spec fn value_positions(
    entries: Seq<(i64, Result<Option<serde_json::Number>, ExtractError>)>,
    n: int,
) -> Seq<usize>
    decreases n,
{
    if n <= 0 {
        Seq::<usize>::empty()
    } else if entries[n - 1].1 is Ok && entries[n - 1].1->Ok_0 is Some {
        value_positions(entries, n - 1).push((n - 1) as usize)
    } else {
        value_positions(entries, n - 1)
    }
}

/// Which extraction entries become stored points: those that carry a value. An absent
/// value or an error stores nothing. Returns their positions in `entries`.
pub fn values_to_store(entries: &Vec<(i64, Result<Option<serde_json::Number>, ExtractError>)>) -> (r:
    Vec<usize>)
    ensures
        r@ == value_positions(entries@, entries@.len() as int),
{
    let mut out: Vec<usize> = Vec::new();
    let mut i: usize = 0;
    while i < entries.len()
        invariant
            0 <= i <= entries@.len(),
            out@ == value_positions(entries@, i as int),
        decreases entries@.len() - i,
    {
        let has_value = match &entries[i].1 {
            Ok(Some(_)) => true,
            _ => false,
        };
        if has_value {
            out.push(i);
        }
        i = i + 1;
    }
    out
}

} // verus!
