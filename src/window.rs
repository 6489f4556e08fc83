//! Sliding-window cache of points: a queue sorted by `x`, bounded to
//! `[last_check - width, last_check]`, free of duplicates.
use std::collections::VecDeque;
use vstd::prelude::*;

use crate::model::{Point, MAX_TIMESTAMP};

verus! {

/// Largest accepted window width, in minutes.
pub const MAX_WIDTH_MINUTES: i64 = 1073741824;

/// `p` lies in the closed range `[lo, hi]`.
pub open spec fn in_window(p: Point, lo: int, hi: int) -> bool {
    lo <= p.x <= hi
}

/// Points are in ascending order of `x`.
pub open spec fn sorted_by_x(q: Seq<Point>) -> bool {
    forall|i: int, j: int| 0 <= i < j < q.len() ==> q[i].x <= q[j].x
}

/// Every point lies in `[lo, hi]`.
pub open spec fn all_within(q: Seq<Point>, lo: int, hi: int) -> bool {
    forall|i: int| 0 <= i < q.len() ==> #[trigger] in_window(q[i], lo, hi)
}

/// The queue invariant: sorted, inside the window, no point twice.
pub open spec fn window_wf(q: Seq<Point>, lo: int, hi: int) -> bool {
    &&& sorted_by_x(q)
    &&& all_within(q, lo, hi)
    &&& q.no_duplicates()
}

/// `q` holds exactly the points of `db` that lie in `[lo, hi]`.
pub open spec fn represents(q: Seq<Point>, db: Seq<Point>, lo: int, hi: int) -> bool {
    forall|p: Point| #[trigger] q.contains(p) <==> (db.contains(p) && in_window(p, lo, hi))
}

/// Where a point with time `x` goes among the first `k` points of `q`: after every
/// point whose time is not above `x`, scanning from the back.
pub open spec fn slot(q: Seq<Point>, x: i64, k: int) -> int
    decreases k,
{
    if k <= 0 {
        0
    } else if q[k - 1].x > x {
        slot(q, x, k - 1)
    } else {
        k
    }
}

/// `q` with `p` inserted in order, unless `p` is outside `[lo, hi]` or already held.
pub open spec fn insert_point(q: Seq<Point>, p: Point, lo: int, hi: int) -> Seq<Point> {
    if !in_window(p, lo, hi) || q.contains(p) {
        q
    } else {
        q.insert(slot(q, p.x, q.len() as int), p)
    }
}

/// `q` with the points of `ps` inserted one after the other.
pub open spec fn insert_points(q: Seq<Point>, ps: Seq<Point>, lo: int, hi: int) -> Seq<Point>
    decreases ps.len(),
{
    if ps.len() == 0 {
        q
    } else {
        insert_point(insert_points(q, ps.drop_last(), lo, hi), ps.last(), lo, hi)
    }
}

/// The points of `q` that lie in `[lo, hi]`, in their order.
pub open spec fn keep_within(q: Seq<Point>, lo: int, hi: int) -> Seq<Point>
    decreases q.len(),
{
    if q.len() == 0 {
        q
    } else if in_window(q.last(), lo, hi) {
        keep_within(q.drop_last(), lo, hi).push(q.last())
    } else {
        keep_within(q.drop_last(), lo, hi)
    }
}

/// The queue after a steady-state update: what stays in `[lo, hi]`, then the older
/// and the newer points read from storage.
pub open spec fn updated_points(
    q: Seq<Point>,
    lo: int,
    hi: int,
    older: Seq<Point>,
    newer: Seq<Point>,
) -> Seq<Point> {
    insert_points(insert_points(keep_within(q, lo, hi), older, lo, hi), newer, lo, hi)
}

proof fn lemma_slot(q: Seq<Point>, x: i64, k: int)
    requires
        sorted_by_x(q),
        0 <= k <= q.len(),
    ensures
        0 <= slot(q, x, k) <= k,
        forall|i: int| 0 <= i < slot(q, x, k) ==> q[i].x <= x,
        forall|i: int| slot(q, x, k) <= i < k ==> q[i].x > x,
    decreases k,
{
    if k > 0 {
        lemma_slot(q, x, k - 1);
    }
}

proof fn lemma_insert_point(q: Seq<Point>, p: Point, lo: int, hi: int)
    requires
        sorted_by_x(q),
        q.no_duplicates(),
    ensures
        sorted_by_x(insert_point(q, p, lo, hi)),
        insert_point(q, p, lo, hi).no_duplicates(),
        all_within(q, lo, hi) ==> all_within(insert_point(q, p, lo, hi), lo, hi),
        forall|r: Point| #[trigger]
            insert_point(q, p, lo, hi).contains(r) <==> (q.contains(r) || (r == p && in_window(
                p,
                lo,
                hi,
            ))),
{
    if in_window(p, lo, hi) && !q.contains(p) {
        let k = slot(q, p.x, q.len() as int);
        lemma_slot(q, p.x, q.len() as int);
        let r = q.insert(k, p);
        q.insert_ensures(k, p);
        assert forall|i: int, j: int| 0 <= i < j < r.len() implies r[i].x <= r[j].x by {
            if j < k {
            } else if j == k {
            } else if i < k {
            } else if i == k {
            } else {
            }
        }
        assert forall|i: int, j: int| 0 <= i < r.len() && 0 <= j < r.len() && i != j implies r[i]
            != r[j] by {
            if i == k {
                let jj = if j > k { j - 1 } else { j };
                assert(r[j] == q[jj]);
                assert(q.contains(q[jj]));
            } else if j == k {
                let ii = if i > k { i - 1 } else { i };
                assert(r[i] == q[ii]);
                assert(q.contains(q[ii]));
            } else {
            }
        }
        assert forall|t: Point| #[trigger] r.contains(t) <==> (q.contains(t) || t == p) by {
            if r.contains(t) {
                let i = choose|i: int| 0 <= i < r.len() && r[i] == t;
                if i < k {
                    assert(q[i] == t);
                } else if i > k {
                    assert(q[i - 1] == t);
                }
            }
            if q.contains(t) {
                let i = choose|i: int| 0 <= i < q.len() && q[i] == t;
                if i < k {
                    assert(r[i] == t);
                } else {
                    assert(r[i + 1] == t);
                }
            }
            if t == p {
                assert(r[k] == t);
            }
        }
        if all_within(q, lo, hi) {
            assert forall|i: int| 0 <= i < r.len() implies #[trigger] in_window(r[i], lo, hi) by {
                if i < k {
                    assert(in_window(q[i], lo, hi));
                } else if i > k {
                    assert(in_window(q[i - 1], lo, hi));
                }
            }
        }
    }
}

proof fn lemma_insert_points(q: Seq<Point>, ps: Seq<Point>, lo: int, hi: int)
    requires
        sorted_by_x(q),
        q.no_duplicates(),
    ensures
        sorted_by_x(insert_points(q, ps, lo, hi)),
        insert_points(q, ps, lo, hi).no_duplicates(),
        all_within(q, lo, hi) ==> all_within(insert_points(q, ps, lo, hi), lo, hi),
        forall|r: Point| #[trigger]
            insert_points(q, ps, lo, hi).contains(r) <==> (q.contains(r) || (ps.contains(r)
                && in_window(r, lo, hi))),
    decreases ps.len(),
{
    if ps.len() > 0 {
        let prev = insert_points(q, ps.drop_last(), lo, hi);
        lemma_insert_points(q, ps.drop_last(), lo, hi);
        lemma_insert_point(prev, ps.last(), lo, hi);
        assert forall|r: Point| ps.contains(r) <==> (ps.drop_last().contains(r) || r == ps.last()) by {
            if ps.contains(r) {
                let i = choose|i: int| 0 <= i < ps.len() && ps[i] == r;
                if i < ps.len() - 1 {
                    assert(ps.drop_last()[i] == r);
                }
            }
            if ps.drop_last().contains(r) {
                let i = choose|i: int| 0 <= i < ps.drop_last().len() && ps.drop_last()[i] == r;
                assert(ps[i] == r);
            }
            if r == ps.last() {
                assert(ps[ps.len() - 1] == r);
            }
        }
    }
}

proof fn lemma_keep_within(q: Seq<Point>, lo: int, hi: int)
    requires
        sorted_by_x(q),
        q.no_duplicates(),
    ensures
        window_wf(keep_within(q, lo, hi), lo, hi),
        keep_within(q, lo, hi).len() <= q.len(),
        keep_within(q, lo, hi).len() == q.len() ==> keep_within(q, lo, hi) == q,
        forall|r: Point| #[trigger]
            keep_within(q, lo, hi).contains(r) <==> (q.contains(r) && in_window(r, lo, hi)),
    decreases q.len(),
{
    if q.len() > 0 {
        let d = q.drop_last();
        let k = keep_within(d, lo, hi);
        assert(sorted_by_x(d));
        assert(d.no_duplicates());
        lemma_keep_within(d, lo, hi);
        assert forall|r: Point| q.contains(r) <==> (d.contains(r) || r == q.last()) by {
            if q.contains(r) {
                let i = choose|i: int| 0 <= i < q.len() && q[i] == r;
                if i < q.len() - 1 {
                    assert(d[i] == r);
                }
            }
            if d.contains(r) {
                let i = choose|i: int| 0 <= i < d.len() && d[i] == r;
                assert(q[i] == r);
            }
            if r == q.last() {
                assert(q[q.len() - 1] == r);
            }
        }
        if in_window(q.last(), lo, hi) {
            let r = k.push(q.last());
            assert forall|i: int| 0 <= i < k.len() implies k[i].x <= q.last().x by {
                assert(k.contains(k[i]));
                let j = choose|j: int| 0 <= j < d.len() && d[j] == k[i];
                assert(q[j] == d[j]);
            }
            assert(!d.contains(q.last())) by {
                if d.contains(q.last()) {
                    let j = choose|j: int| 0 <= j < d.len() && d[j] == q.last();
                    assert(q[j] == q[q.len() - 1]);
                }
            }
            assert(!k.contains(q.last()));
            assert forall|i: int, j: int| 0 <= i < j < r.len() implies r[i].x <= r[j].x by {
                if j == k.len() {
                }
            }
            assert forall|i: int, j: int| 0 <= i < r.len() && 0 <= j < r.len() && i != j implies r[i]
                != r[j] by {
                if j == k.len() {
                    assert(k.contains(r[i]));
                } else if i == k.len() {
                    assert(k.contains(r[j]));
                }
            }
            assert forall|t: Point| #[trigger] r.contains(t) <==> (k.contains(t) || t == q.last()) by {
                if r.contains(t) {
                    let i = choose|i: int| 0 <= i < r.len() && r[i] == t;
                    if i < k.len() {
                        assert(k[i] == t);
                    }
                }
                if k.contains(t) {
                    let i = choose|i: int| 0 <= i < k.len() && k[i] == t;
                    assert(r[i] == t);
                }
                if t == q.last() {
                    assert(r[k.len() as int] == t);
                }
            }
            assert forall|i: int| 0 <= i < r.len() implies #[trigger] in_window(r[i], lo, hi) by {
                if i < k.len() {
                    assert(in_window(k[i], lo, hi));
                }
            }
            if r.len() == q.len() {
                assert(k == d);
                assert(r =~= q);
            }
        }
    }
}


/// Reading back an ordered window reproduces it: inserting, one after the other, the
/// points of a sorted duplicate-free sequence inside `[lo, hi]` yields that sequence.
pub proof fn lemma_reload_ordered(q: Seq<Point>, lo: int, hi: int)
    requires
        window_wf(q, lo, hi),
    ensures
        insert_points(Seq::<Point>::empty(), q, lo, hi) == q,
    decreases q.len(),
{
    if q.len() > 0 {
        let d = q.drop_last();
        assert(window_wf(d, lo, hi));
        lemma_reload_ordered(d, lo, hi);
        assert(!d.contains(q.last())) by {
            if d.contains(q.last()) {
                let j = choose|j: int| 0 <= j < d.len() && d[j] == q.last();
                assert(q[j] == q[q.len() - 1]);
            }
        }
        assert(in_window(q[q.len() - 1], lo, hi));
        if d.len() > 0 {
            assert(d[d.len() - 1].x <= q.last().x);
        }
        assert(slot(d, q.last().x, d.len() as int) == d.len());
        assert(d.insert(d.len() as int, q.last()) =~= q);
    }
}

/// No two points share an id.
pub open spec fn ids_unique(q: Seq<Point>) -> bool {
    forall|i: int, j: int| 0 <= i < q.len() && 0 <= j < q.len() && i != j ==> q[i].id != q[j].id
}

/// Points of `db` with the same id are the same point (the id is the store's key).
pub open spec fn keyed_by_id(db: Seq<Point>) -> bool {
    forall|i: int, j: int|
        0 <= i < db.len() && 0 <= j < db.len() && db[i].id == db[j].id ==> db[i] == db[j]
}

proof fn lemma_keyed_subset_ids_unique(r: Seq<Point>, db: Seq<Point>)
    requires
        r.no_duplicates(),
        keyed_by_id(db),
        forall|p: Point| r.contains(p) ==> db.contains(p),
    ensures
        ids_unique(r),
{
    assert forall|i: int, j: int| 0 <= i < r.len() && 0 <= j < r.len() && i != j implies r[i].id
        != r[j].id by {
        assert(r.contains(r[i]));
        assert(r.contains(r[j]));
        let a = choose|a: int| 0 <= a < db.len() && db[a] == r[i];
        let b = choose|b: int| 0 <= b < db.len() && db[b] == r[j];
    }
}

/// What a steady-state update keeps: the invariant in `[lo, hi]`, and exactly the points
/// in `[lo, hi]` of the queue and of the two storage reads.
proof fn lemma_updated_points(q: Seq<Point>, lo: int, hi: int, older: Seq<Point>, newer: Seq<Point>)
    requires
        sorted_by_x(q),
        q.no_duplicates(),
    ensures
        window_wf(updated_points(q, lo, hi, older, newer), lo, hi),
        forall|p: Point| #[trigger]
            updated_points(q, lo, hi, older, newer).contains(p) <==> (in_window(p, lo, hi) && (
            q.contains(p) || older.contains(p) || newer.contains(p))),
{
    let kept = keep_within(q, lo, hi);
    lemma_keep_within(q, lo, hi);
    lemma_insert_points(kept, older, lo, hi);
    lemma_insert_points(insert_points(kept, older, lo, hi), newer, lo, hi);
}

/// Growing the window, in general: the queue holds exactly the stored points of
/// `[qlo, qhi]`, the newer read covers `[nlo, now]`, and together they cover
/// `(now - w, now]`.
proof fn lemma_resize_core(
    q: Seq<Point>,
    db: Seq<Point>,
    qlo: int,
    qhi: int,
    nlo: int,
    now: int,
    w: int,
    w2: int,
    older: Seq<Point>,
    newer: Seq<Point>,
)
    requires
        sorted_by_x(q),
        q.no_duplicates(),
        represents(q, db, qlo, qhi),
        0 <= w < w2,
        qlo <= now - w,
        nlo <= qhi || nlo <= now - w || now <= qhi,
        represents(older, db, now - w2, now - w),
        represents(newer, db, nlo, now),
    ensures
        represents(updated_points(q, now - w2, now, older, newer), db, now - w2, now),
        window_wf(updated_points(q, now - w2, now, older, newer), now - w2, now),
        keyed_by_id(db) ==> ids_unique(updated_points(q, now - w2, now, older, newer)),
{
    let lo = now - w2;
    lemma_updated_points(q, lo, now, older, newer);
    let r = updated_points(q, lo, now, older, newer);
    assert forall|p: Point| #[trigger] r.contains(p) <==> (db.contains(p) && in_window(p, lo, now)) by {
        if db.contains(p) && in_window(p, lo, now) {
            if p.x <= now - w {
                assert(older.contains(p));
            } else if p.x >= nlo {
                assert(newer.contains(p));
            } else {
                assert(q.contains(p));
            }
        }
        if q.contains(p) {
            assert(db.contains(p));
        }
        if older.contains(p) {
            assert(db.contains(p));
        }
        if newer.contains(p) {
            assert(db.contains(p));
        }
    }
    if keyed_by_id(db) {
        lemma_keyed_subset_ids_unique(r, db);
    }
}

/// Growing the window: when the queue holds exactly the stored points of
/// `[last_check - w, last_check]`, the width grows to `w2 > w` at time
/// `now >= last_check`, and storage answers the two reads of the update plan with
/// exactly its points in those ranges, the updated queue holds exactly the stored points
/// of `[now - w2, now]`, sorted and without duplicates; when the store is keyed by id,
/// no two of them share an id.
pub proof fn lemma_resize_covers_window(
    q: Seq<Point>,
    db: Seq<Point>,
    last_check: int,
    now: int,
    w: int,
    w2: int,
    older: Seq<Point>,
    newer: Seq<Point>,
)
    requires
        window_wf(q, last_check - w, last_check),
        represents(q, db, last_check - w, last_check),
        0 <= w < w2,
        last_check <= now,
        represents(older, db, now - w2, now - w),
        represents(newer, db, if last_check >= now - w { last_check } else { now - w }, now),
    ensures
        represents(updated_points(q, now - w2, now, older, newer), db, now - w2, now),
        window_wf(updated_points(q, now - w2, now, older, newer), now - w2, now),
        keyed_by_id(db) ==> ids_unique(updated_points(q, now - w2, now, older, newer)),
{
    let nlo = if last_check >= now - w { last_check } else { now - w };
    lemma_resize_core(q, db, last_check - w, last_check, nlo, now, w, w2, older, newer);
}

/// Growing the window from the current one: when the queue holds exactly the stored
/// points of `[now - w, now]`, the width grows to `w2 > w`, and storage answers the two
/// reads of the update plan (for any `last_check`) with exactly its points in those
/// ranges, the updated queue holds exactly the stored points of `[now - w2, now]`,
/// sorted and without duplicates; when the store is keyed by id, no two of them share
/// an id.
pub proof fn lemma_resize_from_current_window(
    q: Seq<Point>,
    db: Seq<Point>,
    last_check: int,
    now: int,
    w: int,
    w2: int,
    older: Seq<Point>,
    newer: Seq<Point>,
)
    requires
        sorted_by_x(q),
        q.no_duplicates(),
        represents(q, db, now - w, now),
        0 <= w < w2,
        represents(older, db, now - w2, now - w),
        represents(newer, db, if last_check >= now - w { last_check } else { now - w }, now),
    ensures
        represents(updated_points(q, now - w2, now, older, newer), db, now - w2, now),
        window_wf(updated_points(q, now - w2, now, older, newer), now - w2, now),
        keyed_by_id(db) ==> ids_unique(updated_points(q, now - w2, now, older, newer)),
{
    let nlo = if last_check >= now - w { last_check } else { now - w };
    lemma_resize_core(q, db, now - w, now, nlo, now, w, w2, older, newer);
}

/// A cache that has never been checked: empty, at time zero, of width zero.
pub open spec fn is_fresh(c: WindowCache) -> bool {
    &&& c.points@.len() == 0
    &&& c.last_check == 0
    &&& c.last_width == 0
}

/// `post` is what a full flush at `now` with `width_minutes` leaves when storage
/// answered `loaded`.
pub open spec fn flushed_by(post: WindowCache, now: i64, width_minutes: i64, loaded: Seq<Point>) -> bool {
    &&& valid_time(now as int)
    &&& valid_width(width_minutes as int)
    &&& post.last_check == now
    &&& post.last_width == width_minutes * 60
    &&& post.points@ == insert_points(Seq::<Point>::empty(), loaded, now - width_minutes * 60, now as int)
}

/// `post` is what a steady-state update of `pre` at `now` with `width_minutes` leaves
/// when storage answered `older` and `newer`.
pub open spec fn updated_by(
    pre: WindowCache,
    post: WindowCache,
    now: i64,
    width_minutes: i64,
    older: Seq<Point>,
    newer: Seq<Point>,
) -> bool {
    &&& valid_time(now as int)
    &&& valid_width(width_minutes as int)
    &&& post.last_check == now
    &&& post.last_width == width_minutes * 60
    &&& post.points@ == updated_points(pre.points@, now - width_minutes * 60, now as int, older, newer)
}

/// `post` is what a full flush leaves, for some time, width and storage answer.
pub open spec fn flush_step(post: WindowCache) -> bool {
    exists|now: i64, width_minutes: i64, loaded: Seq<Point>|
        #[trigger] flushed_by(post, now, width_minutes, loaded)
}

/// `post` is what a steady-state update of `pre` leaves, for some time, width and
/// storage answers.
pub open spec fn update_step(pre: WindowCache, post: WindowCache) -> bool {
    exists|now: i64, width_minutes: i64, older: Seq<Point>, newer: Seq<Point>|
        #[trigger] updated_by(pre, post, now, width_minutes, older, newer)
}

/// One iteration of the state-cache actor, as far as the window goes: a flush, a
/// steady-state update, a reset on reconnection, or nothing (metadata work, commands).
pub open spec fn window_step(pre: WindowCache, post: WindowCache) -> bool {
    flush_step(post) || update_step(pre, post) || is_fresh(post) || post == pre
}

proof fn lemma_step_keeps_wf(pre: WindowCache, post: WindowCache)
    requires
        pre.wf(),
        window_step(pre, post),
    ensures
        post.wf(),
{
    if flush_step(post) {
        let (now, wm, loaded) = choose|now: i64, width_minutes: i64, loaded: Seq<Point>|
            #[trigger] flushed_by(post, now, width_minutes, loaded);
        lemma_insert_points(Seq::<Point>::empty(), loaded, now - wm * 60, now as int);
    } else if update_step(pre, post) {
        let (now, wm, older, newer) = choose|
            now: i64,
            width_minutes: i64,
            older: Seq<Point>,
            newer: Seq<Point>,
        | #[trigger] updated_by(pre, post, now, width_minutes, older, newer);
        lemma_updated_points(pre.points@, now - wm * 60, now as int, older, newer);
    }
}

/// The window invariant holds in every reachable state: along any run of the actor
/// that starts from a fresh cache and takes flushes, steady-state updates, resets and
/// other iterations in any order, every point lies in `[t - w, t]` for the time `t` and
/// width `w` of the last flush or update, the queue is sorted by `x`, and no point is
/// held twice.
pub proof fn lemma_reachable_windows_wf(run: Seq<WindowCache>)
    requires
        run.len() > 0,
        is_fresh(run[0]),
        forall|i: int| 0 <= i < run.len() - 1 ==> window_step(#[trigger] run[i], run[i + 1]),
    ensures
        forall|i: int| 0 <= i < run.len() ==> (#[trigger] run[i]).wf(),
    decreases run.len(),
{
    if run.len() > 1 {
        let prefix = run.drop_last();
        assert forall|i: int| 0 <= i < prefix.len() - 1 implies window_step(
            #[trigger] prefix[i],
            prefix[i + 1],
        ) by {
            assert(prefix[i] == run[i]);
            assert(prefix[i + 1] == run[i + 1]);
            assert(window_step(run[i], run[i + 1]));
        }
        lemma_reachable_windows_wf(prefix);
        let n = run.len() - 1;
        assert(prefix[n - 1] == run[n - 1]);
        assert(run[n - 1].wf());
        assert(window_step(run[n - 1], run[n]));
        lemma_step_keeps_wf(run[n - 1], run[n]);
        assert forall|i: int| 0 <= i < run.len() implies (#[trigger] run[i]).wf() by {
            if i < n {
                assert(prefix[i] == run[i]);
            }
        }
    }
}

/// Whether `q` holds `p`.
fn holds_point(q: &VecDeque<Point>, p: Point) -> (r: bool)
    ensures
        r == q@.contains(p),
{
    let mut i: usize = 0;
    while i < q.len()
        invariant
            0 <= i <= q@.len(),
            forall|j: int| 0 <= j < i ==> q@[j] != p,
        decreases q@.len() - i,
    {
        if q[i] == p {
            return true;
        }
        i = i + 1;
    }
    false
}

/// Inserts `p` in order when it lies in `[lo, hi]` and is not held yet; says whether it did.
fn place_point(q: &mut VecDeque<Point>, p: Point, lo: i64, hi: i64) -> (added: bool)
    ensures
        final(q)@ == insert_point(old(q)@, p, lo as int, hi as int),
        added == (in_window(p, lo as int, hi as int) && !old(q)@.contains(p)),
{
    if p.x < lo || p.x > hi || holds_point(q, p) {
        return false;
    }
    let mut k: usize = q.len();
    while k > 0 && q[k - 1].x > p.x
        invariant
            0 <= k <= q@.len(),
            slot(q@, p.x, k as int) == slot(q@, p.x, q@.len() as int),
        decreases k,
    {
        k = k - 1;
    }
    q.insert(k, p);
    true
}

/// Inserts the points of `ps` one after the other; says whether any was inserted.
fn place_points(q: &mut VecDeque<Point>, ps: &Vec<Point>, lo: i64, hi: i64) -> (added: bool)
    requires
        sorted_by_x(old(q)@),
        old(q)@.no_duplicates(),
    ensures
        final(q)@ == insert_points(old(q)@, ps@, lo as int, hi as int),
        added ==> exists|w: Point| #[trigger] final(q)@.contains(w) && !old(q)@.contains(w),
        !added ==> final(q)@ == old(q)@,
{
    let ghost start = q@;
    let mut added = false;
    let mut i: usize = 0;
    while i < ps.len()
        invariant
            0 <= i <= ps@.len(),
            sorted_by_x(start),
            start.no_duplicates(),
            q@ == insert_points(start, ps@.take(i as int), lo as int, hi as int),
            added ==> exists|w: Point| #[trigger] q@.contains(w) && !start.contains(w),
            !added ==> q@ == start,
        decreases ps@.len() - i,
    {
        assert(ps@.take(i as int + 1).drop_last() =~= ps@.take(i as int));
        assert(ps@.take(i as int + 1).last() == ps@[i as int]);
        proof {
            lemma_insert_points(start, ps@.take(i as int), lo as int, hi as int);
            lemma_insert_point(q@, ps@[i as int], lo as int, hi as int);
        }
        let ghost before = q@;
        let p = ps[i];
        let placed = place_point(q, p, lo, hi);
        proof {
            if added {
                let w = choose|w: Point| #[trigger] before.contains(w) && !start.contains(w);
                assert(q@.contains(w));
            }
            if placed {
                assert(q@.contains(p));
                assert(!start.contains(p));
            }
        }
        if placed {
            added = true;
        }
        i = i + 1;
    }
    assert(ps@.take(ps@.len() as int) =~= ps@);
    added
}

/// A closed range of times, in epoch seconds.
#[derive(Clone, Copy, Debug, PartialEq, Eq, Structural)]
pub struct TimeRange {
    pub lo: i64,
    pub hi: i64,
}

/// Ranges of `x` to read from storage for one steady-state update (both ends included).
#[derive(Clone, Copy, Debug, PartialEq, Eq, Structural)]
pub struct UpdatePlan {
    /// Older points to read when the window grew: `(now - new_width, now - old_width)`.
    pub older: Option<TimeRange>,
    /// Newer points to read: `(max(last_check, now - old_width), now)`.
    pub newer: TimeRange,
    /// The new width, in seconds.
    pub width: i64,
}

/// The sliding window of points held by the state cache.
pub struct WindowCache {
    /// Points sorted by `x`, inside `[last_check - last_width, last_check]`.
    pub points: VecDeque<Point>,
    /// Upper bound of the window at the last update, in epoch seconds.
    pub last_check: i64,
    /// Width of the window at the last update, in seconds.
    pub last_width: i64,
}

/// A timestamp that the window arithmetic accepts.
pub open spec fn valid_time(t: int) -> bool {
    -MAX_TIMESTAMP <= t <= MAX_TIMESTAMP
}

/// A window width, in minutes, that the window arithmetic accepts.
pub open spec fn valid_width(minutes: int) -> bool {
    0 <= minutes <= MAX_WIDTH_MINUTES
}

impl WindowCache {
    /// The cache invariant.
    pub open spec fn wf(&self) -> bool {
        &&& valid_time(self.last_check as int)
        &&& 0 <= self.last_width <= MAX_WIDTH_MINUTES * 60
        &&& window_wf(
            self.points@,
            self.last_check - self.last_width,
            self.last_check as int,
        )
    }

    /// An empty cache that has never been checked.
    pub fn new() -> (r: WindowCache)
        ensures
            r.wf(),
            r.points@ == Seq::<Point>::empty(),
            r.last_check == 0,
            r.last_width == 0,
    {
        WindowCache { points: VecDeque::new(), last_check: 0, last_width: 0 }
    }

    /// Replaces the whole queue by the points read for `[now - width, now]`.
    pub fn flush_data(&mut self, now: i64, width_minutes: i64, loaded: Vec<Point>)
        requires
            valid_time(now as int),
            valid_width(width_minutes as int),
        ensures
            final(self).wf(),
            flush_step(*final(self)),
            final(self).last_check == now,
            final(self).last_width == width_minutes * 60,
            final(self).points@ == insert_points(
                Seq::<Point>::empty(),
                loaded@,
                now - width_minutes * 60,
                now as int,
            ),
    {
        let width = width_minutes * 60;
        let mut q: VecDeque<Point> = VecDeque::new();
        proof {
            lemma_insert_points(q@, loaded@, now - width, now as int);
        }
        place_points(&mut q, &loaded, now - width, now);
        self.points = q;
        self.last_check = now;
        self.last_width = width;
        assert(flushed_by(*self, now, width_minutes, loaded@));
    }

    /// The storage reads needed to bring the window to `[now - width, now]`.
    pub fn plan_update(&self, now: i64, width_minutes: i64) -> (r: UpdatePlan)
        requires
            self.wf(),
            valid_time(now as int),
            valid_width(width_minutes as int),
        ensures
            r.width == width_minutes * 60,
            r.older == (if r.width > self.last_width {
                Some(TimeRange { lo: (now - r.width) as i64, hi: (now - self.last_width) as i64 })
            } else {
                None
            }),
            r.newer == (TimeRange {
                lo: if self.last_check >= now - self.last_width {
                    self.last_check
                } else {
                    (now - self.last_width) as i64
                },
                hi: now,
            }),
    {
        let width = width_minutes * 60;
        let older = if width > self.last_width {
            Some(TimeRange { lo: now - width, hi: now - self.last_width })
        } else {
            None
        };
        let from_old = now - self.last_width;
        let lower = if self.last_check >= from_old {
            self.last_check
        } else {
            from_old
        };
        UpdatePlan { older, newer: TimeRange { lo: lower, hi: now }, width }
    }

    /// Steady-state update: evicts what left `[now - width, now]`, then adds the older
    /// and the newer points read from storage. Says whether the queue changed.
    pub fn update_points(
        &mut self,
        now: i64,
        width_minutes: i64,
        older: Vec<Point>,
        newer: Vec<Point>,
    ) -> (changed: bool)
        requires
            old(self).wf(),
            valid_time(now as int),
            valid_width(width_minutes as int),
        ensures
            final(self).wf(),
            final(self).last_check == now,
            final(self).last_width == width_minutes * 60,
            final(self).points@ == updated_points(
                old(self).points@,
                now - width_minutes * 60,
                now as int,
                older@,
                newer@,
            ),
            update_step(*old(self), *final(self)),
            changed == (final(self).points@ != old(self).points@),
    {
        let width = width_minutes * 60;
        let lo = now - width;
        let ghost start = self.points@;
        let ghost start_cache = *self;
        let mut kept: VecDeque<Point> = VecDeque::new();
        let mut i: usize = 0;
        while i < self.points.len()
            invariant
                0 <= i <= start.len(),
                self.points@ == start,
                kept@ == keep_within(start.take(i as int), lo as int, now as int),
            decreases start.len() - i,
        {
            assert(start.take(i as int + 1).drop_last() =~= start.take(i as int));
            let p = self.points[i];
            if lo <= p.x && p.x <= now {
                kept.push_back(p);
            }
            i = i + 1;
        }
        assert(start.take(start.len() as int) =~= start);
        proof {
            lemma_keep_within(start, lo as int, now as int);
            lemma_insert_points(kept@, older@, lo as int, now as int);
            lemma_insert_points(
                insert_points(kept@, older@, lo as int, now as int),
                newer@,
                lo as int,
                now as int,
            );
        }
        let evicted = kept.len() < self.points.len();
        let ghost trimmed = kept@;
        let added_older = place_points(&mut kept, &older, lo, now);
        let ghost middle = kept@;
        let added_newer = place_points(&mut kept, &newer, lo, now);
        proof {
            let hi = now as int;
            let all = kept@;
            assert(all_within(all, lo as int, hi));
            if !evicted {
                assert(trimmed == start);
            }
            if added_older {
                let w = choose|w: Point| #[trigger] middle.contains(w) && !trimmed.contains(w);
                assert(all.contains(w));
                let j = choose|j: int| 0 <= j < all.len() && all[j] == w;
                assert(in_window(all[j], lo as int, hi));
                assert(!start.contains(w));
            } else if added_newer {
                let w = choose|w: Point| #[trigger] all.contains(w) && !middle.contains(w);
                let j = choose|j: int| 0 <= j < all.len() && all[j] == w;
                assert(in_window(all[j], lo as int, hi));
                assert(!start.contains(w));
            }
        }
        self.points = kept;
        self.last_check = now;
        self.last_width = width;
        assert(updated_by(start_cache, *self, now, width_minutes, older@, newer@));
        evicted || added_older || added_newer
    }

    /// The points currently held, in order.
    pub fn snapshot(&self) -> (r: Vec<Point>)
        ensures
            r@ == self.points@,
    {
        let mut out: Vec<Point> = Vec::new();
        let mut i: usize = 0;
        while i < self.points.len()
            invariant
                0 <= i <= self.points@.len(),
                out@ == self.points@.take(i as int),
            decreases self.points@.len() - i,
        {
            out.push(self.points[i]);
            i = i + 1;
            assert(out@ =~= self.points@.take(i as int));
        }
        assert(out@ =~= self.points@);
        out
    }
}

} // verus!
