//! The rules of the history: which clips are shown, in which order, and which
//! are pruned. These work on rows as the store reads them, in ascending id
//! order.
use vstd::prelude::*;

use crate::clip::{clip_matches, Clip, ClipView};
use crate::text::str_eq;

verus! {

/// The views of a sequence of clips.
pub open spec fn views(s: Seq<Clip>) -> Seq<ClipView> {
    s.map_values(|c: Clip| c@)
}

/// Ids strictly increase along `rows`.
pub open spec fn ids_increasing(rows: Seq<ClipView>) -> bool {
    forall|i: int, j: int| 0 <= i < j < rows.len() ==> rows[i].id < rows[j].id
}

/// A clip whose keep time ended at or before `stamp`.
pub open spec fn is_expired(c: ClipView, stamp: int) -> bool {
    c.keep_until matches Some(u) && u <= stamp
}

/// A clip kept forever.
pub open spec fn is_forever(c: ClipView) -> bool {
    c.keep_preset == "forever"@
}

/// `a` comes before `b` in the bar: used more recently, newer id on ties.
pub open spec fn recency_before(a: ClipView, b: ClipView) -> bool {
    a.last_used_at > b.last_used_at || (a.last_used_at == b.last_used_at && a.id > b.id)
}

/// `a` is pruned before `b` when the history is over its cap: clips that are
/// not kept forever first, then least recently used, then older id.
pub open spec fn prune_before(a: ClipView, b: ClipView) -> bool {
    let fa: int = if is_forever(a) {
        1
    } else {
        0
    };
    let fb: int = if is_forever(b) {
        1
    } else {
        0
    };
    fa < fb || (fa == fb && (a.last_used_at < b.last_used_at || (a.last_used_at
        == b.last_used_at && a.id < b.id)))
}

/// A clip shown at `stamp` for the search `needle` (already trimmed and
/// lowercased; empty shows every clip that has not expired).
pub open spec fn shown(c: ClipView, stamp: int, needle: Seq<char>) -> bool {
    !is_expired(c, stamp) && (needle.len() == 0 || clip_matches(c, needle))
}

/// The rows a listing keeps: with `rec`, those shown at `stamp` for `needle`;
/// without, those not expired at `stamp`.
pub open spec fn selected(c: ClipView, stamp: int, needle: Seq<char>, rec: bool) -> bool {
    if rec {
        shown(c, stamp, needle)
    } else {
        !is_expired(c, stamp)
    }
}

/// The order of a listing: with `rec`, most recently used first; without,
/// prune order.
pub open spec fn precedes(a: ClipView, b: ClipView, rec: bool) -> bool {
    if rec {
        recency_before(a, b)
    } else {
        prune_before(a, b)
    }
}

/// `c` is a row of `rows` that the listing keeps.
pub open spec fn is_selected_row(
    rows: Seq<ClipView>,
    stamp: int,
    needle: Seq<char>,
    rec: bool,
    c: ClipView,
) -> bool {
    exists|j: int|
        #![trigger rows[j]]
        0 <= j < rows.len() && rows[j] == c && selected(rows[j], stamp, needle, rec)
}

/// `c` is an entry of `out`.
pub open spec fn appears_in(out: Seq<ClipView>, c: ClipView) -> bool {
    exists|i: int| #![trigger out[i]] 0 <= i < out.len() && out[i] == c
}

/// Every entry of `out` is a row of `rows` that the listing keeps.
pub open spec fn lists_only_selected(
    rows: Seq<ClipView>,
    stamp: int,
    needle: Seq<char>,
    rec: bool,
    out: Seq<ClipView>,
) -> bool {
    forall|i: int| 0 <= i < out.len() ==> is_selected_row(rows, stamp, needle, rec, #[trigger] out[i])
}

/// Every row of `rows` that the listing keeps is in `out`.
pub open spec fn lists_all_selected(
    rows: Seq<ClipView>,
    stamp: int,
    needle: Seq<char>,
    rec: bool,
    out: Seq<ClipView>,
) -> bool {
    forall|j: int|
        0 <= j < rows.len() && selected(#[trigger] rows[j], stamp, needle, rec) ==> appears_in(
            out,
            rows[j],
        )
}

/// `out` is strictly ordered by the listing's order.
pub open spec fn in_order(out: Seq<ClipView>, rec: bool) -> bool {
    forall|i: int, k: int| 0 <= i < k < out.len() ==> precedes(out[i], out[k], rec)
}

/// `out` lists exactly the rows of `rows` shown at `stamp` for `needle`, most
/// recently used first.
pub open spec fn is_listing(
    rows: Seq<ClipView>,
    stamp: int,
    needle: Seq<char>,
    out: Seq<ClipView>,
) -> bool {
    &&& lists_only_selected(rows, stamp, needle, true, out)
    &&& lists_all_selected(rows, stamp, needle, true, out)
    &&& in_order(out, true)
}

/// `order` lists exactly the rows of `rows` not expired at `stamp`, in prune order.
pub open spec fn is_prune_order(rows: Seq<ClipView>, stamp: int, order: Seq<ClipView>) -> bool {
    &&& lists_only_selected(rows, stamp, Seq::<char>::empty(), false, order)
    &&& lists_all_selected(rows, stamp, Seq::<char>::empty(), false, order)
    &&& in_order(order, false)
}

/// How many of `n` surviving clips go when the cap is `max_items`.
pub open spec fn overflow_count(n: int, max_items: int) -> int {
    if n - max_items <= 0 {
        0
    } else if n - max_items >= n {
        n
    } else {
        n - max_items
    }
}

/// Ids of the rows of `rows` expired at `stamp`, in order.
pub open spec fn expired_ids(rows: Seq<ClipView>, stamp: int) -> Seq<i64>
    decreases rows.len(),
{
    if rows.len() == 0 {
        Seq::<i64>::empty()
    } else if is_expired(rows.last(), stamp) {
        expired_ids(rows.drop_last(), stamp).push(rows.last().id)
    } else {
        expired_ids(rows.drop_last(), stamp)
    }
}

/// Image paths of the rows of `rows` expired at `stamp`, in order.
pub open spec fn expired_paths(rows: Seq<ClipView>, stamp: int) -> Seq<Seq<char>>
    decreases rows.len(),
{
    if rows.len() == 0 {
        Seq::<Seq<char>>::empty()
    } else if is_expired(rows.last(), stamp) && rows.last().image_path is Some {
        expired_paths(rows.drop_last(), stamp).push(rows.last().image_path.unwrap())
    } else {
        expired_paths(rows.drop_last(), stamp)
    }
}

/// Ids of `rows`, in order.
pub open spec fn ids_of(rows: Seq<ClipView>) -> Seq<i64> {
    rows.map_values(|c: ClipView| c.id)
}

/// Image paths of the rows that have one, in order.
pub open spec fn paths_of(rows: Seq<ClipView>) -> Seq<Seq<char>>
    decreases rows.len(),
{
    if rows.len() == 0 {
        Seq::<Seq<char>>::empty()
    } else if rows.last().image_path is Some {
        paths_of(rows.drop_last()).push(rows.last().image_path.unwrap())
    } else {
        paths_of(rows.drop_last())
    }
}

/// What a prune removes from `rows` at `stamp` under the cap `max_items`:
/// `remove` lists the ids, expired ones first (by id), then the overflow in
/// prune order; `paths` lists their image paths in the same order.
pub open spec fn is_prune_plan(
    rows: Seq<ClipView>,
    max_items: int,
    stamp: int,
    remove: Seq<i64>,
    paths: Seq<Seq<char>>,
) -> bool {
    exists|order: Seq<ClipView>|
        {
            &&& is_prune_order(rows, stamp, order)
            &&& #[trigger] overflow_count(order.len() as int, max_items) >= 0
            &&& remove == expired_ids(rows, stamp) + ids_of(
                order.take(overflow_count(order.len() as int, max_items)),
            )
            &&& paths == expired_paths(rows, stamp) + paths_of(
                order.take(overflow_count(order.len() as int, max_items)),
            )
        }
}

/// Whether `c` has expired at `stamp`.
pub fn is_expired_at(c: &Clip, stamp: i64) -> (r: bool)
    ensures
        r == is_expired(c@, stamp as int),
{
    match c.keep_until {
        Some(u) => u <= stamp,
        None => false,
    }
}

/// Whether `c` is kept forever.
pub fn is_forever_clip(c: &Clip) -> (r: bool)
    ensures
        r == is_forever(c@),
{
    str_eq(c.keep_preset.as_str(), "forever")
}

/// Whether `a` comes before `b` in the bar.
pub fn recency_before_exec(a: &Clip, b: &Clip) -> (r: bool)
    ensures
        r == recency_before(a@, b@),
{
    a.last_used_at > b.last_used_at || (a.last_used_at == b.last_used_at && a.id > b.id)
}

/// Whether `a` is pruned before `b`.
pub fn prune_before_exec(a: &Clip, b: &Clip) -> (r: bool)
    ensures
        r == prune_before(a@, b@),
{
    let fa: u8 = if is_forever_clip(a) {
        1
    } else {
        0
    };
    let fb: u8 = if is_forever_clip(b) {
        1
    } else {
        0
    };
    fa < fb || (fa == fb && (a.last_used_at < b.last_used_at || (a.last_used_at
        == b.last_used_at && a.id < b.id)))
}

/// Every entry of `out` is a kept row of `orig` at position `lo` or later.
#[verifier::opaque]
spec fn listing_sound(
    out: Seq<ClipView>,
    orig: Seq<ClipView>,
    lo: int,
    stamp: int,
    nd: Seq<char>,
    rec: bool,
) -> bool {
    forall|i: int| 0 <= i < out.len() ==> row_from(orig, lo, stamp, nd, rec, #[trigger] out[i])
}

/// `c` is a kept row of `orig` at position `lo` or later.
spec fn row_from(orig: Seq<ClipView>, lo: int, stamp: int, nd: Seq<char>, rec: bool, c: ClipView) -> bool {
    exists|j: int|
        #![trigger orig[j]]
        lo <= j < orig.len() && orig[j] == c && selected(orig[j], stamp, nd, rec)
}

/// Every kept row of `orig` at position `lo` or later is in `out`.
#[verifier::opaque]
spec fn listing_complete(
    out: Seq<ClipView>,
    orig: Seq<ClipView>,
    lo: int,
    stamp: int,
    nd: Seq<char>,
    rec: bool,
) -> bool {
    forall|j: int|
        lo <= j < orig.len() && selected(#[trigger] orig[j], stamp, nd, rec) ==> appears_in(
            out,
            orig[j],
        )
}

/// `out` is strictly ordered.
#[verifier::opaque]
spec fn listing_sorted(out: Seq<ClipView>, rec: bool) -> bool {
    forall|i: int, k: int| 0 <= i < k < out.len() ==> precedes(out[i], out[k], rec)
}

proof fn lemma_listing_ids(
    before: Seq<ClipView>,
    orig: Seq<ClipView>,
    n: int,
    stamp: int,
    nd: Seq<char>,
    rec: bool,
)
    requires
        ids_increasing(orig),
        0 <= n < orig.len(),
        listing_sound(before, orig, n + 1, stamp, nd, rec),
    ensures
        forall|i: int| 0 <= i < before.len() ==> #[trigger] before[i].id > orig[n].id,
{
    reveal(listing_sound);
    assert forall|i: int| 0 <= i < before.len() implies #[trigger] before[i].id > orig[n].id by {
        assert(row_from(orig, n + 1, stamp, nd, rec, before[i]));
        let j = choose|j: int|
            #![trigger orig[j]]
            n + 1 <= j < orig.len() && orig[j] == before[i] && selected(orig[j], stamp, nd, rec);
        assert(orig[j].id == before[i].id);
    }
}

/// What one step of the insertion produces from `before`.
spec fn listing_step(before: Seq<ClipView>, after: Seq<ClipView>, x: ClipView, keep: bool, k: int) -> bool {
    &&& keep ==> {
        &&& 0 <= k <= before.len()
        &&& after == before.insert(k, x)
    }
    &&& !keep ==> after == before
}

proof fn lemma_step_sound(
    before: Seq<ClipView>,
    after: Seq<ClipView>,
    orig: Seq<ClipView>,
    n: int,
    stamp: int,
    nd: Seq<char>,
    rec: bool,
    keep: bool,
    k: int,
)
    requires
        0 <= n < orig.len(),
        listing_sound(before, orig, n + 1, stamp, nd, rec),
        keep ==> selected(orig[n], stamp, nd, rec),
        listing_step(before, after, orig[n], keep, k),
    ensures
        listing_sound(after, orig, n, stamp, nd, rec),
{
    reveal(listing_sound);
    assert forall|i: int| 0 <= i < after.len() implies row_from(
        orig,
        n,
        stamp,
        nd,
        rec,
        #[trigger] after[i],
    ) by {
        if keep && i == k {
            assert(orig[n] == after[i]);
        } else {
            let i1: int = if keep && i > k {
                i - 1
            } else {
                i
            };
            assert(after[i] == before[i1]);
            assert(row_from(orig, n + 1, stamp, nd, rec, before[i1]));
            let j = choose|j: int|
                #![trigger orig[j]]
                n + 1 <= j < orig.len() && orig[j] == before[i1] && selected(orig[j], stamp, nd, rec);
            assert(orig[j] == after[i]);
        }
    }
}

proof fn lemma_step_complete(
    before: Seq<ClipView>,
    after: Seq<ClipView>,
    orig: Seq<ClipView>,
    n: int,
    stamp: int,
    nd: Seq<char>,
    rec: bool,
    keep: bool,
    k: int,
)
    requires
        0 <= n < orig.len(),
        listing_complete(before, orig, n + 1, stamp, nd, rec),
        keep == selected(orig[n], stamp, nd, rec),
        listing_step(before, after, orig[n], keep, k),
    ensures
        listing_complete(after, orig, n, stamp, nd, rec),
{
    reveal(listing_complete);
    assert forall|j: int|
        n <= j < orig.len() && selected(#[trigger] orig[j], stamp, nd, rec) implies appears_in(
        after,
        orig[j],
    ) by {
        if j == n {
            assert(after[k] == orig[j]);
        } else {
            assert(appears_in(before, orig[j]));
            let i0 = choose|i: int| #![trigger before[i]] 0 <= i < before.len() && before[i] == orig[j];
            if keep && i0 >= k {
                assert(after[i0 + 1] == orig[j]);
            } else {
                assert(after[i0] == orig[j]);
            }
        }
    }
}

proof fn lemma_step_sorted(
    before: Seq<ClipView>,
    after: Seq<ClipView>,
    x: ClipView,
    rec: bool,
    keep: bool,
    k: int,
)
    requires
        listing_sorted(before, rec),
        listing_step(before, after, x, keep, k),
        keep ==> forall|m: int| 0 <= m < k ==> precedes(#[trigger] before[m], x, rec),
        keep ==> (k == before.len() || precedes(x, before[k], rec)),
    ensures
        listing_sorted(after, rec),
{
    reveal(listing_sorted);
    if keep {
        assert forall|i: int, m: int| 0 <= i < m < after.len() implies precedes(
            after[i],
            after[m],
            rec,
        ) by {
            if m < k {
                assert(after[i] == before[i] && after[m] == before[m]);
            } else if m == k {
                assert(after[i] == before[i]);
            } else if i < k {
                assert(after[m] == before[m - 1]);
                assert(after[i] == before[i]);
                assert(precedes(before[k], before[m - 1], rec) || k == m - 1);
            } else if i == k {
                assert(after[m] == before[m - 1]);
                assert(precedes(before[k], before[m - 1], rec) || k == m - 1);
            } else {
                assert(after[i] == before[i - 1] && after[m] == before[m - 1]);
            }
        }
    }
}

proof fn lemma_listing_done(out: Seq<ClipView>, orig: Seq<ClipView>, stamp: int, nd: Seq<char>, rec: bool)
    requires
        listing_sound(out, orig, 0, stamp, nd, rec),
        listing_complete(out, orig, 0, stamp, nd, rec),
        listing_sorted(out, rec),
    ensures
        lists_only_selected(orig, stamp, nd, rec, out),
        lists_all_selected(orig, stamp, nd, rec, out),
        in_order(out, rec),
{
    reveal(listing_sorted);
    reveal(listing_complete);
    reveal(listing_sound);
    assert forall|i: int| 0 <= i < out.len() implies is_selected_row(
        orig,
        stamp,
        nd,
        rec,
        #[trigger] out[i],
    ) by {
        assert(row_from(orig, 0, stamp, nd, rec, out[i]));
        let j = choose|j: int|
            #![trigger orig[j]]
            0 <= j < orig.len() && orig[j] == out[i] && selected(orig[j], stamp, nd, rec);
        assert(orig[j] == out[i]);
    }
}

/// Whether `a` precedes `b` in the listing's order.
fn precedes_exec(a: &Clip, b: &Clip, rec: bool) -> (r: bool)
    ensures
        r == precedes(a@, b@, rec),
{
    if rec {
        recency_before_exec(a, b)
    } else {
        prune_before_exec(a, b)
    }
}

/// The rows a listing keeps, in its order: with `rec`, the rows shown at
/// `stamp` for `needle`, most recently used first; without, the rows not
/// expired at `stamp`, in prune order.
pub fn sort_rows(rows: Vec<Clip>, stamp: i64, needle: Option<&str>, rec: bool) -> (out: Vec<Clip>)
    requires
        ids_increasing(views(rows@)),
    ensures
        lists_only_selected(views(rows@), stamp as int, needle_view(needle), rec, views(out@)),
        lists_all_selected(views(rows@), stamp as int, needle_view(needle), rec, views(out@)),
        in_order(views(out@), rec),
{
    let ghost orig = views(rows@);
    let ghost nd: Seq<char> = needle_view(needle);
    let mut pending = rows;
    let mut out: Vec<Clip> = Vec::new();
    proof {
        reveal(listing_sound);
        reveal(listing_complete);
        reveal(listing_sorted);
        assert(orig.take(orig.len() as int) =~= orig);
    }
    while pending.len() > 0
        invariant
            orig.len() >= pending@.len(),
            ids_increasing(orig),
            nd == needle_view(needle),
            views(pending@) == orig.take(pending@.len() as int),
            listing_sound(views(out@), orig, pending@.len() as int, stamp as int, nd, rec),
            listing_complete(views(out@), orig, pending@.len() as int, stamp as int, nd, rec),
            listing_sorted(views(out@), rec),
        decreases pending@.len(),
    {
        let ghost before = views(out@);
        let ghost n = pending@.len() - 1;
        let ghost old_pending = pending@;
        let x = pending.pop().unwrap();
        proof {
            assert(old_pending =~= pending@.push(x));
            assert(views(old_pending) =~= views(pending@).push(x@));
            assert(views(pending@) =~= orig.take(n));
            assert(views(old_pending)[n] == x@);
            assert(orig.take(n + 1)[n] == orig[n]);
            lemma_listing_ids(before, orig, n, stamp as int, nd, rec);
        }
        let keep = if is_expired_at(&x, stamp) {
            false
        } else if !rec {
            true
        } else {
            match needle {
                None => true,
                Some(nd_str) => {
                    if nd_str.is_empty() {
                        true
                    } else {
                        crate::clip::clip_matches_query(&x, nd_str)
                    }
                },
            }
        };
        let mut k: usize = 0;
        if keep {
            while k < out.len() && !precedes_exec(&x, &out[k], rec)
                invariant
                    0 <= k <= out@.len(),
                    views(out@) == before,
                    forall|i: int| 0 <= i < before.len() ==> #[trigger] before[i].id > x@.id,
                    forall|m: int| 0 <= m < k ==> precedes(#[trigger] before[m], x@, rec),
                decreases out@.len() - k,
            {
                assert(before[k as int].id > x@.id);
                k = k + 1;
            }
            out.insert(k, x);
            assert(views(out@) =~= before.insert(k as int, x@));
        }
        proof {
            assert(listing_step(before, views(out@), orig[n], keep, k as int));
            lemma_step_sound(before, views(out@), orig, n, stamp as int, nd, rec, keep, k as int);
            lemma_step_complete(before, views(out@), orig, n, stamp as int, nd, rec, keep, k as int);
            lemma_step_sorted(before, views(out@), orig[n], rec, keep, k as int);
        }
    }
    proof {
        lemma_listing_done(views(out@), orig, stamp as int, nd, rec);
    }
    out
}

/// The search needle as a sequence (`None`: no search).
pub open spec fn needle_view(needle: Option<&str>) -> Seq<char> {
    match needle {
        Some(n) => n@,
        None => Seq::<char>::empty(),
    }
}

/// The rows shown at `stamp` for `needle`, most recently used first.
pub fn sort_listing(rows: Vec<Clip>, stamp: i64, needle: Option<&str>) -> (out: Vec<Clip>)
    requires
        ids_increasing(views(rows@)),
    ensures
        is_listing(views(rows@), stamp as int, needle_view(needle), views(out@)),
{
    sort_rows(rows, stamp, needle, true)
}

/// The rows not expired at `stamp`, in prune order.
pub fn prune_order(rows: Vec<Clip>, stamp: i64) -> (out: Vec<Clip>)
    requires
        ids_increasing(views(rows@)),
    ensures
        is_prune_order(views(rows@), stamp as int, views(out@)),
{
    sort_rows(rows, stamp, None, false)
}

/// What a prune takes away: the ids to delete, in order, and the image paths
/// of the deleted clips that have one.
pub struct PrunePlan {
    pub remove: Vec<i64>,
    pub paths: Vec<String>,
}

/// The views of a sequence of strings.
pub open spec fn string_views(s: Seq<String>) -> Seq<Seq<char>> {
    s.map_values(|x: String| x@)
}

/// How many of `n` surviving clips go when the cap is `max_items`.
fn overflow_count_exec(n: usize, max_items: i64) -> (r: usize)
    ensures
        r == overflow_count(n as int, max_items as int),
        r <= n,
{
    let d: i128 = n as i128 - max_items as i128;
    if d <= 0 {
        0
    } else if d >= n as i128 {
        n
    } else {
        d as usize
    }
}

/// The ids and image paths a prune at `stamp` under the cap `max_items`
/// removes from `rows`: the expired rows (by id), then the surplus of the
/// others in prune order.
pub fn prune_plan(rows: Vec<Clip>, max_items: i64, stamp: i64) -> (plan: PrunePlan)
    requires
        ids_increasing(views(rows@)),
    ensures
        is_prune_plan(
            views(rows@),
            max_items as int,
            stamp as int,
            plan.remove@,
            string_views(plan.paths@),
        ),
{
    let ghost orig = views(rows@);
    let mut remove: Vec<i64> = Vec::new();
    let mut paths: Vec<String> = Vec::new();
    let mut i: usize = 0;
    while i < rows.len()
        invariant
            0 <= i <= rows@.len(),
            orig == views(rows@),
            remove@ == expired_ids(orig.take(i as int), stamp as int),
            string_views(paths@) == expired_paths(orig.take(i as int), stamp as int),
        decreases rows@.len() - i,
    {
        proof {
            assert(orig.take(i + 1).drop_last() =~= orig.take(i as int));
            assert(orig.take(i + 1).last() == orig[i as int]);
        }
        let ghost old_paths = paths@;
        if is_expired_at(&rows[i], stamp) {
            remove.push(rows[i].id);
            match &rows[i].image_path {
                Some(p) => {
                    paths.push(p.clone());
                    assert(string_views(paths@) =~= string_views(old_paths).push(p@));
                },
                None => {},
            }
        }
        i = i + 1;
    }
    proof {
        assert(orig.take(orig.len() as int) =~= orig);
    }
    let order = prune_order(rows, stamp);
    let extra = overflow_count_exec(order.len(), max_items);
    let ghost ord = views(order@);
    let ghost base_ids = remove@;
    let ghost base_paths = string_views(paths@);
    let mut t: usize = 0;
    while t < extra
        invariant
            0 <= t <= extra <= order@.len(),
            ord == views(order@),
            remove@ == base_ids + ids_of(ord.take(t as int)),
            string_views(paths@) == base_paths + paths_of(ord.take(t as int)),
        decreases extra - t,
    {
        proof {
            assert(ord.take(t + 1).drop_last() =~= ord.take(t as int));
            assert(ord.take(t + 1).last() == ord[t as int]);
            assert(ids_of(ord.take(t + 1)) =~= ids_of(ord.take(t as int)).push(ord[t as int].id));
        }
        let ghost old_paths = paths@;
        remove.push(order[t].id);
        match &order[t].image_path {
            Some(p) => {
                paths.push(p.clone());
                assert(string_views(paths@) =~= string_views(old_paths).push(p@));
            },
            None => {},
        }
        t = t + 1;
    }
    proof {
        assert(is_prune_order(orig, stamp as int, ord));
        assert(overflow_count(ord.len() as int, max_items as int) >= 0);
    }
    PrunePlan { remove, paths }
}

} // verus!
