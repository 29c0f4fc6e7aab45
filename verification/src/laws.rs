//! What holds of the history across operations: expiry, the cap, dedup and
//! reading back what was written.
use vstd::prelude::*;

use crate::clip::{display_label_spec, kind_label_spec, ClipView};
use crate::history::{
    appears_in, expired_ids, expired_paths, ids_of, in_order, is_expired, is_prune_order,
    is_prune_plan, is_selected_row, overflow_count, paths_of, prune_before, selected, shown,
};
use crate::keep::{keep_until_fits, keep_until_spec};
use crate::store::{
    add_outcome, add_step, hash_owner, is_hash_owner, label_value, new_clip, prune_outcome, rekept,
    relabeled, rows_match, seed_keep, seed_new, seed_payload_empty, seed_run, seed_step_fits,
    stored_as, table_get, table_listing, touched, until_for, with_keep, with_last_used, SeedImage,
    SEED_TEXT_COUNT,
};
use crate::text::trimmed;

verus! {

/// Ids of the clips of `t` that have not expired at `stamp`.
pub open spec fn live_ids(t: Map<i64, ClipView>, stamp: int) -> Set<i64> {
    t.dom().filter(|k: i64| !is_expired(t[k], stamp))
}

proof fn lemma_expired_ids(rows: Seq<ClipView>, stamp: int, x: i64)
    ensures
        expired_ids(rows, stamp).contains(x) <==> exists|i: int|
            #![trigger rows[i]]
            0 <= i < rows.len() && rows[i].id == x && is_expired(rows[i], stamp),
    decreases rows.len(),
{
    if rows.len() > 0 {
        let init = rows.drop_last();
        lemma_expired_ids(init, stamp, x);
        if expired_ids(rows, stamp).contains(x) {
            if is_expired(rows.last(), stamp) && rows.last().id == x {
                assert(rows[rows.len() - 1] == rows.last());
            } else {
                assert(expired_ids(init, stamp).contains(x)) by {
                    if is_expired(rows.last(), stamp) {
                        let s = expired_ids(init, stamp);
                        let j = choose|j: int| 0 <= j < s.push(rows.last().id).len() && s.push(rows.last().id)[j] == x;
                        assert(j < s.len());
                        assert(s[j] == x);
                    }
                }
                let i = choose|i: int|
                    #![trigger init[i]]
                    0 <= i < init.len() && init[i].id == x && is_expired(init[i], stamp);
                assert(rows[i] == init[i]);
            }
        } else {
            assert forall|i: int| 0 <= i < rows.len() && #[trigger] rows[i].id == x implies !is_expired(
                rows[i],
                stamp,
            ) by {
                if i == rows.len() - 1 {
                    if is_expired(rows.last(), stamp) {
                        let s = expired_ids(init, stamp);
                        assert(s.push(x)[s.len() as int] == x);
                    }
                } else {
                    assert(init[i] == rows[i]);
                    if is_expired(rows[i], stamp) {
                        assert(expired_ids(init, stamp).contains(x));
                        if is_expired(rows.last(), stamp) {
                            let s = expired_ids(init, stamp);
                            let j = choose|j: int| 0 <= j < s.len() && s[j] == x;
                            assert(s.push(rows.last().id)[j] == x);
                        }
                    }
                }
            }
        }
    }
}

/// What a prune order over the rows of `t` is: every entry a live clip of
/// `t`, every live clip an entry, each once.
proof fn lemma_prune_order_ids(rows: Seq<ClipView>, t: Map<i64, ClipView>, stamp: int, order: Seq<ClipView>)
    requires
        rows_match(rows, t),
        is_prune_order(rows, stamp, order),
    ensures
        forall|i: int|
            #![trigger order[i]]
            0 <= i < order.len() ==> t.contains_key(order[i].id) && t[order[i].id] == order[i]
                && !is_expired(order[i], stamp),
        forall|k: i64|
            t.contains_key(k) && !is_expired(#[trigger] t[k], stamp) ==> exists|i: int|
                #![trigger order[i]]
                0 <= i < order.len() && order[i].id == k,
        ids_of(order).no_duplicates(),
        ids_of(order).to_set() == live_ids(t, stamp),
        live_ids(t, stamp).finite(),
        order.len() == live_ids(t, stamp).len(),
{
    let e = Seq::<char>::empty();
    assert forall|i: int|
        #![trigger order[i]]
        0 <= i < order.len() implies t.contains_key(order[i].id) && t[order[i].id] == order[i]
            && !is_expired(order[i], stamp) by {
        assert(is_selected_row(rows, stamp, e, false, order[i]));
        let j = choose|j: int|
            #![trigger rows[j]]
            0 <= j < rows.len() && rows[j] == order[i] && selected(rows[j], stamp, e, false);
        assert(t.contains_key(rows[j].id) && t[rows[j].id] == rows[j]);
    }
    assert forall|k: i64| t.contains_key(k) && !is_expired(#[trigger] t[k], stamp) implies exists|i: int|
        #![trigger order[i]]
        0 <= i < order.len() && order[i].id == k by {
        let j = choose|j: int| #![trigger rows[j]] 0 <= j < rows.len() && rows[j].id == k;
        assert(t[rows[j].id] == rows[j]);
        assert(selected(rows[j], stamp, e, false));
        assert(appears_in(order, rows[j]));
        let i = choose|i: int| #![trigger order[i]] 0 <= i < order.len() && order[i] == rows[j];
        assert(order[i].id == k);
    }
    let ids = ids_of(order);
    assert(ids.no_duplicates()) by {
        assert forall|i: int, j: int|
            0 <= i < ids.len() && 0 <= j < ids.len() && i != j implies ids[i] != ids[j] by {
            if ids[i] == ids[j] {
                assert(t[order[i].id] == order[i]);
                assert(t[order[j].id] == order[j]);
                assert(order[i] == order[j]);
                assert(in_order(order, false));
                if i < j {
                    assert(crate::history::precedes(order[i], order[j], false));
                } else {
                    assert(crate::history::precedes(order[j], order[i], false));
                }
            }
        }
    }
    assert(ids.to_set() =~= live_ids(t, stamp)) by {
        assert forall|k: i64| ids.to_set().contains(k) implies live_ids(t, stamp).contains(k) by {
            let i = choose|i: int| 0 <= i < ids.len() && ids[i] == k;
            assert(order[i].id == k);
        }
        assert forall|k: i64| live_ids(t, stamp).contains(k) implies ids.to_set().contains(k) by {
            let i = choose|i: int| #![trigger order[i]] 0 <= i < order.len() && order[i].id == k;
            assert(ids[i] == k);
        }
    }
    ids.unique_seq_to_set();
    vstd::seq_lib::seq_to_set_is_finite(ids);
}

/// A key of `t` is in `remove` exactly when its clip expired or is among the
/// first `k` of the prune order.
proof fn lemma_removed_keys(
    rows: Seq<ClipView>,
    t: Map<i64, ClipView>,
    stamp: int,
    order: Seq<ClipView>,
    k: int,
    remove: Seq<i64>,
)
    requires
        rows_match(rows, t),
        0 <= k <= order.len(),
        remove == expired_ids(rows, stamp) + ids_of(order.take(k)),
    ensures
        forall|x: i64|
            #[trigger] t.contains_key(x) ==> (remove.to_set().contains(x) <==> (is_expired(
                t[x],
                stamp,
            ) || ids_of(order.take(k)).contains(x))),
{
    let gone = ids_of(order.take(k));
    assert forall|x: i64| #[trigger] t.contains_key(x) implies (remove.to_set().contains(x) <==> (
    is_expired(t[x], stamp) || gone.contains(x))) by {
        lemma_expired_ids(rows, stamp, x);
        if expired_ids(rows, stamp).contains(x) {
            let i = choose|i: int|
                #![trigger rows[i]]
                0 <= i < rows.len() && rows[i].id == x && is_expired(rows[i], stamp);
            assert(t[rows[i].id] == rows[i]);
        }
        if is_expired(t[x], stamp) {
            let i = choose|i: int| #![trigger rows[i]] 0 <= i < rows.len() && rows[i].id == x;
            assert(t[rows[i].id] == rows[i]);
            assert(expired_ids(rows, stamp).contains(x));
            let j = choose|j: int| 0 <= j < expired_ids(rows, stamp).len() && expired_ids(rows, stamp)[j] == x;
            assert(remove[j] == x);
        }
        if remove.to_set().contains(x) {
            let j = choose|j: int| 0 <= j < remove.len() && remove[j] == x;
            let ex = expired_ids(rows, stamp);
            if j < ex.len() {
                assert(ex[j] == x);
            } else {
                assert(gone[j - ex.len()] == x);
            }
        }
        if gone.contains(x) {
            let j = choose|j: int| 0 <= j < gone.len() && gone[j] == x;
            let ex = expired_ids(rows, stamp);
            assert(remove[ex.len() + j] == x);
        }
    }
}

/// What pruning keeps: only clips of the history, none of them expired; every
/// live clip when they fit under the cap; otherwise exactly as many as the cap
/// allows (none for a cap below one); and every clip removed for room comes
/// before every kept clip in prune order, so clips kept forever go last and,
/// among the others, the least recently used go first.
pub proof fn law_prune_keeps_the_last(
    t: Map<i64, ClipView>,
    max_items: int,
    stamp: int,
    after: Map<i64, ClipView>,
    paths: Seq<Seq<char>>,
)
    requires
        prune_outcome(t, max_items, stamp, after, paths),
    ensures
        forall|k: i64|
            #[trigger] after.contains_key(k) ==> t.contains_key(k) && after[k] == t[k]
                && !is_expired(after[k], stamp),
        live_ids(t, stamp).finite(),
        live_ids(t, stamp).len() <= max_items ==> after.dom() == live_ids(t, stamp),
        after.dom().finite(),
        after.len() == if live_ids(t, stamp).len() <= max_items {
            live_ids(t, stamp).len() as int
        } else if max_items <= 0 {
            0
        } else {
            max_items
        },
        forall|a: i64, b: i64|
            #![trigger live_ids(t, stamp).contains(a), after.contains_key(b)]
            live_ids(t, stamp).contains(a) && !after.contains_key(a) && after.contains_key(b)
                ==> prune_before(t[a], t[b]),
{
    let (rows, remove) = choose|rows: Seq<ClipView>, remove: Seq<i64>|
        #![trigger rows_match(rows, t), is_prune_plan(rows, max_items, stamp, remove, paths)]
        {
            &&& rows_match(rows, t)
            &&& is_prune_plan(rows, max_items, stamp, remove, paths)
            &&& after == t.remove_keys(remove.to_set())
        };
    let order = choose|order: Seq<ClipView>|
        {
            &&& is_prune_order(rows, stamp, order)
            &&& #[trigger] overflow_count(order.len() as int, max_items) >= 0
            &&& remove == expired_ids(rows, stamp) + ids_of(
                order.take(overflow_count(order.len() as int, max_items)),
            )
            &&& paths == crate::history::expired_paths(rows, stamp) + crate::history::paths_of(
                order.take(overflow_count(order.len() as int, max_items)),
            )
        };
    lemma_prune_order_ids(rows, t, stamp, order);
    let m = order.len() as int;
    let k = overflow_count(m, max_items);
    let gone = ids_of(order.take(k));
    let kept = ids_of(order.skip(k));
    assert(0 <= k <= m);
    lemma_removed_keys(rows, t, stamp, order, k, remove);
    let ids = ids_of(order);
    assert forall|p: int| 0 <= p < m implies (#[trigger] gone.contains(ids[p]) <==> p < k) by {
        if p < k {
            assert(gone[p] == ids[p]);
        } else if gone.contains(ids[p]) {
            let j = choose|j: int| 0 <= j < gone.len() && gone[j] == ids[p];
            assert(ids[j] == ids[p]);
        }
    }
    assert(after.dom() =~= kept.to_set()) by {
        assert forall|x: i64| after.dom().contains(x) implies kept.to_set().contains(x) by {
            assert(live_ids(t, stamp).contains(x));
            assert(ids.to_set().contains(x));
            let p = choose|p: int| 0 <= p < ids.len() && ids[p] == x;
            assert(!gone.contains(ids[p]));
            assert(kept[p - k] == x);
        }
        assert forall|x: i64| kept.to_set().contains(x) implies after.dom().contains(x) by {
            let q = choose|q: int| 0 <= q < kept.len() && kept[q] == x;
            assert(ids[q + k] == x);
            assert(order[q + k].id == x);
            assert(t.contains_key(x));
            assert(!gone.contains(ids[q + k]));
        }
    }
    assert(kept.no_duplicates()) by {
        assert forall|i: int, j: int|
            0 <= i < kept.len() && 0 <= j < kept.len() && i != j implies kept[i] != kept[j] by {
            assert(kept[i] == ids[i + k] && kept[j] == ids[j + k]);
        }
    }
    kept.unique_seq_to_set();
    vstd::seq_lib::seq_to_set_is_finite(kept);
    assert forall|a: i64, b: i64|
        #![trigger live_ids(t, stamp).contains(a), after.contains_key(b)]
        live_ids(t, stamp).contains(a) && !after.contains_key(a) && after.contains_key(b)
        implies prune_before(t[a], t[b]) by {
        assert(ids.to_set().contains(a));
        let p = choose|p: int| 0 <= p < ids.len() && ids[p] == a;
        assert(kept.to_set().contains(b));
        let q = choose|q: int| 0 <= q < kept.len() && kept[q] == b;
        assert(ids[q + k] == b);
        assert(gone.contains(ids[p]));
        assert(p < k);
        assert(in_order(order, false));
        assert(crate::history::precedes(order[p], order[q + k], false));
        assert(t[order[p].id] == order[p]);
        assert(t[order[q + k].id] == order[q + k]);
    }
    if m <= max_items {
        assert(k == 0);
        assert(after.dom() =~= live_ids(t, stamp)) by {
            assert forall|x: i64| live_ids(t, stamp).contains(x) implies after.dom().contains(x) by {
                assert(ids.to_set().contains(x));
                let p = choose|p: int| 0 <= p < ids.len() && ids[p] == x;
                assert(!gone.contains(ids[p]));
            }
        }
    }
}

/// A clip added at `stamp` under a known keep preset is live at that stamp.
pub proof fn law_new_clip_is_live(
    kind: Seq<char>,
    mime: Seq<char>,
    payload: Seq<u8>,
    text: Option<Seq<char>>,
    preview: Seq<char>,
    image_path: Option<Seq<char>>,
    keep_preset: Seq<char>,
    stamp: i64,
)
    requires
        keep_until_fits(keep_preset, stamp as int),
    ensures
        !is_expired(
            new_clip(kind, mime, payload, text, preview, image_path, keep_preset, stamp),
            stamp as int,
        ),
{
}

/// Adding content the history already holds (same kind, MIME type and
/// payload) keeps every clip, changes none but the one holding it, and only
/// marks that one as used at `stamp`: its id, keep preset and expiry stay,
/// and it is what comes back.
pub proof fn law_add_known_content(
    t: Map<i64, ClipView>,
    new: ClipView,
    max_items: int,
    stamp: i64,
    after: Map<i64, ClipView>,
    r: Option<ClipView>,
)
    requires
        hash_owner(t, new.hash) is Some,
        add_outcome(t, new, max_items, stamp, after, r),
    ensures
        ({
            let id = hash_owner(t, new.hash)->0;
            &&& t.contains_key(id) && t[id].hash == new.hash
            &&& after.dom() == t.dom()
            &&& forall|k: i64| #[trigger] t.contains_key(k) && k != id ==> after[k] == t[k]
            &&& r == Some(with_last_used(t[id], stamp))
            &&& after[id].keep_preset == t[id].keep_preset && after[id].keep_until == t[id].keep_until
        }),
{
    let id = hash_owner(t, new.hash)->0;
    assert(is_hash_owner(t, new.hash, id));
    assert(after.dom() =~= t.dom());
}

/// New content added while the live clips leave room under the cap reads
/// back exactly as given, under an id the history did not hold, and every
/// live clip stays.
pub proof fn law_add_new_content_reads_back(
    t: Map<i64, ClipView>,
    new: ClipView,
    max_items: int,
    stamp: i64,
    after: Map<i64, ClipView>,
    r: Option<ClipView>,
)
    requires
        hash_owner(t, new.hash) is None,
        add_outcome(t, new, max_items, stamp, after, r),
        !is_expired(new, stamp as int),
        live_ids(t, stamp as int).finite(),
        live_ids(t, stamp as int).len() < max_items,
    ensures
        exists|id: i64|
            !t.contains_key(id) && r == Some(#[trigger] stored_as(new, id)) && after.contains_key(id)
                && after[id] == stored_as(new, id),
        forall|k: i64|
            #[trigger] t.contains_key(k) && !is_expired(t[k], stamp as int) ==> after.contains_key(k)
                && after[k] == t[k],
{
    let (id, paths) = choose|id: i64, paths: Seq<Seq<char>>|
        #![trigger prune_outcome(t.insert(id, stored_as(new, id)), max_items, stamp as int, after, paths)]
        {
            &&& !t.contains_key(id)
            &&& prune_outcome(t.insert(id, stored_as(new, id)), max_items, stamp as int, after, paths)
            &&& r == table_get(after, id)
        };
    let t1 = t.insert(id, stored_as(new, id));
    assert(live_ids(t1, stamp as int) =~= live_ids(t, stamp as int).insert(id));
    law_prune_keeps_the_last(t1, max_items, stamp as int, after, paths);
    assert(after.contains_key(id));
    assert(after[id] == t1[id]);
    assert forall|k: i64|
        #[trigger] t.contains_key(k) && !is_expired(t[k], stamp as int) implies after.contains_key(k)
            && after[k] == t[k] by {
        assert(t1[k] == t[k]);
        assert(live_ids(t1, stamp as int).contains(k));
    }
}

/// Keeping a clip under a preset is read back: the clip then has that preset
/// and expiry, and no other clip changes; keeping a missing clip changes
/// nothing.
pub proof fn law_keep_reads_back(t: Map<i64, ClipView>, id: i64, preset: Seq<char>, until: Option<i64>)
    ensures
        t.contains_key(id) ==> table_get(rekept(t, id, preset, until), id) == Some(
            with_keep(t[id], preset, until),
        ),
        !t.contains_key(id) ==> rekept(t, id, preset, until) == t,
        rekept(t, id, preset, until).dom() == t.dom(),
        forall|k: i64|
            #[trigger] t.contains_key(k) && k != id ==> rekept(t, id, preset, until)[k] == t[k],
{
    assert(rekept(t, id, preset, until).dom() =~= t.dom());
}

/// A custom label is read back trimmed; a blank one clears the label, and the
/// card then shows the kind.
pub proof fn law_label_reads_back(t: Map<i64, ClipView>, id: i64, label: Seq<char>)
    requires
        t.contains_key(id),
    ensures
        trimmed(label).len() > 0 ==> relabeled(t, id, label_value(Some(label)))[id].custom_label
            == Some(trimmed(label)) && display_label_spec(
            relabeled(t, id, label_value(Some(label)))[id],
        ) == trimmed(label),
        trimmed(label).len() == 0 ==> relabeled(t, id, label_value(Some(label)))[id].custom_label
            is None && display_label_spec(relabeled(t, id, label_value(Some(label)))[id])
            == kind_label_spec(t[id].kind),
        relabeled(t, id, label_value(None))[id].custom_label is None,
{
}

/// A deleted clip is gone and the others stay.
pub proof fn law_delete_removes(t: Map<i64, ClipView>, id: i64)
    ensures
        table_get(t.remove(id), id) is None,
        forall|k: i64| #[trigger] t.contains_key(k) && k != id ==> table_get(t.remove(id), k) == Some(
            t[k],
        ),
{
}

/// Using a clip moves it to the front: touched at a stamp later than every
/// other clip's last use, it comes first in any listing that shows it.
pub proof fn law_touch_moves_to_front(
    t: Map<i64, ClipView>,
    id: i64,
    stamp: i64,
    now: int,
    needle: Seq<char>,
    out: Seq<ClipView>,
)
    requires
        t.contains_key(id),
        forall|k: i64| #[trigger] t.contains_key(k) && k != id ==> t[k].last_used_at < stamp,
        table_listing(touched(t, id, stamp), now, needle, out),
        shown(with_last_used(t[id], stamp), now, needle),
    ensures
        out.len() > 0 && out[0] == with_last_used(t[id], stamp),
{
    let t1 = touched(t, id, stamp);
    assert(t1[id] == with_last_used(t[id], stamp));
    assert(appears_in(out, t1[id]));
    let i = choose|i: int| #![trigger out[i]] 0 <= i < out.len() && out[i] == t1[id];
    if i > 0 {
        assert(in_order(out, true));
        assert(crate::history::precedes(out[0], out[i], true));
        let k = out[0].id;
        assert(t1.contains_key(k) && t1[k] == out[0]);
        if k == id {
            assert(out[0] == out[i]);
        } else {
            assert(t1[k] == t[k]);
        }
    }
}

/// What a listing shows: never an expired clip; for a blank search every live
/// clip; and the most recently used first.
pub proof fn law_listing_shows_live_by_recency(
    t: Map<i64, ClipView>,
    stamp: int,
    needle: Seq<char>,
    out: Seq<ClipView>,
)
    requires
        table_listing(t, stamp, needle, out),
    ensures
        forall|i: int| 0 <= i < out.len() ==> !is_expired(#[trigger] out[i], stamp),
        needle.len() == 0 ==> forall|k: i64|
            #[trigger] live_ids(t, stamp).contains(k) ==> appears_in(out, t[k]),
        forall|i: int, j: int|
            0 <= i < j < out.len() ==> (#[trigger] out[i]).last_used_at >= (#[trigger] out[j]).last_used_at,
{
    assert forall|i: int, j: int| 0 <= i < j < out.len() implies (#[trigger] out[i]).last_used_at
        >= (#[trigger] out[j]).last_used_at by {
        assert(crate::history::precedes(out[i], out[j], true));
    }
    if needle.len() == 0 {
        assert forall|k: i64| #[trigger] live_ids(t, stamp).contains(k) implies appears_in(out, t[k]) by {
            assert(shown(t[k], stamp, needle));
        }
    }
}

proof fn lemma_rows_drop_last(rows: Seq<ClipView>, t: Map<i64, ClipView>)
    requires
        rows_match(rows, t),
        rows.len() > 0,
    ensures
        rows_match(rows.drop_last(), t.remove(rows.last().id)),
{
    let init = rows.drop_last();
    let m = rows.last().id;
    let t2 = t.remove(m);
    assert forall|i: int| #![trigger init[i]] 0 <= i < init.len() implies t2.contains_key(init[i].id)
        && t2[init[i].id] == init[i] by {
        assert(init[i] == rows[i]);
        assert(rows[i].id < rows[rows.len() - 1].id);
    }
    assert forall|k: i64| #[trigger] t2.contains_key(k) implies exists|i: int|
        #![trigger init[i]]
        0 <= i < init.len() && init[i].id == k by {
        let i = choose|i: int| #![trigger rows[i]] 0 <= i < rows.len() && rows[i].id == k;
        assert(i != rows.len() - 1);
        assert(init[i] == rows[i]);
    }
}

/// The rows of a table are determined by it: two sequences that both list
/// the rows of `t` in ascending id order are the same.
pub proof fn law_rows_are_the_table(r1: Seq<ClipView>, r2: Seq<ClipView>, t: Map<i64, ClipView>)
    requires
        rows_match(r1, t),
        rows_match(r2, t),
    ensures
        r1 == r2,
    decreases r1.len(),
{
    if r1.len() == 0 {
        if r2.len() > 0 {
            assert(t.contains_key(r2[0].id));
            let i = choose|i: int| #![trigger r1[i]] 0 <= i < r1.len() && r1[i].id == r2[0].id;
        }
        assert(r1 =~= r2);
    } else {
        let m = r1.last().id;
        assert(t.contains_key(r1[r1.len() - 1].id));
        let j = choose|j: int| #![trigger r2[j]] 0 <= j < r2.len() && r2[j].id == m;
        if j < r2.len() - 1 {
            let k = r2[r2.len() - 1].id;
            assert(r2[j].id < r2[r2.len() - 1].id);
            assert(t.contains_key(k));
            let i = choose|i: int| #![trigger r1[i]] 0 <= i < r1.len() && r1[i].id == k;
            if i < r1.len() - 1 {
                assert(r1[i].id < r1[r1.len() - 1].id);
            }
        }
        assert(r2.last() == t[m]);
        assert(r1.last() == t[m]);
        lemma_rows_drop_last(r1, t);
        lemma_rows_drop_last(r2, t);
        law_rows_are_the_table(r1.drop_last(), r2.drop_last(), t.remove(m));
        assert(r1 =~= r1.drop_last().push(r1.last()));
        assert(r2 =~= r2.drop_last().push(r2.last()));
    }
}

/// Adding new content keeps the history within the cap: afterwards it
/// holds at most `max_items` clips (none for a cap below one), and no
/// expired one.
pub proof fn law_add_keeps_the_cap(
    t: Map<i64, ClipView>,
    new: ClipView,
    max_items: int,
    stamp: i64,
    after: Map<i64, ClipView>,
    r: Option<ClipView>,
)
    requires
        hash_owner(t, new.hash) is None,
        add_outcome(t, new, max_items, stamp, after, r),
    ensures
        after.dom().finite(),
        after.len() <= if max_items < 0 {
            0
        } else {
            max_items
        },
        forall|k: i64| #[trigger] after.contains_key(k) ==> !is_expired(after[k], stamp as int),
{
    let (id, paths) = choose|id: i64, paths: Seq<Seq<char>>|
        #![trigger prune_outcome(t.insert(id, stored_as(new, id)), max_items, stamp as int, after, paths)]
        {
            &&& !t.contains_key(id)
            &&& prune_outcome(t.insert(id, stored_as(new, id)), max_items, stamp as int, after, paths)
            &&& r == table_get(after, id)
        };
    law_prune_keeps_the_last(t.insert(id, stored_as(new, id)), max_items, stamp as int, after, paths);
}


/// Every sample with content already has a clip in `t` (by content hash).
pub open spec fn holds_samples(t: Map<i64, ClipView>, images: Seq<SeedImage>) -> bool {
    forall|i: int|
        0 <= i < SEED_TEXT_COUNT + images.len() && !seed_payload_empty(images, i) ==> (#[trigger] hash_owner(
            t,
            seed_new(images, i, 0).hash,
        )) is Some
}

/// `b` is `a` but for when it was last used.
pub open spec fn same_but_use(a: ClipView, b: ClipView) -> bool {
    b == with_last_used(a, b.last_used_at)
}

/// `after` holds the clips of `t`, each changed at most in when it was last
/// used.
pub open spec fn only_uses_change(t: Map<i64, ClipView>, after: Map<i64, ClipView>) -> bool {
    &&& after.dom() == t.dom()
    &&& forall|k: i64| #[trigger] t.contains_key(k) ==> same_but_use(t[k], after[k])
}

proof fn lemma_owner_kept(t: Map<i64, ClipView>, after: Map<i64, ClipView>, h: Seq<char>)
    requires
        only_uses_change(t, after),
        hash_owner(t, h) is Some,
    ensures
        hash_owner(after, h) is Some,
{
    let id = choose|id: i64| is_hash_owner(t, h, id);
    assert(after.contains_key(id) && after[id].hash == h);
    assert forall|k: i64| #[trigger] after.contains_key(k) && after[k].hash == h implies id <= k by {
        assert(t.contains_key(k) && same_but_use(t[k], after[k]));
    }
    assert(is_hash_owner(after, h, id));
}

proof fn lemma_seed_prefix_only_uses(
    t: Map<i64, ClipView>,
    images: Seq<SeedImage>,
    stamp0: i64,
    states: Seq<Map<i64, ClipView>>,
    j: int,
)
    requires
        seed_run(t, images, stamp0, states),
        states.len() <= SEED_TEXT_COUNT + images.len() + 1,
        holds_samples(t, images),
        0 <= j < states.len(),
    ensures
        only_uses_change(t, states[j]),
    decreases j,
{
    if j > 0 {
        let i = j - 1;
        lemma_seed_prefix_only_uses(t, images, stamp0, states, i);
        let cur = states[i];
        let next = states[j];
        let stamp = (stamp0 - i) as i64;
        let new = seed_new(images, i, stamp);
        let empty = seed_payload_empty(images, i);
        assert(add_step(cur, new, empty, 200, stamp, next));
        if !empty {
            assert(new.hash == seed_new(images, i, 0).hash);
            assert(hash_owner(t, seed_new(images, i, 0).hash) is Some);
            lemma_owner_kept(t, cur, new.hash);
            let r = choose|r: Option<ClipView>| #[trigger] add_outcome(cur, new, 200, stamp, next, r);
            let id = hash_owner(cur, new.hash)->0;
            assert(next == touched(cur, id, stamp));
            assert forall|k: i64| #[trigger] t.contains_key(k) implies same_but_use(t[k], next[k]) by {
                assert(same_but_use(t[k], cur[k]));
                if k == id {
                    assert(next[k] == with_last_used(cur[k], stamp));
                }
            }
            assert(next.dom() =~= t.dom());
        }
    }
}

/// Seeding a history that already holds every sample adds no clip and
/// removes none: each step finds its sample's content and only marks it as
/// used, so the ids stay and every clip keeps all but its last use time.
/// This is why a second seed after the first leaves the history as large as
/// it was.
pub proof fn law_seeding_again_adds_nothing(
    t: Map<i64, ClipView>,
    images: Seq<SeedImage>,
    stamp0: i64,
    states: Seq<Map<i64, ClipView>>,
)
    requires
        seed_run(t, images, stamp0, states),
        states.len() <= SEED_TEXT_COUNT + images.len() + 1,
        holds_samples(t, images),
    ensures
        only_uses_change(t, states.last()),
{
    lemma_seed_prefix_only_uses(t, images, stamp0, states, states.len() - 1);
}

/// Some clip of `t` has the hash `h`.
pub open spec fn has_hash(t: Map<i64, ClipView>, h: Seq<char>) -> bool {
    exists|k: i64| #[trigger] t.contains_key(k) && t[k].hash == h
}

proof fn lemma_owner_exists(t: Map<i64, ClipView>, h: Seq<char>)
    requires
        t.dom().finite(),
        has_hash(t, h),
    ensures
        hash_owner(t, h) is Some,
{
    let s = t.dom().filter(|k: i64| t[k].hash == h);
    let leq = |a: i64, b: i64| a <= b;
    let k0 = choose|k: i64| #[trigger] t.contains_key(k) && t[k].hash == h;
    assert(s.contains(k0));
    t.dom().lemma_len_filter(|k: i64| t[k].hash == h);
    assert(s.finite());
    assert(s.len() > 0);
    assert(vstd::relations::total_ordering(leq));
    s.find_unique_minimal_ensures(leq);
    let m = s.find_unique_minimal(leq);
    assert forall|k: i64| #[trigger] t.contains_key(k) && t[k].hash == h implies m <= k by {
        assert(s.contains(k));
        assert(vstd::relations::is_minimal(leq, m, s));
        if k < m {
            assert(leq(k, m));
            assert(leq(m, k));
        }
    }
    assert(is_hash_owner(t, h, m));
}

/// The hash of sample `i`.
pub open spec fn sample_hash(images: Seq<SeedImage>, i: int) -> Seq<char> {
    seed_new(images, i, 0).hash
}

/// After `j` steps of a seed from `stamp0` that started empty: at most `j`
/// clips, none expiring at or before the stamp of step `j`, and every sample
/// so far with content held.
pub open spec fn seed_prefix_ok(
    images: Seq<SeedImage>,
    stamp0: i64,
    t: Map<i64, ClipView>,
    j: int,
) -> bool {
    &&& t.dom().finite()
    &&& t.len() <= j
    &&& forall|k: i64|
        #[trigger] t.contains_key(k) ==> (t[k].keep_until matches Some(u) ==> u > stamp0 - j)
    &&& forall|i: int|
        0 <= i < j && !seed_payload_empty(images, i) ==> #[trigger] has_hash(
            t,
            sample_hash(images, i),
        )
}

proof fn lemma_seed_step_ok(
    images: Seq<SeedImage>,
    stamp0: i64,
    cur: Map<i64, ClipView>,
    next: Map<i64, ClipView>,
    j: int,
)
    requires
        seed_prefix_ok(images, stamp0, cur, j),
        0 <= j < 200,
        seed_step_fits(images, j, stamp0),
        add_step(
            cur,
            seed_new(images, j, (stamp0 - j) as i64),
            seed_payload_empty(images, j),
            200,
            (stamp0 - j) as i64,
            next,
        ),
    ensures
        seed_prefix_ok(images, stamp0, next, j + 1),
{
    let stamp = (stamp0 - j) as i64;
    let new = seed_new(images, j, stamp);
    assert(new.hash == sample_hash(images, j));
    if seed_payload_empty(images, j) {
        assert(next == cur);
        assert forall|i: int|
            0 <= i < j + 1 && !seed_payload_empty(images, i) implies #[trigger] has_hash(
            next,
            sample_hash(images, i),
        ) by {
            assert(i < j);
        }
    } else {
        let r = choose|r: Option<ClipView>| #[trigger] add_outcome(cur, new, 200, stamp, next, r);
        match hash_owner(cur, new.hash) {
            Some(id) => {
                assert(is_hash_owner(cur, new.hash, id)) by {
                    assert(exists|x: i64| is_hash_owner(cur, new.hash, x));
                }
                assert(next == touched(cur, id, stamp));
                assert(next.dom() =~= cur.dom());
                assert forall|i: int|
                    0 <= i < j + 1 && !seed_payload_empty(images, i) implies #[trigger] has_hash(
                    next,
                    sample_hash(images, i),
                ) by {
                    if i < j {
                        assert(has_hash(cur, sample_hash(images, i)));
                        let k = choose|k: i64| #[trigger] cur.contains_key(k) && cur[k].hash
                            == sample_hash(images, i);
                        assert(next.contains_key(k) && next[k].hash == sample_hash(images, i));
                    } else {
                        assert(next.contains_key(id) && next[id].hash == sample_hash(images, i));
                    }
                }
            },
            None => {
                let (id, paths) = choose|id: i64, paths: Seq<Seq<char>>|
                    {
                        &&& !cur.contains_key(id)
                        &&& #[trigger] prune_outcome(
                            cur.insert(id, stored_as(new, id)),
                            200,
                            stamp as int,
                            next,
                            paths,
                        )
                        &&& r == table_get(next, id)
                    };
                let u = cur.insert(id, stored_as(new, id));
                law_prune_keeps_the_last(u, 200, stamp as int, next, paths);
                assert(new.keep_until == until_for(seed_keep(images, j), stamp as int));
                assert(live_ids(u, stamp as int) =~= u.dom()) by {
                    assert forall|k: i64| u.dom().contains(k) implies !is_expired(u[k], stamp as int) by {
                        if k != id {
                            assert(cur.contains_key(k));
                        }
                    }
                }
                assert(u.dom().finite());
                assert(u.len() == cur.len() + 1);
                assert(next.dom() == u.dom());
                assert forall|k: i64| #[trigger] next.contains_key(k) implies (next[k].keep_until matches Some(
                    v,
                ) ==> v > stamp0 - (j + 1)) by {
                    assert(next[k] == u[k]);
                    if k != id {
                        assert(cur.contains_key(k));
                    }
                }
                assert forall|i: int|
                    0 <= i < j + 1 && !seed_payload_empty(images, i) implies #[trigger] has_hash(
                    next,
                    sample_hash(images, i),
                ) by {
                    if i < j {
                        assert(has_hash(cur, sample_hash(images, i)));
                        let k = choose|k: i64| #[trigger] cur.contains_key(k) && cur[k].hash
                            == sample_hash(images, i);
                        assert(u.contains_key(k));
                        assert(next[k] == u[k]);
                        assert(next.contains_key(k) && next[k].hash == sample_hash(images, i));
                    } else {
                        assert(u.contains_key(id));
                        assert(next[id] == u[id]);
                        assert(next.contains_key(id) && next[id].hash == sample_hash(images, i));
                    }
                }
            },
        }
    }
}

proof fn lemma_seed_prefix_ok(
    images: Seq<SeedImage>,
    stamp0: i64,
    states: Seq<Map<i64, ClipView>>,
    j: int,
)
    requires
        seed_run(Map::empty(), images, stamp0, states),
        0 <= j < states.len(),
        j <= 200,
        forall|i: int| 0 <= i < j ==> #[trigger] seed_step_fits(images, i, stamp0),
    ensures
        seed_prefix_ok(images, stamp0, states[j], j),
    decreases j,
{
    if j == 0 {
        assert(states[0].dom() =~= Set::<i64>::empty());
    } else {
        lemma_seed_prefix_ok(images, stamp0, states, j - 1);
        assert(seed_step_fits(images, j - 1, stamp0));
        lemma_seed_step_ok(images, stamp0, states[j - 1], states[j], j - 1);
    }
}

/// A complete seed of an empty history with at most 200 samples, every step
/// of which fit in time, leaves the history holding every sample that has
/// content (and no more clips than samples); so seeding again then adds
/// nothing: the ids stay and every clip keeps all but its last use time.
pub proof fn law_seeding_twice_adds_nothing(
    images: Seq<SeedImage>,
    stamp0: i64,
    states: Seq<Map<i64, ClipView>>,
    stamp1: i64,
    again: Seq<Map<i64, ClipView>>,
)
    requires
        seed_run(Map::empty(), images, stamp0, states),
        states.len() == SEED_TEXT_COUNT + images.len() + 1,
        SEED_TEXT_COUNT + images.len() <= 200,
        forall|i: int|
            0 <= i < SEED_TEXT_COUNT + images.len() ==> #[trigger] seed_step_fits(images, i, stamp0),
        seed_run(states.last(), images, stamp1, again),
        again.len() <= SEED_TEXT_COUNT + images.len() + 1,
    ensures
        holds_samples(states.last(), images),
        states.last().dom().finite(),
        states.last().len() <= SEED_TEXT_COUNT + images.len(),
        only_uses_change(states.last(), again.last()),
{
    let n = SEED_TEXT_COUNT + images.len();
    let t = states.last();
    lemma_seed_prefix_ok(images, stamp0, states, n as int);
    assert(states[n as int] == t);
    assert forall|i: int|
        0 <= i < SEED_TEXT_COUNT + images.len() && !seed_payload_empty(images, i) implies (#[trigger] hash_owner(
        t,
        seed_new(images, i, 0).hash,
    )) is Some by {
        assert(has_hash(t, sample_hash(images, i)));
        lemma_owner_exists(t, sample_hash(images, i));
    }
    law_seeding_again_adds_nothing(t, images, stamp1, again);
}

/// The row `c` is kept by the filter that `expired_paths` (when `expired`)
/// or `paths_of` applies, with image path `p`.
spec fn path_row(c: ClipView, stamp: int, expired: bool, p: Seq<char>) -> bool {
    (expired ==> is_expired(c, stamp)) && c.image_path == Some(p)
}

spec fn filtered_paths(rows: Seq<ClipView>, stamp: int, expired: bool) -> Seq<Seq<char>> {
    if expired {
        expired_paths(rows, stamp)
    } else {
        paths_of(rows)
    }
}

proof fn lemma_filtered_paths(rows: Seq<ClipView>, stamp: int, expired: bool, p: Seq<char>)
    ensures
        filtered_paths(rows, stamp, expired).contains(p) <==> exists|i: int|
            0 <= i < rows.len() && #[trigger] path_row(rows[i], stamp, expired, p),
    decreases rows.len(),
{
    if rows.len() > 0 {
        let init = rows.drop_last();
        let last = rows.last();
        lemma_filtered_paths(init, stamp, expired, p);
        let s0 = filtered_paths(init, stamp, expired);
        let s = filtered_paths(rows, stamp, expired);
        let n = rows.len() - 1;
        assert(rows[n] == last);
        let keeps = (expired ==> is_expired(last, stamp)) && last.image_path is Some;
        if keeps {
            assert(s == s0.push(last.image_path.unwrap()));
        } else {
            assert(s == s0);
        }
        if s.contains(p) {
            let j = choose|j: int| 0 <= j < s.len() && s[j] == p;
            if j < s0.len() {
                assert(s0[j] == p);
                assert(s0.contains(p));
                let i = choose|i: int| 0 <= i < init.len() && #[trigger] path_row(init[i], stamp, expired, p);
                assert(init[i] == rows[i]);
                assert(path_row(rows[i], stamp, expired, p));
            } else {
                assert(keeps && p == last.image_path.unwrap());
                assert(path_row(rows[n], stamp, expired, p));
            }
        }
        if exists|i: int| 0 <= i < rows.len() && #[trigger] path_row(rows[i], stamp, expired, p) {
            let i = choose|i: int| 0 <= i < rows.len() && #[trigger] path_row(rows[i], stamp, expired, p);
            if i < n {
                assert(init[i] == rows[i]);
                assert(path_row(init[i], stamp, expired, p));
                assert(s0.contains(p));
                let j = choose|j: int| 0 <= j < s0.len() && s0[j] == p;
                assert(s[j] == p);
            } else {
                assert(keeps);
                assert(s[s0.len() as int] == p);
            }
        }
    }
}

/// A clip of `t` that a prune took out.
pub open spec fn pruned(t: Map<i64, ClipView>, after: Map<i64, ClipView>, k: i64) -> bool {
    t.contains_key(k) && !after.contains_key(k)
}

/// `p` is the image path of a clip that a prune took out.
pub open spec fn image_of_pruned(t: Map<i64, ClipView>, after: Map<i64, ClipView>, p: Seq<char>) -> bool {
    exists|k: i64| #[trigger] pruned(t, after, k) && t[k].image_path == Some(p)
}

/// The paths a prune returns are exactly the image paths of the clips it
/// removed, whether they expired or went to keep the history under the cap:
/// every removed clip's image path is returned, so its file can be deleted,
/// and every returned path belongs to a removed clip.
pub proof fn law_prune_returns_every_removed_image(
    t: Map<i64, ClipView>,
    max_items: int,
    stamp: int,
    after: Map<i64, ClipView>,
    paths: Seq<Seq<char>>,
)
    requires
        prune_outcome(t, max_items, stamp, after, paths),
    ensures
        forall|k: i64, p: Seq<char>|
            #[trigger] pruned(t, after, k) && t[k].image_path == Some(p) ==> #[trigger] paths.contains(p),
        forall|j: int| 0 <= j < paths.len() ==> #[trigger] image_of_pruned(t, after, paths[j]),
{
    let (rows, remove) = choose|rows: Seq<ClipView>, remove: Seq<i64>|
        #![trigger rows_match(rows, t), is_prune_plan(rows, max_items, stamp, remove, paths)]
        {
            &&& rows_match(rows, t)
            &&& is_prune_plan(rows, max_items, stamp, remove, paths)
            &&& after == t.remove_keys(remove.to_set())
        };
    let order = choose|order: Seq<ClipView>|
        {
            &&& is_prune_order(rows, stamp, order)
            &&& #[trigger] overflow_count(order.len() as int, max_items) >= 0
            &&& remove == expired_ids(rows, stamp) + ids_of(
                order.take(overflow_count(order.len() as int, max_items)),
            )
            &&& paths == expired_paths(rows, stamp) + paths_of(
                order.take(overflow_count(order.len() as int, max_items)),
            )
        };
    lemma_prune_order_ids(rows, t, stamp, order);
    let m = order.len() as int;
    let k = overflow_count(m, max_items);
    assert(0 <= k <= m);
    lemma_removed_keys(rows, t, stamp, order, k, remove);
    let ex = expired_paths(rows, stamp);
    let ov = paths_of(order.take(k));
    let gone = ids_of(order.take(k));
    assert forall|x: i64, p: Seq<char>|
        #[trigger] pruned(t, after, x) && t[x].image_path == Some(p) implies #[trigger] paths.contains(
        p,
    ) by {
        assert(remove.to_set().contains(x));
        lemma_filtered_paths(rows, stamp, true, p);
        lemma_filtered_paths(order.take(k), stamp, false, p);
        if is_expired(t[x], stamp) {
            let i = choose|i: int| #![trigger rows[i]] 0 <= i < rows.len() && rows[i].id == x;
            assert(t[rows[i].id] == rows[i]);
            assert(path_row(rows[i], stamp, true, p));
            assert(ex.contains(p));
            let j = choose|j: int| 0 <= j < ex.len() && ex[j] == p;
            assert(paths[j] == p);
        } else {
            assert(gone.contains(x));
            let q = choose|q: int| 0 <= q < gone.len() && gone[q] == x;
            assert(order.take(k)[q] == order[q]);
            assert(order[q].id == x);
            assert(t[order[q].id] == order[q]);
            assert(path_row(order.take(k)[q], stamp, false, p));
            assert(ov.contains(p));
            let j = choose|j: int| 0 <= j < ov.len() && ov[j] == p;
            assert(paths[ex.len() + j] == p);
        }
    }
    assert forall|j: int| 0 <= j < paths.len() implies #[trigger] image_of_pruned(t, after, paths[j]) by {
        let p = paths[j];
        lemma_filtered_paths(rows, stamp, true, p);
        lemma_filtered_paths(order.take(k), stamp, false, p);
        if j < ex.len() {
            assert(ex[j] == p);
            assert(ex.contains(p));
            let i = choose|i: int| 0 <= i < rows.len() && #[trigger] path_row(rows[i], stamp, true, p);
            let x = rows[i].id;
            assert(t.contains_key(x) && t[x] == rows[i]);
            assert(remove.to_set().contains(x));
            assert(pruned(t, after, x));
            assert(t[x].image_path == Some(p));
        } else {
            assert(ov[j - ex.len()] == p);
            assert(ov.contains(p));
            let q = choose|q: int|
                0 <= q < order.take(k).len() && #[trigger] path_row(order.take(k)[q], stamp, false, p);
            assert(order.take(k)[q] == order[q]);
            let x = order[q].id;
            assert(t.contains_key(x) && t[x] == order[q]);
            assert(gone[q] == x);
            assert(gone.contains(x));
            assert(remove.to_set().contains(x));
            assert(pruned(t, after, x));
            assert(t[x].image_path == Some(p));
        }
    }
}

} // verus!
