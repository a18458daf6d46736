//! Properties of the cache and of message handling, stated over the same
//! spec functions that the operations' contracts use.
use vstd::prelude::*;
use crate::cache::{
    CacheModel,
    MarkerView,
    delete_spec,
    expire_spec,
    has_key,
    key_index,
    lemma_key_index,
    lemma_lookup_delete,
    lemma_lookup_empty,
    lemma_lookup_upsert,
    lemma_unique_preserved,
    lines_of,
    lookup,
    next_gen,
    unique_keys,
    upsert_spec,
};
use crate::dispatch::{Action, MarkerUpdate, action_spec, expiry_spec, update_spec};
use crate::shape::Segment;

verus! {

/// One mutation of the cache, as `add_marker`, `delete_marker` and `clear` make it.
pub enum CacheOp<P> {
    Upsert(Seq<char>, i32, Seq<Segment<P>>),
    Delete(Seq<char>, i32),
    Clear,
}

pub open spec fn apply_op<P>(s: CacheModel<P>, op: CacheOp<P>) -> CacheModel<P> {
    match op {
        CacheOp::Upsert(ns, id, lines) => CacheModel {
            markers: upsert_spec(s.markers, ns, id, lines, s.next_generation),
            next_generation: next_gen(s.next_generation),
        },
        CacheOp::Delete(ns, id) => CacheModel {
            markers: delete_spec(s.markers, ns, id),
            next_generation: s.next_generation,
        },
        CacheOp::Clear => CacheModel {
            markers: Seq::<MarkerView<P>>::empty(),
            next_generation: s.next_generation,
        },
    }
}

pub open spec fn apply_ops<P>(s: CacheModel<P>, ops: Seq<CacheOp<P>>) -> CacheModel<P>
    decreases ops.len(),
{
    if ops.len() == 0 {
        s
    } else {
        apply_op(apply_ops(s, ops.drop_last()), ops.last())
    }
}

/// The segments last stored under (`ns`, `id`) by `ops`, unless a later
/// delete of that key or a clear came after them.
pub open spec fn last_write<P>(ops: Seq<CacheOp<P>>, ns: Seq<char>, id: i32) -> Option<
    Seq<Segment<P>>,
>
    decreases ops.len(),
{
    if ops.len() == 0 {
        None
    } else {
        match ops.last() {
            CacheOp::Upsert(n, i, lines) => if n == ns && i == id {
                Some(lines)
            } else {
                last_write(ops.drop_last(), ns, id)
            },
            CacheOp::Delete(n, i) => if n == ns && i == id {
                None
            } else {
                last_write(ops.drop_last(), ns, id)
            },
            CacheOp::Clear => None,
        }
    }
}

/// After any sequence of stores, deletes and clears on an empty cache, the
/// cache holds exactly the keys whose last write was a store, each with the
/// segments of that store, once; the snapshot is the concatenation of those
/// entries' segments.
pub proof fn lemma_snapshot_after_ops<P>(start: u64, ops: Seq<CacheOp<P>>)
    ensures
        ({
            let m = apply_ops(
                CacheModel { markers: Seq::<MarkerView<P>>::empty(), next_generation: start },
                ops,
            ).markers;
            &&& unique_keys(m)
            &&& forall|ns: Seq<char>, id: i32| #[trigger]
                lookup(m, ns, id) == last_write(ops, ns, id)
            &&& forall|i: int|
                0 <= i < m.len() ==> last_write(ops, m[i].ns, m[i].id) == Some(
                    #[trigger] m[i].lines,
                )
        }),
    decreases ops.len(),
{
    let s0 = CacheModel { markers: Seq::<MarkerView<P>>::empty(), next_generation: start };
    let m = apply_ops(s0, ops).markers;
    if ops.len() == 0 {
        assert forall|ns: Seq<char>, id: i32| #[trigger]
            lookup(m, ns, id) == last_write(ops, ns, id) by {
            lemma_lookup_empty::<P>(ns, id);
        }
    } else {
        lemma_snapshot_after_ops(start, ops.drop_last());
        let prev = apply_ops(s0, ops.drop_last());
        let pm = prev.markers;
        match ops.last() {
            CacheOp::Upsert(n, k, lines) => {
                lemma_unique_preserved(pm, n, k, lines, prev.next_generation);
                assert forall|ns: Seq<char>, id: i32| #[trigger]
                    lookup(m, ns, id) == last_write(ops, ns, id) by {
                    lemma_lookup_upsert(pm, n, k, lines, prev.next_generation, ns, id);
                }
            },
            CacheOp::Delete(n, k) => {
                lemma_unique_preserved(pm, n, k, Seq::empty(), 0);
                assert forall|ns: Seq<char>, id: i32| #[trigger]
                    lookup(m, ns, id) == last_write(ops, ns, id) by {
                    lemma_lookup_delete(pm, n, k, ns, id);
                }
            },
            CacheOp::Clear => {
                assert forall|ns: Seq<char>, id: i32| #[trigger]
                    lookup(m, ns, id) == last_write(ops, ns, id) by {
                    lemma_lookup_empty::<P>(ns, id);
                }
            },
        }
    }
    assert forall|i: int| 0 <= i < m.len() implies last_write(ops, m[i].ns, m[i].id) == Some(
        #[trigger] m[i].lines,
    ) by {
        lemma_key_index(m, m[i].ns, m[i].id);
        assert(has_key(m, i, m[i].ns, m[i].id));
        assert(lookup(m, m[i].ns, m[i].id) == last_write(ops, m[i].ns, m[i].id));
    }
}

/// Storing under a key that is already present keeps the number of entries
/// and replaces that key's segments with the new ones.
pub proof fn lemma_upsert_twice<P>(
    m: Seq<MarkerView<P>>,
    ns: Seq<char>,
    id: i32,
    first: Seq<Segment<P>>,
    second: Seq<Segment<P>>,
    g1: u64,
    g2: u64,
)
    requires
        unique_keys(m),
    ensures
        ({
            let m1 = upsert_spec(m, ns, id, first, g1);
            let m2 = upsert_spec(m1, ns, id, second, g2);
            &&& m2.len() == m1.len()
            &&& lookup(m2, ns, id) == Some(second)
            &&& forall|ns2: Seq<char>, id2: i32|
                !(ns2 == ns && id2 == id) ==> #[trigger] lookup(m2, ns2, id2) == lookup(m, ns2, id2)
        }),
{
    let m1 = upsert_spec(m, ns, id, first, g1);
    lemma_unique_preserved(m, ns, id, first, g1);
    lemma_lookup_upsert(m, ns, id, first, g1, ns, id);
    lemma_key_index(m1, ns, id);
    lemma_lookup_upsert(m1, ns, id, second, g2, ns, id);
    assert forall|ns2: Seq<char>, id2: i32|
        !(ns2 == ns && id2 == id) implies #[trigger] lookup(
        upsert_spec(m1, ns, id, second, g2),
        ns2,
        id2,
    ) == lookup(m, ns2, id2) by {
        lemma_lookup_upsert(m, ns, id, first, g1, ns2, id2);
        lemma_lookup_upsert(m1, ns, id, second, g2, ns2, id2);
    }
}

/// Deleting a key that is not stored changes nothing, the snapshot included.
pub proof fn lemma_delete_absent<P>(m: Seq<MarkerView<P>>, ns: Seq<char>, id: i32)
    requires
        unique_keys(m),
        lookup(m, ns, id) is None,
    ensures
        delete_spec(m, ns, id) == m,
        lines_of(delete_spec(m, ns, id)) == lines_of(m),
{
    lemma_key_index(m, ns, id);
}

/// After a clear, the snapshot is empty, whatever the cache held.
pub proof fn lemma_clear_empties<P>(s: CacheModel<P>)
    ensures
        lines_of(apply_op(s, CacheOp::Clear).markers).len() == 0,
{
}

/// A message whose transform could not be found leaves the cache, and so
/// its snapshot, as it was, and schedules nothing.
pub proof fn lemma_lookup_failure_keeps_cache<P>(s: CacheModel<P>, u: MarkerUpdate<P>)
    requires
        u.placed is None,
    ensures
        update_spec(s, u) == s,
        lines_of(update_spec(s, u).markers) == lines_of(s.markers),
        expiry_spec(s, u) is None,
{
}

/// A marker stored with a lifetime and deleted before that lifetime ends:
/// the removal scheduled for it, when it comes, changes nothing.
pub proof fn lemma_expiry_after_delete<P>(s: CacheModel<P>, add: MarkerUpdate<P>, del: MarkerUpdate<P>)
    requires
        unique_keys(s.markers),
        expiry_spec(s, add) is Some,
        del.placed is Some,
        action_spec(del.action) == Action::Delete,
        del.ns@ == add.ns@,
        del.id == add.id,
    ensures
        ({
            let e = expiry_spec(s, add).unwrap();
            let after = update_spec(update_spec(s, add), del).markers;
            expire_spec(after, e.ns, e.id, e.generation) == after
        }),
{
    let s1 = update_spec(s, add);
    let shape = add.placed.unwrap();
    let lines = crate::shape::shape_spec(shape, add.color);
    lemma_unique_preserved(s.markers, add.ns@, add.id, lines, s.next_generation);
    lemma_unique_preserved(s1.markers, add.ns@, add.id, Seq::empty(), 0);
    lemma_lookup_delete(s1.markers, add.ns@, add.id, add.ns@, add.id);
    let after = update_spec(s1, del).markers;
    lemma_key_index(after, add.ns@, add.id);
}

/// A marker stored with a lifetime and stored again under the same key
/// before that lifetime ends: the removal scheduled for the first version
/// leaves the second one in place.
pub proof fn lemma_expiry_after_refresh<P>(s: CacheModel<P>, first: MarkerUpdate<P>, second: MarkerUpdate<P>)
    requires
        unique_keys(s.markers),
        expiry_spec(s, first) is Some,
        second.placed is Some,
        action_spec(second.action) == Action::Add,
        second.ns@ == first.ns@,
        second.id == first.id,
    ensures
        ({
            let e = expiry_spec(s, first).unwrap();
            let after = update_spec(update_spec(s, first), second).markers;
            &&& expire_spec(after, e.ns, e.id, e.generation) == after
            &&& lookup(after, e.ns, e.id) == Some(
                crate::shape::shape_spec(second.placed.unwrap(), second.color),
            )
        }),
{
    let s1 = update_spec(s, first);
    let l1 = crate::shape::shape_spec(first.placed.unwrap(), first.color);
    let l2 = crate::shape::shape_spec(second.placed.unwrap(), second.color);
    lemma_unique_preserved(s.markers, first.ns@, first.id, l1, s.next_generation);
    lemma_unique_preserved(s1.markers, first.ns@, first.id, l2, s1.next_generation);
    lemma_lookup_upsert(s1.markers, first.ns@, first.id, l2, s1.next_generation, first.ns@, first.id);
    lemma_lookup_upsert(s.markers, first.ns@, first.id, l1, s.next_generation, first.ns@, first.id);
    lemma_key_index(s1.markers, first.ns@, first.id);
    let k1 = key_index(s1.markers, first.ns@, first.id);
    assert(k1 >= 0);
    let after = update_spec(s1, second).markers;
    assert(has_key(after, k1, first.ns@, first.id));
    lemma_key_index(after, first.ns@, first.id);
    assert(after[k1].generation == s1.next_generation);
    assert(s1.next_generation == next_gen(s.next_generation));
}

} // verus!
