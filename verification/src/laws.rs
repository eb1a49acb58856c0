use vstd::prelude::*;

use crate::drain::{drain_batch_ok, has_id, id_set};
use crate::record::Quote;
use crate::wake::{lemma_notify_bounded, notified_k, WakeChannel, WAKE_CAPACITY};

verus! {

/// Exactly-once delivery.
///
/// Take a store whose every record has been seen, and append any records
/// with fresh ids to it. The next drain delivers exactly the appended ids,
/// each exactly once, and a drain after that — of the same store — delivers
/// nothing, so no id delivered once is ever redelivered.
pub proof fn lemma_exactly_once(
    snap: Seq<Quote>,
    appended: Seq<Quote>,
    seen: Set<i64>,
    out: Seq<Quote>,
    later: Seq<Quote>,
)
    requires
        id_set(snap).subset_of(seen),
        forall|id: i64| #[trigger] id_set(appended).contains(id) ==> !seen.contains(id),
        drain_batch_ok(snap + appended, seen, out),
        drain_batch_ok(snap + appended, seen.union(id_set(out)), later),
    ensures
        id_set(out) == id_set(appended),
        forall|i: int, j: int| 0 <= i < j < out.len() ==> out[i].id != out[j].id,
        later == Seq::<Quote>::empty(),
{
    let whole = snap + appended;
    assert forall|id: i64| id_set(out).contains(id) implies id_set(appended).contains(id) by {
        let i = choose|i: int| 0 <= i < out.len() && out[i].id == id;
        assert(whole.contains(out[i]));
        let k = choose|k: int| 0 <= k < whole.len() && whole[k] == out[i];
        if k < snap.len() {
            assert(snap[k].id == id);
            assert(id_set(snap).contains(id));
        } else {
            assert(appended[k - snap.len()].id == id);
        }
    }
    assert forall|id: i64| id_set(appended).contains(id) implies id_set(out).contains(id) by {
        let i = choose|i: int| 0 <= i < appended.len() && appended[i].id == id;
        assert(whole[snap.len() + i].id == id);
        assert(has_id(whole, id));
        assert(has_id(out, id));
    }
    assert(id_set(out) =~= id_set(appended));
    if later.len() > 0 {
        let q = later[0];
        assert(whole.contains(q));
        assert(!seen.union(id_set(out)).contains(q.id));
        let k = choose|k: int| 0 <= k < whole.len() && whole[k] == q;
        if k < snap.len() {
            assert(snap[k].id == q.id);
            assert(id_set(snap).contains(q.id));
        } else {
            assert(appended[k - snap.len()].id == q.id);
            assert(id_set(appended).contains(q.id));
        }
        assert(false);
    }
    assert(later =~= Seq::<Quote>::empty());
}

/// Idempotent empty drain: a drain that finds nothing new delivers nothing
/// and leaves the seen set unchanged.
pub proof fn lemma_empty_drain(snap: Seq<Quote>, seen: Set<i64>, out: Seq<Quote>)
    requires
        id_set(snap).subset_of(seen),
        drain_batch_ok(snap, seen, out),
    ensures
        out == Seq::<Quote>::empty(),
        seen.union(id_set(snap)) == seen,
{
    if out.len() > 0 {
        let q = out[0];
        assert(snap.contains(q));
        let k = choose|k: int| 0 <= k < snap.len() && snap[k] == q;
        assert(snap[k].id == q.id);
        assert(id_set(snap).contains(q.id));
        assert(false);
    }
    assert(out =~= Seq::<Quote>::empty());
    assert(seen.union(id_set(snap)) =~= seen);
}

/// Coalescing: any number of wake signals pushed while a drain is in flight
/// (or while signals are already pending) leave at most the channel's
/// capacity pending, and cause at most one further drain that delivers
/// anything — a drain after a re-synchronizing drain of the same store
/// delivers nothing.
pub proof fn lemma_coalescing(
    w: WakeChannel,
    k: nat,
    snap: Seq<Quote>,
    seen: Set<i64>,
    out: Seq<Quote>,
    later: Seq<Quote>,
)
    requires
        w.wf(),
        drain_batch_ok(snap, seen, out),
        drain_batch_ok(snap, seen.union(id_set(out)), later),
    ensures
        notified_k(w, k).wf(),
        notified_k(w, k).pending <= WAKE_CAPACITY,
        later == Seq::<Quote>::empty(),
{
    lemma_notify_bounded(w, k);
    if later.len() > 0 {
        let q = later[0];
        assert(snap.contains(q));
        assert(!seen.union(id_set(out)).contains(q.id));
        let i = choose|i: int| 0 <= i < snap.len() && snap[i] == q;
        assert(snap[i].id == q.id);
        assert(has_id(snap, q.id));
        if seen.contains(q.id) {
            assert(false);
        } else {
            assert(has_id(out, q.id));
            assert(id_set(out).contains(q.id));
            assert(false);
        }
    }
    assert(later =~= Seq::<Quote>::empty());
}

} // verus!
