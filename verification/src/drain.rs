use vstd::prelude::*;

use crate::record::Quote;
use crate::seen::SeenTracker;

verus! {

/// Whether some record in `s` carries `id`.
pub open spec fn has_id(s: Seq<Quote>, id: i64) -> bool {
    exists|i: int| 0 <= i < s.len() && s[i].id == id
}

/// The set of ids occurring in a sequence of records.
pub open spec fn id_set(s: Seq<Quote>) -> Set<i64> {
    Set::new(|id: i64| has_id(s, id))
}

/// A batch is strictly ascending by id, and therefore free of duplicate ids.
pub open spec fn strictly_ascending(s: Seq<Quote>) -> bool {
    forall|i: int, j: int| 0 <= i < j < s.len() ==> s[i].id < s[j].id
}

/// What a correct drain batch is, for a store snapshot and the set of ids
/// seen before the drain: the batch is strictly ascending by id; every batch
/// record is a snapshot record whose id had not been seen; and every
/// snapshot id that had not been seen appears in the batch.
pub open spec fn drain_batch_ok(snapshot: Seq<Quote>, seen: Set<i64>, out: Seq<Quote>) -> bool {
    &&& strictly_ascending(out)
    &&& forall|i: int|
        0 <= i < out.len() ==> snapshot.contains(#[trigger] out[i]) && !seen.contains(out[i].id)
    &&& forall|id: i64| #[trigger] has_id(snapshot, id) && !seen.contains(id) ==> has_id(out, id)
}

/// Extending a prefix by one record adds exactly that record's id.
pub proof fn lemma_id_set_take_step(s: Seq<Quote>, k: int)
    requires
        0 <= k < s.len(),
    ensures
        id_set(s.subrange(0, k + 1)) == id_set(s.subrange(0, k)).insert(s[k].id),
{
    let a = s.subrange(0, k);
    let b = s.subrange(0, k + 1);
    assert forall|id: i64| id_set(b).contains(id) implies id_set(a).insert(s[k].id).contains(
        id,
    ) by {
        let i = choose|i: int| 0 <= i < b.len() && b[i].id == id;
        if i < k {
            assert(a[i].id == id);
        }
    }
    assert forall|id: i64| id_set(a).insert(s[k].id).contains(id) implies id_set(b).contains(
        id,
    ) by {
        if id_set(a).contains(id) {
            let i = choose|i: int| 0 <= i < a.len() && a[i].id == id;
            assert(b[i].id == id);
        } else {
            assert(b[k].id == id);
        }
    }
    assert(id_set(b) =~= id_set(a).insert(s[k].id));
}

/// Shortening a suffix at the front removes at most the front record's id.
pub proof fn lemma_id_set_suffix_step(s: Seq<Quote>, k: int)
    requires
        0 <= k < s.len(),
    ensures
        id_set(s.subrange(k, s.len() as int)) == id_set(s.subrange(k + 1, s.len() as int)).insert(
            s[k].id,
        ),
{
    let a = s.subrange(k + 1, s.len() as int);
    let b = s.subrange(k, s.len() as int);
    assert forall|id: i64| id_set(b).contains(id) implies id_set(a).insert(s[k].id).contains(
        id,
    ) by {
        let i = choose|i: int| 0 <= i < b.len() && b[i].id == id;
        if i > 0 {
            assert(a[i - 1].id == id);
        }
    }
    assert forall|id: i64| id_set(a).insert(s[k].id).contains(id) implies id_set(b).contains(
        id,
    ) by {
        if id_set(a).contains(id) {
            let i = choose|i: int| 0 <= i < a.len() && a[i].id == id;
            assert(b[i + 1].id == id);
        } else {
            assert(b[0].id == id);
        }
    }
    assert(id_set(b) =~= id_set(a).insert(s[k].id));
}

/// Insert `q` into a batch kept strictly ascending by id, at its id's place.
fn insert_sorted(out: &mut Vec<Quote>, q: Quote)
    requires
        strictly_ascending(old(out)@),
        forall|i: int| 0 <= i < old(out)@.len() ==> (#[trigger] old(out)@[i]).id != q.id,
    ensures
        strictly_ascending(final(out)@),
        final(out)@.contains(q),
        forall|x: Quote| old(out)@.contains(x) ==> #[trigger] final(out)@.contains(x),
        forall|i: int|
            0 <= i < final(out)@.len() ==> #[trigger] final(out)@[i] == q || old(out)@.contains(
                final(out)@[i],
            ),
{
    let ghost out0 = out@;
    let n_out = out.len();
    let mut pos: usize = 0;
    while pos < n_out && out[pos].id < q.id
        invariant
            pos <= n_out,
            n_out == out@.len(),
            out@ == out0,
            forall|i: int| 0 <= i < pos ==> out@[i].id < q.id,
        decreases n_out - pos,
    {
        pos += 1;
    }
    proof {
        assert forall|i: int| pos <= i < out0.len() implies out0[i].id > q.id by {
            if i > pos {
                assert(out0[pos as int].id < out0[i].id);
            }
            assert(out0[i].id != q.id);
        }
    }
    out.insert(pos, q);
    proof {
        out0.insert_ensures(pos as int, q);
        assert forall|i: int, j: int| 0 <= i < j < out@.len() implies out@[i].id < out@[j].id by {
            if j < pos {
                assert(out@[i] == out0[i] && out@[j] == out0[j]);
            } else if i < pos && j == pos {
                assert(out@[i] == out0[i] && out@[j] == q);
            } else if i == pos {
                assert(out@[j] == out0[j - 1] && pos <= j - 1 < out0.len());
            } else if i > pos {
                assert(out@[i] == out0[i - 1] && out@[j] == out0[j - 1]);
            } else {
                assert(i < pos && j > pos);
                assert(out@[i] == out0[i] && out@[j] == out0[j - 1] && pos <= j - 1);
            }
        }
        assert(out@[pos as int] == q);
        assert(out@.contains(q));
        assert forall|x: Quote| out0.contains(x) implies out@.contains(x) by {
            let i = choose|i: int| 0 <= i < out0.len() && out0[i] == x;
            if i < pos {
                assert(out@[i] == x);
            } else {
                assert(out@[i + 1] == x);
            }
        }
        assert forall|i: int| 0 <= i < out@.len() implies out@[i] == q || out0.contains(
            out@[i],
        ) by {
            if i < pos {
                assert(out@[i] == out0[i]);
            } else if i > pos {
                assert(out@[i] == out0[i - 1]);
            }
        }
    }
}

/// One drain step against an already-fetched snapshot.
///
/// Moves every genuinely new record of `snapshot` into the returned batch,
/// in strictly ascending id order, and merges the whole snapshot's id set
/// into `seen`. The deterministic ascending order is imposed here because
/// the underlying set difference has none.
pub fn drain_into(seen: &mut SeenTracker, snapshot: Vec<Quote>) -> (out: Vec<Quote>)
    ensures
        drain_batch_ok(snapshot@, old(seen)@, out@),
        final(seen)@ == old(seen)@.union(id_set(snapshot@)),
        old(seen)@.subset_of(final(seen)@),
{
    let ghost orig = snapshot@;
    let mut rest = snapshot;
    let mut out: Vec<Quote> = Vec::new();
    proof {
        assert(rest@ =~= orig.subrange(0, rest@.len() as int));
        assert(seen@ =~= old(seen)@.union(
            id_set(orig.subrange(rest@.len() as int, orig.len() as int)),
        ));
    }
    while rest.len() > 0
        invariant
            rest@.len() <= orig.len(),
            rest@ == orig.subrange(0, rest@.len() as int),
            seen@ == old(seen)@.union(
                id_set(orig.subrange(rest@.len() as int, orig.len() as int)),
            ),
            strictly_ascending(out@),
            forall|i: int|
                0 <= i < out@.len() ==> orig.contains(#[trigger] out@[i]) && !old(
                    seen,
                )@.contains(out@[i].id),
            forall|i: int| 0 <= i < out@.len() ==> seen@.contains(#[trigger] out@[i].id),
            forall|id: i64|
                #[trigger] has_id(orig.subrange(rest@.len() as int, orig.len() as int), id) && !old(
                    seen,
                )@.contains(id) ==> has_id(out@, id),
        decreases rest@.len(),
    {
        let ghost m = rest@.len() as int;
        let ghost processed = orig.subrange(m - 1, orig.len() as int);
        let ghost processed0 = orig.subrange(m, orig.len() as int);
        let q = rest.pop().unwrap();
        proof {
            assert(q == orig[m - 1]);
            lemma_id_set_suffix_step(orig, m - 1);
        }
        let ghost out_prev = out@;
        let qid = q.id;
        let is_new = !seen.contains(qid);
        if is_new {
            proof {
                assert forall|i: int| 0 <= i < out@.len() implies (#[trigger] out@[i]).id
                    != q.id by {
                    assert(seen@.contains(out@[i].id));
                }
            }
            insert_sorted(&mut out, q);
        }
        let ghost seen_mid = seen@;
        seen.observe(qid);
        proof {
            assert(seen@ =~= old(seen)@.union(id_set(processed)));
            assert forall|i: int| 0 <= i < out@.len() implies orig.contains(#[trigger] out@[i])
                && !old(seen)@.contains(out@[i].id) by {
                if is_new {
                    if out@[i] == q {
                        assert(orig[m - 1] == q);
                        assert(!seen_mid.contains(q.id));
                    } else {
                        assert(out_prev.contains(out@[i]));
                        let j = choose|j: int| 0 <= j < out_prev.len() && out_prev[j] == out@[i];
                        assert(orig.contains(out_prev[j]));
                    }
                } else {
                    assert(out@ == out_prev);
                    assert(orig.contains(out_prev[i]));
                }
            }
            assert forall|i: int| 0 <= i < out@.len() implies seen@.contains(
                #[trigger] out@[i].id,
            ) by {
                if is_new {
                    if out@[i] == q {
                        assert(seen@.contains(q.id));
                    } else {
                        assert(out_prev.contains(out@[i]));
                        let j = choose|j: int| 0 <= j < out_prev.len() && out_prev[j] == out@[i];
                        assert(seen_mid.contains(out_prev[j].id));
                    }
                } else {
                    assert(out@ == out_prev);
                    assert(seen_mid.contains(out_prev[i].id));
                }
            }
            assert forall|id: i64|
                #[trigger] has_id(processed, id) && !old(seen)@.contains(id) implies has_id(
                out@,
                id,
            ) by {
                if id == q.id {
                    if is_new {
                        assert(out@.contains(q));
                        let i = choose|i: int| 0 <= i < out@.len() && out@[i] == q;
                        assert(out@[i].id == id);
                    } else {
                        assert(seen_mid.contains(q.id));
                        assert(id_set(processed0).contains(q.id));
                        assert(has_id(processed0, id));
                        assert(has_id(out_prev, id));
                        assert(out@ == out_prev);
                    }
                } else {
                    assert(id_set(processed).contains(id));
                    assert(id_set(processed0).insert(q.id).contains(id));
                    assert(has_id(processed0, id));
                    assert(has_id(out_prev, id));
                    let i = choose|i: int| 0 <= i < out_prev.len() && out_prev[i].id == id;
                    assert(out@.contains(out_prev[i]));
                    let j = choose|j: int| 0 <= j < out@.len() && out@[j] == out_prev[i];
                    assert(out@[j].id == id);
                }
            }
            assert(rest@ =~= orig.subrange(0, rest@.len() as int));
        }
    }
    proof {
        assert(orig.subrange(0, orig.len() as int) =~= orig);
        assert(orig.subrange(0, 0) =~= rest@);
    }
    out
}

} // verus!
