//! What holds of every scan, proved over the model.

use vstd::prelude::*;
use crate::model::{
    CommitView, DeltaView, RecordView, ResultView, absorb_commit, absorb_deltas, absorb_history,
    admits, counts, files_under, first_latest, observe, outcome, scan_map,
};

verus! {

proof fn lemma_files_under_step(ds: Seq<DeltaView>, p: Seq<u8>)
    requires
        ds.len() > 0,
    ensures
        files_under(ds, p) <==> (files_under(ds.drop_last(), p) || ds.last().key() == Some(p)),
{
    let dl = ds.drop_last();
    if files_under(ds, p) {
        let k = choose|k: int| 0 <= k < ds.len() && (#[trigger] ds[k]).key() == Some(p);
        if k < ds.len() - 1 {
            assert(dl[k].key() == Some(p));
        }
    }
    if files_under(dl, p) {
        let k = choose|k: int| 0 <= k < dl.len() && (#[trigger] dl[k]).key() == Some(p);
        assert(ds[k].key() == Some(p));
    }
    if ds.last().key() == Some(p) {
        assert(ds[ds.len() - 1].key() == Some(p));
    }
}

/// What a run of deltas does to one path: a single observation if one of
/// them is filed under it and it passes the filter, else nothing.
pub proof fn lemma_absorb_deltas_at(
    m: Map<Seq<u8>, RecordView>,
    ds: Seq<DeltaView>,
    stamp: RecordView,
    filter: Option<Seq<u8>>,
    p: Seq<u8>,
)
    ensures
        absorb_deltas(m, ds, stamp, filter).get(p) == (if admits(filter, p) && files_under(ds, p) {
            observe(m, p, stamp).get(p)
        } else {
            m.get(p)
        }),
    decreases ds.len(),
{
    if ds.len() > 0 {
        lemma_absorb_deltas_at(m, ds.drop_last(), stamp, filter, p);
        lemma_files_under_step(ds, p);
    }
}

/// What one commit does to one path: a single observation under the commit's
/// stamp if the commit contributes to the path, else nothing.
pub proof fn lemma_absorb_commit_at(
    m: Map<Seq<u8>, RecordView>,
    c: CommitView,
    filter: Option<Seq<u8>>,
    p: Seq<u8>,
)
    ensures
        absorb_commit(m, c, filter).get(p) == (if admits(filter, p) && c.touches(p) {
            observe(m, p, c.stamp()).get(p)
        } else {
            m.get(p)
        }),
{
    lemma_absorb_deltas_at(m, c.deltas, c.stamp(), filter, p);
}

/// Absorbing two histories one after the other is absorbing them joined.
pub proof fn lemma_absorb_concat(
    m: Map<Seq<u8>, RecordView>,
    a: Seq<CommitView>,
    b: Seq<CommitView>,
    filter: Option<Seq<u8>>,
)
    ensures
        absorb_history(m, a + b, filter) == absorb_history(absorb_history(m, a, filter), b, filter),
    decreases b.len(),
{
    if b.len() == 0 {
        assert(a + b =~= a);
    } else {
        lemma_absorb_concat(m, a, b.drop_last(), filter);
        assert((a + b).drop_last() =~= a + b.drop_last());
        assert((a + b).last() == b.last());
    }
}

/// What a history does to one path, whatever the records it starts from: the
/// record never gets older; it ends at least as new as every contributing
/// commit; and it is either the record it started with or the whole stamp of
/// a contributing commit that is strictly newer than the start and than every
/// contributing commit before it.
pub proof fn lemma_absorb_history_at(
    m: Map<Seq<u8>, RecordView>,
    h: Seq<CommitView>,
    filter: Option<Seq<u8>>,
    p: Seq<u8>,
)
    ensures
        ({
            let r = absorb_history(m, h, filter).get(p);
            &&& m.get(p) is Some ==> r is Some && r->0.timestamp >= m[p].timestamp
            &&& forall|i: int| counts(h, filter, p, i) ==> r is Some && r->0.timestamp >= h[i].timestamp
            &&& r is Some ==> r == m.get(p) || exists|i: int|
                {
                    &&& #[trigger] counts(h, filter, p, i)
                    &&& h[i].stamp() == r->0
                    &&& m.get(p) is Some ==> m[p].timestamp < h[i].timestamp
                    &&& forall|j: int|
                        counts(h, filter, p, j) && j < i ==> h[j].timestamp < h[i].timestamp
                }
        }),
    decreases h.len(),
{
    if h.len() > 0 {
        let h0 = h.drop_last();
        let c = h.last();
        let last = h.len() - 1;
        lemma_absorb_history_at(m, h0, filter, p);
        let m0 = absorb_history(m, h0, filter);
        lemma_absorb_commit_at(m0, c, filter, p);
        let r = absorb_history(m, h, filter).get(p);
        assert forall|i: int| counts(h, filter, p, i) implies r is Some && r->0.timestamp
            >= h[i].timestamp by {
            if i < last {
                assert(counts(h0, filter, p, i));
            }
        }
        if r is Some && r != m.get(p) {
            if r == m0.get(p) {
                let i = choose|i: int|
                    {
                        &&& #[trigger] counts(h0, filter, p, i)
                        &&& h0[i].stamp() == r->0
                        &&& m.get(p) is Some ==> m[p].timestamp < h0[i].timestamp
                        &&& forall|j: int|
                            counts(h0, filter, p, j) && j < i ==> h0[j].timestamp < h0[i].timestamp
                    };
                assert(counts(h, filter, p, i));
                assert forall|j: int| counts(h, filter, p, j) && j < i implies h[j].timestamp
                    < h[i].timestamp by {
                    assert(counts(h0, filter, p, j));
                }
            } else {
                assert(counts(h, filter, p, last));
                assert(h[last].stamp() == r->0);
                assert forall|j: int| counts(h, filter, p, j) && j < last implies h[j].timestamp
                    < h[last].timestamp by {
                    assert(counts(h0, filter, p, j));
                }
            }
        }
    }
}

/// Latest wins. After a scan of `h`, a path has a record exactly when some
/// commit of `h` contributes to it. The record's timestamp is then the
/// greatest among the contributing commits, and the record is the whole stamp
/// of the first commit, in walk order, that has that timestamp.
pub proof fn law_latest_wins(h: Seq<CommitView>, filter: Option<Seq<u8>>, p: Seq<u8>)
    ensures
        scan_map(h, filter).dom().contains(p) <==> exists|i: int| counts(h, filter, p, i),
        scan_map(h, filter).dom().contains(p) ==> exists|i: int|
            #[trigger] first_latest(h, filter, p, i) && scan_map(h, filter)[p] == h[i].stamp(),
{
    let m = Map::<Seq<u8>, RecordView>::empty();
    lemma_absorb_history_at(m, h, filter, p);
    let r = scan_map(h, filter).get(p);
    if r is Some {
        let i = choose|i: int|
            {
                &&& #[trigger] counts(h, filter, p, i)
                &&& h[i].stamp() == r->0
                &&& m.get(p) is Some ==> m[p].timestamp < h[i].timestamp
                &&& forall|j: int|
                    counts(h, filter, p, j) && j < i ==> h[j].timestamp < h[i].timestamp
            };
        assert(first_latest(h, filter, p, i));
    }
}

/// The skip rule. A commit without exactly one parent changes no record,
/// whatever it touches.
pub proof fn law_skipped_commit_changes_nothing(
    m: Map<Seq<u8>, RecordView>,
    c: CommitView,
    filter: Option<Seq<u8>>,
)
    requires
        c.parents != 1,
    ensures
        absorb_commit(m, c, filter) == m,
{
}

/// The skip rule, over a whole history. Taking a commit without exactly one
/// parent out of a history, wherever it stands, leaves the scan's result as
/// it was.
pub proof fn law_skipped_commit_is_inert(
    before: Seq<CommitView>,
    c: CommitView,
    after: Seq<CommitView>,
    filter: Option<Seq<u8>>,
)
    requires
        c.parents != 1,
    ensures
        scan_map(before.push(c) + after, filter) == scan_map(before + after, filter),
        outcome(before.push(c) + after, filter) == outcome(before + after, filter),
{
    let m = Map::<Seq<u8>, RecordView>::empty();
    lemma_absorb_concat(m, before.push(c), after, filter);
    lemma_absorb_concat(m, before, after, filter);
    assert(before.push(c).drop_last() =~= before);
}

proof fn lemma_filtered_at(h: Seq<CommitView>, p: Seq<u8>, q: Seq<u8>)
    ensures
        scan_map(h, Some(p)).get(q) == (if q == p {
            scan_map(h, None).get(p)
        } else {
            None
        }),
    decreases h.len(),
{
    if h.len() > 0 {
        lemma_filtered_at(h.drop_last(), p, q);
        lemma_absorb_commit_at(scan_map(h.drop_last(), Some(p)), h.last(), Some(p), q);
        lemma_absorb_commit_at(scan_map(h.drop_last(), None), h.last(), None, p);
    }
}

/// The filter is a restriction. A scan for the single path `p` gathers what
/// the whole-tree scan gathers, cut down to the key `p`; its answer is the
/// whole-tree record of `p`, or none where the whole-tree scan has none.
pub proof fn law_filter_restricts(h: Seq<CommitView>, p: Seq<u8>)
    ensures
        scan_map(h, Some(p)) == scan_map(h, None).restrict(set![p]),
        outcome(h, Some(p)) == ResultView::File(scan_map(h, None).get(p)),
        outcome(h, None) == ResultView::Tree(scan_map(h, None)),
{
    let a = scan_map(h, Some(p));
    let b = scan_map(h, None).restrict(set![p]);
    assert forall|q: Seq<u8>| a.get(q) == b.get(q) by {
        lemma_filtered_at(h, p, q);
    }
    assert forall|q: Seq<u8>| a.dom().contains(q) <==> b.dom().contains(q) by {
        assert(a.get(q) == b.get(q));
    }
    assert forall|q: Seq<u8>| a.dom().contains(q) implies a[q] == b[q] by {
        assert(a.get(q) == b.get(q));
    }
    assert(a =~= b);
    lemma_filtered_at(h, p, p);
}

/// Time and commit move together. At every point of a walk over `h`, after
/// any number `n` of its commits, the record of a path is the identifier,
/// timestamp and summary of one and the same commit among those `n`, and
/// that commit contributes to the path.
pub proof fn law_record_is_one_commit(
    h: Seq<CommitView>,
    filter: Option<Seq<u8>>,
    n: int,
    p: Seq<u8>,
)
    requires
        0 <= n <= h.len(),
        scan_map(h.take(n), filter).dom().contains(p),
    ensures
        exists|i: int|
            {
                &&& 0 <= i < n
                &&& #[trigger] counts(h, filter, p, i)
                &&& scan_map(h.take(n), filter)[p].commit == h[i].id
                &&& scan_map(h.take(n), filter)[p].timestamp == h[i].timestamp
                &&& scan_map(h.take(n), filter)[p].summary == h[i].summary
            },
{
    let hn = h.take(n);
    law_latest_wins(hn, filter, p);
    let i = choose|i: int|
        #[trigger] first_latest(hn, filter, p, i) && scan_map(hn, filter)[p] == hn[i].stamp();
    assert(counts(hn, filter, p, i));
    assert(counts(h, filter, p, i));
}

proof fn lemma_saturated(m: Map<Seq<u8>, RecordView>, h: Seq<CommitView>, filter: Option<Seq<u8>>)
    requires
        forall|i: int, p: Seq<u8>| #[trigger]
            counts(h, filter, p, i) ==> m.get(p) is Some && m[p].timestamp >= h[i].timestamp,
    ensures
        absorb_history(m, h, filter) == m,
    decreases h.len(),
{
    if h.len() > 0 {
        let h0 = h.drop_last();
        let last = h.len() - 1;
        assert forall|i: int, p: Seq<u8>| #[trigger] counts(h0, filter, p, i) implies m.get(p)
            is Some && m[p].timestamp >= h0[i].timestamp by {
            assert(counts(h, filter, p, i));
        }
        lemma_saturated(m, h0, filter);
        let a = absorb_commit(m, h.last(), filter);
        assert forall|q: Seq<u8>| a.get(q) == m.get(q) by {
            lemma_absorb_commit_at(m, h.last(), filter, q);
            if admits(filter, q) && h.last().touches(q) {
                assert(counts(h, filter, q, last));
            }
        }
        assert forall|q: Seq<u8>| a.dom().contains(q) <==> m.dom().contains(q) by {
            assert(a.get(q) == m.get(q));
        }
        assert forall|q: Seq<u8>| a.dom().contains(q) implies a[q] == m[q] by {
            assert(a.get(q) == m.get(q));
        }
        assert(a =~= m);
    }
}

/// Scanning again changes nothing. Records that already hold a history are
/// left exactly as they are when the same history is absorbed once more.
pub proof fn law_replay_changes_nothing(
    m: Map<Seq<u8>, RecordView>,
    h: Seq<CommitView>,
    filter: Option<Seq<u8>>,
)
    ensures
        absorb_history(absorb_history(m, h, filter), h, filter) == absorb_history(m, h, filter),
        scan_map(h + h, filter) == scan_map(h, filter),
{
    let r = absorb_history(m, h, filter);
    assert forall|i: int, p: Seq<u8>| #[trigger] counts(h, filter, p, i) implies r.get(p) is Some
        && r[p].timestamp >= h[i].timestamp by {
        lemma_absorb_history_at(m, h, filter, p);
    }
    lemma_saturated(r, h, filter);
    let e = Map::<Seq<u8>, RecordView>::empty();
    let re = absorb_history(e, h, filter);
    assert forall|i: int, p: Seq<u8>| #[trigger] counts(h, filter, p, i) implies re.get(p) is Some
        && re[p].timestamp >= h[i].timestamp by {
        lemma_absorb_history_at(e, h, filter, p);
    }
    lemma_saturated(re, h, filter);
    lemma_absorb_concat(e, h, h, filter);
}

proof fn lemma_times_bounded(
    h1: Seq<CommitView>,
    h2: Seq<CommitView>,
    filter: Option<Seq<u8>>,
    p: Seq<u8>,
)
    requires
        forall|c: CommitView| h1.contains(c) ==> h2.contains(c),
        scan_map(h1, filter).dom().contains(p),
    ensures
        scan_map(h2, filter).dom().contains(p),
        scan_map(h1, filter)[p].timestamp <= scan_map(h2, filter)[p].timestamp,
{
    law_latest_wins(h1, filter, p);
    law_latest_wins(h2, filter, p);
    let i = choose|i: int|
        #[trigger] first_latest(h1, filter, p, i) && scan_map(h1, filter)[p] == h1[i].stamp();
    assert(h1.contains(h1[i]));
    let j = choose|j: int| 0 <= j < h2.len() && h2[j] == h1[i];
    assert(counts(h2, filter, p, j));
    let k = choose|k: int|
        #[trigger] first_latest(h2, filter, p, k) && scan_map(h2, filter)[p] == h2[k].stamp();
    assert(h2[j].timestamp <= h2[k].timestamp);
}

/// The walk order does not change the times. Two histories that hold the
/// same commits, in whatever order, give records to the same paths and the
/// same timestamp to each of them. Only among commits with equal timestamps
/// does the order decide which one the record names.
pub proof fn law_order_leaves_times(
    h1: Seq<CommitView>,
    h2: Seq<CommitView>,
    filter: Option<Seq<u8>>,
    p: Seq<u8>,
)
    requires
        forall|c: CommitView| h1.contains(c) <==> h2.contains(c),
    ensures
        scan_map(h1, filter).dom().contains(p) <==> scan_map(h2, filter).dom().contains(p),
        scan_map(h1, filter).dom().contains(p) ==> scan_map(h1, filter)[p].timestamp == scan_map(
            h2,
            filter,
        )[p].timestamp,
{
    if scan_map(h1, filter).dom().contains(p) {
        lemma_times_bounded(h1, h2, filter, p);
    }
    if scan_map(h2, filter).dom().contains(p) {
        lemma_times_bounded(h2, h1, filter, p);
    }
}

/// The result is a function of the history. Two histories that hold the same
/// commits in the same order, scanned under the same filter, give the same
/// result.
pub proof fn law_same_history_same_outcome(
    h1: Seq<CommitView>,
    h2: Seq<CommitView>,
    filter: Option<Seq<u8>>,
)
    requires
        h1.len() == h2.len(),
        forall|i: int| 0 <= i < h1.len() ==> h1[i] == h2[i],
    ensures
        outcome(h1, filter) == outcome(h2, filter),
{
    assert(h1 =~= h2);
}

} // verus!
