//! The mathematical model: what a history is, and what a scan of it yields.

use vstd::prelude::*;

verus! {

/// What is remembered of a path: the time of its latest change and the commit
/// that made it. The three fields always come from one and the same commit.
pub struct RecordView {
    pub timestamp: int,
    pub commit: Seq<char>,
    pub summary: Seq<char>,
}

/// One changed path between a commit and its parent. Either side may be
/// missing: the newer side when the file was removed, the older side when it
/// was created.
pub struct DeltaView {
    pub new_path: Option<Seq<u8>>,
    pub old_path: Option<Seq<u8>>,
}

impl DeltaView {
    /// The path a change is filed under: the newer side's path where there is
    /// one, else the older side's. A change with neither has no key and is
    /// passed over.
    pub open spec fn key(self) -> Option<Seq<u8>> {
        if self.new_path is Some {
            self.new_path
        } else {
            self.old_path
        }
    }
}

/// Whether one of the deltas `ds` is filed under `path`.
pub open spec fn files_under(ds: Seq<DeltaView>, path: Seq<u8>) -> bool {
    exists|k: int| 0 <= k < ds.len() && (#[trigger] ds[k]).key() == Some(path)
}

/// A commit as the scan reads it.
pub struct CommitView {
    pub id: Seq<char>,
    pub timestamp: int,
    pub summary: Seq<char>,
    pub parents: nat,
    pub deltas: Seq<DeltaView>,
}

impl CommitView {
    /// Only a commit with exactly one parent contributes.
    pub open spec fn qualifies(self) -> bool {
        self.parents == 1
    }

    /// The record this commit leaves on a path when it wins.
    pub open spec fn stamp(self) -> RecordView {
        RecordView { timestamp: self.timestamp, commit: self.id, summary: self.summary }
    }

    /// Whether one of the commit's deltas is filed under `path`.
    pub open spec fn changes(self, path: Seq<u8>) -> bool {
        files_under(self.deltas, path)
    }

    /// Whether the commit contributes to `path`.
    pub open spec fn touches(self, path: Seq<u8>) -> bool {
        self.qualifies() && self.changes(path)
    }
}

/// Whether `path` passes the optional single-path filter.
pub open spec fn admits(filter: Option<Seq<u8>>, path: Seq<u8>) -> bool {
    filter is None || filter == Some(path)
}

/// One observation: `path` was changed by the commit behind `stamp`. The
/// record is replaced, whole, when the path is new or the stamp is strictly
/// newer; otherwise nothing changes.
pub open spec fn observe(
    m: Map<Seq<u8>, RecordView>,
    path: Seq<u8>,
    stamp: RecordView,
) -> Map<Seq<u8>, RecordView> {
    if m.dom().contains(path) && m[path].timestamp >= stamp.timestamp {
        m
    } else {
        m.insert(path, stamp)
    }
}

/// The effect of one delta of a commit with the given stamp.
pub open spec fn absorb_delta(
    m: Map<Seq<u8>, RecordView>,
    d: DeltaView,
    stamp: RecordView,
    filter: Option<Seq<u8>>,
) -> Map<Seq<u8>, RecordView> {
    match d.key() {
        Some(p) => if admits(filter, p) {
            observe(m, p, stamp)
        } else {
            m
        },
        None => m,
    }
}

/// The effect of a run of deltas of one commit, taken in order.
pub open spec fn absorb_deltas(
    m: Map<Seq<u8>, RecordView>,
    ds: Seq<DeltaView>,
    stamp: RecordView,
    filter: Option<Seq<u8>>,
) -> Map<Seq<u8>, RecordView>
    decreases ds.len(),
{
    if ds.len() == 0 {
        m
    } else {
        absorb_delta(absorb_deltas(m, ds.drop_last(), stamp, filter), ds.last(), stamp, filter)
    }
}

/// The effect of one commit: nothing unless it qualifies.
pub open spec fn absorb_commit(
    m: Map<Seq<u8>, RecordView>,
    c: CommitView,
    filter: Option<Seq<u8>>,
) -> Map<Seq<u8>, RecordView> {
    if c.qualifies() {
        absorb_deltas(m, c.deltas, c.stamp(), filter)
    } else {
        m
    }
}

/// The effect of a history, commit by commit in walk order.
pub open spec fn absorb_history(
    m: Map<Seq<u8>, RecordView>,
    h: Seq<CommitView>,
    filter: Option<Seq<u8>>,
) -> Map<Seq<u8>, RecordView>
    decreases h.len(),
{
    if h.len() == 0 {
        m
    } else {
        absorb_commit(absorb_history(m, h.drop_last(), filter), h.last(), filter)
    }
}

/// The records a scan of `h` ends with, starting from nothing.
pub open spec fn scan_map(h: Seq<CommitView>, filter: Option<Seq<u8>>) -> Map<
    Seq<u8>,
    RecordView,
> {
    absorb_history(Map::empty(), h, filter)
}

/// Whether commit `i` of `h` contributes to `path` under `filter`.
pub open spec fn counts(h: Seq<CommitView>, filter: Option<Seq<u8>>, path: Seq<u8>, i: int) -> bool {
    0 <= i < h.len() && admits(filter, path) && h[i].touches(path)
}

/// Whether commit `i` of `h` is the first, in walk order, among those that
/// contribute to `path` with the greatest timestamp.
pub open spec fn first_latest(
    h: Seq<CommitView>,
    filter: Option<Seq<u8>>,
    path: Seq<u8>,
    i: int,
) -> bool {
    &&& counts(h, filter, path, i)
    &&& forall|j: int| counts(h, filter, path, j) ==> h[j].timestamp <= h[i].timestamp
    &&& forall|j: int| counts(h, filter, path, j) && j < i ==> h[j].timestamp < h[i].timestamp
}

/// What a scan hands back: every record, or the record of the one path asked
/// for, if it has one.
pub enum ResultView {
    Tree(Map<Seq<u8>, RecordView>),
    File(Option<RecordView>),
}

/// The result of scanning `h`, for the whole tree or for one path.
pub open spec fn outcome(h: Seq<CommitView>, filter: Option<Seq<u8>>) -> ResultView {
    match filter {
        None => ResultView::Tree(scan_map(h, filter)),
        Some(p) => ResultView::File(scan_map(h, filter).get(p)),
    }
}

} // verus!
