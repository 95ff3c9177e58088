//! The plain data a scan works on: records, deltas and commits.

use vstd::prelude::*;
use crate::model::{RecordView, DeltaView, CommitView};

verus! {

/// Whether two byte strings hold the same bytes.
pub fn same_bytes(a: &Vec<u8>, b: &Vec<u8>) -> (r: bool)
    ensures
        r == (a@ == b@),
{
    if a.len() != b.len() {
        return false;
    }
    let mut i: usize = 0;
    while i < a.len()
        invariant
            a.len() == b.len(),
            i <= a.len(),
            forall|j: int| 0 <= j < i ==> a@[j] == b@[j],
        decreases a.len() - i,
    {
        if a[i] != b[i] {
            return false;
        }
        i = i + 1;
    }
    assert(a@ =~= b@);
    true
}

/// A fresh copy of a byte string.
pub fn copy_bytes(a: &Vec<u8>) -> (r: Vec<u8>)
    ensures
        r@ == a@,
{
    let mut r: Vec<u8> = Vec::new();
    let mut i: usize = 0;
    while i < a.len()
        invariant
            i <= a.len(),
            r@ == a@.take(i as int),
        decreases a.len() - i,
    {
        r.push(a[i]);
        assert(a@.take(i + 1) =~= a@.take(i as int).push(a@[i as int]));
        i = i + 1;
    }
    assert(a@.take(a.len() as int) =~= a@);
    r
}

/// The latest change known of a path.
#[derive(Debug, PartialEq, Eq)]
pub struct PathRecord {
    /// Commit time in seconds since the epoch.
    pub timestamp: i64,
    /// The commit's identifier, as text.
    pub commit: String,
    /// The first line of the commit's message.
    pub summary: String,
}

impl View for PathRecord {
    type V = RecordView;

    open spec fn view(&self) -> RecordView {
        RecordView { timestamp: self.timestamp as int, commit: self.commit@, summary: self.summary@ }
    }
}

impl Clone for PathRecord {
    fn clone(&self) -> (r: Self)
        ensures
            r@ == self@,
    {
        PathRecord {
            timestamp: self.timestamp,
            commit: self.commit.clone(),
            summary: self.summary.clone(),
        }
    }
}

/// One changed path between a commit and its parent, as read from a diff.
#[derive(Debug)]
pub struct Delta {
    /// The path on the commit's side, if the file is there.
    pub new_path: Option<Vec<u8>>,
    /// The path on the parent's side, if the file was there.
    pub old_path: Option<Vec<u8>>,
}

impl View for Delta {
    type V = DeltaView;

    open spec fn view(&self) -> DeltaView {
        DeltaView {
            new_path: match self.new_path {
                Some(p) => Some(p@),
                None => None,
            },
            old_path: match self.old_path {
                Some(p) => Some(p@),
                None => None,
            },
        }
    }
}

impl Delta {
    /// The path this change is filed under: the newer side's, else the older
    /// side's, else none.
    pub fn key(&self) -> (r: Option<&Vec<u8>>)
        ensures
            match r {
                Some(p) => self@.key() == Some(p@),
                None => self@.key() is None,
            },
    {
        match &self.new_path {
            Some(p) => Some(p),
            None => match &self.old_path {
                Some(q) => Some(q),
                None => None,
            },
        }
    }
}

/// The model of a list of deltas, in the same order.
pub open spec fn deltas_view(ds: Seq<Delta>) -> Seq<DeltaView> {
    Seq::new(ds.len(), |i: int| ds[i]@)
}

/// A commit as the scan reads it: identity, time, summary, number of parents
/// and the paths that differ from its parent.
#[derive(Debug)]
pub struct CommitInfo {
    pub id: String,
    pub timestamp: i64,
    pub summary: String,
    pub parent_count: usize,
    pub deltas: Vec<Delta>,
}

impl View for CommitInfo {
    type V = CommitView;

    open spec fn view(&self) -> CommitView {
        CommitView {
            id: self.id@,
            timestamp: self.timestamp as int,
            summary: self.summary@,
            parents: self.parent_count as nat,
            deltas: deltas_view(self.deltas@),
        }
    }
}

/// Whether a commit with `parent_count` parents contributes to a scan.
pub fn has_single_parent(parent_count: usize) -> (r: bool)
    ensures
        r == (parent_count == 1),
{
    parent_count == 1
}

impl CommitInfo {
    /// Whether this commit contributes to a scan: it has exactly one parent.
    pub fn qualifies(&self) -> (r: bool)
        ensures
            r == self@.qualifies(),
    {
        has_single_parent(self.parent_count)
    }

    /// The record this commit leaves on a path when it wins.
    pub fn stamp(&self) -> (r: PathRecord)
        ensures
            r@ == self@.stamp(),
    {
        PathRecord {
            timestamp: self.timestamp,
            commit: self.id.clone(),
            summary: self.summary.clone(),
        }
    }
}

/// The model of a list of commits, in the same order.
pub open spec fn history_view(h: Seq<CommitInfo>) -> Seq<CommitView> {
    Seq::new(h.len(), |i: int| h[i]@)
}

} // verus!
