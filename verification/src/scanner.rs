//! The scan itself: commits go in one by one, the latest change of each path
//! comes out.

use vstd::prelude::*;
use crate::model::{RecordView, ResultView, absorb_commit, absorb_deltas, outcome, scan_map};
use crate::record::{CommitInfo, PathRecord, history_view, same_bytes};
use crate::table::PathTable;

verus! {

/// What a scan hands back.
#[derive(Debug)]
pub enum ResultSet {
    /// Whole-tree mode: the record of every path that a counted commit changed.
    Tree(PathTable),
    /// Single-path mode: the record of the path asked for, or `None` when no
    /// counted commit changed it.
    File(Option<PathRecord>),
}

impl ResultSet {
    /// A table inside a result keeps its invariant.
    pub open spec fn wf(&self) -> bool {
        match self {
            ResultSet::Tree(t) => t.wf(),
            ResultSet::File(_) => true,
        }
    }
}

impl View for ResultSet {
    type V = ResultView;

    open spec fn view(&self) -> ResultView {
        match self {
            ResultSet::Tree(t) => ResultView::Tree(t@),
            ResultSet::File(found) => ResultView::File(found_view(*found)),
        }
    }
}

/// The model of an optional record.
pub open spec fn found_view(found: Option<PathRecord>) -> Option<RecordView> {
    match found {
        Some(r) => Some(r@),
        None => None,
    }
}

/// The model of an optional path.
pub open spec fn filter_view(target: Option<Vec<u8>>) -> Option<Seq<u8>> {
    match target {
        Some(p) => Some(p@),
        None => None,
    }
}

/// The record that stands for "no history found" in the flat form of a
/// single-path answer: empty identifier, empty summary, time zero.
pub open spec fn sentinel() -> RecordView {
    RecordView { timestamp: 0, commit: Seq::empty(), summary: Seq::empty() }
}

/// The flat form of an optional record: the record itself, or the sentinel
/// where there is none.
pub open spec fn or_sentinel_view(found: Option<RecordView>) -> RecordView {
    match found {
        Some(r) => r,
        None => sentinel(),
    }
}

/// The record that a flat answer of identifier, summary and time spells out.
pub open spec fn flat_view(t: (String, String, i64)) -> RecordView {
    RecordView { timestamp: t.2 as int, commit: t.0@, summary: t.1@ }
}

/// A scan in progress: an optional single-path filter and the records
/// gathered so far.
#[derive(Debug)]
pub struct HistoryScanner {
    target: Option<Vec<u8>>,
    table: PathTable,
}

impl HistoryScanner {
    /// The scanner's invariant.
    pub closed spec fn wf(&self) -> bool {
        self.table.wf()
    }

    /// The single path the scan is limited to, if any.
    pub closed spec fn filter(&self) -> Option<Seq<u8>> {
        filter_view(self.target)
    }

    /// The records gathered so far.
    pub closed spec fn records(&self) -> Map<Seq<u8>, RecordView> {
        self.table@
    }

    /// A scanner that has seen nothing, for the whole tree (`None`) or for
    /// one path.
    pub fn new(target: Option<Vec<u8>>) -> (s: Self)
        ensures
            s.wf(),
            s.filter() == filter_view(target),
            s.records() == Map::<Seq<u8>, RecordView>::empty(),
    {
        HistoryScanner { target, table: PathTable::new() }
    }

    /// Whether `path` passes the filter.
    fn admits(&self, path: &Vec<u8>) -> (r: bool)
        ensures
            r == crate::model::admits(self.filter(), path@),
    {
        match &self.target {
            Some(t) => same_bytes(t, path),
            None => true,
        }
    }

    /// Takes in one commit. A commit without exactly one parent changes
    /// nothing. Otherwise each of its deltas that has a key and passes the
    /// filter is observed, in order, under the commit's stamp.
    pub fn absorb_commit(&mut self, commit: &CommitInfo)
        requires
            old(self).wf(),
        ensures
            final(self).wf(),
            final(self).filter() == old(self).filter(),
            final(self).records() == absorb_commit(
                old(self).records(),
                commit@,
                old(self).filter(),
            ),
    {
        if !commit.qualifies() {
            return;
        }
        let stamp = commit.stamp();
        let ghost start = self.records();
        let ghost ds = commit@.deltas;
        let mut i: usize = 0;
        while i < commit.deltas.len()
            invariant
                i <= commit.deltas@.len(),
                ds == commit@.deltas,
                ds.len() == commit.deltas@.len(),
                stamp@ == commit@.stamp(),
                self.wf(),
                self.filter() == old(self).filter(),
                self.records() == absorb_deltas(start, ds.take(i as int), stamp@, self.filter()),
            decreases commit.deltas@.len() - i,
        {
            proof {
                assert(ds.take(i + 1).drop_last() =~= ds.take(i as int));
                assert(ds.take(i + 1).last() == commit.deltas@[i as int]@);
            }
            match commit.deltas[i].key() {
                Some(p) => {
                    if self.admits(p) {
                        self.table.observe(p, &stamp);
                    }
                },
                None => {},
            }
            i = i + 1;
        }
        proof {
            assert(ds.take(ds.len() as int) =~= ds);
        }
    }

    /// The record gathered so far for `path`, if there is one.
    pub fn record_of(&self, path: &Vec<u8>) -> (r: Option<PathRecord>)
        requires
            self.wf(),
        ensures
            found_view(r) == self.records().get(path@),
    {
        match self.table.get(path) {
            Some(rec) => Some(rec.clone()),
            None => None,
        }
    }

    /// Ends the scan. Whole-tree mode hands back every record; single-path
    /// mode hands back the record of the path asked for, or `None`.
    pub fn finish(self) -> (r: ResultSet)
        requires
            self.wf(),
        ensures
            r.wf(),
            r@ == match self.filter() {
                None => ResultView::Tree(self.records()),
                Some(p) => ResultView::File(self.records().get(p)),
            },
    {
        match &self.target {
            None => ResultSet::Tree(self.table),
            Some(p) => ResultSet::File(self.record_of(p)),
        }
    }
}

/// Scans a history that is already in memory, in the order given: the whole
/// tree when `target` is `None`, else the one path.
pub fn aggregate(history: &Vec<CommitInfo>, target: Option<Vec<u8>>) -> (r: ResultSet)
    ensures
        r.wf(),
        r@ == outcome(history_view(history@), filter_view(target)),
{
    let ghost h = history_view(history@);
    let mut scanner = HistoryScanner::new(target);
    let mut i: usize = 0;
    while i < history.len()
        invariant
            i <= history@.len(),
            h == history_view(history@),
            scanner.wf(),
            scanner.filter() == filter_view(target),
            scanner.records() == scan_map(h.take(i as int), filter_view(target)),
        decreases history@.len() - i,
    {
        proof {
            assert(h.take(i + 1).drop_last() =~= h.take(i as int));
            assert(h.take(i + 1).last() == history@[i as int]@);
        }
        scanner.absorb_commit(&history[i]);
        i = i + 1;
    }
    proof {
        assert(h.take(h.len() as int) =~= h);
    }
    scanner.finish()
}

/// The flat form of a single-path answer: identifier, summary and time of
/// the record, or three empty values when there is none.
pub fn or_sentinel(found: Option<PathRecord>) -> (r: (String, String, i64))
    ensures
        flat_view(r) == or_sentinel_view(found_view(found)),
{
    match found {
        Some(rec) => (rec.commit, rec.summary, rec.timestamp),
        None => (String::new(), String::new(), 0i64),
    }
}

} // verus!
