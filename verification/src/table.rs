//! The aggregation table: one record per path, in order of first sight.

use vstd::prelude::*;
use crate::model::{RecordView, observe};
use crate::record::{PathRecord, same_bytes, copy_bytes};

verus! {

/// The map that a list of distinct paths and a list of records, side by side,
/// stand for.
pub open spec fn table_map(ps: Seq<Seq<u8>>, rs: Seq<RecordView>) -> Map<Seq<u8>, RecordView> {
    Map::new(|p: Seq<u8>| ps.contains(p), |p: Seq<u8>| rs[ps.index_of(p)])
}

/// In a table without repeated paths, the record beside a path is the one
/// the map gives for it.
pub proof fn lemma_table_lookup(ps: Seq<Seq<u8>>, rs: Seq<RecordView>, i: int)
    requires
        ps.no_duplicates(),
        ps.len() == rs.len(),
        0 <= i < ps.len(),
    ensures
        table_map(ps, rs).dom().contains(ps[i]),
        table_map(ps, rs)[ps[i]] == rs[i],
{
    assert(ps.contains(ps[i]));
    let j = ps.index_of(ps[i]);
    assert(0 <= j < ps.len() && ps[j] == ps[i]);
}

/// Appending an unseen path with its record inserts it into the map.
pub proof fn lemma_table_push(ps: Seq<Seq<u8>>, rs: Seq<RecordView>, p: Seq<u8>, r: RecordView)
    requires
        ps.no_duplicates(),
        ps.len() == rs.len(),
        !ps.contains(p),
    ensures
        ps.push(p).no_duplicates(),
        table_map(ps.push(p), rs.push(r)) == table_map(ps, rs).insert(p, r),
{
    let ps2 = ps.push(p);
    let rs2 = rs.push(r);
    assert forall|i: int, j: int| 0 <= i < ps2.len() && 0 <= j < ps2.len() && i != j implies ps2[i]
        != ps2[j] by {
        if i < ps.len() {
            assert(ps.contains(ps[i]));
        }
        if j < ps.len() {
            assert(ps.contains(ps[j]));
        }
    }
    let a = table_map(ps2, rs2);
    let b = table_map(ps, rs).insert(p, r);
    assert forall|q: Seq<u8>| a.dom().contains(q) <==> b.dom().contains(q) by {
        if ps2.contains(q) {
            let i = choose|i: int| 0 <= i < ps2.len() && ps2[i] == q;
            if i < ps.len() {
                assert(ps[i] == q);
            }
        }
        if ps.contains(q) {
            let i = choose|i: int| 0 <= i < ps.len() && ps[i] == q;
            assert(ps2[i] == q);
        }
        if q == p {
            assert(ps2[ps.len() as int] == q);
        }
    }
    assert forall|q: Seq<u8>| a.dom().contains(q) implies a[q] == b[q] by {
        let i = choose|i: int| 0 <= i < ps2.len() && ps2[i] == q;
        lemma_table_lookup(ps2, rs2, i);
        if i < ps.len() {
            assert(ps[i] == q);
            lemma_table_lookup(ps, rs, i);
        }
    }
    assert(a =~= b);
}

/// Replacing the record beside a path replaces it in the map.
pub proof fn lemma_table_update(ps: Seq<Seq<u8>>, rs: Seq<RecordView>, i: int, r: RecordView)
    requires
        ps.no_duplicates(),
        ps.len() == rs.len(),
        0 <= i < ps.len(),
    ensures
        table_map(ps, rs.update(i, r)) == table_map(ps, rs).insert(ps[i], r),
{
    let rs2 = rs.update(i, r);
    let a = table_map(ps, rs2);
    let b = table_map(ps, rs).insert(ps[i], r);
    assert(ps.contains(ps[i]));
    assert forall|q: Seq<u8>| a.dom().contains(q) implies a[q] == b[q] by {
        let j = choose|j: int| 0 <= j < ps.len() && ps[j] == q;
        lemma_table_lookup(ps, rs2, j);
        lemma_table_lookup(ps, rs, j);
    }
    assert(a =~= b);
}

/// Records by path. No path occurs twice, and paths stay in the order in
/// which they were first seen.
#[derive(Debug)]
pub struct PathTable {
    paths: Vec<Vec<u8>>,
    records: Vec<PathRecord>,
}

impl PathTable {
    /// The paths of the table, in order of first sight.
    pub closed spec fn keys(&self) -> Seq<Seq<u8>> {
        Seq::new(self.paths@.len(), |i: int| self.paths@[i]@)
    }

    /// The records of the table, each beside its path.
    pub closed spec fn values(&self) -> Seq<RecordView> {
        Seq::new(self.records@.len(), |i: int| self.records@[i]@)
    }

    /// The table's invariant: a record beside every path, no path twice.
    pub closed spec fn wf(&self) -> bool {
        &&& self.paths@.len() == self.records@.len()
        &&& self.keys().no_duplicates()
    }

    /// How `keys` and `values` relate to the map the table stands for.
    pub proof fn lemma_keys(&self)
        requires
            self.wf(),
        ensures
            self.keys().no_duplicates(),
            self.keys().len() == self.values().len(),
            self@ == table_map(self.keys(), self.values()),
            forall|p: Seq<u8>| self@.dom().contains(p) <==> self.keys().contains(p),
            forall|i: int|
                0 <= i < self.keys().len() ==> self@.get(#[trigger] self.keys()[i]) == Some(
                    self.values()[i],
                ),
    {
        assert forall|i: int| 0 <= i < self.keys().len() implies self@.get(
            #[trigger] self.keys()[i],
        ) == Some(self.values()[i]) by {
            lemma_table_lookup(self.keys(), self.values(), i);
        }
    }

    /// An empty table.
    pub fn new() -> (t: Self)
        ensures
            t.wf(),
            t@ == Map::<Seq<u8>, RecordView>::empty(),
            t.keys().len() == 0,
    {
        let t = PathTable { paths: Vec::new(), records: Vec::new() };
        assert(t@ =~= Map::<Seq<u8>, RecordView>::empty());
        t
    }

    /// The number of paths.
    pub fn len(&self) -> (n: usize)
        requires
            self.wf(),
        ensures
            n == self.keys().len(),
            n == self.values().len(),
    {
        self.paths.len()
    }

    /// Where `path` stands in the table, if it is there.
    pub fn position(&self, path: &Vec<u8>) -> (r: Option<usize>)
        requires
            self.wf(),
        ensures
            match r {
                Some(i) => i < self.keys().len() && self.keys()[i as int] == path@,
                None => !self.keys().contains(path@),
            },
    {
        let mut i: usize = 0;
        while i < self.paths.len()
            invariant
                i <= self.paths@.len(),
                forall|j: int| 0 <= j < i ==> self.keys()[j] != path@,
            decreases self.paths@.len() - i,
        {
            if same_bytes(&self.paths[i], path) {
                return Some(i);
            }
            i = i + 1;
        }
        None
    }

    /// The record of `path`, if it has one.
    pub fn get(&self, path: &Vec<u8>) -> (r: Option<&PathRecord>)
        requires
            self.wf(),
        ensures
            match r {
                Some(rec) => self@.get(path@) == Some(rec@),
                None => self@.get(path@) is None,
            },
    {
        match self.position(path) {
            Some(i) => {
                proof {
                    lemma_table_lookup(self.keys(), self.values(), i as int);
                }
                Some(&self.records[i])
            },
            None => None,
        }
    }

    /// The path at place `i`, in order of first sight.
    pub fn path_at(&self, i: usize) -> (p: &Vec<u8>)
        requires
            self.wf(),
            i < self.keys().len(),
        ensures
            p@ == self.keys()[i as int],
    {
        &self.paths[i]
    }

    /// The record beside the path at place `i`.
    pub fn record_at(&self, i: usize) -> (r: &PathRecord)
        requires
            self.wf(),
            i < self.keys().len(),
        ensures
            r@ == self.values()[i as int],
            self@.get(self.keys()[i as int]) == Some(r@),
    {
        proof {
            self.lemma_keys();
        }
        &self.records[i]
    }

    /// Records that the commit behind `stamp` changed `path`. The record of
    /// `path` becomes `stamp`, whole, when the path is new or `stamp` is
    /// strictly newer than what is there; otherwise the table stays as it is.
    pub fn observe(&mut self, path: &Vec<u8>, stamp: &PathRecord)
        requires
            old(self).wf(),
        ensures
            final(self).wf(),
            final(self)@ == observe(old(self)@, path@, stamp@),
            final(self).keys() == if old(self).keys().contains(path@) {
                old(self).keys()
            } else {
                old(self).keys().push(path@)
            },
    {
        let ghost ps = self.keys();
        let ghost rs = self.values();
        match self.position(path) {
            Some(i) => {
                proof {
                    lemma_table_lookup(ps, rs, i as int);
                }
                if stamp.timestamp > self.records[i].timestamp {
                    self.records.set(i, stamp.clone());
                    proof {
                        assert(self.values() =~= rs.update(i as int, stamp@));
                        assert(self.keys() =~= ps);
                        lemma_table_update(ps, rs, i as int, stamp@);
                    }
                }
            },
            None => {
                self.paths.push(copy_bytes(path));
                self.records.push(stamp.clone());
                proof {
                    assert(self.keys() =~= ps.push(path@));
                    assert(self.values() =~= rs.push(stamp@));
                    lemma_table_push(ps, rs, path@, stamp@);
                }
            },
        }
    }
}

impl View for PathTable {
    type V = Map<Seq<u8>, RecordView>;

    closed spec fn view(&self) -> Map<Seq<u8>, RecordView> {
        table_map(self.keys(), self.values())
    }
}

} // verus!
