//! Scanning a repository on disk: the walk from the head, commit by commit,
//! with every call into `git2` kept behind a small unproved function.

use vstd::prelude::*;
use git2::{Commit, Diff, Error, Oid, Repository, Revwalk, Tree};
use crate::model::{CommitView, DeltaView, outcome, scan_map};
use crate::record::{CommitInfo, Delta, copy_bytes, deltas_view, has_single_parent};
use crate::scanner::{
    HistoryScanner, ResultSet, filter_view, flat_view, or_sentinel, or_sentinel_view,
};

verus! {

/// `git2::Repository`, an open repository. Opaque: it is only handed on.
#[verifier::external_type_specification]
#[verifier::external_body]
pub struct ExRepository(Repository);

/// `git2::Revwalk`, a walk over commits. Opaque: it is only handed on.
#[verifier::external_type_specification]
#[verifier::external_body]
pub struct ExRevwalk<'repo>(Revwalk<'repo>);

/// `git2::Commit`, a commit read from a repository. Opaque: it is only handed on.
#[verifier::external_type_specification]
#[verifier::external_body]
pub struct ExCommit<'repo>(Commit<'repo>);

/// `git2::Tree`, the file hierarchy of a commit. Opaque: it is only handed on.
#[verifier::external_type_specification]
#[verifier::external_body]
pub struct ExTree<'repo>(Tree<'repo>);

/// `git2::Diff`, the differences between two trees. Opaque: it is only handed on.
#[verifier::external_type_specification]
#[verifier::external_body]
pub struct ExDiff<'repo>(Diff<'repo>);

/// `git2::Oid`, the identifier of an object. Opaque: it is only handed on.
#[verifier::external_type_specification]
#[verifier::external_body]
pub struct ExOid(Oid);

/// `git2::Error`, what a failed call gives. Opaque: only its text is read.
#[verifier::external_type_specification]
#[verifier::external_body]
pub struct ExError(Error);

/// Which step of a scan failed.
#[derive(Clone, Copy, Debug, PartialEq, Eq, Structural)]
pub enum ErrorKind {
    /// The repository could not be opened or found.
    RepositoryAccess,
    /// The head does not resolve to a commit to start from.
    ReferenceResolution,
    /// The walk could not be set up or could not advance.
    Traversal,
    /// An identifier did not resolve to a commit.
    CommitLookup,
    /// A tree could not be read or two trees could not be compared.
    DiffComputation,
}

/// A failed scan: the step that failed and the repository's own words.
/// Every failure ends the scan; there are no partial results.
#[derive(Debug)]
pub struct ScanError {
    pub kind: ErrorKind,
    pub message: String,
}

impl ScanError {
    /// The text to show for this error.
    pub fn description(&self) -> (s: String)
        ensures
            s@ == self.message@,
    {
        self.message.clone()
    }
}

/// `Repository::revwalk`: a new walk over the repository's commits, or the
/// repository's error. Nothing is claimed of the walk.
#[verifier::external_body]
fn start_walk<'r>(repo: &'r Repository) -> (r: Result<Revwalk<'r>, Error>) {
    repo.revwalk()
}

/// `Revwalk::set_sorting` with `Sort::TIME`: asks for commits by commit time.
/// Nothing is claimed of the walk afterwards.
#[verifier::external_body]
fn sort_by_time(walk: &mut Revwalk<'_>) -> (r: Result<(), Error>) {
    walk.set_sorting(git2::Sort::TIME)
}

/// `Revwalk::push_head`: makes the repository's head the start of the walk.
/// Nothing is claimed of the walk afterwards.
#[verifier::external_body]
fn push_head(walk: &mut Revwalk<'_>) -> (r: Result<(), Error>) {
    walk.push_head()
}

/// `Revwalk`'s `Iterator::next`, called until the walk ends or fails: the
/// identifiers in the order the walk gave them, or the first error. Nothing
/// is claimed of the identifiers.
#[verifier::external_body]
fn drain_walk(walk: Revwalk<'_>) -> (r: Result<Vec<Oid>, Error>) {
    walk.collect()
}

/// `Repository::find_commit`: the commit with the given identifier, or the
/// repository's error. Nothing is claimed of the commit.
#[verifier::external_body]
fn find_commit<'r>(repo: &'r Repository, id: &Oid) -> (r: Result<Commit<'r>, Error>) {
    repo.find_commit(*id)
}

/// `Commit::parent_count`: the number of the commit's parents.
#[verifier::external_body]
fn parent_count(commit: &Commit<'_>) -> (n: usize) {
    commit.parent_count()
}

/// `Commit::parent` at index 0: the commit's first parent, or an error where
/// it has none or the parent cannot be read.
#[verifier::external_body]
fn first_parent<'r>(commit: &Commit<'r>) -> (r: Result<Commit<'r>, Error>) {
    commit.parent(0)
}

/// `Commit::tree`: the tree the commit points to, or the repository's error.
#[verifier::external_body]
fn commit_tree<'r>(commit: &Commit<'r>) -> (r: Result<Tree<'r>, Error>) {
    commit.tree()
}

/// `Repository::diff_tree_to_tree` with default options: the differences from
/// `older` to `newer`, or the repository's error.
#[verifier::external_body]
fn diff_trees<'r>(repo: &'r Repository, older: &Tree<'_>, newer: &Tree<'_>) -> (r: Result<
    Diff<'r>,
    Error,
>) {
    repo.diff_tree_to_tree(Some(older), Some(newer), None)
}

/// What a diff holds: its deltas in its own order, each as the bytes of the
/// path on either side, where that side has one. A diff is a list that is
/// fixed once it has been computed; this names the list, and says nothing of
/// what is in it.
pub uninterp spec fn diff_deltas(diff: &Diff<'_>) -> Seq<DeltaView>;

/// `Diff::deltas` and the length of what it gives: the number of deltas that
/// the diff holds.
#[verifier::external_body]
fn delta_count(diff: &Diff<'_>) -> (n: usize)
    ensures
        n == diff_deltas(diff).len(),
{
    diff.deltas().len()
}

/// `Diff::get_delta`, read with `DiffDelta::new_file`, `DiffDelta::old_file`
/// and `DiffFile::path_bytes`: the delta at place `i` of the diff's list, as
/// the bytes of its two paths; `None` exactly where `i` is past the end of
/// the list.
#[verifier::external_body]
fn delta_at(diff: &Diff<'_>, i: usize) -> (r: Option<Delta>)
    ensures
        match r {
            Some(d) => i < diff_deltas(diff).len() && d@ == diff_deltas(diff)[i as int],
            None => i >= diff_deltas(diff).len(),
        },
{
    diff.get_delta(i).map(|d| Delta {
        new_path: d.new_file().path_bytes().map(|p| p.to_vec()),
        old_path: d.old_file().path_bytes().map(|p| p.to_vec()),
    })
}

/// `Commit::time` and `Time::seconds`: the commit time in seconds since the
/// epoch.
#[verifier::external_body]
fn commit_seconds(commit: &Commit<'_>) -> (t: i64) {
    commit.time().seconds()
}

/// `Commit::id`, written out with `Oid`'s `Display`: the commit's identifier
/// as text. Nothing is claimed of the text.
#[verifier::external_body]
fn commit_hex(commit: &Commit<'_>) -> (s: String) {
    commit.id().to_string()
}

/// `Commit::summary`: the first paragraph of the commit's message, `None`
/// where it has none, or an error where it is not valid UTF-8.
#[verifier::external_body]
fn commit_summary(commit: &Commit<'_>) -> (s: Result<Option<String>, Error>) {
    commit.summary().map(|s| s.map(String::from))
}

/// `Error`'s `Display`: the error's description as text.
#[verifier::external_body]
fn error_text(e: &Error) -> (s: String) {
    e.to_string()
}

/// Files a repository error under the step that failed.
fn fail(kind: ErrorKind, e: &Error) -> (r: ScanError)
    ensures
        r.kind == kind,
{
    ScanError { kind, message: error_text(e) }
}

/// Reads all the deltas of a diff, in the diff's order.
fn read_deltas(diff: &Diff<'_>) -> (r: Vec<Delta>)
    ensures
        deltas_view(r@) == diff_deltas(diff),
{
    let n: usize = delta_count(diff);
    let mut deltas: Vec<Delta> = Vec::new();
    let mut i: usize = 0;
    while i < n
        invariant
            i <= n,
            n == diff_deltas(diff).len(),
            deltas_view(deltas@) == diff_deltas(diff).take(i as int),
        decreases n - i,
    {
        let ghost before = deltas@;
        match delta_at(diff, i) {
            Some(d) => {
                deltas.push(d);
                proof {
                    assert(deltas_view(deltas@) =~= deltas_view(before).push(d@));
                    assert(diff_deltas(diff).take(i + 1) =~= diff_deltas(diff).take(i as int).push(
                        diff_deltas(diff)[i as int],
                    ));
                }
                i = i + 1;
            },
            None => {
                // No place below `n` is past the end of the list.
                i = n;
            },
        }
    }
    proof {
        assert(diff_deltas(diff).take(n as int) =~= diff_deltas(diff));
    }
    deltas
}

/// Reads what the scan needs of a commit that has a parent: its identity,
/// time and summary, and the paths that differ from its first parent. A
/// commit without a readable summary gets an empty one.
fn read_commit(repo: &Repository, commit: &Commit<'_>, parents: usize) -> (r: Result<
    CommitInfo,
    ScanError,
>)
    ensures
        match r {
            Ok(info) => info.parent_count == parents,
            Err(e) => e.kind == ErrorKind::CommitLookup || e.kind == ErrorKind::DiffComputation,
        },
{
    let parent = match first_parent(commit) {
        Ok(p) => p,
        Err(e) => {
            return Err(fail(ErrorKind::CommitLookup, &e));
        },
    };
    let tree = match commit_tree(commit) {
        Ok(t) => t,
        Err(e) => {
            return Err(fail(ErrorKind::DiffComputation, &e));
        },
    };
    let parent_tree = match commit_tree(&parent) {
        Ok(t) => t,
        Err(e) => {
            return Err(fail(ErrorKind::DiffComputation, &e));
        },
    };
    let diff = match diff_trees(repo, &parent_tree, &tree) {
        Ok(d) => d,
        Err(e) => {
            return Err(fail(ErrorKind::DiffComputation, &e));
        },
    };
    let deltas = read_deltas(&diff);
    let summary = match commit_summary(commit) {
        Ok(Some(s)) => s,
        Ok(None) => String::new(),
        Err(_) => String::new(),
    };
    Ok(
        CommitInfo {
            id: commit_hex(commit),
            timestamp: commit_seconds(commit),
            summary,
            parent_count: parents,
            deltas,
        },
    )
}

/// Walks the history reachable from the repository's head, by commit time,
/// and absorbs every commit that has exactly one parent.
fn walk_history(repo: &Repository, target: Option<Vec<u8>>) -> (r: Result<
    HistoryScanner,
    ScanError,
>)
    ensures
        match r {
            Ok(s) => {
                &&& s.wf()
                &&& s.filter() == filter_view(target)
                &&& exists|h: Seq<CommitView>|
                    s.records() == #[trigger] scan_map(h, filter_view(target))
            },
            Err(e) => e.kind != ErrorKind::RepositoryAccess,
        },
{
    let mut walk = match start_walk(repo) {
        Ok(w) => w,
        Err(e) => {
            return Err(fail(ErrorKind::Traversal, &e));
        },
    };
    match sort_by_time(&mut walk) {
        Ok(_) => {},
        Err(e) => {
            return Err(fail(ErrorKind::Traversal, &e));
        },
    }
    match push_head(&mut walk) {
        Ok(_) => {},
        Err(e) => {
            return Err(fail(ErrorKind::ReferenceResolution, &e));
        },
    }
    let ids = match drain_walk(walk) {
        Ok(v) => v,
        Err(e) => {
            return Err(fail(ErrorKind::Traversal, &e));
        },
    };
    let ghost filter = filter_view(target);
    let ghost mut seen: Seq<CommitView> = Seq::empty();
    let mut scanner = HistoryScanner::new(target);
    let mut i: usize = 0;
    while i < ids.len()
        invariant
            i <= ids@.len(),
            scanner.wf(),
            scanner.filter() == filter,
            scanner.records() == scan_map(seen, filter),
        decreases ids@.len() - i,
    {
        let commit = match find_commit(repo, &ids[i]) {
            Ok(c) => c,
            Err(e) => {
                return Err(fail(ErrorKind::CommitLookup, &e));
            },
        };
        let parents: usize = parent_count(&commit);
        if has_single_parent(parents) {
            let info = match read_commit(repo, &commit, parents) {
                Ok(info) => info,
                Err(e) => {
                    return Err(e);
                },
            };
            proof {
                assert(seen.push(info@).drop_last() =~= seen);
                seen = seen.push(info@);
            }
            scanner.absorb_commit(&info);
        }
        i = i + 1;
    }
    Ok(scanner)
}

/// Scans the history reachable from the repository's head, by commit time:
/// the whole tree when `target` is `None`, else the one path.
///
/// What the repository holds is not known to the proof. What is proved is
/// that a successful scan is the outcome of some history, namely of the
/// one-parent commits that the walk gave, in its order, each with the deltas
/// that its diff gave. Any failure of the repository ends the scan with an
/// error that names the step that failed; there are no partial results.
pub fn scan(repo: &Repository, target: Option<Vec<u8>>) -> (r: Result<ResultSet, ScanError>)
    ensures
        match r {
            Ok(res) => res.wf() && exists|h: Seq<CommitView>|
                res@ == #[trigger] outcome(h, filter_view(target)),
            Err(e) => e.kind != ErrorKind::RepositoryAccess,
        },
{
    match walk_history(repo, target) {
        Ok(scanner) => {
            let ghost h = choose|h: Seq<CommitView>|
                scanner.records() == #[trigger] scan_map(h, filter_view(target));
            let res = scanner.finish();
            assert(res@ == outcome(h, filter_view(target)));
            Ok(res)
        },
        Err(e) => Err(e),
    }
}

/// The newest counted commit that changed `file_path`, as identifier, summary
/// and time; three empty values when no counted commit changed it.
pub fn get_last_commit_for_file(repo: &Repository, file_path: &Vec<u8>) -> (r: Result<
    (String, String, i64),
    ScanError,
>)
    ensures
        match r {
            Ok(t) => exists|h: Seq<CommitView>|
                flat_view(t) == or_sentinel_view(
                    (#[trigger] scan_map(h, Some(file_path@))).get(file_path@),
                ),
            Err(e) => e.kind != ErrorKind::RepositoryAccess,
        },
{
    match walk_history(repo, Some(copy_bytes(file_path))) {
        Ok(scanner) => Ok(or_sentinel(scanner.record_of(file_path))),
        Err(e) => Err(e),
    }
}

} // verus!
