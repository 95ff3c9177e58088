use git_lastmod::record::{copy_bytes, has_single_parent, same_bytes, CommitInfo, Delta, PathRecord};
use git_lastmod::scanner::{aggregate, or_sentinel, HistoryScanner, ResultSet};
use git_lastmod::table::PathTable;

fn path(s: &str) -> Vec<u8> {
    s.as_bytes().to_vec()
}

fn touch(s: &str) -> Delta {
    Delta { new_path: Some(path(s)), old_path: Some(path(s)) }
}

fn commit(id: &str, timestamp: i64, parent_count: usize, paths: &[&str]) -> CommitInfo {
    CommitInfo {
        id: id.to_string(),
        timestamp,
        summary: format!("summary of {}", id),
        parent_count,
        deltas: paths.iter().map(|p| touch(p)).collect(),
    }
}

fn record(id: &str, timestamp: i64) -> PathRecord {
    PathRecord { timestamp, commit: id.to_string(), summary: format!("summary of {}", id) }
}

fn tree(history: &Vec<CommitInfo>) -> PathTable {
    match aggregate(history, None) {
        ResultSet::Tree(t) => t,
        ResultSet::File(_) => panic!("a whole-tree scan gave a single record"),
    }
}

fn file(history: &Vec<CommitInfo>, p: &str) -> Option<PathRecord> {
    match aggregate(history, Some(path(p))) {
        ResultSet::File(r) => r,
        ResultSet::Tree(_) => panic!("a single-path scan gave a table"),
    }
}

#[test]
fn root_commit_alone_gives_empty_tree() {
    let h = vec![commit("c1", 100, 0, &["a.txt"])];
    let t = tree(&h);
    assert_eq!(t.len(), 0);
    assert!(t.get(&path("a.txt")).is_none());
}

#[test]
fn second_commit_is_recorded() {
    let h = vec![commit("c2", 200, 1, &["a.txt"]), commit("c1", 100, 0, &["a.txt"])];
    let t = tree(&h);
    assert_eq!(t.len(), 1);
    assert_eq!(t.path_at(0), &path("a.txt"));
    assert_eq!(t.record_at(0), &record("c2", 200));
    assert_eq!(t.get(&path("a.txt")), Some(&record("c2", 200)));
}

#[test]
fn newest_of_three_linear_commits_wins() {
    let newest_first = vec![
        commit("c3", 300, 1, &["a.txt"]),
        commit("c2", 200, 1, &["a.txt"]),
        commit("c1", 100, 1, &["a.txt"]),
    ];
    assert_eq!(tree(&newest_first).get(&path("a.txt")), Some(&record("c3", 300)));
    let oldest_first = vec![
        commit("c1", 100, 1, &["a.txt"]),
        commit("c2", 200, 1, &["a.txt"]),
        commit("c3", 300, 1, &["a.txt"]),
    ];
    assert_eq!(tree(&oldest_first).get(&path("a.txt")), Some(&record("c3", 300)));
    let mixed = vec![
        commit("c2", 200, 1, &["a.txt"]),
        commit("c3", 300, 1, &["a.txt"]),
        commit("c1", 100, 1, &["a.txt"]),
    ];
    assert_eq!(tree(&mixed).get(&path("a.txt")), Some(&record("c3", 300)));
    assert_eq!(tree(&mixed).len(), 1);
}

#[test]
fn merge_commit_is_skipped() {
    let h = vec![
        commit("merge", 400, 2, &["a.txt"]),
        commit("c3", 300, 1, &["a.txt"]),
        commit("c2", 200, 1, &["a.txt"]),
        commit("c1", 100, 1, &["a.txt"]),
    ];
    let t = tree(&h);
    assert_eq!(t.len(), 1);
    assert_eq!(t.get(&path("a.txt")), Some(&record("c3", 300)));
    assert_eq!(file(&h, "a.txt"), Some(record("c3", 300)));
}

#[test]
fn octopus_merge_is_skipped() {
    let h = vec![commit("octopus", 900, 3, &["a.txt", "b.txt"]), commit("c1", 100, 1, &["b.txt"])];
    let t = tree(&h);
    assert_eq!(t.len(), 1);
    assert!(t.get(&path("a.txt")).is_none());
    assert_eq!(t.get(&path("b.txt")), Some(&record("c1", 100)));
}

#[test]
fn untouched_path_has_no_record() {
    let h = vec![commit("c2", 200, 1, &["a.txt"]), commit("c1", 100, 0, &["a.txt", "b.txt"])];
    assert_eq!(file(&h, "b.txt"), None);
    assert_eq!(file(&h, "missing.txt"), None);
    assert_eq!(or_sentinel(file(&h, "b.txt")), (String::new(), String::new(), 0));
}

#[test]
fn empty_history_gives_nothing() {
    let h: Vec<CommitInfo> = Vec::new();
    assert_eq!(tree(&h).len(), 0);
    assert_eq!(file(&h, "a.txt"), None);
}

#[test]
fn or_sentinel_keeps_a_real_match() {
    let found = or_sentinel(Some(record("c7", 0)));
    assert_eq!(found, ("c7".to_string(), "summary of c7".to_string(), 0));
    assert_ne!(found, or_sentinel(None));
}

#[test]
fn equal_timestamps_keep_the_first_seen() {
    let h = vec![
        commit("first", 500, 1, &["a.txt"]),
        commit("second", 500, 1, &["a.txt"]),
        commit("older", 400, 1, &["a.txt"]),
    ];
    assert_eq!(tree(&h).get(&path("a.txt")), Some(&record("first", 500)));
    assert_eq!(file(&h, "a.txt"), Some(record("first", 500)));
}

#[test]
fn negative_and_extreme_timestamps() {
    let h = vec![
        commit("min", i64::MIN, 1, &["a.txt"]),
        commit("neg", -5, 1, &["a.txt"]),
        commit("max", i64::MAX, 1, &["a.txt"]),
        commit("zero", 0, 1, &["a.txt"]),
    ];
    assert_eq!(file(&h, "a.txt"), Some(record("max", i64::MAX)));
    let only_min = vec![commit("min", i64::MIN, 1, &["a.txt"])];
    assert_eq!(file(&only_min, "a.txt"), Some(record("min", i64::MIN)));
}

#[test]
fn each_path_keeps_its_own_latest() {
    let h = vec![
        commit("c4", 400, 1, &["b.txt"]),
        commit("c3", 300, 1, &["a.txt", "c.txt"]),
        commit("c2", 200, 1, &["a.txt", "b.txt"]),
        commit("c1", 100, 0, &["a.txt", "b.txt", "c.txt", "d.txt"]),
    ];
    let t = tree(&h);
    assert_eq!(t.len(), 3);
    assert_eq!(t.path_at(0), &path("b.txt"));
    assert_eq!(t.path_at(1), &path("a.txt"));
    assert_eq!(t.path_at(2), &path("c.txt"));
    assert_eq!(t.get(&path("a.txt")), Some(&record("c3", 300)));
    assert_eq!(t.get(&path("b.txt")), Some(&record("c4", 400)));
    assert_eq!(t.get(&path("c.txt")), Some(&record("c3", 300)));
    assert!(t.get(&path("d.txt")).is_none());
}

#[test]
fn single_path_scan_equals_tree_lookup() {
    let h = vec![
        commit("m", 950, 2, &["a.txt", "e.txt"]),
        commit("c4", 400, 1, &["b.txt"]),
        commit("c5", 500, 1, &["a.txt", "c.txt"]),
        commit("c2", 200, 1, &["a.txt", "b.txt"]),
        commit("c1", 100, 0, &["d.txt"]),
    ];
    let t = tree(&h);
    for p in ["a.txt", "b.txt", "c.txt", "d.txt", "e.txt", "nowhere"] {
        let alone = file(&h, p);
        assert_eq!(alone.as_ref(), t.get(&path(p)));
    }
}

#[test]
fn aggregate_twice_gives_the_same() {
    let h = vec![
        commit("c3", 300, 1, &["a.txt", "c.txt"]),
        commit("c2", 200, 1, &["a.txt", "b.txt"]),
    ];
    let one = tree(&h);
    let two = tree(&h);
    assert_eq!(one.len(), two.len());
    for i in 0..one.len() {
        assert_eq!(one.path_at(i), two.path_at(i));
        assert_eq!(one.record_at(i), two.record_at(i));
    }
    assert_eq!(file(&h, "a.txt"), file(&h, "a.txt"));
}

#[test]
fn replaying_a_history_changes_nothing() {
    let h = vec![
        commit("c2", 200, 1, &["a.txt", "b.txt"]),
        commit("c3", 300, 1, &["a.txt"]),
        commit("m", 999, 2, &["b.txt"]),
    ];
    let mut s = HistoryScanner::new(None);
    for c in h.iter() {
        s.absorb_commit(c);
    }
    for c in h.iter() {
        s.absorb_commit(c);
    }
    let twice = match s.finish() {
        ResultSet::Tree(t) => t,
        ResultSet::File(_) => panic!("a whole-tree scan gave a single record"),
    };
    let once = tree(&h);
    assert_eq!(once.len(), 2);
    assert_eq!(twice.len(), 2);
    assert_eq!(twice.get(&path("a.txt")), Some(&record("c3", 300)));
    assert_eq!(twice.get(&path("b.txt")), Some(&record("c2", 200)));
    assert_eq!(once.get(&path("a.txt")), twice.get(&path("a.txt")));
    assert_eq!(once.get(&path("b.txt")), twice.get(&path("b.txt")));
}

#[test]
fn record_always_belongs_to_one_commit() {
    let h = vec![
        commit("c2", 200, 1, &["a.txt"]),
        commit("c5", 500, 1, &["a.txt"]),
        commit("c3", 300, 1, &["a.txt"]),
        commit("c9", 900, 1, &["a.txt"]),
    ];
    let mut s = HistoryScanner::new(Some(path("a.txt")));
    let mut seen: Vec<PathRecord> = Vec::new();
    for c in h.iter() {
        s.absorb_commit(c);
        seen.push(c.stamp());
    }
    let last = match s.finish() {
        ResultSet::File(r) => r.unwrap(),
        ResultSet::Tree(_) => panic!("a single-path scan gave a table"),
    };
    assert!(seen.contains(&last));
    assert_eq!(last, record("c9", 900));
    for n in 0..h.len() {
        let prefix: Vec<CommitInfo> = h[..=n]
            .iter()
            .map(|c| commit(&c.id, c.timestamp, c.parent_count, &["a.txt"]))
            .collect();
        let r = file(&prefix, "a.txt").unwrap();
        assert!(prefix.iter().any(|c| c.stamp() == r));
    }
}

#[test]
fn removed_file_is_filed_under_its_old_path() {
    let mut gone = commit("c2", 200, 1, &[]);
    gone.deltas.push(Delta { new_path: None, old_path: Some(path("old.txt")) });
    let h = vec![gone];
    assert_eq!(file(&h, "old.txt"), Some(record("c2", 200)));
    assert_eq!(tree(&h).len(), 1);
}

#[test]
fn renamed_file_is_filed_under_its_new_path() {
    let mut moved = commit("c2", 200, 1, &[]);
    moved.deltas.push(Delta { new_path: Some(path("new.txt")), old_path: Some(path("old.txt")) });
    let h = vec![moved];
    assert_eq!(file(&h, "new.txt"), Some(record("c2", 200)));
    assert_eq!(file(&h, "old.txt"), None);
}

#[test]
fn delta_without_any_path_is_passed_over() {
    let mut odd = commit("c2", 200, 1, &["a.txt"]);
    odd.deltas.push(Delta { new_path: None, old_path: None });
    let h = vec![odd];
    let t = tree(&h);
    assert_eq!(t.len(), 1);
    assert_eq!(t.path_at(0), &path("a.txt"));
}

#[test]
fn delta_key_prefers_the_new_side() {
    let both = Delta { new_path: Some(path("n")), old_path: Some(path("o")) };
    assert_eq!(both.key(), Some(&path("n")));
    let old_only = Delta { new_path: None, old_path: Some(path("o")) };
    assert_eq!(old_only.key(), Some(&path("o")));
    let neither = Delta { new_path: None, old_path: None };
    assert_eq!(neither.key(), None);
}

#[test]
fn a_path_listed_twice_in_one_commit_counts_once() {
    let h = vec![commit("c2", 200, 1, &["a.txt", "a.txt"])];
    let t = tree(&h);
    assert_eq!(t.len(), 1);
    assert_eq!(t.get(&path("a.txt")), Some(&record("c2", 200)));
}

#[test]
fn filter_compares_whole_paths() {
    let h = vec![commit("c2", 200, 1, &["src/main.rs", "src/main.rs.bak", "main.rs"])];
    assert_eq!(file(&h, "src/main.rs"), Some(record("c2", 200)));
    assert_eq!(file(&h, "src/main"), None);
    assert_eq!(file(&h, "src/main.rs "), None);
    assert_eq!(file(&h, ""), None);
}

#[test]
fn qualifying_needs_exactly_one_parent() {
    assert!(!has_single_parent(0));
    assert!(has_single_parent(1));
    assert!(!has_single_parent(2));
    assert!(!has_single_parent(usize::MAX));
    assert!(commit("c", 1, 1, &[]).qualifies());
    assert!(!commit("c", 1, 0, &[]).qualifies());
    assert!(!commit("c", 1, 2, &[]).qualifies());
}

#[test]
fn stamp_carries_id_time_and_summary() {
    let c = commit("abc", 42, 1, &["a.txt"]);
    assert_eq!(c.stamp(), record("abc", 42));
    assert_eq!(c.stamp().clone(), record("abc", 42));
}

#[test]
fn byte_helpers() {
    assert!(same_bytes(&path("a.txt"), &path("a.txt")));
    assert!(!same_bytes(&path("a.txt"), &path("a.txT")));
    assert!(!same_bytes(&path("a.txt"), &path("a.tx")));
    assert!(same_bytes(&Vec::new(), &Vec::new()));
    assert_eq!(copy_bytes(&vec![0u8, 255, 47, 10]), vec![0u8, 255, 47, 10]);
    assert_eq!(copy_bytes(&Vec::new()), Vec::<u8>::new());
}

#[test]
fn table_observe_replaces_only_on_strictly_newer() {
    let mut t = PathTable::new();
    assert_eq!(t.len(), 0);
    assert_eq!(t.position(&path("a")), None);
    t.observe(&path("a"), &record("x", 10));
    assert_eq!(t.get(&path("a")), Some(&record("x", 10)));
    t.observe(&path("a"), &record("y", 10));
    assert_eq!(t.get(&path("a")), Some(&record("x", 10)));
    t.observe(&path("a"), &record("z", 9));
    assert_eq!(t.get(&path("a")), Some(&record("x", 10)));
    t.observe(&path("a"), &record("w", 11));
    assert_eq!(t.get(&path("a")), Some(&record("w", 11)));
    t.observe(&path("b"), &record("v", 1));
    assert_eq!(t.len(), 2);
    assert_eq!(t.position(&path("a")), Some(0));
    assert_eq!(t.position(&path("b")), Some(1));
    assert_eq!(t.record_at(1), &record("v", 1));
}

#[test]
fn non_utf8_paths_are_kept_as_bytes() {
    let raw: Vec<u8> = vec![0xff, 0xfe, b'/', b'x'];
    let mut c = commit("c2", 200, 1, &[]);
    c.deltas.push(Delta { new_path: Some(raw.clone()), old_path: None });
    let h = vec![c];
    match aggregate(&h, Some(raw.clone())) {
        ResultSet::File(r) => assert_eq!(r, Some(record("c2", 200))),
        ResultSet::Tree(_) => panic!("a single-path scan gave a table"),
    }
}

#[test]
fn walk_order_does_not_change_the_times() {
    let build = |order: &[usize]| -> Vec<CommitInfo> {
        let all = [
            ("c1", 100, 1, vec!["a.txt", "b.txt"]),
            ("c2", 300, 1, vec!["a.txt"]),
            ("c3", 300, 1, vec!["a.txt", "c.txt"]),
            ("m", 900, 2, vec!["a.txt", "d.txt"]),
        ];
        order.iter().map(|&i| commit(all[i].0, all[i].1, all[i].2, &all[i].3)).collect()
    };
    let orders: [[usize; 4]; 4] = [[0, 1, 2, 3], [3, 2, 1, 0], [2, 0, 3, 1], [1, 3, 0, 2]];
    for order in orders.iter() {
        let t = tree(&build(order));
        assert_eq!(t.len(), 3);
        assert_eq!(t.get(&path("a.txt")).unwrap().timestamp, 300);
        assert_eq!(t.get(&path("b.txt")), Some(&record("c1", 100)));
        assert_eq!(t.get(&path("c.txt")), Some(&record("c3", 300)));
        assert!(t.get(&path("d.txt")).is_none());
    }
    assert_eq!(tree(&build(&[0, 1, 2, 3])).get(&path("a.txt")), Some(&record("c2", 300)));
    assert_eq!(tree(&build(&[3, 2, 1, 0])).get(&path("a.txt")), Some(&record("c3", 300)));
}
