use graft_sqlite::coverage::{merge_intervals, repo_file_delta_snapshot};
use graft_sqlite::error::CommandError;
use graft_sqlite::model::{
    BranchInfo, CommitFileState, PathFile, RepoLogRange, RepoSnapshot, StorageCommit,
};
use graft_sqlite::publish::{
    publish_repo_all_branches, publish_stops, repo_commit_parent_file_states, repo_snapshot_with_commit_hashes,
    resolve_snapshot_once, HydrateStep,
};
use graft_sqlite::snapshot::{
    both_failed, hash_policy_for, verify_repo_snapshot_commit_hashes, RepoSnapshotPurpose, RepoSnapshotResolvePolicy,
    RepoSnapshotResolveSource, SnapshotHashPolicy,
};
use graft_sqlite::tables::{
    count_changes, repo_file_table_summary, snapshot_table_summary, staged_commit_table_summary, table_changes_summary,
    CommitTableSummary, SnapshotSummaryMode, SummaryRoute, TableRows,
};
use graft_sqlite::row_diff::{RowChange, TableChanges};
use graft_sqlite::spec::KeyValue;
use graft_sqlite::walk::CommitWalk;

fn text(s: &str) -> String {
    s.to_string()
}

fn texts(list: &[&str]) -> Vec<String> {
    list.iter().map(|s| s.to_string()).collect()
}

fn range(log: &str, start: u64, end: u64) -> RepoLogRange {
    RepoLogRange {
        log: text(log),
        start,
        end,
        commits: (start..=end)
            .map(|lsn| StorageCommit { lsn, commit_hash: format!("h{lsn}") })
            .collect(),
    }
}

fn file(ranges: Vec<RepoLogRange>) -> CommitFileState {
    CommitFileState {
        volume: text("v"),
        snapshot: RepoSnapshot { page_count: 4, ranges },
    }
}

fn hashes(start: u64, end: u64) -> Vec<Option<String>> {
    (start..=end).map(|lsn| Some(format!("h{lsn}"))).collect()
}

fn invalid(message: &str) -> CommandError {
    CommandError::InvalidCommand(text(message))
}

#[test]
fn intervals_are_merged() {
    assert_eq!(
        merge_intervals(&vec![(5, 6), (1, 2), (3, 3), (10, 12), (11, 20)]),
        vec![(1, 3), (5, 6), (10, 20)]
    );
    assert_eq!(merge_intervals(&Vec::new()), Vec::<(u64, u64)>::new());
}

#[test]
fn a_delta_holds_what_the_parents_lack() {
    let state = file(vec![range("log", 1, 9)]);
    let parents = vec![file(vec![range("log", 1, 3)]), file(vec![range("log", 5, 6)])];
    let delta = repo_file_delta_snapshot(&state, &parents);
    let shown: Vec<(u64, u64, usize)> =
        delta.ranges.iter().map(|r| (r.start, r.end, r.commits.len())).collect();
    assert_eq!(shown, vec![(4, 4, 1), (7, 9, 3)]);
    assert_eq!(delta.ranges[1].commits[0].lsn, 7);
    assert_eq!(delta.page_count, 4);
    assert!(repo_file_delta_snapshot(&state, &vec![state.clone()]).ranges.is_empty());
}

#[test]
fn stored_hashes_are_checked() {
    let snapshot = RepoSnapshot { page_count: 4, ranges: vec![range("log", 2, 4)] };
    let logs = texts(&["Log"]);
    let check = |stored: Vec<Option<String>>, policy| {
        verify_repo_snapshot_commit_hashes(&snapshot, &logs, &vec![stored], policy)
    };
    assert_eq!(check(hashes(2, 4), SnapshotHashPolicy::Strict), Ok(0));
    let other = vec![Some(text("h2")), Some(text("x")), Some(text("h4"))];
    assert_eq!(
        check(other.clone(), SnapshotHashPolicy::Strict),
        Err(invalid(
            "snapshot storage commit hash mismatch for Log/3: expected h3, got x"
        ))
    );
    assert_eq!(check(other, SnapshotHashPolicy::AllowHydratedMismatch), Ok(1));
    assert_eq!(
        check(vec![None, None, None], SnapshotHashPolicy::AllowHydratedMismatch),
        Err(invalid("snapshot references missing storage commit Log/2"))
    );
}

#[test]
fn snapshots_take_the_stored_hashes() {
    let ranges = vec![RepoLogRange { log: text("l"), start: 3, end: 4, commits: Vec::new() }];
    let logs = texts(&["L"]);
    let stored = vec![hashes(3, 4)];
    let snapshot = repo_snapshot_with_commit_hashes(2, &ranges, &logs, &stored).unwrap();
    assert_eq!(snapshot.ranges, vec![range("l", 3, 4)]);
    assert_eq!(
        verify_repo_snapshot_commit_hashes(&snapshot, &logs, &stored, SnapshotHashPolicy::Strict),
        Ok(0)
    );
    assert_eq!(
        repo_snapshot_with_commit_hashes(2, &ranges, &logs, &vec![vec![Some(text("a")), None]]),
        Err(invalid("snapshot references missing storage commit L/4"))
    );
}

#[test]
fn snapshots_come_from_the_place_their_policy_names() {
    let strict = RepoSnapshotResolvePolicy::strict(true, RepoSnapshotPurpose::Merge);
    assert_eq!(strict.first_source(), RepoSnapshotResolveSource::Remote);
    assert!(!strict.rewrites());
    let both = RepoSnapshotResolvePolicy::local_then_remote(
        RepoSnapshotPurpose::Diff,
        SnapshotHashPolicy::AllowHydratedMismatch,
    );
    assert_eq!(both.first_source(), RepoSnapshotResolveSource::Local);
    assert!(both.tries_remote_next(true) && !both.tries_remote_next(false));
    let normal =
        RepoSnapshotResolvePolicy::normalizing(true, RepoSnapshotPurpose::Push, hash_policy_for(true));
    assert!(normal.rewrites());
    assert_eq!(
        resolve_snapshot_once(false, RepoSnapshotResolveSource::Remote, false),
        Err(invalid("snapshot resolver remote source requires a remote"))
    );
    assert_eq!(
        resolve_snapshot_once(true, RepoSnapshotResolveSource::Remote, false),
        Ok(HydrateStep::Nothing)
    );
    assert_eq!(
        both_failed("a", "b"),
        invalid("local snapshot hydrate failed: a; remote snapshot hydrate failed: b")
    );
}

#[test]
fn walks_visit_commits_once() {
    let mut walk = CommitWalk::start(texts(&["a"]), &texts(&["stop"]));
    assert_eq!(walk.next_commit(), Some(text("a")));
    walk.add_parents(texts(&["b", "c", "stop"]));
    assert_eq!(walk.next_commit(), Some(text("c")));
    walk.add_parents(texts(&["b", "a"]));
    assert_eq!(walk.next_commit(), Some(text("b")));
    assert_eq!(walk.next_commit(), None);
}

#[test]
fn parents_are_grouped_by_path() {
    let files = vec![
        PathFile { path: text("a.db"), state: file(vec![range("l", 1, 1)]) },
        PathFile { path: text("b.db"), state: file(Vec::new()) },
        PathFile { path: text("a.db"), state: file(vec![range("l", 2, 2)]) },
    ];
    let states = repo_commit_parent_file_states(files);
    assert_eq!(states.get("a.db").unwrap().len(), 2);
    assert_eq!(states.get("a.db").unwrap()[1].snapshot.ranges[0].start, 2);
    assert_eq!(states.get("b.db").unwrap().len(), 1);
    assert!(states.get("c.db").is_none());
}

#[test]
fn pushes_stop_at_what_the_remote_has() {
    assert_eq!(publish_stops(Some(text("x")), texts(&["y"])), texts(&["x"]));
    assert_eq!(publish_stops(None, texts(&["y", "z"])), texts(&["y", "z"]));
    let branch = |name: &str, target: Option<&str>| BranchInfo {
        name: text(name),
        target: target.map(|t| t.to_string()),
        current: false,
        upstream: None,
    };
    assert_eq!(
        publish_repo_all_branches(&vec![branch("main", Some("c")), branch("new", None)]),
        texts(&["main"])
    );
}

#[test]
fn tables_are_counted() {
    let row = vec![KeyValue::Integer(1)];
    let changes = vec![
        RowChange::Insert { rowid: 1, row: row.clone() },
        RowChange::PrimaryKeyInsert { key: Vec::new(), row: row.clone() },
        RowChange::Delete { rowid: 2, row: row.clone() },
        RowChange::Update { rowid: 3, old_row: row.clone(), new_row: row.clone() },
    ];
    let counts = count_changes(&changes);
    assert_eq!((counts.inserts, counts.deletes, counts.updates), (2, 1, 1));
    let table = |name: &str, changes| TableChanges {
        table_name: text(name),
        columns: Vec::new(),
        primary_key_columns: Vec::new(),
        changes,
    };
    let summaries =
        table_changes_summary(&vec![table("t", changes), table("empty", Vec::new()), table("", Vec::new())]);
    assert_eq!(
        summaries,
        vec![CommitTableSummary { name: text("t"), inserts: 2, deletes: 1, updates: 1 }]
    );
    assert_eq!(
        snapshot_table_summary(
            &vec![
                TableRows { name: text("t"), rows: 5 },
                TableRows { name: text("none"), rows: 0 }
            ],
            SnapshotSummaryMode::Deleted
        ),
        vec![CommitTableSummary { name: text("t"), inserts: 0, deletes: 5, updates: 0 }]
    );
}

#[test]
fn summaries_of_databases_add_up() {
    let summary = |name: &str, n| CommitTableSummary { name: text(name), inserts: n, deletes: 0, updates: n };
    assert_eq!(
        staged_commit_table_summary(&vec![summary("b", 1), summary("a", 2), summary("b", 3)]),
        vec![summary("a", 2), summary("b", 4)]
    );
    assert_eq!(repo_file_table_summary(None, Some(false)), SummaryRoute::Inserted);
    assert_eq!(repo_file_table_summary(Some(true), Some(false)), SummaryRoute::Inserted);
    assert_eq!(repo_file_table_summary(Some(false), Some(true)), SummaryRoute::Deleted);
    assert_eq!(repo_file_table_summary(Some(false), Some(false)), SummaryRoute::Compared);
    assert_eq!(repo_file_table_summary(None, None), SummaryRoute::Nothing);
}

#[test]
fn only_the_totals_of_a_table_have_to_fit() {
    let summary = |name: &str, n| CommitTableSummary { name: text(name), inserts: n, deletes: 0, updates: 0 };
    let all = vec![summary("b", usize::MAX), summary("a", usize::MAX)];
    assert_eq!(
        staged_commit_table_summary(&all),
        vec![summary("a", usize::MAX), summary("b", usize::MAX)]
    );
}
