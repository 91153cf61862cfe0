use graft_sqlite::conflict_list::{
    append_row_merge_analysis, format_current_file_row_merge_analysis, format_merge_outcome_with_row_auto_merge,
};
use graft_sqlite::conflict_report::RowMergePlan;
use graft_sqlite::error::{CommandError, RepoErr};
use graft_sqlite::merge::{
    current_or_named_branch, merge_fast_forward_head, merge_outcome_after, merge_outcome_with_row_auto_merge,
    repo_merge_remote,
};
use graft_sqlite::model::{
    BranchInfo, BranchUpstream, CommitFileState, CommitObject, Head, MergeOutcome, PathChange, PathFile,
    RemoteBranchRef,
    RepoFileChange, RepoSnapshot, RepoStatus, RepoWorktreeChange, RepoWorktreeChangeKind,
};
use graft_sqlite::reply::Reply;
use graft_sqlite::report::{RepoDiff, RepoFileDiff};
use graft_sqlite::report_sync::{
    FetchAllOutcome, FetchCommandOutcome, FetchOutcome, PullOutcome, PushAllOutcome, PushCommandOutcome, PushOutcome,
    RemoteInfo, RowAutoMergeResult, StorageGcOutcome,
};
use graft_sqlite::session::{
    begin_workspace_checkout, branch_has_start, clone_branch, clone_leaves_nothing, clone_start_point,
    guard_clone_target, guard_merge_in_progress, json_commit_path_changes, json_commit_summary, json_log_next_cursor,
    json_repo_log, log_reading, materialized_commit_keys, push_base_head, repo_for_file, repo_push_branches, LogRead, LogReading,
};
use graft_sqlite::spec::{
    DiffMode, JsonLogMode, JsonLogSpec, RemoteConfig, RepoPathStorage, RepoTrackedPathKind, ResetMode, ResolveSide,
};

const ID: &str = "0123456789abcdef0123";

fn text(s: &str) -> String {
    s.to_string()
}

fn texts(list: &[&str]) -> Vec<String> {
    list.iter().map(|s| s.to_string()).collect()
}

fn say(reply: Reply) -> String {
    reply.text().unwrap()
}

fn invalid(message: &str) -> CommandError {
    CommandError::InvalidCommand(text(message))
}

fn commit(id: &str) -> CommitObject {
    CommitObject {
        id: text(id),
        parent: Some(text("p0")),
        parents: Vec::new(),
        tree: Some(text("t1")),
        timestamp_ms: 86_400_000,
        message: text("first"),
        files: vec![PathFile { path: text("a.db"), state: file(3) }],
        artifacts: Vec::new(),
        changes: Vec::new(),
    }
}

fn file(page_count: u32) -> CommitFileState {
    CommitFileState { volume: text("v"), snapshot: RepoSnapshot { page_count, ranges: Vec::new() } }
}

fn status() -> RepoStatus {
    RepoStatus {
        head: Head::Branch { name: text("main") },
        upstream: Some(BranchUpstream { remote: text("origin"), branch: text("main") }),
        worktree: text("/w"),
        repository_format_version: 3,
        head_target: None,
        merge_head: None,
        orig_head: None,
        conflicted: Vec::new(),
        staged: Vec::new(),
        unstaged: Vec::new(),
        unstaged_changes: Vec::new(),
        staged_changes: Vec::new(),
        conflicted_changes: Vec::new(),
    }
}

#[test]
fn clean_and_changed_worktrees() {
    assert_eq!(
        say(Reply::Status { status: status() }),
        "On branch main\nTracking: origin/main\nRepository: /w\nFormat: v3\nNo commits yet\nWorktree clean.\n"
    );
    let mut s = status();
    s.head = Head::Detached { commit: text("c1") };
    s.upstream = None;
    s.head_target = Some(text("c1"));
    s.merge_head = Some(text(ID));
    s.conflicted = texts(&["x.db"]);
    s.staged = texts(&["y.db"]);
    s.unstaged = texts(&["z.txt"]);
    s.unstaged_changes = vec![RepoWorktreeChange {
        path: text("z.txt"),
        change: RepoWorktreeChangeKind::Modified,
        kind: RepoTrackedPathKind::TextFile,
        storage: RepoPathStorage::Inline,
    }];
    assert_eq!(
        say(Reply::Status { status: s }),
        "HEAD detached at c1\nRepository: /w\nFormat: v3\nHEAD: c1\nMerge in progress with 0123456789ab\nUnmerged paths:\n  x.db\nChanges to be committed:\n  y.db\nChanges not staged for commit.\n  (use 'pragma graft_add' to stage)\n  modified: z.txt\n"
    );
}

#[test]
fn commits_are_shown() {
    assert_eq!(
        say(Reply::Shown { commit: commit("c1") }),
        "commit c1\nparent p0\ntree t1\ndate 1970-01-02 00:00:00\n\n    first\n\nFiles:\n  a.db (3 page(s), 0 range(s))\n"
    );
    assert_eq!(
        say(Reply::Committed { id: text(ID), message: text("first") }),
        "[0123456789ab] first"
    );
    let summary = json_commit_summary(commit("c1"));
    assert_eq!(summary.parents, texts(&["p0"]));
    assert_eq!(json_log_next_cursor(&vec![commit("c1"), commit("c2")], true), Some(text("c2")));
    assert_eq!(json_log_next_cursor(&vec![commit("c1")], false), None);
    assert_eq!(json_log_next_cursor(&Vec::new(), true), None);
    assert_eq!(materialized_commit_keys(true, &commit("c1")), texts(&["a.db"]));
    assert_eq!(materialized_commit_keys(false, &commit("c1")), Vec::<String>::new());
}

#[test]
fn diffs_are_shown_by_mode() {
    let diff = || RepoDiff {
        from: text(ID),
        to: text("worktree"),
        files: vec![RepoFileDiff {
            path: text("a.db"),
            previous_path: None,
            change: RepoFileChange::Modified,
            kind: RepoTrackedPathKind::SqliteDatabase,
            from: Some(file(3)),
            to: None,
            worktree: Some(4),
        }],
        artifacts: Vec::new(),
    };
    assert_eq!(
        say(Reply::Compared { diff: diff(), mode: DiffMode::Default, reports: Vec::new() }),
        "Diff 0123456789ab..worktree\nmodified: a.db\n  from: 3 page(s), 0 range(s)\n  to:   4 page(s), physical worktree\n"
    );
    assert_eq!(
        say(Reply::Compared { diff: diff(), mode: DiffMode::Rows, reports: vec![Some(text("one\ntwo\n"))] }),
        "Row Diff 0123456789ab..worktree\nmodified: a.db\n  one\n  two\n"
    );
    assert_eq!(
        say(Reply::Compared { diff: diff(), mode: DiffMode::Rows, reports: vec![None] }),
        "Row Diff 0123456789ab..worktree\nmodified: a.db\n  Row diff unavailable for modified database snapshots.\n"
    );
    assert_eq!(
        Reply::Compared { diff: diff(), mode: DiffMode::SqliteSummary, reports: Vec::new() }.text(),
        Err(invalid("diff --sqlite-summary requires JSON output"))
    );
}

#[test]
fn paths_are_listed() {
    assert_eq!(say(Reply::Added { paths: texts(&["a"]) }), "Added a");
    assert_eq!(say(Reply::Added { paths: texts(&["a", "b"]) }), "Added 2 paths\n  a\n  b");
    assert_eq!(say(Reply::Removed { paths: Vec::new() }), "Removed 0 paths");
    assert_eq!(
        say(Reply::Restored { path: None, paths: texts(&["a", "b"]) }),
        "Restored 2 paths\n  a\n  b"
    );
    assert_eq!(
        say(Reply::CheckedOut { path: Some(text("a")), paths: Vec::new(), target: text(ID) }),
        "Checked out a from 0123456789ab"
    );
    assert_eq!(
        say(Reply::CheckedOut { path: None, paths: Vec::new(), target: text("c1") }),
        "HEAD detached at c1"
    );
}

#[test]
fn short_replies() {
    assert_eq!(
        say(Reply::Exported { path: text("a.db"), output: text("o.db") }),
        "Exported a.db to o.db"
    );
    assert_eq!(
        say(Reply::Initialized { graft_dir: text("/w/.graft") }),
        "Initialized empty Graft repository in /w/.graft"
    );
    assert_eq!(
        say(Reply::Cloned { branch: text("main"), head: text(ID), graft_dir: text("/w/.graft") }),
        "Cloned origin/main at 0123456789ab into /w/.graft"
    );
    assert_eq!(say(Reply::Switched { name: text("t") }), "Switched to branch 't'");
    assert_eq!(
        say(Reply::MergeAborted { target: text("c1") }),
        "Aborted merge; reset HEAD to c1"
    );
    assert_eq!(
        say(Reply::MergeCommitted { id: text("c1"), message: text("m") }),
        "Merge commit [c1] m"
    );
    assert_eq!(
        say(Reply::Resolved { path: text("a"), side: ResolveSide::Theirs }),
        "Resolved a using theirs"
    );
    assert_eq!(
        say(Reply::HeadReset { target: text("c1"), mode: ResetMode::Soft }),
        "Reset HEAD to c1 (soft)"
    );
}

#[test]
fn remotes_and_branches() {
    let remote = || RemoteInfo { name: text("origin"), config: RemoteConfig::Memory };
    assert_eq!(say(Reply::RemoteRemoved { name: text("o") }), "Removed remote 'o'");
    assert_eq!(
        say(Reply::RemoteRenamed { old_name: text("o"), remote: remote() }),
        "Renamed remote 'o' to 'origin': memory"
    );
    assert_eq!(say(Reply::RemoteUrl { remote: remote() }), "memory");
    assert_eq!(
        say(Reply::RemoteUpdated { remote: remote() }),
        "Updated remote 'origin': memory"
    );
    let branch = BranchInfo { name: text("t"), target: None, current: true, upstream: None };
    assert!(say(Reply::BranchCreated { branch }).contains("t"));
}

#[test]
fn fetches_and_pushes() {
    let fetched = |branch: &str, commits| FetchOutcome {
        remote: text("origin"),
        branch: text(branch),
        head: text(ID),
        commits,
    };
    assert_eq!(
        say(Reply::Fetched { outcome: FetchCommandOutcome::One(fetched("main", 2)) }),
        "Fetched origin/main at 0123456789ab (2 new commits)"
    );
    let many = FetchCommandOutcome::Many(FetchAllOutcome {
        remote: text("origin"),
        branches: vec![fetched("main", 2), fetched("t", 1)],
    });
    assert_eq!(many.commits(), 3);
    assert_eq!(
        say(Reply::Fetched { outcome: many }),
        "Fetched origin (2 branchs, 3 new commits)\n  origin/main at 0123456789ab (2 new commits)\n  origin/t at 0123456789ab (1 new commit)\n"
    );
    let pushed = |deleted, forced| PushOutcome {
        remote: text("origin"),
        remote_branch: text("main"),
        head: text(ID),
        commits: 1,
        forced,
        deleted,
    };
    assert_eq!(
        say(Reply::Pushed { outcome: PushCommandOutcome::One(pushed(false, true)) }),
        "Force-pushed origin/main to 0123456789ab (1 commits)"
    );
    let many = PushCommandOutcome::Many(PushAllOutcome {
        remote: text("origin"),
        branches: vec![pushed(true, false), pushed(false, true)],
    });
    assert!(many.forced());
    assert_eq!(
        say(Reply::Pushed { outcome: many }),
        "Force-pushed origin (2 branchs, 2 commits)\n  Deleted origin/main (was 0123456789ab)\n  +origin/main at 0123456789ab (1 commit)\n"
    );
}

fn merged(staged: &[&str], conflicted: &[&str]) -> MergeOutcome {
    MergeOutcome::Merged {
        head: text("h"),
        target: text(ID),
        merge_base: Some(text("base")),
        staged: texts(staged),
        conflicted: texts(conflicted),
    }
}

fn result(key: &str, resolved: bool) -> RowAutoMergeResult {
    RowAutoMergeResult {
        key: text(key),
        applied_changes: 2,
        ours_changes: 1,
        theirs_changes: 2,
        resolved,
        requires_validation: !resolved,
    }
}

#[test]
fn merges_tell_their_rows() {
    let resolved = merge_outcome_with_row_auto_merge(merged(&["z.db"], &["a.db", "b.db"]), "a.db");
    assert_eq!(resolved, merged(&["a.db", "z.db"], &["b.db"]));
    assert_eq!(
        merge_outcome_after(
            merged(&[], &["a.db", "b.db"]),
            &vec![result("a.db", true), result("b.db", false)]
        ),
        merged(&["a.db"], &["b.db"])
    );
    assert_eq!(merge_fast_forward_head(&merged(&[], &[])), None);
    assert_eq!(
        format_merge_outcome_with_row_auto_merge(
            merged(&[], &["a.db"]),
            &Some(result("a.db", true)),
            &None,
            &Ok(String::new())
        ),
        "Merged 0123456789ab\nMerge base base\nStaged paths:\n  a.db\nRow-level auto-merged a.db:\n  applied 2 row change(s) from theirs\n  ours: 1 row change(s)\n  theirs: 2 row change(s)\n"
    );
    let mut out = text("Merged");
    append_row_merge_analysis(&mut out, &merged(&[], &["a.db"]), &Some(text("a.db")), &Err(text("no")));
    assert_eq!(out, "Merged\nRow-level analysis for a.db unavailable: no\n");
    let mut out = text("Merged");
    append_row_merge_analysis(&mut out, &merged(&[], &["a.db"]), &Some(text("b.db")), &Err(text("no")));
    assert_eq!(out, "Merged");
    assert_eq!(
        format_current_file_row_merge_analysis("a.db", None),
        "Row-level analysis for a.db:\n  unavailable: merge involves add/delete of this tracked path.\n"
    );
    let plan = RowMergePlan {
        conflicts: Vec::new(),
        schema_conflicts: Vec::new(),
        unresolved_opaque: Vec::new(),
        resolved_opaque: Vec::new(),
        pending: Vec::new(),
        limitations: Vec::new(),
        ours_changes: 1,
        theirs_changes: 2,
        apply_changes: 2,
        opaque_changes: 0,
        keeps_ours: false,
        theirs_unchanged: false,
        requires_validation: false,
    };
    assert_eq!(
        format_current_file_row_merge_analysis("a.db", Some(&plan)),
        "Row-level analysis for a.db:\n  ours: 1 row change(s)\n  theirs: 2 row change(s)\n  No row conflicts detected; row-level auto-merge candidate.\n"
    );
    assert_eq!(
        say(Reply::Pulled {
            outcome: PullOutcome {
                remote: text("origin"),
                remote_branch: text("main"),
                local_branch: text("main"),
                head: text(ID),
                commits: 0,
                merge: MergeOutcome::AlreadyUpToDate { head: text("h") },
            },
            key: None,
            analysis: Ok(String::new()),
        }),
        "Fetched origin/main at 0123456789ab (0 new commits)\nmain already up to date at h\n"
    );
}

#[test]
fn merges_find_their_remote() {
    let branch = |remote: &str, branch: &str, head: &str| RemoteBranchRef {
        remote: text(remote),
        branch: text(branch),
        head: text(head),
    };
    let branches = vec![branch("a", "main", "c1"), branch("b", "main", "c1"), branch("b", "t", "c2")];
    assert_eq!(repo_merge_remote("refs/remotes/b/main", "c1", &branches), Some(text("b")));
    assert_eq!(repo_merge_remote("x", "c2", &branches), Some(text("b")));
    assert_eq!(repo_merge_remote("x", "c1", &branches), None);
}

#[test]
fn sessions_are_guarded() {
    assert_eq!(
        begin_workspace_checkout(false),
        Err(invalid(
            "cannot update the worktree while another SQLite write transaction is open"
        ))
    );
    assert_eq!(guard_merge_in_progress(&None), Err(invalid("no merge in progress")));
    assert_eq!(guard_merge_in_progress(&Some(text("m"))), Ok(()));
    assert_eq!(
        guard_clone_target(false, true),
        Err(invalid("cannot clone into an existing .graft repository"))
    );
    assert_eq!(repo_for_file(true, false, "t"), Ok(false));
    assert_eq!(repo_for_file(false, true, "t"), Ok(true));
    assert_eq!(
        repo_for_file(false, false, "t"),
        Err(CommandError::Repo(RepoErr::NotFound(text("t"))))
    );
    assert!(clone_leaves_nothing(true, false));
    assert_eq!(clone_branch(None, None, text("main")), "main");
    assert_eq!(clone_branch(None, Some(text("d")), text("main")), "d");
    assert_eq!(clone_start_point("main"), "refs/remotes/origin/main");
    assert!(branch_has_start(&None, &Some(text("h"))));
    assert!(!branch_has_start(&None, &None));
}

#[test]
fn pushes_need_a_branch() {
    let upstream = || BranchUpstream { remote: text("origin"), branch: text("main") };
    assert_eq!(
        repo_push_branches(None, Some(text("t")), upstream()),
        Ok((text("origin"), text("t"), text("main")))
    );
    assert_eq!(
        repo_push_branches(Some(text("b")), None, upstream()),
        Err(invalid("cannot push in detached HEAD"))
    );
    assert_eq!(push_base_head(false, Some(text("a")), Some(text("b"))), Some(text("a")));
    assert_eq!(push_base_head(true, Some(text("a")), Some(text("b"))), Some(text("b")));
    assert_eq!(
        current_or_named_branch(None, None, "set upstream"),
        Err(invalid("cannot set upstream in detached HEAD"))
    );
}

#[test]
fn storage_collections_are_reported() {
    let outcome = StorageGcOutcome {
        dry_run: true,
        candidate_volumes: 1,
        candidate_commits: 2,
        candidate_segments: 3,
        candidate_pages: 4,
        candidate_page_bytes: 16384,
        pruned_volumes: 0,
        pruned_commits: 0,
        pruned_segments: 0,
        pruned_pages: 0,
        pruned_page_bytes: 0,
        retained_volumes: 5,
        retained_commits: 6,
        retained_segments: 7,
        retained_pages: 8,
    };
    assert_eq!(
        say(Reply::StorageCollected { outcome }),
        "Would prune 1 volume(s), 2 commit(s), 3 segment(s), and 4 page(s) (16384 byte(s)).\nRetained 5 volume(s), 6 commit(s), 7 segment(s), and 8 page(s).\n"
    );
}

#[test]
fn commits_tell_their_changes() {
    let mut c = commit(ID);
    c.changes = vec![PathChange {
        path: text("a.db"),
        change: RepoFileChange::Modified,
        kind: RepoTrackedPathKind::SqliteDatabase,
        storage: RepoPathStorage::SqliteSnapshot,
    }];
    let paths = json_commit_path_changes(&c);
    assert_eq!(paths.len(), 1);
    assert_eq!(paths[0].path, "a.db");
    assert_eq!(paths[0].previous_path, None);
    assert_eq!(paths[0].change, "modified");
    assert_eq!(paths[0].kind, "sqlite_database");
    assert_eq!(paths[0].storage, "sqlite_snapshot");
    assert!(json_commit_path_changes(&commit(ID)).is_empty());
}

#[test]
fn logs_are_read_whole_or_by_pages() {
    let spec = |limit: Option<usize>, after: Option<&str>| JsonLogSpec {
        mode: JsonLogMode::WithStatus,
        limit,
        after: after.map(text),
    };
    assert_eq!(log_reading(&spec(None, Some("x"))), LogReading::Whole);
    assert_eq!(
        log_reading(&spec(Some(2), Some("x"))),
        LogReading::Page { limit: 2, after: Some(text("x")) }
    );
    assert_eq!(log_reading(&spec(Some(0), None)), LogReading::Page { limit: 0, after: None });
    let whole = json_repo_log(LogRead::Whole(vec![commit("a"), commit("b")]));
    assert_eq!((whole.commits.len(), whole.has_more, whole.next_cursor), (2, false, None));
    let page = json_repo_log(LogRead::Page { commits: vec![commit("a"), commit("b")], has_more: true });
    assert_eq!((page.commits.len(), page.has_more, page.next_cursor), (2, true, Some(text("b"))));
    let last = json_repo_log(LogRead::Page { commits: vec![commit("c")], has_more: false });
    assert_eq!((last.has_more, last.next_cursor), (false, None));
    let none = json_repo_log(LogRead::Page { commits: Vec::new(), has_more: true });
    assert_eq!((none.has_more, none.next_cursor), (true, None));
}
