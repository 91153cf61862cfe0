use graft_sqlite::checkout::{
    checkout_plan_path_actions, listing_keys, reset_outcome, run_repo_reset, workspace_sqlite_keys, PathActionKind, PathListing,
    ResetFacts,
};
use graft_sqlite::diff::{
    repo_diff_look, repo_diff_route, repo_key_is_under_directory, repo_key_matches_filter, DiffRoute, PathState,
    PathStep,
};
use graft_sqlite::error::{CommandError, RepoErr};
use graft_sqlite::model::{
    CommitArtifactState, CommitFileState, Head, IndexEntry, MergeOutcome, PathArtifact, PathChange, RepoFileChange,
    RepoSnapshot, RepoStatus, RepoWorktreeChange, RepoWorktreeChangeKind,
};
use graft_sqlite::paths::{repo_directory_key, repo_key_with_missing_parent, repo_path_arg, storage_gc_roots};
use graft_sqlite::restore::{
    normalize_repo_path_filter, plan_restore_repo_keys, preflight_restore_component, restore_key_depth,
    restore_order, restore_repo_path, update_restored_worktree_state_key, validate_restore_key,
    validate_restore_plan_path_conflicts, ComponentStep, DirtyMark,
    RestorePlanEntry, RestoreRoute, RestoreSources, RestoredKind,
};
use graft_sqlite::restore_checks::{
    is_in_the_way, plan_deletes_key, plan_restores_below, preflight_restore_step, restore_components, restored_mark,
};
use graft_sqlite::restore_steps::{
    apply_restored_repo_key, checked_out_paths, checkout_merged_repo_paths, checkout_repo_path_from_revision,
    ensure_restore_keys_preserve_untracked_paths, export_repo_path, json_restore_paths, listing_within,
    restore_repo_directory, restore_repo_staged_all, stage_checkout_deletion_for_key,
    update_worktree_state_after_index_restore_key, ExportSource, RestoreStep,
};
use graft_sqlite::spec::{
    IndexStage, RepoDiffTarget, RepoPathStorage, RepoRestoreSpec, RepoTrackedPathKind, ResetMode,
};
use graft_sqlite::staging::{
    collect_repo_add_directory_entry, is_sqlite_sidecar_path, json_staged_entry_paths, remove_physical_file,
    removed_path_action, stage_repo_add_all, stage_repo_add_deletion, stage_repo_add_directory, stage_repo_add_file,
    stage_repo_add_path, stage_repo_add_topology_removals, stage_repo_remove_key, stage_repo_remove_path,
    tracked_repo_keys_under_directory, AddRoute, AddSource, EntryStep, FileRemoval, Unstaging,
};
use graft_sqlite::status::{
    ensure_checkout_keys_preserve_untracked_paths, filter_repo_status_by_kind, repo_has_work_in_progress_for_file,
    repo_status_for_file, tracked_state, TrackedLook, TrackedState,
};
use graft_sqlite::update::{update_steps, UpdateKind, UpdateStep};
use graft_sqlite::words::Host;
use graft_sqlite::workspace::{
    apply_binding, backup_root_name, checkout_merge_outcome, next_checkout_move, plan_backups, repo_file_state_volume,
    restore_moves, temporary_checkout_file, BackupMove, BindingMove, CheckoutMove, CheckoutStep, MergeCheckout,
    UndoParts, VolumeChoice,
};

fn text(s: &str) -> String {
    s.to_string()
}

fn texts(list: &[&str]) -> Vec<String> {
    list.iter().map(|s| s.to_string()).collect()
}

fn artifact(kind: RepoTrackedPathKind) -> CommitArtifactState {
    CommitArtifactState { large: false, kind, oid: text("o"), size: 1, content_hash: text("h") }
}

fn listing(files: &[&str], artifacts: &[&str]) -> PathListing {
    PathListing {
        files: texts(files),
        artifacts: artifacts
            .iter()
            .map(|p| PathArtifact { path: text(p), state: artifact(RepoTrackedPathKind::TextFile) })
            .collect(),
    }
}

fn state(volume: &str) -> CommitFileState {
    CommitFileState {
        volume: text(volume),
        snapshot: RepoSnapshot { page_count: 1, ranges: Vec::new() },
    }
}

fn change(path: &str, change: RepoWorktreeChangeKind, kind: RepoTrackedPathKind) -> RepoWorktreeChange {
    RepoWorktreeChange { path: text(path), change, kind, storage: RepoPathStorage::Inline }
}

fn status(unstaged: Vec<RepoWorktreeChange>) -> RepoStatus {
    RepoStatus {
        head: Head::Branch { name: text("main") },
        upstream: None,
        worktree: text("/w"),
        repository_format_version: 1,
        head_target: None,
        merge_head: None,
        orig_head: None,
        conflicted: Vec::new(),
        staged: Vec::new(),
        unstaged: unstaged.iter().map(|c| c.path.clone()).collect(),
        unstaged_changes: unstaged,
        staged_changes: Vec::new(),
        conflicted_changes: Vec::new(),
    }
}

fn invalid(message: &str) -> CommandError {
    CommandError::InvalidCommand(text(message))
}

const SQLITE: RepoTrackedPathKind = RepoTrackedPathKind::SqliteDatabase;
const TEXT: RepoTrackedPathKind = RepoTrackedPathKind::TextFile;

#[test]
fn filters_match_paths_and_directories() {
    assert!(repo_key_matches_filter("a/b", ""));
    assert!(repo_key_matches_filter("a/b", "a"));
    assert!(repo_key_matches_filter("a/b", "a/b"));
    assert!(!repo_key_matches_filter("ab", "a"));
    assert!(repo_key_is_under_directory("dir/x.db", "dir"));
    assert!(!repo_key_is_under_directory("dir", "dir/x.db"));
}

#[test]
fn diff_routes() {
    assert_eq!(
        repo_diff_route(
            RepoDiffTarget::Revisions { from: text("a"), to: text("b"), path: None },
            "db"
        ),
        DiffRoute::Revisions { from: text("a"), to: text("b"), path: None }
    );
    assert_eq!(
        repo_diff_look("x", PathState::Special, false),
        Err(invalid("path `x` is not a regular file"))
    );
    assert_eq!(
        repo_diff_look("x", PathState::Missing, true),
        Ok(PathStep::ArtifactRemoval)
    );
}

#[test]
fn keys_of_listings_ascend() {
    let l = listing(&["b.db", "a.db"], &["c.txt", "b.db"]);
    assert_eq!(listing_keys(&l), texts(&["a.db", "b.db", "c.txt"]));
    assert_eq!(
        workspace_sqlite_keys(&l, &listing(&["z.db"], &[])),
        texts(&["a.db", "b.db", "z.db"])
    );
    assert_eq!(
        tracked_repo_keys_under_directory(&listing(&["d/a.db", "e.db"], &["d/b.txt"]), "d"),
        texts(&["d/a.db", "d/b.txt"])
    );
}

#[test]
fn checkouts_remove_what_the_plan_lacks() {
    let actions = checkout_plan_path_actions(&listing(&["a.db"], &["n.txt"]), &listing(&["old.db"], &[]));
    let shown: Vec<(&str, PathActionKind)> =
        actions.iter().map(|a| (a.path.as_str(), a.action)).collect();
    assert_eq!(
        shown,
        vec![
            ("a.db", PathActionKind::CheckedOut),
            ("n.txt", PathActionKind::CheckedOut),
            ("old.db", PathActionKind::Removed),
        ]
    );
}

#[test]
fn status_lists_changes_by_path() {
    let shown = vec![change("b.txt", RepoWorktreeChangeKind::Modified, TEXT)];
    let s = repo_status_for_file(
        status(Vec::new()),
        shown,
        &texts(&["a.db", "c.db"]),
        &vec![TrackedState::Missing, TrackedState::Same],
    );
    assert_eq!(s.unstaged, texts(&["a.db", "b.txt"]));
    assert_eq!(s.unstaged_changes[0].change, RepoWorktreeChangeKind::Deleted);
    let only_text = filter_repo_status_by_kind(s, Some(TEXT));
    assert_eq!(only_text.unstaged, texts(&["b.txt"]));
}

#[test]
fn untracked_paths_are_preserved() {
    let s = status(vec![
        change("new.txt", RepoWorktreeChangeKind::Untracked, TEXT),
        change("db", RepoWorktreeChangeKind::Untracked, SQLITE),
    ]);
    assert_eq!(
        ensure_checkout_keys_preserve_untracked_paths(&s, "db", &texts(&["db", "new.txt"])),
        Err(invalid(
            "cannot checkout because untracked paths would be overwritten: new.txt"
        ))
    );
    assert_eq!(
        ensure_checkout_keys_preserve_untracked_paths(&s, "db", &texts(&["db"])),
        Ok(())
    );
    let mut merging = status(Vec::new());
    merging.merge_head = Some(text("m"));
    assert!(repo_has_work_in_progress_for_file(&merging, "db"));
}

#[test]
fn adds_go_by_what_stands_at_the_path() {
    let index = listing(&["d/a.db"], &[]);
    let route = |s, key: &str, ignored, force| stage_repo_add_path(s, "shown", key, &index, ignored, force);
    assert_eq!(route(PathState::Missing, "d", false, false), Ok(AddRoute::Deletions));
    assert_eq!(
        route(PathState::Missing, "x", false, false),
        Err(CommandError::Repo(RepoErr::PathNotTracked(text("x"))))
    );
    assert_eq!(
        route(PathState::Special, "d", false, false),
        Err(invalid("path `shown` is not a regular file or directory"))
    );
    assert_eq!(
        route(PathState::PlainFile, "n.txt", true, false),
        Err(invalid("path `n.txt` is ignored; use `--force` to add it"))
    );
    assert_eq!(route(PathState::PlainFile, "n.txt", true, true), Ok(AddRoute::File));
    assert_eq!(route(PathState::Directory, "d", false, false), Ok(AddRoute::DirectoryChanges));
    assert_eq!(route(PathState::Directory, "d", true, true), Ok(AddRoute::DirectoryFiles));
}

#[test]
fn staged_files_push_aside_what_is_in_their_way() {
    let index = listing(&["a/b.db", "c.db"], &["a"]);
    let head = listing(&["a/b.db"], &[]);
    assert_eq!(
        stage_repo_add_topology_removals(&index, &texts(&["a"]), Some(&head), "a/b.db/deep"),
        vec![
            (text("a"), Unstaging::RestoreIndex),
            (text("a/b.db"), Unstaging::StageRemoval),
        ]
    );
    assert_eq!(
        stage_repo_add_deletion(Some(&head), &texts(&[]), "gone"),
        Err(CommandError::Repo(RepoErr::PathNotTracked(text("gone"))))
    );
    assert_eq!(stage_repo_add_file(false, false, true), AddSource::Sqlite);
    assert_eq!(stage_repo_add_file(true, true, true), AddSource::Current);
}

#[test]
fn adds_of_everything_stage_by_kind() {
    let changes = vec![
        change("a.db", RepoWorktreeChangeKind::Deleted, SQLITE),
        change("d/n.txt", RepoWorktreeChangeKind::Untracked, TEXT),
    ];
    let steps = stage_repo_add_all(changes.clone(), Some(SQLITE), "a.db");
    assert_eq!(steps.len(), 1);
    assert!(steps[0].deleted && steps[0].opens_empty);
    let below = stage_repo_add_directory(changes, "d", "a.db");
    assert_eq!(below.len(), 1);
    assert_eq!(below[0].path, "d/n.txt");
    assert!(!below[0].deleted);
}

#[test]
fn directories_are_collected_without_side_files() {
    assert!(is_sqlite_sidecar_path("x.db-wal"));
    assert!(is_sqlite_sidecar_path("x.db-shm"));
    assert!(is_sqlite_sidecar_path("x.db-journal"));
    assert!(!is_sqlite_sidecar_path("x.db"));
    let step = collect_repo_add_directory_entry;
    assert_eq!(step(PathState::Directory, ".graft", false, true), EntryStep::Skip);
    assert_eq!(step(PathState::Directory, "d", true, false), EntryStep::Skip);
    assert_eq!(step(PathState::Directory, "d", false, false), EntryStep::Descend);
    assert_eq!(step(PathState::SqliteFile, "x.db-wal", false, true), EntryStep::Skip);
    assert_eq!(step(PathState::PlainFile, "n.txt", true, true), EntryStep::Add);
}

#[test]
fn removals_go_by_the_last_commit() {
    let index = listing(&["a.db", "new.db"], &[]);
    let head = listing(&["a.db"], &["n.txt"]);
    let keys = texts(&["new.db"]);
    let remove = |key: &str, current: &str, cached| {
        stage_repo_remove_key(Some(&head), &index, &keys, key, current, cached)
    };
    let step = remove("a.db", "x", false).unwrap();
    assert_eq!((step.how, step.file), (Unstaging::StageRemoval, FileRemoval::Sqlite));
    assert_eq!(removed_path_action(&step).action, PathActionKind::Staged);
    assert_eq!(remove("a.db", "a.db", false).unwrap().file, FileRemoval::OpenEmpty);
    assert_eq!(remove("a.db", "a.db", true).unwrap().file, FileRemoval::Keep);
    assert_eq!(remove("n.txt", "x", false).unwrap().file, FileRemoval::Artifact);
    let step = remove("new.db", "x", false).unwrap();
    assert_eq!(step.how, Unstaging::RestoreIndex);
    assert_eq!(removed_path_action(&step).action, PathActionKind::Removed);
    assert_eq!(
        remove("none", "x", false),
        Err(CommandError::Repo(RepoErr::PathNotTracked(text("none"))))
    );
    assert_eq!(
        stage_repo_remove_path(PathState::Directory, "s", "", &listing(&[], &[])),
        Err(CommandError::Repo(RepoErr::PathNotTracked(text("."))))
    );
    assert_eq!(
        stage_repo_remove_path(PathState::Missing, "s", "k", &index),
        Ok(texts(&["k"]))
    );
    assert_eq!(remove_physical_file(PathState::Missing, true, "s"), Ok(false));
    assert_eq!(
        remove_physical_file(PathState::Directory, true, "s"),
        Err(invalid("path `s` is not a regular SQLite database file"))
    );
}

#[test]
fn staged_entries_tell_what_changed() {
    let entry = |path: &str, file: bool| IndexEntry {
        path: text(path),
        stage: IndexStage::Normal,
        file: if file { Some(state("v")) } else { None },
        artifact: None,
    };
    let head = listing(&["a.db", "gone.db"], &[]);
    let shown = json_staged_entry_paths(
        Some(&head),
        &vec![entry("a.db", true), entry("b.db", true), entry("gone.db", false)],
    );
    let changes: Vec<&str> = shown.iter().map(|p| p.change.as_str()).collect();
    assert_eq!(changes, vec!["modified", "added", "deleted"]);
    assert_eq!(shown[0].kind, "sqlite_database");
}

fn restore_spec() -> RepoRestoreSpec {
    RepoRestoreSpec {
        source: None,
        expected_head: Some(text("h1")),
        require_clean: true,
        staged: false,
        all: false,
        kind: None,
        path: Some(text("a.db")),
    }
}

#[test]
fn restores_are_guarded() {
    let spec = restore_spec();
    assert_eq!(
        restore_repo_path(&spec, "h2", false, false),
        Err(invalid("cannot restore because HEAD changed: expected h1, found h2"))
    );
    assert_eq!(
        restore_repo_path(&spec, "h1", true, false),
        Err(invalid(
            "cannot restore because the repository has staged or tracked worktree changes"
        ))
    );
    assert_eq!(
        restore_repo_path(&spec, "h1", false, true),
        Err(CommandError::Repo(RepoErr::UnresolvedConflicts))
    );
    assert_eq!(restore_repo_path(&spec, "h1", false, false), Ok(RestoreRoute::Path));
    let mut nothing = restore_spec();
    nothing.path = None;
    assert_eq!(
        restore_repo_path(&nothing, "h1", false, false),
        Err(invalid("restore requires a path unless --staged --all is used"))
    );
}

#[test]
fn restore_plans_tell_deletions_from_restorations() {
    let source = listing(&["a.db"], &["n.txt"]);
    let index = listing(&["a.db", "b.db"], &[]);
    let keys = Vec::new();
    let sources = RestoreSources {
        source: &source,
        has_source: true,
        index: &index,
        index_keys: &keys,
        head: None,
    };
    let plan = plan_restore_repo_keys(&sources, &texts(&["a.db", "b.db", "n.txt"])).unwrap();
    let kinds: Vec<Option<RestoredKind>> = plan.iter().map(|e| e.restored).collect();
    assert_eq!(
        kinds,
        vec![Some(RestoredKind::File), None, Some(RestoredKind::Artifact)]
    );
    assert_eq!(
        plan_restore_repo_keys(&sources, &texts(&["none"])).unwrap_err(),
        invalid("path `none` is not tracked")
    );
    assert!(validate_restore_plan_path_conflicts(&texts(&["a", "a/b"])).is_err());
    assert!(validate_restore_plan_path_conflicts(&texts(&["a", "ab"])).is_ok());
}

#[test]
fn deletions_go_deep_first() {
    let entry = |key: &str, restored| RestorePlanEntry {
        key: text(key),
        restored,
        kind: SQLITE,
        storage: RepoPathStorage::SqliteSnapshot,
    };
    let plan = vec![
        entry("a", None),
        entry("d/e/f", None),
        entry("d/e", None),
        entry("x/y", Some(RestoredKind::File)),
        entry("x", Some(RestoredKind::File)),
    ];
    assert_eq!(restore_order(&plan, true), vec![1, 2, 0]);
    assert_eq!(restore_order(&plan, false), vec![4, 3]);
    assert_eq!(restore_key_depth("a/b/c"), 3);
    assert_eq!(
        preflight_restore_component(PathState::PlainFile, false, true, false, false),
        ComponentStep::NotDirectory
    );
}

#[test]
fn untracked_files_stop_a_restore() {
    let plan = vec![RestorePlanEntry {
        key: text("b.txt"),
        restored: Some(RestoredKind::Artifact),
        kind: TEXT,
        storage: RepoPathStorage::Inline,
    }];
    let index = listing(&[], &[]);
    assert_eq!(
        ensure_restore_keys_preserve_untracked_paths(&plan, &index, "db", &vec![true], &texts(&["c", "a"])),
        Err(invalid(
            "cannot restore because untracked paths would be overwritten: a, b.txt, c"
        ))
    );
    assert_eq!(
        ensure_restore_keys_preserve_untracked_paths(&plan, &index, "db", &vec![false], &Vec::new()),
        Ok(())
    );
}

#[test]
fn restored_keys_are_put_in_place() {
    assert_eq!(
        apply_restored_repo_key("db", "db", Some(RestoredKind::File), false),
        RestoreStep::SwitchSession
    );
    assert_eq!(
        apply_restored_repo_key("a", "db", None, true),
        RestoreStep::Leave
    );
    assert_eq!(
        update_worktree_state_after_index_restore_key("db", "db", false),
        DirtyMark::Dirty
    );
    assert_eq!(json_restore_paths(texts(&["a"])), (Some(text("a")), Vec::new()));
    assert_eq!(
        json_restore_paths(texts(&["a", "b"])),
        (None, texts(&["a", "b"]))
    );
    assert_eq!(
        restore_repo_directory(&Vec::new(), ""),
        Err(CommandError::Repo(RepoErr::PathNotTracked(text("."))))
    );
    let staged = vec![
        PathChange {
            path: text("a.db"),
            change: RepoFileChange::Added,
            kind: SQLITE,
            storage: RepoPathStorage::SqliteSnapshot,
        },
        PathChange {
            path: text("n.txt"),
            change: RepoFileChange::Added,
            kind: TEXT,
            storage: RepoPathStorage::Inline,
        },
    ];
    assert_eq!(restore_repo_staged_all(staged.clone(), Some(TEXT)), texts(&["n.txt"]));
    assert_eq!(restore_repo_staged_all(staged, None), texts(&["a.db", "n.txt"]));
}

#[test]
fn a_path_of_a_revision_is_checked_out_alone() {
    let source = listing(&["d/a.db"], &[]);
    let index = listing(&["d/b.db"], &[]);
    let one = checkout_repo_path_from_revision(&source, &index, None, "main", "d/a.db").unwrap();
    assert_eq!(one.len(), 1);
    assert_eq!(checked_out_paths(&one, "d/a.db"), (Some(text("d/a.db")), Vec::new()));
    assert_eq!(checked_out_paths(&one, "d"), (None, texts(&["d/a.db"])));
    let both = checkout_repo_path_from_revision(&source, &index, None, "main", "d").unwrap();
    let shown: Vec<(&str, bool)> = both.iter().map(|s| (s.key.as_str(), s.deleted)).collect();
    assert_eq!(shown, vec![("d/a.db", false), ("d/b.db", true)]);
    assert_eq!(
        checkout_repo_path_from_revision(&source, &index, None, "main", "x"),
        Err(CommandError::Repo(RepoErr::PathNotFoundInRevision {
            path: text("x"),
            rev: text("main")
        }))
    );
    let deletion = stage_checkout_deletion_for_key(false, true, "db", "db");
    assert_eq!(deletion.how, Unstaging::RestoreIndex);
    assert!(deletion.opens_empty);
}

#[test]
fn exports_need_a_source() {
    assert_eq!(export_repo_path(true, true, "a", "db"), Ok(ExportSource::Revision));
    assert_eq!(
        export_repo_path(true, false, "a", "db"),
        Err(CommandError::Repo(RepoErr::PathNotTracked(text("a"))))
    );
    assert_eq!(export_repo_path(false, false, "db", "db"), Ok(ExportSource::Session));
    assert_eq!(
        export_repo_path(false, false, "a", "db"),
        Err(invalid(
            "exporting worktree path `a` requires opening that database path or passing --source"
        ))
    );
}

#[test]
fn merged_paths_are_those_staged() {
    let entry = |path: &str, stage| IndexEntry {
        path: text(path),
        stage,
        file: Some(state("v")),
        artifact: None,
    };
    let plan = checkout_merged_repo_paths(
        vec![
            entry("a.db", IndexStage::Normal),
            entry("b.db", IndexStage::Normal),
            entry("c.db", IndexStage::Ours),
        ],
        &texts(&["a.db", "c.db"]),
    );
    assert_eq!(plan.files, texts(&["a.db"]));
    let kept = listing_within(listing(&["a.db", "z.db"], &["n.txt"]), &texts(&["a.db", "n.txt"]));
    assert_eq!(kept.files, texts(&["a.db"]));
    assert_eq!(kept.artifacts.len(), 1);
}

#[test]
fn failed_checkouts_are_undone() {
    assert_eq!(
        next_checkout_move(CheckoutStep::StageBackups, true),
        CheckoutMove::Do(CheckoutStep::MaterializeSqlite)
    );
    assert_eq!(
        next_checkout_move(CheckoutStep::ApplyBindings, false),
        CheckoutMove::Undo(UndoParts { artifacts: true, bindings: true, backups: true })
    );
    assert_eq!(
        next_checkout_move(CheckoutStep::Preflight, false),
        CheckoutMove::Undo(UndoParts { artifacts: false, bindings: false, backups: false })
    );
    assert_eq!(
        next_checkout_move(CheckoutStep::DiscardBackups, true),
        CheckoutMove::Finished
    );
    let entries = plan_backups(&texts(&["a", "b"]), &vec![true, false]);
    assert_eq!(
        restore_moves(&entries),
        vec![
            BackupMove::Remove { path: text("b") },
            BackupMove::PutBack { backup: 0, path: text("a") },
        ]
    );
}

#[test]
fn bindings_and_volumes() {
    assert_eq!(apply_binding("db", "db", true), BindingMove::SwitchSession);
    assert_eq!(apply_binding("db", "db", false), BindingMove::ClearSession);
    assert_eq!(apply_binding("a", "db", true), BindingMove::ReplaceTag);
    assert_eq!(apply_binding("a", "db", false), BindingMove::DeleteTag);
    assert_eq!(repo_file_state_volume(Some(3), 3, true, false), VolumeChoice::Named);
    assert_eq!(repo_file_state_volume(Some(2), 3, true, true), VolumeChoice::Empty);
    assert_eq!(repo_file_state_volume(None, 3, false, false), VolumeChoice::FromSnapshot);
    assert_eq!(backup_root_name(7, 3), "workspace-checkout-7-3");
    assert_eq!(
        temporary_checkout_file(7, 1000, 2, "x"),
        Ok(text(".graft-checkout-7-1000-2"))
    );
    assert_eq!(
        temporary_checkout_file(7, 1000, 100, "x"),
        Err(invalid("could not create temporary checkout file for `x`"))
    );
    let merged = |conflicted: &[&str]| MergeOutcome::Merged {
        head: text("h"),
        target: text("t"),
        merge_base: None,
        staged: texts(&["a"]),
        conflicted: texts(conflicted),
    };
    assert_eq!(checkout_merge_outcome(&merged(&[]), true), MergeCheckout::StagedPaths);
    assert_eq!(checkout_merge_outcome(&merged(&["b"]), true), MergeCheckout::Nothing);
    assert_eq!(
        checkout_merge_outcome(&MergeOutcome::FastForward { from: None, to: text("t") }, false),
        MergeCheckout::Head
    );
}

#[test]
fn checks_come_before_changes() {
    for kind in [UpdateKind::Checkout, UpdateKind::Switch, UpdateKind::Merge, UpdateKind::Pull] {
        for force in [false, true] {
            let steps = update_steps(kind, force);
            let place = |s: UpdateStep| steps.iter().position(|x| *x == s);
            let apply = place(UpdateStep::Apply).unwrap();
            assert!(place(UpdateStep::CheckWorkInProgress).unwrap() < apply);
            assert!(place(UpdateStep::Preflight).unwrap() < apply);
            assert_eq!(place(UpdateStep::WriteWorktree), Some(apply + 1));
        }
    }
}

#[test]
fn resets_follow_their_mode() {
    let facts = ResetFacts {
        had_staged_changes: false,
        had_old_head: true,
        target_is_old_head: false,
        current_is_old_head: true,
        current_is_target: false,
    };
    let soft = run_repo_reset(ResetMode::Soft, facts);
    assert!(soft.restage && soft.dirty.is_none() && !soft.checkout);
    assert_eq!(run_repo_reset(ResetMode::Mixed, facts).dirty, Some(true));
    assert!(run_repo_reset(ResetMode::Hard, facts).checkout);
}

#[test]
fn paths_become_keys() {
    assert_eq!(normalize_repo_path_filter("./a/b/", Host::Posix), "a/b");
    assert_eq!(normalize_repo_path_filter(".", Host::Posix), "");
    assert_eq!(normalize_repo_path_filter("a\\b", Host::Windows), "a/b");
    assert_eq!(normalize_repo_path_filter("a\\b", Host::Posix), "a\\b");
    assert_eq!(repo_path_arg("", None, Host::Posix), "");
    assert_eq!(repo_path_arg("/w/a/", Some("a/"), Host::Posix), "a");
    assert_eq!(repo_directory_key(Some("a\\b"), "s", "w"), Ok(text("a/b")));
    let outside = Err(CommandError::Repo(RepoErr::PathOutsideWorktree {
        path: text("s"),
        worktree: text("w"),
    }));
    assert_eq!(repo_directory_key(None, "s", "w"), outside);
    assert_eq!(
        repo_key_with_missing_parent(Some(texts(&["a"])), &texts(&["c", "b"]), Some("x.db"), "s", "w"),
        Ok(text("a/b/c/x.db"))
    );
    assert_eq!(
        repo_key_with_missing_parent(Some(texts(&[".."])), &Vec::new(), Some("x.db"), "s", "w"),
        outside
    );
    assert_eq!(
        repo_key_with_missing_parent(None, &Vec::new(), Some("x.db"), "s", "w"),
        outside
    );
    assert_eq!(storage_gc_roots(&texts(&["v2", "v1", "v2"])), texts(&["v1", "v2"]));
}

#[test]
fn tracked_databases_are_looked_at() {
    let standing = |standing: PathState, same: bool| tracked_state(TrackedLook::Standing { standing, same });
    assert_eq!(tracked_state(TrackedLook::Bound { same: true }), TrackedState::Same);
    assert_eq!(tracked_state(TrackedLook::Bound { same: false }), TrackedState::Changed);
    assert_eq!(standing(PathState::Missing, false), TrackedState::Missing);
    assert_eq!(standing(PathState::SqliteFile, true), TrackedState::Same);
    assert_eq!(standing(PathState::SqliteFile, false), TrackedState::Changed);
    assert_eq!(standing(PathState::PlainFile, false), TrackedState::PassedOver);
    assert_eq!(standing(PathState::Directory, false), TrackedState::PassedOver);
}

#[test]
fn restored_keys_name_files() {
    for key in ["a", "d/a.db", "d//a", "d/./a", "..a", "a/"] {
        assert_eq!(validate_restore_key(key), Ok(()), "{key}");
    }
    for key in ["", ".", "..", "./a", "/a", "a/..", "a/../b", "//"] {
        assert_eq!(
            validate_restore_key(key),
            Err(CommandError::InvalidCommand(format!("path `{key}` is not a valid repository file path")))
        );
    }
}

#[test]
fn restored_keys_are_marked() {
    let mark = update_restored_worktree_state_key;
    assert_eq!(mark(Some(RestoredKind::File), true, false, true), DirtyMark::Clean);
    assert_eq!(mark(Some(RestoredKind::File), true, false, false), DirtyMark::Dirty);
    assert_eq!(mark(Some(RestoredKind::Artifact), false, true, true), DirtyMark::Clean);
    assert_eq!(mark(None, false, false, false), DirtyMark::Clean);
    assert_eq!(mark(None, true, false, false), DirtyMark::Deleted);
    assert_eq!(mark(Some(RestoredKind::File), true, true, true), DirtyMark::Dirty);
    assert_eq!(mark(Some(RestoredKind::Artifact), true, true, true), DirtyMark::Dirty);
    assert_eq!(mark(None, true, true, true), DirtyMark::Deleted);
}

#[test]
fn only_a_hard_reset_reports_paths() {
    let plan = listing(&["a.db"], &["n.txt"]);
    let previous = listing(&["a.db", "old.db"], &[]);
    for mode in [ResetMode::Soft, ResetMode::Mixed] {
        let outcome = reset_outcome(text("c1"), mode, Some(text("main")), &plan, &previous);
        assert!(outcome.paths.is_empty());
        assert_eq!((outcome.target.as_str(), outcome.branch), ("c1", Some(text("main"))));
    }
    let outcome = reset_outcome(text("c1"), ResetMode::Hard, None, &plan, &previous);
    assert_eq!(outcome.paths, checkout_plan_path_actions(&plan, &previous));
    assert_eq!(outcome.paths.len(), 3);
}

fn planned(key: &str, restored: Option<RestoredKind>) -> RestorePlanEntry {
    RestorePlanEntry {
        key: text(key),
        restored,
        kind: RepoTrackedPathKind::SqliteDatabase,
        storage: RepoPathStorage::SqliteSnapshot,
    }
}

#[test]
fn restores_look_at_every_component() {
    assert_eq!(restore_components("d//e/./a.db"), texts(&["d", "e", "a.db"]));
    let plan = vec![planned("d", None), planned("d/a.db", Some(RestoredKind::File))];
    let step = |at: usize, place: usize, standing: PathState| preflight_restore_step(&plan, at, place, standing, "/w/d");
    assert_eq!(step(1, 0, PathState::Directory), Ok(true));
    assert_eq!(step(1, 0, PathState::Missing), Ok(false));
    assert_eq!(step(1, 0, PathState::PlainFile), Ok(false));
    assert_eq!(step(1, 1, PathState::SqliteFile), Ok(true));
    assert_eq!(
        step(1, 1, PathState::Special),
        Err(CommandError::InvalidCommand(text("path `/w/d` is not a regular file")))
    );
    assert_eq!(
        step(1, 0, PathState::Special),
        Err(CommandError::InvalidCommand(text("path ancestor `/w/d` is not a directory")))
    );
    assert_eq!(step(0, 0, PathState::Directory), Ok(true));
    let alone = vec![planned("d", None)];
    assert!(preflight_restore_step(&alone, 0, 0, PathState::Directory, "/w/d").is_err());
    assert!(plan_deletes_key(&plan, "d") && !plan_deletes_key(&plan, "d/a.db"));
    assert!(plan_restores_below(&plan, "d") && !plan_restores_below(&plan, "e"));
}

#[test]
fn what_a_restore_must_not_overwrite() {
    let plan = vec![planned("d/x", None), planned("d/y", None), planned("d", Some(RestoredKind::Artifact))];
    let index = listing(&[], &["d/x"]);
    assert!(!is_in_the_way(&plan, &index, "db", "d/x", PathState::PlainFile));
    assert!(is_in_the_way(&plan, &index, "db", "d/x", PathState::Special));
    assert!(is_in_the_way(&plan, &index, "db", "d/y", PathState::PlainFile));
    assert!(!is_in_the_way(&plan, &index, "d/y", "d/y", PathState::SqliteFile));
    assert!(is_in_the_way(&plan, &index, "db", "d/z", PathState::PlainFile));
}

#[test]
fn restored_files_are_held_against_the_index() {
    let index = listing(&["a.db"], &["n.txt"]);
    let mut other = listing(&["a.db"], &["n.txt"]);
    other.artifacts[0].state.oid = text("p");
    let file = planned("a.db", Some(RestoredKind::File));
    assert_eq!(restored_mark(&file, &index, &index, true), DirtyMark::Clean);
    assert_eq!(restored_mark(&file, &index, &index, false), DirtyMark::Dirty);
    let note = planned("n.txt", Some(RestoredKind::Artifact));
    assert_eq!(restored_mark(&note, &index, &index, false), DirtyMark::Clean);
    assert_eq!(restored_mark(&note, &other, &index, true), DirtyMark::Dirty);
    assert_eq!(restored_mark(&planned("n.txt", None), &index, &index, false), DirtyMark::Deleted);
    assert_eq!(restored_mark(&planned("gone", None), &index, &index, false), DirtyMark::Clean);
}
