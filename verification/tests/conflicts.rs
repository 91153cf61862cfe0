use graft_sqlite::answers::{record_resolution_answer, resolve_table_answer, unresolve_answer};
use graft_sqlite::auto_merge::{
    guard_merge_candidate, guard_merge_result, guard_semantic_merge_seed, install_merged_database,
    merge_resolution_paths, record_merge_analysis, row_auto_merge_sqlite_err, row_auto_merge_temp_name,
    row_merge_candidate, row_merge_candidate_result, row_merge_result,
    row_merge_session_choice, row_resolution_sql, validate_row_merge_foreign_keys, validate_row_merge_integrity,
    ForeignKeyViolation, InstallStep, IntegrityProofs, ResultPlace, RowMergeChoice,
};
use graft_sqlite::conflict_list::{conflict_paths, json_conflict_paths, unresolved_conflict_artifact_count};
use graft_sqlite::conflict_paths::{
    clear_path_row_resolutions, reopen_unresolved_path, resolution_state_step, resolve_repo_conflict_for_file,
    set_merge_path_resolution, unresolve_repo_conflict_for_file, ResolutionStateStep, ResolveStep, RowMergeInternalResolver,
};
use graft_sqlite::conflict_report::{
    current_file_row_merge_analysis, lost_row_merge_analysis, original_conflict_entries, repo_path_conflict_artifacts, CellConflict,
    JsonRowMergeAnalysis, OpaqueChangeReason, OpaqueConflict, PlanResult, RowChangeKind, RowConflictDetail, RowMergePlan,
    SchemaConflictDetail,
};
use graft_sqlite::conflicts::{
    cell_conflict_resolution_key, guard_selection, resolve_repo_cell_conflict, resolve_repo_row_conflict,
    resolve_repo_table_conflicts, row_conflict_resolution_key, row_identities_match, row_identity_label,
    selection_follow_up, unresolved_row_conflict_count, MergePlanFlags, MergeResolutionPathState,
    RowConflictResolutionState, RowMergeConflict, RowMergeConflictReason, SelectedPart, SelectionFollowUp,
};
use graft_sqlite::diff::PathState;
use graft_sqlite::error::{CommandError, RepoErr};
use graft_sqlite::jobs::{AsyncJobRegistry, AsyncJobResultFormat};
use graft_sqlite::json::JsonValue;
use graft_sqlite::merge_policy::{
    row_merge_apply_policy, row_merge_policy_from_config, ConfiguredResolver, ConfiguredSchemaResolver, MergeConfig,
    PolicySettings, RowMergePolicy,
};
use graft_sqlite::model::{CommitFileState, IndexEntry, RepoSnapshot};
use graft_sqlite::order::KeyMap;
use graft_sqlite::row_diff::RowLevelDiffLimitation;
use graft_sqlite::spec::{
    IndexStage, KeyPart, KeyValue, RepoPathStorage, RepoResolveCellSpec, RepoResolveRowSpec, RepoTrackedPathKind,
    ResolveSide, RowIdentity,
};

fn text(s: &str) -> String {
    s.to_string()
}

fn texts(list: &[&str]) -> Vec<String> {
    list.iter().map(|s| s.to_string()).collect()
}

fn invalid(message: &str) -> CommandError {
    CommandError::InvalidCommand(text(message))
}

fn state() -> CommitFileState {
    CommitFileState {
        volume: text("v"),
        snapshot: RepoSnapshot { page_count: 1, ranges: Vec::new() },
    }
}

fn entry(path: &str, stage: IndexStage) -> IndexEntry {
    IndexEntry { path: text(path), stage, file: Some(state()), artifact: None }
}

fn three_ways(path: &str) -> Vec<IndexEntry> {
    vec![
        entry(path, IndexStage::Base),
        entry(path, IndexStage::Ours),
        entry(path, IndexStage::Theirs),
    ]
}

fn resolution_state(paths: &[&str]) -> RowConflictResolutionState {
    let mut known = KeyMap::new();
    for path in paths {
        known.put(
            path,
            MergeResolutionPathState { original_entries: three_ways(path), resolution: None },
        );
    }
    RowConflictResolutionState {
        paths: known,
        rows: KeyMap::new(),
        cells: KeyMap::new(),
        analysis_errors: KeyMap::new(),
    }
}

fn a_real(value: f64) -> KeyValue {
    KeyValue::Real {
        bits: value.to_bits(),
        json: serde_json::Value::from(value).to_string(),
    }
}

fn key(value: KeyValue, shown: &str) -> RowIdentity {
    RowIdentity::PrimaryKey {
        parts: vec![KeyPart { column: text("id"), value, shown: text(shown) }],
    }
}

fn detail(table: &str, rowid: i64, cells: Vec<CellConflict>) -> RowConflictDetail {
    RowConflictDetail {
        reason: text("cell"),
        table: text(table),
        columns: texts(&["id", "name"]),
        identity: RowIdentity::Rowid(rowid),
        ours_identity: RowIdentity::Rowid(rowid),
        theirs_identity: key(KeyValue::Blob(vec![0xab]), "x"),
        semantic_key: None,
        semantic_key_collations: None,
        cells,
        ours: RowChangeKind::Update,
        theirs: RowChangeKind::Delete,
        base_row: Some(vec![KeyValue::Null, a_real(f64::NAN)]),
        ours_row: Some(vec![KeyValue::Integer(1), KeyValue::Blob(vec![1, 0xff])]),
        theirs_row: None,
    }
}

fn cell(column: &str) -> CellConflict {
    CellConflict {
        column: text(column),
        base: KeyValue::Null,
        ours: KeyValue::Integer(1),
        theirs: a_real(1.5),
    }
}

fn policy(same_row_merge: &str) -> RowMergePolicy {
    RowMergePolicy {
        settings: PolicySettings {
            same_row_merge: text(same_row_merge),
            semantic_keys: text("{}"),
            semantic_key_collations: text("{}"),
            column_resolvers: text("{}"),
        },
        default_semantic_keys: texts(&["uuid"]),
        internal_resolvers: KeyMap::new(),
        schema_resolvers: KeyMap::new(),
        generated_columns: KeyMap::new(),
    }
}

fn analysis_of(unmerged: bool, three_states: bool, plan: RowMergePlan) -> Option<JsonRowMergeAnalysis> {
    let result = PlanResult::Planned(plan);
    current_file_row_merge_analysis(
        "a.db",
        unmerged,
        three_states,
        &result,
        &policy("planned"),
        &policy("default"),
    )
}

fn plan() -> RowMergePlan {
    RowMergePlan {
        conflicts: Vec::new(),
        schema_conflicts: Vec::new(),
        unresolved_opaque: Vec::new(),
        resolved_opaque: Vec::new(),
        pending: Vec::new(),
        limitations: Vec::new(),
        ours_changes: 1,
        theirs_changes: 2,
        apply_changes: 2,
        opaque_changes: 0,
        keeps_ours: false,
        theirs_unchanged: false,
        requires_validation: false,
    }
}

#[test]
fn rows_are_told_apart() {
    assert_eq!(
        row_conflict_resolution_key("a.db", "t", &RowIdentity::Rowid(3)),
        "a.db\u{1f}t\u{1f}rowid:3"
    );
    assert!(
        cell_conflict_resolution_key("a.db", "t", &RowIdentity::Rowid(3), "c")
            .starts_with("a.db\u{1f}")
    );
    assert_eq!(row_identity_label(&RowIdentity::Rowid(-3)), "rowid=-3");
    let blob = key(KeyValue::Blob(vec![1]), "1");
    let same = key(KeyValue::Blob(vec![1]), "other");
    let other = key(KeyValue::Text(text("01")), "1");
    assert!(row_identities_match(&blob, &same));
    assert!(!row_identities_match(&blob, &other));
    assert!(!row_identities_match(&blob, &RowIdentity::Rowid(1)));
}

#[test]
fn selected_rows_are_resolved() {
    let conflicts = vec![
        RowMergeConflict {
            table: text("t"),
            identity: RowIdentity::Rowid(1),
            reason: RowMergeConflictReason::Row,
            cell_columns: Vec::new(),
        },
        RowMergeConflict {
            table: text("t"),
            identity: RowIdentity::Rowid(2),
            reason: RowMergeConflictReason::Cell,
            cell_columns: texts(&["Name", "age"]),
        },
        RowMergeConflict {
            table: text("t"),
            identity: RowIdentity::Rowid(3),
            reason: RowMergeConflictReason::SemanticKey,
            cell_columns: Vec::new(),
        },
    ];
    let none = MergePlanFlags { schema_conflicts: false, opaque_changes: false };
    let row = |id| RepoResolveRowSpec { table: text("t"), identity: RowIdentity::Rowid(id) };
    let mut s = resolution_state(&["a.db"]);
    assert_eq!(unresolved_row_conflict_count("a.db", &conflicts, &s), 3);
    assert_eq!(
        resolve_repo_row_conflict(&mut s, "a.db", ResolveSide::Theirs, &row(1), none, &conflicts),
        Ok(2)
    );
    assert_eq!(
        resolve_repo_row_conflict(&mut s, "a.db", ResolveSide::Manual, &row(1), none, &conflicts),
        Err(invalid("row conflict resolution requires `--ours` or `--theirs`"))
    );
    assert!(resolve_repo_row_conflict(&mut s, "a.db", ResolveSide::Ours, &row(3), none, &conflicts).is_err());
    assert_eq!(
        resolve_repo_row_conflict(&mut s, "a.db", ResolveSide::Ours, &row(9), none, &conflicts),
        Err(invalid("path `a.db` has no row conflict for t rowid=9"))
    );
    let cell = |column: &str| RepoResolveCellSpec {
        table: text("t"),
        identity: RowIdentity::Rowid(2),
        column: text(column),
    };
    assert!(resolve_repo_cell_conflict(&mut s, "a.db", ResolveSide::Ours, &cell("name"), &conflicts).is_ok());
    assert!(resolve_repo_cell_conflict(&mut s, "a.db", ResolveSide::Theirs, &cell("age"), &conflicts).is_ok());
    assert_eq!(unresolved_row_conflict_count("a.db", &conflicts, &s), 1);
    clear_path_row_resolutions(&mut s, "a.db");
    assert_eq!(unresolved_row_conflict_count("a.db", &conflicts, &s), 3);
    assert!(
        resolve_repo_table_conflicts(&mut s, "a.db", "other", ResolveSide::Ours, none, &conflicts).is_err()
    );
}

#[test]
fn paths_are_resolved_as_a_whole() {
    let mut s = resolution_state(&["a.db"]);
    assert_eq!(
        set_merge_path_resolution(&mut s, "b.db", Some("ours")),
        Err(CommandError::Repo(RepoErr::PathNotConflicted(text("b.db"))))
    );
    assert_eq!(set_merge_path_resolution(&mut s, "a.db", Some("ours")), Ok(()));
    assert_eq!(s.paths.get("a.db").unwrap().resolution, Some(text("ours")));
    assert_eq!(
        resolve_repo_conflict_for_file(&s, "a.db", "db", ResolveSide::Manual, false, PathState::Missing),
        Ok(ResolveStep::StageDeletion)
    );
    let none = None;
    assert_eq!(
        resolution_state_step(&none, &Some(text("m")), &none, &Some(text("n")), 2, true),
        Ok(ResolutionStateStep::Rebuild)
    );
    assert_eq!(
        resolution_state_step(&none, &none, &none, &none, 3, true),
        Err(invalid("active merge has an invalid or unsupported frozen merge policy"))
    );
}

#[test]
fn conflicts_of_rows_are_reported() {
    let mut s = resolution_state(&["a.db"]);
    let mut p = plan();
    p.conflicts = vec![detail("t", 1, Vec::new()), detail("t", 2, vec![cell("name")])];
    p.schema_conflicts = vec![SchemaConflictDetail {
        reason: text("both_changed"),
        name: text("idx"),
        entry_type: text("index"),
        ours: None,
        theirs: None,
        column_changes: Vec::new(),
        message: text("changed twice"),
    }];
    p.unresolved_opaque = vec![OpaqueConflict {
        name: text("fts"),
        change: text("modified"),
        reason: OpaqueChangeReason::FtsShadowTable,
        reason_name: text("fts_shadow_table"),
        owner: Some(text("docs")),
    }];
    s.rows.put(
        &row_conflict_resolution_key("a.db", "t", &RowIdentity::Rowid(1)),
        text("theirs"),
    );
    s.cells.put(
        &cell_conflict_resolution_key("a.db", "t", &RowIdentity::Rowid(2), "name"),
        text("ours"),
    );
    let result = PlanResult::Planned(p);
    let artifacts = repo_path_conflict_artifacts("a.db", &three_ways("a.db"), true, &result, &s);
    assert_eq!(artifacts.len(), 4);
    assert_eq!(artifacts[0].id, "a.db:row:t:rowid=1");
    assert_eq!(artifacts[0].resolution, Some(text("theirs")));
    assert_eq!(artifacts[0].status, "resolved");
    assert_eq!(
        artifacts[0].base_row,
        Some(vec![JsonValue::Null, JsonValue::Null])
    );
    assert_eq!(
        artifacts[0].ours_row,
        Some(vec![JsonValue::Integer(1), JsonValue::Text(text("01ff"))])
    );
    assert_eq!(
        artifacts[0].theirs_key.as_ref().unwrap().get("id"),
        Some(&JsonValue::Tagged { tag: text("$blob"), text: text("ab") })
    );
    assert_eq!(artifacts[1].resolution, Some(text("cells")));
    assert_eq!(artifacts[1].cells[0].resolution, Some(text("ours")));
    assert_eq!(artifacts[2].id, "a.db:schema:index:idx");
    assert_eq!(artifacts[2].status, "unresolved");
    assert_eq!(
        artifacts[3].message,
        Some(text(
            "FTS shadow table changes must be rebuilt or resolved with their owner table"
        ))
    );
    assert_eq!(unresolved_conflict_artifact_count(&artifacts), 2);
    let paths = json_conflict_paths(&artifacts);
    assert_eq!(paths.len(), 1);
    assert_eq!(
        (paths[0].total, paths[0].resolved, paths[0].unresolved),
        (4, 2, 2)
    );
    assert_eq!(paths[0].status, "unresolved");
    set_merge_path_resolution(&mut s, "a.db", Some("edited")).unwrap();
    let artifacts = repo_path_conflict_artifacts("a.db", &three_ways("a.db"), false, &result, &s);
    assert!(artifacts.iter().all(|a| a.resolution == Some(text("edited"))));
    assert_eq!(json_conflict_paths(&artifacts)[0].status, "resolved");
}

#[test]
fn conflicts_of_whole_files_are_reported() {
    let mut s = resolution_state(&["a.db"]);
    let reason = |entries: &Vec<IndexEntry>, unmerged, result: PlanResult, s: &RowConflictResolutionState| {
        let list = repo_path_conflict_artifacts("a.db", entries, unmerged, &result, s);
        list.into_iter().map(|a| a.reason).collect::<Vec<_>>()
    };
    let three = three_ways("a.db");
    let two = vec![entry("a.db", IndexStage::Ours)];
    let failed = || PlanResult::Failed(text("broken"));
    assert_eq!(reason(&two, true, failed(), &s), texts(&["add_delete_conflict"]));
    assert_eq!(reason(&three, true, failed(), &s), texts(&["analysis_error"]));
    assert_eq!(
        reason(&three, true, PlanResult::Planned(plan()), &s),
        texts(&["automatic_merge_available"])
    );
    let mut keeps = plan();
    keeps.keeps_ours = true;
    assert_eq!(
        reason(&three, true, PlanResult::Planned(keeps.clone()), &s),
        texts(&["merge_result_matches_ours"])
    );
    assert_eq!(
        reason(&three, false, PlanResult::Planned(keeps.clone()), &s),
        Vec::<String>::new()
    );
    keeps.theirs_unchanged = true;
    assert_eq!(
        reason(&three, true, PlanResult::Planned(keeps), &s),
        texts(&["theirs_logically_equivalent_to_base"])
    );
    let mut nothing = plan();
    nothing.apply_changes = 0;
    assert_eq!(
        reason(&three, true, PlanResult::Planned(nothing), &s),
        texts(&["no_applicable_changes"])
    );
    s.analysis_errors.put("a.db", text("CHECK failed"));
    let list = repo_path_conflict_artifacts("a.db", &three, true, &failed(), &s);
    assert_eq!(list[0].reason, "candidate_validation_failed");
    assert_eq!(list[0].message, Some(text("CHECK failed")));
    assert_eq!(list[0].auto_resolvable, Some(false));
    assert_eq!(conflict_paths(&texts(&["z.db"]), &s), texts(&["a.db", "z.db"]));
}

#[test]
fn analyses_say_what_blocks_a_merge() {
    let analysis =
        analysis_of(true, true, plan()).unwrap();
    assert!(analysis.can_auto_merge);
    assert_eq!(analysis.apply_policy.settings.same_row_merge, "planned");
    let mut p = plan();
    p.conflicts = vec![detail("t", 1, Vec::new())];
    p.opaque_changes = 1;
    p.limitations = vec![RowLevelDiffLimitation { kind: text("k"), subject: None }];
    p.apply_changes = 0;
    let analysis = analysis_of(true, true, p).unwrap();
    assert!(!analysis.can_auto_merge);
    assert_eq!(
        analysis.blocked_reasons,
        texts(&[
            "row_conflicts",
            "opaque_changes",
            "analysis_limitations",
            "no_applicable_changes"
        ])
    );
    assert_eq!(analysis.row_conflicts[0].rowid, Some(1));
    assert!(
        analysis_of(false, true, plan()).is_none()
    );
    assert_eq!(
        analysis_of(true, false, plan())
            .unwrap()
            .blocked_reasons,
        texts(&["add_delete_conflict"])
    );
    let lost = lost_row_merge_analysis(&None, "gone", &policy("default"));
    assert_eq!(lost.path, "db.sqlite3");
    assert_eq!(lost.apply_policy.settings.same_row_merge, "default");
    assert_eq!(lost.message, Some(text("row-level analysis unavailable: gone")));
}

#[test]
fn databases_without_conflicts_are_merged() {
    assert_eq!(row_merge_candidate(&plan()), RowMergeChoice::Apply);
    assert!(row_merge_candidate_result("a.db", &plan()).unwrap().resolved);
    let mut p = plan();
    p.requires_validation = true;
    assert!(!row_merge_candidate_result("a.db", &p).unwrap().resolved);
    p.conflicts = vec![detail("t", 1, Vec::new())];
    assert_eq!(row_merge_candidate(&p), RowMergeChoice::Skip);
    assert_eq!(row_merge_session_choice(&p, false), RowMergeChoice::Skip);
    assert_eq!(row_merge_session_choice(&p, true), RowMergeChoice::Apply);
    assert!(row_merge_result("a.db", &p, RowMergeChoice::Apply).is_none());
    let mut keeps = plan();
    keeps.keeps_ours = true;
    keeps.apply_changes = 0;
    assert_eq!(row_merge_candidate(&keeps), RowMergeChoice::KeepOurs);
    assert_eq!(
        install_merged_database("a.db", "a.db", true, true),
        InstallStep::SwitchSession
    );
    assert_eq!(
        install_merged_database("a.db", "db", true, true),
        InstallStep::InstallFile
    );
    assert_eq!(
        install_merged_database("a.db", "db", false, true),
        InstallStep::CheckoutPrepared
    );
}

#[test]
fn failures_of_merges_are_recorded() {
    let mut s = resolution_state(&["a.db"]);
    s.analysis_errors.put("a.db", text("old"));
    assert!(record_merge_analysis(&mut s, &texts(&["a.db"]), &texts(&["b.db"]), &texts(&["new"])));
    assert!(s.analysis_errors.get("a.db").is_none());
    assert_eq!(s.analysis_errors.get("b.db"), Some(&text("new")));
    assert!(!record_merge_analysis(&mut s, &texts(&["a.db"]), &texts(&["b.db"]), &texts(&["new"])));
}

#[test]
fn merged_databases_are_checked() {
    assert_eq!(validate_row_merge_integrity(&texts(&["ok"])), Ok(()));
    assert_eq!(
        validate_row_merge_integrity(&texts(&["row 1 missing", "page 2 lost"])),
        Err(invalid(
            "row-level auto-merge failed integrity_check: row 1 missing; page 2 lost"
        ))
    );
    assert_eq!(
        validate_row_merge_integrity(&Vec::new()),
        Err(invalid("row-level auto-merge failed integrity_check: "))
    );
    assert_eq!(validate_row_merge_foreign_keys(&None), Ok(()));
    assert_eq!(
        validate_row_merge_foreign_keys(&Some(ForeignKeyViolation {
            table: Some(text("children")),
            rowid: None,
            parent: Some(text("parents")),
            fkid: None,
        })),
        Err(invalid(
            "row-level auto-merge failed foreign_key_check: table=children, rowid=NULL, parent=parents, fkid=0"
        ))
    );
    assert_eq!(
        row_auto_merge_sqlite_err("disable triggers", "locked"),
        invalid("could not disable triggers for row-level auto-merge: locked")
    );
    assert_eq!(
        row_auto_merge_temp_name(9, 2, "d/ä b.db"),
        "row-merge-9-2-d___b.db.db"
    );
    let mut proofs = IntegrityProofs::new();
    for n in 0..256 {
        proofs.record(&n.to_string());
    }
    assert!(proofs.is_proven("0") && proofs.is_proven("255"));
    proofs.record("256");
    assert!(proofs.is_proven("256") && !proofs.is_proven("0"));
}

#[test]
fn merge_statements_follow_the_selections() {
    assert_eq!(
        row_resolution_sql(text("A;"), &vec![Some(text("B;")), None, Some(text("C;"))]),
        "A;\nB;\nC;"
    );
    assert_eq!(
        guard_merge_candidate(" \n"),
        Err(invalid("cannot materialize an empty row merge candidate"))
    );
    assert_eq!(guard_merge_candidate("A;"), Ok(()));
    assert_eq!(
        guard_semantic_merge_seed(&plan(), false, 2, false),
        Err(invalid(
            "semantic provider seed has 2 unresolved conflict(s) outside provider-managed tables"
        ))
    );
    assert!(guard_semantic_merge_seed(&plan(), true, 0, false).is_err());
    assert!(guard_semantic_merge_seed(&plan(), false, 0, true).is_err());
    assert_eq!(guard_semantic_merge_seed(&plan(), false, 0, false), Ok(()));
    let s = resolution_state(&["a.db"]);
    let entries = three_ways("a.db");
    assert_eq!(
        guard_merge_result(&s, &entries, true, ResultPlace::Worktree, "b.db", "p"),
        Err(CommandError::Repo(RepoErr::PathNotConflicted(text("b.db"))))
    );
    assert_eq!(
        guard_merge_result(&s, &Vec::new(), true, ResultPlace::Worktree, "a.db", "p"),
        Err(invalid("path `a.db` is not a tracked SQLite merge path"))
    );
    assert_eq!(
        guard_merge_result(&s, &entries, false, ResultPlace::External, "a.db", "p"),
        Err(invalid("semantic merge result `p` is not a readable SQLite database"))
    );
}

#[test]
fn conflict_entries_are_grouped_by_path() {
    let mut entries = three_ways("b.db");
    entries.push(entry("a.db", IndexStage::Normal));
    entries.push(entry("c.db", IndexStage::Ours));
    let paths = merge_resolution_paths(entries);
    assert_eq!(paths.keys, texts(&["b.db", "c.db"]));
    assert_eq!(paths.get("b.db").unwrap().original_entries.len(), 3);
    assert!(paths.get("b.db").unwrap().resolution.is_none());
}

#[test]
fn answers_in_json() {
    assert_eq!(
        record_resolution_answer("d/a.db", "edited"),
        "{\"operation\":\"record_merge_path_resolution\",\"path\":\"d/a.db\",\"resolution\":\"edited\"}"
    );
    assert_eq!(
        unresolve_answer(
            &None,
            &Some(text("m\"\n\u{1}ä")),
            "a.db",
            RepoTrackedPathKind::SqliteDatabase,
            RepoPathStorage::SqliteSnapshot,
            true
        ),
        "{\"current_branch\":\"m\\\"\\n\\u0001ä\",\"current_head\":null,\"materialized\":true,\"operation\":\"unresolve_merge_path\",\"path\":\"a.db\",\"path_kind\":\"sqlite_database\",\"resolution\":\"unresolved\",\"storage\":\"sqlite_snapshot\"}"
    );
    let answer = resolve_table_answer(
        &Some(text("h")),
        &None,
        "a.db",
        RepoTrackedPathKind::SqliteDatabase,
        RepoPathStorage::SqliteSnapshot,
        "t",
        ResolveSide::Ours,
        false,
        7,
    );
    let value: serde_json::Value = serde_json::from_str(&answer).unwrap();
    assert_eq!(value["remaining_conflicts"], 7);
    assert_eq!(value["table"], "t");
    assert_eq!(value["resolution"], "ours");
    assert_eq!(value.to_string(), answer);
}

#[test]
fn jobs_run_and_end() {
    let mut jobs = AsyncJobRegistry::new();
    let first = jobs.spawn_fetch(AsyncJobResultFormat::Json);
    let second = jobs.spawn_fetch(AsyncJobResultFormat::Text);
    assert_eq!((first.as_str(), second.as_str()), ("graft-job-1", "graft-job-2"));
    assert_eq!(
        jobs.result(&first),
        Err(invalid("job `graft-job-1` is still running"))
    );
    assert_eq!(
        jobs.status_json(&first).unwrap(),
        "{\"error\":null,\"id\":\"graft-job-1\",\"kind\":\"fetch\",\"result\":null,\"state\":\"running\"}"
    );
    jobs.finish(&first, Ok(text("{ \"a\" : [1, 2] }")));
    assert_eq!(jobs.result(&first), Ok(text("{ \"a\" : [1, 2] }")));
    assert_eq!(
        jobs.json_status(&first).unwrap(),
        "{\"error\":null,\"id\":\"graft-job-1\",\"kind\":\"fetch\",\"result\":{\"a\":[1,2]},\"result_format\":\"json\",\"state\":\"done\"}"
    );
    assert_eq!(
        jobs.status_json(&first).unwrap(),
        "{\"error\":null,\"id\":\"graft-job-1\",\"kind\":\"fetch\",\"result\":\"{ \\\"a\\\" : [1, 2] }\",\"state\":\"done\"}"
    );
    jobs.finish(&second, Err(text("offline")));
    assert_eq!(
        jobs.result(&second),
        Err(invalid("job `graft-job-2` failed: offline"))
    );
    assert_eq!(jobs.result("x"), Err(invalid("unknown job `x`")));
    jobs.finish("x", Ok(text("ignored")));
    assert!(jobs.json_status("x").is_err());
    let third = jobs.spawn_fetch(AsyncJobResultFormat::Json);
    jobs.finish(&third, Ok(text("not json")));
    assert!(jobs.json_status(&third).unwrap().contains("\"result\":\"not json\""));
    let fourth = jobs.spawn_fetch(AsyncJobResultFormat::Text);
    jobs.finish(&fourth, Ok(text("[1]")));
    assert!(jobs.json_status(&fourth).unwrap().contains("\"result\":\"[1]\""));
}

#[test]
fn primary_keys_name_rows_as_json() {
    let named = |value: KeyValue| row_conflict_resolution_key("a.db", "t", &key(value, "shown"));
    assert_eq!(named(KeyValue::Blob(vec![0xab])), "a.db\u{1f}t\u{1f}key:{\"id\":{\"$blob\":\"ab\"}}");
    assert_eq!(named(KeyValue::Text(text("ab"))), "a.db\u{1f}t\u{1f}key:{\"id\":\"ab\"}");
    assert_eq!(named(KeyValue::Text(text("\"\n"))), "a.db\u{1f}t\u{1f}key:{\"id\":\"\\\"\\n\"}");
    assert_eq!(named(KeyValue::Integer(-7)), "a.db\u{1f}t\u{1f}key:{\"id\":-7}");
    assert_eq!(named(a_real(1.5)), "a.db\u{1f}t\u{1f}key:{\"id\":1.5}");
    assert_eq!(named(a_real(f64::NAN)), "a.db\u{1f}t\u{1f}key:{\"id\":null}");
    assert_eq!(named(KeyValue::Null), "a.db\u{1f}t\u{1f}key:{\"id\":null}");
    let parts = |names: &[&str]| RowIdentity::PrimaryKey {
        parts: names
            .iter()
            .enumerate()
            .map(|(i, n)| KeyPart { column: text(n), value: KeyValue::Integer(i as i64), shown: text("") })
            .collect(),
    };
    assert_eq!(
        row_conflict_resolution_key("p", "t", &parts(&["b", "a", "b"])),
        "p\u{1f}t\u{1f}key:{\"a\":1,\"b\":2}"
    );
}

#[test]
fn policies_take_resolvers_that_fit() {
    let configured = |subject: &str, resolver: Option<RowMergeInternalResolver>, name: &str| ConfiguredResolver {
        subject: text(subject),
        resolver,
        name: text(name),
    };
    let mut default = policy("default");
    default.internal_resolvers.put("sqlite_stat1", text("old"));
    default.schema_resolvers.put("add_column", text("kept"));
    let mut generated_columns = KeyMap::new();
    generated_columns.put("t", texts(&["total"]));
    let config = MergeConfig {
        settings: policy("configured").settings,
        default_semantic_keys: texts(&["id"]),
        generated_columns,
        internal_resolvers: vec![
            configured("sqlite_stat1", Some(RowMergeInternalResolver::Rebuild), "rebuild"),
            configured("sqlite_sequence", Some(RowMergeInternalResolver::SequenceMax), "max"),
            configured("index_btree", Some(RowMergeInternalResolver::Rebuild), "rebuild"),
            configured("sqlite_stat4", None, "nonsense"),
        ],
        schema_resolvers: vec![
            ConfiguredSchemaResolver { operation: text("drop_column"), known: true, name: text("union") },
            ConfiguredSchemaResolver { operation: text("rename"), known: false, name: text("what") },
        ],
    };
    let made = row_merge_policy_from_config(config, default);
    let shown = row_merge_apply_policy(&made);
    assert_eq!(shown.foreign_keys, "disabled_during_apply_checked_after");
    assert_eq!(shown.triggers, "disabled_during_apply");
    assert_eq!(shown.validation, texts(&["integrity_check", "foreign_key_check"]));
    assert_eq!(shown.settings.same_row_merge, "configured");
    assert_eq!(shown.default_semantic_keys, texts(&["id"]));
    let resolvers: Vec<(&str, &str)> = shown
        .internal_resolvers
        .iter()
        .map(|r| (r.table.as_str(), r.resolver.as_str()))
        .collect();
    assert_eq!(resolvers, vec![("sqlite_sequence", "max"), ("sqlite_stat1", "rebuild")]);
    let resolvers: Vec<(&str, &str)> = shown
        .schema_resolvers
        .iter()
        .map(|r| (r.operation.as_str(), r.resolver.as_str()))
        .collect();
    assert_eq!(resolvers, vec![("add_column", "kept"), ("drop_column", "union")]);
    assert_eq!(shown.generated_columns[0].columns, texts(&["total"]));
}

#[test]
fn reopening_a_path_undoes_its_resolution() {
    let mut s = resolution_state(&["a.db", "b.db"]);
    s.rows.put("a.db\u{1f}t\u{1f}rowid:1", text("ours"));
    s.rows.put("b.db\u{1f}t\u{1f}rowid:1", text("theirs"));
    s.cells.put("a.db\u{1f}t\u{1f}rowid:2\u{1f}name", text("ours"));
    s.analysis_errors.put("a.db", text("old"));
    s.analysis_errors.put("b.db", text("kept"));
    set_merge_path_resolution(&mut s, "a.db", Some("ours")).unwrap();
    assert_eq!(s.paths.get("a.db").unwrap().resolution, Some(text("ours")));
    let entries = original_conflict_entries(&s, &Vec::new(), "a.db").clone();
    assert_eq!(entries, three_ways("a.db"));
    assert!(unresolve_repo_conflict_for_file(&entries, "a.db", "db", false).is_ok());
    reopen_unresolved_path(&mut s, "a.db");
    assert_eq!(s.paths.get("a.db").unwrap().resolution, None);
    assert_eq!(s.paths.get("a.db").unwrap().original_entries, three_ways("a.db"));
    assert_eq!(s.rows.keys, vec!["b.db\u{1f}t\u{1f}rowid:1"]);
    assert!(s.cells.keys.is_empty());
    assert_eq!(s.analysis_errors.keys, vec!["b.db"]);
}

#[test]
fn nothing_is_written_where_nothing_changed() {
    let mut s = resolution_state(&["a.db"]);
    assert!(!record_merge_analysis(&mut s, &texts(&["a.db"]), &Vec::new(), &Vec::new()));
    s.analysis_errors.put("a.db", text("same"));
    assert!(!record_merge_analysis(&mut s, &Vec::new(), &texts(&["a.db"]), &texts(&["same"])));
    assert!(record_merge_analysis(&mut s, &Vec::new(), &texts(&["a.db"]), &texts(&["other"])));
    assert!(record_merge_analysis(&mut s, &texts(&["a.db"]), &Vec::new(), &Vec::new()));
}

#[test]
fn selections_need_a_side_and_three_states() {
    assert_eq!(guard_selection(SelectedPart::Row, ResolveSide::Ours, true, "a.db"), Ok(()));
    assert_eq!(
        guard_selection(SelectedPart::Row, ResolveSide::Manual, false, "a.db"),
        Err(invalid("row conflict resolution requires `--ours` or `--theirs`"))
    );
    assert_eq!(
        guard_selection(SelectedPart::Row, ResolveSide::Ours, false, "a.db"),
        Err(invalid("path `a.db` has no row conflict stages"))
    );
    for part in [SelectedPart::Cell, SelectedPart::Table] {
        assert_eq!(
            guard_selection(part, ResolveSide::Theirs, false, "a.db"),
            Err(invalid("path `a.db` has no SQLite row conflict stages"))
        );
    }
    let none = SelectionFollowUp { materialized: false, staged: false };
    assert_eq!(selection_follow_up(1, false, false), none);
    assert_eq!(selection_follow_up(0, true, true), none);
    assert_eq!(
        selection_follow_up(0, false, false),
        SelectionFollowUp { materialized: true, staged: true }
    );
}
