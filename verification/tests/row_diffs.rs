use graft_sqlite::error::CommandError;
use graft_sqlite::file_diff::{compares_rows, matches_reader};
use graft_sqlite::image::SqliteImage;
use graft_sqlite::json::{JsonRowChange, JsonValue};
use graft_sqlite::model::RepoFileChange;
use graft_sqlite::row_diff::{
    bounded_row_cursor, bounded_row_offset, bounded_rows_mode, json_repo_bounded_diff, json_repo_row_diff,
    json_row_change, BoundedRowDiff, BoundedRowDiffMode, BoundedRowDiffTelemetry, OpaqueChange, RepoDiffPath,
    RowChange, RowDiffResult, RowDiffTelemetry, RowLevelDiff, RowLevelDiffLimitation, SchemaChange, TableChanges,
    TableSummary,
};
use graft_sqlite::spec::{KeyPart, KeyValue, RepoPathStorage, RepoTrackedPathKind};
use graft_sqlite::{diff_sqlite_files, SqliteFileDiffOptions};

fn text(s: &str) -> String {
    s.to_string()
}

fn texts(list: &[&str]) -> Vec<String> {
    list.iter().map(|s| s.to_string()).collect()
}

fn path(name: &str) -> RepoDiffPath {
    RepoDiffPath {
        path: text(name),
        previous_path: None,
        change: RepoFileChange::Modified,
        kind: RepoTrackedPathKind::SqliteDatabase,
        storage: RepoPathStorage::SqliteSnapshot,
    }
}

fn rows() -> RowLevelDiff {
    RowLevelDiff {
        logical_status: text("changed"),
        capabilities: texts(&["rows"]),
        limitations: vec![RowLevelDiffLimitation { kind: text("views"), subject: Some(text("v")) }],
        schema_changes: vec![SchemaChange {
            name: text("t"),
            entry_type: text("table"),
            kind: text("added"),
            sql: Some(text("CREATE TABLE t(a)")),
            old_sql: None,
        }],
        table_changes: vec![TableChanges {
            table_name: text("t"),
            columns: texts(&["a"]),
            primary_key_columns: Vec::new(),
            changes: vec![RowChange::Insert { rowid: 1, row: vec![KeyValue::Integer(7)] }],
        }],
        opaque_changes: vec![OpaqueChange {
            name: text("fts"),
            change: text("modified"),
            reason: text("virtual_table"),
            owner: None,
        }],
        telemetry: RowDiffTelemetry { requested_table: None, tables_considered: 2, tables_scanned: 1 },
        report_body: text("t: 1 insert\n\n+ 7"),
    }
}

fn image(fills: &[u8]) -> Vec<u8> {
    let mut bytes = Vec::new();
    for fill in fills {
        bytes.extend(vec![*fill; 4096]);
    }
    bytes[..16].copy_from_slice(b"SQLite format 3\0");
    bytes[16] = 0x10;
    bytes[17] = 0;
    bytes
}

fn open(bytes: Vec<u8>) -> SqliteImage {
    SqliteImage::open("plain", bytes).unwrap()
}

#[test]
fn values_become_json() {
    let value = |v: KeyValue| JsonRowChange::value_to_json(&v);
    assert_eq!(value(KeyValue::Null), JsonValue::Null);
    assert_eq!(value(KeyValue::Integer(-1)), JsonValue::Integer(-1));
    let of_real = |v: f64| {
        value(KeyValue::Real {
            bits: v.to_bits(),
            json: serde_json::Value::from(v).to_string(),
        })
    };
    assert_eq!(of_real(2.5), JsonValue::Number(text("2.5")));
    assert_eq!(of_real(f64::INFINITY), JsonValue::Null);
    assert_eq!(of_real(f64::NAN), JsonValue::Null);
    assert_eq!(value(KeyValue::Text(text("ä"))), JsonValue::Text(text("ä")));
    assert_eq!(value(KeyValue::Blob(vec![0, 255])), JsonValue::Text(text("00ff")));
    assert_eq!(
        JsonRowChange::primary_key_value_to_json(&KeyValue::Blob(vec![16])),
        JsonValue::Tagged { tag: text("$blob"), text: text("10") }
    );
    assert_eq!(
        JsonRowChange::primary_key_value_to_json(&KeyValue::Text(text("10"))),
        JsonValue::Text(text("10"))
    );
}

#[test]
fn row_changes_become_json() {
    let key = vec![
        KeyPart { column: text("b"), value: KeyValue::Integer(1), shown: text("1") },
        KeyPart { column: text("a"), value: KeyValue::Integer(2), shown: text("2") },
        KeyPart { column: text("b"), value: KeyValue::Integer(3), shown: text("3") },
    ];
    let change = json_row_change(&RowChange::PrimaryKeyUpdate {
        key,
        old_row: vec![KeyValue::Null],
        new_row: vec![KeyValue::Integer(5)],
    });
    assert_eq!(change.op, "update");
    assert_eq!(change.rowid, None);
    let key = change.key.unwrap();
    assert_eq!(key.keys, texts(&["a", "b"]));
    assert_eq!(key.get("b"), Some(&JsonValue::Integer(3)));
    assert_eq!(change.values, vec![JsonValue::Integer(5)]);
    assert_eq!(change.old_values, Some(vec![JsonValue::Null]));
    let change = json_row_change(&RowChange::Delete { rowid: 4, row: Vec::new() });
    assert_eq!((change.op.as_str(), change.rowid), ("delete", Some(4)));
}

#[test]
fn one_failed_comparison_does_not_fail_the_others() {
    let result = json_repo_row_diff(
        "a",
        "b",
        &vec![path("x.db")],
        &vec![path("x.db"), path("y.db"), path("z.db")],
        &vec![
            RowDiffResult::Available(rows()),
            RowDiffResult::Absent,
            RowDiffResult::Failed(text("broken")),
        ],
    );
    assert_eq!(result.paths[0].change, "modified");
    assert!(result.files[0].row_diff_available);
    assert_eq!(result.files[0].tables[0].changes[0].values, vec![JsonValue::Integer(7)]);
    assert_eq!(result.files[0].schema_changes[0].op, "added");
    assert_eq!(result.files[0].telemetry.tables_considered, 2);
    assert_eq!(
        result.files[1].message,
        Some(text("row diff unavailable for modified database snapshots"))
    );
    assert_eq!(
        result.files[2].message,
        Some(text("row diff unavailable for modified database snapshots: broken"))
    );
    assert_eq!(result.files[2].logical_status, "row_diff_unavailable");
}

#[test]
fn cursors_lead_to_the_next_page() {
    assert_eq!(bounded_row_cursor("tä", 20), "graft-row-v1:74c3a4:20");
    assert_eq!(bounded_row_offset(None, "t"), Ok(0));
    let cursor = bounded_row_cursor("t", 20);
    assert_eq!(bounded_row_offset(Some(&cursor), "t"), Ok(20));
    let other = Err(CommandError::InvalidCommand(text(
        "row diff cursor does not match the requested table",
    )));
    assert_eq!(bounded_row_offset(Some(&cursor), "u"), other);
    let bad = Err(CommandError::InvalidCommand(text(
        "invalid or incompatible row diff cursor",
    )));
    for cursor in ["", "graft-row-v1:74", "graft-row-v2:74:1", "graft-row-v1:74:x"] {
        assert_eq!(bounded_row_offset(Some(cursor), "t"), bad);
    }
    assert_eq!(
        bounded_rows_mode("t", 5, Some(&bounded_row_cursor("t", 10))),
        Ok(BoundedRowDiffMode::Rows { table: text("t"), limit: 5, offset: 10 })
    );
}

#[test]
fn bounded_diffs_carry_their_cursor() {
    let page = BoundedRowDiff {
        logical_status: text("changed"),
        capabilities: Vec::new(),
        limitations: Vec::new(),
        summaries: vec![TableSummary { table_name: text("t"), inserts: 1, deletes: 2, updates: 3 }],
        schema_changes: Vec::new(),
        table_changes: Vec::new(),
        opaque_changes: Vec::new(),
        has_more: true,
        next_offset: Some(5),
        telemetry: BoundedRowDiffTelemetry {
            requested_table: Some(text("t")),
            tables_considered: 1,
            tables_scanned: 1,
            rows_scanned: 6,
            rows_returned: 5,
            truncated: true,
            response_scope: text("page"),
        },
    };
    let mode = BoundedRowDiffMode::Rows { table: text("t"), limit: 5, offset: 0 };
    let result = json_repo_bounded_diff(
        "a",
        "b",
        &Vec::new(),
        &vec![path("x.db"), path("y.db")],
        &vec![RowDiffResult::Available(page), RowDiffResult::Failed(text("broken"))],
        &mode,
    );
    assert_eq!(result.files[0].mode, "rows");
    assert_eq!(result.files[0].next_cursor, Some(bounded_row_cursor("t", 5)));
    assert_eq!(result.files[0].summaries[0].updates, 3);
    assert_eq!(
        result.files[1].message,
        Some(text("bounded row diff unavailable: broken"))
    );
    assert_eq!(result.files[1].telemetry.response_scope, "unavailable");
}

#[test]
fn volatile_header_bytes_are_no_change() {
    let base = image(&[1, 2]);
    let mut touched = base.clone();
    touched[24] ^= 0xff;
    touched[95] ^= 0xff;
    touched[99] ^= 0xff;
    assert!(matches_reader(&open(base.clone()), &open(touched.clone())));
    let rows_asked = SqliteFileDiffOptions { rows: true };
    assert!(!compares_rows(&open(base.clone()), &open(touched.clone()), rows_asked));
    let diff = diff_sqlite_files("a", &open(base.clone()), "b", &open(touched), rows_asked, Some(rows()));
    assert!(!diff.changed && diff.row_diff.is_none());
    assert_eq!(diff.to_report().unwrap(), "Row Diff --no-index a..b\nNo changes.\n");
    let mut changed = base.clone();
    changed[28] ^= 0xff;
    assert!(!matches_reader(&open(base.clone()), &open(changed)));
    assert!(!matches_reader(&open(base), &open(image(&[1, 2, 3]))));
}

#[test]
fn file_diffs_are_reported() {
    let from = open(image(&[1]));
    let to = open(image(&[1, 2]));
    let plain = diff_sqlite_files("a", &from, "b", &to, SqliteFileDiffOptions::default(), None);
    assert_eq!(
        plain.to_report().unwrap(),
        "Diff --no-index a..b\nmodified: a -> b\n  from: 1 page(s), physical file\n  to:   2 page(s), physical file\n"
    );
    let with_rows =
        diff_sqlite_files("a", &from, "b", &to, SqliteFileDiffOptions { rows: true }, Some(rows()));
    assert_eq!(
        with_rows.to_report().unwrap(),
        "Row Diff --no-index a..b\nmodified: a -> b\n  from: 1 page(s), physical file\n  to:   2 page(s), physical file\n  t: 1 insert\n  \n  + 7\n"
    );
    let json = with_rows.to_json();
    assert_eq!(json.kind, "sqlite_database");
    assert_eq!((json.from.page_count, json.to.page_count), (1, 2));
    assert!(json.changed && json.rows);
    let row_diff = json.row_diff.unwrap();
    assert_eq!(row_diff.opaque_changes[0].reason, "virtual_table");
    assert_eq!(row_diff.limitations[0].subject, Some(text("v")));
    assert!(plain.to_json().row_diff.is_none());
}
