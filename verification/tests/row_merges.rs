use std::io::{Seek, SeekFrom, Write};
use std::path::Path;

use graft_sqlite::auto_merge::{
    row_auto_merge_sqlite_err, validate_row_merge_foreign_keys, validate_row_merge_integrity, ForeignKeyViolation,
    IntegrityProofs, MergePass, MergePassTask, Preparation,
};
use graft_sqlite::error::CommandError;
use graft_sqlite::report_sync::RowAutoMergeResult;
use rusqlite::config::DbConfig;
use rusqlite::{Connection, OpenFlags};

fn message(error: CommandError) -> String {
    match error {
        CommandError::InvalidCommand(message) => message,
        other => panic!("unexpected error {other:?}"),
    }
}

fn failed(action: &str, error: rusqlite::Error) -> CommandError {
    row_auto_merge_sqlite_err(action, &error.to_string())
}

/// Applies the statements of a merge to a database and hands the first row of SQLite's check on.
fn apply_row_merge_sql_to_path(path: &Path, sql: &str) -> Result<(), CommandError> {
    let connection = Connection::open_with_flags(
        path,
        OpenFlags::SQLITE_OPEN_READ_WRITE | OpenFlags::SQLITE_OPEN_NO_MUTEX,
    )
    .map_err(|err| failed("open temporary database", err))?;
    connection
        .execute_batch("PRAGMA cell_size_check = ON; PRAGMA foreign_keys = OFF;")
        .map_err(|err| failed("configure merge validation", err))?;
    connection
        .set_db_config(DbConfig::SQLITE_DBCONFIG_ENABLE_TRIGGER, false)
        .map_err(|err| failed("disable triggers", err))?;
    connection.execute_batch(sql).map_err(|err| failed("apply row changes", err))?;
    let mut statement = connection.prepare("PRAGMA foreign_key_check;").unwrap();
    let mut rows = statement.query([]).unwrap();
    let violation = rows.next().unwrap().map(|row| ForeignKeyViolation {
        table: row.get::<_, String>(0).ok(),
        rowid: row.get::<_, Option<i64>>(1).unwrap_or(None),
        parent: row.get::<_, String>(2).ok(),
        fkid: row.get::<_, i64>(3).ok(),
    });
    validate_row_merge_foreign_keys(&violation)
}

/// Checks a database once for each state.
fn validate_row_merge_base_integrity(
    proofs: &mut IntegrityProofs,
    path: &Path,
    state: &str,
) -> Result<(), CommandError> {
    if proofs.is_proven(state) {
        return Ok(());
    }
    let connection = Connection::open_with_flags(path, OpenFlags::SQLITE_OPEN_READ_ONLY).unwrap();
    let mut statement = connection
        .prepare("PRAGMA integrity_check;")
        .map_err(|err| failed("prepare integrity_check", err))?;
    let rows = statement
        .query_map([], |row| row.get::<_, String>(0))
        .map_err(|err| failed("run integrity_check", err))?
        .collect::<rusqlite::Result<Vec<_>>>()
        .map_err(|err| failed("read integrity_check", err))?;
    validate_row_merge_integrity(&rows)?;
    proofs.record(state);
    Ok(())
}

#[test]
fn immutable_integrity_proofs_are_exact_and_corrupt_states_still_fail() {
    let mut file = tempfile::NamedTempFile::new().unwrap();
    let path = file.path().to_path_buf();
    let conn = Connection::open(&path).unwrap();
    conn.execute_batch(
        "PRAGMA page_size = 4096;\
         CREATE TABLE items(id INTEGER PRIMARY KEY, payload BLOB NOT NULL);\
         INSERT INTO items VALUES(1, zeroblob(12000));",
    )
    .unwrap();
    drop(conn);

    let mut proofs = IntegrityProofs::new();
    validate_row_merge_base_integrity(&mut proofs, &path, "first").unwrap();

    file.seek(SeekFrom::Start(4096)).unwrap();
    file.write_all(&[0; 4096]).unwrap();
    file.flush().unwrap();

    let error = validate_row_merge_base_integrity(&mut proofs, &path, "second").unwrap_err();
    assert!(message(error).contains("integrity_check"));
    assert!(proofs.is_proven("first"));
    assert!(!proofs.is_proven("second"));
}

#[test]
fn row_merge_delta_keeps_sqlite_constraints_enabled() {
    let temp = tempfile::tempdir().unwrap();
    let path = temp.path().join("constraints.db");
    let conn = Connection::open(&path).unwrap();
    conn.execute_batch(
        "CREATE TABLE items(id INTEGER PRIMARY KEY, name TEXT NOT NULL UNIQUE);\
         INSERT INTO items VALUES(1, 'existing');",
    )
    .unwrap();
    drop(conn);

    let error = apply_row_merge_sql_to_path(
        &path,
        "BEGIN TRANSACTION; INSERT INTO items VALUES(2, 'existing'); COMMIT;",
    )
    .unwrap_err();
    assert!(message(error).contains("UNIQUE constraint failed"));
}

#[test]
fn row_merge_delta_checks_foreign_keys_after_the_transaction() {
    let temp = tempfile::tempdir().unwrap();
    let path = temp.path().join("foreign-keys.db");
    let conn = Connection::open(&path).unwrap();
    conn.execute_batch(
        "CREATE TABLE parents(id INTEGER PRIMARY KEY);\
         CREATE TABLE children(\
           id INTEGER PRIMARY KEY,\
           parent_id INTEGER NOT NULL REFERENCES parents(id)\
         );",
    )
    .unwrap();
    drop(conn);

    let error = apply_row_merge_sql_to_path(
        &path,
        "BEGIN TRANSACTION; INSERT INTO children VALUES(1, 99); COMMIT;",
    )
    .unwrap_err();
    assert!(message(error).contains("failed foreign_key_check"));
}

#[test]
fn merges_are_prepared_before_a_path_changes() {
    let result = |key: &str| RowAutoMergeResult {
        key: key.to_string(),
        applied_changes: 1,
        ours_changes: 1,
        theirs_changes: 1,
        resolved: true,
        requires_validation: false,
    };
    let keys: Vec<String> = ["a.db", "b.db", "c.db"].iter().map(|key| key.to_string()).collect();
    let mut pass = MergePass::start(keys);
    assert_eq!(pass.task(), MergePassTask::Prepare(0));
    pass.take_preparation(Preparation::Candidate(result("a.db")));
    assert_eq!(pass.task(), MergePassTask::Prepare(1));
    pass.take_preparation(Preparation::Failed("no page".to_string()));
    pass.take_preparation(Preparation::Nothing);
    assert_eq!(pass.task(), MergePassTask::Record);
    assert_eq!(pass.analyzed, vec!["a.db", "c.db"]);
    assert_eq!(pass.failures.keys, vec!["b.db"]);
    assert_eq!(pass.failures.values, vec!["no page"]);
    pass.take_record();
    assert_eq!(pass.task(), MergePassTask::Install(0));
    assert_eq!(pass.candidates[0], result("a.db"));
    pass.take_installation();
    assert_eq!(pass.task(), MergePassTask::Finished);
    let mut none = MergePass::start(Vec::new());
    assert_eq!(none.task(), MergePassTask::Record);
    none.take_record();
    assert_eq!(none.task(), MergePassTask::Finished);
}
