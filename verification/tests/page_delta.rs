use std::path::Path;

use graft_sqlite::error::CommandError;
use graft_sqlite::image::SqliteImage;
use graft_sqlite::page_delta::{
    parse_sha256_hex, read_and_validate_header, sha256_hex, write_header, DeltaHeader,
};
use graft_sqlite::{
    apply_sqlite_page_delta, create_sqlite_page_delta, inspect_sqlite_page_delta, SQLITE_PAGE_DELTA_FORMAT,
};
use rusqlite::{Connection, MAIN_DB};
use sha2::{Digest, Sha256};

fn create_database(path: &Path, rows: u32) {
    let mut connection = Connection::open(path).unwrap();
    connection
        .pragma_update(None, "page_size", 4096)
        .unwrap();
    connection
        .execute_batch("CREATE TABLE records(id INTEGER PRIMARY KEY, value BLOB NOT NULL);")
        .unwrap();
    let transaction = connection.transaction().unwrap();
    for id in 1..=rows {
        transaction
            .execute(
                "INSERT INTO records(id, value) VALUES (?1, ?2)",
                (id, vec![id as u8; 2048]),
            )
            .unwrap();
    }
    transaction.commit().unwrap();
}

fn file_bytes(path: &Path) -> Vec<u8> {
    let mut connection = Connection::open(path).unwrap();
    let data = connection.serialize(MAIN_DB).unwrap();
    data.to_vec()
}

fn copy(from: &Path, to: &Path) {
    Connection::open(from).unwrap().backup(MAIN_DB, to, None::<fn(rusqlite::backup::Progress)>).unwrap();
}

fn image(path: &Path) -> SqliteImage {
    SqliteImage::open(&path.display().to_string(), file_bytes(path)).unwrap()
}

/// Pages of 4096 bytes that start like a database, each filled with one byte.
fn plain_image(fills: &[u8]) -> Vec<u8> {
    let mut bytes = Vec::new();
    for fill in fills {
        bytes.extend(vec![*fill; 4096]);
    }
    bytes[..16].copy_from_slice(b"SQLite format 3\0");
    bytes[16] = 0x10;
    bytes[17] = 0;
    bytes
}

fn open(bytes: Vec<u8>) -> SqliteImage {
    SqliteImage::open("plain", bytes).unwrap()
}

fn message(error: CommandError) -> String {
    match error {
        CommandError::InvalidCommand(text) => text,
        other => panic!("unexpected error {other:?}"),
    }
}

#[test]
fn creates_inspects_and_applies_a_delta() {
    let directory = tempfile::tempdir().unwrap();
    let base = directory.path().join("base.sqlite");
    let target = directory.path().join("target.sqlite");
    create_database(&base, 8);
    copy(&base, &target);
    let target_connection = Connection::open(&target).unwrap();
    target_connection
        .execute("UPDATE records SET value = ?1 WHERE id = 4", [vec![91_u8; 2048]])
        .unwrap();
    drop(target_connection);

    let (delta, created) = create_sqlite_page_delta(&image(&base), &image(&target));
    assert_eq!(created.format, SQLITE_PAGE_DELTA_FORMAT);
    assert!(created.changed_pages > 0);
    assert_eq!(inspect_sqlite_page_delta(&delta).unwrap(), created);

    let (restored, applied) = apply_sqlite_page_delta(&image(&base), &delta).unwrap();
    assert_eq!(applied.target_sha256, created.target_sha256);
    let mut restored_connection = Connection::open_in_memory().unwrap();
    restored_connection
        .deserialize_read_exact(MAIN_DB, &restored[..], restored.len(), true)
        .unwrap();
    let value: Vec<u8> = restored_connection
        .query_row("SELECT value FROM records WHERE id = 4", [], |row| row.get(0))
        .unwrap();
    assert_eq!(value, vec![91_u8; 2048]);
}

#[test]
fn rejects_the_wrong_base_and_preserves_existing_outputs() {
    let directory = tempfile::tempdir().unwrap();
    let base = directory.path().join("base.sqlite");
    let wrong_base = directory.path().join("wrong.sqlite");
    let target = directory.path().join("target.sqlite");
    create_database(&base, 3);
    create_database(&wrong_base, 4);
    create_database(&target, 5);
    let (delta, _) = create_sqlite_page_delta(&image(&base), &image(&target));
    let mut output = b"keep me".to_vec();

    let applied = apply_sqlite_page_delta(&image(&wrong_base), &delta);
    assert!(applied.is_err());
    if let Ok((bytes, _)) = applied {
        output = bytes;
    }
    assert_eq!(output, b"keep me");
}

#[test]
fn rejects_corrupt_metadata() {
    let directory = tempfile::tempdir().unwrap();
    let base = directory.path().join("base.sqlite");
    let target = directory.path().join("target.sqlite");
    create_database(&base, 2);
    create_database(&target, 3);
    let (mut bytes, _) = create_sqlite_page_delta(&image(&base), &image(&target));
    bytes[20..24].copy_from_slice(&u32::MAX.to_le_bytes());

    assert!(inspect_sqlite_page_delta(&bytes).is_err());
}

#[test]
fn delta_identity_uses_exact_snapshot_bytes() {
    let directory = tempfile::tempdir().unwrap();
    let base = directory.path().join("base.sqlite");
    let target = directory.path().join("target.sqlite");
    create_database(&base, 2);
    let base_connection = Connection::open(&base).unwrap();
    base_connection
        .pragma_update(None, "journal_mode", "WAL")
        .unwrap();
    base_connection
        .execute_batch("PRAGMA wal_checkpoint(TRUNCATE);")
        .unwrap();
    drop(base_connection);
    let base_bytes = file_bytes(&base);
    copy(&base, &target);
    let target_connection = Connection::open(&target).unwrap();
    target_connection
        .execute("UPDATE records SET value = ?1 WHERE id = 1", [vec![55_u8; 2048]])
        .unwrap();
    target_connection
        .execute_batch("PRAGMA wal_checkpoint(TRUNCATE);")
        .unwrap();
    drop(target_connection);

    let expected_base_sha256: [u8; 32] = Sha256::digest(&base_bytes).into();
    let (delta, created) = create_sqlite_page_delta(&image(&base), &image(&target));

    assert_eq!(created.base_sha256, sha256_hex(&expected_base_sha256));
    let (restored, _) = apply_sqlite_page_delta(&image(&base), &delta).unwrap();
    assert_eq!(restored, file_bytes(&target));
}

#[test]
fn delta_of_plain_pages_has_the_documented_layout() {
    let base = plain_image(&[1, 2, 3]);
    let mut target = plain_image(&[1, 9, 3, 4]);
    target[3 * 4096 + 7] = 5;
    let (delta, metadata) = create_sqlite_page_delta(&open(base.clone()), &open(target.clone()));
    assert_eq!(&delta[..8], b"GRAFTD01");
    assert_eq!(metadata.page_bytes, 4096);
    assert_eq!(metadata.changed_pages, 2);
    assert_eq!(metadata.base_bytes, 3 * 4096);
    assert_eq!(metadata.target_bytes, 4 * 4096);
    assert_eq!(metadata.delta_bytes, delta.len() as u64);
    assert_eq!(delta.len() as u32, metadata.header_bytes + 2 * (4 + 4096));
    let first = metadata.header_bytes as usize;
    assert_eq!(&delta[first..first + 4], &2u32.to_le_bytes());
    assert_eq!(delta[first + 4], 9);
    let second = first + 4 + 4096;
    assert_eq!(&delta[second..second + 4], &4u32.to_le_bytes());
    assert_eq!(&delta[second + 4..], &target[3 * 4096..]);
    let (restored, applied) = apply_sqlite_page_delta(&open(base), &delta).unwrap();
    assert_eq!(restored, target);
    assert_eq!(applied, metadata);
}

#[test]
fn equal_images_need_no_pages() {
    let base = plain_image(&[7, 8]);
    let (delta, metadata) = create_sqlite_page_delta(&open(base.clone()), &open(base.clone()));
    assert_eq!(metadata.changed_pages, 0);
    assert_eq!(metadata.base_sha256, metadata.target_sha256);
    assert_eq!(apply_sqlite_page_delta(&open(base.clone()), &delta).unwrap().0, base);
}

#[test]
fn shrinking_images_are_cut() {
    let base = plain_image(&[1, 2, 3, 4]);
    let target = plain_image(&[1, 5]);
    let (delta, _) = create_sqlite_page_delta(&open(base.clone()), &open(target.clone()));
    assert_eq!(apply_sqlite_page_delta(&open(base), &delta).unwrap().0, target);
}

#[test]
fn another_base_is_named_as_such() {
    let (delta, _) = create_sqlite_page_delta(&open(plain_image(&[1, 2])), &open(plain_image(&[1, 3])));
    let error = apply_sqlite_page_delta(&open(plain_image(&[1, 4])), &delta).unwrap_err();
    assert!(message(error).contains("base"));
}

#[test]
fn changed_deltas_are_refused() {
    let base = plain_image(&[1, 2]);
    let (delta, _) = create_sqlite_page_delta(&open(base.clone()), &open(plain_image(&[1, 3])));
    let mut bad_magic = delta.clone();
    bad_magic[0] = b'X';
    assert!(inspect_sqlite_page_delta(&bad_magic).is_err());
    assert!(inspect_sqlite_page_delta(&delta[..delta.len() - 1]).is_err());
    assert!(inspect_sqlite_page_delta(&[]).is_err());
    let mut longer = delta.clone();
    longer.push(0);
    assert!(inspect_sqlite_page_delta(&longer).is_err());
    let mut other_page = delta.clone();
    let last = other_page.len() - 1;
    other_page[last] ^= 1;
    assert!(inspect_sqlite_page_delta(&other_page).is_ok());
    assert!(apply_sqlite_page_delta(&open(base), &other_page).is_err());
}

#[test]
fn files_that_are_no_databases_are_refused() {
    let short = SqliteImage::open("short", vec![0; 99]).unwrap_err();
    assert_eq!(message(short), "path `short` is not a SQLite database");
    let magic = SqliteImage::open("magic", vec![0; 4096]).unwrap_err();
    assert_eq!(message(magic), "path `magic` is not a SQLite database");
    let mut pages = plain_image(&[1]);
    pages[16] = 0x20;
    let error = SqliteImage::open("pages", pages).unwrap_err();
    assert!(message(error).contains("8192"));
    let mut odd = plain_image(&[1]);
    odd.push(0);
    let error = SqliteImage::open("odd", odd).unwrap_err();
    assert_eq!(
        message(error),
        "SQLite database `odd` is not an even multiple of 4096 bytes"
    );
}

#[test]
fn digests_read_back() {
    let digest: [u8; 32] = Sha256::digest(b"abc").into();
    let text = sha256_hex(&digest);
    assert_eq!(
        text,
        "ba7816bf8f01cfea414140de5dae2223b00361a396177a9cb410ff61f20015ad"
    );
    assert_eq!(parse_sha256_hex(&text).unwrap(), digest);
    assert!(parse_sha256_hex(&text.to_uppercase()).is_err());
    assert!(parse_sha256_hex(&text[1..]).is_err());
}

#[test]
fn headers_read_back_as_they_were_written() {
    let header = |changed_pages: u32| DeltaHeader {
        page_bytes: 4096,
        base_bytes: 4096,
        target_bytes: 3 * 4096,
        changed_pages,
        base_sha256: [1; 32],
        target_sha256: [2; 32],
    };
    for changed_pages in 0..=3_u32 {
        let mut bytes = Vec::new();
        write_header(&mut bytes, &header(changed_pages));
        assert_eq!(bytes.len(), 104);
        bytes.resize(104 + changed_pages as usize * 4100, 0);
        let read = read_and_validate_header(&bytes).unwrap();
        assert_eq!(
            (read.page_bytes, read.base_bytes, read.target_bytes, read.changed_pages),
            (4096, 4096, 3 * 4096, changed_pages)
        );
        assert_eq!((read.base_sha256, read.target_sha256), ([1; 32], [2; 32]));
    }
    let mut bytes = Vec::new();
    write_header(&mut bytes, &header(4));
    bytes.resize(104 + 4 * 4100, 0);
    assert!(read_and_validate_header(&bytes).is_err());
}
