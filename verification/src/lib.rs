//! The part of a version-control system for SQLite databases that decides: what commands mean, what
//! they may do, which paths and rows they touch, and what they answer. Reading and writing files,
//! databases and remotes is left to the caller, who hands in plain values and gets plain values back.
pub mod answers;
pub mod auto_merge;
pub mod base_laws;
pub mod bytes;
pub mod checkout;
pub mod command;
pub mod conflict_laws;
pub mod conflict_list;
pub mod conflict_paths;
pub mod conflict_report;
pub mod conflicts;
pub mod coverage;
pub mod diff;
pub mod document;
pub mod document_laws;
pub mod error;
pub mod eval;
pub mod file_diff;
pub mod image;
pub mod jobs;
pub mod json;
pub mod labels;
pub mod listing_laws;
pub mod merge;
pub mod merge_laws;
pub mod merge_policy;
pub mod model;
pub mod number;
pub mod order;
pub mod page_delta;
pub mod parse_laws;
pub mod parse_paths;
pub mod parse_refs;
pub mod parse_worktree;
pub mod paths;
pub mod publish;
pub mod remote;
pub mod reply;
pub mod report;
pub mod report_laws;
pub mod report_sync;
pub mod restore;
pub mod restore_checks;
pub mod restore_laws;
pub mod restore_steps;
pub mod row_diff;
pub mod row_laws;
pub mod session;
pub mod session_laws;
pub mod show;
pub mod snapshot;
pub mod spec;
pub mod staging;
pub mod status;
pub mod status_laws;
pub mod tables;
pub mod text;
pub mod text_laws;
pub mod time;
pub mod told_laws;
pub mod twins;
pub mod update;
pub mod walk;
pub mod words;
pub mod workspace;

pub use crate::file_diff::{diff_sqlite_files, SqliteFileDiff, SqliteFileDiffOptions};
pub use crate::page_delta::{
    apply_sqlite_page_delta, create_sqlite_page_delta, inspect_sqlite_page_delta, SqlitePageDeltaMetadata,
    SQLITE_PAGE_DELTA_FORMAT,
};
