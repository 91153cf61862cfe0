//! The words for kinds, stages, states and modes.
use vstd::prelude::*;

use crate::model::{CommitArtifactState, RepoFileChange, RepoWorktreeChangeKind};
use crate::spec::{IndexStage, RepoPathStorage, RepoTrackedPathKind, ResetMode};

verus! {

pub open spec fn file_change_name(v: RepoFileChange) -> Seq<char> {
    match v {
        RepoFileChange::Added => "added"@,
        RepoFileChange::Deleted => "deleted"@,
        RepoFileChange::Modified => "modified"@,
    }
}

pub fn repo_file_change_label(v: RepoFileChange) -> (r: &'static str)
    ensures
        r@ == file_change_name(v),
{
    match v {
        RepoFileChange::Added => "added",
        RepoFileChange::Deleted => "deleted",
        RepoFileChange::Modified => "modified",
    }
}

pub open spec fn worktree_change_name(v: RepoWorktreeChangeKind) -> Seq<char> {
    match v {
        RepoWorktreeChangeKind::Modified => "modified"@,
        RepoWorktreeChangeKind::Deleted => "deleted"@,
        RepoWorktreeChangeKind::Untracked => "untracked"@,
    }
}

pub fn worktree_change_label(v: RepoWorktreeChangeKind) -> (r: &'static str)
    ensures
        r@ == worktree_change_name(v),
{
    match v {
        RepoWorktreeChangeKind::Modified => "modified",
        RepoWorktreeChangeKind::Deleted => "deleted",
        RepoWorktreeChangeKind::Untracked => "untracked",
    }
}

pub open spec fn kind_name(v: RepoTrackedPathKind) -> Seq<char> {
    match v {
        RepoTrackedPathKind::SqliteDatabase => "sqlite"@,
        RepoTrackedPathKind::TextFile => "text file"@,
        RepoTrackedPathKind::BinaryFile => "binary file"@,
    }
}

pub fn repo_tracked_path_kind_label(v: RepoTrackedPathKind) -> (r: &'static str)
    ensures
        r@ == kind_name(v),
{
    match v {
        RepoTrackedPathKind::SqliteDatabase => "sqlite",
        RepoTrackedPathKind::TextFile => "text file",
        RepoTrackedPathKind::BinaryFile => "binary file",
    }
}

pub open spec fn storage_name(v: RepoPathStorage) -> Seq<char> {
    match v {
        RepoPathStorage::SqliteSnapshot => "sqlite snapshot"@,
        RepoPathStorage::Inline => "inline"@,
        RepoPathStorage::External => "external"@,
    }
}

pub fn repo_path_storage_label(v: RepoPathStorage) -> (r: &'static str)
    ensures
        r@ == storage_name(v),
{
    match v {
        RepoPathStorage::SqliteSnapshot => "sqlite snapshot",
        RepoPathStorage::Inline => "inline",
        RepoPathStorage::External => "external",
    }
}

pub open spec fn kind_json(v: RepoTrackedPathKind) -> Seq<char> {
    match v {
        RepoTrackedPathKind::SqliteDatabase => "sqlite_database"@,
        RepoTrackedPathKind::TextFile => "text_file"@,
        RepoTrackedPathKind::BinaryFile => "binary_file"@,
    }
}

pub fn repo_tracked_path_kind_json_label(v: RepoTrackedPathKind) -> (r: &'static str)
    ensures
        r@ == kind_json(v),
{
    match v {
        RepoTrackedPathKind::SqliteDatabase => "sqlite_database",
        RepoTrackedPathKind::TextFile => "text_file",
        RepoTrackedPathKind::BinaryFile => "binary_file",
    }
}

pub open spec fn storage_json(v: RepoPathStorage) -> Seq<char> {
    match v {
        RepoPathStorage::SqliteSnapshot => "sqlite_snapshot"@,
        RepoPathStorage::Inline => "inline"@,
        RepoPathStorage::External => "external"@,
    }
}

pub fn repo_path_storage_json_label(v: RepoPathStorage) -> (r: &'static str)
    ensures
        r@ == storage_json(v),
{
    match v {
        RepoPathStorage::SqliteSnapshot => "sqlite_snapshot",
        RepoPathStorage::Inline => "inline",
        RepoPathStorage::External => "external",
    }
}

pub open spec fn stage_name(v: IndexStage) -> Seq<char> {
    match v {
        IndexStage::Normal => "normal"@,
        IndexStage::Base => "base"@,
        IndexStage::Ours => "ours"@,
        IndexStage::Theirs => "theirs"@,
    }
}

pub fn repo_index_stage_label(v: IndexStage) -> (r: &'static str)
    ensures
        r@ == stage_name(v),
{
    match v {
        IndexStage::Normal => "normal",
        IndexStage::Base => "base",
        IndexStage::Ours => "ours",
        IndexStage::Theirs => "theirs",
    }
}

pub open spec fn presence_name(v: Option<bool>) -> Seq<char> {
    match v {
        Some(true) => "present"@,
        Some(false) => "missing"@,
        None => "n/a"@,
    }
}

pub fn presence_label(v: Option<bool>) -> (r: &'static str)
    ensures
        r@ == presence_name(v),
{
    match v {
        Some(true) => "present",
        Some(false) => "missing",
        None => "n/a",
    }
}

pub open spec fn reset_mode_name(v: ResetMode) -> Seq<char> {
    match v {
        ResetMode::Soft => "soft"@,
        ResetMode::Mixed => "mixed"@,
        ResetMode::Hard => "hard"@,
    }
}

pub fn reset_mode_label(v: ResetMode) -> (r: &'static str)
    ensures
        r@ == reset_mode_name(v),
{
    match v {
        ResetMode::Soft => "soft",
        ResetMode::Mixed => "mixed",
        ResetMode::Hard => "hard",
    }
}

/// Whether the content of an ordinary file is kept outside the object store.
pub open spec fn artifact_place(v: bool) -> Seq<char> {
    match v {
        true => "external payload"@,
        false => "file"@,
    }
}

pub fn repo_artifact_storage_label(v: bool) -> (r: &'static str)
    ensures
        r@ == artifact_place(v),
{
    match v {
        true => "external payload",
        false => "file",
    }
}

/// The word for where the content of an ordinary file is kept.
pub fn repo_artifact_state_label(state: &CommitArtifactState) -> (r: &'static str)
    ensures
        r@ == artifact_place(state@.large),
{
    repo_artifact_storage_label(state.large)
}

} // verus!
