//! What commands ask for.
//!
//! Each type that holds text is generic in the text: `String` in executable code, `Seq<char>` in
//! its view.
use vstd::prelude::*;

use crate::error::text_option;

verus! {

/// Diff granularity mode.
#[derive(Debug, Clone, Copy, PartialEq, Eq, Structural)]
pub enum DiffMode {
    /// Page-level and table-level.
    Default,
    /// Detailed comparison of each row.
    Rows,
    /// SQLite table summaries without row payloads.
    SqliteSummary,
}

#[derive(Debug, Clone, Copy, PartialEq, Eq, Structural)]
pub enum JsonLogMode {
    LegacyArray,
    WithStatus,
}

#[derive(Debug, Clone, PartialEq, Eq)]
pub struct JsonLogSpec<S = String> {
    pub mode: JsonLogMode,
    pub limit: Option<usize>,
    pub after: Option<S>,
}

impl View for JsonLogSpec<String> {
    type V = JsonLogSpec<Seq<char>>;

    open spec fn view(&self) -> JsonLogSpec<Seq<char>> {
        JsonLogSpec { mode: self.mode, limit: self.limit, after: text_option(self.after) }
    }
}

#[derive(Debug, Clone, Copy, PartialEq, Eq, Structural)]
pub enum JsonConfigListMode {
    LegacyArray,
    WithStatus,
}

#[derive(Debug, Clone, Copy, PartialEq, Eq, Structural)]
pub enum JsonTagsMode {
    LegacyArray,
    WithStatus,
}

#[derive(Debug, Clone, Copy, PartialEq, Eq, Structural)]
pub enum JsonFetchAsyncMode {
    LegacyId,
    WithStatus,
}

/// What a tracked path holds.
#[derive(Debug, Clone, Copy, PartialEq, Eq, Structural)]
pub enum RepoTrackedPathKind {
    SqliteDatabase,
    TextFile,
    BinaryFile,
}

/// How the content of a tracked path is kept.
#[derive(Debug, Clone, Copy, PartialEq, Eq, Structural)]
pub enum RepoPathStorage {
    SqliteSnapshot,
    Inline,
    External,
}

#[derive(Debug, Clone, Copy, PartialEq, Eq, Structural)]
pub enum ResetMode {
    Soft,
    Mixed,
    Hard,
}

/// Where a remote is, and how it is reached.
#[derive(Debug, Clone, PartialEq, Eq)]
pub enum RemoteConfig<S = String> {
    Memory,
    Fs { root: S },
    S3Compatible { bucket: S, prefix: Option<S>, endpoint: Option<S> },
    Http { url: S, token_env: Option<S> },
}

impl View for RemoteConfig<String> {
    type V = RemoteConfig<Seq<char>>;

    open spec fn view(&self) -> RemoteConfig<Seq<char>> {
        match self {
            RemoteConfig::Memory => RemoteConfig::Memory,
            RemoteConfig::Fs { root } => RemoteConfig::Fs { root: root@ },
            RemoteConfig::S3Compatible { bucket, prefix, endpoint } => RemoteConfig::S3Compatible {
                bucket: bucket@,
                prefix: text_option(*prefix),
                endpoint: text_option(*endpoint),
            },
            RemoteConfig::Http { url, token_env } => RemoteConfig::Http {
                url: url@,
                token_env: text_option(*token_env),
            },
        }
    }
}

/// The text content of one path, cut off at `max_bytes`; without it, at the repository's own limit.
#[derive(Debug, Clone, Copy, PartialEq, Eq, Structural)]
pub struct RepoTextContentSpec {
    pub max_bytes: Option<u64>,
}

#[derive(Debug, Clone, PartialEq, Eq)]
pub struct RepoRowPageSpec<S = String> {
    pub limit: usize,
    pub after: Option<S>,
}

#[derive(Debug, Clone, PartialEq, Eq)]
pub enum RepoDiffTarget<S = String> {
    Worktree { path: Option<S> },
    Staged { path: Option<S> },
    RevisionToWorktree { rev: S, path: Option<S> },
    Revisions { from: S, to: S, path: Option<S> },
    Root { to: S, path: Option<S> },
}

impl View for RepoDiffTarget<String> {
    type V = RepoDiffTarget<Seq<char>>;

    open spec fn view(&self) -> RepoDiffTarget<Seq<char>> {
        match self {
            RepoDiffTarget::Worktree { path } => RepoDiffTarget::Worktree {
                path: text_option(*path),
            },
            RepoDiffTarget::Staged { path } => RepoDiffTarget::Staged { path: text_option(*path) },
            RepoDiffTarget::RevisionToWorktree { rev, path } => RepoDiffTarget::RevisionToWorktree {
                rev: rev@,
                path: text_option(*path),
            },
            RepoDiffTarget::Revisions { from, to, path } => RepoDiffTarget::Revisions {
                from: from@,
                to: to@,
                path: text_option(*path),
            },
            RepoDiffTarget::Root { to, path } => RepoDiffTarget::Root {
                to: to@,
                path: text_option(*path),
            },
        }
    }
}

#[derive(Debug, Clone, PartialEq, Eq)]
pub struct RepoDiffSpec<S = String> {
    pub mode: DiffMode,
    pub kind: Option<RepoTrackedPathKind>,
    pub target: RepoDiffTarget<S>,
    pub content: Option<RepoTextContentSpec>,
    pub table: Option<S>,
    pub row_page: Option<RepoRowPageSpec<S>>,
}

impl View for RepoDiffSpec<String> {
    type V = RepoDiffSpec<Seq<char>>;

    open spec fn view(&self) -> RepoDiffSpec<Seq<char>> {
        RepoDiffSpec {
            mode: self.mode,
            kind: self.kind,
            target: self.target@,
            content: self.content,
            table: text_option(self.table),
            row_page: match self.row_page {
                Some(page) => Some(
                    RepoRowPageSpec { limit: page.limit, after: text_option(page.after) },
                ),
                None => None,
            },
        }
    }
}

#[derive(Debug, Clone, PartialEq, Eq)]
pub struct RepoAddSpec<S = String> {
    pub path: Option<S>,
    pub force: bool,
    pub all: bool,
    pub kind: Option<RepoTrackedPathKind>,
    pub with_status: bool,
    pub expected_head: Option<Option<S>>,
}

impl View for RepoAddSpec<String> {
    type V = RepoAddSpec<Seq<char>>;

    open spec fn view(&self) -> RepoAddSpec<Seq<char>> {
        RepoAddSpec {
            path: text_option(self.path),
            force: self.force,
            all: self.all,
            kind: self.kind,
            with_status: self.with_status,
            expected_head: match self.expected_head {
                Some(head) => Some(text_option(head)),
                None => None,
            },
        }
    }
}

#[derive(Debug, Clone, PartialEq, Eq)]
pub struct RepoInitSpec<S = String> {
    pub worktree: Option<S>,
}

impl View for RepoInitSpec<String> {
    type V = RepoInitSpec<Seq<char>>;

    open spec fn view(&self) -> RepoInitSpec<Seq<char>> {
        RepoInitSpec { worktree: text_option(self.worktree) }
    }
}

#[derive(Debug, Clone, PartialEq, Eq)]
pub struct RepoRemoveSpec<S = String> {
    pub path: Option<S>,
    pub cached: bool,
}

impl View for RepoRemoveSpec<String> {
    type V = RepoRemoveSpec<Seq<char>>;

    open spec fn view(&self) -> RepoRemoveSpec<Seq<char>> {
        RepoRemoveSpec { path: text_option(self.path), cached: self.cached }
    }
}

#[derive(Debug, Clone, PartialEq, Eq)]
pub struct RepoAuditSpec<S = String> {
    pub repair: bool,
    pub remote: Option<S>,
}

impl View for RepoAuditSpec<String> {
    type V = RepoAuditSpec<Seq<char>>;

    open spec fn view(&self) -> RepoAuditSpec<Seq<char>> {
        RepoAuditSpec { repair: self.repair, remote: text_option(self.remote) }
    }
}

#[derive(Debug, Clone, Copy, PartialEq, Eq, Structural)]
pub struct LargeFilePruneSpec {
    pub dry_run: bool,
}

#[derive(Debug, Clone, Copy, PartialEq, Eq, Structural)]
pub struct StorageGcSpec {
    pub dry_run: bool,
}

#[derive(Debug, Clone, PartialEq, Eq)]
pub struct LargeFileFetchSpec<S = String> {
    pub remote: Option<S>,
    pub rev: Option<S>,
}

impl View for LargeFileFetchSpec<String> {
    type V = LargeFileFetchSpec<Seq<char>>;

    open spec fn view(&self) -> LargeFileFetchSpec<Seq<char>> {
        LargeFileFetchSpec { remote: text_option(self.remote), rev: text_option(self.rev) }
    }
}

#[derive(Debug, Clone, PartialEq, Eq)]
pub struct LargeFileStatusSpec<S = String> {
    pub rev: Option<S>,
}

impl View for LargeFileStatusSpec<String> {
    type V = LargeFileStatusSpec<Seq<char>>;

    open spec fn view(&self) -> LargeFileStatusSpec<Seq<char>> {
        LargeFileStatusSpec { rev: text_option(self.rev) }
    }
}

#[derive(Debug, Clone, PartialEq, Eq)]
pub enum RepoCheckoutSpec<S = String> {
    Detach { rev: S, force: bool },
    Path { rev: S, path: S },
}

impl View for RepoCheckoutSpec<String> {
    type V = RepoCheckoutSpec<Seq<char>>;

    open spec fn view(&self) -> RepoCheckoutSpec<Seq<char>> {
        match self {
            RepoCheckoutSpec::Detach { rev, force } => RepoCheckoutSpec::Detach {
                rev: rev@,
                force: *force,
            },
            RepoCheckoutSpec::Path { rev, path } => RepoCheckoutSpec::Path {
                rev: rev@,
                path: path@,
            },
        }
    }
}

#[derive(Debug, Clone, PartialEq, Eq)]
pub struct RepoRestoreSpec<S = String> {
    pub source: Option<S>,
    pub expected_head: Option<S>,
    pub require_clean: bool,
    pub staged: bool,
    pub all: bool,
    pub kind: Option<RepoTrackedPathKind>,
    pub path: Option<S>,
}

impl View for RepoRestoreSpec<String> {
    type V = RepoRestoreSpec<Seq<char>>;

    open spec fn view(&self) -> RepoRestoreSpec<Seq<char>> {
        RepoRestoreSpec {
            source: text_option(self.source),
            expected_head: text_option(self.expected_head),
            require_clean: self.require_clean,
            staged: self.staged,
            all: self.all,
            kind: self.kind,
            path: text_option(self.path),
        }
    }
}

#[derive(Debug, Clone, PartialEq, Eq)]
pub struct RepoExportSpec<S = String> {
    pub source: Option<S>,
    pub path: Option<S>,
    pub output: S,
}

impl View for RepoExportSpec<String> {
    type V = RepoExportSpec<Seq<char>>;

    open spec fn view(&self) -> RepoExportSpec<Seq<char>> {
        RepoExportSpec {
            source: text_option(self.source),
            path: text_option(self.path),
            output: self.output@,
        }
    }
}

#[derive(Debug, Clone, PartialEq, Eq)]
pub struct RepoCloneSpec<S = String> {
    pub config: RemoteConfig<S>,
    pub branch: Option<S>,
    pub worktree: Option<S>,
}

impl View for RepoCloneSpec<String> {
    type V = RepoCloneSpec<Seq<char>>;

    open spec fn view(&self) -> RepoCloneSpec<Seq<char>> {
        RepoCloneSpec {
            config: self.config@,
            branch: text_option(self.branch),
            worktree: text_option(self.worktree),
        }
    }
}

#[derive(Debug, Clone, Copy, PartialEq, Eq, Structural)]
pub enum ResolveSide {
    Ours,
    Theirs,
    Manual,
}

/// The version of a path that an index entry holds.
#[derive(Debug, Clone, Copy, PartialEq, Eq, Structural)]
pub enum IndexStage {
    Normal,
    Base,
    Ours,
    Theirs,
}

impl ResolveSide {
    pub open spec fn stage(self) -> Option<IndexStage> {
        match self {
            ResolveSide::Ours => Some(IndexStage::Ours),
            ResolveSide::Theirs => Some(IndexStage::Theirs),
            ResolveSide::Manual => None,
        }
    }

    pub open spec fn name(self) -> Seq<char> {
        match self {
            ResolveSide::Ours => "ours"@,
            ResolveSide::Theirs => "theirs"@,
            ResolveSide::Manual => "manual"@,
        }
    }

    /// The conflict stage of the index that the side stands for.
    pub fn index_stage(self) -> (r: Option<IndexStage>)
        ensures
            r == self.stage(),
    {
        match self {
            ResolveSide::Ours => Some(IndexStage::Ours),
            ResolveSide::Theirs => Some(IndexStage::Theirs),
            ResolveSide::Manual => None,
        }
    }

    pub fn label(self) -> (r: &'static str)
        ensures
            r@ == self.name(),
    {
        match self {
            ResolveSide::Ours => "ours",
            ResolveSide::Theirs => "theirs",
            ResolveSide::Manual => "manual",
        }
    }
}

/// A value of a row; a real is held by its bits and as the number that JSON writes for it.
#[derive(Debug, Clone, PartialEq, Eq)]
pub enum KeyValue<S = String, B = Vec<u8>> {
    Null,
    Integer(i64),
    Real { bits: u64, json: S },
    Text(S),
    Blob(B),
}

pub type KeyValueView = KeyValue<Seq<char>, Seq<u8>>;

impl View for KeyValue<String, Vec<u8>> {
    type V = KeyValueView;

    open spec fn view(&self) -> KeyValueView {
        match self {
            KeyValue::Null => KeyValue::Null,
            KeyValue::Integer(i) => KeyValue::Integer(*i),
            KeyValue::Real { bits, json } => KeyValue::Real { bits: *bits, json: json@ },
            KeyValue::Text(s) => KeyValue::Text(s@),
            KeyValue::Blob(b) => KeyValue::Blob(b@),
        }
    }
}

/// One column of a primary key, its value, and the value as it is shown to people.
#[derive(Debug, Clone, PartialEq, Eq)]
pub struct KeyPart<S = String, V = KeyValue> {
    pub column: S,
    pub value: V,
    pub shown: S,
}

pub type KeyPartView = KeyPart<Seq<char>, KeyValueView>;

impl View for KeyPart<String, KeyValue> {
    type V = KeyPartView;

    open spec fn view(&self) -> KeyPartView {
        KeyPart { column: self.column@, value: self.value@, shown: self.shown@ }
    }
}

/// What tells one row of a table from the others.
#[derive(Debug, Clone, PartialEq, Eq)]
pub enum RowIdentity<P = Vec<KeyPart>> {
    Rowid(i64),
    PrimaryKey { parts: P },
}

pub type RowIdentityView = RowIdentity<Seq<KeyPartView>>;

pub open spec fn key_parts(parts: Seq<KeyPart>) -> Seq<KeyPartView> {
    Seq::new(parts.len(), |i: int| parts[i]@)
}

impl View for RowIdentity<Vec<KeyPart>> {
    type V = RowIdentityView;

    open spec fn view(&self) -> RowIdentityView {
        match self {
            RowIdentity::Rowid(rowid) => RowIdentity::Rowid(*rowid),
            RowIdentity::PrimaryKey { parts } => RowIdentity::PrimaryKey {
                parts: key_parts(parts@),
            },
        }
    }
}

#[derive(Debug, Clone, PartialEq, Eq)]
pub struct RepoResolveRowSpec<S = String, I = RowIdentity> {
    pub table: S,
    pub identity: I,
}

pub type RowSpecView = RepoResolveRowSpec<Seq<char>, RowIdentityView>;

impl View for RepoResolveRowSpec<String, RowIdentity> {
    type V = RowSpecView;

    open spec fn view(&self) -> RowSpecView {
        RepoResolveRowSpec { table: self.table@, identity: self.identity@ }
    }
}

#[derive(Debug, Clone, PartialEq, Eq)]
pub struct RepoResolveCellSpec<S = String, I = RowIdentity> {
    pub table: S,
    pub identity: I,
    pub column: S,
}

impl View for RepoResolveCellSpec<String, RowIdentity> {
    type V = RepoResolveCellSpec<Seq<char>, RowIdentityView>;

    open spec fn view(&self) -> RepoResolveCellSpec<Seq<char>, RowIdentityView> {
        RepoResolveCellSpec {
            table: self.table@,
            identity: self.identity@,
            column: self.column@,
        }
    }
}

#[derive(Debug, Clone, PartialEq, Eq)]
pub struct RepoResolveSpec<S = String, R = RepoResolveRowSpec> {
    pub side: ResolveSide,
    pub path: Option<S>,
    pub row: Option<R>,
}

pub type ResolveSpecView = RepoResolveSpec<Seq<char>, RowSpecView>;

impl View for RepoResolveSpec<String, RepoResolveRowSpec> {
    type V = ResolveSpecView;

    open spec fn view(&self) -> ResolveSpecView {
        RepoResolveSpec {
            side: self.side,
            path: text_option(self.path),
            row: match self.row {
                Some(row) => Some(row@),
                None => None,
            },
        }
    }
}

#[derive(Debug, Clone, Copy, PartialEq, Eq, Structural)]
pub enum BranchListMode {
    Local,
    Remote,
    All,
}

impl BranchListMode {
    pub open spec fn with_remote(self) -> bool {
        self == BranchListMode::Remote || self == BranchListMode::All
    }

    pub fn includes_remote(self) -> (r: bool)
        ensures
            r == self.with_remote(),
    {
        matches!(self, BranchListMode::Remote | BranchListMode::All)
    }
}

#[derive(Debug, Clone, Copy, PartialEq, Eq, Structural)]
pub struct StatusSpec {
    pub kind: Option<RepoTrackedPathKind>,
}

#[derive(Debug, Clone, Copy, PartialEq, Eq, Structural)]
pub struct LsFilesSpec {
    pub stage: bool,
    pub details: bool,
    pub others: bool,
    pub kind: Option<RepoTrackedPathKind>,
}

/// A remote with the branch or the refspec that is fetched from it or pushed to it.
#[derive(Debug, Clone, PartialEq, Eq)]
pub struct RemoteBranchArg<S = String> {
    pub remote: Option<S>,
    pub branch: Option<S>,
    pub refspec: Option<S>,
    pub all: bool,
    pub force: bool,
}

impl View for RemoteBranchArg<String> {
    type V = RemoteBranchArg<Seq<char>>;

    open spec fn view(&self) -> RemoteBranchArg<Seq<char>> {
        RemoteBranchArg {
            remote: text_option(self.remote),
            branch: text_option(self.branch),
            refspec: text_option(self.refspec),
            all: self.all,
            force: self.force,
        }
    }
}

} // verus!
