//! What a repository holds, as far as the commands read it.
use vstd::prelude::*;

use crate::error::text_option;
use crate::show::{view_option, views};
use crate::spec::{IndexStage, RepoPathStorage, RepoTrackedPathKind};
use crate::text::texts;

verus! {

/// How a path differs between two states.
#[derive(Debug, Clone, Copy, PartialEq, Eq, Structural)]
pub enum RepoFileChange {
    Added,
    Deleted,
    Modified,
}

/// How a path of the worktree differs from the index.
#[derive(Debug, Clone, Copy, PartialEq, Eq, Structural)]
pub enum RepoWorktreeChangeKind {
    Modified,
    Deleted,
    Untracked,
}

/// A commit of a storage log and its hash.
#[derive(Debug, Clone, PartialEq, Eq)]
pub struct StorageCommit<S = String> {
    pub lsn: u64,
    pub commit_hash: S,
}

pub type StorageCommitView = StorageCommit<Seq<char>>;

impl View for StorageCommit<String> {
    type V = StorageCommitView;

    open spec fn view(&self) -> StorageCommitView {
        StorageCommit { lsn: self.lsn, commit_hash: self.commit_hash@ }
    }
}

/// The commits `start..=end` of a storage log.
#[derive(Debug, Clone, PartialEq, Eq)]
pub struct RepoLogRange<S = String, L1 = Vec<StorageCommit>> {
    pub log: S,
    pub start: u64,
    pub end: u64,
    pub commits: L1,
}

pub type RepoLogRangeView = RepoLogRange<Seq<char>, Seq<StorageCommitView>>;

impl View for RepoLogRange<String, Vec<StorageCommit>> {
    type V = RepoLogRangeView;

    open spec fn view(&self) -> RepoLogRangeView {
        RepoLogRange {
            log: self.log@,
            start: self.start,
            end: self.end,
            commits: views(self.commits@),
        }
    }
}

/// The state of a database: a number of pages and the log ranges that hold them.
#[derive(Debug, Clone, PartialEq, Eq)]
pub struct RepoSnapshot<L1 = Vec<RepoLogRange>> {
    pub page_count: u32,
    pub ranges: L1,
}

pub type RepoSnapshotView = RepoSnapshot<Seq<RepoLogRangeView>>;

impl View for RepoSnapshot<Vec<RepoLogRange>> {
    type V = RepoSnapshotView;

    open spec fn view(&self) -> RepoSnapshotView {
        RepoSnapshot { page_count: self.page_count, ranges: views(self.ranges@) }
    }
}

/// A database as a commit or the index holds it.
#[derive(Debug, Clone, PartialEq, Eq)]
pub struct CommitFileState<S = String, L1 = RepoSnapshot> {
    pub volume: S,
    pub snapshot: L1,
}

pub type CommitFileStateView = CommitFileState<Seq<char>, RepoSnapshotView>;

impl View for CommitFileState<String, RepoSnapshot> {
    type V = CommitFileStateView;

    open spec fn view(&self) -> CommitFileStateView {
        CommitFileState { volume: self.volume@, snapshot: self.snapshot@ }
    }
}

/// An ordinary file as a commit or the index holds it.
#[derive(Debug, Clone, PartialEq, Eq)]
pub struct CommitArtifactState<S = String> {
    /// The content is kept outside the object store.
    pub large: bool,
    pub kind: RepoTrackedPathKind,
    pub oid: S,
    pub size: u64,
    pub content_hash: S,
}

pub type CommitArtifactStateView = CommitArtifactState<Seq<char>>;

impl View for CommitArtifactState<String> {
    type V = CommitArtifactStateView;

    open spec fn view(&self) -> CommitArtifactStateView {
        CommitArtifactState {
            large: self.large,
            kind: self.kind,
            oid: self.oid@,
            size: self.size,
            content_hash: self.content_hash@,
        }
    }
}

/// One entry of the index.
#[derive(Debug, Clone, PartialEq, Eq)]
pub struct IndexEntry<S = String, L1 = CommitFileState, L2 = CommitArtifactState> {
    pub path: S,
    pub stage: IndexStage,
    pub file: Option<L1>,
    pub artifact: Option<L2>,
}

pub type IndexEntryView = IndexEntry<Seq<char>, CommitFileStateView, CommitArtifactStateView>;

impl View for IndexEntry<String, CommitFileState, CommitArtifactState> {
    type V = IndexEntryView;

    open spec fn view(&self) -> IndexEntryView {
        IndexEntry {
            path: self.path@,
            stage: self.stage,
            file: view_option(self.file),
            artifact: view_option(self.artifact),
        }
    }
}

/// Where HEAD points.
#[derive(Debug, Clone, PartialEq, Eq)]
pub enum Head<S = String> {
    Branch { name: S },
    Detached { commit: S },
}

pub type HeadView = Head<Seq<char>>;

impl View for Head<String> {
    type V = HeadView;

    open spec fn view(&self) -> HeadView {
        match self {
            Head::Branch { name } => Head::Branch { name: name@ },
            Head::Detached { commit } => Head::Detached { commit: commit@ },
        }
    }
}

/// A remote and a branch of it.
#[derive(Debug, Clone, PartialEq, Eq)]
pub struct BranchUpstream<S = String> {
    pub remote: S,
    pub branch: S,
}

pub type BranchUpstreamView = BranchUpstream<Seq<char>>;

impl View for BranchUpstream<String> {
    type V = BranchUpstreamView;

    open spec fn view(&self) -> BranchUpstreamView {
        BranchUpstream { remote: self.remote@, branch: self.branch@ }
    }
}

/// A changed path of the worktree.
#[derive(Debug, Clone, PartialEq, Eq)]
pub struct RepoWorktreeChange<S = String> {
    pub path: S,
    pub change: RepoWorktreeChangeKind,
    pub kind: RepoTrackedPathKind,
    pub storage: RepoPathStorage,
}

pub type RepoWorktreeChangeView = RepoWorktreeChange<Seq<char>>;

impl View for RepoWorktreeChange<String> {
    type V = RepoWorktreeChangeView;

    open spec fn view(&self) -> RepoWorktreeChangeView {
        RepoWorktreeChange {
            path: self.path@,
            change: self.change,
            kind: self.kind,
            storage: self.storage,
        }
    }
}

/// A path with a conflict.
#[derive(Debug, Clone, PartialEq, Eq)]
pub struct RepoPathChange<S = String> {
    pub path: S,
    pub kind: RepoTrackedPathKind,
    pub storage: RepoPathStorage,
}

pub type RepoPathChangeView = RepoPathChange<Seq<char>>;

impl View for RepoPathChange<String> {
    type V = RepoPathChangeView;

    open spec fn view(&self) -> RepoPathChangeView {
        RepoPathChange { path: self.path@, kind: self.kind, storage: self.storage }
    }
}

/// A path that a commit or the index changed.
#[derive(Debug, Clone, PartialEq, Eq)]
pub struct PathChange<S = String> {
    pub path: S,
    pub change: RepoFileChange,
    pub kind: RepoTrackedPathKind,
    pub storage: RepoPathStorage,
}

pub type PathChangeView = PathChange<Seq<char>>;

impl View for PathChange<String> {
    type V = PathChangeView;

    open spec fn view(&self) -> PathChangeView {
        PathChange { path: self.path@, change: self.change, kind: self.kind, storage: self.storage }
    }
}

/// The state of a repository.
#[derive(Debug, Clone, PartialEq, Eq)]
pub struct RepoStatus<S = String, L1 = Head, L2 = BranchUpstream, L3 = Vec<String>, L4 = Vec<String>, L5 = Vec<String>, L6 = Vec<RepoWorktreeChange>, L7 = Vec<PathChange>, L8 = Vec<RepoPathChange>> {
    pub head: L1,
    pub upstream: Option<L2>,
    pub worktree: S,
    pub repository_format_version: u32,
    pub head_target: Option<S>,
    pub merge_head: Option<S>,
    pub orig_head: Option<S>,
    pub conflicted: L3,
    pub staged: L4,
    pub unstaged: L5,
    pub unstaged_changes: L6,
    pub staged_changes: L7,
    pub conflicted_changes: L8,
}

pub type RepoStatusView = RepoStatus<Seq<char>, HeadView, BranchUpstreamView, Seq<Seq<char>>, Seq<Seq<char>>, Seq<Seq<char>>, Seq<RepoWorktreeChangeView>, Seq<PathChangeView>, Seq<RepoPathChangeView>>;

impl View for RepoStatus<String, Head, BranchUpstream, Vec<String>, Vec<String>, Vec<String>, Vec<RepoWorktreeChange>, Vec<PathChange>, Vec<RepoPathChange>> {
    type V = RepoStatusView;

    open spec fn view(&self) -> RepoStatusView {
        RepoStatus {
            head: self.head@,
            upstream: view_option(self.upstream),
            worktree: self.worktree@,
            repository_format_version: self.repository_format_version,
            head_target: text_option(self.head_target),
            merge_head: text_option(self.merge_head),
            orig_head: text_option(self.orig_head),
            conflicted: texts(self.conflicted@),
            staged: texts(self.staged@),
            unstaged: texts(self.unstaged@),
            unstaged_changes: views(self.unstaged_changes@),
            staged_changes: views(self.staged_changes@),
            conflicted_changes: views(self.conflicted_changes@),
        }
    }
}

/// A local branch.
#[derive(Debug, Clone, PartialEq, Eq)]
pub struct BranchInfo<S = String, L1 = BranchUpstream> {
    pub name: S,
    pub target: Option<S>,
    pub current: bool,
    pub upstream: Option<L1>,
}

pub type BranchInfoView = BranchInfo<Seq<char>, BranchUpstreamView>;

impl View for BranchInfo<String, BranchUpstream> {
    type V = BranchInfoView;

    open spec fn view(&self) -> BranchInfoView {
        BranchInfo {
            name: self.name@,
            target: text_option(self.target),
            current: self.current,
            upstream: view_option(self.upstream),
        }
    }
}

/// A branch of a remote and its head.
#[derive(Debug, Clone, PartialEq, Eq)]
pub struct RemoteBranchRef<S = String> {
    pub remote: S,
    pub branch: S,
    pub head: S,
}

pub type RemoteBranchRefView = RemoteBranchRef<Seq<char>>;

impl View for RemoteBranchRef<String> {
    type V = RemoteBranchRefView;

    open spec fn view(&self) -> RemoteBranchRefView {
        RemoteBranchRef { remote: self.remote@, branch: self.branch@, head: self.head@ }
    }
}

/// A tag; an annotated one has an object of its own.
#[derive(Debug, Clone, PartialEq, Eq)]
pub struct TagInfo<S = String> {
    pub name: S,
    pub target: S,
    pub object: S,
    pub annotated: bool,
}

pub type TagInfoView = TagInfo<Seq<char>>;

impl View for TagInfo<String> {
    type V = TagInfoView;

    open spec fn view(&self) -> TagInfoView {
        TagInfo {
            name: self.name@,
            target: self.target@,
            object: self.object@,
            annotated: self.annotated,
        }
    }
}

/// A path and the database it holds.
#[derive(Debug, Clone, PartialEq, Eq)]
pub struct PathFile<S = String, L1 = CommitFileState> {
    pub path: S,
    pub state: L1,
}

pub type PathFileView = PathFile<Seq<char>, CommitFileStateView>;

impl View for PathFile<String, CommitFileState> {
    type V = PathFileView;

    open spec fn view(&self) -> PathFileView {
        PathFile { path: self.path@, state: self.state@ }
    }
}

/// A path and the ordinary file it holds.
#[derive(Debug, Clone, PartialEq, Eq)]
pub struct PathArtifact<S = String, L1 = CommitArtifactState> {
    pub path: S,
    pub state: L1,
}

pub type PathArtifactView = PathArtifact<Seq<char>, CommitArtifactStateView>;

impl View for PathArtifact<String, CommitArtifactState> {
    type V = PathArtifactView;

    open spec fn view(&self) -> PathArtifactView {
        PathArtifact { path: self.path@, state: self.state@ }
    }
}

/// A commit.
#[derive(Debug, Clone, PartialEq, Eq)]
pub struct CommitObject<S = String, L1 = Vec<String>, L2 = Vec<PathFile>, L3 = Vec<PathArtifact>, L4 = Vec<PathChange>> {
    pub id: S,
    pub parent: Option<S>,
    pub parents: L1,
    pub tree: Option<S>,
    pub timestamp_ms: u64,
    pub message: S,
    pub files: L2,
    pub artifacts: L3,
    pub changes: L4,
}

pub type CommitObjectView = CommitObject<Seq<char>, Seq<Seq<char>>, Seq<PathFileView>, Seq<PathArtifactView>, Seq<PathChangeView>>;

impl View for CommitObject<String, Vec<String>, Vec<PathFile>, Vec<PathArtifact>, Vec<PathChange>> {
    type V = CommitObjectView;

    open spec fn view(&self) -> CommitObjectView {
        CommitObject {
            id: self.id@,
            parent: text_option(self.parent),
            parents: texts(self.parents@),
            tree: text_option(self.tree),
            timestamp_ms: self.timestamp_ms,
            message: self.message@,
            files: views(self.files@),
            artifacts: views(self.artifacts@),
            changes: views(self.changes@),
        }
    }
}

/// What a merge did.
#[derive(Debug, Clone, PartialEq, Eq)]
pub enum MergeOutcome<S = String, L = Vec<String>> {
    FastForward { from: Option<S>, to: S },
    AlreadyUpToDate { head: S },
    Merged { head: S, target: S, merge_base: Option<S>, staged: L, conflicted: L },
}

pub type MergeOutcomeView = MergeOutcome<Seq<char>, Seq<Seq<char>>>;

impl View for MergeOutcome<String, Vec<String>> {
    type V = MergeOutcomeView;

    open spec fn view(&self) -> MergeOutcomeView {
        match self {
            MergeOutcome::FastForward { from, to } => MergeOutcome::FastForward {
                from: text_option(*from),
                to: to@,
            },
            MergeOutcome::AlreadyUpToDate { head } => MergeOutcome::AlreadyUpToDate { head: head@ },
            MergeOutcome::Merged { head, target, merge_base, staged, conflicted } =>
                MergeOutcome::Merged {
                head: head@,
                target: target@,
                merge_base: text_option(*merge_base),
                staged: texts(staged@),
                conflicted: texts(conflicted@),
            },
        }
    }
}

} // verus!
