//! What a diff compares, and which of its paths are kept.
use vstd::prelude::*;

use crate::error::{invalid, invalid_command, text_option, CommandError};
use crate::order::{ascending, insert_key};
use crate::report::{
    RepoArtifactDiff, RepoArtifactDiffView, RepoDiff, RepoDiffView, RepoFileDiff,
    RepoFileDiffView,
};
use crate::restore::add_matching;
use crate::show::views;
use crate::spec::{RepoDiffTarget, RepoTrackedPathKind};
use crate::text::{cat3, has_prefix, same, starts_with, strip_prefix, texts};

verus! {

/// `key` is the path `filter` or lies below it; the empty filter takes every key.
pub open spec fn key_matches(key: Seq<char>, filter: Seq<char>) -> bool {
    ||| filter.len() == 0
    ||| key == filter
    ||| has_prefix(key, filter) && has_prefix(key.skip(filter.len() as int), "/"@)
}

pub fn repo_key_matches_filter(key: &str, filter: &str) -> (r: bool)
    ensures
        r == key_matches(key@, filter@),
{
    if filter.is_empty() || same(key, filter) {
        return true;
    }
    match strip_prefix(key, filter) {
        Some(suffix) => starts_with(suffix, "/"),
        None => false,
    }
}

/// `key` is the directory or lies below it; the empty key is the worktree itself.
pub fn repo_key_is_under_directory(key: &str, directory_key: &str) -> (r: bool)
    ensures
        r == key_matches(key@, directory_key@),
{
    repo_key_matches_filter(key, directory_key)
}

/// What stands at a path of the worktree.
#[derive(Debug, Clone, Copy, PartialEq, Eq, Structural)]
pub enum PathState {
    Missing,
    Directory,
    SqliteFile,
    PlainFile,
    /// Neither a directory nor a regular file.
    Special,
}

/// What a diff does first. `rev` is the revision that the worktree is compared with; without it,
/// the index.
#[derive(Debug, Clone, PartialEq, Eq)]
#[allow(inconsistent_fields)]
pub enum DiffRoute<S = String> {
    /// Compares every path below `filter` with the worktree.
    Walk { rev: Option<S>, filter: S },
    /// Looks at what stands at `path`.
    Look { rev: Option<S>, path: S },
    /// Compares the open database, as `path` where one was named.
    Current { rev: Option<S>, path: Option<S> },
    Staged { path: Option<S> },
    Revisions { from: S, to: S, path: Option<S> },
    Root { to: S, path: Option<S> },
}

impl View for DiffRoute<String> {
    type V = DiffRoute<Seq<char>>;

    open spec fn view(&self) -> DiffRoute<Seq<char>> {
        match self {
            DiffRoute::Walk { rev, filter } => DiffRoute::Walk {
                rev: text_option(*rev),
                filter: filter@,
            },
            DiffRoute::Look { rev, path } => DiffRoute::Look {
                rev: text_option(*rev),
                path: path@,
            },
            DiffRoute::Current { rev, path } => DiffRoute::Current {
                rev: text_option(*rev),
                path: text_option(*path),
            },
            DiffRoute::Staged { path } => DiffRoute::Staged { path: text_option(*path) },
            DiffRoute::Revisions { from, to, path } => DiffRoute::Revisions {
                from: from@,
                to: to@,
                path: text_option(*path),
            },
            DiffRoute::Root { to, path } => DiffRoute::Root { to: to@, path: text_option(*path) },
        }
    }
}

/// What a comparison with the worktree does first: `path` is the key of the path that was named.
pub open spec fn worktree_route(
    rev: Option<Seq<char>>,
    path: Option<Seq<char>>,
    current_key: Seq<char>,
) -> DiffRoute<Seq<char>> {
    match path {
        None => DiffRoute::Walk { rev, filter: Seq::empty() },
        Some(p) => if p != current_key {
            DiffRoute::Look { rev, path: p }
        } else {
            DiffRoute::Current { rev, path }
        },
    }
}

/// What a diff does first.
pub open spec fn diff_route(
    target: RepoDiffTarget<Seq<char>>,
    current_key: Seq<char>,
) -> DiffRoute<Seq<char>> {
    match target {
        RepoDiffTarget::Worktree { path } => worktree_route(None, path, current_key),
        RepoDiffTarget::RevisionToWorktree { rev, path } => worktree_route(
            Some(rev),
            path,
            current_key,
        ),
        RepoDiffTarget::Staged { path } => DiffRoute::Staged { path },
        RepoDiffTarget::Revisions { from, to, path } => DiffRoute::Revisions { from, to, path },
        RepoDiffTarget::Root { to, path } => DiffRoute::Root { to, path },
    }
}

fn route_in_worktree(rev: Option<String>, path: Option<String>, current_key: &str) -> (r: DiffRoute)
    ensures
        r@ == worktree_route(text_option(rev), text_option(path), current_key@),
{
    match path {
        None => {
            let filter = String::new();
            DiffRoute::Walk { rev, filter }
        },
        Some(p) => {
            if !same(p.as_str(), current_key) {
                DiffRoute::Look { rev, path: p }
            } else {
                DiffRoute::Current { rev, path: Some(p) }
            }
        },
    }
}

/// Decides what a diff does first; the path of the target is the key that its argument names.
pub fn repo_diff_route(target: RepoDiffTarget, current_key: &str) -> (r: DiffRoute)
    ensures
        r@ == diff_route(target@, current_key@),
{
    match target {
        RepoDiffTarget::Worktree { path } => route_in_worktree(None, path, current_key),
        RepoDiffTarget::RevisionToWorktree { rev, path } => route_in_worktree(
            Some(rev),
            path,
            current_key,
        ),
        RepoDiffTarget::Staged { path } => DiffRoute::Staged { path },
        RepoDiffTarget::Revisions { from, to, path } => DiffRoute::Revisions { from, to, path },
        RepoDiffTarget::Root { to, path } => DiffRoute::Root { to, path },
    }
}

/// How one path is compared.
#[derive(Debug, Clone, Copy, PartialEq, Eq, Structural)]
pub enum PathStep {
    /// Compares every path below it.
    Walk,
    /// Compares a database file with the database that is expected there.
    CompareFile,
    CompareArtifact,
    /// The path held a database that is gone.
    FileRemoval,
    /// The path held an ordinary file that is gone.
    ArtifactRemoval,
}

/// How a named path is compared, given what stands there and whether an ordinary file is
/// expected.
pub open spec fn look_step(
    shown_path: Seq<char>,
    state: PathState,
    artifact_expected: bool,
) -> Result<PathStep, CommandError<Seq<char>>> {
    match state {
        PathState::Directory => Ok(PathStep::Walk),
        PathState::Special => invalid("path `"@ + shown_path + "` is not a regular file"@),
        PathState::SqliteFile => Ok(PathStep::CompareFile),
        PathState::PlainFile => Ok(PathStep::CompareArtifact),
        PathState::Missing => if artifact_expected {
            Ok(PathStep::ArtifactRemoval)
        } else {
            Ok(PathStep::FileRemoval)
        },
    }
}

pub fn repo_diff_look(shown_path: &str, state: PathState, artifact_expected: bool) -> (r: Result<
    PathStep,
    CommandError,
>)
    ensures
        match r {
            Ok(step) => look_step(shown_path@, state, artifact_expected) == Ok::<
                _,
                CommandError<Seq<char>>,
            >(step),
            Err(e) => look_step(shown_path@, state, artifact_expected) == Err::<PathStep, _>(e@),
        },
{
    match state {
        PathState::Directory => Ok(PathStep::Walk),
        PathState::Special => Err(
            invalid_command(cat3("path `", shown_path, "` is not a regular file").as_str()),
        ),
        PathState::SqliteFile => Ok(PathStep::CompareFile),
        PathState::PlainFile => Ok(PathStep::CompareArtifact),
        PathState::Missing => {
            if artifact_expected {
                Ok(PathStep::ArtifactRemoval)
            } else {
                Ok(PathStep::FileRemoval)
            }
        },
    }
}

/// The diff of nothing between a revision, or the index, and the worktree.
pub open spec fn empty_worktree_diff(from: Option<Seq<char>>) -> RepoDiffView {
    RepoDiff {
        from: match from {
            Some(id) => id,
            None => "index"@,
        },
        to: "worktree"@,
        files: Seq::empty(),
        artifacts: Seq::empty(),
    }
}

/// `key` is among the keys of a walk below `filter`: of the revision, of the index, or, where
/// `current` says so, the key of the open database, which is no key of the repository itself.
pub open spec fn walked(
    key: Seq<char>,
    commit: Seq<Seq<char>>,
    index: Seq<Seq<char>>,
    current: Option<Seq<char>>,
    filter: Seq<char>,
) -> bool {
    &&& key_matches(key, filter)
    &&& commit.contains(key) || index.contains(key) || (current == Some(key) && !has_prefix(
        key,
        ".graft/"@,
    ))
}

/// The keys of a walk, in ascending order.
pub fn walked_keys(
    commit: &Vec<String>,
    index: &Vec<String>,
    current: Option<&str>,
    filter: &str,
) -> (r: Vec<String>)
    ensures
        ascending(texts(r@)),
        forall|k: Seq<char>| #[trigger]
            texts(r@).contains(k) == walked(
                k,
                texts(commit@),
                texts(index@),
                crate::error::str_option(current),
                filter@,
            ),
{
    let mut out: Vec<String> = Vec::new();
    add_matching(&mut out, commit, filter);
    add_matching(&mut out, index, filter);
    if let Some(key) = current {
        if !starts_with(key, ".graft/") && repo_key_matches_filter(key, filter) {
            insert_key(&mut out, key);
        }
    }
    out
}

/// One key of a walk.
#[derive(Debug, Clone, PartialEq, Eq)]
pub struct WalkTask<S = String> {
    pub key: S,
    /// The key is expected to hold a database.
    pub file: bool,
    /// The key is that of the open database.
    pub current: bool,
}

/// A comparison of many paths with the worktree, in progress.
pub struct WorktreeWalk {
    pub file_keys: Vec<String>,
    pub artifact_keys: Vec<String>,
    pub current_key: String,
    /// How many keys are done, databases first.
    pub done: usize,
    pub diff: RepoDiff,
}

/// The task at position `n` of a walk.
pub open spec fn walk_task(
    files: Seq<Seq<char>>,
    artifacts: Seq<Seq<char>>,
    current_key: Seq<char>,
    n: int,
) -> Option<WalkTask<Seq<char>>> {
    if 0 <= n < files.len() {
        Some(WalkTask { key: files[n], file: true, current: files[n] == current_key })
    } else if files.len() <= n < files.len() + artifacts.len() {
        Some(WalkTask { key: artifacts[n - files.len()], file: false, current: false })
    } else {
        None
    }
}

/// How the path of a task is compared, or not at all.
pub open spec fn walk_step(file: bool, current: bool, state: PathState) -> Option<PathStep> {
    if file && current {
        Some(PathStep::CompareFile)
    } else if file {
        match state {
            PathState::SqliteFile => Some(PathStep::CompareFile),
            PathState::Missing => Some(PathStep::FileRemoval),
            _ => None,
        }
    } else {
        match state {
            PathState::SqliteFile => Some(PathStep::CompareArtifact),
            PathState::PlainFile => Some(PathStep::CompareArtifact),
            PathState::Missing => Some(PathStep::ArtifactRemoval),
            _ => None,
        }
    }
}

/// How the path of a task is compared, or not at all.
pub fn repo_walk_step(file: bool, current: bool, state: PathState) -> (r: Option<PathStep>)
    ensures
        r == walk_step(file, current, state),
{
    if file && current {
        Some(PathStep::CompareFile)
    } else if file {
        match state {
            PathState::SqliteFile => Some(PathStep::CompareFile),
            PathState::Missing => Some(PathStep::FileRemoval),
            _ => None,
        }
    } else {
        match state {
            PathState::SqliteFile => Some(PathStep::CompareArtifact),
            PathState::PlainFile => Some(PathStep::CompareArtifact),
            PathState::Missing => Some(PathStep::ArtifactRemoval),
            _ => None,
        }
    }
}

/// `target` with the paths of `source` behind its own.
pub open spec fn appended(target: RepoDiffView, source: RepoDiffView) -> RepoDiffView {
    RepoDiff {
        files: target.files + source.files,
        artifacts: target.artifacts + source.artifacts,
        ..target
    }
}

pub proof fn lemma_views_append<T: View>(a: Seq<T>, b: Seq<T>)
    ensures
        views(a + b) == views(a) + views(b),
{
    assert(views(a + b) =~= views(a) + views(b));
}

pub fn append_repo_diff(target: &mut RepoDiff, source: RepoDiff)
    ensures
        final(target)@ == appended(old(target)@, source@),
{
    let mut source = source;
    proof {
        lemma_views_append(target.files@, source.files@);
        lemma_views_append(target.artifacts@, source.artifacts@);
    }
    target.files.append(&mut source.files);
    target.artifacts.append(&mut source.artifacts);
}

impl WorktreeWalk {
    pub open spec fn task_view(&self) -> Option<WalkTask<Seq<char>>> {
        walk_task(
            texts(self.file_keys@),
            texts(self.artifact_keys@),
            self.current_key@,
            self.done as int,
        )
    }

    /// Starts a walk below `filter`. `from` is the id of the revision that the worktree is compared
    /// with, and `commit_files` and `commit_artifacts` are its keys.
    pub fn start(
        from: Option<&str>,
        commit_files: &Vec<String>,
        commit_artifacts: &Vec<String>,
        index_files: &Vec<String>,
        index_artifacts: &Vec<String>,
        current_key: &str,
        filter: &str,
    ) -> (r: WorktreeWalk)
        ensures
            r.done == 0,
            r.current_key@ == current_key@,
            r.diff@ == empty_worktree_diff(crate::error::str_option(from)),
            ascending(texts(r.file_keys@)),
            ascending(texts(r.artifact_keys@)),
            forall|k: Seq<char>| #[trigger]
                texts(r.file_keys@).contains(k) == walked(
                    k,
                    texts(commit_files@),
                    texts(index_files@),
                    Some(current_key@),
                    filter@,
                ),
            forall|k: Seq<char>| #[trigger]
                texts(r.artifact_keys@).contains(k) == walked(
                    k,
                    texts(commit_artifacts@),
                    texts(index_artifacts@),
                    None,
                    filter@,
                ),
    {
        let diff = RepoDiff {
            from: match from {
                Some(id) => id.to_owned(),
                None => "index".to_owned(),
            },
            to: "worktree".to_owned(),
            files: Vec::new(),
            artifacts: Vec::new(),
        };
        proof {
            assert(views(diff.files@) =~= Seq::<RepoFileDiffView>::empty());
            assert(views(diff.artifacts@) =~= Seq::<RepoArtifactDiffView>::empty());
        }
        WorktreeWalk {
            file_keys: walked_keys(commit_files, index_files, Some(current_key), filter),
            artifact_keys: walked_keys(commit_artifacts, index_artifacts, None, filter),
            current_key: current_key.to_owned(),
            done: 0,
            diff,
        }
    }

    /// The next key to compare.
    pub fn task(&self) -> (r: Option<WalkTask>)
        ensures
            match r {
                Some(t) => self.task_view() == Some(
                    WalkTask { key: t.key@, file: t.file, current: t.current },
                ),
                None => self.task_view() is None,
            },
    {
        let files: usize = self.file_keys.len();
        if self.done < files {
            let key = self.file_keys[self.done].clone();
            let current: bool = same(key.as_str(), self.current_key.as_str());
            Some(WalkTask { key, file: true, current })
        } else if self.done - files < self.artifact_keys.len() {
            let key = self.artifact_keys[self.done - files].clone();
            Some(WalkTask { key, file: false, current: false })
        } else {
            None
        }
    }

    /// Takes the comparison of the next key, or none where its path is passed over.
    pub fn record(&mut self, path_diff: Option<RepoDiff>)
        requires
            old(self).task_view() is Some,
            old(self).done < usize::MAX,
        ensures
            final(self).done == old(self).done + 1,
            final(self).file_keys == old(self).file_keys,
            final(self).artifact_keys == old(self).artifact_keys,
            final(self).current_key == old(self).current_key,
            final(self).diff@ == match path_diff {
                Some(d) => appended(old(self).diff@, d@),
                None => old(self).diff@,
            },
    {
        if let Some(d) = path_diff {
            append_repo_diff(&mut self.diff, d);
        }
        self.done = self.done + 1;
    }
}

/// The paths of a diff of the given kind.
pub open spec fn diff_of_kind(
    diff: RepoDiffView,
    kind: Option<RepoTrackedPathKind>,
) -> RepoDiffView {
    match kind {
        None => diff,
        Some(kind) => RepoDiff {
            files: diff.files.filter(|e: RepoFileDiffView| e.kind == kind),
            artifacts: diff.artifacts.filter(|e: RepoArtifactDiffView| e.kind == kind),
            ..diff
        },
    }
}

fn files_of_kind(list: Vec<RepoFileDiff>, kind: RepoTrackedPathKind) -> (r: Vec<RepoFileDiff>)
    ensures
        views(r@) == views(list@).filter(|e: RepoFileDiffView| e.kind == kind),
{
    let ghost all = views(list@);
    let ghost keep = |e: RepoFileDiffView| e.kind == kind;
    let mut out: Vec<RepoFileDiff> = Vec::new();
    proof {
        reveal(Seq::filter);
        assert(all.take(0) =~= Seq::empty());
        assert(views(out@) =~= Seq::empty());
    }
    for e in it: list
        invariant
            all == views(it.seq()),
            keep == (|e: RepoFileDiffView| e.kind == kind),
            views(out@) == all.take(it.index() as int).filter(keep),
    {
        proof {
            reveal(Seq::filter);
            let i = it.index() as int;
            assert(all.take(i + 1).drop_last() =~= all.take(i));
            assert(all.take(i + 1).last() == e@);
            assert(views(out@.push(e)) =~= views(out@).push(e@));
        }
        if e.kind == kind {
            out.push(e);
        }
    }
    proof {
        assert(all.take(all.len() as int) =~= all);
    }
    out
}

fn artifacts_of_kind(
    list: Vec<RepoArtifactDiff>,
    kind: RepoTrackedPathKind,
) -> (r: Vec<RepoArtifactDiff>)
    ensures
        views(r@) == views(list@).filter(|e: RepoArtifactDiffView| e.kind == kind),
{
    let ghost all = views(list@);
    let ghost keep = |e: RepoArtifactDiffView| e.kind == kind;
    let mut out: Vec<RepoArtifactDiff> = Vec::new();
    proof {
        reveal(Seq::filter);
        assert(all.take(0) =~= Seq::empty());
        assert(views(out@) =~= Seq::empty());
    }
    for e in it: list
        invariant
            all == views(it.seq()),
            keep == (|e: RepoArtifactDiffView| e.kind == kind),
            views(out@) == all.take(it.index() as int).filter(keep),
    {
        proof {
            reveal(Seq::filter);
            let i = it.index() as int;
            assert(all.take(i + 1).drop_last() =~= all.take(i));
            assert(all.take(i + 1).last() == e@);
            assert(views(out@.push(e)) =~= views(out@).push(e@));
        }
        if e.kind == kind {
            out.push(e);
        }
    }
    proof {
        assert(all.take(all.len() as int) =~= all);
    }
    out
}

/// Keeps the paths of the given kind.
pub fn filter_repo_diff_by_kind(diff: RepoDiff, kind: Option<RepoTrackedPathKind>) -> (r: RepoDiff)
    ensures
        r@ == diff_of_kind(diff@, kind),
{
    match kind {
        None => diff,
        Some(kind) => RepoDiff {
            from: diff.from,
            to: diff.to,
            files: files_of_kind(diff.files, kind),
            artifacts: artifacts_of_kind(diff.artifacts, kind),
        },
    }
}

/// Keeping the paths of a kind twice keeps no fewer than keeping them once.
pub proof fn law_kind_filter_is_idempotent(diff: RepoDiffView, kind: Option<RepoTrackedPathKind>)
    ensures
        diff_of_kind(diff_of_kind(diff, kind), kind) == diff_of_kind(diff, kind),
{
    if let Some(k) = kind {
        lemma_filter_twice(diff.files, |e: RepoFileDiffView| e.kind == k);
        lemma_filter_twice(diff.artifacts, |e: RepoArtifactDiffView| e.kind == k);
    }
}

proof fn lemma_filter_twice<A>(s: Seq<A>, p: spec_fn(A) -> bool)
    ensures
        s.filter(p).filter(p) == s.filter(p),
    decreases s.len(),
{
    reveal(Seq::filter);
    if s.len() > 0 {
        lemma_filter_twice(s.drop_last(), p);
        if p(s.last()) {
            assert(s.filter(p).drop_last() =~= s.drop_last().filter(p));
        }
    }
}

} // verus!
