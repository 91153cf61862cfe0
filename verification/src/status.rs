//! The state of the worktree, as commands see it.
use vstd::prelude::*;

use crate::diff::PathState;
use crate::error::{invalid_command, CommandError};
use crate::model::{
    PathChange, PathChangeView, RepoFileChange, RepoPathChange, RepoPathChangeView, RepoStatus,
    RepoStatusView, RepoWorktreeChange, RepoWorktreeChangeKind, RepoWorktreeChangeView,
};
use crate::order::{before, is_before, lemma_before_irreflexive, lemma_before_transitive, lists};
use crate::report::{
    RepoTrackedPath, RepoTrackedPathDetail, RepoTrackedPathDetailView, RepoTrackedPathEntry,
    RepoTrackedPathEntryView, RepoTrackedPathView,
};
use crate::show::views;
use crate::spec::{RepoPathStorage, RepoTrackedPathKind};
use crate::text::{cat2, join, joined, lemma_texts_push, same, texts};

verus! {

fn tracked_paths_of_kind(
    list: Vec<RepoTrackedPath>,
    kind: RepoTrackedPathKind,
) -> (r: Vec<RepoTrackedPath>)
    ensures
        views(r@) == views(list@).filter(|e: RepoTrackedPathView| e.kind == kind),
{
    let ghost all = views(list@);
    let ghost keep = |e: RepoTrackedPathView| e.kind == kind;
    let mut out: Vec<RepoTrackedPath> = Vec::new();
    proof {
        reveal(Seq::filter);
        assert(all.take(0) =~= Seq::empty());
        assert(views(out@) =~= Seq::empty());
    }
    for e in it: list
        invariant
            all == views(it.seq()),
            keep == (|e: RepoTrackedPathView| e.kind == kind),
            views(out@) == all.take(it.index() as int).filter(keep),
    {
        proof {
            reveal(Seq::filter);
            let i = it.index() as int;
            assert(all.take(i + 1).drop_last() =~= all.take(i));
            assert(all.take(i + 1).last() == e@);
            assert(views(out@.push(e)) =~= views(out@).push(e@));
        }
        if e.kind == kind {
            out.push(e);
        }
    }
    proof {
        assert(all.take(all.len() as int) =~= all);
    }
    out
}

fn tracked_path_details_of_kind(
    list: Vec<RepoTrackedPathDetail>,
    kind: RepoTrackedPathKind,
) -> (r: Vec<RepoTrackedPathDetail>)
    ensures
        views(r@) == views(list@).filter(|e: RepoTrackedPathDetailView| e.kind == kind),
{
    let ghost all = views(list@);
    let ghost keep = |e: RepoTrackedPathDetailView| e.kind == kind;
    let mut out: Vec<RepoTrackedPathDetail> = Vec::new();
    proof {
        reveal(Seq::filter);
        assert(all.take(0) =~= Seq::empty());
        assert(views(out@) =~= Seq::empty());
    }
    for e in it: list
        invariant
            all == views(it.seq()),
            keep == (|e: RepoTrackedPathDetailView| e.kind == kind),
            views(out@) == all.take(it.index() as int).filter(keep),
    {
        proof {
            reveal(Seq::filter);
            let i = it.index() as int;
            assert(all.take(i + 1).drop_last() =~= all.take(i));
            assert(all.take(i + 1).last() == e@);
            assert(views(out@.push(e)) =~= views(out@).push(e@));
        }
        if e.kind == kind {
            out.push(e);
        }
    }
    proof {
        assert(all.take(all.len() as int) =~= all);
    }
    out
}

fn tracked_path_entries_of_kind(
    list: Vec<RepoTrackedPathEntry>,
    kind: RepoTrackedPathKind,
) -> (r: Vec<RepoTrackedPathEntry>)
    ensures
        views(r@) == views(list@).filter(|e: RepoTrackedPathEntryView| e.kind == kind),
{
    let ghost all = views(list@);
    let ghost keep = |e: RepoTrackedPathEntryView| e.kind == kind;
    let mut out: Vec<RepoTrackedPathEntry> = Vec::new();
    proof {
        reveal(Seq::filter);
        assert(all.take(0) =~= Seq::empty());
        assert(views(out@) =~= Seq::empty());
    }
    for e in it: list
        invariant
            all == views(it.seq()),
            keep == (|e: RepoTrackedPathEntryView| e.kind == kind),
            views(out@) == all.take(it.index() as int).filter(keep),
    {
        proof {
            reveal(Seq::filter);
            let i = it.index() as int;
            assert(all.take(i + 1).drop_last() =~= all.take(i));
            assert(all.take(i + 1).last() == e@);
            assert(views(out@.push(e)) =~= views(out@).push(e@));
        }
        if e.kind == kind {
            out.push(e);
        }
    }
    proof {
        assert(all.take(all.len() as int) =~= all);
    }
    out
}

pub fn worktree_changes_of_kind(
    list: Vec<RepoWorktreeChange>,
    kind: RepoTrackedPathKind,
) -> (r: Vec<RepoWorktreeChange>)
    ensures
        views(r@) == views(list@).filter(|e: RepoWorktreeChangeView| e.kind == kind),
{
    let ghost all = views(list@);
    let ghost keep = |e: RepoWorktreeChangeView| e.kind == kind;
    let mut out: Vec<RepoWorktreeChange> = Vec::new();
    proof {
        reveal(Seq::filter);
        assert(all.take(0) =~= Seq::empty());
        assert(views(out@) =~= Seq::empty());
    }
    for e in it: list
        invariant
            all == views(it.seq()),
            keep == (|e: RepoWorktreeChangeView| e.kind == kind),
            views(out@) == all.take(it.index() as int).filter(keep),
    {
        proof {
            reveal(Seq::filter);
            let i = it.index() as int;
            assert(all.take(i + 1).drop_last() =~= all.take(i));
            assert(all.take(i + 1).last() == e@);
            assert(views(out@.push(e)) =~= views(out@).push(e@));
        }
        if e.kind == kind {
            out.push(e);
        }
    }
    proof {
        assert(all.take(all.len() as int) =~= all);
    }
    out
}

pub fn staged_changes_of_kind(
    list: Vec<PathChange>,
    kind: RepoTrackedPathKind,
) -> (r: Vec<PathChange>)
    ensures
        views(r@) == views(list@).filter(|e: PathChangeView| e.kind == kind),
{
    let ghost all = views(list@);
    let ghost keep = |e: PathChangeView| e.kind == kind;
    let mut out: Vec<PathChange> = Vec::new();
    proof {
        reveal(Seq::filter);
        assert(all.take(0) =~= Seq::empty());
        assert(views(out@) =~= Seq::empty());
    }
    for e in it: list
        invariant
            all == views(it.seq()),
            keep == (|e: PathChangeView| e.kind == kind),
            views(out@) == all.take(it.index() as int).filter(keep),
    {
        proof {
            reveal(Seq::filter);
            let i = it.index() as int;
            assert(all.take(i + 1).drop_last() =~= all.take(i));
            assert(all.take(i + 1).last() == e@);
            assert(views(out@.push(e)) =~= views(out@).push(e@));
        }
        if e.kind == kind {
            out.push(e);
        }
    }
    proof {
        assert(all.take(all.len() as int) =~= all);
    }
    out
}

fn conflicted_changes_of_kind(
    list: Vec<RepoPathChange>,
    kind: RepoTrackedPathKind,
) -> (r: Vec<RepoPathChange>)
    ensures
        views(r@) == views(list@).filter(|e: RepoPathChangeView| e.kind == kind),
{
    let ghost all = views(list@);
    let ghost keep = |e: RepoPathChangeView| e.kind == kind;
    let mut out: Vec<RepoPathChange> = Vec::new();
    proof {
        reveal(Seq::filter);
        assert(all.take(0) =~= Seq::empty());
        assert(views(out@) =~= Seq::empty());
    }
    for e in it: list
        invariant
            all == views(it.seq()),
            keep == (|e: RepoPathChangeView| e.kind == kind),
            views(out@) == all.take(it.index() as int).filter(keep),
    {
        proof {
            reveal(Seq::filter);
            let i = it.index() as int;
            assert(all.take(i + 1).drop_last() =~= all.take(i));
            assert(all.take(i + 1).last() == e@);
            assert(views(out@.push(e)) =~= views(out@).push(e@));
        }
        if e.kind == kind {
            out.push(e);
        }
    }
    proof {
        assert(all.take(all.len() as int) =~= all);
    }
    out
}

/// The paths of the given kind, or all.
pub fn filter_tracked_paths_by_kind(
    paths: Vec<RepoTrackedPath>,
    kind: Option<RepoTrackedPathKind>,
) -> (r: Vec<RepoTrackedPath>)
    ensures
        views(r@) == match kind {
            Some(kind) => views(paths@).filter(|e: RepoTrackedPathView| e.kind == kind),
            None => views(paths@),
        },
{
    match kind {
        Some(kind) => tracked_paths_of_kind(paths, kind),
        None => paths,
    }
}

/// The paths of the given kind, or all.
pub fn filter_tracked_path_details_by_kind(
    paths: Vec<RepoTrackedPathDetail>,
    kind: Option<RepoTrackedPathKind>,
) -> (r: Vec<RepoTrackedPathDetail>)
    ensures
        views(r@) == match kind {
            Some(kind) => views(paths@).filter(|e: RepoTrackedPathDetailView| e.kind == kind),
            None => views(paths@),
        },
{
    match kind {
        Some(kind) => tracked_path_details_of_kind(paths, kind),
        None => paths,
    }
}

/// The paths of the given kind, or all.
pub fn filter_tracked_path_entries_by_kind(
    paths: Vec<RepoTrackedPathEntry>,
    kind: Option<RepoTrackedPathKind>,
) -> (r: Vec<RepoTrackedPathEntry>)
    ensures
        views(r@) == match kind {
            Some(kind) => views(paths@).filter(|e: RepoTrackedPathEntryView| e.kind == kind),
            None => views(paths@),
        },
{
    match kind {
        Some(kind) => tracked_path_entries_of_kind(paths, kind),
        None => paths,
    }
}

/// The paths of a list of changes.
pub open spec fn worktree_change_paths(changes: Seq<RepoWorktreeChangeView>) -> Seq<Seq<char>> {
    Seq::new(changes.len(), |i: int| changes[i].path)
}

fn list_worktree_change_paths(changes: &Vec<RepoWorktreeChange>) -> (r: Vec<String>)
    ensures
        texts(r@) == worktree_change_paths(views(changes@)),
{
    let ghost all = worktree_change_paths(views(changes@));
    let mut out: Vec<String> = Vec::new();
    let mut i: usize = 0;
    proof {
        assert(texts(out@) =~= all.take(0));
    }
    while i < changes.len()
        invariant
            i <= changes@.len(),
            all == worktree_change_paths(views(changes@)),
            texts(out@) == all.take(i as int),
        decreases changes@.len() - i,
    {
        let path = changes[i].path.clone();
        proof {
            lemma_texts_push(out@, path);
            assert(all.take(i + 1) =~= all.take(i as int).push(path@));
        }
        out.push(path);
        i += 1;
    }
    proof {
        assert(all.take(i as int) =~= all);
    }
    out
}

/// The paths of a list of changes.
pub open spec fn staged_change_paths(changes: Seq<PathChangeView>) -> Seq<Seq<char>> {
    Seq::new(changes.len(), |i: int| changes[i].path)
}

pub fn list_staged_change_paths(changes: &Vec<PathChange>) -> (r: Vec<String>)
    ensures
        texts(r@) == staged_change_paths(views(changes@)),
{
    let ghost all = staged_change_paths(views(changes@));
    let mut out: Vec<String> = Vec::new();
    let mut i: usize = 0;
    proof {
        assert(texts(out@) =~= all.take(0));
    }
    while i < changes.len()
        invariant
            i <= changes@.len(),
            all == staged_change_paths(views(changes@)),
            texts(out@) == all.take(i as int),
        decreases changes@.len() - i,
    {
        let path = changes[i].path.clone();
        proof {
            lemma_texts_push(out@, path);
            assert(all.take(i + 1) =~= all.take(i as int).push(path@));
        }
        out.push(path);
        i += 1;
    }
    proof {
        assert(all.take(i as int) =~= all);
    }
    out
}

/// The paths of a list of changes.
pub open spec fn conflicted_change_paths(changes: Seq<RepoPathChangeView>) -> Seq<Seq<char>> {
    Seq::new(changes.len(), |i: int| changes[i].path)
}

fn list_conflicted_change_paths(changes: &Vec<RepoPathChange>) -> (r: Vec<String>)
    ensures
        texts(r@) == conflicted_change_paths(views(changes@)),
{
    let ghost all = conflicted_change_paths(views(changes@));
    let mut out: Vec<String> = Vec::new();
    let mut i: usize = 0;
    proof {
        assert(texts(out@) =~= all.take(0));
    }
    while i < changes.len()
        invariant
            i <= changes@.len(),
            all == conflicted_change_paths(views(changes@)),
            texts(out@) == all.take(i as int),
        decreases changes@.len() - i,
    {
        let path = changes[i].path.clone();
        proof {
            lemma_texts_push(out@, path);
            assert(all.take(i + 1) =~= all.take(i as int).push(path@));
        }
        out.push(path);
        i += 1;
    }
    proof {
        assert(all.take(i as int) =~= all);
    }
    out
}

/// The status with only the changes of the given kind.
pub open spec fn status_of_kind(
    status: RepoStatusView,
    kind: Option<RepoTrackedPathKind>,
) -> RepoStatusView {
    match kind {
        None => status,
        Some(kind) => {
            let unstaged = status.unstaged_changes.filter(
                |e: RepoWorktreeChangeView| e.kind == kind,
            );
            let staged = status.staged_changes.filter(|e: PathChangeView| e.kind == kind);
            let conflicted = status.conflicted_changes.filter(
                |e: RepoPathChangeView| e.kind == kind,
            );
            RepoStatus {
                unstaged_changes: unstaged,
                staged_changes: staged,
                conflicted_changes: conflicted,
                unstaged: worktree_change_paths(unstaged),
                staged: staged_change_paths(staged),
                conflicted: conflicted_change_paths(conflicted),
                ..status
            }
        },
    }
}

pub fn filter_repo_status_by_kind(status: RepoStatus, kind: Option<RepoTrackedPathKind>) -> (r:
    RepoStatus)
    ensures
        r@ == status_of_kind(status@, kind),
{
    let kind = match kind {
        None => return status,
        Some(kind) => kind,
    };
    let mut status = status;
    let unstaged_changes = worktree_changes_of_kind(status.unstaged_changes, kind);
    let staged_changes = staged_changes_of_kind(status.staged_changes, kind);
    let conflicted_changes = conflicted_changes_of_kind(status.conflicted_changes, kind);
    status.unstaged = list_worktree_change_paths(&unstaged_changes);
    status.staged = list_staged_change_paths(&staged_changes);
    status.conflicted = list_conflicted_change_paths(&conflicted_changes);
    status.unstaged_changes = unstaged_changes;
    status.staged_changes = staged_changes;
    status.conflicted_changes = conflicted_changes;
    status
}

/// A change behind the last one of the list whose path does not come after its own.
pub open spec fn placed(s: Seq<RepoWorktreeChangeView>, e: RepoWorktreeChangeView) -> Seq<
    RepoWorktreeChangeView,
>
    decreases s.len(),
{
    if s.len() == 0 || !before(e.path, s.last().path) {
        s.push(e)
    } else {
        placed(s.drop_last(), e).push(s.last())
    }
}

/// The changes in ascending order of their paths; those of one path stay in their order.
pub open spec fn by_path(s: Seq<RepoWorktreeChangeView>) -> Seq<RepoWorktreeChangeView>
    decreases s.len(),
{
    if s.len() == 0 {
        s
    } else {
        placed(by_path(s.drop_last()), s.last())
    }
}

proof fn lemma_placed(s: Seq<RepoWorktreeChangeView>, e: RepoWorktreeChangeView, at: int)
    requires
        0 <= at <= s.len(),
        forall|j: int| at <= j < s.len() ==> before(e.path, (#[trigger] s[j]).path),
        at > 0 ==> !before(e.path, s[at - 1].path),
    ensures
        placed(s, e) == s.insert(at, e),
    decreases s.len(),
{
    if at == s.len() {
        assert(s.insert(at, e) =~= s.push(e));
    } else {
        lemma_placed(s.drop_last(), e, at);
        assert(s.drop_last().insert(at, e).push(s.last()) =~= s.insert(at, e));
    }
}

fn sort_by_path(list: Vec<RepoWorktreeChange>) -> (r: Vec<RepoWorktreeChange>)
    ensures
        views(r@) == by_path(views(list@)),
{
    let ghost all = views(list@);
    let mut out: Vec<RepoWorktreeChange> = Vec::new();
    proof {
        assert(all.take(0) =~= Seq::empty());
        assert(views(out@) =~= Seq::empty());
    }
    for e in it: list
        invariant
            all == views(it.seq()),
            views(out@) == by_path(all.take(it.index() as int)),
    {
        let mut at: usize = out.len();
        while at > 0 && is_before(e.path.as_str(), out[at - 1].path.as_str())
            invariant
                at <= out@.len(),
                forall|j: int|
                    at <= j < out@.len() ==> before(e@.path, (#[trigger] views(out@)[j]).path),
            decreases at,
        {
            at -= 1;
        }
        proof {
            let i = it.index() as int;
            assert(all.take(i + 1).drop_last() =~= all.take(i));
            assert(all.take(i + 1).last() == e@);
            if at > 0 {
                assert(views(out@)[at - 1] == out@[at - 1]@);
            }
            lemma_placed(views(out@), e@, at as int);
            assert(views(out@.insert(at as int, e)) =~= views(out@).insert(at as int, e@));
        }
        out.insert(at, e);
    }
    proof {
        assert(all.take(all.len() as int) =~= all);
    }
    out
}

/// Sorting by path keeps every change and puts the paths in ascending order.
pub proof fn law_by_path_sorts(s: Seq<RepoWorktreeChangeView>)
    ensures
        by_path(s).to_multiset() == s.to_multiset(),
        forall|i: int, j: int|
            0 <= i < j < s.len() ==> !before(
                (#[trigger] by_path(s)[j]).path,
                (#[trigger] by_path(s)[i]).path,
            ),
        by_path(s).len() == s.len(),
    decreases s.len(),
{
    if s.len() > 0 {
        law_by_path_sorts(s.drop_last());
        lemma_placed_sorted(by_path(s.drop_last()), s.last());
        assert(s =~= s.drop_last().push(s.last()));
        s.drop_last().to_multiset_ensures();
    }
}

proof fn lemma_placed_sorted(s: Seq<RepoWorktreeChangeView>, e: RepoWorktreeChangeView)
    requires
        forall|i: int, j: int|
            0 <= i < j < s.len() ==> !before((#[trigger] s[j]).path, (#[trigger] s[i]).path),
    ensures
        placed(s, e).to_multiset() == s.to_multiset().insert(e),
        placed(s, e).len() == s.len() + 1,
        forall|i: int, j: int|
            0 <= i < j <= s.len() ==> !before(
                (#[trigger] placed(s, e)[j]).path,
                (#[trigger] placed(s, e)[i]).path,
            ),
        forall|j: int|
            0 <= j <= s.len() ==> placed(s, e).contains(#[trigger] placed(s, e)[j]) && (placed(
                s,
                e,
            )[j] == e || s.contains(placed(s, e)[j])),
    decreases s.len(),
{
    let t = placed(s, e);
    s.to_multiset_ensures();
    if s.len() == 0 {
        assert(t =~= s.push(e));
        assert(t[0] == e);
    } else if !before(e.path, s.last().path) {
        assert(t == s.push(e));
        assert forall|i: int, j: int| 0 <= i < j <= s.len() implies !before(
            (#[trigger] t[j]).path,
            (#[trigger] t[i]).path,
        ) by {
            if j == s.len() && i < s.len() - 1 {
                if before(e.path, s[i].path) {
                    crate::order::lemma_before_total(s.last().path, e.path);
                    if before(s.last().path, e.path) {
                        lemma_before_transitive(s.last().path, e.path, s[i].path);
                    }
                    assert(before(s[s.len() - 1].path, s[i].path));
                }
            }
        }
        assert forall|j: int| 0 <= j <= s.len() implies t.contains(#[trigger] t[j]) && (t[j] == e
            || s.contains(t[j])) by {
            if j < s.len() {
                assert(t[j] == s[j]);
            }
        }
    } else {
        let rest = s.drop_last();
        lemma_placed_sorted(rest, e);
        let u = placed(rest, e);
        assert(t == u.push(s.last()));
        rest.to_multiset_ensures();
        u.to_multiset_ensures();
        assert(s =~= rest.push(s.last()));
        assert(t.to_multiset() =~= s.to_multiset().insert(e));
        assert forall|i: int, j: int| 0 <= i < j <= s.len() implies !before(
            (#[trigger] t[j]).path,
            (#[trigger] t[i]).path,
        ) by {
            if j == s.len() {
                assert(t[i] == u[i]);
                if u[i] == e {
                    if before(s.last().path, e.path) {
                        lemma_before_transitive(e.path, s.last().path, e.path);
                        lemma_before_irreflexive(e.path);
                    }
                } else {
                    let n = rest.index_of(u[i]);
                    assert(rest[n] == s[n]);
                    assert(!before(s[s.len() - 1].path, s[n].path));
                }
            } else {
                assert(t[i] == u[i] && t[j] == u[j]);
            }
        }
        assert forall|j: int| 0 <= j <= s.len() implies t.contains(#[trigger] t[j]) && (t[j] == e
            || s.contains(t[j])) by {
            if j < s.len() {
                assert(t[j] == u[j]);
                if u[j] != e {
                    let n = rest.index_of(u[j]);
                    assert(s[n] == u[j]);
                }
            } else {
                assert(s[s.len() - 1] == t[j]);
            }
        }
    }
}

/// A change of the open database, or of a path that a volume is bound to, is that of a database.
pub open spec fn retyped(
    change: RepoWorktreeChangeView,
    bound: bool,
    current_key: Seq<char>,
) -> RepoWorktreeChangeView {
    if change.path == current_key || bound {
        RepoWorktreeChange {
            kind: RepoTrackedPathKind::SqliteDatabase,
            storage: RepoPathStorage::SqliteSnapshot,
            ..change
        }
    } else {
        change
    }
}

pub open spec fn all_retyped(
    changes: Seq<RepoWorktreeChangeView>,
    bound: Seq<bool>,
    current_key: Seq<char>,
) -> Seq<RepoWorktreeChangeView> {
    Seq::new(changes.len(), |i: int| retyped(changes[i], bound[i], current_key))
}

/// The index deletes the open database.
pub open spec fn staged_as_deleted(
    staged: Seq<PathChangeView>,
    current_key: Seq<char>,
) -> bool {
    exists|i: int|
        0 <= i < staged.len() && (#[trigger] staged[i]).path == current_key && staged[i].change
            == RepoFileChange::Deleted
}

/// A change that the status shows: of the open database, of a tracked path, or of an untracked
/// one; but not the open database as untracked where the index deletes it.
pub open spec fn is_shown(
    change: RepoWorktreeChangeView,
    current_key: Seq<char>,
    current_deleted: bool,
    databases: Seq<Seq<char>>,
    artifacts: Seq<Seq<char>>,
) -> bool {
    &&& !(change.path == current_key && change.change == RepoWorktreeChangeKind::Untracked
        && current_deleted)
    &&& change.path == current_key || databases.contains(change.path) || artifacts.contains(
        change.path,
    ) || change.change == RepoWorktreeChangeKind::Untracked
}

/// The changes that the status shows before the tracked databases are looked at.
pub open spec fn shown_changes(
    status: RepoStatusView,
    bound: Seq<bool>,
    current_key: Seq<char>,
    databases: Seq<Seq<char>>,
    artifacts: Seq<Seq<char>>,
) -> Seq<RepoWorktreeChangeView> {
    let deleted = staged_as_deleted(status.staged_changes, current_key);
    all_retyped(status.unstaged_changes, bound, current_key).filter(
        |e: RepoWorktreeChangeView| is_shown(e, current_key, deleted, databases, artifacts),
    )
}

/// The tracked databases that have to be looked at: not the open one, and none that is shown.
pub open spec fn unseen_keys(
    databases: Seq<Seq<char>>,
    shown: Seq<RepoWorktreeChangeView>,
    current_key: Seq<char>,
) -> Seq<Seq<char>> {
    let seen = worktree_change_paths(shown);
    databases.filter(|k: Seq<char>| k != current_key && !seen.contains(k))
}

/// What looking at a tracked database shows.
#[derive(Debug, Clone, Copy, PartialEq, Eq, Structural)]
pub enum TrackedState {
    /// It holds what the index holds.
    Same,
    Changed,
    Missing,
    /// Something other than a database stands there.
    PassedOver,
}

/// What there is to compare a tracked database with: the volume that is bound to its path, or
/// whatever stands there; `same` tells of a database whether it holds what the index holds.
#[derive(Debug, Clone, Copy, PartialEq, Eq, Structural)]
pub enum TrackedLook {
    Bound { same: bool },
    Standing { standing: PathState, same: bool },
}

/// What a look at a tracked database shows.
pub fn tracked_state(look: TrackedLook) -> (r: TrackedState)
    ensures
        r == match look {
            TrackedLook::Bound { same: true } => TrackedState::Same,
            TrackedLook::Bound { same: false } => TrackedState::Changed,
            TrackedLook::Standing { standing: PathState::Missing, .. } => TrackedState::Missing,
            TrackedLook::Standing {
                standing: PathState::SqliteFile,
                same: true,
            } => TrackedState::Same,
            TrackedLook::Standing {
                standing: PathState::SqliteFile,
                same: false,
            } => TrackedState::Changed,
            _ => TrackedState::PassedOver,
        },
        r == TrackedState::Changed ==> (look matches TrackedLook::Bound { same } && !same) || (
        look matches TrackedLook::Standing { same, .. } && !same),
        r == TrackedState::Same ==> (look matches TrackedLook::Bound { same } && same) || (
        look matches TrackedLook::Standing { same, .. } && same),
        r == TrackedState::Missing <==> look matches TrackedLook::Standing {
            standing: PathState::Missing,
            ..
        },
        look is Bound ==> r != TrackedState::PassedOver,
{
    let same: bool = match look {
        TrackedLook::Bound { same } => same,
        TrackedLook::Standing { standing, same } => match standing {
            PathState::Missing => return TrackedState::Missing,
            PathState::SqliteFile => same,
            PathState::Directory => return TrackedState::PassedOver,
            PathState::PlainFile => return TrackedState::PassedOver,
            PathState::Special => return TrackedState::PassedOver,
        },
    };
    if same {
        TrackedState::Same
    } else {
        TrackedState::Changed
    }
}

pub open spec fn tracked_change(state: TrackedState) -> Option<RepoWorktreeChangeKind> {
    match state {
        TrackedState::Changed => Some(RepoWorktreeChangeKind::Modified),
        TrackedState::Missing => Some(RepoWorktreeChangeKind::Deleted),
        TrackedState::Same => None,
        TrackedState::PassedOver => None,
    }
}

/// The changes of the tracked databases that were looked at.
pub open spec fn tracked_changes(keys: Seq<Seq<char>>, states: Seq<TrackedState>) -> Seq<
    RepoWorktreeChangeView,
>
    decreases keys.len(),
{
    if keys.len() == 0 {
        Seq::empty()
    } else {
        let rest = tracked_changes(keys.drop_last(), states);
        match tracked_change(states[keys.len() - 1]) {
            Some(change) => rest.push(
                RepoWorktreeChange {
                    path: keys.last(),
                    change,
                    kind: RepoTrackedPathKind::SqliteDatabase,
                    storage: RepoPathStorage::SqliteSnapshot,
                },
            ),
            None => rest,
        }
    }
}

/// The status with the changes of the worktree as they are shown.
pub open spec fn status_with(
    status: RepoStatusView,
    changes: Seq<RepoWorktreeChangeView>,
) -> RepoStatusView {
    RepoStatus {
        unstaged_changes: by_path(changes),
        unstaged: worktree_change_paths(by_path(changes)),
        ..status
    }
}

fn retype_changes(list: Vec<RepoWorktreeChange>, bound: &Vec<bool>, current_key: &str) -> (r: Vec<
    RepoWorktreeChange,
>)
    requires
        bound@.len() == list@.len(),
    ensures
        views(r@) == all_retyped(views(list@), bound@, current_key@),
{
    let ghost all = all_retyped(views(list@), bound@, current_key@);
    let ghost given = list@;
    let n: usize = bound.len();
    let mut out: Vec<RepoWorktreeChange> = Vec::new();
    let mut i: usize = 0;
    proof {
        assert(views(out@) =~= all.take(0));
    }
    for e in it: list
        invariant
            i == it.index(),
            it.seq() == given,
            bound@.len() == given.len(),
            n == given.len(),
            all == all_retyped(views(given), bound@, current_key@),
            views(out@) == all.take(it.index() as int),
    {
        let mut e = e;
        let ghost old_e = e@;
        if same(e.path.as_str(), current_key) || bound[i] {
            e.kind = RepoTrackedPathKind::SqliteDatabase;
            e.storage = RepoPathStorage::SqliteSnapshot;
        }
        proof {
            assert(old_e == views(given)[i as int]);
            assert(all[i as int] == e@);
            assert(all.take(i + 1) =~= all.take(i as int).push(e@));
            assert(views(out@.push(e)) =~= views(out@).push(e@));
        }
        out.push(e);
        i += 1;
    }
    proof {
        assert(all.take(all.len() as int) =~= all);
    }
    out
}

fn is_staged_as_deleted(staged: &Vec<PathChange>, current_key: &str) -> (r: bool)
    ensures
        r == staged_as_deleted(views(staged@), current_key@),
{
    let mut i: usize = 0;
    while i < staged.len()
        invariant
            i <= staged@.len(),
            forall|j: int|
                0 <= j < i ==> !((#[trigger] views(staged@)[j]).path == current_key@ && views(
                    staged@,
                )[j].change == RepoFileChange::Deleted),
        decreases staged@.len() - i,
    {
        if same(staged[i].path.as_str(), current_key) && staged[i].change
            == RepoFileChange::Deleted {
            proof {
                assert(views(staged@)[i as int].path == current_key@);
            }
            return true;
        }
        i += 1;
    }
    false
}

fn is_change_shown(
    e: &RepoWorktreeChange,
    current_key: &str,
    current_deleted: bool,
    databases: &Vec<String>,
    artifacts: &Vec<String>,
) -> (r: bool)
    ensures
        r == is_shown(e@, current_key@, current_deleted, texts(databases@), texts(artifacts@)),
{
    let current: bool = same(e.path.as_str(), current_key);
    let untracked: bool = e.change == RepoWorktreeChangeKind::Untracked;
    if current && untracked && current_deleted {
        return false;
    }
    current || lists(databases, e.path.as_str()) || lists(artifacts, e.path.as_str()) || untracked
}

fn keep_shown(
    list: Vec<RepoWorktreeChange>,
    current_key: &str,
    current_deleted: bool,
    databases: &Vec<String>,
    artifacts: &Vec<String>,
) -> (r: Vec<RepoWorktreeChange>)
    ensures
        views(r@) == views(list@).filter(|e: RepoWorktreeChangeView| is_shown(e, current_key@, current_deleted, texts(databases@), texts(artifacts@))),
{
    let ghost all = views(list@);
    let ghost keep = |e: RepoWorktreeChangeView| is_shown(
        e,
        current_key@,
        current_deleted,
        texts(databases@),
        texts(artifacts@),
    );
    let mut out: Vec<RepoWorktreeChange> = Vec::new();
    proof {
        reveal(Seq::filter);
        assert(all.take(0) =~= Seq::empty());
        assert(views(out@) =~= Seq::empty());
    }
    for e in it: list
        invariant
            all == views(it.seq()),
            keep == (|e: RepoWorktreeChangeView| is_shown(e, current_key@, current_deleted, texts(databases@), texts(artifacts@))),
            views(out@) == all.take(it.index() as int).filter(keep),
    {
        proof {
            reveal(Seq::filter);
            let i = it.index() as int;
            assert(all.take(i + 1).drop_last() =~= all.take(i));
            assert(all.take(i + 1).last() == e@);
            assert(views(out@.push(e)) =~= views(out@).push(e@));
        }
        if is_change_shown(&e, current_key, current_deleted, databases, artifacts) {
            out.push(e);
        }
    }
    proof {
        assert(all.take(all.len() as int) =~= all);
    }
    out
}

/// The changes that the status shows before the tracked databases are looked at; `bound` tells for
/// each change whether a volume is bound to its path.
pub fn changes_to_show(
    status: &RepoStatus,
    changes: Vec<RepoWorktreeChange>,
    bound: &Vec<bool>,
    current_key: &str,
    databases: &Vec<String>,
    artifacts: &Vec<String>,
) -> (r: Vec<RepoWorktreeChange>)
    requires
        bound@.len() == changes@.len(),
        views(changes@) == status@.unstaged_changes,
    ensures
        views(r@) == shown_changes(
            status@,
            bound@,
            current_key@,
            texts(databases@),
            texts(artifacts@),
        ),
{
    let deleted: bool = is_staged_as_deleted(&status.staged_changes, current_key);
    let retyped = retype_changes(changes, bound, current_key);
    keep_shown(retyped, current_key, deleted, databases, artifacts)
}

/// The tracked databases that have to be looked at.
pub fn keys_to_look_at(
    databases: &Vec<String>,
    shown: &Vec<RepoWorktreeChange>,
    current_key: &str,
) -> (r: Vec<String>)
    ensures
        texts(r@) == unseen_keys(texts(databases@), views(shown@), current_key@),
{
    let seen = list_worktree_change_paths(shown);
    let ghost all = texts(databases@);
    let ghost keep = |k: Seq<char>| k != current_key@ && !texts(seen@).contains(k);
    let mut out: Vec<String> = Vec::new();
    let mut i: usize = 0;
    proof {
        reveal(Seq::filter);
        assert(all.take(0) =~= Seq::empty());
        assert(texts(out@) =~= Seq::empty());
    }
    while i < databases.len()
        invariant
            i <= databases@.len(),
            all == texts(databases@),
            keep == (|k: Seq<char>| k != current_key@ && !texts(seen@).contains(k)),
            texts(out@) == all.take(i as int).filter(keep),
        decreases databases@.len() - i,
    {
        let key = databases[i].clone();
        proof {
            reveal(Seq::filter);
            assert(all.take(i + 1).drop_last() =~= all.take(i as int));
            assert(all.take(i + 1).last() == key@);
            lemma_texts_push(out@, key);
        }
        if !same(key.as_str(), current_key) && !lists(&seen, key.as_str()) {
            out.push(key);
        }
        i += 1;
    }
    proof {
        assert(all.take(i as int) =~= all);
    }
    out
}

/// The status for the open database. `shown` are the changes to show, and `states` is what looking
/// at the tracked databases `keys` showed.
pub fn repo_status_for_file(
    status: RepoStatus,
    shown: Vec<RepoWorktreeChange>,
    keys: &Vec<String>,
    states: &Vec<TrackedState>,
) -> (r: RepoStatus)
    requires
        keys@.len() == states@.len(),
    ensures
        r@ == status_with(
            status@,
            views(shown@) + tracked_changes(texts(keys@), states@),
        ),
{
    let mut status = status;
    let mut changes = shown;
    let ghost all = texts(keys@);
    let mut i: usize = 0;
    proof {
        assert(all.take(0) =~= Seq::empty());
        assert(views(changes@) =~= views(shown@) + tracked_changes(all.take(0), states@));
    }
    while i < keys.len()
        invariant
            i <= keys@.len(),
            keys@.len() == states@.len(),
            all == texts(keys@),
            views(changes@) == views(shown@) + tracked_changes(all.take(i as int), states@),
        decreases keys@.len() - i,
    {
        let change = match states[i] {
            TrackedState::Changed => Some(RepoWorktreeChangeKind::Modified),
            TrackedState::Missing => Some(RepoWorktreeChangeKind::Deleted),
            TrackedState::Same => None,
            TrackedState::PassedOver => None,
        };
        proof {
            assert(all.take(i + 1).drop_last() =~= all.take(i as int));
            assert(all.take(i + 1).last() == keys@[i as int]@);
        }
        if let Some(change) = change {
            let e = RepoWorktreeChange {
                path: keys[i].clone(),
                change,
                kind: RepoTrackedPathKind::SqliteDatabase,
                storage: RepoPathStorage::SqliteSnapshot,
            };
            proof {
                assert(views(changes@.push(e)) =~= views(changes@).push(e@));
                assert((views(shown@) + tracked_changes(all.take(i as int), states@)).push(e@)
                    =~= views(shown@) + tracked_changes(all.take(i as int), states@).push(e@));
            }
            changes.push(e);
        }
        i += 1;
    }
    proof {
        assert(all.take(i as int) =~= all);
    }
    status.unstaged_changes = sort_by_path(changes);
    status.unstaged = list_worktree_change_paths(&status.unstaged_changes);
    status
}

/// Something would be lost if the worktree were replaced.
pub open spec fn work_in_progress(status: RepoStatusView, current_key: Seq<char>) -> bool {
    ||| exists|i: int|
        0 <= i < status.unstaged_changes.len() && blocks(
            (#[trigger] status.unstaged_changes[i]),
            current_key,
        )
    ||| status.staged.len() > 0
    ||| status.conflicted.len() > 0
    ||| status.merge_head is Some
}

/// A change of a tracked path, or of the open database.
pub open spec fn blocks(change: RepoWorktreeChangeView, current_key: Seq<char>) -> bool {
    change.change != RepoWorktreeChangeKind::Untracked || change.path == current_key
}

pub fn repo_has_work_in_progress_for_file(status: &RepoStatus, current_key: &str) -> (r: bool)
    ensures
        r == work_in_progress(status@, current_key@),
{
    let changes = &status.unstaged_changes;
    let mut i: usize = 0;
    while i < changes.len()
        invariant
            i <= changes@.len(),
            changes@ == status.unstaged_changes@,
            forall|j: int|
                0 <= j < i ==> !blocks(#[trigger] status@.unstaged_changes[j], current_key@),
        decreases changes@.len() - i,
    {
        if changes[i].change != RepoWorktreeChangeKind::Untracked || same(
            changes[i].path.as_str(),
            current_key,
        ) {
            proof {
                assert(blocks(status@.unstaged_changes[i as int], current_key@));
            }
            return true;
        }
        i += 1;
    }
    status.staged.len() > 0 || status.conflicted.len() > 0 || status.merge_head.is_some()
}

/// The untracked paths other than the open database that `keys` would overwrite.
pub open spec fn overwritten(
    status: RepoStatusView,
    current_key: Seq<char>,
    keys: Seq<Seq<char>>,
) -> Seq<Seq<char>> {
    worktree_change_paths(
        status.unstaged_changes.filter(
            |e: RepoWorktreeChangeView|
                e.change == RepoWorktreeChangeKind::Untracked && e.path != current_key
                    && keys.contains(e.path),
        ),
    )
}

pub fn ensure_checkout_keys_preserve_untracked_paths(
    status: &RepoStatus,
    current_key: &str,
    keys: &Vec<String>,
) -> (r: Result<(), CommandError>)
    ensures
        match r {
            Ok(()) => overwritten(status@, current_key@, texts(keys@)).len() == 0,
            Err(e) => overwritten(status@, current_key@, texts(keys@)).len() > 0 && e@
                == CommandError::InvalidCommand(
                "cannot checkout because untracked paths would be overwritten: "@ + joined(
                    overwritten(status@, current_key@, texts(keys@)),
                    ", "@,
                ),
            ),
        },
{
    let ghost all = status@.unstaged_changes;
    let ghost keep = |e: RepoWorktreeChangeView|
        e.change == RepoWorktreeChangeKind::Untracked && e.path != current_key@ && texts(
            keys@,
        ).contains(e.path);
    let mut out: Vec<String> = Vec::new();
    let mut i: usize = 0;
    proof {
        reveal(Seq::filter);
        assert(all.take(0) =~= Seq::empty());
        assert(texts(out@) =~= worktree_change_paths(all.take(0).filter(keep)));
    }
    while i < status.unstaged_changes.len()
        invariant
            i <= status.unstaged_changes@.len(),
            all == status@.unstaged_changes,
            keep == (|e: RepoWorktreeChangeView|
                e.change == RepoWorktreeChangeKind::Untracked && e.path != current_key@ && texts(
                    keys@,
                ).contains(e.path)),
            texts(out@) == worktree_change_paths(all.take(i as int).filter(keep)),
        decreases status.unstaged_changes@.len() - i,
    {
        let e = &status.unstaged_changes[i];
        proof {
            reveal(Seq::filter);
            assert(all.take(i + 1).drop_last() =~= all.take(i as int));
            assert(all.take(i + 1).last() == e@);
        }
        if e.change == RepoWorktreeChangeKind::Untracked && !same(e.path.as_str(), current_key)
            && lists(keys, e.path.as_str()) {
            let path = e.path.clone();
            proof {
                lemma_texts_push(out@, path);
                let kept = all.take(i as int).filter(keep);
                assert(worktree_change_paths(kept.push(e@)) =~= worktree_change_paths(kept).push(
                    path@,
                ));
            }
            out.push(path);
        }
        i += 1;
    }
    proof {
        assert(all.take(i as int) =~= all);
    }
    if out.len() == 0 {
        return Ok(());
    }
    let list = join(&out, ", ");
    Err(
        invalid_command(
            cat2(
                "cannot checkout because untracked paths would be overwritten: ",
                list.as_str(),
            ).as_str(),
        ),
    )
}

} // verus!
