//! What holds of the status of a worktree and of what an add or a remove does with its paths.
use vstd::prelude::*;
use vstd::string::*;

use crate::checkout::{listed, PathListingView};
use crate::diff::{key_matches, PathState};
use crate::error::{CommandError, RepoErr};
use crate::model::{
    PathChangeView, RepoFileChange, RepoPathChangeView, RepoStatusView, RepoWorktreeChangeKind,
    RepoWorktreeChangeView,
};
use crate::spec::{RepoPathStorage, RepoTrackedPathKind};
use crate::staging::{
    add_route, add_steps, changes_to_add, deletion, entry_step, file_removal, in_the_way,
    is_sidecar, remove_step, removes, topology_removal, AddRoute, EntryStep, FileRemoval,
    Unstaging,
};
use crate::status::{
    blocks, by_path, is_shown, law_by_path_sorts, overwritten, retyped, shown_changes,
    staged_as_deleted, status_of_kind, status_with, tracked_changes, unseen_keys,
    work_in_progress, worktree_change_paths, TrackedState,
};

verus! {

/// A filtered list holds what the list holds and the filter keeps.
pub proof fn lemma_filter_keeps<A>(s: Seq<A>, keep: spec_fn(A) -> bool, x: A)
    ensures
        s.filter(keep).contains(x) <==> s.contains(x) && keep(x),
    decreases s.len(),
{
    reveal(Seq::filter);
    if s.len() > 0 {
        let was = s.drop_last().filter(keep);
        let now = s.filter(keep);
        lemma_filter_keeps(s.drop_last(), keep, x);
        if s.drop_last().contains(x) {
            assert(s[s.drop_last().index_of(x)] == x);
        }
        if s.contains(x) && s.last() != x {
            assert(s.drop_last()[s.index_of(x)] == x);
        }
        if was.contains(x) {
            assert(now[was.index_of(x)] == x);
        }
        if now.contains(x) && !was.contains(x) {
            let i = now.index_of(x);
            if i < was.len() {
                assert(was[i] == x);
            }
        }
        if s.last() == x {
            assert(s[s.len() - 1] == x);
            if keep(x) {
                assert(now[was.len() as int] == x);
            }
        }
    }
}

/// Whatever the filter is, a filtered list holds what the list holds and the filter keeps.
pub proof fn lemma_filters_keep<A>(s: Seq<A>)
    ensures
        forall|keep: spec_fn(A) -> bool, x: A| #[trigger]
            s.filter(keep).contains(x) <==> s.contains(x) && keep(x),
{
    assert forall|keep: spec_fn(A) -> bool, x: A| #[trigger]
        s.filter(keep).contains(x) <==> s.contains(x) && keep(x) by {
        lemma_filter_keeps(s, keep, x);
    }
}

/// A list of changes holds one of the path that is of the given sort.
pub open spec fn reports(
    changes: Seq<RepoWorktreeChangeView>,
    path: Seq<char>,
    change: RepoWorktreeChangeKind,
) -> bool {
    exists|j: int| #![trigger changes[j]]
        0 <= j < changes.len() && changes[j].path == path && changes[j].change == change
            && changes[j].kind == RepoTrackedPathKind::SqliteDatabase
}

proof fn lemma_tracked_at(keys: Seq<Seq<char>>, states: Seq<TrackedState>, i: int)
    requires
        0 <= i < keys.len(),
    ensures
        states[i] == TrackedState::Changed ==> reports(
            tracked_changes(keys, states),
            keys[i],
            RepoWorktreeChangeKind::Modified,
        ),
        states[i] == TrackedState::Missing ==> reports(
            tracked_changes(keys, states),
            keys[i],
            RepoWorktreeChangeKind::Deleted,
        ),
    decreases keys.len(),
{
    let now = tracked_changes(keys, states);
    let was = tracked_changes(keys.drop_last(), states);
    if i == keys.len() - 1 {
        if states[i] == TrackedState::Changed || states[i] == TrackedState::Missing {
            assert(now[was.len() as int].path == keys[i]);
        }
    } else {
        lemma_tracked_at(keys.drop_last(), states, i);
        assert forall|change: RepoWorktreeChangeKind| reports(was, keys[i], change) implies reports(
            now,
            keys[i],
            change,
        ) by {
            let j = choose|j: int| #![trigger was[j]]
                0 <= j < was.len() && was[j].path == keys[i] && was[j].change == change
                    && was[j].kind == RepoTrackedPathKind::SqliteDatabase;
            assert(now[j] == was[j]);
        }
    }
}

proof fn lemma_tracked_from(keys: Seq<Seq<char>>, states: Seq<TrackedState>, j: int)
    requires
        0 <= j < tracked_changes(keys, states).len(),
    ensures
        exists|i: int| #![trigger keys[i]]
            0 <= i < keys.len() && keys[i] == tracked_changes(keys, states)[j].path && ((states[i]
                == TrackedState::Changed && tracked_changes(keys, states)[j].change
                == RepoWorktreeChangeKind::Modified) || (states[i] == TrackedState::Missing
                && tracked_changes(keys, states)[j].change == RepoWorktreeChangeKind::Deleted)),
        tracked_changes(keys, states)[j].kind == RepoTrackedPathKind::SqliteDatabase,
        tracked_changes(keys, states)[j].storage == RepoPathStorage::SqliteSnapshot,
    decreases keys.len(),
{
    let now = tracked_changes(keys, states);
    let was = tracked_changes(keys.drop_last(), states);
    let n = keys.len() - 1;
    if j < was.len() {
        lemma_tracked_from(keys.drop_last(), states, j);
        let rest = keys.drop_last();
        let i = choose|i: int| #![trigger rest[i]]
            0 <= i < rest.len() && rest[i] == was[j].path && ((states[i] == TrackedState::Changed
                && was[j].change == RepoWorktreeChangeKind::Modified) || (states[i]
                == TrackedState::Missing && was[j].change == RepoWorktreeChangeKind::Deleted));
        assert(keys[i] == rest[i]);
        assert(now[j] == was[j]);
    } else {
        assert(keys[n] == now[j].path);
    }
}

/// Sorting holds the same changes.
proof fn lemma_sorted_holds(s: Seq<RepoWorktreeChangeView>, e: RepoWorktreeChangeView)
    ensures
        by_path(s).contains(e) == s.contains(e),
        by_path(s).len() == s.len(),
{
    law_by_path_sorts(s);
    s.to_multiset_ensures();
    by_path(s).to_multiset_ensures();
    assert(by_path(s).to_multiset().count(e) == s.to_multiset().count(e));
}

/// Every tracked database that changed is reported as modified, and every one that is missing as
/// deleted.
pub proof fn law_tracked_changes_are_reported(
    status: RepoStatusView,
    shown: Seq<RepoWorktreeChangeView>,
    keys: Seq<Seq<char>>,
    states: Seq<TrackedState>,
    i: int,
)
    requires
        keys.len() == states.len(),
        0 <= i < keys.len(),
    ensures
        ({
            let r = status_with(status, shown + tracked_changes(keys, states));
            &&& states[i] == TrackedState::Changed ==> reports(
                r.unstaged_changes,
                keys[i],
                RepoWorktreeChangeKind::Modified,
            ) && r.unstaged.contains(keys[i])
            &&& states[i] == TrackedState::Missing ==> reports(
                r.unstaged_changes,
                keys[i],
                RepoWorktreeChangeKind::Deleted,
            ) && r.unstaged.contains(keys[i])
        }),
{
    lemma_tracked_at(keys, states, i);
    let found = tracked_changes(keys, states);
    let all = shown + found;
    let r = status_with(status, all);
    assert forall|change: RepoWorktreeChangeKind| reports(found, keys[i], change) implies reports(
        r.unstaged_changes,
        keys[i],
        change,
    ) && r.unstaged.contains(keys[i]) by {
        let j = choose|j: int| #![trigger found[j]]
            0 <= j < found.len() && found[j].path == keys[i] && found[j].change == change
                && found[j].kind == RepoTrackedPathKind::SqliteDatabase;
        assert(all[shown.len() + j] == found[j]);
        assert(all.contains(found[j]));
        lemma_sorted_holds(all, found[j]);
        let at = r.unstaged_changes.index_of(found[j]);
        assert(r.unstaged_changes[at] == found[j]);
        assert(r.unstaged[at] == keys[i]);
    }
}

/// Whatever is reported was shown before, or is a tracked database that changed or is missing; and
/// whatever was shown before is reported.
pub proof fn law_nothing_else_is_reported(
    status: RepoStatusView,
    shown: Seq<RepoWorktreeChangeView>,
    keys: Seq<Seq<char>>,
    states: Seq<TrackedState>,
    e: RepoWorktreeChangeView,
)
    requires
        keys.len() == states.len(),
    ensures
        ({
            let r = status_with(status, shown + tracked_changes(keys, states));
            &&& shown.contains(e) ==> r.unstaged_changes.contains(e)
            &&& r.unstaged_changes.contains(e) ==> shown.contains(e) || exists|i: int|
                #![trigger keys[i]]
                0 <= i < keys.len() && keys[i] == e.path && ((states[i] == TrackedState::Changed
                    && e.change == RepoWorktreeChangeKind::Modified) || (states[i]
                    == TrackedState::Missing && e.change == RepoWorktreeChangeKind::Deleted))
        }),
{
    let found = tracked_changes(keys, states);
    let all = shown + found;
    lemma_sorted_holds(all, e);
    if shown.contains(e) {
        assert(all[shown.index_of(e)] == e);
    }
    if all.contains(e) && !shown.contains(e) {
        let at = all.index_of(e);
        if at < shown.len() {
            assert(shown[at] == e);
        }
        lemma_tracked_from(keys, states, at - shown.len());
    }
}

/// Nothing is unstaged exactly where nothing was shown and no tracked database changed or is
/// missing. The unstaged paths are those of the unstaged changes, and nothing else of the status
/// is touched.
pub proof fn law_clean_worktree(
    status: RepoStatusView,
    shown: Seq<RepoWorktreeChangeView>,
    keys: Seq<Seq<char>>,
    states: Seq<TrackedState>,
)
    requires
        keys.len() == states.len(),
    ensures
        ({
            let r = status_with(status, shown + tracked_changes(keys, states));
            &&& r.unstaged.len() == 0 <==> shown.len() == 0 && forall|i: int| #![trigger states[i]]
                0 <= i < states.len() ==> states[i] == TrackedState::Same || states[i]
                    == TrackedState::PassedOver
            &&& r.unstaged.len() == r.unstaged_changes.len()
            &&& forall|j: int|
                0 <= j < r.unstaged.len() ==> #[trigger] r.unstaged[j] == r.unstaged_changes[j].path
            &&& r.staged == status.staged && r.staged_changes == status.staged_changes
            &&& r.conflicted == status.conflicted && r.conflicted_changes
                == status.conflicted_changes
            &&& r.head == status.head && r.head_target == status.head_target
            &&& r.merge_head == status.merge_head && r.orig_head == status.orig_head
            &&& r.upstream == status.upstream && r.worktree == status.worktree
            &&& r.repository_format_version == status.repository_format_version
        }),
{
    let found = tracked_changes(keys, states);
    let all = shown + found;
    law_by_path_sorts(all);
    if all.len() == 0 {
        assert forall|i: int| #![trigger states[i]] 0 <= i < states.len() implies states[i]
            == TrackedState::Same || states[i] == TrackedState::PassedOver by {
            lemma_tracked_at(keys, states, i);
        }
    }
    if found.len() > 0 {
        lemma_tracked_from(keys, states, 0);
        let i = choose|i: int| #![trigger keys[i]]
            0 <= i < keys.len() && keys[i] == found[0].path && ((states[i] == TrackedState::Changed
                && found[0].change == RepoWorktreeChangeKind::Modified) || (states[i]
                == TrackedState::Missing && found[0].change == RepoWorktreeChangeKind::Deleted));
        assert(states[i] != TrackedState::Same && states[i] != TrackedState::PassedOver);
    }
}

/// A tracked database that is the same, or where something else stands, adds no change; one that
/// changed or is missing adds one.
pub proof fn law_one_more_tracked_database(
    keys: Seq<Seq<char>>,
    states: Seq<TrackedState>,
    key: Seq<char>,
    state: TrackedState,
)
    requires
        keys.len() == states.len(),
    ensures
        tracked_changes(keys.push(key), states.push(state)).len() == tracked_changes(keys, states).len()
            + (if state == TrackedState::Changed || state == TrackedState::Missing {
            1int
        } else {
            0int
        }),
        tracked_changes(keys.push(key), states.push(state)).take(
            tracked_changes(keys, states).len() as int,
        ) == tracked_changes(keys, states),
{
    assert(keys.push(key).drop_last() =~= keys);
    lemma_states_before(keys, states, state);
    let was = tracked_changes(keys, states);
    let now = tracked_changes(keys.push(key), states.push(state));
    assert(now.take(was.len() as int) =~= was);
}

proof fn lemma_states_before(keys: Seq<Seq<char>>, states: Seq<TrackedState>, state: TrackedState)
    requires
        keys.len() <= states.len(),
    ensures
        tracked_changes(keys, states.push(state)) == tracked_changes(keys, states),
    decreases keys.len(),
{
    if keys.len() > 0 {
        lemma_states_before(keys.drop_last(), states, state);
        assert(states.push(state)[keys.len() - 1] == states[keys.len() - 1]);
    }
}

/// A change is shown with its path and its sort as they are. It is one of a database where it is of
/// the open one or a volume is bound to its path, and otherwise as it was.
pub proof fn law_shown_as_what_it_is(
    change: RepoWorktreeChangeView,
    bound: bool,
    current_key: Seq<char>,
)
    ensures
        retyped(change, bound, current_key).path == change.path,
        retyped(change, bound, current_key).change == change.change,
        bound || change.path == current_key ==> retyped(change, bound, current_key).kind
            == RepoTrackedPathKind::SqliteDatabase && retyped(change, bound, current_key).storage
            == RepoPathStorage::SqliteSnapshot,
        !bound && change.path != current_key ==> retyped(change, bound, current_key) == change,
{
}

/// The index deletes the open database.
pub open spec fn index_deletes(status: RepoStatusView, key: Seq<char>) -> bool {
    exists|i: int| #![trigger status.staged_changes[i]]
        0 <= i < status.staged_changes.len() && status.staged_changes[i].path == key
            && status.staged_changes[i].change == RepoFileChange::Deleted
}

/// What is untracked is shown, and so is any change of a tracked path or of the open database; but
/// the open database is not shown as untracked where the index deletes it. Nothing else is.
pub proof fn law_changes_that_are_shown(
    status: RepoStatusView,
    bound: Seq<bool>,
    current_key: Seq<char>,
    databases: Seq<Seq<char>>,
    artifacts: Seq<Seq<char>>,
    i: int,
)
    requires
        0 <= i < status.unstaged_changes.len(),
    ensures
        ({
            let c = status.unstaged_changes[i];
            let shown = shown_changes(status, bound, current_key, databases, artifacts).contains(
                retyped(c, bound[i], current_key),
            );
            &&& c.path != current_key && c.change == RepoWorktreeChangeKind::Untracked ==> shown
            &&& c.path != current_key && (databases.contains(c.path) || artifacts.contains(c.path))
                ==> shown
            &&& c.path == current_key && c.change != RepoWorktreeChangeKind::Untracked ==> shown
            &&& c.path == current_key && c.change == RepoWorktreeChangeKind::Untracked ==> (shown
                <==> !index_deletes(status, current_key))
            &&& c.path != current_key && c.change != RepoWorktreeChangeKind::Untracked
                && !databases.contains(c.path) && !artifacts.contains(c.path) ==> !shown
        }),
{
    let c = retyped(status.unstaged_changes[i], bound[i], current_key);
    let deleted = staged_as_deleted(status.staged_changes, current_key);
    let all = crate::status::all_retyped(status.unstaged_changes, bound, current_key);
    let keep = |e: RepoWorktreeChangeView| is_shown(e, current_key, deleted, databases, artifacts);
    assert(all[i] == c);
    assert(all.contains(c));
    lemma_filter_keeps(all, keep, c);
    assert(deleted == index_deletes(status, current_key));
}

/// The databases to look at are the tracked ones, but for the open one and those that a change is
/// shown of.
pub proof fn law_databases_to_look_at(
    databases: Seq<Seq<char>>,
    shown: Seq<RepoWorktreeChangeView>,
    current_key: Seq<char>,
    key: Seq<char>,
)
    ensures
        unseen_keys(databases, shown, current_key).contains(key) <==> databases.contains(key) && key
            != current_key && forall|i: int|
            0 <= i < shown.len() ==> (#[trigger] shown[i]).path != key,
{
    let seen = worktree_change_paths(shown);
    lemma_filters_keep(databases);
    assert(unseen_keys(databases, shown, current_key).contains(key) <==> databases.contains(key)
        && key != current_key && !seen.contains(key));
    if exists|i: int| 0 <= i < shown.len() && (#[trigger] shown[i]).path == key {
        let i = choose|i: int| 0 <= i < shown.len() && (#[trigger] shown[i]).path == key;
        assert(seen[i] == key);
    }
    if seen.contains(key) {
        assert(shown[seen.index_of(key)].path == key);
    }
}

/// Work is in progress exactly where something is staged or in conflict, a merge is under way, or
/// the worktree changes a tracked path or the open database. Untracked paths other than the open
/// database are no work in progress.
pub proof fn law_work_in_progress(status: RepoStatusView, current_key: Seq<char>)
    ensures
        status.staged.len() > 0 || status.conflicted.len() > 0 || status.merge_head is Some
            ==> work_in_progress(status, current_key),
        forall|i: int| #![trigger status.unstaged_changes[i]]
            0 <= i < status.unstaged_changes.len() && (status.unstaged_changes[i].change
                != RepoWorktreeChangeKind::Untracked || status.unstaged_changes[i].path
                == current_key) ==> work_in_progress(status, current_key),
        status.staged.len() == 0 && status.conflicted.len() == 0 && status.merge_head is None && (
        forall|i: int| #![trigger status.unstaged_changes[i]]
            0 <= i < status.unstaged_changes.len() ==> status.unstaged_changes[i].change
                == RepoWorktreeChangeKind::Untracked && status.unstaged_changes[i].path
                != current_key) ==> !work_in_progress(status, current_key),
{
    assert forall|i: int| #![trigger status.unstaged_changes[i]]
        0 <= i < status.unstaged_changes.len() && (status.unstaged_changes[i].change
            != RepoWorktreeChangeKind::Untracked || status.unstaged_changes[i].path == current_key)
        implies work_in_progress(status, current_key) by {
        assert(blocks(status.unstaged_changes[i], current_key));
    }
}

/// An untracked path that a checkout would write is named, and nothing else is: no tracked path, no
/// path that is not written, and not the open database.
pub proof fn law_untracked_paths_are_named(
    status: RepoStatusView,
    current_key: Seq<char>,
    keys: Seq<Seq<char>>,
    path: Seq<char>,
)
    ensures
        overwritten(status, current_key, keys).contains(path) <==> {
            &&& path != current_key
            &&& keys.contains(path)
            &&& exists|i: int| #![trigger status.unstaged_changes[i]]
                0 <= i < status.unstaged_changes.len() && status.unstaged_changes[i].path == path
                    && status.unstaged_changes[i].change == RepoWorktreeChangeKind::Untracked
        },
{
    lemma_kept_paths(status.unstaged_changes, path);
}

/// The paths of filtered changes are those of the changes that the filter keeps.
proof fn lemma_kept_paths(all: Seq<RepoWorktreeChangeView>, path: Seq<char>)
    ensures
        forall|keep: spec_fn(RepoWorktreeChangeView) -> bool| #[trigger]
            worktree_change_paths(all.filter(keep)).contains(path) <==> exists|i: int|
                #![trigger all[i]]
                0 <= i < all.len() && all[i].path == path && keep(all[i]),
{
    lemma_filters_keep(all);
    assert forall|keep: spec_fn(RepoWorktreeChangeView) -> bool| #[trigger]
        worktree_change_paths(all.filter(keep)).contains(path) <==> exists|i: int| #![trigger all[i]]
            0 <= i < all.len() && all[i].path == path && keep(all[i]) by {
        let kept = all.filter(keep);
        let named = worktree_change_paths(kept);
        if named.contains(path) {
            let j = named.index_of(path);
            assert(kept.contains(kept[j]));
            let i = all.index_of(kept[j]);
            assert(all[i].path == path);
        }
        if exists|i: int| #![trigger all[i]] 0 <= i < all.len() && all[i].path == path && keep(all[i]) {
            let i = choose|i: int| #![trigger all[i]]
                0 <= i < all.len() && all[i].path == path && keep(all[i]);
            assert(all.contains(all[i]));
            assert(kept.contains(all[i]));
            assert(named[kept.index_of(all[i])] == path);
        }
    }
}

/// A status of one kind holds the changes of that kind and no others, and their paths; without a
/// kind it is as it was.
pub proof fn law_status_of_a_kind(
    status: RepoStatusView,
    kind: RepoTrackedPathKind,
    unstaged: RepoWorktreeChangeView,
    staged: PathChangeView,
    conflicted: RepoPathChangeView,
)
    ensures
        status_of_kind(status, None) == status,
        ({
            let r = status_of_kind(status, Some(kind));
            &&& r.unstaged_changes.contains(unstaged) <==> status.unstaged_changes.contains(unstaged)
                && unstaged.kind == kind
            &&& r.staged_changes.contains(staged) <==> status.staged_changes.contains(staged)
                && staged.kind == kind
            &&& r.conflicted_changes.contains(conflicted) <==> status.conflicted_changes.contains(
                conflicted,
            ) && conflicted.kind == kind
            &&& r.unstaged.len() == r.unstaged_changes.len()
            &&& r.staged.len() == r.staged_changes.len()
            &&& r.conflicted.len() == r.conflicted_changes.len()
            &&& forall|i: int|
                0 <= i < r.unstaged.len() ==> #[trigger] r.unstaged[i] == r.unstaged_changes[i].path
            &&& forall|i: int|
                0 <= i < r.staged.len() ==> #[trigger] r.staged[i] == r.staged_changes[i].path
            &&& forall|i: int|
                0 <= i < r.conflicted.len() ==> #[trigger] r.conflicted[i]
                    == r.conflicted_changes[i].path
            &&& r.head == status.head && r.merge_head == status.merge_head && r.upstream
                == status.upstream
        }),
{
    lemma_filter_keeps(
        status.unstaged_changes,
        |e: RepoWorktreeChangeView| e.kind == kind,
        unstaged,
    );
    lemma_filter_keeps(status.staged_changes, |e: PathChangeView| e.kind == kind, staged);
    lemma_filter_keeps(
        status.conflicted_changes,
        |e: RepoPathChangeView| e.kind == kind,
        conflicted,
    );
}

/// An add stages deletions only where nothing stands at the path, and then only where the index has
/// something there; a regular file, a database or not, is staged as a file, and a directory as one.
/// What is ignored is refused unless it is forced, and what is neither file nor directory always is.
pub proof fn law_adds_go_by_what_stands_there(
    state: PathState,
    shown: Seq<char>,
    key: Seq<char>,
    below: bool,
    ignored: bool,
    force: bool,
)
    ensures
        ({
            let route = add_route(state, shown, key, below, ignored, force);
            &&& route == Ok::<_, CommandError<Seq<char>>>(AddRoute::Deletions) <==> state
                == PathState::Missing && below
            &&& route == Ok::<_, CommandError<Seq<char>>>(AddRoute::File) <==> (state
                == PathState::SqliteFile || state == PathState::PlainFile) && (!ignored || force)
            &&& route == Ok::<_, CommandError<Seq<char>>>(AddRoute::DirectoryFiles) <==> state
                == PathState::Directory && force
            &&& route == Ok::<_, CommandError<Seq<char>>>(AddRoute::DirectoryChanges) <==> state
                == PathState::Directory && !force && !ignored
            &&& state == PathState::Special ==> route is Err
            &&& state == PathState::Missing && !below ==> route == Err::<AddRoute, _>(
                CommandError::Repo(RepoErr::PathNotTracked(key)),
            )
            &&& state != PathState::Missing && state != PathState::Special && ignored && !force
                ==> route is Err
            &&& add_route(PathState::SqliteFile, shown, key, below, ignored, force) == add_route(
                PathState::PlainFile,
                shown,
                key,
                below,
                ignored,
                force,
            )
            &&& state != PathState::Special && (state != PathState::Missing) ==> add_route(
                state,
                shown,
                key,
                below,
                ignored,
                true,
            ) is Ok
        }),
{
}

/// A deletion is staged of what the last commit has, taken back of what only the index has, and of
/// nothing else.
pub proof fn law_deletions(
    head: Option<PathListingView>,
    index_keys: Seq<Seq<char>>,
    key: Seq<char>,
)
    ensures
        deletion(head, index_keys, key) == Some(Unstaging::StageRemoval) <==> head is Some && listed(
            head->0,
            key,
        ) is Some,
        deletion(head, index_keys, key) == Some(Unstaging::RestoreIndex) <==> index_keys.contains(key)
            && !(head is Some && listed(head->0, key) is Some),
        deletion(None, index_keys, key) != Some(Unstaging::StageRemoval),
{
}

/// Paths stand in each other's way both ways round, and no path stands in its own.
pub proof fn law_in_the_way(
    index: PathListingView,
    index_keys: Seq<Seq<char>>,
    head: Option<PathListingView>,
    key: Seq<char>,
    other: Seq<char>,
)
    ensures
        in_the_way(other, key) == in_the_way(key, other),
        !in_the_way(key, key),
        key_matches(other, key) && other != key ==> in_the_way(other, key),
        topology_removal(index, index_keys, head, key, key) is None,
        topology_removal(index, index_keys, head, key, other) is Some ==> listed(index, other)
            is Some && other != key && (key_matches(other, key) || key_matches(key, other)),
        listed(index, other) is Some && in_the_way(other, key) ==> topology_removal(
            index,
            index_keys,
            head,
            key,
            other,
        ) == deletion(head, index_keys, other),
{
}

/// Every change is staged, in its order and under its path: a deletion where the file is deleted and
/// the file otherwise. Only the session whose database is deleted goes on with an empty one.
pub proof fn law_changes_are_staged(
    changes: Seq<RepoWorktreeChangeView>,
    current_key: Seq<char>,
    i: int,
)
    requires
        0 <= i < changes.len(),
    ensures
        add_steps(changes, current_key).len() == changes.len(),
        add_steps(changes, current_key)[i].path == changes[i].path,
        add_steps(changes, current_key)[i].deleted <==> changes[i].change
            == RepoWorktreeChangeKind::Deleted,
        add_steps(changes, current_key)[i].opens_empty <==> changes[i].change
            == RepoWorktreeChangeKind::Deleted && changes[i].path == current_key,
{
}

/// An add of everything takes every change, or every one of a kind.
pub proof fn law_changes_to_add(
    changes: Seq<RepoWorktreeChangeView>,
    kind: RepoTrackedPathKind,
    e: RepoWorktreeChangeView,
)
    ensures
        changes_to_add(changes, None) == changes,
        changes_to_add(changes, Some(kind)).contains(e) <==> changes.contains(e) && e.kind == kind,
{
    lemma_filter_keeps(changes, |e: RepoWorktreeChangeView| e.kind == kind, e);
}

/// Below a directory, only regular files are added, and neither the repository's own directory nor
/// the files beside databases ever are. Force adds whatever is otherwise ignored.
pub proof fn law_directory_entries(state: PathState, name: Seq<char>, ignored: bool, force: bool)
    ensures
        entry_step(state, name, ignored, force) == EntryStep::Add ==> (state == PathState::SqliteFile
            || state == PathState::PlainFile) && !is_sidecar(name),
        entry_step(state, name, ignored, force) == EntryStep::Descend ==> state
            == PathState::Directory && name != ".graft"@,
        ignored && !force ==> entry_step(state, name, ignored, force) == EntryStep::Skip,
        !ignored || force ==> {
            &&& (state == PathState::SqliteFile || state == PathState::PlainFile) && !is_sidecar(name)
                ==> entry_step(state, name, ignored, force) == EntryStep::Add
            &&& state == PathState::Directory && name != ".graft"@ ==> entry_step(
                state,
                name,
                ignored,
                force,
            ) == EntryStep::Descend
        },
        entry_step(state, name, ignored, true) == entry_step(state, name, false, force),
{
}

/// A remove takes out a path that the last commit has by staging its removal, and one that only the
/// index has by going back; of a path that neither has it takes out nothing. Unless the files are
/// kept, the open database is replaced by an empty one and any other file is deleted, as a database
/// where the last commit has it as one.
pub proof fn law_removed_paths(
    head: Option<PathListingView>,
    index: PathListingView,
    index_keys: Seq<Seq<char>>,
    key: Seq<char>,
    current_key: Seq<char>,
    cached: bool,
)
    ensures
        ({
            let r = remove_step(head, index, index_keys, key, current_key, cached);
            let committed = head is Some && listed(head->0, key) is Some;
            &&& r is Ok <==> committed || index_keys.contains(key)
            &&& r matches Err(e) ==> e == CommandError::<Seq<char>>::Repo(
                RepoErr::PathNotTracked(key),
            )
            &&& r matches Ok(step) ==> {
                &&& step.path == key
                &&& Some(step.how) == deletion(head, index_keys, key)
                &&& step.how == Unstaging::StageRemoval <==> committed
                &&& committed ==> Some((step.kind, step.storage)) == listed(head->0, key)
                &&& !committed && listed(index, key) is Some ==> Some((step.kind, step.storage))
                    == listed(index, key)
                &&& step.file == FileRemoval::Keep <==> cached
                &&& step.file == FileRemoval::OpenEmpty <==> !cached && key == current_key
                &&& step.file == FileRemoval::Sqlite <==> !cached && key != current_key && committed
                    && head->0.files.contains(key)
            }
        }),
{
}

/// Removing a directory takes out what the index has at or below it; removing a file takes out that
/// file.
pub proof fn law_paths_that_are_removed(index: PathListingView, key: Seq<char>, k: Seq<char>)
    ensures
        removes(PathState::SqliteFile, index, key, k) <==> k == key,
        removes(PathState::PlainFile, index, key, k) <==> k == key,
        removes(PathState::Missing, index, key, k) <==> k == key,
        removes(PathState::Directory, index, key, k) <==> listed(index, k) is Some && key_matches(
            k,
            key,
        ),
        !removes(PathState::Special, index, key, k),
{
}

/// A file is deleted exactly where a regular one stands; nothing is where it is gone already; and
/// anything else is refused.
pub proof fn law_files_that_are_deleted(state: PathState, sqlite: bool, shown: Seq<char>)
    ensures
        file_removal(state, sqlite, shown) == Ok::<_, CommandError<Seq<char>>>(true) <==> state
            == PathState::SqliteFile || state == PathState::PlainFile,
        file_removal(state, sqlite, shown) == Ok::<_, CommandError<Seq<char>>>(false) <==> state
            == PathState::Missing,
        file_removal(state, sqlite, shown) is Err <==> state == PathState::Directory || state
            == PathState::Special,
        file_removal(state, true, shown) matches Err(e) ==> e == CommandError::InvalidCommand(
            "path `"@ + shown + "` is not a regular SQLite database file"@,
        ),
        file_removal(state, false, shown) matches Err(e) ==> e == CommandError::InvalidCommand(
            "path `"@ + shown + "` is not a regular file"@,
        ),
{
}

/// A key lies below a directory where the directory, a slash and more make up the key.
pub proof fn law_keys_below(directory: Seq<char>, name: Seq<char>, key: Seq<char>)
    ensures
        key_matches(key, key),
        key_matches(key, Seq::empty()),
        key_matches(directory + "/"@ + name, directory),
        directory.len() > 0 && key_matches(key, directory) ==> key == directory || (key.len()
            > directory.len() && key.take(directory.len() as int) == directory
            && key[directory.len() as int] == '/'),
{
    reveal_strlit("/");
    let below = directory + "/"@ + name;
    assert(below.take(directory.len() as int) =~= directory);
    assert(below.skip(directory.len() as int).take(1) =~= "/"@);
    if directory.len() > 0 && key != directory && key_matches(key, directory) {
        let rest = key.skip(directory.len() as int);
        assert(rest.take(1)[0] == '/');
        assert(rest[0] == key[directory.len() as int]);
    }
}

} // verus!
