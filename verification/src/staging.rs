//! Which paths an add or a remove stages, and how.
use vstd::prelude::*;
use vstd::string::*;

use crate::checkout::{
    action_of, index_path_descriptor, json_path_action, listed, listing_keys, listing_option,
    staged_entry, staged_entry_kind_storage_and_change, Descriptor, JsonPathAction,
    PathActionKind, PathListing, PathListingView,
};
use crate::conflict_paths::unknown_descriptor;
use crate::diff::{key_matches, repo_key_is_under_directory, PathState};
use crate::error::{seen, CommandError, RepoErr};
use crate::json::{JsonRepoPathDiff, JsonRepoPathDiffView};
use crate::labels::{
    file_change_name, kind_json, repo_file_change_label, repo_path_storage_json_label,
    repo_tracked_path_kind_json_label, storage_json,
};
use crate::model::{
    IndexEntry, IndexEntryView, RepoWorktreeChange, RepoWorktreeChangeKind,
    RepoWorktreeChangeView,
};
use crate::order::{ascending, lists};
use crate::restore::add_matching;
use crate::show::views;
use crate::spec::{RepoAddSpec, RepoPathStorage, RepoTrackedPathKind};
use crate::text::{cat3, ends_with, has_suffix, same, texts};

verus! {

/// The staged entries of an add as JSON.
pub open spec fn staged_json(head: Option<PathListingView>, entry: IndexEntryView) -> JsonRepoPathDiffView {
    let (kind, storage, change) = staged_entry(head, entry);
    JsonRepoPathDiff {
        path: entry.path,
        previous_path: None,
        change: file_change_name(change),
        kind: kind_json(kind),
        storage: storage_json(storage),
    }
}

pub fn json_staged_entry_paths(head: Option<&PathListing>, entries: &Vec<IndexEntry>) -> (r: Vec<
    JsonRepoPathDiff,
>)
    ensures
        views(r@) == Seq::new(
            entries@.len(),
            |i: int| staged_json(listing_option(head), entries@[i]@),
        ),
{
    let mut out: Vec<JsonRepoPathDiff> = Vec::new();
    let n: usize = entries.len();
    let mut i: usize = 0;
    while i < n
        invariant
            n == entries@.len(),
            i <= n,
            out@.len() == i,
            forall|k: int|
                0 <= k < i ==> #[trigger] out@[k]@ == staged_json(
                    listing_option(head),
                    entries@[k]@,
                ),
        decreases n - i,
    {
        let (kind, storage, change) = staged_entry_kind_storage_and_change(head, &entries[i]);
        out.push(
            JsonRepoPathDiff {
                path: entries[i].path.clone(),
                previous_path: None,
                change: repo_file_change_label(change).to_owned(),
                kind: repo_tracked_path_kind_json_label(kind).to_owned(),
                storage: repo_path_storage_json_label(storage).to_owned(),
            },
        );
        i += 1;
    }
    proof {
        assert(views(out@) =~= Seq::new(
            entries@.len(),
            |i: int| staged_json(listing_option(head), entries@[i]@),
        ));
    }
    out
}

/// What an add starts with: every change of the worktree, the path that is named, or the database
/// of the session.
#[derive(Debug, Clone, Copy, PartialEq, Eq, Structural)]
pub enum AddScope {
    All,
    Path,
    Current,
}

pub fn run_repo_add(spec: &RepoAddSpec) -> (r: AddScope)
    ensures
        r == if spec.all {
            AddScope::All
        } else if spec.path is Some {
            AddScope::Path
        } else {
            AddScope::Current
        },
        r == AddScope::All <==> spec.all,
        r == AddScope::Path ==> spec.path is Some,
        r == AddScope::Current ==> spec.path is None,
{
    if spec.all {
        AddScope::All
    } else if spec.path.is_some() {
        AddScope::Path
    } else {
        AddScope::Current
    }
}

/// The keys of the index at or below a directory, in ascending order.
pub fn tracked_repo_keys_under_directory(
    index: &PathListing,
    directory_key: &str,
) -> (r: Vec<String>)
    ensures
        ascending(texts(r@)),
        forall|k: Seq<char>| #[trigger]
            texts(r@).contains(k) == (listed(index@, k) is Some && key_matches(k, directory_key@)),
{
    let mut out: Vec<String> = Vec::new();
    let keys = listing_keys(index);
    add_matching(&mut out, &keys, directory_key);
    out
}

/// What is done with the path that an add names.
#[derive(Debug, Clone, Copy, PartialEq, Eq, Structural)]
pub enum AddRoute {
    /// The path is gone: the keys at or below it are staged as deletions.
    Deletions,
    /// The changes below the directory are staged.
    DirectoryChanges,
    /// Every file below the directory is staged, ignored ones too, and the keys whose file is
    /// gone are staged as deletions.
    DirectoryFiles,
    /// The file is staged, after what stands in its way.
    File,
}

pub open spec fn ignored_error(key: Seq<char>) -> CommandError<Seq<char>> {
    CommandError::InvalidCommand("path `"@ + key + "` is ignored; use `--force` to add it"@)
}

pub open spec fn special_error(shown: Seq<char>) -> CommandError<Seq<char>> {
    CommandError::InvalidCommand("path `"@ + shown + "` is not a regular file or directory"@)
}

/// What an add of a path does. `below` tells that the index has keys at or below the path.
pub open spec fn add_route(
    state: PathState,
    shown: Seq<char>,
    key: Seq<char>,
    below: bool,
    ignored: bool,
    force: bool,
) -> Result<AddRoute, CommandError<Seq<char>>> {
    match state {
        PathState::Missing => if below {
            Ok(AddRoute::Deletions)
        } else {
            Err(CommandError::Repo(RepoErr::PathNotTracked(key)))
        },
        PathState::Special => Err(special_error(shown)),
        PathState::Directory => if ignored && !force {
            Err(ignored_error(key))
        } else if force {
            Ok(AddRoute::DirectoryFiles)
        } else {
            Ok(AddRoute::DirectoryChanges)
        },
        PathState::SqliteFile | PathState::PlainFile => if ignored && !force {
            Err(ignored_error(key))
        } else {
            Ok(AddRoute::File)
        },
    }
}

pub fn stage_repo_add_path(
    state: PathState,
    shown: &str,
    key: &str,
    index: &PathListing,
    ignored: bool,
    force: bool,
) -> (r: Result<AddRoute, CommandError>)
    ensures
        match r {
            Ok(route) => add_route(
                state,
                shown@,
                key@,
                exists|k: Seq<char>| #[trigger] listed(index@, k) is Some && key_matches(k, key@),
                ignored,
                force,
            ) == Ok::<_, CommandError<Seq<char>>>(route),
            Err(e) => add_route(
                state,
                shown@,
                key@,
                exists|k: Seq<char>| #[trigger] listed(index@, k) is Some && key_matches(k, key@),
                ignored,
                force,
            ) == Err::<AddRoute, _>(e@),
        },
{
    match state {
        PathState::Missing => {
            let keys = tracked_repo_keys_under_directory(index, key);
            if keys.len() > 0 {
                proof {
                    let k = texts(keys@)[0];
                    assert(texts(keys@).contains(k));
                    assert(listed(index@, k) is Some && key_matches(k, key@));
                }
                Ok(AddRoute::Deletions)
            } else {
                proof {
                    assert forall|k: Seq<char>| #[trigger] listed(index@, k) is Some implies !key_matches(
                        k,
                        key@,
                    ) by {
                        assert(!texts(keys@).contains(k));
                    }
                }
                Err(CommandError::Repo(RepoErr::PathNotTracked(key.to_owned())))
            }
        },
        PathState::Special => Err(
            CommandError::InvalidCommand(
                cat3("path `", shown, "` is not a regular file or directory"),
            ),
        ),
        PathState::Directory => {
            if ignored && !force {
                Err(
                    CommandError::InvalidCommand(
                        cat3("path `", key, "` is ignored; use `--force` to add it"),
                    ),
                )
            } else if force {
                Ok(AddRoute::DirectoryFiles)
            } else {
                Ok(AddRoute::DirectoryChanges)
            }
        },
        PathState::SqliteFile | PathState::PlainFile => {
            if ignored && !force {
                Err(
                    CommandError::InvalidCommand(
                        cat3("path `", key, "` is ignored; use `--force` to add it"),
                    ),
                )
            } else {
                Ok(AddRoute::File)
            }
        },
    }
}

/// How a path leaves the index: as a staged removal, or by going back to the last commit, which
/// does not have it.
#[derive(Debug, Clone, Copy, PartialEq, Eq, Structural)]
pub enum Unstaging {
    StageRemoval,
    RestoreIndex,
}

/// How the deletion of a path is staged.
pub open spec fn deletion(
    head: Option<PathListingView>,
    index_keys: Seq<Seq<char>>,
    key: Seq<char>,
) -> Option<Unstaging> {
    if head matches Some(h) && listed(h, key) is Some {
        Some(Unstaging::StageRemoval)
    } else if index_keys.contains(key) {
        Some(Unstaging::RestoreIndex)
    } else {
        None
    }
}

fn how_deleted(
    head: Option<&PathListing>,
    index_keys: &Vec<String>,
    key: &str,
) -> (r: Option<Unstaging>)
    ensures
        r == deletion(listing_option(head), texts(index_keys@), key@),
{
    let at_head: bool = match head {
        Some(h) => h.holds(key),
        None => false,
    };
    if at_head {
        Some(Unstaging::StageRemoval)
    } else if lists(index_keys, key) {
        Some(Unstaging::RestoreIndex)
    } else {
        None
    }
}

/// A path that neither the last commit nor the index has cannot be deleted.
pub fn stage_repo_add_deletion(head: Option<&PathListing>, index_keys: &Vec<String>, key: &str) -> (r:
    Result<Unstaging, CommandError>)
    ensures
        match r {
            Ok(how) => deletion(listing_option(head), texts(index_keys@), key@) == Some(how),
            Err(e) => deletion(listing_option(head), texts(index_keys@), key@) is None && e@
                == CommandError::Repo(RepoErr::PathNotTracked(key@)),
        },
{
    match how_deleted(head, index_keys, key) {
        Some(how) => Ok(how),
        None => Err(CommandError::Repo(RepoErr::PathNotTracked(key.to_owned()))),
    }
}

/// `other` cannot be in the worktree together with `key`: one of them is a directory of the other.
pub open spec fn in_the_way(other: Seq<char>, key: Seq<char>) -> bool {
    other != key && (key_matches(other, key) || key_matches(key, other))
}

/// What becomes of `other` when the file `key` is staged.
pub open spec fn topology_removal(
    index: PathListingView,
    index_keys: Seq<Seq<char>>,
    head: Option<PathListingView>,
    key: Seq<char>,
    other: Seq<char>,
) -> Option<Unstaging> {
    if listed(index, other) is Some && in_the_way(other, key) {
        deletion(head, index_keys, other)
    } else {
        None
    }
}

/// The keys of a list of steps.
pub open spec fn step_keys(steps: Seq<(String, Unstaging)>) -> Seq<Seq<char>> {
    Seq::new(steps.len(), |i: int| steps[i].0@)
}

/// The paths that leave the index when the file `key` is staged, in ascending order.
pub fn stage_repo_add_topology_removals(
    index: &PathListing,
    index_keys: &Vec<String>,
    head: Option<&PathListing>,
    key: &str,
) -> (r: Vec<(String, Unstaging)>)
    ensures
        ascending(step_keys(r@)),
        forall|i: int|
            0 <= i < r@.len() ==> topology_removal(
                index@,
                texts(index_keys@),
                listing_option(head),
                key@,
                (#[trigger] r@[i]).0@,
            ) == Some(r@[i].1),
        forall|k: Seq<char>|
            topology_removal(index@, texts(index_keys@), listing_option(head), key@, k) is Some
                ==> #[trigger] step_keys(r@).contains(k),
{
    let keys = listing_keys(index);
    let ghost all = texts(keys@);
    let ghost ik = texts(index_keys@);
    let ghost h = listing_option(head);
    let mut out: Vec<(String, Unstaging)> = Vec::new();
    let n: usize = keys.len();
    let mut i: usize = 0;
    while i < n
        invariant
            n == keys@.len(),
            i <= n,
            all == texts(keys@),
            ik == texts(index_keys@),
            h == listing_option(head),
            ascending(all),
            forall|k: Seq<char>| #[trigger] all.contains(k) == (listed(index@, k) is Some),
            ascending(step_keys(out@)),
            forall|j: int|
                0 <= j < out@.len() ==> topology_removal(
                    index@,
                    ik,
                    h,
                    key@,
                    (#[trigger] out@[j]).0@,
                ) == Some(out@[j].1),
            forall|j: int|
                0 <= j < out@.len() ==> exists|p: int|
                    0 <= p < i && #[trigger] all[p] == (#[trigger] out@[j]).0@,
            forall|p: int|
                0 <= p < i && topology_removal(index@, ik, h, key@, #[trigger] all[p]) is Some
                    ==> step_keys(out@).contains(all[p]),
        decreases n - i,
    {
        let other = keys[i].as_str();
        let ghost was = out@;
        proof {
            assert(all[i as int] == other@);
            assert(all.contains(other@));
        }
        let blocked: bool = !same(other, key) && (repo_key_is_under_directory(other, key)
            || repo_key_is_under_directory(key, other));
        if blocked {
            if let Some(how) = how_deleted(head, index_keys, other) {
                out.push((other.to_owned(), how));
                proof {
                    assert(step_keys(out@) =~= step_keys(was).push(other@));
                    assert forall|a: int, b: int|
                        0 <= a < b < step_keys(out@).len() implies #[trigger] crate::order::before(
                        step_keys(out@)[a],
                        step_keys(out@)[b],
                    ) by {
                        if b == was.len() {
                            let p = choose|p: int| 0 <= p < i && #[trigger] all[p] == was[a].0@;
                            assert(crate::order::before(all[p], all[i as int]));
                        } else {
                            assert(crate::order::before(step_keys(was)[a], step_keys(was)[b]));
                        }
                    }
                    assert forall|j: int| 0 <= j < out@.len() implies exists|p: int|
                        0 <= p < i + 1 && #[trigger] all[p] == (#[trigger] out@[j]).0@ by {
                        if j < was.len() {
                            assert(out@[j] == was[j]);
                        } else {
                            assert(all[i as int] == out@[j].0@);
                        }
                    }
                    assert forall|p: int|
                        0 <= p < i + 1 && topology_removal(index@, ik, h, key@, #[trigger] all[p])
                            is Some implies step_keys(out@).contains(all[p]) by {
                        if p < i {
                            let q = step_keys(was).index_of(all[p]);
                            assert(step_keys(out@)[q] == all[p]);
                        } else {
                            assert(step_keys(out@)[was.len() as int] == all[p]);
                        }
                    }
                }
            }
        }
        i += 1;
    }
    proof {
        assert forall|k: Seq<char>| topology_removal(index@, ik, h, key@, k) is Some implies #[trigger] step_keys(
            out@,
        ).contains(k) by {
            assert(all.contains(k));
            let p = all.index_of(k);
            assert(all[p] == k);
        }
    }
    out
}

/// Where the staged contents of a file come from.
#[derive(Debug, Clone, Copy, PartialEq, Eq, Structural)]
pub enum AddSource {
    /// The database of the session.
    Current,
    /// The stored database that the path is bound to.
    Bound,
    /// A database file of the worktree.
    Sqlite,
    /// An ordinary file.
    Artifact,
}

pub fn stage_repo_add_file(current: bool, bound: bool, sqlite: bool) -> (r: AddSource)
    ensures
        r == if current {
            AddSource::Current
        } else if bound {
            AddSource::Bound
        } else if sqlite {
            AddSource::Sqlite
        } else {
            AddSource::Artifact
        },
        r == AddSource::Current <==> current,
        r == AddSource::Bound ==> bound,
        r == AddSource::Sqlite ==> sqlite && !bound,
        r == AddSource::Artifact ==> !sqlite && !bound,
{
    if current {
        AddSource::Current
    } else if bound {
        AddSource::Bound
    } else if sqlite {
        AddSource::Sqlite
    } else {
        AddSource::Artifact
    }
}

/// How one change of the worktree is staged: the file or its deletion. A session whose database is
/// deleted goes on with an empty one.
#[derive(Debug, Clone, PartialEq, Eq)]
pub struct AddStep<S = String> {
    pub path: S,
    pub deleted: bool,
    pub opens_empty: bool,
}

pub type AddStepView = AddStep<Seq<char>>;

impl View for AddStep<String> {
    type V = AddStepView;

    open spec fn view(&self) -> AddStepView {
        AddStep { path: self.path@, deleted: self.deleted, opens_empty: self.opens_empty }
    }
}

pub open spec fn add_step(change: RepoWorktreeChangeView, current_key: Seq<char>) -> AddStepView {
    let deleted = change.change == RepoWorktreeChangeKind::Deleted;
    AddStep { path: change.path, deleted, opens_empty: deleted && change.path == current_key }
}

pub open spec fn add_steps(changes: Seq<RepoWorktreeChangeView>, current_key: Seq<char>) -> Seq<
    AddStepView,
> {
    Seq::new(changes.len(), |i: int| add_step(changes[i], current_key))
}

pub fn stage_repo_add_changes(
    changes: &Vec<RepoWorktreeChange>,
    current_key: &str,
) -> (r: Vec<AddStep>)
    ensures
        views(r@) == add_steps(views(changes@), current_key@),
{
    let mut out: Vec<AddStep> = Vec::new();
    let n: usize = changes.len();
    let mut i: usize = 0;
    while i < n
        invariant
            n == changes@.len(),
            i <= n,
            out@.len() == i,
            forall|k: int| 0 <= k < i ==> #[trigger] out@[k]@ == add_step(changes@[k]@, current_key@),
        decreases n - i,
    {
        let deleted: bool = changes[i].change == RepoWorktreeChangeKind::Deleted;
        let opens_empty: bool = deleted && same(changes[i].path.as_str(), current_key);
        out.push(AddStep { path: changes[i].path.clone(), deleted, opens_empty });
        i += 1;
    }
    proof {
        assert(views(out@) =~= add_steps(views(changes@), current_key@));
    }
    out
}

/// The unstaged changes that an add of everything stages: those of a kind, or all.
pub open spec fn changes_to_add(
    changes: Seq<RepoWorktreeChangeView>,
    kind: Option<RepoTrackedPathKind>,
) -> Seq<RepoWorktreeChangeView> {
    match kind {
        Some(kind) => changes.filter(|e: RepoWorktreeChangeView| e.kind == kind),
        None => changes,
    }
}

pub fn stage_repo_add_all(
    unstaged: Vec<RepoWorktreeChange>,
    kind: Option<RepoTrackedPathKind>,
    current_key: &str,
) -> (r: Vec<AddStep>)
    ensures
        views(r@) == add_steps(changes_to_add(views(unstaged@), kind), current_key@),
{
    match kind {
        Some(kind) => {
            let kept = crate::status::worktree_changes_of_kind(unstaged, kind);
            stage_repo_add_changes(&kept, current_key)
        },
        None => stage_repo_add_changes(&unstaged, current_key),
    }
}

/// The changes at or below a directory.
pub fn changes_under_directory(
    list: Vec<RepoWorktreeChange>,
    directory_key: &str,
) -> (r: Vec<RepoWorktreeChange>)
    ensures
        views(r@) == views(list@).filter(|e: RepoWorktreeChangeView| key_matches(e.path, directory_key@)),
{
    let ghost all = views(list@);
    let ghost keep = |e: RepoWorktreeChangeView| key_matches(e.path, directory_key@);
    let mut out: Vec<RepoWorktreeChange> = Vec::new();
    proof {
        reveal(Seq::filter);
        assert(all.take(0) =~= Seq::empty());
        assert(views(out@) =~= Seq::empty());
    }
    for e in it: list
        invariant
            all == views(it.seq()),
            keep == (|e: RepoWorktreeChangeView| key_matches(e.path, directory_key@)),
            views(out@) == all.take(it.index() as int).filter(keep),
    {
        proof {
            reveal(Seq::filter);
            let i = it.index() as int;
            assert(all.take(i + 1).drop_last() =~= all.take(i));
            assert(all.take(i + 1).last() == e@);
            assert(views(out@.push(e)) =~= views(out@).push(e@));
        }
        if repo_key_is_under_directory(e.path.as_str(), directory_key) {
            out.push(e);
        }
    }
    proof {
        assert(all.take(all.len() as int) =~= all);
    }
    out
}

/// How the changes below a directory are staged.
pub fn stage_repo_add_directory(
    unstaged: Vec<RepoWorktreeChange>,
    directory_key: &str,
    current_key: &str,
) -> (r: Vec<AddStep>)
    ensures
        views(r@) == add_steps(
            views(unstaged@).filter(
                |e: RepoWorktreeChangeView| key_matches(e.path, directory_key@),
            ),
            current_key@,
        ),
{
    let kept = changes_under_directory(unstaged, directory_key);
    stage_repo_add_changes(&kept, current_key)
}

/// A file that SQLite keeps beside a database.
pub open spec fn is_sidecar(name: Seq<char>) -> bool {
    has_suffix(name, "-wal"@) || has_suffix(name, "-shm"@) || has_suffix(name, "-journal"@)
}

pub fn is_sqlite_sidecar_path(name: &str) -> (r: bool)
    ensures
        r == is_sidecar(name@),
{
    ends_with(name, "-wal") || ends_with(name, "-shm") || ends_with(name, "-journal")
}

/// What is done with an entry of a directory whose files are added.
#[derive(Debug, Clone, Copy, PartialEq, Eq, Structural)]
pub enum EntryStep {
    Descend,
    Add,
    Skip,
}

pub open spec fn entry_step(state: PathState, name: Seq<char>, ignored: bool, force: bool) -> EntryStep {
    match state {
        PathState::Directory => if name == ".graft"@ || (ignored && !force) {
            EntryStep::Skip
        } else {
            EntryStep::Descend
        },
        PathState::SqliteFile | PathState::PlainFile => if (force || !ignored) && !is_sidecar(name) {
            EntryStep::Add
        } else {
            EntryStep::Skip
        },
        PathState::Missing | PathState::Special => EntryStep::Skip,
    }
}

/// The repository's own directory and the files beside databases are never added.
pub fn collect_repo_add_directory_entry(
    state: PathState,
    name: &str,
    ignored: bool,
    force: bool,
) -> (r: EntryStep)
    ensures
        r == entry_step(state, name@, ignored, force),
{
    match state {
        PathState::Directory => {
            if same(name, ".graft") || (ignored && !force) {
                EntryStep::Skip
            } else {
                EntryStep::Descend
            }
        },
        PathState::SqliteFile | PathState::PlainFile => {
            if (force || !ignored) && !is_sqlite_sidecar_path(name) {
                EntryStep::Add
            } else {
                EntryStep::Skip
            }
        },
        PathState::Missing | PathState::Special => EntryStep::Skip,
    }
}

/// The keys that a remove of a path takes out. `key` is the key of the path, which is empty for
/// the worktree itself.
pub open spec fn removes(state: PathState, index: PathListingView, key: Seq<char>, k: Seq<char>) -> bool {
    match state {
        PathState::Directory => listed(index, k) is Some && key_matches(k, key),
        PathState::Special => false,
        _ => k == key,
    }
}

/// Whether a directory holds nothing that could be removed.
pub open spec fn empty_directory(state: PathState, index: PathListingView, key: Seq<char>) -> bool {
    state == PathState::Directory && forall|k: Seq<char>| #[trigger]
        listed(index, k) is Some ==> !key_matches(k, key)
}

pub fn stage_repo_remove_path(state: PathState, shown: &str, key: &str, index: &PathListing) -> (r:
    Result<Vec<String>, CommandError>)
    ensures
        match r {
            Ok(keys) => {
                &&& state != PathState::Special
                &&& !empty_directory(state, index@, key@)
                &&& ascending(texts(keys@))
                &&& forall|k: Seq<char>| #[trigger]
                    texts(keys@).contains(k) == removes(state, index@, key@, k)
            },
            Err(e) => {
                ||| state == PathState::Special && e@ == special_error(shown@)
                ||| empty_directory(state, index@, key@) && e@ == CommandError::Repo(
                    RepoErr::PathNotTracked(
                        if key@.len() == 0 {
                            "."@
                        } else {
                            key@
                        },
                    ),
                )
            },
        },
{
    match state {
        PathState::Special => Err(
            CommandError::InvalidCommand(
                cat3("path `", shown, "` is not a regular file or directory"),
            ),
        ),
        PathState::Directory => {
            let keys = tracked_repo_keys_under_directory(index, key);
            if keys.len() == 0 {
                proof {
                    assert forall|k: Seq<char>| #[trigger] listed(index@, k) is Some implies !key_matches(
                        k,
                        key@,
                    ) by {
                        assert(!texts(keys@).contains(k));
                    }
                }
                let name = if key.is_empty() {
                    "."
                } else {
                    key
                };
                return Err(CommandError::Repo(RepoErr::PathNotTracked(name.to_owned())));
            }
            proof {
                let k = texts(keys@)[0];
                assert(texts(keys@).contains(k));
                assert(listed(index@, k) is Some);
            }
            Ok(keys)
        },
        _ => {
            let mut keys: Vec<String> = Vec::new();
            keys.push(key.to_owned());
            proof {
                assert(texts(keys@) =~= seq![key@]);
                assert forall|k: Seq<char>| #[trigger] texts(keys@).contains(k) == (k == key@) by {
                    assert(texts(keys@)[0] == key@);
                }
            }
            Ok(keys)
        },
    }
}

/// What is done with the file of a removed path.
#[derive(Debug, Clone, Copy, PartialEq, Eq, Structural)]
pub enum FileRemoval {
    Keep,
    Sqlite,
    Artifact,
    /// The session goes on with an empty database, and the path counts as clean.
    OpenEmpty,
}

/// How one path is removed.
#[derive(Debug, Clone, PartialEq, Eq)]
pub struct RemoveStep<S = String> {
    pub path: S,
    pub kind: RepoTrackedPathKind,
    pub storage: RepoPathStorage,
    pub how: Unstaging,
    pub file: FileRemoval,
}

impl View for RemoveStep<String> {
    type V = RemoveStep<Seq<char>>;

    open spec fn view(&self) -> RemoveStep<Seq<char>> {
        RemoveStep {
            path: self.path@,
            kind: self.kind,
            storage: self.storage,
            how: self.how,
            file: self.file,
        }
    }
}

/// How `key` is removed: a path of the last commit is staged as removed, and one that only the
/// index has goes back to what it was. With `cached`, files stay; the database of the session is
/// replaced by an empty one; other files are deleted.
pub open spec fn remove_step(
    head: Option<PathListingView>,
    index: PathListingView,
    index_keys: Seq<Seq<char>>,
    key: Seq<char>,
    current_key: Seq<char>,
    cached: bool,
) -> Result<RemoveStep<Seq<char>>, CommandError<Seq<char>>> {
    let at_head = match head {
        Some(h) => listed(h, key),
        None => None,
    };
    let in_index = match listed(index, key) {
        Some(d) => d,
        None => unknown_descriptor(),
    };
    let file = |sqlite: bool|
        if cached {
            FileRemoval::Keep
        } else if key == current_key {
            FileRemoval::OpenEmpty
        } else if sqlite {
            FileRemoval::Sqlite
        } else {
            FileRemoval::Artifact
        };
    if at_head is Some {
        let d = at_head->0;
        Ok(
            RemoveStep {
                path: key,
                kind: d.0,
                storage: d.1,
                how: Unstaging::StageRemoval,
                file: file(head->0.files.contains(key)),
            },
        )
    } else if index_keys.contains(key) {
        Ok(
            RemoveStep {
                path: key,
                kind: in_index.0,
                storage: in_index.1,
                how: Unstaging::RestoreIndex,
                file: file(false),
            },
        )
    } else {
        Err(CommandError::Repo(RepoErr::PathNotTracked(key)))
    }
}

pub fn stage_repo_remove_key(
    head: Option<&PathListing>,
    index: &PathListing,
    index_keys: &Vec<String>,
    key: &str,
    current_key: &str,
    cached: bool,
) -> (r: Result<RemoveStep, CommandError>)
    ensures
        seen(r) == remove_step(
            listing_option(head),
            index@,
            texts(index_keys@),
            key@,
            current_key@,
            cached,
        ),
{
    let at_head: Option<Descriptor> = match head {
        Some(h) => h.describe(key),
        None => None,
    };
    let current: bool = same(key, current_key);
    if let Some(d) = at_head {
        let sqlite: bool = match head {
            Some(h) => h.has_file(key),
            None => false,
        };
        let file = if cached {
            FileRemoval::Keep
        } else if current {
            FileRemoval::OpenEmpty
        } else if sqlite {
            FileRemoval::Sqlite
        } else {
            FileRemoval::Artifact
        };
        return Ok(
            RemoveStep {
                path: key.to_owned(),
                kind: d.0,
                storage: d.1,
                how: Unstaging::StageRemoval,
                file,
            },
        );
    }
    if lists(index_keys, key) {
        let d = index_path_descriptor(index, key);
        let file = if cached {
            FileRemoval::Keep
        } else if current {
            FileRemoval::OpenEmpty
        } else {
            FileRemoval::Artifact
        };
        return Ok(
            RemoveStep {
                path: key.to_owned(),
                kind: d.0,
                storage: d.1,
                how: Unstaging::RestoreIndex,
                file,
            },
        );
    }
    Err(CommandError::Repo(RepoErr::PathNotTracked(key.to_owned())))
}

/// What a remove says it did with a path.
pub fn removed_path_action(step: &RemoveStep) -> (r: JsonPathAction)
    ensures
        r@ == action_of(
            step@.path,
            (step.kind, step.storage),
            if step.how == Unstaging::StageRemoval {
                PathActionKind::Staged
            } else {
                PathActionKind::Removed
            },
        ),
{
    let action = if step.how == Unstaging::StageRemoval {
        PathActionKind::Staged
    } else {
        PathActionKind::Removed
    };
    json_path_action(step.path.clone(), (step.kind, step.storage), action)
}

/// What deleting the file of a removed path comes to: nothing where it is gone already.
pub open spec fn file_removal(state: PathState, sqlite: bool, shown: Seq<char>) -> Result<
    bool,
    CommandError<Seq<char>>,
> {
    match state {
        PathState::Missing => Ok(false),
        PathState::SqliteFile | PathState::PlainFile => Ok(true),
        _ => Err(
            CommandError::InvalidCommand(
                "path `"@ + shown + if sqlite {
                    "` is not a regular SQLite database file"@
                } else {
                    "` is not a regular file"@
                },
            ),
        ),
    }
}

pub fn remove_physical_file(state: PathState, sqlite: bool, shown: &str) -> (r: Result<
    bool,
    CommandError,
>)
    ensures
        seen(r) == file_removal(state, sqlite, shown@),
{
    match state {
        PathState::Missing => Ok(false),
        PathState::SqliteFile | PathState::PlainFile => Ok(true),
        _ => Err(
            CommandError::InvalidCommand(
                cat3(
                    "path `",
                    shown,
                    if sqlite {
                        "` is not a regular SQLite database file"
                    } else {
                        "` is not a regular file"
                    },
                ),
            ),
        ),
    }
}

/// A cached remove deletes no file.
pub proof fn law_cached_remove_keeps_files(
    head: Option<PathListingView>,
    index: PathListingView,
    index_keys: Seq<Seq<char>>,
    key: Seq<char>,
    current_key: Seq<char>,
)
    ensures
        remove_step(head, index, index_keys, key, current_key, true) matches Ok(step) ==> step.file
            == FileRemoval::Keep,
{
}

/// After the removals that staging a file asks for, nothing that the index lists and that can be
/// taken out of it stands in the way of the file.
pub proof fn law_staged_file_stands_free(
    index: PathListingView,
    index_keys: Seq<Seq<char>>,
    head: Option<PathListingView>,
    key: Seq<char>,
    other: Seq<char>,
)
    requires
        listed(index, other) is Some,
        (head matches Some(h) && listed(h, other) is Some) || index_keys.contains(other),
        topology_removal(index, index_keys, head, key, other) is None,
    ensures
        other == key || (!key_matches(other, key) && !key_matches(key, other)),
{
}

} // verus!
