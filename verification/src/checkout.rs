//! What checkouts, merges and stagings do to each path.
use vstd::prelude::*;
use vstd::string::*;

use crate::conflict_paths::{
    artifact_checkout_path_kind, artifact_checkout_path_storage, artifact_descriptor,
    sqlite_descriptor, unknown_descriptor,
};
use crate::model::{
    CommitArtifactState, CommitArtifactStateView, IndexEntry, IndexEntryView, MergeOutcome,
    MergeOutcomeView, PathArtifact, PathArtifactView, RepoFileChange,
};
use crate::order::{ascending, insert_keys, lists};
use crate::show::{view_option, views};
use crate::spec::{IndexStage, RepoPathStorage, RepoTrackedPathKind, ResetMode};
use crate::text::{lemma_texts_push, same, texts};

verus! {

/// The keys that hold databases and those that hold ordinary files.
#[derive(Debug, Clone, PartialEq, Eq)]
pub struct PathListing<L1 = Vec<String>, L2 = Vec<PathArtifact>> {
    pub files: L1,
    pub artifacts: L2,
}

pub type PathListingView = PathListing<Seq<Seq<char>>, Seq<PathArtifactView>>;

impl View for PathListing<Vec<String>, Vec<PathArtifact>> {
    type V = PathListingView;

    open spec fn view(&self) -> PathListingView {
        PathListing { files: texts(self.files@), artifacts: views(self.artifacts@) }
    }
}

pub type Descriptor = (RepoTrackedPathKind, RepoPathStorage);

/// The first ordinary file from `i` on under a key.
pub open spec fn artifact_at(list: Seq<PathArtifactView>, key: Seq<char>, i: int) -> Option<
    CommitArtifactStateView,
>
    decreases list.len() - i,
{
    if i >= list.len() {
        None
    } else if list[i].path == key {
        Some(list[i].state)
    } else {
        artifact_at(list, key, i + 1)
    }
}

/// The ordinary file under a key.
pub open spec fn artifact_of(listing: PathListingView, key: Seq<char>) -> Option<
    CommitArtifactStateView,
> {
    artifact_at(listing.artifacts, key, 0)
}

/// What a listing holds under a key.
pub open spec fn listed(listing: PathListingView, key: Seq<char>) -> Option<Descriptor> {
    if listing.files.contains(key) {
        Some(sqlite_descriptor())
    } else {
        match artifact_of(listing, key) {
            Some(a) => Some(artifact_descriptor(a)),
            None => None,
        }
    }
}

pub fn find_artifact<'a>(list: &'a Vec<PathArtifact>, key: &str) -> (r: Option<&'a CommitArtifactState>)
    ensures
        match r {
            Some(a) => artifact_at(views(list@), key@, 0) == Some(a@),
            None => artifact_at(views(list@), key@, 0) is None,
        },
{
    let ghost all = views(list@);
    let mut i: usize = 0;
    while i < list.len()
        invariant
            i <= list@.len(),
            all == views(list@),
            artifact_at(all, key@, 0) == artifact_at(all, key@, i as int),
        decreases list@.len() - i,
    {
        proof {
            assert(all[i as int] == list@[i as int]@);
        }
        if same(list[i].path.as_str(), key) {
            return Some(&list[i].state);
        }
        i += 1;
    }
    None
}

impl PathListing<Vec<String>, Vec<PathArtifact>> {
    /// What the listing holds under a key.
    pub fn describe(&self, key: &str) -> (r: Option<Descriptor>)
        ensures
            r == listed(self@, key@),
    {
        if lists(&self.files, key) {
            return Some((RepoTrackedPathKind::SqliteDatabase, RepoPathStorage::SqliteSnapshot));
        }
        match find_artifact(&self.artifacts, key) {
            Some(a) => Some((artifact_checkout_path_kind(a), artifact_checkout_path_storage(a))),
            None => None,
        }
    }

    /// Whether the listing holds a database under a key.
    pub fn has_file(&self, key: &str) -> (r: bool)
        ensures
            r == self@.files.contains(key@),
    {
        lists(&self.files, key)
    }

    /// Whether the listing holds an ordinary file under a key.
    pub fn has_artifact(&self, key: &str) -> (r: bool)
        ensures
            r == (artifact_of(self@, key@) is Some),
    {
        find_artifact(&self.artifacts, key).is_some()
    }

    /// Whether the listing holds anything under a key.
    pub fn holds(&self, key: &str) -> (r: bool)
        ensures
            r == (listed(self@, key@) is Some),
    {
        lists(&self.files, key) || find_artifact(&self.artifacts, key).is_some()
    }
}

/// What the index, or else the last commit, holds under a key.
pub open spec fn current_descriptor(
    index: PathListingView,
    head: Option<PathListingView>,
    key: Seq<char>,
) -> Descriptor {
    match listed(index, key) {
        Some(d) => d,
        None => match head {
            Some(head) => match listed(head, key) {
                Some(d) => d,
                None => unknown_descriptor(),
            },
            None => unknown_descriptor(),
        },
    }
}

/// What a key holds now; `head` is what the last commit holds, where there is one.
pub fn current_key_path_detail(index: &PathListing, head: Option<&PathListing>, key: &str) -> (r:
    Descriptor)
    ensures
        r == current_descriptor(index@, listing_option(head), key@),
{
    if let Some(d) = index.describe(key) {
        return d;
    }
    if let Some(head) = head {
        if let Some(d) = head.describe(key) {
            return d;
        }
    }
    (RepoTrackedPathKind::BinaryFile, RepoPathStorage::Inline)
}

pub open spec fn listing_option(l: Option<&PathListing>) -> Option<PathListingView> {
    match l {
        Some(l) => Some(l@),
        None => None,
    }
}

/// What the index, or the state before a checkout, holds under a key.
pub fn index_path_descriptor(index: &PathListing, key: &str) -> (r: Descriptor)
    ensures
        r == match listed(index@, key@) {
            Some(d) => d,
            None => unknown_descriptor(),
        },
{
    match index.describe(key) {
        Some(d) => d,
        None => (RepoTrackedPathKind::BinaryFile, RepoPathStorage::Inline),
    }
}

/// What a restored key held in the place it is restored from, or else what it holds now.
pub open spec fn restore_descriptor(
    source: Option<PathListingView>,
    staged: bool,
    index: PathListingView,
    head: Option<PathListingView>,
    key: Seq<char>,
) -> Descriptor {
    let place = match source {
        Some(source) => Some(source),
        None => if staged {
            head
        } else {
            None
        },
    };
    match place {
        Some(place) => match listed(place, key) {
            Some(d) => d,
            None => current_descriptor(index, head, key),
        },
        None => current_descriptor(index, head, key),
    }
}

pub fn restore_key_path_detail(
    source: Option<&PathListing>,
    staged: bool,
    index: &PathListing,
    head: Option<&PathListing>,
    key: &str,
) -> (r: Descriptor)
    ensures
        r == restore_descriptor(
            listing_option(source),
            staged,
            index@,
            listing_option(head),
            key@,
        ),
{
    if let Some(source) = source {
        if let Some(d) = source.describe(key) {
            return d;
        }
    } else if staged {
        if let Some(head) = head {
            if let Some(d) = head.describe(key) {
                return d;
            }
        }
    }
    current_key_path_detail(index, head, key)
}

/// The kind, the storage and the change of a staged entry.
pub open spec fn staged_entry(head: Option<PathListingView>, entry: IndexEntryView) -> (
    RepoTrackedPathKind,
    RepoPathStorage,
    RepoFileChange,
) {
    let in_files = head matches Some(h) && h.files.contains(entry.path);
    let in_artifacts = head matches Some(h) && artifact_of(h, entry.path) is Some;
    if entry.file is Some {
        let d = sqlite_descriptor();
        (
            d.0,
            d.1,
            if in_files {
                RepoFileChange::Modified
            } else {
                RepoFileChange::Added
            },
        )
    } else if entry.artifact is Some {
        let d = artifact_descriptor(entry.artifact->0);
        (
            d.0,
            d.1,
            if in_artifacts {
                RepoFileChange::Modified
            } else {
                RepoFileChange::Added
            },
        )
    } else {
        let d = match head {
            Some(h) => match listed(h, entry.path) {
                Some(d) => d,
                None => unknown_descriptor(),
            },
            None => unknown_descriptor(),
        };
        (d.0, d.1, RepoFileChange::Deleted)
    }
}

pub fn staged_entry_kind_storage_and_change(head: Option<&PathListing>, entry: &IndexEntry) -> (r: (
    RepoTrackedPathKind,
    RepoPathStorage,
    RepoFileChange,
))
    ensures
        r == staged_entry(listing_option(head), entry@),
{
    let key = entry.path.as_str();
    if entry.file.is_some() {
        let known: bool = match head {
            Some(h) => h.has_file(key),
            None => false,
        };
        return (
            RepoTrackedPathKind::SqliteDatabase,
            RepoPathStorage::SqliteSnapshot,
            if known {
                RepoFileChange::Modified
            } else {
                RepoFileChange::Added
            },
        );
    }
    if let Some(a) = &entry.artifact {
        let known: bool = match head {
            Some(h) => h.has_artifact(key),
            None => false,
        };
        return (
            artifact_checkout_path_kind(a),
            artifact_checkout_path_storage(a),
            if known {
                RepoFileChange::Modified
            } else {
                RepoFileChange::Added
            },
        );
    }
    let (kind, storage): Descriptor = match head {
        Some(h) => index_path_descriptor(h, key),
        None => (RepoTrackedPathKind::BinaryFile, RepoPathStorage::Inline),
    };
    (kind, storage, RepoFileChange::Deleted)
}

/// What was done to a path.
#[derive(Debug, Clone, Copy, PartialEq, Eq, Structural)]
pub enum PathActionKind {
    CheckedOut,
    Removed,
    Staged,
    Conflicted,
    Materialized,
}

pub open spec fn path_action_name(v: PathActionKind) -> Seq<char> {
    match v {
        PathActionKind::CheckedOut => "checked_out"@,
        PathActionKind::Removed => "removed"@,
        PathActionKind::Staged => "staged"@,
        PathActionKind::Conflicted => "conflicted"@,
        PathActionKind::Materialized => "materialized"@,
    }
}

pub fn path_action_label(v: PathActionKind) -> (r: &'static str)
    ensures
        r@ == path_action_name(v),
{
    match v {
        PathActionKind::CheckedOut => "checked_out",
        PathActionKind::Removed => "removed",
        PathActionKind::Staged => "staged",
        PathActionKind::Conflicted => "conflicted",
        PathActionKind::Materialized => "materialized",
    }
}

/// A path and what was done to it.
#[derive(Debug, Clone, PartialEq, Eq)]
pub struct JsonPathAction<S = String> {
    pub path: S,
    pub kind: RepoTrackedPathKind,
    pub storage: RepoPathStorage,
    pub action: PathActionKind,
}

pub type JsonPathActionView = JsonPathAction<Seq<char>>;

impl View for JsonPathAction<String> {
    type V = JsonPathActionView;

    open spec fn view(&self) -> JsonPathActionView {
        JsonPathAction {
            path: self.path@,
            kind: self.kind,
            storage: self.storage,
            action: self.action,
        }
    }
}

pub open spec fn action_of(path: Seq<char>, d: Descriptor, action: PathActionKind) -> JsonPathActionView {
    JsonPathAction { path, kind: d.0, storage: d.1, action }
}

pub fn json_path_action(path: String, d: Descriptor, action: PathActionKind) -> (r: JsonPathAction)
    ensures
        r@ == action_of(path@, d, action),
{
    JsonPathAction { path, kind: d.0, storage: d.1, action }
}

/// What a checkout does to a path: what the plan holds is checked out, ordinary files before
/// databases, and what only the state before it held is removed.
pub open spec fn checkout_action(
    plan: PathListingView,
    previous: PathListingView,
    path: Seq<char>,
) -> Option<JsonPathActionView> {
    match artifact_of(plan, path) {
        Some(a) => Some(action_of(path, artifact_descriptor(a), PathActionKind::CheckedOut)),
        None => if plan.files.contains(path) {
            Some(action_of(path, sqlite_descriptor(), PathActionKind::CheckedOut))
        } else {
            match artifact_of(previous, path) {
                Some(a) => Some(action_of(path, artifact_descriptor(a), PathActionKind::Removed)),
                None => if previous.files.contains(path) {
                    Some(action_of(path, sqlite_descriptor(), PathActionKind::Removed))
                } else {
                    None
                },
            }
        },
    }
}

/// The paths of a list of actions.
pub open spec fn action_paths(actions: Seq<JsonPathActionView>) -> Seq<Seq<char>> {
    Seq::new(actions.len(), |i: int| actions[i].path)
}

/// The actions are those that `of` gives, each once and in ascending order of the paths.
pub open spec fn actions_are(
    actions: Seq<JsonPathActionView>,
    of: spec_fn(Seq<char>) -> Option<JsonPathActionView>,
) -> bool {
    &&& ascending(action_paths(actions))
    &&& forall|i: int|
        0 <= i < actions.len() ==> of((#[trigger] actions[i]).path) == Some(actions[i])
    &&& forall|p: Seq<char>|
        of(p) is Some ==> #[trigger] action_paths(actions).contains(p)
}

/// The keys of ordinary files.
pub open spec fn artifact_keys(list: Seq<PathArtifactView>) -> Seq<Seq<char>> {
    Seq::new(list.len(), |i: int| list[i].path)
}

proof fn lemma_artifact_keys(list: Seq<PathArtifactView>, key: Seq<char>, i: int)
    requires
        0 <= i <= list.len(),
    ensures
        artifact_at(list, key, i) is Some <==> artifact_keys(list).skip(i).contains(key),
    decreases list.len() - i,
{
    let keys = artifact_keys(list);
    if i < list.len() {
        lemma_artifact_keys(list, key, i + 1);
        let s = keys.skip(i);
        let t = keys.skip(i + 1);
        if t.contains(key) {
            assert(s[t.index_of(key) + 1] == key);
        }
        assert(s[0] == list[i].path);
        if s.contains(key) && list[i].path != key {
            let n = s.index_of(key);
            assert(t[n - 1] == key);
        }
    }
}

fn list_artifact_keys(list: &Vec<PathArtifact>) -> (r: Vec<String>)
    ensures
        texts(r@) == artifact_keys(views(list@)),
{
    let ghost all = artifact_keys(views(list@));
    let mut out: Vec<String> = Vec::new();
    let mut i: usize = 0;
    proof {
        assert(texts(out@) =~= all.take(0));
    }
    while i < list.len()
        invariant
            i <= list@.len(),
            all == artifact_keys(views(list@)),
            texts(out@) == all.take(i as int),
        decreases list@.len() - i,
    {
        let path = list[i].path.clone();
        proof {
            lemma_texts_push(out@, path);
            assert(all.take(i + 1) =~= all.take(i as int).push(path@));
        }
        out.push(path);
        i += 1;
    }
    proof {
        assert(all.take(i as int) =~= all);
    }
    out
}

/// Every key of a listing, in ascending order.
pub fn listing_keys(listing: &PathListing) -> (r: Vec<String>)
    ensures
        ascending(texts(r@)),
        forall|k: Seq<char>| #[trigger]
            texts(r@).contains(k) == (listed(listing@, k) is Some),
{
    let mut out: Vec<String> = Vec::new();
    insert_keys(&mut out, &listing.files);
    let artifacts = list_artifact_keys(&listing.artifacts);
    insert_keys(&mut out, &artifacts);
    proof {
        assert forall|k: Seq<char>| #[trigger] texts(out@).contains(k) == (listed(listing@, k)
            is Some) by {
            lemma_artifact_keys(listing@.artifacts, k, 0);
            assert(artifact_keys(listing@.artifacts).skip(0) =~= artifact_keys(
                listing@.artifacts,
            ));
        }
    }
    out
}

fn checkout_action_of(plan: &PathListing, previous: &PathListing, path: &str) -> (r: Option<
    JsonPathAction,
>)
    ensures
        view_option(r) == checkout_action(plan@, previous@, path@),
{
    if let Some(a) = find_artifact(&plan.artifacts, path) {
        let d = (artifact_checkout_path_kind(a), artifact_checkout_path_storage(a));
        return Some(json_path_action(path.to_owned(), d, PathActionKind::CheckedOut));
    }
    let sqlite = (RepoTrackedPathKind::SqliteDatabase, RepoPathStorage::SqliteSnapshot);
    if plan.has_file(path) {
        return Some(json_path_action(path.to_owned(), sqlite, PathActionKind::CheckedOut));
    }
    if let Some(a) = find_artifact(&previous.artifacts, path) {
        let d = (artifact_checkout_path_kind(a), artifact_checkout_path_storage(a));
        return Some(json_path_action(path.to_owned(), d, PathActionKind::Removed));
    }
    if previous.has_file(path) {
        return Some(json_path_action(path.to_owned(), sqlite, PathActionKind::Removed));
    }
    None
}

/// What a checkout does to each path, in ascending order of the paths.
pub fn checkout_plan_path_actions(plan: &PathListing, previous: &PathListing) -> (r: Vec<
    JsonPathAction,
>)
    ensures
        actions_are(views(r@), |p: Seq<char>| checkout_action(plan@, previous@, p)),
{
    let ghost of = |p: Seq<char>| checkout_action(plan@, previous@, p);
    let mut keys = listing_keys(plan);
    let before = listing_keys(previous);
    insert_keys(&mut keys, &before);
    let ghost all = texts(keys@);
    let mut out: Vec<JsonPathAction> = Vec::new();
    let mut i: usize = 0;
    while i < keys.len()
        invariant
            i <= keys@.len(),
            all == texts(keys@),
            ascending(all),
            forall|k: Seq<char>| #[trigger]
                all.contains(k) == (listed(plan@, k) is Some || listed(previous@, k) is Some),
            out@.len() == i,
            forall|j: int|
                0 <= j < i ==> checkout_action(plan@, previous@, all[j]) == Some(
                    #[trigger] views(out@)[j],
                ) && views(out@)[j].path == all[j],
        decreases keys@.len() - i,
    {
        proof {
            assert(all[i as int] == keys@[i as int]@);
            assert(all.contains(all[i as int]));
        }
        if let Some(action) = checkout_action_of(plan, previous, keys[i].as_str()) {
            proof {
                assert(views(out@.push(action)) =~= views(out@).push(action@));
            }
            out.push(action);
        }
        i += 1;
    }
    proof {
        let actions = views(out@);
        assert(action_paths(actions) =~= all);
        assert forall|p: Seq<char>| of(p) is Some implies #[trigger] action_paths(
            actions,
        ).contains(p) by {
            assert(listed(plan@, p) is Some || listed(previous@, p) is Some);
            assert(all.contains(p));
        }
        assert forall|k: int| 0 <= k < actions.len() implies of((#[trigger] actions[k]).path)
            == Some(actions[k]) by {
            assert(actions[k] == views(out@)[k]);
        }
    }
    out
}

/// The last entry of the first stage under a path.
pub open spec fn normal_entry(entries: Seq<IndexEntryView>, path: Seq<char>) -> Option<
    IndexEntryView,
>
    decreases entries.len(),
{
    if entries.len() == 0 {
        None
    } else if entries.last().stage == IndexStage::Normal && entries.last().path == path {
        Some(entries.last())
    } else {
        normal_entry(entries.drop_last(), path)
    }
}

/// The entries under a path.
pub open spec fn entries_of(entries: Seq<IndexEntryView>, path: Seq<char>, i: int) -> Descriptor
    decreases entries.len() - i,
{
    if i >= entries.len() {
        unknown_descriptor()
    } else if entries[i].path == path && entries[i].file is Some {
        sqlite_descriptor()
    } else if entries[i].path == path && entries[i].artifact is Some {
        artifact_descriptor(entries[i].artifact->0)
    } else {
        entries_of(entries, path, i + 1)
    }
}

/// What a merge did to a path: what conflicts, and otherwise what it staged; staged paths are in
/// the worktree where nothing conflicts.
pub open spec fn merge_action(
    staged: Seq<Seq<char>>,
    conflicted: Seq<Seq<char>>,
    entries: Seq<IndexEntryView>,
    previous: PathListingView,
    path: Seq<char>,
) -> Option<JsonPathActionView> {
    let placed = conflicted.len() == 0;
    if conflicted.contains(path) {
        Some(action_of(path, entries_of(entries, path, 0), PathActionKind::Conflicted))
    } else if staged.contains(path) {
        let action = if placed {
            PathActionKind::CheckedOut
        } else {
            PathActionKind::Staged
        };
        match normal_entry(entries, path) {
            None => None,
            Some(e) => if e.file is Some {
                Some(action_of(path, sqlite_descriptor(), action))
            } else if e.artifact is Some {
                Some(action_of(path, artifact_descriptor(e.artifact->0), action))
            } else {
                Some(
                    action_of(
                        path,
                        match listed(previous, path) {
                            Some(d) => d,
                            None => unknown_descriptor(),
                        },
                        if placed {
                            PathActionKind::Removed
                        } else {
                            PathActionKind::Staged
                        },
                    ),
                )
            },
        }
    } else {
        None
    }
}

fn find_normal_entry<'a>(entries: &'a Vec<IndexEntry>, path: &str) -> (r: Option<&'a IndexEntry>)
    ensures
        match r {
            Some(e) => normal_entry(views(entries@), path@) == Some(e@),
            None => normal_entry(views(entries@), path@) is None,
        },
{
    let ghost all = views(entries@);
    let mut n: usize = entries.len();
    proof {
        assert(all.take(n as int) =~= all);
    }
    while n > 0
        invariant
            n <= entries@.len(),
            all == views(entries@),
            normal_entry(all, path@) == normal_entry(all.take(n as int), path@),
        decreases n,
    {
        proof {
            assert(all.take(n as int).last() == entries@[n - 1]@);
            assert(all.take(n as int).drop_last() =~= all.take(n - 1));
        }
        if entries[n - 1].stage == IndexStage::Normal && same(entries[n - 1].path.as_str(), path) {
            return Some(&entries[n - 1]);
        }
        n -= 1;
    }
    None
}

/// The kind and the storage of a path with a conflict.
pub fn conflict_path_descriptor(entries: &Vec<IndexEntry>, path: &str) -> (r: Descriptor)
    ensures
        r == entries_of(views(entries@), path@, 0),
{
    let ghost all = views(entries@);
    let mut i: usize = 0;
    while i < entries.len()
        invariant
            i <= entries@.len(),
            all == views(entries@),
            entries_of(all, path@, 0) == entries_of(all, path@, i as int),
        decreases entries@.len() - i,
    {
        proof {
            assert(all[i as int] == entries@[i as int]@);
        }
        if same(entries[i].path.as_str(), path) {
            if entries[i].file.is_some() {
                return (RepoTrackedPathKind::SqliteDatabase, RepoPathStorage::SqliteSnapshot);
            }
            if let Some(a) = &entries[i].artifact {
                return (artifact_checkout_path_kind(a), artifact_checkout_path_storage(a));
            }
        }
        i += 1;
    }
    (RepoTrackedPathKind::BinaryFile, RepoPathStorage::Inline)
}

fn merge_action_of(
    staged: &Vec<String>,
    conflicted: &Vec<String>,
    entries: &Vec<IndexEntry>,
    previous: &PathListing,
    path: &str,
) -> (r: Option<JsonPathAction>)
    ensures
        view_option(r) == merge_action(
            texts(staged@),
            texts(conflicted@),
            views(entries@),
            previous@,
            path@,
        ),
{
    let placed: bool = conflicted.len() == 0;
    if lists(conflicted, path) {
        let d = conflict_path_descriptor(entries, path);
        return Some(json_path_action(path.to_owned(), d, PathActionKind::Conflicted));
    }
    if !lists(staged, path) {
        return None;
    }
    let action = if placed {
        PathActionKind::CheckedOut
    } else {
        PathActionKind::Staged
    };
    match find_normal_entry(entries, path) {
        None => None,
        Some(e) => {
            if e.file.is_some() {
                let d = (RepoTrackedPathKind::SqliteDatabase, RepoPathStorage::SqliteSnapshot);
                Some(json_path_action(path.to_owned(), d, action))
            } else if let Some(a) = &e.artifact {
                let d = (artifact_checkout_path_kind(a), artifact_checkout_path_storage(a));
                Some(json_path_action(path.to_owned(), d, action))
            } else {
                let d = index_path_descriptor(previous, path);
                Some(
                    json_path_action(
                        path.to_owned(),
                        d,
                        if placed {
                            PathActionKind::Removed
                        } else {
                            PathActionKind::Staged
                        },
                    ),
                )
            }
        },
    }
}

/// What a merge did to a path: a fast-forward checks its plan out.
pub open spec fn outcome_action(
    outcome: MergeOutcomeView,
    plan: Option<PathListingView>,
    entries: Seq<IndexEntryView>,
    previous: PathListingView,
    path: Seq<char>,
) -> Option<JsonPathActionView> {
    match outcome {
        MergeOutcome::FastForward { .. } => match plan {
            Some(plan) => checkout_action(plan, previous, path),
            None => None,
        },
        MergeOutcome::AlreadyUpToDate { .. } => None,
        MergeOutcome::Merged { staged, conflicted, .. } => merge_action(
            staged,
            conflicted,
            entries,
            previous,
            path,
        ),
    }
}

/// What a merge did to each path, in ascending order of the paths.
pub fn merge_path_actions(
    outcome: &MergeOutcome,
    fast_forward_plan: Option<&PathListing>,
    entries: &Vec<IndexEntry>,
    previous: &PathListing,
) -> (r: Vec<JsonPathAction>)
    ensures
        actions_are(
            views(r@),
            |p: Seq<char>|
                outcome_action(
                    outcome@,
                    listing_option(fast_forward_plan),
                    views(entries@),
                    previous@,
                    p,
                ),
        ),
{
    let ghost of = |p: Seq<char>|
        outcome_action(
            outcome@,
            listing_option(fast_forward_plan),
            views(entries@),
            previous@,
            p,
        );
    match outcome {
        MergeOutcome::FastForward { .. } => {
            if let Some(plan) = fast_forward_plan {
                let r = checkout_plan_path_actions(plan, previous);
                proof {
                    let g = |p: Seq<char>| checkout_action(plan@, previous@, p);
                    assert(actions_are(views(r@), g));
                    assert forall|i: int| 0 <= i < views(r@).len() implies of(
                        (#[trigger] views(r@)[i]).path,
                    ) == Some(views(r@)[i]) by {
                        assert(g(views(r@)[i].path) == Some(views(r@)[i]));
                    }
                    assert forall|p: Seq<char>| of(p) is Some implies #[trigger] action_paths(
                        views(r@),
                    ).contains(p) by {
                        assert(g(p) is Some);
                    }
                }
                return r;
            }
            Vec::new()
        },
        MergeOutcome::AlreadyUpToDate { .. } => Vec::new(),
        MergeOutcome::Merged { staged, conflicted, .. } => merged_path_actions(
            staged,
            conflicted,
            entries,
            previous,
            Ghost(of),
        ),
    }
}

fn merged_path_actions(
    staged: &Vec<String>,
    conflicted: &Vec<String>,
    entries: &Vec<IndexEntry>,
    previous: &PathListing,
    Ghost(of): Ghost<spec_fn(Seq<char>) -> Option<JsonPathActionView>>,
) -> (r: Vec<JsonPathAction>)
    requires
        forall|p: Seq<char>| #[trigger]
            of(p) == merge_action(
                texts(staged@),
                texts(conflicted@),
                views(entries@),
                previous@,
                p,
            ),
    ensures
        actions_are(views(r@), of),
{
    let mut keys: Vec<String> = Vec::new();
    insert_keys(&mut keys, staged);
    insert_keys(&mut keys, conflicted);
    let ghost all = texts(keys@);
    let mut out: Vec<JsonPathAction> = Vec::new();
    let mut i: usize = 0;
    while i < keys.len()
        invariant
            i <= keys@.len(),
            all == texts(keys@),
            ascending(all),
            forall|p: Seq<char>| #[trigger]
                of(p) == merge_action(
                    texts(staged@),
                    texts(conflicted@),
                    views(entries@),
                    previous@,
                    p,
                ),
            forall|k: Seq<char>| #[trigger]
                all.contains(k) == (texts(staged@).contains(k) || texts(conflicted@).contains(k)),
            forall|j: int|
                0 <= j < out@.len() ==> of((#[trigger] views(out@)[j]).path) == Some(
                    views(out@)[j],
                ) && exists|k: int| 0 <= k < i && all[k] == views(out@)[j].path,
            ascending(action_paths(views(out@))),
            forall|k: int|
                0 <= k < i && of(#[trigger] all[k]) is Some ==> action_paths(views(out@)).contains(
                    all[k],
                ),
        decreases keys@.len() - i,
    {
        proof {
            assert(all[i as int] == keys@[i as int]@);
        }
        if let Some(action) = merge_action_of(
            staged,
            conflicted,
            entries,
            previous,
            keys[i].as_str(),
        ) {
            proof {
                let now = views(out@);
                let next = now.push(action@);
                assert(views(out@.push(action)) =~= next);
                assert(action_paths(next) =~= action_paths(now).push(action@.path));
                assert(of(all[i as int]) == Some(action@));
                assert(action@.path == all[i as int]);
                assert forall|a: int, b: int| 0 <= a < b < next.len() implies crate::order::before(
                    #[trigger] action_paths(next)[a],
                    #[trigger] action_paths(next)[b],
                ) by {
                    if b == now.len() {
                        assert(now[a] == views(out@)[a]);
                        let k = choose|k: int| 0 <= k < i && all[k] == views(out@)[a].path;
                        assert(crate::order::before(all[k], all[i as int]));
                    } else {
                        assert(action_paths(next)[a] == action_paths(now)[a]);
                        assert(action_paths(next)[b] == action_paths(now)[b]);
                    }
                }
                assert forall|j: int| 0 <= j < next.len() implies of((#[trigger] next[j]).path)
                    == Some(next[j]) && exists|k: int| 0 <= k < i + 1 && all[k] == next[j].path by {
                    if j < now.len() {
                        assert(next[j] == views(out@)[j]);
                        let k = choose|k: int| 0 <= k < i && all[k] == views(out@)[j].path;
                        assert(0 <= k < i + 1 && all[k] == next[j].path);
                    } else {
                        assert(0 <= i < i + 1 && all[i as int] == next[j].path);
                    }
                }
                assert forall|k: int| 0 <= k < i + 1 && of(#[trigger] all[k]) is Some implies
                    action_paths(next).contains(all[k]) by {
                    if k < i {
                        let n = action_paths(now).index_of(all[k]);
                        assert(action_paths(next)[n] == all[k]);
                    } else {
                        assert(action_paths(next)[now.len() as int] == all[k]);
                    }
                }
            }
            out.push(action);
        } else {
            proof {
                assert(of(all[i as int]) is None);
                assert forall|j: int| 0 <= j < out@.len() implies of(
                    (#[trigger] views(out@)[j]).path,
                ) == Some(views(out@)[j]) && exists|k: int|
                    0 <= k < i + 1 && all[k] == views(out@)[j].path by {
                    let k = choose|k: int| 0 <= k < i && all[k] == views(out@)[j].path;
                    assert(0 <= k < i + 1 && all[k] == views(out@)[j].path);
                }
            }
        }
        i += 1;
    }
    proof {
        assert forall|p: Seq<char>| of(p) is Some implies #[trigger] action_paths(
            views(out@),
        ).contains(p) by {
            assert(all.contains(p));
            let k = all.index_of(p);
            assert(of(all[k]) is Some);
        }
    }
    out
}

/// The keys whose databases a checkout touches, in ascending order.
pub fn workspace_sqlite_keys(plan: &PathListing, previous: &PathListing) -> (r: Vec<String>)
    ensures
        ascending(texts(r@)),
        forall|k: Seq<char>| #[trigger]
            texts(r@).contains(k) == (plan@.files.contains(k) || previous@.files.contains(k)),
{
    let mut out: Vec<String> = Vec::new();
    insert_keys(&mut out, &plan.files);
    insert_keys(&mut out, &previous.files);
    out
}

/// What follows a reset.
#[derive(Debug, Clone, Copy, PartialEq, Eq, Structural)]
pub struct ResetFollowUp {
    /// The old state of the open database is staged.
    pub restage: bool,
    /// Whether the open database is marked as changed, or marked as unchanged.
    pub dirty: Option<bool>,
    /// The worktree is replaced.
    pub checkout: bool,
}

/// What the states of the open database say about a reset.
#[derive(Debug, Clone, Copy, PartialEq, Eq, Structural)]
pub struct ResetFacts {
    pub had_staged_changes: bool,
    /// The last commit before the reset held the database.
    pub had_old_head: bool,
    /// The new head holds what the old one held.
    pub target_is_old_head: bool,
    /// The database holds what the old head held.
    pub current_is_old_head: bool,
    /// The database holds what the new head holds.
    pub current_is_target: bool,
}

/// A soft reset keeps what the old head held as staged, a mixed one leaves it in the worktree, and
/// a hard one replaces the worktree.
pub open spec fn reset_follow_up(mode: ResetMode, facts: ResetFacts) -> ResetFollowUp {
    match mode {
        ResetMode::Soft => ResetFollowUp {
            restage: !facts.had_staged_changes && facts.had_old_head && !facts.target_is_old_head,
            dirty: if !facts.had_staged_changes && facts.had_old_head && !facts.current_is_old_head {
                Some(true)
            } else {
                None
            },
            checkout: false,
        },
        ResetMode::Mixed => ResetFollowUp {
            restage: false,
            dirty: Some(!facts.current_is_target),
            checkout: false,
        },
        ResetMode::Hard => ResetFollowUp { restage: false, dirty: None, checkout: true },
    }
}

/// Decides what follows a reset.
pub fn run_repo_reset(mode: ResetMode, facts: ResetFacts) -> (r: ResetFollowUp)
    ensures
        r == reset_follow_up(mode, facts),
{
    match mode {
        ResetMode::Soft => {
            let keeps: bool = !facts.had_staged_changes && facts.had_old_head;
            ResetFollowUp {
                restage: keeps && !facts.target_is_old_head,
                dirty: if keeps && !facts.current_is_old_head {
                    Some(true)
                } else {
                    None
                },
                checkout: false,
            }
        },
        ResetMode::Mixed => ResetFollowUp {
            restage: false,
            dirty: Some(!facts.current_is_target),
            checkout: false,
        },
        ResetMode::Hard => ResetFollowUp { restage: false, dirty: None, checkout: true },
    }
}

/// What a reset answers with.
#[derive(Debug, Clone, PartialEq, Eq)]
pub struct RepoResetOutcome<S = String, L = Vec<JsonPathAction>> {
    /// The commit that the branch stands at now.
    pub target: S,
    pub mode: ResetMode,
    pub branch: Option<S>,
    /// The paths of the worktree that were replaced or removed.
    pub paths: L,
}

/// The answer to a reset to `target` that was planned as `plan` while the index held `previous`. A
/// hard reset reports what it did to the worktree; a soft or mixed one leaves the worktree alone and
/// reports no path.
pub fn reset_outcome(
    target: String,
    mode: ResetMode,
    branch: Option<String>,
    plan: &PathListing,
    previous: &PathListing,
) -> (r: RepoResetOutcome)
    ensures
        r.target == target,
        r.mode == mode,
        r.branch == branch,
        if mode == ResetMode::Hard {
            actions_are(views(r.paths@), |p: Seq<char>| checkout_action(plan@, previous@, p))
        } else {
            r.paths@.len() == 0
        },
{
    let paths = if mode == ResetMode::Hard {
        checkout_plan_path_actions(plan, previous)
    } else {
        Vec::new()
    };
    RepoResetOutcome { target, mode, branch, paths }
}

/// A reset writes to the worktree exactly where it reports paths at all: a hard one.
pub proof fn law_only_a_hard_reset_writes(mode: ResetMode, facts: ResetFacts)
    ensures
        reset_follow_up(mode, facts).checkout == (mode == ResetMode::Hard),
{
}

} // verus!
