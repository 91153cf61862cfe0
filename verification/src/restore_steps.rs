//! What a restore, a checkout of a path and an export do with each key.
use vstd::prelude::*;
use vstd::string::*;

use crate::checkout::{
    current_descriptor, current_key_path_detail, listed, listing_option, PathListing,
    PathListingView,
};
use crate::diff::key_matches;
use crate::error::{seen, text_option, CommandError, RepoErr};
use crate::model::{
    IndexEntry, IndexEntryView, PathArtifact, PathArtifactView, PathChange, PathChangeView,
};
use crate::order::{ascending, insert_key, lemma_take_contains, lists};
use crate::restore::{
    checkout_keys_for_revision_pathspec, DirtyMark, RestorePlanEntry, RestorePlanEntryView,
    RestoredKind,
};
use crate::show::views;
use crate::spec::{IndexStage, RepoPathStorage, RepoTrackedPathKind};
use crate::staging::Unstaging;
use crate::status::{list_staged_change_paths, staged_change_paths, staged_changes_of_kind};
use crate::text::{cat2, cat3, join, joined, lemma_texts_push, same, texts};

verus! {

/// The staged paths that a restore of everything takes: those of a kind, or all.
pub open spec fn staged_to_restore(
    staged: Seq<PathChangeView>,
    kind: Option<RepoTrackedPathKind>,
) -> Seq<
    Seq<char>,
> {
    match kind {
        Some(kind) => staged_change_paths(staged.filter(|e: PathChangeView| e.kind == kind)),
        None => staged_change_paths(staged),
    }
}

pub fn restore_repo_staged_all(staged: Vec<PathChange>, kind: Option<RepoTrackedPathKind>) -> (r: Vec<
    String,
>)
    ensures
        texts(r@) == staged_to_restore(views(staged@), kind),
{
    match kind {
        Some(kind) => {
            let kept = staged_changes_of_kind(staged, kind);
            list_staged_change_paths(&kept)
        },
        None => list_staged_change_paths(&staged),
    }
}

/// A directory is restored only where something is known at or below it.
pub fn restore_repo_directory(keys: &Vec<String>, key: &str) -> (r: Result<(), CommandError>)
    ensures
        seen(r) == if keys@.len() > 0 {
            Ok(())
        } else {
            Err(
                CommandError::Repo(
                    RepoErr::PathNotTracked(
                        if key@.len() == 0 {
                            "."@
                        } else {
                            key@
                        },
                    ),
                ),
            )
        },
{
    if keys.len() > 0 {
        return Ok(());
    }
    let name = if key.is_empty() {
        "."
    } else {
        key
    };
    Err(CommandError::Repo(RepoErr::PathNotTracked(name.to_owned())))
}

/// A key that a checkout of a path takes from a revision, or deletes because the revision does not
/// have it.
#[derive(Debug, Clone, PartialEq, Eq)]
pub struct KeyCheckout<S = String> {
    pub key: S,
    pub deleted: bool,
    pub kind: RepoTrackedPathKind,
    pub storage: RepoPathStorage,
}

pub type KeyCheckoutView = KeyCheckout<Seq<char>>;

impl View for KeyCheckout<String> {
    type V = KeyCheckoutView;

    open spec fn view(&self) -> KeyCheckoutView {
        KeyCheckout {
            key: self.key@,
            deleted: self.deleted,
            kind: self.kind,
            storage: self.storage,
        }
    }
}

/// What a checkout does with a key.
pub open spec fn key_checkout(
    source: PathListingView,
    index: PathListingView,
    head: Option<PathListingView>,
    key: Seq<char>,
) -> KeyCheckoutView {
    match listed(source, key) {
        Some(d) => KeyCheckout { key, deleted: false, kind: d.0, storage: d.1 },
        None => {
            let d = current_descriptor(index, head, key);
            KeyCheckout { key, deleted: true, kind: d.0, storage: d.1 }
        },
    }
}

/// Whether a checkout of a path takes a key: it is at or below the path, and the revision or the
/// index has it.
pub open spec fn checks_out(source: PathListingView, index: PathListingView, path: Seq<char>, key: Seq<char>) -> bool {
    key_matches(key, path) && (listed(source, key) is Some || listed(index, key) is Some)
}

/// The keys of a list of steps.
pub open spec fn checkout_keys(steps: Seq<KeyCheckoutView>) -> Seq<Seq<char>> {
    Seq::new(steps.len(), |i: int| steps[i].key)
}

fn key_checkout_of(source: &PathListing, index: &PathListing, head: Option<&PathListing>, key: &str) -> (r:
    KeyCheckout)
    ensures
        r@ == key_checkout(source@, index@, listing_option(head), key@),
{
    match source.describe(key) {
        Some(d) => KeyCheckout { key: key.to_owned(), deleted: false, kind: d.0, storage: d.1 },
        None => {
            let d = current_key_path_detail(index, head, key);
            KeyCheckout { key: key.to_owned(), deleted: true, kind: d.0, storage: d.1 }
        },
    }
}

fn list_checkout_keys(steps: &Vec<KeyCheckout>) -> (r: Vec<String>)
    ensures
        texts(r@) == checkout_keys(views(steps@)),
{
    let mut out: Vec<String> = Vec::new();
    let n: usize = steps.len();
    let mut i: usize = 0;
    while i < n
        invariant
            n == steps@.len(),
            0 <= i <= n,
            out@.len() == i,
            forall|k: int| 0 <= k < i ==> #[trigger] out@[k]@ == steps@[k]@.key,
        decreases n - i,
    {
        out.push(steps[i].key.clone());
        i += 1;
    }
    proof {
        assert(texts(out@) =~= checkout_keys(views(steps@)));
    }
    out
}

/// How a checkout of a path names what it took: the path by itself where the revision has it,
/// otherwise the list of the keys.
pub fn checked_out_paths(steps: &Vec<KeyCheckout>, path: &str) -> (r: (Option<String>, Vec<String>))
    ensures
        if steps@.len() == 1 && !steps@[0].deleted && steps@[0]@.key == path@ {
            text_option(r.0) == Some(path@) && r.1@.len() == 0
        } else {
            r.0 is None && texts(r.1@) == checkout_keys(views(steps@))
        },
{
    if steps.len() == 1 && !steps[0].deleted && same(steps[0].key.as_str(), path) {
        (Some(path.to_owned()), Vec::new())
    } else {
        (None, list_checkout_keys(steps))
    }
}

/// What a checkout of a path from a revision does: a path that the revision has is taken alone;
/// for any other, every key at or below it that the revision or the index has.
pub fn checkout_repo_path_from_revision(
    source: &PathListing,
    index: &PathListing,
    head: Option<&PathListing>,
    rev: &str,
    path: &str,
) -> (r: Result<Vec<KeyCheckout>, CommandError>)
    ensures
        match r {
            Ok(steps) => {
                &&& listed(source@, path@) is Some ==> views(steps@) == seq![
                    key_checkout(source@, index@, listing_option(head), path@),
                ]
                &&& listed(source@, path@) is None ==> {
                    &&& steps@.len() > 0
                    &&& ascending(checkout_keys(views(steps@)))
                    &&& forall|k: Seq<char>| #[trigger]
                        checkout_keys(views(steps@)).contains(k) == checks_out(
                            source@,
                            index@,
                            path@,
                            k,
                        )
                    &&& forall|i: int|
                        0 <= i < steps@.len() ==> (#[trigger] steps@[i])@ == key_checkout(
                            source@,
                            index@,
                            listing_option(head),
                            steps@[i]@.key,
                        )
                }
            },
            Err(e) => {
                &&& listed(source@, path@) is None
                &&& forall|k: Seq<char>| !checks_out(source@, index@, path@, k)
                &&& e@ == CommandError::Repo(
                    RepoErr::PathNotFoundInRevision { path: path@, rev: rev@ },
                )
            },
        },
{
    let mut out: Vec<KeyCheckout> = Vec::new();
    if source.holds(path) {
        out.push(key_checkout_of(source, index, head, path));
        proof {
            assert(views(out@) =~= seq![
                key_checkout(source@, index@, listing_option(head), path@),
            ]);
        }
        return Ok(out);
    }
    let keys = checkout_keys_for_revision_pathspec(source, index, path);
    let n: usize = keys.len();
    if n == 0 {
        proof {
            assert forall|k: Seq<char>| !checks_out(source@, index@, path@, k) by {
                assert(!texts(keys@).contains(k));
            }
        }
        return Err(
            CommandError::Repo(
                RepoErr::PathNotFoundInRevision { path: path.to_owned(), rev: rev.to_owned() },
            ),
        );
    }
    let mut i: usize = 0;
    while i < n
        invariant
            n == keys@.len(),
            i <= n,
            out@.len() == i,
            forall|k: int|
                0 <= k < i ==> (#[trigger] out@[k])@ == key_checkout(
                    source@,
                    index@,
                    listing_option(head),
                    keys@[k]@,
                ),
        decreases n - i,
    {
        out.push(key_checkout_of(source, index, head, keys[i].as_str()));
        i += 1;
    }
    proof {
        assert(checkout_keys(views(out@)) =~= texts(keys@));
    }
    Ok(out)
}

/// How a deleted key leaves the index, and whether the session goes on with an empty database in
/// place of the file being removed.
#[derive(Debug, Clone, Copy, PartialEq, Eq, Structural)]
pub struct CheckoutDeletion {
    pub how: Unstaging,
    pub opens_empty: bool,
}

/// A key that neither the last commit nor the index has is staged as removed all the same.
pub fn stage_checkout_deletion_for_key(
    at_head: bool,
    in_index: bool,
    key: &str,
    current_key: &str,
) -> (r: CheckoutDeletion)
    ensures
        r.how == if !at_head && in_index {
            Unstaging::RestoreIndex
        } else {
            Unstaging::StageRemoval
        },
        r.opens_empty == (key@ == current_key@),
        at_head ==> r.how == Unstaging::StageRemoval,
        r.how == Unstaging::RestoreIndex ==> in_index && !at_head,
{
    let how = if !at_head && in_index {
        Unstaging::RestoreIndex
    } else {
        Unstaging::StageRemoval
    };
    CheckoutDeletion { how, opens_empty: same(key, current_key) }
}

/// A path that a restore would overwrite: a file at a key of the plan that the index does not know
/// and that is not the open database, or a collision below a restored directory.
pub open spec fn restore_overwrites(
    plan: Seq<RestorePlanEntryView>,
    index: PathListingView,
    current_key: Seq<char>,
    is_file: Seq<bool>,
    collisions: Seq<Seq<char>>,
    k: Seq<char>,
) -> bool {
    collisions.contains(k) || exists|i: int|
        0 <= i < plan.len() && (#[trigger] plan[i]).key == k && k != current_key && listed(index, k)
            is None && is_file[i]
}

/// Exactly the texts that `p` holds of, in ascending order.
pub open spec fn is_list_of(list: Seq<Seq<char>>, p: spec_fn(Seq<char>) -> bool) -> bool {
    ascending(list) && forall|k: Seq<char>| #[trigger] list.contains(k) == p(k)
}

/// `is_file` tells for each key of the plan whether there is a file in the worktree.
pub fn ensure_restore_keys_preserve_untracked_paths(
    plan: &Vec<RestorePlanEntry>,
    index: &PathListing,
    current_key: &str,
    is_file: &Vec<bool>,
    collisions: &Vec<String>,
) -> (r: Result<(), CommandError>)
    requires
        plan@.len() == is_file@.len(),
    ensures
        ({
            let p = |k: Seq<char>|
                restore_overwrites(
                    views(plan@),
                    index@,
                    current_key@,
                    is_file@,
                    texts(collisions@),
                    k,
                );
            match r {
                Ok(()) => forall|k: Seq<char>| !#[trigger] p(k),
                Err(e) => exists|list: Seq<Seq<char>>| #[trigger]
                    is_list_of(list, p) && list.len() > 0 && e@ == CommandError::InvalidCommand(
                        "cannot restore because untracked paths would be overwritten: "@ + joined(
                            list,
                            ", "@,
                        ),
                    ),
            }
        }),
{
    let ghost cs = texts(collisions@);
    let ghost all = views(plan@);
    let ghost p = |k: Seq<char>|
        restore_overwrites(all, index@, current_key@, is_file@, cs, k);
    let mut out: Vec<String> = Vec::new();
    let m: usize = collisions.len();
    let mut i: usize = 0;
    proof {
        assert(cs.take(0) =~= Seq::empty());
    }
    while i < m
        invariant
            m == collisions@.len(),
            i <= m,
            cs == texts(collisions@),
            ascending(texts(out@)),
            forall|k: Seq<char>| #[trigger] texts(out@).contains(k) == cs.take(i as int).contains(k),
        decreases m - i,
    {
        proof {
            lemma_take_contains(cs, i as int);
        }
        insert_key(&mut out, collisions[i].as_str());
        i += 1;
    }
    proof {
        assert(cs.take(m as int) =~= cs);
    }
    let n: usize = plan.len();
    let mut j: usize = 0;
    while j < n
        invariant
            n == plan@.len(),
            n == is_file@.len(),
            j <= n,
            all == views(plan@),
            ascending(texts(out@)),
            forall|k: Seq<char>| #[trigger]
                texts(out@).contains(k) == restore_overwrites(
                    all.take(j as int),
                    index@,
                    current_key@,
                    is_file@,
                    cs,
                    k,
                ),
        decreases n - j,
    {
        let key = plan[j].key.as_str();
        let ghost was = texts(out@);
        let hit: bool = is_file[j] && !same(key, current_key) && !index.holds(key);
        if hit {
            insert_key(&mut out, key);
        }
        proof {
            let now = all.take(j as int);
            let next = all.take(j + 1);
            assert(all[j as int] == plan@[j as int]@);
            assert forall|k: Seq<char>| #[trigger] texts(out@).contains(k) == restore_overwrites(
                next,
                index@,
                current_key@,
                is_file@,
                cs,
                k,
            ) by {
                if restore_overwrites(now, index@, current_key@, is_file@, cs, k) && !cs.contains(k) {
                    let q = choose|q: int|
                        0 <= q < now.len() && (#[trigger] now[q]).key == k && k != current_key@
                            && listed(index@, k) is None && is_file@[q];
                    assert(next[q] == now[q]);
                }
                if restore_overwrites(next, index@, current_key@, is_file@, cs, k) && !cs.contains(
                    k,
                ) {
                    let q = choose|q: int|
                        0 <= q < next.len() && (#[trigger] next[q]).key == k && k != current_key@
                            && listed(index@, k) is None && is_file@[q];
                    if q < j {
                        assert(now[q] == next[q]);
                    }
                }
                if hit && k == key@ {
                    assert(next[j as int].key == k);
                }
                assert(was.contains(k) == restore_overwrites(
                    now,
                    index@,
                    current_key@,
                    is_file@,
                    cs,
                    k,
                ));
            }
        }
        j += 1;
    }
    proof {
        assert(all.take(n as int) =~= all);
    }
    if out.len() == 0 {
        proof {
            assert forall|k: Seq<char>| !#[trigger] p(k) by {
                assert(!texts(out@).contains(k));
            }
        }
        return Ok(());
    }
    proof {
        assert(is_list_of(texts(out@), p));
    }
    Err(
        CommandError::InvalidCommand(
            cat2(
                "cannot restore because untracked paths would be overwritten: ",
                join(&out, ", ").as_str(),
            ),
        ),
    )
}

/// What is put in the place of a restored key.
#[derive(Debug, Clone, Copy, PartialEq, Eq, Structural)]
pub enum RestoreStep {
    /// The session goes on with the restored database.
    SwitchSession,
    /// The session goes on with an empty database, and the ordinary file is written.
    EmptySessionAndArtifact,
    /// The session goes on with an empty database.
    EmptySession,
    WriteDatabase,
    WriteArtifact,
    RemoveFile,
    /// A directory stands where a file was: it is left alone.
    Leave,
}

pub open spec fn restore_step(current: bool, restored: Option<RestoredKind>, directory: bool) -> RestoreStep {
    if current {
        match restored {
            Some(RestoredKind::File) => RestoreStep::SwitchSession,
            Some(RestoredKind::Artifact) => RestoreStep::EmptySessionAndArtifact,
            None => RestoreStep::EmptySession,
        }
    } else {
        match restored {
            Some(RestoredKind::File) => RestoreStep::WriteDatabase,
            Some(RestoredKind::Artifact) => RestoreStep::WriteArtifact,
            None => if directory {
                RestoreStep::Leave
            } else {
                RestoreStep::RemoveFile
            },
        }
    }
}

pub fn apply_restored_repo_key(
    key: &str,
    current_key: &str,
    restored: Option<RestoredKind>,
    directory: bool,
) -> (r: RestoreStep)
    ensures
        r == restore_step(key@ == current_key@, restored, directory),
{
    if same(key, current_key) {
        match restored {
            Some(RestoredKind::File) => RestoreStep::SwitchSession,
            Some(RestoredKind::Artifact) => RestoreStep::EmptySessionAndArtifact,
            None => RestoreStep::EmptySession,
        }
    } else {
        match restored {
            Some(RestoredKind::File) => RestoreStep::WriteDatabase,
            Some(RestoredKind::Artifact) => RestoreStep::WriteArtifact,
            None => {
                if directory {
                    RestoreStep::Leave
                } else {
                    RestoreStep::RemoveFile
                }
            },
        }
    }
}

/// What is noted of a key whose index entry was restored: any other than the open database is
/// clean, and that one is where it holds what the index holds now.
pub fn update_worktree_state_after_index_restore_key(
    key: &str,
    current_key: &str,
    matches_index: bool,
) -> (r: DirtyMark)
    ensures
        r == if key@ != current_key@ || matches_index {
            DirtyMark::Clean
        } else {
            DirtyMark::Dirty
        },
        r == DirtyMark::Dirty <==> key@ == current_key@ && !matches_index,
        r != DirtyMark::Deleted,
{
    if !same(key, current_key) || matches_index {
        DirtyMark::Clean
    } else {
        DirtyMark::Dirty
    }
}

/// The path and the paths that a restore answers with: one restored path stands alone.
pub fn json_restore_paths(paths: Vec<String>) -> (r: (Option<String>, Vec<String>))
    ensures
        text_option(r.0) == if paths@.len() == 1 {
            Some(paths@[0]@)
        } else {
            None
        },
        texts(r.1@) == if paths@.len() == 1 {
            Seq::empty()
        } else {
            texts(paths@)
        },
{
    if paths.len() == 1 {
        let rest: Vec<String> = Vec::new();
        proof {
            assert(texts(rest@) =~= Seq::empty());
        }
        (Some(paths[0].clone()), rest)
    } else {
        (None, paths)
    }
}

/// Where an export reads from.
#[derive(Debug, Clone, Copy, PartialEq, Eq, Structural)]
pub enum ExportSource {
    Revision,
    Session,
}

/// Where an export of `key` reads from: the revision that is named, which must have the path as a
/// database, or the open database, which must be the path.
pub open spec fn export_source(
    has_source: bool,
    in_revision: bool,
    key: Seq<char>,
    current_key: Seq<char>,
) -> Result<ExportSource, CommandError<Seq<char>>> {
    if has_source {
        if in_revision {
            Ok(ExportSource::Revision)
        } else {
            Err(CommandError::Repo(RepoErr::PathNotTracked(key)))
        }
    } else if key == current_key {
        Ok(ExportSource::Session)
    } else {
        Err(
            CommandError::InvalidCommand(
                "exporting worktree path `"@ + key
                    + "` requires opening that database path or passing --source"@,
            ),
        )
    }
}

pub fn export_repo_path(has_source: bool, in_revision: bool, key: &str, current_key: &str) -> (r: Result<
    ExportSource,
    CommandError,
>)
    ensures
        match r {
            Ok(source) => export_source(has_source, in_revision, key@, current_key@) == Ok::<
                _,
                CommandError<Seq<char>>,
            >(source),
            Err(e) => export_source(has_source, in_revision, key@, current_key@) == Err::<
                ExportSource,
                _,
            >(e@),
        },
{
    if has_source {
        if in_revision {
            Ok(ExportSource::Revision)
        } else {
            Err(CommandError::Repo(RepoErr::PathNotTracked(key.to_owned())))
        }
    } else if same(key, current_key) {
        Ok(ExportSource::Session)
    } else {
        Err(
            CommandError::InvalidCommand(
                cat3(
                    "exporting worktree path `",
                    key,
                    "` requires opening that database path or passing --source",
                ),
            ),
        )
    }
}

/// Whether an entry of the index is one that a merge staged.
pub open spec fn is_merged(e: IndexEntryView, staged: Seq<Seq<char>>) -> bool {
    e.stage == IndexStage::Normal && staged.contains(e.path)
}

/// The databases and ordinary files that a merge staged, by the first `n` entries of the index.
pub open spec fn merged_paths(
    entries: Seq<IndexEntryView>,
    staged: Seq<Seq<char>>,
    n: int,
) -> PathListingView
    decreases n,
{
    if n <= 0 {
        PathListing { files: Seq::empty(), artifacts: Seq::empty() }
    } else {
        let so_far = merged_paths(entries, staged, n - 1);
        let e = entries[n - 1];
        if !is_merged(e, staged) {
            so_far
        } else if e.file is Some {
            PathListing { files: so_far.files.push(e.path), artifacts: so_far.artifacts }
        } else if e.artifact is Some {
            PathListing {
                files: so_far.files,
                artifacts: so_far.artifacts.push(
                    PathArtifact { path: e.path, state: e.artifact->0 },
                ),
            }
        } else {
            so_far
        }
    }
}

pub fn checkout_merged_repo_paths(
    entries: Vec<IndexEntry>,
    staged: &Vec<String>,
) -> (r: PathListing)
    ensures
        r@ == merged_paths(views(entries@), texts(staged@), entries@.len() as int),
{
    let ghost all = views(entries@);
    let mut files: Vec<String> = Vec::new();
    let mut artifacts: Vec<PathArtifact> = Vec::new();
    proof {
        assert(texts(files@) =~= Seq::empty());
        assert(views(artifacts@) =~= Seq::empty());
    }
    for e in it: entries
        invariant
            all == views(it.seq()),
            (PathListing { files: texts(files@), artifacts: views(artifacts@) }) == merged_paths(
                all,
                texts(staged@),
                it.index() as int,
            ),
    {
        proof {
            assert(all[it.index() as int] == e@);
        }
        if e.stage == IndexStage::Normal && lists(staged, e.path.as_str()) {
            if e.file.is_some() {
                proof {
                    lemma_texts_push(files@, e.path);
                }
                files.push(e.path);
            } else if let Some(state) = e.artifact {
                let a = PathArtifact { path: e.path, state };
                proof {
                    assert(views(artifacts@.push(a)) =~= views(artifacts@).push(a@));
                }
                artifacts.push(a);
            }
        }
    }
    PathListing { files, artifacts }
}

fn artifacts_within(list: Vec<PathArtifact>, keys: &Vec<String>) -> (r: Vec<PathArtifact>)
    ensures
        views(r@) == views(list@).filter(|e: PathArtifactView| texts(keys@).contains(e.path)),
{
    let ghost all = views(list@);
    let ghost keep = |e: PathArtifactView| texts(keys@).contains(e.path);
    let mut out: Vec<PathArtifact> = Vec::new();
    proof {
        reveal(Seq::filter);
        assert(all.take(0) =~= Seq::empty());
        assert(views(out@) =~= Seq::empty());
    }
    for e in it: list
        invariant
            all == views(it.seq()),
            keep == (|e: PathArtifactView| texts(keys@).contains(e.path)),
            views(out@) == all.take(it.index() as int).filter(keep),
    {
        proof {
            reveal(Seq::filter);
            let i = it.index() as int;
            assert(all.take(i + 1).drop_last() =~= all.take(i));
            assert(all.take(i + 1).last() == e@);
            assert(views(out@.push(e)) =~= views(out@).push(e@));
        }
        if lists(keys, e.path.as_str()) {
            out.push(e);
        }
    }
    proof {
        assert(all.take(all.len() as int) =~= all);
    }
    out
}

fn files_within(list: Vec<String>, keys: &Vec<String>) -> (r: Vec<String>)
    ensures
        texts(r@) == texts(list@).filter(|k: Seq<char>| texts(keys@).contains(k)),
{
    let ghost all = texts(list@);
    let ghost keep = |k: Seq<char>| texts(keys@).contains(k);
    let mut out: Vec<String> = Vec::new();
    proof {
        reveal(Seq::filter);
        assert(all.take(0) =~= Seq::empty());
        assert(texts(out@) =~= Seq::empty());
    }
    for e in it: list
        invariant
            all == texts(it.seq()),
            keep == (|k: Seq<char>| texts(keys@).contains(k)),
            texts(out@) == all.take(it.index() as int).filter(keep),
    {
        proof {
            reveal(Seq::filter);
            let i = it.index() as int;
            assert(all.take(i + 1).drop_last() =~= all.take(i));
            assert(all.take(i + 1).last() == e@);
            lemma_texts_push(out@, e);
        }
        if lists(keys, e.as_str()) {
            out.push(e);
        }
    }
    proof {
        assert(all.take(all.len() as int) =~= all);
    }
    out
}

/// What a listing holds at the given keys.
pub fn listing_within(listing: PathListing, keys: &Vec<String>) -> (r: PathListing)
    ensures
        r@ == (PathListing {
            files: listing@.files.filter(|k: Seq<char>| texts(keys@).contains(k)),
            artifacts: listing@.artifacts.filter(
                |e: PathArtifactView| texts(keys@).contains(e.path),
            ),
        }),
{
    PathListing {
        files: files_within(listing.files, keys),
        artifacts: artifacts_within(listing.artifacts, keys),
    }
}

} // verus!
