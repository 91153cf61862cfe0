//! What a restore looks at in the worktree before it changes anything, and what it notes afterwards.
use vstd::prelude::*;
use vstd::string::*;

use crate::checkout::{artifact_of, find_artifact, listed, PathListing, PathListingView};
use crate::diff::{key_matches, repo_key_matches_filter, PathState};
use crate::error::{invalid, invalid_command, seen, CommandError};
use crate::model::CommitArtifactState;
use crate::restore::{
    collides, component_step, dirty_mark, preflight_restore_component, restore_collides,
    update_restored_worktree_state_key, ComponentStep, DirtyMark, RestorePlanEntry,
    RestorePlanEntryView, RestoredKind,
};
use crate::show::views;
use crate::text::{cat3, join, joined, lemma_texts_push, parts, same, split, texts};

verus! {

/// A part of a key that names something; the others are passed over.
pub open spec fn is_component(part: Seq<char>) -> bool {
    part.len() > 0 && part != "."@
}

/// The components of a key, from the worktree inwards.
pub open spec fn key_components(key: Seq<char>) -> Seq<Seq<char>> {
    parts(key, '/').filter(|p: Seq<char>| is_component(p))
}

pub fn restore_components(key: &str) -> (r: Vec<String>)
    ensures
        texts(r@) == key_components(key@),
{
    let ghost all = parts(key@, '/');
    let ghost keep = |p: Seq<char>| is_component(p);
    let list = split(key, '/');
    let mut out: Vec<String> = Vec::new();
    let n: usize = list.len();
    let mut i: usize = 0;
    proof {
        reveal(Seq::filter);
        assert(all.take(0) =~= Seq::empty());
        assert(texts(out@) =~= Seq::empty());
    }
    while i < n
        invariant
            n == list@.len(),
            i <= n,
            all == texts(list@),
            keep == (|p: Seq<char>| is_component(p)),
            texts(out@) == all.take(i as int).filter(keep),
        decreases n - i,
    {
        let part = list[i].clone();
        proof {
            reveal(Seq::filter);
            assert(all.take(i + 1).drop_last() =~= all.take(i as int));
            assert(all.take(i + 1).last() == part@);
            lemma_texts_push(out@, part);
        }
        if !part.as_str().is_empty() && !same(part.as_str(), ".") {
            out.push(part);
        }
        i += 1;
    }
    proof {
        assert(all.take(n as int) =~= all);
    }
    out
}

/// The plan deletes a key.
pub open spec fn deletes_key(plan: Seq<RestorePlanEntryView>, key: Seq<char>) -> bool {
    exists|i: int| 0 <= i < plan.len() && (#[trigger] plan[i]).restored is None && plan[i].key == key
}

/// The plan restores a key, or one below it.
pub open spec fn restores_below(plan: Seq<RestorePlanEntryView>, key: Seq<char>) -> bool {
    exists|i: int|
        0 <= i < plan.len() && (#[trigger] plan[i]).restored is Some && key_matches(plan[i].key, key)
}

pub fn plan_deletes_key(plan: &Vec<RestorePlanEntry>, key: &str) -> (r: bool)
    ensures
        r == deletes_key(views(plan@), key@),
{
    let n: usize = plan.len();
    let mut i: usize = 0;
    while i < n
        invariant
            n == plan@.len(),
            i <= n,
            forall|k: int|
                0 <= k < i ==> !((#[trigger] views(plan@)[k]).restored is None && views(plan@)[k].key
                    == key@),
        decreases n - i,
    {
        proof {
            assert(views(plan@)[i as int] == plan@[i as int]@);
        }
        if plan[i].restored.is_none() && same(plan[i].key.as_str(), key) {
            return true;
        }
        i += 1;
    }
    false
}

pub fn plan_restores_below(plan: &Vec<RestorePlanEntry>, key: &str) -> (r: bool)
    ensures
        r == restores_below(views(plan@), key@),
{
    let n: usize = plan.len();
    let mut i: usize = 0;
    while i < n
        invariant
            n == plan@.len(),
            i <= n,
            forall|k: int|
                0 <= k < i ==> !((#[trigger] views(plan@)[k]).restored is Some && key_matches(
                    views(plan@)[k].key,
                    key@,
                )),
        decreases n - i,
    {
        proof {
            assert(views(plan@)[i as int] == plan@[i as int]@);
        }
        if plan[i].restored.is_some() && repo_key_matches_filter(plan[i].key.as_str(), key) {
            return true;
        }
        i += 1;
    }
    false
}

/// The first `n` parts of a key, or all of them.
pub open spec fn key_prefix(key: Seq<char>, n: int) -> Seq<char> {
    let p = parts(key, '/');
    joined(
        p.take(
            if n < p.len() {
                n
            } else {
                p.len() as int
            },
        ),
        "/"@,
    )
}

fn prefix_of(key: &str, n: usize) -> (r: String)
    ensures
        r@ == key_prefix(key@, n as int),
{
    let list = split(key, '/');
    let ghost all = texts(list@);
    let mut front: Vec<String> = Vec::new();
    let m: usize = if n < list.len() {
        n
    } else {
        list.len()
    };
    let mut i: usize = 0;
    proof {
        assert(texts(front@) =~= all.take(0));
    }
    while i < m
        invariant
            m <= list@.len(),
            i <= m,
            all == texts(list@),
            texts(front@) == all.take(i as int),
        decreases m - i,
    {
        let part = list[i].clone();
        proof {
            lemma_texts_push(front@, part);
            assert(all.take(i + 1) =~= all.take(i as int).push(part@));
        }
        front.push(part);
        i += 1;
    }
    join(&front, "/")
}

/// The step that what stands at a component of a planned key leads to.
pub open spec fn planned_step(
    plan: Seq<RestorePlanEntryView>,
    at: int,
    place: int,
    standing: PathState,
) -> ComponentStep {
    let key = plan[at].key;
    component_step(
        standing,
        place + 1 == key_components(key).len(),
        plan[at].restored is Some,
        restores_below(plan, key),
        deletes_key(plan, key_prefix(key, place + 1)),
    )
}

/// Looks at the component at `place` of the planned key at `at`, where `shown` stands. Tells whether
/// the next one has to be looked at; refuses what a restore cannot replace.
pub fn preflight_restore_step(
    plan: &Vec<RestorePlanEntry>,
    at: usize,
    place: usize,
    standing: PathState,
    shown: &str,
) -> (r: Result<bool, CommandError>)
    requires
        at < plan@.len(),
        place < key_components(plan@[at as int]@.key).len(),
    ensures
        seen(r) == match planned_step(views(plan@), at as int, place as int, standing) {
            ComponentStep::Continue => Ok(true),
            ComponentStep::Done => Ok(false),
            ComponentStep::NotRegularFile => invalid(
                "path `"@ + shown@ + "` is not a regular file"@,
            ),
            ComponentStep::NotDirectory => invalid(
                "path ancestor `"@ + shown@ + "` is not a directory"@,
            ),
        },
{
    let key = plan[at].key.as_str();
    let count: usize = restore_components(key).len();
    proof {
        assert(views(plan@)[at as int] == plan@[at as int]@);
        assert(key_components(key@).len() == count);
    }
    let prefix = prefix_of(key, place + 1);
    let step = preflight_restore_component(
        standing,
        place + 1 == count,
        plan[at].restored.is_some(),
        plan_restores_below(plan, key),
        plan_deletes_key(plan, prefix.as_str()),
    );
    match step {
        ComponentStep::Continue => Ok(true),
        ComponentStep::Done => Ok(false),
        ComponentStep::NotRegularFile => Err(
            invalid_command(cat3("path `", shown, "` is not a regular file").as_str()),
        ),
        ComponentStep::NotDirectory => Err(
            invalid_command(cat3("path ancestor `", shown, "` is not a directory").as_str()),
        ),
    }
}

/// Something that stands below a directory which a restore replaces is in its way: it is no file, or
/// the plan does not delete it, or nobody knows it.
pub open spec fn in_the_way(
    plan: Seq<RestorePlanEntryView>,
    index: PathListingView,
    current_key: Seq<char>,
    key: Seq<char>,
    standing: PathState,
) -> bool {
    collides(
        standing == PathState::SqliteFile || standing == PathState::PlainFile,
        deletes_key(plan, key),
        listed(index, key) is Some,
        key == current_key,
    )
}

/// Decides whether what stands at `key`, which is no directory, is in the way of a restore.
pub fn is_in_the_way(
    plan: &Vec<RestorePlanEntry>,
    index: &PathListing,
    current_key: &str,
    key: &str,
    standing: PathState,
) -> (r: bool)
    ensures
        r == in_the_way(views(plan@), index@, current_key@, key@, standing),
{
    restore_collides(
        standing == PathState::SqliteFile || standing == PathState::PlainFile,
        plan_deletes_key(plan, key),
        index.holds(key),
        same(key, current_key),
    )
}

fn same_artifact_state(a: &CommitArtifactState, b: &CommitArtifactState) -> (r: bool)
    ensures
        r == (a@ == b@),
{
    a.large == b.large && a.kind == b.kind && same(a.oid.as_str(), b.oid.as_str()) && a.size == b.size
        && same(a.content_hash.as_str(), b.content_hash.as_str())
}

/// Two listings hold the same ordinary file under a key.
pub open spec fn same_artifact(source: PathListingView, index: PathListingView, key: Seq<char>) -> bool {
    artifact_of(source, key) is Some && artifact_of(source, key) == artifact_of(index, key)
}

fn holds_same_artifact(source: &PathListing, index: &PathListing, key: &str) -> (r: bool)
    ensures
        r == same_artifact(source@, index@, key@),
{
    match (find_artifact(&source.artifacts, key), find_artifact(&index.artifacts, key)) {
        (Some(a), Some(b)) => same_artifact_state(a, b),
        _ => false,
    }
}

/// What is noted of a planned key once it is restored from `source`: databases are the same where
/// `same_database` says so, ordinary files where both listings hold the same.
pub open spec fn restored_mark_of(
    entry: RestorePlanEntryView,
    source: PathListingView,
    index: PathListingView,
    same_database: bool,
) -> DirtyMark {
    dirty_mark(
        entry.restored,
        index.files.contains(entry.key),
        artifact_of(index, entry.key) is Some,
        if entry.restored == Some(RestoredKind::File) {
            same_database
        } else {
            same_artifact(source, index, entry.key)
        },
    )
}

pub fn restored_mark(
    entry: &RestorePlanEntry,
    source: &PathListing,
    index: &PathListing,
    same_database: bool,
) -> (r: DirtyMark)
    ensures
        r == restored_mark_of(entry@, source@, index@, same_database),
{
    let key = entry.key.as_str();
    let same_content: bool = match entry.restored {
        Some(RestoredKind::File) => same_database,
        _ => holds_same_artifact(source, index, key),
    };
    update_restored_worktree_state_key(
        entry.restored,
        index.has_file(key),
        index.has_artifact(key),
        same_content,
    )
}

} // verus!
