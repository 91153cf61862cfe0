//! Restoring paths from a revision or from the index.
use vstd::prelude::*;
use vstd::string::*;

use crate::checkout::{
    artifact_of, current_descriptor, current_key_path_detail, listed, listing_keys,
    listing_option, Descriptor, PathListing, PathListingView,
};
use crate::diff::{key_matches, repo_key_matches_filter, PathState};
use crate::error::{invalid, invalid_command, seen, CommandError, RepoErr};
use crate::order::{ascending, before, insert_key, is_before, lemma_take_contains, lists};
use crate::paths::{is_entry_name, names_entry};
use crate::show::views;
use crate::spec::{RepoPathStorage, RepoRestoreSpec, RepoTrackedPathKind};
use crate::text::{
    cat3, cat4, cat5, chars_of, has_prefix, lemma_some_part, parts, same, split, starts_with,
    text_range, texts,
};
use crate::words::Host;

verus! {

/// Whether a restore takes all staged paths or the one path that it names.
#[derive(Debug, Clone, Copy, PartialEq, Eq, Structural)]
pub enum RestoreRoute {
    AllStaged,
    Path,
}

/// What a restore does first, or why it is refused: the head is not the expected one, the
/// repository is not clean where it has to be, or the index has conflicts.
pub open spec fn restore_route(
    spec: RepoRestoreSpec<Seq<char>>,
    current_head: Seq<char>,
    work_in_progress: bool,
    index_conflicts: bool,
) -> Result<RestoreRoute, CommandError<Seq<char>>> {
    if spec.expected_head is Some && spec.expected_head->0 != current_head {
        invalid(
            "cannot restore because HEAD changed: expected "@ + spec.expected_head->0
                + ", found "@ + current_head,
        )
    } else if spec.require_clean && work_in_progress {
        invalid("cannot restore because the repository has staged or tracked worktree changes"@)
    } else if index_conflicts {
        Err(CommandError::Repo(RepoErr::UnresolvedConflicts))
    } else if spec.all {
        Ok(RestoreRoute::AllStaged)
    } else if spec.path is None {
        invalid("restore requires a path unless --staged --all is used"@)
    } else {
        Ok(RestoreRoute::Path)
    }
}

pub fn restore_repo_path(
    spec: &RepoRestoreSpec,
    current_head: &str,
    work_in_progress: bool,
    index_conflicts: bool,
) -> (r: Result<RestoreRoute, CommandError>)
    ensures
        match r {
            Ok(route) => restore_route(spec@, current_head@, work_in_progress, index_conflicts)
                == Ok::<_, CommandError<Seq<char>>>(route),
            Err(e) => restore_route(spec@, current_head@, work_in_progress, index_conflicts)
                == Err::<RestoreRoute, _>(e@),
        },
{
    if let Some(expected) = &spec.expected_head {
        if !same(expected.as_str(), current_head) {
            return Err(
                CommandError::InvalidCommand(
                    cat4(
                        "cannot restore because HEAD changed: expected ",
                        expected.as_str(),
                        ", found ",
                        current_head,
                    ),
                ),
            );
        }
    }
    if spec.require_clean && work_in_progress {
        return Err(
            invalid_command(
                "cannot restore because the repository has staged or tracked worktree changes",
            ),
        );
    }
    if index_conflicts {
        return Err(CommandError::Repo(RepoErr::UnresolvedConflicts));
    }
    if spec.all {
        return Ok(RestoreRoute::AllStaged);
    }
    if spec.path.is_none() {
        return Err(invalid_command("restore requires a path unless --staged --all is used"));
    }
    Ok(RestoreRoute::Path)
}

/// Some key lies below `key`.
pub open spec fn has_below(keys: Seq<Seq<char>>, key: Seq<char>) -> bool {
    exists|i: int| 0 <= i < keys.len() && is_below(#[trigger] keys[i], key)
}

/// `candidate` lies below `key`; below the empty key lies every other.
pub open spec fn is_below(candidate: Seq<char>, key: Seq<char>) -> bool {
    candidate != key && key_matches(candidate, key)
}

/// Whether a restored path is a directory, now or where it is restored from.
pub fn restores_directory(keys: &Vec<String>, key: &str, is_directory: bool) -> (r: bool)
    ensures
        r == (is_directory || has_below(texts(keys@), key@)),
{
    if is_directory {
        return true;
    }
    let mut i: usize = 0;
    while i < keys.len()
        invariant
            i <= keys@.len(),
            forall|j: int| 0 <= j < i ==> !is_below(#[trigger] texts(keys@)[j], key@),
        decreases keys@.len() - i,
    {
        if !same(keys[i].as_str(), key) && repo_key_matches_filter(keys[i].as_str(), key) {
            proof {
                assert(is_below(texts(keys@)[i as int], key@));
            }
            return true;
        }
        i += 1;
    }
    false
}

/// A key is restored by a path: it matches it, and the place that is restored from or the index
/// holds it.
pub open spec fn restored_by(
    place: Option<PathListingView>,
    index: PathListingView,
    index_keys: Seq<Seq<char>>,
    filter: Seq<char>,
    key: Seq<char>,
) -> bool {
    &&& key_matches(key, filter)
    &&& (place matches Some(p) && listed(p, key) is Some) || listed(index, key) is Some
        || index_keys.contains(key)
}

/// Adds the keys that a path names, in order.
pub fn add_matching(out: &mut Vec<String>, keys: &Vec<String>, filter: &str)
    requires
        ascending(texts(old(out)@)),
    ensures
        ascending(texts(final(out)@)),
        forall|k: Seq<char>| #[trigger]
            texts(final(out)@).contains(k) == (texts(old(out)@).contains(k) || (texts(
                keys@,
            ).contains(k) && key_matches(k, filter@))),
{
    let ghost all = texts(keys@);
    let mut i: usize = 0;
    proof {
        assert(all.take(0) =~= Seq::empty());
    }
    while i < keys.len()
        invariant
            i <= keys@.len(),
            all == texts(keys@),
            ascending(texts(out@)),
            forall|k: Seq<char>| #[trigger]
                texts(out@).contains(k) == (texts(old(out)@).contains(k) || (all.take(
                    i as int,
                ).contains(k) && key_matches(k, filter@))),
        decreases keys@.len() - i,
    {
        proof {
            lemma_take_contains(all, i as int);
            assert(all[i as int] == keys@[i as int]@);
        }
        if repo_key_matches_filter(keys[i].as_str(), filter) {
            insert_key(out, keys[i].as_str());
        }
        i += 1;
    }
    proof {
        assert(all.take(i as int) =~= all);
    }
}

/// The keys that a path restores, in ascending order. `place` is what is restored from: the source
/// revision, or the last commit where the index is restored.
pub fn restore_keys_for_pathspec(
    place: Option<&PathListing>,
    index: &PathListing,
    index_keys: &Vec<String>,
    filter: &str,
) -> (r: Vec<String>)
    ensures
        ascending(texts(r@)),
        forall|k: Seq<char>| #[trigger]
            texts(r@).contains(k) == restored_by(
                listing_option(place),
                index@,
                texts(index_keys@),
                filter@,
                k,
            ),
{
    let mut out: Vec<String> = Vec::new();
    if let Some(place) = place {
        let keys = listing_keys(place);
        add_matching(&mut out, &keys, filter);
    }
    let keys = listing_keys(index);
    add_matching(&mut out, &keys, filter);
    add_matching(&mut out, index_keys, filter);
    out
}

/// The keys that a path checks out of a revision, in ascending order.
pub fn checkout_keys_for_revision_pathspec(
    commit: &PathListing,
    index: &PathListing,
    filter: &str,
) -> (r: Vec<String>)
    ensures
        ascending(texts(r@)),
        forall|k: Seq<char>| #[trigger]
            texts(r@).contains(k) == (key_matches(k, filter@) && (listed(commit@, k) is Some
                || listed(index@, k) is Some)),
{
    let mut out: Vec<String> = Vec::new();
    let keys = listing_keys(commit);
    add_matching(&mut out, &keys, filter);
    let keys = listing_keys(index);
    add_matching(&mut out, &keys, filter);
    out
}

/// What a restore puts at a key.
#[derive(Debug, Clone, Copy, PartialEq, Eq, Structural)]
pub enum RestoredKind {
    File,
    Artifact,
}

pub open spec fn restored_kind(source: PathListingView, key: Seq<char>) -> Option<RestoredKind> {
    if source.files.contains(key) {
        Some(RestoredKind::File)
    } else if artifact_of(source, key) is Some {
        Some(RestoredKind::Artifact)
    } else {
        None
    }
}

/// A key, what is put there, and what it holds or held; nothing put there is a deletion.
#[derive(Debug, Clone, PartialEq, Eq)]
pub struct RestorePlanEntry<S = String> {
    pub key: S,
    pub restored: Option<RestoredKind>,
    pub kind: RepoTrackedPathKind,
    pub storage: RepoPathStorage,
}

pub type RestorePlanEntryView = RestorePlanEntry<Seq<char>>;

impl View for RestorePlanEntry<String> {
    type V = RestorePlanEntryView;

    open spec fn view(&self) -> RestorePlanEntryView {
        RestorePlanEntry {
            key: self.key@,
            restored: self.restored,
            kind: self.kind,
            storage: self.storage,
        }
    }
}

/// A key can be restored to nothing: the index names it, or, with a source, the index or the last
/// commit holds it.
pub open spec fn can_delete(
    has_source: bool,
    index: PathListingView,
    index_keys: Seq<Seq<char>>,
    head: Option<PathListingView>,
    key: Seq<char>,
) -> bool {
    index_keys.contains(key) || (has_source && (listed(index, key) is Some || (head matches Some(h)
        && listed(h, key) is Some)))
}

pub fn can_plan_restore_deletion(
    has_source: bool,
    index: &PathListing,
    index_keys: &Vec<String>,
    head: Option<&PathListing>,
    key: &str,
) -> (r: bool)
    ensures
        r == can_delete(has_source, index@, texts(index_keys@), listing_option(head), key@),
{
    if lists(index_keys, key) {
        return true;
    }
    if !has_source {
        return false;
    }
    if index.holds(key) {
        return true;
    }
    match head {
        Some(h) => h.holds(key),
        None => false,
    }
}

/// The first text from `i` on that lies below another.
pub open spec fn below_at(keys: Seq<Seq<char>>, parent: Seq<char>, i: int) -> Option<int>
    decreases keys.len() - i,
{
    if i >= keys.len() {
        None
    } else if is_below(keys[i], parent) {
        Some(i)
    } else {
        below_at(keys, parent, i + 1)
    }
}

/// The first key from `i` on below which another lies.
pub open spec fn parent_at(keys: Seq<Seq<char>>, i: int) -> Option<int>
    decreases keys.len() - i,
{
    if i >= keys.len() {
        None
    } else if below_at(keys, keys[i], 0) is Some {
        Some(i)
    } else {
        parent_at(keys, i + 1)
    }
}

/// No restored file lies below another.
pub open spec fn path_conflicts(keys: Seq<Seq<char>>) -> Result<(), CommandError<Seq<char>>> {
    match parent_at(keys, 0) {
        None => Ok(()),
        Some(i) => invalid(
            "cannot restore file `"@ + keys[i] + "` together with descendant `"@ + keys[below_at(
                keys,
                keys[i],
                0,
            )->0] + "`"@,
        ),
    }
}

fn find_below(keys: &Vec<String>, parent: &str) -> (r: Option<usize>)
    ensures
        match r {
            Some(i) => below_at(texts(keys@), parent@, 0) == Some(i as int) && i < keys@.len(),
            None => below_at(texts(keys@), parent@, 0) is None,
        },
{
    let ghost all = texts(keys@);
    let mut i: usize = 0;
    while i < keys.len()
        invariant
            i <= keys@.len(),
            all == texts(keys@),
            below_at(all, parent@, 0) == below_at(all, parent@, i as int),
        decreases keys@.len() - i,
    {
        if !same(keys[i].as_str(), parent) && repo_key_matches_filter(keys[i].as_str(), parent) {
            return Some(i);
        }
        i += 1;
    }
    None
}

/// Refuses to restore a file together with one below it; the keys ascend.
pub fn validate_restore_plan_path_conflicts(keys: &Vec<String>) -> (r: Result<(), CommandError>)
    ensures
        match r {
            Ok(()) => path_conflicts(texts(keys@)) is Ok,
            Err(e) => path_conflicts(texts(keys@)) == Err::<(), _>(e@),
        },
{
    let ghost all = texts(keys@);
    let mut i: usize = 0;
    while i < keys.len()
        invariant
            i <= keys@.len(),
            all == texts(keys@),
            parent_at(all, 0) == parent_at(all, i as int),
        decreases keys@.len() - i,
    {
        let parent = keys[i].as_str();
        if let Some(j) = find_below(keys, parent) {
            proof {
                assert(all[i as int] == parent@);
                assert(all[j as int] == keys@[j as int]@);
            }
            return Err(
                CommandError::InvalidCommand(
                    cat5(
                        "cannot restore file `",
                        parent,
                        "` together with descendant `",
                        keys[j].as_str(),
                        "`",
                    ),
                ),
            );
        }
        i += 1;
    }
    Ok(())
}

/// What a restore reads.
pub struct RestoreSources<'a> {
    /// What is restored from: the source revision, or the index.
    pub source: &'a PathListing,
    /// A source revision was named.
    pub has_source: bool,
    pub index: &'a PathListing,
    pub index_keys: &'a Vec<String>,
    pub head: Option<&'a PathListing>,
}

/// The plan for one key.
pub open spec fn plan_key(s: RestoreSources, key: Seq<char>) -> Result<
    RestorePlanEntryView,
    CommandError<Seq<char>>,
> {
    let restored = restored_kind(s.source@, key);
    if restored is None && !can_delete(
        s.has_source,
        s.index@,
        texts(s.index_keys@),
        listing_option(s.head),
        key,
    ) {
        invalid("path `"@ + key + "` is not tracked"@)
    } else {
        let d = match restored {
            Some(_) => listed(s.source@, key)->0,
            None => current_descriptor(s.index@, listing_option(s.head), key),
        };
        Ok(RestorePlanEntry { key, restored, kind: d.0, storage: d.1 })
    }
}

/// The plan for the first `n` keys.
pub open spec fn plan_keys(s: RestoreSources, keys: Seq<Seq<char>>, n: int) -> Result<
    Seq<RestorePlanEntryView>,
    CommandError<Seq<char>>,
>
    decreases n,
{
    if n <= 0 {
        Ok(Seq::empty())
    } else {
        match plan_keys(s, keys, n - 1) {
            Err(e) => Err(e),
            Ok(plan) => match plan_key(s, keys[n - 1]) {
                Err(e) => Err(e),
                Ok(entry) => Ok(plan.push(entry)),
            },
        }
    }
}

/// The ascending list of the keys that are restored to something.
pub open spec fn is_restored_list(
    s: RestoreSources,
    keys: Seq<Seq<char>>,
    restored: Seq<Seq<char>>,
) -> bool {
    &&& ascending(restored)
    &&& forall|k: Seq<char>| #[trigger]
        restored.contains(k) == (keys.contains(k) && listed(s.source@, k) is Some)
}

proof fn lemma_plan_err(s: RestoreSources, keys: Seq<Seq<char>>, k: int, n: int)
    requires
        0 <= k <= n,
        plan_keys(s, keys, k) is Err,
    ensures
        plan_keys(s, keys, n) == plan_keys(s, keys, k),
    decreases n - k,
{
    if k < n {
        lemma_plan_err(s, keys, k, n - 1);
    }
}

fn plan_one_key(s: &RestoreSources, key: &str) -> (r: Result<RestorePlanEntry, CommandError>)
    ensures
        seen(r) == plan_key(*s, key@),
{
    let restored = if s.source.has_file(key) {
        Some(RestoredKind::File)
    } else if s.source.has_artifact(key) {
        Some(RestoredKind::Artifact)
    } else {
        None
    };
    if restored.is_none() && !can_plan_restore_deletion(
        s.has_source,
        s.index,
        s.index_keys,
        s.head,
        key,
    ) {
        return Err(
            CommandError::InvalidCommand(cat3("path `", key, "` is not tracked")),
        );
    }
    let (kind, storage): Descriptor = match s.source.describe(key) {
        Some(d) => d,
        None => current_key_path_detail(s.index, s.head, key),
    };
    Ok(RestorePlanEntry { key: key.to_owned(), restored, kind, storage })
}

/// What a restore does to each key, or why it is refused.
pub fn plan_restore_repo_keys(s: &RestoreSources, keys: &Vec<String>) -> (r: Result<
    Vec<RestorePlanEntry>,
    CommandError,
>)
    ensures
        exists|restored: Seq<Seq<char>>| #[trigger]
            is_restored_list(*s, texts(keys@), restored) && match r {
                Ok(plan) => path_conflicts(restored) is Ok && plan_keys(
                    *s,
                    texts(keys@),
                    keys@.len() as int,
                ) == Ok::<_, CommandError<Seq<char>>>(views(plan@)),
                Err(e) => if path_conflicts(restored) is Err {
                    path_conflicts(restored) == Err::<(), _>(e@)
                } else {
                    plan_keys(*s, texts(keys@), keys@.len() as int) == Err::<
                        Seq<RestorePlanEntryView>,
                        _,
                    >(e@)
                },
            },
{
    let ghost all = texts(keys@);
    let mut restored: Vec<String> = Vec::new();
    let mut n: usize = 0;
    proof {
        assert(all.take(0) =~= Seq::empty());
    }
    while n < keys.len()
        invariant
            n <= keys@.len(),
            all == texts(keys@),
            ascending(texts(restored@)),
            forall|k: Seq<char>| #[trigger]
                texts(restored@).contains(k) == (all.take(n as int).contains(k) && listed(
                    s.source@,
                    k,
                ) is Some),
        decreases keys@.len() - n,
    {
        proof {
            lemma_take_contains(all, n as int);
            assert(all[n as int] == keys@[n as int]@);
        }
        if s.source.holds(keys[n].as_str()) {
            insert_key(&mut restored, keys[n].as_str());
        }
        n += 1;
    }
    proof {
        assert(all.take(n as int) =~= all);
        assert(is_restored_list(*s, all, texts(restored@)));
    }
    match validate_restore_plan_path_conflicts(&restored) {
        Ok(()) => {},
        Err(e) => return Err(e),
    }
    let mut plan: Vec<RestorePlanEntry> = Vec::new();
    let mut i: usize = 0;
    proof {
        assert(views(plan@) =~= Seq::empty());
    }
    while i < keys.len()
        invariant
            i <= keys@.len(),
            all == texts(keys@),
            is_restored_list(*s, all, texts(restored@)),
            path_conflicts(texts(restored@)) is Ok,
            plan_keys(*s, all, i as int) == Ok::<_, CommandError<Seq<char>>>(views(plan@)),
        decreases keys@.len() - i,
    {
        proof {
            assert(all[i as int] == keys@[i as int]@);
        }
        match plan_one_key(s, keys[i].as_str()) {
            Ok(entry) => {
                proof {
                    assert(views(plan@.push(entry)) =~= views(plan@).push(entry@));
                }
                plan.push(entry);
            },
            Err(e) => {
                proof {
                    lemma_plan_err(*s, all, i + 1, keys@.len() as int);
                }
                return Err(e);
            },
        }
        i += 1;
    }
    Ok(plan)
}

/// A part of a key that names a directory or a file.
pub open spec fn is_component(part: Seq<char>) -> bool {
    part.len() > 0 && part != "."@
}

/// How many directories deep a key of a repository lies, counting itself.
pub open spec fn depth(key: Seq<char>) -> nat {
    let named = parts(key, '/').filter(|p: Seq<char>| is_component(p)).len();
    let lead: nat = if has_prefix(key, "/"@) || key == "."@ || has_prefix(key, "./"@) {
        1
    } else {
        0
    };
    named + lead
}

fn count_components(key: &str) -> (r: u128)
    ensures
        r == depth(key@),
{
    let ps = split(key, '/');
    let ghost all = texts(ps@);
    let ghost keep = |p: Seq<char>| is_component(p);
    let mut n: usize = 0;
    let mut i: usize = 0;
    proof {
        reveal(Seq::filter);
        assert(all.take(0) =~= Seq::empty());
    }
    while i < ps.len()
        invariant
            i <= ps@.len(),
            all == texts(ps@),
            keep == (|p: Seq<char>| is_component(p)),
            n == all.take(i as int).filter(keep).len(),
            n <= i,
        decreases ps@.len() - i,
    {
        proof {
            reveal(Seq::filter);
            assert(all.take(i + 1).drop_last() =~= all.take(i as int));
            assert(all.take(i + 1).last() == ps@[i as int]@);
        }
        if !ps[i].as_str().is_empty() && !same(ps[i].as_str(), ".") {
            n += 1;
        }
        i += 1;
    }
    proof {
        assert(all.take(i as int) =~= all);
    }
    if starts_with(key, "/") || same(key, ".") || starts_with(key, "./") {
        n as u128 + 1
    } else {
        n as u128
    }
}

/// The number of components of a key.
pub fn restore_key_depth(key: &str) -> (r: usize)
    requires
        depth(key@) <= usize::MAX,
    ensures
        r == depth(key@),
{
    count_components(key) as usize
}

/// An entry is applied before another: deletions from the deepest up, the others from the top
/// down, and those of one depth in ascending order.
pub open spec fn applied_before(a: Seq<char>, b: Seq<char>, deletions: bool) -> bool {
    if depth(a) == depth(b) {
        before(a, b)
    } else {
        (depth(a) > depth(b)) == deletions
    }
}

fn is_applied_before(a: &str, b: &str, deletions: bool) -> (r: bool)
    ensures
        r == applied_before(a@, b@, deletions),
{
    let x: u128 = count_components(a);
    let y: u128 = count_components(b);
    if x == y {
        is_before(a, b)
    } else {
        (x > y) == deletions
    }
}

/// `order` lists the places of the deletions of a plan, or of its other entries, each once and in
/// the order in which they are applied.
pub open spec fn is_order(plan: Seq<RestorePlanEntryView>, deletions: bool, order: Seq<usize>) -> bool {
    &&& forall|a: int|
        0 <= a < order.len() ==> (#[trigger] order[a]) < plan.len() && (
        plan[order[a] as int].restored is None) == deletions
    &&& forall|i: int|
        0 <= i < plan.len() && ((#[trigger] plan[i]).restored is None) == deletions
            ==> order.contains(i as usize)
    &&& forall|a: int, b: int|
        0 <= a < b < order.len() ==> #[trigger] order[a] != #[trigger] order[b]
            && !applied_before(plan[order[b] as int].key, plan[order[a] as int].key, deletions)
}

/// The order in which the deletions of a plan, or its other entries, are applied.
pub fn restore_order(plan: &Vec<RestorePlanEntry>, deletions: bool) -> (r: Vec<usize>)
    ensures
        is_order(views(plan@), deletions, r@),
{
    let ghost all = views(plan@);
    let mut order: Vec<usize> = Vec::new();
    let mut i: usize = 0;
    while i < plan.len()
        invariant
            i <= plan@.len(),
            all == views(plan@),
            forall|a: int|
                0 <= a < order@.len() ==> (#[trigger] order@[a]) < i && (
                all[order@[a] as int].restored is None) == deletions,
            forall|j: int|
                0 <= j < i && ((#[trigger] all[j]).restored is None) == deletions
                    ==> order@.contains(j as usize),
            forall|a: int, b: int|
                0 <= a < b < order@.len() ==> #[trigger] order@[a] != #[trigger] order@[b]
                    && !applied_before(
                    all[order@[b] as int].key,
                    all[order@[a] as int].key,
                    deletions,
                ),
        decreases plan@.len() - i,
    {
        proof {
            assert(all[i as int] == plan@[i as int]@);
        }
        if plan[i].restored.is_none() == deletions {
            let key = plan[i].key.as_str();
            let mut at: usize = order.len();
            while at > 0 && is_applied_before(key, plan[order[at - 1]].key.as_str(), deletions)
                invariant
                    at <= order@.len(),
                    i < plan@.len(),
                    all == views(plan@),
                    key@ == all[i as int].key,
                    forall|a: int| 0 <= a < order@.len() ==> (#[trigger] order@[a]) < i,
                    forall|a: int|
                        at <= a < order@.len() ==> applied_before(
                            key@,
                            all[#[trigger] order@[a] as int].key,
                            deletions,
                        ),
                decreases at,
            {
                at -= 1;
            }
            let ghost now = order@;
            proof {
                if at > 0 {
                    assert(all[now[at - 1] as int] == plan@[now[at - 1] as int]@);
                }
                lemma_order_insert(all, now, deletions, i, at as int);
            }
            order.insert(at, i);
        }
        i += 1;
    }
    order
}

proof fn lemma_applied_before(a: Seq<char>, b: Seq<char>, c: Seq<char>, deletions: bool)
    ensures
        applied_before(a, b, deletions) && applied_before(b, c, deletions) ==> applied_before(
            a,
            c,
            deletions,
        ),
        !applied_before(a, a, deletions),
        a == b || applied_before(a, b, deletions) || applied_before(b, a, deletions),
{
    crate::order::lemma_before_irreflexive(a);
    crate::order::lemma_before_total(a, b);
    if before(a, b) && before(b, c) {
        crate::order::lemma_before_transitive(a, b, c);
    }
}

proof fn lemma_order_insert(
    all: Seq<RestorePlanEntryView>,
    now: Seq<usize>,
    deletions: bool,
    i: usize,
    at: int,
)
    requires
        i < all.len(),
        0 <= at <= now.len(),
        (all[i as int].restored is None) == deletions,
        forall|a: int|
            0 <= a < now.len() ==> (#[trigger] now[a]) < i && (all[now[a] as int].restored is None)
                == deletions,
        forall|j: int|
            0 <= j < i && ((#[trigger] all[j]).restored is None) == deletions ==> now.contains(
                j as usize,
            ),
        forall|a: int, b: int|
            0 <= a < b < now.len() ==> #[trigger] now[a] != #[trigger] now[b] && !applied_before(
                all[now[b] as int].key,
                all[now[a] as int].key,
                deletions,
            ),
        forall|a: int|
            at <= a < now.len() ==> applied_before(
                all[i as int].key,
                all[#[trigger] now[a] as int].key,
                deletions,
            ),
        at > 0 ==> !applied_before(all[i as int].key, all[now[at - 1] as int].key, deletions),
    ensures
        ({
            let next = now.insert(at, i);
            &&& forall|a: int|
                0 <= a < next.len() ==> (#[trigger] next[a]) < i + 1 && (
                all[next[a] as int].restored is None) == deletions
            &&& forall|j: int|
                0 <= j < i + 1 && ((#[trigger] all[j]).restored is None) == deletions
                    ==> next.contains(j as usize)
            &&& forall|a: int, b: int|
                0 <= a < b < next.len() ==> #[trigger] next[a] != #[trigger] next[b]
                    && !applied_before(
                    all[next[b] as int].key,
                    all[next[a] as int].key,
                    deletions,
                )
        }),
{
    let next = now.insert(at, i);
    let key = all[i as int].key;
    assert forall|a: int| 0 <= a < next.len() implies (#[trigger] next[a]) < i + 1 && (
    all[next[a] as int].restored is None) == deletions by {
        if a < at {
            assert(next[a] == now[a]);
        } else if a > at {
            assert(next[a] == now[a - 1]);
        }
    }
    assert forall|j: int| 0 <= j < i + 1 && ((#[trigger] all[j]).restored is None)
        == deletions implies next.contains(j as usize) by {
        if j == i {
            assert(next[at] == i);
        } else {
            let n = now.index_of(j as usize);
            if n < at {
                assert(next[n] == now[n]);
            } else {
                assert(next[n + 1] == now[n]);
            }
        }
    }
    assert forall|a: int, b: int| 0 <= a < b < next.len() implies #[trigger] next[a]
        != #[trigger] next[b] && !applied_before(
        all[next[b] as int].key,
        all[next[a] as int].key,
        deletions,
    ) by {
        if a == at {
            assert(next[b] == now[b - 1]);
            let other = all[now[b - 1] as int].key;
            lemma_applied_before(key, other, key, deletions);
        } else if b == at {
            assert(next[a] == now[a]);
            let mine = all[now[a] as int].key;
            let last = all[now[at - 1] as int].key;
            if a < at - 1 {
                assert(!applied_before(last, mine, deletions));
            }
            lemma_applied_before(key, mine, last, deletions);
            lemma_applied_before(last, mine, key, deletions);
            lemma_applied_before(mine, last, key, deletions);
            if applied_before(key, mine, deletions) {
                if mine == last {
                } else {
                    assert(applied_before(mine, last, deletions));
                    assert(applied_before(key, last, deletions));
                }
            }
        } else {
            let x = if a < at {
                a
            } else {
                a - 1
            };
            let y = if b < at {
                b
            } else {
                b - 1
            };
            assert(next[a] == now[x] && next[b] == now[y]);
        }
    }
}

/// Whether a path of the worktree must be kept out of a restore: it is no file, or it is not
/// deleted by the plan, or it is neither known nor the open database.
pub open spec fn collides(
    is_file: bool,
    planned_deletion: bool,
    known: bool,
    current: bool,
) -> bool {
    !is_file || !planned_deletion || (!known && !current)
}

pub fn restore_collides(
    is_file: bool,
    planned_deletion: bool,
    known: bool,
    current: bool,
) -> (r: bool)
    ensures
        r == collides(is_file, planned_deletion, known, current),
{
    !is_file || !planned_deletion || (!known && !current)
}

/// What looking at one component of a restored key leads to.
#[derive(Debug, Clone, Copy, PartialEq, Eq, Structural)]
pub enum ComponentStep {
    /// The next component is looked at.
    Continue,
    /// The key can be restored.
    Done,
    NotRegularFile,
    NotDirectory,
}

/// What looking at a component leads to: `target` tells that it is the last, `restored` that
/// something is put there, `restored_below` that something is put at or below it, and
/// `deleted_above` that the plan deletes the path up to this component.
pub open spec fn component_step(
    standing: PathState,
    target: bool,
    restored: bool,
    restored_below: bool,
    deleted_above: bool,
) -> ComponentStep {
    let file = standing == PathState::SqliteFile || standing == PathState::PlainFile;
    if standing == PathState::Missing {
        ComponentStep::Done
    } else if target {
        if file || (standing == PathState::Directory && (restored || restored_below)) {
            ComponentStep::Continue
        } else {
            ComponentStep::NotRegularFile
        }
    } else if standing == PathState::Directory {
        ComponentStep::Continue
    } else if file && deleted_above {
        ComponentStep::Done
    } else {
        ComponentStep::NotDirectory
    }
}

pub fn preflight_restore_component(
    standing: PathState,
    target: bool,
    restored: bool,
    restored_below: bool,
    deleted_above: bool,
) -> (r: ComponentStep)
    ensures
        r == component_step(standing, target, restored, restored_below, deleted_above),
{
    let file: bool = standing == PathState::SqliteFile || standing == PathState::PlainFile;
    if standing == PathState::Missing {
        ComponentStep::Done
    } else if target {
        if file || (standing == PathState::Directory && (restored || restored_below)) {
            ComponentStep::Continue
        } else {
            ComponentStep::NotRegularFile
        }
    } else if standing == PathState::Directory {
        ComponentStep::Continue
    } else if file && deleted_above {
        ComponentStep::Done
    } else {
        ComponentStep::NotDirectory
    }
}

/// A key names a file below the worktree: its first part is a plain name, and no part leads up. A
/// later part that is empty or `.` names nothing and is passed over.
pub open spec fn names_file(key: Seq<char>) -> bool {
    let p = parts(key, '/');
    &&& names_entry(p[0])
    &&& forall|i: int| 0 <= i < p.len() ==> #[trigger] p[i] != ".."@
}

/// Refuses a key that names no file below the worktree.
pub fn validate_restore_key(key: &str) -> (r: Result<(), CommandError>)
    ensures
        seen(r) == if names_file(key@) {
            Ok(())
        } else {
            invalid("path `"@ + key@ + "` is not a valid repository file path"@)
        },
{
    let p = split(key, '/');
    proof {
        lemma_some_part(key@, '/', Seq::empty());
        assert(texts(p@).len() == p@.len());
    }
    let n: usize = p.len();
    let mut valid: bool = n > 0 && is_entry_name(p[0].as_str());
    let mut i: usize = 0;
    while i < n
        invariant
            n == p@.len(),
            n > 0,
            i <= n,
            texts(p@) == parts(key@, '/'),
            valid == (names_entry(texts(p@)[0]) && forall|j: int|
                0 <= j < i ==> #[trigger] texts(p@)[j] != ".."@),
        decreases n - i,
    {
        if same(p[i].as_str(), "..") {
            proof {
                assert(texts(p@)[i as int] == ".."@);
            }
            valid = false;
        }
        i += 1;
    }
    if valid {
        Ok(())
    } else {
        Err(
            invalid_command(
                cat3("path `", key, "` is not a valid repository file path").as_str(),
            ),
        )
    }
}

/// What is noted of a restored key.
#[derive(Debug, Clone, Copy, PartialEq, Eq, Structural)]
pub enum DirtyMark {
    Clean,
    Deleted,
    Dirty,
}

/// What is noted of a key: it is clean where it holds what the index holds, and the index holds one
/// thing at most.
pub open spec fn dirty_mark(
    restored: Option<RestoredKind>,
    index_file: bool,
    index_artifact: bool,
    same_content: bool,
) -> DirtyMark {
    let clean = match restored {
        Some(RestoredKind::File) => index_file && !index_artifact && same_content,
        Some(RestoredKind::Artifact) => index_artifact && !index_file && same_content,
        None => !index_file && !index_artifact,
    };
    if clean {
        DirtyMark::Clean
    } else if restored is None {
        DirtyMark::Deleted
    } else {
        DirtyMark::Dirty
    }
}

/// Decides what is noted of a restored key: `index_file` and `index_artifact` tell what the index
/// holds there, and `same_content` that it is the same.
pub fn update_restored_worktree_state_key(
    restored: Option<RestoredKind>,
    index_file: bool,
    index_artifact: bool,
    same_content: bool,
) -> (r: DirtyMark)
    ensures
        r == dirty_mark(restored, index_file, index_artifact, same_content),
{
    let clean: bool = match restored {
        Some(RestoredKind::File) => index_file && !index_artifact && same_content,
        Some(RestoredKind::Artifact) => index_artifact && !index_file && same_content,
        None => !index_file && !index_artifact,
    };
    if clean {
        DirtyMark::Clean
    } else if restored.is_none() {
        DirtyMark::Deleted
    } else {
        DirtyMark::Dirty
    }
}

/// The text without any number of `./` in front.
pub open spec fn without_dots(s: Seq<char>) -> Seq<char>
    decreases s.len(),
{
    if s.len() >= 2 && s[0] == '.' && s[1] == '/' {
        without_dots(s.skip(2))
    } else {
        s
    }
}

/// The text without any slashes at the end.
pub open spec fn without_slashes(s: Seq<char>) -> Seq<char>
    decreases s.len(),
{
    if s.len() > 0 && s.last() == '/' {
        without_slashes(s.drop_last())
    } else {
        s
    }
}

/// The text with `/` for every backslash on Windows.
pub open spec fn with_slashes(s: Seq<char>, host: Host) -> Seq<char> {
    if host == Host::Windows {
        Seq::new(
            s.len(),
            |i: int|
                if s[i] == '\\' {
                    '/'
                } else {
                    s[i]
                },
        )
    } else {
        s
    }
}

/// The key that a path filter names; the worktree itself is the empty key.
pub open spec fn normal_filter(path: Seq<char>, host: Host) -> Seq<char> {
    let p = without_slashes(with_slashes(without_dots(path), host));
    if p == "."@ {
        Seq::empty()
    } else {
        p
    }
}

pub fn normalize_repo_path_filter(path: &str, host: Host) -> (r: String)
    ensures
        r@ == normal_filter(path@, host),
{
    let cs = chars_of(path);
    let n: usize = cs.len();
    let mut from: usize = 0;
    proof {
        assert(cs@.skip(0) =~= path@);
    }
    while n - from >= 2 && cs[from] == '.' && cs[from + 1] == '/'
        invariant
            from <= n,
            n == cs@.len(),
            without_dots(path@) == without_dots(cs@.skip(from as int)),
        decreases n - from,
    {
        proof {
            assert(cs@.skip(from as int).skip(2) =~= cs@.skip(from + 2));
        }
        from += 2;
    }
    let ghost stripped = cs@.skip(from as int);
    let mut rest: Vec<char> = Vec::new();
    let mut i: usize = from;
    let ghost slashed = with_slashes(stripped, host);
    while i < n
        invariant
            from <= i <= n,
            n == cs@.len(),
            stripped == cs@.skip(from as int),
            slashed == with_slashes(stripped, host),
            rest@ == slashed.take(i - from),
        decreases n - i,
    {
        let c: char = if host == Host::Windows && cs[i] == '\\' {
            '/'
        } else {
            cs[i]
        };
        rest.push(c);
        i += 1;
        proof {
            assert(rest@ =~= slashed.take(i - from));
        }
    }
    let mut to: usize = rest.len();
    proof {
        assert(slashed.take(i - from) =~= slashed);
        assert(rest@.take(to as int) =~= slashed);
    }
    while to > 0 && rest[to - 1] == '/'
        invariant
            to <= rest@.len(),
            without_slashes(slashed) == without_slashes(rest@.take(to as int)),
        decreases to,
    {
        proof {
            assert(rest@.take(to as int).drop_last() =~= rest@.take(to - 1));
        }
        to -= 1;
    }
    let out = text_range(&rest, 0, to);
    proof {
        assert(rest@.subrange(0, to as int) =~= rest@.take(to as int));
    }
    if same(out.as_str(), ".") {
        String::new()
    } else {
        out
    }
}

} // verus!
