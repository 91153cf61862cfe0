//! What holds of checkouts, resets and merges: what becomes of each path, and which version of it.
use vstd::prelude::*;
use vstd::string::*;

use crate::auto_merge::{
    analysis_changes, conflict_entries_of, error_is_new, errors_with, errors_without,
    had_error, is_sound, records_conflicts, result_error, seed_error, selection_sql,
    ResultPlace,
};
use crate::checkout::{
    artifact_at, artifact_of, checkout_action, current_descriptor, entries_of, listed,
    merge_action, normal_entry, outcome_action, reset_follow_up, restore_descriptor,
    staged_entry, PathActionKind, PathListingView, ResetFacts,
};
use crate::conflict_paths::{resolver_allowed, RowMergeInternalResolver};
use crate::conflict_report::RowMergePlanView;
use crate::conflicts::MergeResolutionPathState;
use crate::error::{CommandError, RepoErr};
use crate::merge::{
    branch_or_current, fast_forward_head, law_row_merge_resolves_the_path, merge_remote,
    merged_by_results, merged_by_rows, named_remote, result_run, result_step, target_remote,
    tracking_name,
};
use crate::merge_policy::{
    generated_columns_json, internal_resolvers_json, resolvers_with, schema_resolvers_json,
    schema_resolvers_with, ConfiguredResolverView, ConfiguredSchemaResolverView,
};
use crate::model::{
    IndexEntryView, MergeOutcome, MergeOutcomeView, PathArtifactView, RemoteBranchRefView,
    RepoFileChange,
};
use crate::order::KeyMap;
use crate::report_sync::RowAutoMergeResultView;
use crate::show::views;
use crate::spec::{IndexStage, RepoPathStorage, RepoTrackedPathKind, ResetMode};
use crate::text::{has_prefix, texts};
use crate::workspace::{binding_move, merge_checkout, BindingMove, MergeCheckout};

verus! {

/// The file that a list holds of a path is the first of that path.
pub proof fn law_artifact_is_found(list: Seq<PathArtifactView>, key: Seq<char>, i: int)
    requires
        0 <= i <= list.len(),
    ensures
        match artifact_at(list, key, i) {
            Some(a) => exists|j: int| #![trigger list[j]]
                i <= j < list.len() && list[j].path == key && list[j].state == a && forall|k: int|
                    #![trigger list[k]]
                    i <= k < j ==> list[k].path != key,
            None => forall|k: int| #![trigger list[k]] i <= k < list.len() ==> list[k].path != key,
        },
    decreases list.len() - i,
{
    if i < list.len() {
        if list[i].path != key {
            law_artifact_is_found(list, key, i + 1);
            if let Some(a) = artifact_at(list, key, i) {
                let j = choose|j: int| #![trigger list[j]]
                    i + 1 <= j < list.len() && list[j].path == key && list[j].state == a && forall|
                        k: int,
                    | #![trigger list[k]]
                        i + 1 <= k < j ==> list[k].path != key;
                assert(list[j].path == key);
            }
        }
    }
}

/// A path is listed as a database where it is one, and otherwise as the file that it is; and it is
/// listed only where it is either.
pub proof fn law_listed_paths(listing: PathListingView, key: Seq<char>)
    ensures
        listing.files.contains(key) ==> listed(listing, key) == Some(
            (RepoTrackedPathKind::SqliteDatabase, RepoPathStorage::SqliteSnapshot),
        ),
        !listing.files.contains(key) ==> (listed(listing, key) is Some <==> exists|j: int|
            #![trigger listing.artifacts[j]]
            0 <= j < listing.artifacts.len() && listing.artifacts[j].path == key),
        !listing.files.contains(key) ==> (listed(listing, key) matches Some(d) ==> {
            let a = artifact_of(listing, key)->0;
            &&& d.0 == a.kind
            &&& d.1 == RepoPathStorage::External <==> a.large
            &&& d.1 == RepoPathStorage::Inline <==> !a.large
        }),
{
    law_artifact_is_found(listing.artifacts, key, 0);
}

/// A path is what the index has it as, or else what the last commit has it as. A restore goes by its
/// source first, and a restore of the index by the last commit.
pub proof fn law_which_version_a_path_is(
    source: PathListingView,
    staged: bool,
    index: PathListingView,
    head: PathListingView,
    key: Seq<char>,
)
    ensures
        listed(index, key) is Some ==> Some(current_descriptor(index, Some(head), key)) == listed(
            index,
            key,
        ),
        listed(index, key) is None && listed(head, key) is Some ==> Some(
            current_descriptor(index, Some(head), key),
        ) == listed(head, key),
        listed(source, key) is Some ==> Some(
            restore_descriptor(Some(source), staged, index, Some(head), key),
        ) == listed(source, key),
        listed(source, key) is None ==> restore_descriptor(
            Some(source),
            staged,
            index,
            Some(head),
            key,
        ) == current_descriptor(index, Some(head), key),
        listed(head, key) is Some ==> Some(restore_descriptor(None, true, index, Some(head), key))
            == listed(head, key),
        restore_descriptor(None, false, index, Some(head), key) == current_descriptor(
            index,
            Some(head),
            key,
        ),
{
}

/// A staged path is deleted where its entry holds nothing, modified where the last commit holds the
/// same sort of file at it, and added otherwise.
pub proof fn law_staged_changes(head: Option<PathListingView>, entry: IndexEntryView)
    ensures
        staged_entry(head, entry).2 == RepoFileChange::Deleted <==> entry.file is None
            && entry.artifact is None,
        entry.file is Some ==> (staged_entry(head, entry).2 == RepoFileChange::Modified <==> head
            is Some && head->0.files.contains(entry.path)),
        entry.file is Some ==> staged_entry(head, entry).0 == RepoTrackedPathKind::SqliteDatabase
            && staged_entry(head, entry).1 == RepoPathStorage::SqliteSnapshot,
        entry.file is None && entry.artifact is Some ==> (staged_entry(head, entry).2
            == RepoFileChange::Modified <==> head is Some && artifact_of(head->0, entry.path)
            is Some),
        entry.file is None && entry.artifact is Some ==> staged_entry(head, entry).0
            == entry.artifact->0.kind && (staged_entry(head, entry).1 == RepoPathStorage::External
            <==> entry.artifact->0.large),
        entry.file is None && entry.artifact is None && head is Some && listed(head->0, entry.path)
            is Some ==> Some((staged_entry(head, entry).0, staged_entry(head, entry).1)) == listed(
            head->0,
            entry.path,
        ),
        head is None ==> staged_entry(head, entry).2 != RepoFileChange::Modified,
{
}

/// A checkout writes every path that it leads to, removes every path that only the state before had,
/// and touches no other.
pub proof fn law_checkout_leads_to_its_plan(
    plan: PathListingView,
    previous: PathListingView,
    path: Seq<char>,
)
    ensures
        checkout_action(plan, previous, path) matches Some(a) ==> {
            &&& a.path == path
            &&& a.action == PathActionKind::CheckedOut <==> listed(plan, path) is Some
            &&& a.action == PathActionKind::Removed <==> listed(plan, path) is None
            &&& listed(plan, path) is Some && !(plan.files.contains(path) && artifact_of(plan, path)
                is Some) ==> Some((a.kind, a.storage)) == listed(plan, path)
            &&& listed(plan, path) is None && !(previous.files.contains(path) && artifact_of(
                previous,
                path,
            ) is Some) ==> Some((a.kind, a.storage)) == listed(previous, path)
        },
        checkout_action(plan, previous, path) is Some <==> listed(plan, path) is Some || listed(
            previous,
            path,
        ) is Some,
        checkout_action(plan, previous, path) matches Some(a) ==> a.action == PathActionKind::Removed
            ==> (checkout_action(previous, plan, path) matches Some(b) && b.action
            == PathActionKind::CheckedOut && b.kind == a.kind && b.storage == a.storage),
{
}

/// The entry of a path outside any conflict is the last one that the list has of it.
pub proof fn law_normal_entry_is_found(entries: Seq<IndexEntryView>, path: Seq<char>)
    ensures
        match normal_entry(entries, path) {
            Some(e) => exists|i: int| #![trigger entries[i]]
                0 <= i < entries.len() && entries[i] == e && e.path == path && e.stage
                    == IndexStage::Normal && forall|j: int| #![trigger entries[j]]
                    i < j < entries.len() ==> entries[j].path != path || entries[j].stage
                        != IndexStage::Normal,
            None => forall|j: int| #![trigger entries[j]]
                0 <= j < entries.len() ==> entries[j].path != path || entries[j].stage
                    != IndexStage::Normal,
        },
    decreases entries.len(),
{
    if entries.len() > 0 {
        let n = entries.len() - 1;
        let rest = entries.drop_last();
        law_normal_entry_is_found(rest, path);
        assert forall|j: int| #![trigger entries[j]] 0 <= j < n implies entries[j] == rest[j] by {}
        if entries[n].path == path && entries[n].stage == IndexStage::Normal {
            assert(entries[n] == entries.last());
        } else if let Some(e) = normal_entry(rest, path) {
            let i = choose|i: int| #![trigger rest[i]]
                0 <= i < rest.len() && rest[i] == e && e.path == path && e.stage == IndexStage::Normal
                    && forall|j: int| #![trigger rest[j]]
                    i < j < rest.len() ==> rest[j].path != path || rest[j].stage
                        != IndexStage::Normal;
            assert(entries[i] == e);
            assert forall|j: int| #![trigger entries[j]] i < j < entries.len() implies entries[j].path
                != path || entries[j].stage != IndexStage::Normal by {
                if j < n {
                    assert(rest[j] == entries[j]);
                }
            }
        }
    }
}

/// A merge with conflicts writes no path: those in conflict are told as such and the others are only
/// staged. Without conflicts every staged path is written, or removed where the merge deletes it.
pub proof fn law_merges_write_only_without_conflict(
    staged: Seq<Seq<char>>,
    conflicted: Seq<Seq<char>>,
    entries: Seq<IndexEntryView>,
    previous: PathListingView,
    path: Seq<char>,
)
    ensures
        ({
            let r = merge_action(staged, conflicted, entries, previous, path);
            &&& r is Some <==> conflicted.contains(path) || (staged.contains(path) && normal_entry(
                entries,
                path,
            ) is Some)
            &&& r matches Some(a) ==> {
                &&& a.path == path
                &&& a.action == PathActionKind::Conflicted <==> conflicted.contains(path)
                &&& a.action == PathActionKind::CheckedOut || a.action == PathActionKind::Removed
                    ==> conflicted.len() == 0
                &&& a.action == PathActionKind::Staged ==> conflicted.len() > 0
                &&& conflicted.len() == 0 ==> {
                    let e = normal_entry(entries, path)->0;
                    &&& a.action == PathActionKind::Removed <==> e.file is None && e.artifact is None
                    &&& a.action == PathActionKind::CheckedOut <==> e.file is Some || e.artifact
                        is Some
                    &&& e.file is Some ==> a.kind == RepoTrackedPathKind::SqliteDatabase
                    &&& e.file is None && e.artifact is Some ==> a.kind == e.artifact->0.kind
                }
            }
        }),
{
    if conflicted.contains(path) {
        assert(conflicted.len() > 0);
    }
}

/// What a merge does with a path is what its outcome asks for: a checkout where the branch only moves
/// forward, nothing where it is up to date.
pub proof fn law_outcomes_and_their_paths(
    outcome: MergeOutcomeView,
    plan: PathListingView,
    entries: Seq<IndexEntryView>,
    previous: PathListingView,
    path: Seq<char>,
)
    ensures
        outcome is FastForward ==> outcome_action(outcome, Some(plan), entries, previous, path)
            == checkout_action(plan, previous, path),
        outcome is AlreadyUpToDate ==> outcome_action(outcome, Some(plan), entries, previous, path)
            is None,
        outcome is Merged ==> outcome_action(outcome, Some(plan), entries, previous, path)
            == merge_action(outcome->staged, outcome->conflicted, entries, previous, path),
        fast_forward_head(outcome) is Some <==> outcome is FastForward,
        outcome matches MergeOutcome::FastForward { from, to } ==> fast_forward_head(outcome)
            == Some(to),
{
}

/// The kind of a path in conflict is that of a version of it.
pub proof fn law_conflicted_path_is_one_of_its_versions(
    entries: Seq<IndexEntryView>,
    path: Seq<char>,
    at: int,
    i: int,
)
    requires
        0 <= at <= i < entries.len(),
        entries[i].path == path,
        entries[i].file is Some || entries[i].artifact is Some,
        forall|j: int| #![trigger entries[j]]
            at <= j < i && entries[j].path == path ==> entries[j].file is None && entries[j].artifact
                is None,
    ensures
        entries[i].file is Some ==> entries_of(entries, path, at) == (
            RepoTrackedPathKind::SqliteDatabase,
            RepoPathStorage::SqliteSnapshot,
        ),
        entries[i].file is None ==> entries_of(entries, path, at).0 == entries[i].artifact->0.kind,
    decreases i - at,
{
    if at < i {
        law_conflicted_path_is_one_of_its_versions(entries, path, at + 1, i);
    }
}

/// A soft reset touches neither the worktree nor, with changes staged or back to the same state, the
/// index. A mixed reset marks the open database as changed exactly where it differs from the new
/// head, and only a hard reset replaces the worktree.
pub proof fn law_resets(facts: ResetFacts)
    ensures
        reset_follow_up(ResetMode::Soft, facts).restage <==> !facts.had_staged_changes
            && facts.had_old_head && !facts.target_is_old_head,
        reset_follow_up(ResetMode::Soft, facts).dirty != Some(false),
        reset_follow_up(ResetMode::Soft, facts).dirty == Some(true) <==> !facts.had_staged_changes
            && facts.had_old_head && !facts.current_is_old_head,
        !reset_follow_up(ResetMode::Soft, facts).checkout,
        reset_follow_up(ResetMode::Mixed, facts).dirty == Some(false) <==> facts.current_is_target,
        reset_follow_up(ResetMode::Mixed, facts).dirty is Some,
        !reset_follow_up(ResetMode::Mixed, facts).restage,
        !reset_follow_up(ResetMode::Mixed, facts).checkout,
        reset_follow_up(ResetMode::Hard, facts).checkout,
        !reset_follow_up(ResetMode::Hard, facts).restage,
        reset_follow_up(ResetMode::Hard, facts).dirty is None,
{
}

/// After the rows of databases were merged, every database whose merge is resolved is staged and out
/// of conflict, and every path without such a merge is as before.
pub proof fn law_resolved_merges_are_staged(
    before: MergeOutcomeView,
    results: Seq<RowAutoMergeResultView>,
    after: MergeOutcomeView,
    p: Seq<char>,
)
    requires
        before is Merged,
        merged_by_results(before, results, after),
    ensures
        after is Merged,
        after->Merged_head == before->Merged_head,
        after->target == before->target,
        after->merge_base == before->merge_base,
        (exists|i: int| #![trigger results[i]]
            0 <= i < results.len() && results[i].resolved && results[i].key == p)
            ==> after->staged.contains(p) && !after->conflicted.contains(p),
        !(exists|i: int| #![trigger results[i]]
            0 <= i < results.len() && results[i].resolved && results[i].key == p)
            ==> after->staged.contains(p) == before->staged.contains(p)
            && after->conflicted.contains(p) == before->conflicted.contains(p),
{
    let states = choose|states: Seq<MergeOutcomeView>| #[trigger]
        result_run(results, states) && states[0] == before && states.last() == after;
    lemma_run(results, states, results.len() as int, p);
}

proof fn lemma_run(
    results: Seq<RowAutoMergeResultView>,
    states: Seq<MergeOutcomeView>,
    n: int,
    p: Seq<char>,
)
    requires
        result_run(results, states),
        states[0] is Merged,
        0 <= n <= results.len(),
    ensures
        states[n] is Merged,
        states[n]->Merged_head == states[0]->Merged_head,
        states[n]->target == states[0]->target,
        states[n]->merge_base == states[0]->merge_base,
        (exists|i: int| #![trigger results[i]]
            0 <= i < n && results[i].resolved && results[i].key == p) ==> states[n]->staged.contains(
            p,
        ) && !states[n]->conflicted.contains(p),
        !(exists|i: int| #![trigger results[i]]
            0 <= i < n && results[i].resolved && results[i].key == p) ==> states[n]->staged.contains(
            p,
        ) == states[0]->staged.contains(p) && states[n]->conflicted.contains(p)
            == states[0]->conflicted.contains(p),
    decreases n,
{
    if n > 0 {
        lemma_run(results, states, n - 1, p);
        assert(result_step(states[n - 1], results[n - 1], states[n - 1 + 1]));
        if results[n - 1].resolved {
            assert(merged_by_rows(states[n - 1], results[n - 1].key, states[n]));
            law_row_merge_resolves_the_path(states[n - 1], results[n - 1].key, states[n]);
            if p != results[n - 1].key {
                let after = states[n];
                let staged_after = after->staged.contains(p);
                let conflicted_after = after->conflicted.contains(p);
                assert(staged_after == states[n - 1]->staged.contains(p));
                assert(conflicted_after == states[n - 1]->conflicted.contains(p));
            }
        } else {
            assert(states[n] == states[n - 1]);
        }
    }
}

/// The remote of a branch is found under the name of the branch, or under the commit that it is at.
pub proof fn law_remote_is_found(
    branches: Seq<RemoteBranchRefView>,
    name: Seq<char>,
    target: Seq<char>,
    i: int,
)
    requires
        0 <= i <= branches.len(),
    ensures
        match named_remote(branches, name, i) {
            Some(remote) => exists|j: int| #![trigger branches[j]]
                i <= j < branches.len() && branches[j].remote == remote && branches[j].remote + "/"@
                    + branches[j].branch == name,
            None => forall|j: int| #![trigger branches[j]]
                i <= j < branches.len() ==> branches[j].remote + "/"@ + branches[j].branch != name,
        },
        match target_remote(branches, target, i) {
            Some(remote) => exists|j: int| #![trigger branches[j]]
                i <= j < branches.len() && branches[j].remote == remote && branches[j].head == target,
            None => forall|j: int| #![trigger branches[j]]
                i <= j < branches.len() ==> branches[j].head != target,
        },
    decreases branches.len() - i,
{
    if i < branches.len() {
        law_remote_is_found(branches, name, target, i + 1);
        if named_remote(branches, name, i) is Some {
            let remote = named_remote(branches, name, i)->0;
            if branches[i].remote + "/"@ + branches[i].branch != name {
                let j = choose|j: int| #![trigger branches[j]]
                    i + 1 <= j < branches.len() && branches[j].remote == remote && branches[j].remote
                        + "/"@ + branches[j].branch == name;
                assert(branches[j].remote == remote);
            }
        }
        if target_remote(branches, target, i) is Some {
            let remote = target_remote(branches, target, i)->0;
            if branches[i].head != target {
                let j = choose|j: int| #![trigger branches[j]]
                    i + 1 <= j < branches.len() && branches[j].remote == remote && branches[j].head
                        == target;
                assert(branches[j].head == target);
            }
        }
    }
}

/// A merge knows the remote of the branch that it was asked for by name, with or without the name of
/// the place where such branches are kept. Under another name it knows the remote that has a branch
/// at the merged commit, as long as no second one has.
pub proof fn law_remote_of_a_merge(
    rev: Seq<char>,
    target: Seq<char>,
    branches: Seq<RemoteBranchRefView>,
    i: int,
)
    requires
        0 <= i < branches.len(),
    ensures
        rev == branches[i].remote + "/"@ + branches[i].branch && !has_prefix(rev, "refs/remotes/"@)
            ==> merge_remote(rev, target, branches) is Some,
        merge_remote("refs/remotes/"@ + branches[i].remote + "/"@ + branches[i].branch, target, branches)
            is Some,
        branches[i].head == target && merge_remote(rev, target, branches) is None ==> exists|j: int|
            #![trigger branches[j]]
            0 <= j < branches.len() && branches[j].head == target && branches[j].remote
                != branches[i].remote,
        named_remote(branches, tracking_name(rev), 0) is None ==> (merge_remote(rev, target, branches)
            matches Some(remote) ==> forall|j: int| #![trigger branches[j]]
            0 <= j < branches.len() && branches[j].head == target ==> branches[j].remote == remote),
        merge_remote(rev, target, branches) matches Some(remote) ==> exists|j: int|
            #![trigger branches[j]]
            0 <= j < branches.len() && branches[j].remote == remote && (branches[j].head == target
                || branches[j].remote + "/"@ + branches[j].branch == tracking_name(rev)),
{
    let name = branches[i].remote + "/"@ + branches[i].branch;
    let full = "refs/remotes/"@ + branches[i].remote + "/"@ + branches[i].branch;
    assert(full.take("refs/remotes/"@.len() as int) =~= "refs/remotes/"@);
    assert(full.skip("refs/remotes/"@.len() as int) =~= name);
    law_remote_is_found(branches, name, target, 0);
    law_remote_is_found(branches, tracking_name(rev), target, 0);
    if branches[i].head == target && merge_remote(rev, target, branches) is None {
        let remote = target_remote(branches, target, 0)->0;
        let k = choose|k: int|
            0 <= k < branches.len() && (#[trigger] branches[k]).head == target && branches[k].remote
                != remote;
        assert(branches[k].head == target);
        let f = choose|f: int| #![trigger branches[f]]
            0 <= f < branches.len() && branches[f].remote == remote && branches[f].head == target;
        assert(branches[f].remote == remote);
        assert(branches[k].remote != branches[i].remote || branches[f].remote != branches[i].remote);
    }
}

/// A branch that is named is taken; without one, the branch that is checked out; and only without
/// either is there none.
pub proof fn law_named_branch_comes_first(
    branch: Seq<char>,
    current: Option<Seq<char>>,
    action: Seq<char>,
)
    ensures
        branch_or_current(Some(branch), current, action) == Ok::<_, CommandError<Seq<char>>>(branch),
        current matches Some(c) ==> branch_or_current(None, current, action) == Ok::<
            _,
            CommandError<Seq<char>>,
        >(c),
        branch_or_current(None, None, action) is Err,
{
}

/// A resolver that is configured takes the place of any before it, as long as it is made for its
/// subject.
pub proof fn law_last_resolver_counts(
    base: Map<Seq<char>, Seq<char>>,
    list: Seq<ConfiguredResolverView>,
    i: int,
)
    requires
        0 <= i < list.len(),
        list[i].resolver is Some,
        resolver_allowed(list[i].subject, list[i].resolver->0),
        forall|j: int| #![trigger list[j]]
            i < j < list.len() && list[j].subject == list[i].subject ==> list[j].resolver is None
                || !resolver_allowed(list[j].subject, list[j].resolver->0),
    ensures
        resolvers_with(base, list).contains_key(list[i].subject),
        resolvers_with(base, list)[list[i].subject] == list[i].name,
    decreases list.len(),
{
    if i < list.len() - 1 {
        let rest = list.drop_last();
        assert forall|j: int| #![trigger rest[j]]
            i < j < rest.len() && rest[j].subject == rest[i].subject implies rest[j].resolver is None
            || !resolver_allowed(rest[j].subject, rest[j].resolver->0) by {
            assert(rest[j] == list[j]);
        }
        law_last_resolver_counts(base, rest, i);
        assert(list[list.len() - 1] == list.last());
    }
}

/// Without a resolver that counts, a subject keeps the one that it has by default.
pub proof fn law_default_resolver_stays(
    base: Map<Seq<char>, Seq<char>>,
    list: Seq<ConfiguredResolverView>,
    subject: Seq<char>,
)
    requires
        forall|j: int| #![trigger list[j]]
            0 <= j < list.len() && list[j].subject == subject ==> list[j].resolver is None
                || !resolver_allowed(subject, list[j].resolver->0),
    ensures
        resolvers_with(base, list).contains_key(subject) == base.contains_key(subject),
        base.contains_key(subject) ==> resolvers_with(base, list)[subject] == base[subject],
    decreases list.len(),
{
    if list.len() > 0 {
        let rest = list.drop_last();
        assert forall|j: int| #![trigger rest[j]]
            0 <= j < rest.len() && rest[j].subject == subject implies rest[j].resolver is None
            || !resolver_allowed(subject, rest[j].resolver->0) by {
            assert(rest[j] == list[j]);
        }
        law_default_resolver_stays(base, rest, subject);
        assert(list[list.len() - 1] == list.last());
    }
}

/// The last resolver that is known of a schema change counts, and an unknown one never does.
pub proof fn law_last_schema_resolver_counts(
    base: Map<Seq<char>, Seq<char>>,
    list: Seq<ConfiguredSchemaResolverView>,
    operation: Seq<char>,
)
    ensures
        ({
            let all = schema_resolvers_with(base, list);
            if exists|i: int| #![trigger list[i]]
                0 <= i < list.len() && list[i].known && list[i].operation == operation {
                all.contains_key(operation) && exists|i: int| #![trigger list[i]]
                    0 <= i < list.len() && list[i].known && list[i].operation == operation
                        && list[i].name == all[operation] && forall|j: int| #![trigger list[j]]
                        i < j < list.len() && list[j].operation == operation ==> !list[j].known
            } else {
                all.contains_key(operation) == base.contains_key(operation) && (base.contains_key(
                    operation,
                ) ==> all[operation] == base[operation])
            }
        }),
    decreases list.len(),
{
    if list.len() > 0 {
        let rest = list.drop_last();
        let n = list.len() - 1;
        law_last_schema_resolver_counts(base, rest, operation);
        assert forall|j: int| #![trigger list[j]] 0 <= j < n implies list[j] == rest[j] by {}
        if list[n].known && list[n].operation == operation {
            assert(list[n] == list.last());
        } else if exists|i: int| #![trigger rest[i]]
            0 <= i < rest.len() && rest[i].known && rest[i].operation == operation {
            let all = schema_resolvers_with(base, rest);
            let i = choose|i: int| #![trigger rest[i]]
                0 <= i < rest.len() && rest[i].known && rest[i].operation == operation
                    && rest[i].name == all[operation] && forall|j: int| #![trigger rest[j]]
                    i < j < rest.len() && rest[j].operation == operation ==> !rest[j].known;
            assert(list[i].known);
            assert forall|j: int| #![trigger list[j]]
                i < j < list.len() && list[j].operation == operation implies !list[j].known by {
                if j < n {
                    assert(rest[j] == list[j]);
                }
            }
        } else {
            assert forall|i: int| #![trigger list[i]] 0 <= i < list.len() implies !(list[i].known
                && list[i].operation == operation) by {
                if i < n {
                    assert(rest[i] == list[i]);
                }
            }
        }
    }
}

/// A resolver is made for one sort of subject: the counter of row numbers, the statistics, or the
/// indexes.
pub proof fn law_resolvers_have_one_subject(subject: Seq<char>)
    ensures
        resolver_allowed(subject, RowMergeInternalResolver::SequenceMax) <==> subject
            == "sqlite_sequence"@,
        resolver_allowed(subject, RowMergeInternalResolver::Reindex) <==> subject == "index_btree"@,
        resolver_allowed(subject, RowMergeInternalResolver::Rebuild) <==> subject
            == "sqlite_stat1"@ || subject == "sqlite_stat2"@ || subject == "sqlite_stat3"@ || subject
            == "sqlite_stat4"@,
{
    reveal_strlit("sqlite_sequence");
    reveal_strlit("index_btree");
    reveal_strlit("sqlite_stat1");
    reveal_strlit("sqlite_stat2");
    reveal_strlit("sqlite_stat3");
    reveal_strlit("sqlite_stat4");
    assert("sqlite_sequence"@.len() == 15);
    assert("index_btree"@.len() == 11);
    assert("sqlite_stat1"@.len() == 12);
    assert("sqlite_stat2"@.len() == 12);
    assert("sqlite_stat3"@.len() == 12);
    assert("sqlite_stat4"@.len() == 12);
}

/// The resolvers and columns of a policy are told as they are recorded, in the order of their names.
pub proof fn law_policy_is_told(
    internal: KeyMap<String>,
    schema: KeyMap<String>,
    generated: KeyMap<Vec<String>>,
    i: int,
)
    requires
        internal.wf(),
        schema.wf(),
        generated.wf(),
    ensures
        internal_resolvers_json(internal).len() == internal.names().len(),
        schema_resolvers_json(schema).len() == schema.names().len(),
        generated_columns_json(generated).len() == generated.names().len(),
        0 <= i < internal.names().len() ==> {
            &&& internal_resolvers_json(internal)[i].table == internal.names()[i]
            &&& internal_resolvers_json(internal)[i].resolver == internal@[internal.names()[i]]@
        },
        0 <= i < schema.names().len() ==> {
            &&& schema_resolvers_json(schema)[i].operation == schema.names()[i]
            &&& schema_resolvers_json(schema)[i].resolver == schema@[schema.names()[i]]@
        },
        0 <= i < generated.names().len() ==> {
            &&& generated_columns_json(generated)[i].table == generated.names()[i]
            &&& generated_columns_json(generated)[i].columns == texts(
                generated@[generated.names()[i]]@,
            )
        },
{
    if 0 <= i < internal.names().len() {
        internal.lemma_at(i);
    }
    if 0 <= i < schema.names().len() {
        schema.lemma_at(i);
    }
    if 0 <= i < generated.names().len() {
        generated.lemma_at(i);
    }
}

/// A merge that an application resolves is begun exactly where all changes are plain rows that need no
/// check, all conflicts are the application's, and no result is there yet.
pub proof fn law_merges_for_applications(
    plan: RowMergePlanView,
    additions: bool,
    unmanaged: nat,
    exists_already: bool,
)
    ensures
        seed_error(plan, additions, unmanaged, exists_already) is None <==> {
            &&& plan.schema_conflicts.len() == 0
            &&& plan.opaque_changes == 0
            &&& plan.limitations.len() == 0
            &&& !plan.requires_validation
            &&& !additions
            &&& unmanaged == 0
            &&& !exists_already
        },
{
}

/// The result of such a merge is staged exactly where its path is one of the merge and a database, and
/// the result can be read as one.
pub proof fn law_results_that_are_staged(
    known: bool,
    database: bool,
    readable: bool,
    place: ResultPlace,
    key: Seq<char>,
    shown: Seq<char>,
)
    ensures
        result_error(known, database, readable, place, key, shown) is None <==> known && database
            && readable,
        !known ==> result_error(known, database, readable, place, key, shown) == Some(
            CommandError::<Seq<char>>::Repo(RepoErr::PathNotConflicted(key)),
        ),
{
}

/// A database is sound where the check says nothing but that it is, and says it.
pub proof fn law_sound_databases(rows: Seq<Seq<char>>, row: Seq<char>)
    ensures
        !is_sound(Seq::empty()),
        is_sound(seq![row]) <==> row == "ok"@,
        row != "ok"@ ==> !is_sound(rows.push(row)),
        is_sound(rows) ==> is_sound(rows.push("ok"@)),
{
    assert(seq![row][0] == row);
    assert(rows.push(row)[rows.len() as int] == row);
}

/// What is recorded at the start of a merge are the entries of each path that are in conflict, in
/// their order.
pub proof fn law_entries_in_conflict(
    all: Seq<IndexEntryView>,
    entry: IndexEntryView,
    path: Seq<char>,
)
    ensures
        conflict_entries_of(Seq::empty(), path).len() == 0,
        entry.path == path && entry.stage != IndexStage::Normal ==> conflict_entries_of(
            all.push(entry),
            path,
        ) == conflict_entries_of(all, path).push(entry),
        entry.path != path || entry.stage == IndexStage::Normal ==> conflict_entries_of(
            all.push(entry),
            path,
        ) == conflict_entries_of(all, path),
{
    assert(all.push(entry).drop_last() =~= all);
}

/// The statements of a selection come on a line of their own after those before it; a row without
/// one adds nothing.
pub proof fn law_statements_of_selections(sql: Seq<char>, rows: Seq<Option<Seq<char>>>, n: int)
    requires
        0 < n <= rows.len(),
    ensures
        selection_sql(sql, rows, 0) == sql,
        rows[n - 1] is None ==> selection_sql(sql, rows, n) == selection_sql(sql, rows, n - 1),
        rows[n - 1] matches Some(row) ==> selection_sql(sql, rows, n) == selection_sql(
            sql,
            rows,
            n - 1,
        ).push('\n') + row,
        has_prefix(selection_sql(sql, rows, n), sql),
    decreases n,
{
    let now = selection_sql(sql, rows, n);
    assert(selection_sql(sql, rows, 0) == sql);
    if n == 1 {
        assert(now.take(sql.len() as int) =~= sql);
    } else {
        law_statements_of_selections(sql, rows, n - 1);
        let was = selection_sql(sql, rows, n - 1);
        assert(now.take(sql.len() as int) =~= was.take(sql.len() as int));
    }
}

/// A merge writes the new head where the branch only moved forward, the staged paths where nothing is
/// in conflict, and otherwise nothing.
pub proof fn law_what_a_merge_writes(outcome: MergeOutcomeView, has_plan: bool)
    ensures
        outcome is AlreadyUpToDate ==> merge_checkout(outcome, has_plan) == MergeCheckout::Nothing,
        outcome is FastForward ==> merge_checkout(outcome, true) == MergeCheckout::Plan,
        outcome is FastForward ==> merge_checkout(outcome, false) == MergeCheckout::Head,
        outcome is Merged ==> (merge_checkout(outcome, has_plan) == MergeCheckout::StagedPaths
            <==> outcome->conflicted.len() == 0),
        outcome is Merged ==> (merge_checkout(outcome, has_plan) == MergeCheckout::Nothing
            <==> outcome->conflicted.len() > 0),
{
}

/// The session is switched for the open database alone, and a binding is kept only where there is one.
pub proof fn law_bindings(current: bool, bound: bool)
    ensures
        binding_move(current, bound) == BindingMove::SwitchSession <==> current && bound,
        binding_move(current, bound) == BindingMove::ClearSession <==> current && !bound,
        binding_move(current, bound) == BindingMove::ReplaceTag <==> !current && bound,
        binding_move(current, bound) == BindingMove::DeleteTag <==> !current && !bound,
{
}

/// Where nothing has to be written again after an analysis, what is on record is what it came to. It
/// is written again wherever an error is cleared, and wherever a path fails that had no error.
pub proof fn law_analysis_is_written_again(
    m: Map<Seq<char>, Seq<char>>,
    analyzed: Seq<Seq<char>>,
    failed: Seq<Seq<char>>,
    errors: Seq<Seq<char>>,
)
    requires
        failed.len() == errors.len(),
    ensures
        !analysis_changes(m, analyzed, failed, errors) ==> errors_with(
            errors_without(m, analyzed, analyzed.len() as int),
            failed,
            errors,
            failed.len() as int,
        ) == m,
        forall|i: int| #![trigger analyzed[i]]
            0 <= i < analyzed.len() && m.contains_key(analyzed[i]) ==> analysis_changes(
                m,
                analyzed,
                failed,
                errors,
            ),
        failed.len() > 0 && !m.contains_key(failed[0]) ==> analysis_changes(
            m,
            analyzed,
            failed,
            errors,
        ),
        (forall|i: int| #![trigger analyzed[i]]
            0 <= i < analyzed.len() ==> !m.contains_key(analyzed[i])) && (forall|j: int|
            #![trigger failed[j]]
            0 <= j < failed.len() ==> m.contains_key(failed[j]) && m[failed[j]] == errors[j])
            ==> !analysis_changes(m, analyzed, failed, errors),
{
    if (forall|i: int| #![trigger analyzed[i]]
        0 <= i < analyzed.len() ==> !m.contains_key(analyzed[i])) && (forall|j: int|
        #![trigger failed[j]]
        0 <= j < failed.len() ==> m.contains_key(failed[j]) && m[failed[j]] == errors[j]) {
        lemma_nothing_taken(m, analyzed, analyzed.len() as int);
        assert forall|j: int| 0 <= j < failed.len() implies !#[trigger] error_is_new(
            m,
            failed,
            errors,
            j,
        ) by {
            lemma_same_errors(m, failed, errors, j);
            assert(m.contains_key(failed[j]));
        }
        assert forall|i: int| 0 <= i < analyzed.len() implies !#[trigger] had_error(
            m,
            analyzed,
            i,
        ) by {
            assert(!m.contains_key(analyzed[i]));
        }
    }
    let rest = errors_without(m, analyzed, analyzed.len() as int);
    if !analysis_changes(m, analyzed, failed, errors) {
        assert forall|i: int| 0 <= i < analyzed.len() implies !m.contains_key(
            #[trigger] analyzed[i],
        ) by {
            assert(!had_error(m, analyzed, i));
        }
        lemma_nothing_taken(m, analyzed, analyzed.len() as int);
        lemma_nothing_new(rest, failed, errors, failed.len() as int);
    }
    assert forall|i: int| #![trigger analyzed[i]]
        0 <= i < analyzed.len() && m.contains_key(analyzed[i]) implies analysis_changes(
        m,
        analyzed,
        failed,
        errors,
    ) by {
        assert(had_error(m, analyzed, i));
    }
    if failed.len() > 0 && !m.contains_key(failed[0]) {
        lemma_none_appears(m, analyzed, analyzed.len() as int, failed[0]);
        assert(error_is_new(rest, failed, errors, 0));
    }
}

proof fn lemma_nothing_taken(m: Map<Seq<char>, Seq<char>>, keys: Seq<Seq<char>>, n: int)
    requires
        0 <= n <= keys.len(),
        forall|i: int| 0 <= i < keys.len() ==> !m.contains_key(#[trigger] keys[i]),
    ensures
        errors_without(m, keys, n) == m,
    decreases n,
{
    if n > 0 {
        lemma_nothing_taken(m, keys, n - 1);
        assert(m.remove(keys[n - 1]) =~= m);
    }
}

proof fn lemma_none_appears(
    m: Map<Seq<char>, Seq<char>>,
    keys: Seq<Seq<char>>,
    n: int,
    key: Seq<char>,
)
    requires
        0 <= n <= keys.len(),
        !m.contains_key(key),
    ensures
        !errors_without(m, keys, n).contains_key(key),
    decreases n,
{
    if n > 0 {
        lemma_none_appears(m, keys, n - 1, key);
    }
}

proof fn lemma_same_errors(
    m: Map<Seq<char>, Seq<char>>,
    keys: Seq<Seq<char>>,
    errors: Seq<Seq<char>>,
    n: int,
)
    requires
        0 <= n <= keys.len(),
        keys.len() == errors.len(),
        forall|j: int| #![trigger keys[j]]
            0 <= j < keys.len() ==> m.contains_key(keys[j]) && m[keys[j]] == errors[j],
    ensures
        errors_with(m, keys, errors, n) == m,
    decreases n,
{
    if n > 0 {
        lemma_same_errors(m, keys, errors, n - 1);
        assert(m.contains_key(keys[n - 1]));
        assert(m.insert(keys[n - 1], errors[n - 1]) =~= m);
    }
}

proof fn lemma_nothing_new(
    m: Map<Seq<char>, Seq<char>>,
    keys: Seq<Seq<char>>,
    errors: Seq<Seq<char>>,
    n: int,
)
    requires
        0 <= n <= keys.len(),
        keys.len() == errors.len(),
        forall|j: int| 0 <= j < keys.len() ==> !#[trigger] error_is_new(m, keys, errors, j),
    ensures
        errors_with(m, keys, errors, n) == m,
    decreases n,
{
    if n > 0 {
        lemma_nothing_new(m, keys, errors, n - 1);
        assert(!error_is_new(m, keys, errors, n - 1));
        assert(m.insert(keys[n - 1], errors[n - 1]) =~= m);
    }
}

/// A path is on record at the start of a merge exactly where the index has an entry of it that is in
/// conflict, and with no resolution.
pub proof fn law_paths_on_record(
    m: KeyMap<MergeResolutionPathState>,
    all: Seq<IndexEntryView>,
    path: Seq<char>,
)
    requires
        records_conflicts(m, all),
    ensures
        m@.contains_key(path) <==> exists|i: int| #![trigger all[i]]
            0 <= i < all.len() && all[i].path == path && all[i].stage != IndexStage::Normal,
        m@.contains_key(path) ==> m@[path].resolution is None,
        m@.contains_key(path) ==> forall|j: int| #![trigger m@[path].original_entries@[j]]
            0 <= j < m@[path].original_entries@.len() ==> m@[path].original_entries@[j]@.path == path
                && m@[path].original_entries@[j]@.stage != IndexStage::Normal,
{
    lemma_conflict_entries(all, path);
    if m@.contains_key(path) {
        let found = conflict_entries_of(all, path);
        assert forall|j: int| #![trigger m@[path].original_entries@[j]]
            0 <= j < m@[path].original_entries@.len() implies m@[path].original_entries@[j]@.path
            == path && m@[path].original_entries@[j]@.stage != IndexStage::Normal by {
            assert(views(m@[path].original_entries@)[j] == m@[path].original_entries@[j]@);
            assert(found[j].path == path);
        }
    }
}

proof fn lemma_conflict_entries(all: Seq<IndexEntryView>, path: Seq<char>)
    ensures
        conflict_entries_of(all, path).len() > 0 <==> exists|i: int| #![trigger all[i]]
            0 <= i < all.len() && all[i].path == path && all[i].stage != IndexStage::Normal,
        forall|j: int| #![trigger conflict_entries_of(all, path)[j]]
            0 <= j < conflict_entries_of(all, path).len() ==> conflict_entries_of(all, path)[j].path
                == path && conflict_entries_of(all, path)[j].stage != IndexStage::Normal,
    decreases all.len(),
{
    if all.len() > 0 {
        let rest = all.drop_last();
        let n = all.len() - 1;
        lemma_conflict_entries(rest, path);
        if exists|i: int| #![trigger rest[i]]
            0 <= i < rest.len() && rest[i].path == path && rest[i].stage != IndexStage::Normal {
            let i = choose|i: int| #![trigger rest[i]]
                0 <= i < rest.len() && rest[i].path == path && rest[i].stage != IndexStage::Normal;
            assert(all[i] == rest[i]);
        }
        if exists|i: int| #![trigger all[i]]
            0 <= i < all.len() && all[i].path == path && all[i].stage != IndexStage::Normal {
            let i = choose|i: int| #![trigger all[i]]
                0 <= i < all.len() && all[i].path == path && all[i].stage != IndexStage::Normal;
            if i < n {
                assert(rest[i] == all[i]);
            }
        }
        assert(all[n] == all.last());
    }
}

} // verus!
