//! What holds of commands and sessions: what a command does with its arguments, when it is refused, and
//! which branches, commits and snapshots it works on.
use vstd::prelude::*;
use vstd::string::*;

use crate::command::{CommandView, GraftCommand};
use crate::coverage::{
    coverage, covered, delta_ranges, gaps, in_any, law_delta_is_what_parents_lack, sub_range,
    sub_ranges, within,
};
use crate::document::{JsonField, JsonFieldView, JsonMemberView};
use crate::error::CommandError;
use crate::eval::{
    clean_guard, operation_of, refusal, use_of, Operation, OperationView, RepositoryUse,
};
use crate::jobs::{
    ended, json_status_members, started, status_members, AsyncJobResultFormat, AsyncJobView,
};
use crate::model::{
    BranchInfoView, BranchUpstream, CommitFileStateView, CommitObjectView, PathFileView,
    RepoLogRangeView, StorageCommitView,
};
use crate::publish::{born_branches, hydrate_step, states_of, stored_commits, HydrateStep};
use crate::session::{
    branch_to_clone, branches_to_push, log_reading_of, looks_for_repo, next_log_cursor,
    push_base, repo_log, LogRead, LogReading,
};
use crate::snapshot::{
    commit_check, mode_for, parent_ids, range_check, span, whole_range_check,
    RepoSnapshotRemoteMode, RepoSnapshotResolvePolicy, RepoSnapshotResolveSource,
    SnapshotHashPolicy,
};
use crate::spec::{JsonLogSpec, ResetMode, ResolveSide};
use crate::status_laws::lemma_filters_keep;
use crate::update::{done_before, update_order, UpdateKind, UpdateStep};

verus! {

/// A command about branches and tags hands each of its arguments on as what it is.
pub proof fn law_branch_arguments(
    name: Seq<char>,
    other: Seq<char>,
    third: Seq<char>,
    start: Option<Seq<char>>,
    message: Option<Seq<char>>,
    force: bool,
)
    ensures
        operation_of(GraftCommand::BranchCreate { name, start_point: start }) == (
        OperationView::BranchCreate { name, start_point: start }),
        operation_of(GraftCommand::BranchDelete { name, force }) == (OperationView::BranchDelete {
            name,
            force,
        }),
        operation_of(GraftCommand::BranchRename { old_name: start, new_name: name, force }) == (
        OperationView::BranchRename { old_name: start, new_name: name, force }),
        operation_of(
            GraftCommand::BranchUpstream { branch: start, remote: name, remote_branch: other },
        ) == (OperationView::BranchUpstream { branch: start, remote: name, remote_branch: other }),
        operation_of(GraftCommand::BranchUnsetUpstream { branch: start }) == (
        OperationView::BranchUnsetUpstream { branch: start }),
        operation_of(GraftCommand::TagCreate { name, target: start, message }) == (
        OperationView::TagCreate { name, target: start, message }),
        operation_of(GraftCommand::TagDelete { name }) == (OperationView::TagDelete { name }),
        operation_of(GraftCommand::SwitchBranch { name, force }) == (OperationView::SwitchBranch {
            name,
            force,
        }),
        operation_of(GraftCommand::SwitchCreate { name, start_point: start, force }) == (
        OperationView::SwitchCreate { name, start_point: start, force }),
        operation_of(GraftCommand::Commit { message: name }) == (OperationView::Commit { message: name }),
        operation_of(GraftCommand::Merge { rev: name }) == (OperationView::Merge { rev: name }),
        operation_of(GraftCommand::MergeContinue { message: name }) == (OperationView::MergeContinue {
            message: name,
        }),
        operation_of(GraftCommand::JsonMergeContinueValidated { message: name }) == (
        OperationView::MergeContinueValidated { message: name }),
        operation_of(GraftCommand::MergeAbort) == OperationView::MergeAbort,
        operation_of(GraftCommand::Show { target: name }) == (OperationView::Show { target: name }),
{
}

/// A command about remotes, conflicts and settings hands each of its arguments on as what it is.
pub proof fn law_remote_arguments(
    name: Seq<char>,
    other: Seq<char>,
    third: Seq<char>,
    remote: Option<Seq<char>>,
    branch: Option<Seq<char>>,
    refspec: Option<Seq<char>>,
    all: bool,
    force: bool,
    side: ResolveSide,
    mode: ResetMode,
)
    ensures
        operation_of(GraftCommand::RemoteRename { old_name: name, new_name: other }) == (
        OperationView::RemoteRename { old_name: name, new_name: other }),
        operation_of(GraftCommand::RemoteRemove { name }) == (OperationView::RemoteRemove { name }),
        operation_of(GraftCommand::RemotePrune { name }) == (OperationView::RemotePrune { name }),
        operation_of(GraftCommand::RemoteGetUrl { name }) == (OperationView::RemoteGetUrl { name }),
        operation_of(GraftCommand::LsRemote { name }) == (OperationView::LsRemote { name }),
        operation_of(GraftCommand::Fetch { remote, branch, refspec, all }) == (OperationView::Fetch {
            remote,
            branch,
            refspec,
            all,
        }),
        operation_of(GraftCommand::FetchAsync { remote, branch, refspec, all }) == (
        OperationView::FetchAsync { remote, branch, refspec, all }),
        operation_of(GraftCommand::Pull { remote, branch, refspec, all }) == (OperationView::Pull {
            remote,
            branch,
            refspec,
            all,
        }),
        operation_of(GraftCommand::Push { remote, branch, refspec, all, force }) == (
        OperationView::Push { remote, branch, refspec, all, force }),
        operation_of(GraftCommand::JsonResolveTableConflict { path: name, table: other, side }) == (
        OperationView::ResolveTable { path: name, table: other, side }),
        operation_of(GraftCommand::JsonUnresolveConflict { path: name }) == (OperationView::Unresolve {
            path: name,
        }),
        operation_of(
            GraftCommand::JsonRecordMergePathResolution { path: name, resolution: other },
        ) == (OperationView::RecordPathResolution { path: name, resolution: other }),
        operation_of(GraftCommand::ConfigSet { key: name, value: other }) == (OperationView::ConfigSet {
            key: name,
            value: other,
        }),
        operation_of(GraftCommand::ConfigGet { key: name }) == (OperationView::ConfigGet { key: name }),
        operation_of(GraftCommand::ConfigUnset { key: name }) == (OperationView::ConfigUnset {
            key: name,
        }),
        operation_of(GraftCommand::Reset { rev: name, mode }) == (OperationView::Reset {
            rev: name,
            mode,
        }),
        operation_of(GraftCommand::JobStatus { id: name }) == (OperationView::JobStatus { id: name }),
        operation_of(GraftCommand::JobResult { id: name }) == (OperationView::JobResult { id: name }),
{
}

/// A command that takes a set of options hands it on whole.
pub proof fn law_options_are_handed_on(c: CommandView)
    ensures
        c matches GraftCommand::RepoCheckout { spec } ==> operation_of(c) == (OperationView::Checkout {
            spec,
        }),
        c matches GraftCommand::Restore { spec } ==> operation_of(c) == (OperationView::Restore { spec }),
        c matches GraftCommand::Export { spec } ==> operation_of(c) == (OperationView::Export { spec }),
        c matches GraftCommand::Add { spec } ==> operation_of(c) == (OperationView::Add { spec }),
        c matches GraftCommand::Remove { spec } ==> operation_of(c) == (OperationView::Remove { spec }),
        c matches GraftCommand::RepoInit { spec } ==> operation_of(c) == (OperationView::Init { spec }),
        c matches GraftCommand::RepoClone { spec } ==> operation_of(c) == (OperationView::Clone { spec }),
        c matches GraftCommand::Status { spec } ==> operation_of(c) == (OperationView::Status { spec }),
        c matches GraftCommand::Resolve { spec } ==> operation_of(c) == (OperationView::Resolve { spec }),
        c matches GraftCommand::RepoDiff { spec } ==> operation_of(c) == (OperationView::Diff { spec }),
        c matches GraftCommand::JsonLog { spec } ==> operation_of(c) == (OperationView::LogPage { spec }),
        c matches GraftCommand::StorageGc { spec } ==> operation_of(c) == (OperationView::StorageGc {
            spec,
        }),
        c matches GraftCommand::RepoAudit { spec } ==> operation_of(c) == (OperationView::Audit { spec }),
        c matches GraftCommand::LsFiles { spec } ==> operation_of(c) == (OperationView::LsFiles { spec }),
        c matches GraftCommand::RemoteAdd { name, config } ==> operation_of(c) == (
        OperationView::RemoteAdd { name, config }),
        operation_of(GraftCommand::Tags) == OperationView::Tags,
        operation_of(GraftCommand::Log) == OperationView::Log,
        operation_of(GraftCommand::Conflicts) == OperationView::Conflicts,
        operation_of(GraftCommand::JsonConflicts) == OperationView::Conflicts,
        operation_of(GraftCommand::Remotes) == OperationView::Remotes,
        operation_of(GraftCommand::JsonRemotes) == OperationView::Remotes,
        operation_of(GraftCommand::ConfigList) == OperationView::ConfigList,
        operation_of(GraftCommand::JsonMergeAbort) == OperationView::MergeAbort,
        c matches GraftCommand::JsonTags { mode } ==> operation_of(c) == (OperationView::TagList {
            mode,
        }),
        c matches GraftCommand::Branch { mode } ==> operation_of(c) == (OperationView::Branches {
            mode,
        }),
        c matches GraftCommand::LargeFileFetch { spec } ==> operation_of(c) == (
        OperationView::PayloadFetch { spec }),
        c matches GraftCommand::LargeFileStatus { spec } ==> operation_of(c) == (
        OperationView::PayloadStatus { spec }),
        c matches GraftCommand::LargeFilePrune { spec } ==> operation_of(c) == (
        OperationView::PayloadPrune { spec }),
        c matches GraftCommand::RemoteSetUrl { name, config } ==> operation_of(c) == (
        OperationView::RemoteSetUrl { name, config }),
{
}

/// While a transaction is open, whatever writes the worktree, the index or the branch that is checked
/// out is refused, and so is whatever compares or stages the open database. What only reads or
/// changes refs, remotes and settings is not.
pub proof fn law_open_transactions(c: CommandView)
    ensures
        match operation_of(c) {
            Operation::Checkout { .. } | Operation::Restore { .. } | Operation::Export { .. }
            | Operation::Init { .. } | Operation::Clone { .. } | Operation::Add { .. }
            | Operation::Remove { .. } | Operation::Commit { .. } | Operation::SwitchBranch { .. }
            | Operation::SwitchCreate { .. } | Operation::Merge { .. } | Operation::MergeAbort
            | Operation::MergeContinue { .. } | Operation::MergeContinueValidated { .. }
            | Operation::Resolve { .. } | Operation::ResolveTable { .. } | Operation::Unresolve { .. }
            | Operation::Pull { .. } | Operation::StorageGc { .. } | Operation::Reset { .. }
            | Operation::Diff { .. } | Operation::Show { .. } => refusal(c, false) is Some,
            _ => refusal(c, false) is None,
        },
        refusal(c, true) is Some ==> refusal(c, false) is Some,
{
}

/// A command without an open transaction is refused only where it pulls every branch at once, or asks
/// a report for what only JSON can give.
pub proof fn law_idle_refusals(c: CommandView)
    ensures
        refusal(c, true) is Some <==> {
            ||| c matches GraftCommand::Pull { all, .. } && all
            ||| c matches GraftCommand::JsonPull { all, .. } && all
            ||| c matches GraftCommand::RepoDiff { spec } && spec.content is Some
        },
{
}

/// Work in progress stops a command unless it is forced, and is then discarded; without any there is
/// nothing to discard.
pub proof fn law_work_in_progress_and_force(operation: Seq<char>, work: bool, force: bool)
    ensures
        clean_guard(operation, work, force) is Err <==> work && !force,
        clean_guard(operation, work, force) matches Ok(discard) ==> (discard <==> work),
{
}

/// A clone takes the branch that was asked for, or else the one that the remote has as its own, or
/// else the usual one.
pub proof fn law_branch_of_a_clone(
    asked: Option<Seq<char>>,
    remote: Option<Seq<char>>,
    own: Seq<char>,
)
    ensures
        asked is Some ==> branch_to_clone(asked, remote, own) == asked->0,
        asked is None && remote is Some ==> branch_to_clone(asked, remote, own) == remote->0,
        asked is None && remote is None ==> branch_to_clone(asked, remote, own) == own,
{
}

/// A push goes from the named branch, or the one that is checked out, to the upstream branch of the
/// upstream remote; without a branch that is checked out it goes nowhere.
pub proof fn law_branches_of_a_push(
    branch: Option<Seq<char>>,
    current: Option<Seq<char>>,
    upstream: BranchUpstream<Seq<char>>,
)
    ensures
        branches_to_push(branch, current, upstream) is Ok <==> current is Some,
        branches_to_push(branch, current, upstream) matches Ok(p) ==> {
            &&& p.0 == upstream.remote
            &&& branch is Some ==> p.1 == branch->0
            &&& branch is None ==> p.1 == current->0
            &&& p.2 == upstream.branch
        },
{
}

/// A push builds on what is known of the remote branch, where something is and it is not forced;
/// otherwise on what the remote has.
pub proof fn law_base_of_a_push(
    force: bool,
    known: Option<Seq<char>>,
    remote: Option<Seq<char>>,
)
    ensures
        push_base(true, known, remote) == remote,
        known is Some ==> push_base(false, known, remote) == known,
        known is None ==> push_base(force, known, remote) == remote,
{
}

/// A page of the log leads on from its last commit, exactly where there is more; a whole log does not
/// lead on. Without a limit the whole log is read.
pub proof fn law_pages_of_the_log(
    spec: JsonLogSpec<Seq<char>>,
    commits: Seq<CommitObjectView>,
    more: bool,
)
    ensures
        spec.limit is None <==> log_reading_of(spec) is Whole,
        log_reading_of(spec) matches LogReading::Page { limit, after } ==> spec.limit == Some(limit)
            && after == spec.after,
        repo_log(LogRead::Whole(commits)).commits == commits,
        !repo_log(LogRead::Whole(commits)).has_more,
        repo_log(LogRead::Whole(commits)).next_cursor is None,
        repo_log(LogRead::Page { commits, has_more: more }).commits == commits,
        repo_log(LogRead::Page { commits, has_more: more }).has_more == more,
        repo_log(LogRead::Page { commits, has_more: more }).next_cursor is Some <==> more
            && commits.len() > 0,
        more && commits.len() > 0 ==> repo_log(LogRead::Page { commits, has_more: more }).next_cursor
            == Some(commits[commits.len() - 1].id),
        !more ==> next_log_cursor(commits, more) is None,
{
}

/// A session looks for a repository where it has none, and it fails only where none can be found.
pub proof fn law_repository_of_a_session(attached: bool, discoverable: bool, tag: Seq<char>)
    ensures
        looks_for_repo(attached, discoverable, tag) is Ok <==> attached || discoverable,
        looks_for_repo(attached, discoverable, tag) matches Ok(looks) ==> looks == !attached,
        use_of(OperationView::MergeAbort) == RepositoryUse::AmongSteps,
        use_of(OperationView::Conflicts) == RepositoryUse::First,
{
}

/// A commit of a snapshot passes where the stored one has the hash that was recorded, in its place;
/// with another hash it passes only where that is allowed, and is counted.
pub proof fn law_commits_that_pass(
    range: RepoLogRangeView,
    log: Seq<char>,
    k: int,
    stored: Option<Seq<char>>,
    policy: SnapshotHashPolicy,
)
    requires
        0 <= k,
    ensures
        commit_check(range, log, k, stored, policy) == Ok::<_, CommandError<Seq<char>>>(false) <==> k
            < range.commits.len() && range.commits[k].lsn == range.start + k && stored == Some(
            range.commits[k].commit_hash,
        ),
        commit_check(range, log, k, stored, policy) == Ok::<_, CommandError<Seq<char>>>(true) <==> k
            < range.commits.len() && range.commits[k].lsn == range.start + k && stored is Some
            && stored != Some(range.commits[k].commit_hash) && policy != SnapshotHashPolicy::Strict,
{
}

/// A range of a snapshot passes strictly exactly where it records every commit of its span, in order
/// and no more, and each is stored with the hash that is recorded.
pub proof fn law_ranges_that_pass(
    range: RepoLogRangeView,
    log: Seq<char>,
    stored: Seq<Option<Seq<char>>>,
)
    ensures
        whole_range_check(range, log, stored, SnapshotHashPolicy::Strict) is Ok <==> {
            &&& range.commits.len() == span(range)
            &&& forall|k: int| #![trigger range.commits[k]]
                0 <= k < span(range) ==> range.commits[k].lsn == range.start + k && stored[k] == Some(
                    range.commits[k].commit_hash,
                )
        },
{
    lemma_range(range, log, stored, SnapshotHashPolicy::Strict, span(range));
}

proof fn lemma_range(
    range: RepoLogRangeView,
    log: Seq<char>,
    stored: Seq<Option<Seq<char>>>,
    policy: SnapshotHashPolicy,
    n: int,
)
    requires
        0 <= n,
    ensures
        range_check(range, log, stored, policy, n) is Ok <==> {
            &&& n <= range.commits.len()
            &&& forall|k: int| #![trigger range.commits[k]]
                0 <= k < n ==> range.commits[k].lsn == range.start + k && stored[k] is Some && (policy
                    == SnapshotHashPolicy::Strict ==> stored[k] == Some(
                    range.commits[k].commit_hash,
                ))
        },
        range_check(range, log, stored, policy, n) matches Ok(count) ==> (count == 0 <==> forall|
            k: int,
        | #![trigger range.commits[k]]
            0 <= k < n ==> stored[k] == Some(range.commits[k].commit_hash)),
    decreases n,
{
    if n > 0 {
        lemma_range(range, log, stored, policy, n - 1);
        let k = n - 1;
        law_commits_that_pass(range, log, k, stored[k], policy);
        if range_check(range, log, stored, policy, n - 1) is Ok {
            assert(range_check(range, log, stored, policy, n) is Ok <==> commit_check(
                range,
                log,
                k,
                stored[k],
                policy,
            ) is Ok);
            if k < range.commits.len() {
                assert(range.commits[k] == range.commits[k]);
            }
        }
    }
}

/// Where other hashes are allowed, a range passes as long as each commit is recorded in its place and
/// stored, and none is counted exactly where every hash is the recorded one.
pub proof fn law_ranges_that_may_differ(
    range: RepoLogRangeView,
    log: Seq<char>,
    stored: Seq<Option<Seq<char>>>,
)
    ensures
        whole_range_check(range, log, stored, SnapshotHashPolicy::AllowHydratedMismatch) is Ok <==> {
            &&& range.commits.len() == span(range)
            &&& forall|k: int| #![trigger range.commits[k]]
                0 <= k < span(range) ==> range.commits[k].lsn == range.start + k && stored[k] is Some
        },
        whole_range_check(range, log, stored, SnapshotHashPolicy::AllowHydratedMismatch) matches Ok(
            count,
        ) ==> (count == 0 <==> whole_range_check(range, log, stored, SnapshotHashPolicy::Strict)
            is Ok),
{
    lemma_range(range, log, stored, SnapshotHashPolicy::AllowHydratedMismatch, span(range));
    lemma_range(range, log, stored, SnapshotHashPolicy::Strict, span(range));
}

/// The parents of a commit are those of a merge, or its only one, or none.
pub proof fn law_parents_of_a_commit(commit: CommitObjectView)
    ensures
        commit.parents.len() > 0 ==> parent_ids(commit) == commit.parents,
        commit.parents.len() == 0 && commit.parent is Some ==> parent_ids(commit).len() == 1
            && parent_ids(commit)[0] == commit.parent->0,
        commit.parents.len() == 0 && commit.parent is None ==> parent_ids(commit).len() == 0,
{
}

/// A snapshot is fetched from where its policy says, and only where there is something to fetch and a
/// remote to fetch it from.
pub proof fn law_snapshots_are_fetched(
    empty: bool,
    source: RepoSnapshotResolveSource,
    has_remote: bool,
)
    ensures
        hydrate_step(empty, source, has_remote) is Err <==> !empty && source
            == RepoSnapshotResolveSource::Remote && !has_remote,
        hydrate_step(empty, source, has_remote) == Ok::<_, CommandError<Seq<char>>>(
            HydrateStep::Nothing,
        ) <==> empty,
        hydrate_step(empty, source, has_remote) == Ok::<_, CommandError<Seq<char>>>(
            HydrateStep::FetchLogs,
        ) <==> !empty && source == RepoSnapshotResolveSource::Local,
        mode_for(true) == RepoSnapshotRemoteMode::Remote,
        mode_for(false) == RepoSnapshotRemoteMode::LocalOnly,
{
}

/// The commits of a range are recorded with the hashes that are stored, one for each place and in
/// order, and there is none to record exactly where one is missing.
pub proof fn law_commits_are_recorded(
    start: u64,
    log: Seq<char>,
    stored: Seq<Option<Seq<char>>>,
    n: int,
)
    requires
        0 <= n <= stored.len(),
        start + n <= u64::MAX,
    ensures
        stored_commits(start, log, stored, n) is Ok <==> forall|k: int| #![trigger stored[k]]
            0 <= k < n ==> stored[k] is Some,
        stored_commits(start, log, stored, n) matches Ok(commits) ==> commits.len() == n && forall|
            k: int,
        | #![trigger commits[k]]
            0 <= k < n ==> commits[k].lsn == start + k && Some(commits[k].commit_hash) == stored[k],
    decreases n,
{
    if n > 0 {
        law_commits_are_recorded(start, log, stored, n - 1);
        assert(stored[n - 1] is Some || stored[n - 1] is None);
    }
}

/// The states of a path are those that the list has of it, in its order.
pub proof fn law_states_of_a_path(files: Seq<PathFileView>, file: PathFileView, path: Seq<char>)
    ensures
        states_of(Seq::empty(), path).len() == 0,
        file.path == path ==> states_of(files.push(file), path) == states_of(files, path).push(
            file.state,
        ),
        file.path != path ==> states_of(files.push(file), path) == states_of(files, path),
{
    assert(files.push(file).drop_last() =~= files);
}

/// A push of every branch takes each one that has a commit, and no other.
pub proof fn law_branches_with_commits(branches: Seq<BranchInfoView>, name: Seq<char>)
    ensures
        born_branches(branches).contains(name) <==> exists|i: int| #![trigger branches[i]]
            0 <= i < branches.len() && branches[i].name == name && branches[i].target is Some,
    decreases branches.len(),
{
    if branches.len() > 0 {
        let rest = branches.drop_last();
        let n = branches.len() - 1;
        law_branches_with_commits(rest, name);
        let was = born_branches(rest);
        let now = born_branches(branches);
        if branches.last().target is Some {
            assert(now[was.len() as int] == branches.last().name);
        }
        if was.contains(name) {
            assert(now[was.index_of(name)] == name);
            let i = choose|i: int| #![trigger rest[i]]
                0 <= i < rest.len() && rest[i].name == name && rest[i].target is Some;
            assert(branches[i] == rest[i]);
        }
        if now.contains(name) && !was.contains(name) {
            let at = now.index_of(name);
            if at < was.len() {
                assert(was[at] == name);
            }
            assert(branches[n].name == name);
        }
        if exists|i: int| #![trigger branches[i]]
            0 <= i < branches.len() && branches[i].name == name && branches[i].target is Some {
            let i = choose|i: int| #![trigger branches[i]]
                0 <= i < branches.len() && branches[i].name == name && branches[i].target is Some;
            if i < n {
                assert(rest[i] == branches[i]);
            }
        }
    }
}

/// Some range of a list has a place of a log in it.
pub open spec fn has_place(ranges: Seq<RepoLogRangeView>, log: Seq<char>, x: int, n: int) -> bool {
    exists|i: int| #![trigger ranges[i]]
        0 <= i < n && ranges[i].log == log && ranges[i].start <= x <= ranges[i].end
}

/// What is published of a database are the places of its logs that no parent has, and no others.
pub proof fn law_published_places(
    state: CommitFileStateView,
    parents: Seq<CommitFileStateView>,
    log: Seq<char>,
    x: int,
    n: int,
)
    requires
        0 <= n <= state.snapshot.ranges.len(),
    ensures
        has_place(
            delta_ranges(state, parents, n),
            log,
            x,
            delta_ranges(state, parents, n).len() as int,
        ) <==> has_place(state.snapshot.ranges, log, x, n) && !covered(state, parents, log, x),
    decreases n,
{
    if n > 0 {
        let all = state.snapshot.ranges;
        let range = all[n - 1];
        law_published_places(state, parents, log, x, n - 1);
        let list = gaps(coverage(state, parents, range.log), 0, range.start, range.end);
        law_delta_is_what_parents_lack(state, parents, range, x);
        let was = delta_ranges(state, parents, n - 1);
        let more = sub_ranges(range, list);
        let now = delta_ranges(state, parents, n);
        assert(now == was + more);
        if has_place(now, log, x, now.len() as int) {
            let i = choose|i: int| #![trigger now[i]]
                0 <= i < now.len() && now[i].log == log && now[i].start <= x <= now[i].end;
            if i < was.len() {
                assert(was[i] == now[i]);
                assert(has_place(was, log, x, was.len() as int));
                let j = choose|j: int| #![trigger all[j]]
                    0 <= j < n - 1 && all[j].log == log && all[j].start <= x <= all[j].end;
                assert(all[j].log == log);
            } else {
                let j = i - was.len();
                assert(more[j] == now[i]);
                assert(within(list[j], x));
                assert(in_any(list, x));
                assert(all[n - 1].log == log);
            }
        }
        if has_place(all, log, x, n) && !covered(state, parents, log, x) {
            let i = choose|i: int| #![trigger all[i]]
                0 <= i < n && all[i].log == log && all[i].start <= x <= all[i].end;
            if i < n - 1 {
                assert(has_place(all, log, x, n - 1));
                let j = choose|j: int| #![trigger was[j]]
                    0 <= j < was.len() && was[j].log == log && was[j].start <= x <= was[j].end;
                assert(now[j] == was[j]);
            } else {
                assert(in_any(list, x));
                let j = choose|j: int| 0 <= j < list.len() && within(#[trigger] list[j], x);
                assert(more[j].log == log && more[j].start <= x <= more[j].end);
                assert(now[was.len() + j] == more[j]);
            }
        }
    }
}

/// A part of a range keeps its log and the commits of its places, and no others.
pub proof fn law_parts_of_a_range(
    range: RepoLogRangeView,
    start: u64,
    end: u64,
    commit: StorageCommitView,
)
    ensures
        sub_range(range, (start, end)).log == range.log,
        sub_range(range, (start, end)).start == start,
        sub_range(range, (start, end)).end == end,
        sub_range(range, (start, end)).commits.contains(commit) <==> range.commits.contains(commit)
            && start <= commit.lsn <= end,
{
    lemma_filters_keep(range.commits);
}

/// A list of members has the value under the name.
pub open spec fn tells(members: Seq<JsonMemberView>, name: Seq<char>, value: JsonFieldView) -> bool {
    exists|i: int| #![trigger members[i]]
        0 <= i < members.len() && members[i].name == name && members[i].value == value
}

/// The status of a job tells how it ended: with its result, or with its error.
pub proof fn law_status_tells_how_a_job_ended(
    job: AsyncJobView,
    id: Seq<char>,
    text: Seq<char>,
    kind: Seq<char>,
    format: AsyncJobResultFormat,
)
    ensures
        tells(status_members(ended(job, Ok(text)), id), "result"@, JsonField::Text(text)),
        tells(status_members(ended(job, Ok(text)), id), "error"@, JsonField::Null),
        tells(status_members(ended(job, Ok(text)), id), "state"@, JsonField::Text("done"@)),
        tells(status_members(ended(job, Err(text)), id), "error"@, JsonField::Text(text)),
        tells(status_members(ended(job, Err(text)), id), "result"@, JsonField::Null),
        tells(status_members(ended(job, Err(text)), id), "state"@, JsonField::Text("failed"@)),
        tells(status_members(started(kind, format), id), "state"@, JsonField::Text("running"@)),
        tells(status_members(started(kind, format), id), "kind"@, JsonField::Text(kind)),
        tells(status_members(job, id), "id"@, JsonField::Text(id)),
        tells(json_status_members(ended(job, Err(text)), id), "error"@, JsonField::Text(text)),
        tells(json_status_members(ended(job, Err(text)), id), "result"@, JsonField::Null),
        tells(json_status_members(ended(job, Err(text)), id), "state"@, JsonField::Text("failed"@)),
        tells(json_status_members(ended(job, Ok(text)), id), "error"@, JsonField::Null),
        tells(json_status_members(ended(job, Ok(text)), id), "state"@, JsonField::Text("done"@)),
        job.format == AsyncJobResultFormat::Text ==> tells(
            json_status_members(ended(job, Ok(text)), id),
            "result"@,
            JsonField::Text(text),
        ),
        tells(json_status_members(job, id), "id"@, JsonField::Text(id)),
        tells(json_status_members(job, id), "result_format"@, JsonField::Text(job.format.name())),
{
    let a = status_members(ended(job, Ok(text)), id);
    assert(a[0].name == "error"@ && a[3].name == "result"@ && a[4].name == "state"@);
    let b = status_members(ended(job, Err(text)), id);
    assert(b[0].name == "error"@ && b[3].name == "result"@ && b[4].name == "state"@);
    let c = status_members(started(kind, format), id);
    assert(c[2].name == "kind"@ && c[4].name == "state"@);
    assert(status_members(job, id)[1].name == "id"@);
    let d = json_status_members(ended(job, Ok(text)), id);
    assert(d[0].name == "error"@ && d[3].name == "result"@ && d[5].name == "state"@);
    let e = json_status_members(ended(job, Err(text)), id);
    assert(e[0].name == "error"@ && e[3].name == "result"@ && e[5].name == "state"@);
    let f = json_status_members(job, id);
    assert(f[1].name == "id"@ && f[4].name == "result_format"@);
}

/// An update takes each of its steps once and ends up in the new state. Nothing is changed before the
/// repository is open and the plan is made; where the worktree is locked, it is before the plan; and
/// what was recorded of an earlier merge is forgotten before a new one is applied.
pub proof fn law_steps_of_an_update(kind: UpdateKind, force: bool)
    ensures
        update_order(kind, force).contains(UpdateStep::OpenRepository),
        update_order(kind, force).contains(UpdateStep::MakePlan),
        update_order(kind, force).contains(UpdateStep::Apply),
        update_order(kind, force).contains(UpdateStep::WriteWorktree),
        update_order(kind, force).contains(UpdateStep::LockWorktree) <==> kind
            == UpdateKind::Checkout || kind == UpdateKind::Switch || kind == UpdateKind::Pull,
        update_order(kind, force).contains(UpdateStep::MergeRows) <==> kind == UpdateKind::Merge
            || kind == UpdateKind::Pull,
        update_order(kind, force).contains(UpdateStep::ClearResolutions) <==> kind
            == UpdateKind::Merge || kind == UpdateKind::Pull || kind == UpdateKind::MergeAbort,
        update_order(kind, force).contains(UpdateStep::ResolveSnapshots) <==> kind
            != UpdateKind::MergeAbort,
        update_order(kind, force).contains(UpdateStep::RecordConflicts) <==> kind
            == UpdateKind::Merge,
        done_before(update_order(kind, force), UpdateStep::OpenRepository, UpdateStep::Apply),
        done_before(update_order(kind, force), UpdateStep::MakePlan, UpdateStep::Apply),
        done_before(update_order(kind, force), UpdateStep::MakePlan, UpdateStep::Preflight),
        done_before(update_order(kind, force), UpdateStep::LockWorktree, UpdateStep::MakePlan),
        kind != UpdateKind::MergeAbort ==> done_before(
            update_order(kind, force),
            UpdateStep::ClearResolutions,
            UpdateStep::Apply,
        ),
        done_before(update_order(kind, force), UpdateStep::RecordConflicts, UpdateStep::MergeRows),
        kind == UpdateKind::Switch ==> update_order(kind, force) == update_order(
            UpdateKind::Checkout,
            force,
        ),
        force && (kind == UpdateKind::Checkout || kind == UpdateKind::Switch) ==> !update_order(
            kind,
            force,
        ).contains(UpdateStep::CheckUntracked),
{
    let order = update_order(kind, force);
    match kind {
        UpdateKind::Checkout | UpdateKind::Switch => {
            assert(order[0] == UpdateStep::LockWorktree && order[1] == UpdateStep::OpenRepository
                && order[2] == UpdateStep::MakePlan);
            if force {
                assert(order[4] == UpdateStep::ResolveSnapshots && order[6] == UpdateStep::Apply
                    && order[7] == UpdateStep::WriteWorktree);
            } else {
                assert(order[5] == UpdateStep::ResolveSnapshots && order[7] == UpdateStep::Apply
                    && order[8] == UpdateStep::WriteWorktree);
            }
        },
        UpdateKind::Merge => {
            assert(order[0] == UpdateStep::OpenRepository && order[2] == UpdateStep::ClearResolutions
                && order[3] == UpdateStep::MakePlan && order[4] == UpdateStep::ResolveSnapshots
                && order[7] == UpdateStep::Apply && order[8] == UpdateStep::WriteWorktree && order[9]
                == UpdateStep::RecordConflicts && order[10] == UpdateStep::MergeRows);
        },
        UpdateKind::Pull => {
            assert(order[0] == UpdateStep::OpenRepository && order[1] == UpdateStep::LockWorktree
                && order[3] == UpdateStep::MakePlan && order[4] == UpdateStep::ResolveSnapshots
                && order[7] == UpdateStep::ClearResolutions && order[8] == UpdateStep::Apply
                && order[9] == UpdateStep::WriteWorktree && order[10] == UpdateStep::MergeRows);
        },
        UpdateKind::MergeAbort => {
            assert(order[0] == UpdateStep::OpenRepository && order[1] == UpdateStep::MakePlan
                && order[3] == UpdateStep::Apply && order[4] == UpdateStep::WriteWorktree && order[5]
                == UpdateStep::ClearResolutions);
        },
    }
}

/// Only what makes a repository or asks for a job needs none; what replaces the worktree opens it among
/// its own steps; everything else before it does anything.
pub proof fn law_use_of_the_repository(o: OperationView)
    ensures
        use_of(o) == RepositoryUse::Never <==> o is Init || o is Clone || o is JobStatus || o
            is JobResult,
        use_of(o) == RepositoryUse::AmongSteps <==> o is Checkout || o is SwitchBranch || o
            is SwitchCreate || o is Merge || o is MergeAbort || o is Pull || o is Reset,
{
}

/// A snapshot is taken from the remote first exactly where its policy says so.
pub proof fn law_first_source(policy: RepoSnapshotResolvePolicy)
    ensures
        policy.first() == RepoSnapshotResolveSource::Remote <==> policy.remote_mode
            == RepoSnapshotRemoteMode::Remote,
        policy.first() == RepoSnapshotResolveSource::Local <==> policy.remote_mode
            == RepoSnapshotRemoteMode::LocalOnly || policy.remote_mode
            == RepoSnapshotRemoteMode::LocalThenRemote,
{
}

} // verus!
