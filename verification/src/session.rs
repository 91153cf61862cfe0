//! What stands in the way of a command that the repository is asked for, what it falls back on, and
//! what is said when it is done.
use vstd::prelude::*;
use vstd::string::*;

use crate::error::{copy_option, invalid_command, seen, text_option, CommandError, RepoErr};
use crate::json::{JsonRepoPathDiff, JsonRepoPathDiffView};
use crate::labels::{
    file_change_name, kind_json, repo_file_change_label, repo_path_storage_json_label,
    repo_tracked_path_kind_json_label, reset_mode_label, reset_mode_name, storage_json,
};
use crate::model::{BranchUpstream, CommitObject, CommitObjectView, PathChangeView};
use crate::remote::{remote_config_uri, uri_of};
use crate::report::has_twelve;
use crate::report_sync::RemoteInfo;
use crate::show::{has_short, short, short_id, views};
use crate::snapshot::{parent_ids, repo_commit_parent_ids};
use crate::spec::{JsonLogSpec, ResetMode, ResolveSide};
use crate::text::{cat2, cat3, cat4, cat5, texts};

verus! {

/// A command that updates the worktree needs the lock on it.
pub fn begin_workspace_checkout(available: bool) -> (r: Result<(), CommandError>)
    ensures
        seen(r) == if available {
            Ok(())
        } else {
            Err(
                CommandError::InvalidCommand(
                    "cannot update the worktree while another SQLite write transaction is open"@,
                ),
            )
        },
{
    if available {
        Ok(())
    } else {
        Err(
            invalid_command(
                "cannot update the worktree while another SQLite write transaction is open",
            ),
        )
    }
}

/// A merge is continued only where one is in progress.
pub fn guard_merge_in_progress(merge_head: &Option<String>) -> (r: Result<(), CommandError>)
    ensures
        seen(r) == if merge_head is Some {
            Ok(())
        } else {
            Err(CommandError::InvalidCommand("no merge in progress"@))
        },
{
    if merge_head.is_some() {
        Ok(())
    } else {
        Err(invalid_command("no merge in progress"))
    }
}

/// A clone goes where there is no repository: neither attached to the session nor found around
/// the file.
pub fn guard_clone_target(attached: bool, found: bool) -> (r: Result<(), CommandError>)
    ensures
        seen(r) == if attached || found {
            Err(CommandError::InvalidCommand("cannot clone into an existing .graft repository"@))
        } else {
            Ok(())
        },
{
    if attached || found {
        Err(invalid_command("cannot clone into an existing .graft repository"))
    } else {
        Ok(())
    }
}

/// Whether the repository of a session is looked for around its file: it is where the session has
/// none, if the file is one that can belong to a repository.
pub open spec fn looks_for_repo(attached: bool, discoverable: bool, tag: Seq<char>) -> Result<
    bool,
    CommandError<Seq<char>>,
> {
    if attached {
        Ok(false)
    } else if discoverable {
        Ok(true)
    } else {
        Err(CommandError::Repo(RepoErr::NotFound(tag)))
    }
}

pub fn repo_for_file(attached: bool, discoverable: bool, tag: &str) -> (r: Result<
    bool,
    CommandError,
>)
    ensures
        seen(r) == looks_for_repo(attached, discoverable, tag@),
{
    if attached {
        Ok(false)
    } else if discoverable {
        Ok(true)
    } else {
        Err(CommandError::Repo(RepoErr::NotFound(tag.to_owned())))
    }
}

/// What is tidied up after a clone that failed: the new repository, unless the session already has
/// it.
pub fn clone_leaves_nothing(failed: bool, attached: bool) -> (r: bool)
    ensures
        r == (failed && !attached),
{
    failed && !attached
}

/// The branch that a clone checks out: the one that was asked for, the default branch of the
/// remote, or that of a new repository.
pub open spec fn branch_to_clone(
    requested: Option<Seq<char>>,
    remote_default: Option<Seq<char>>,
    own_default: Seq<char>,
) -> Seq<char> {
    match (requested, remote_default) {
        (Some(branch), _) => branch,
        (None, Some(branch)) => branch,
        (None, None) => own_default,
    }
}

pub fn clone_branch(
    requested: Option<String>,
    remote_default: Option<String>,
    own_default: String,
) -> (r: String)
    ensures
        r@ == branch_to_clone(text_option(requested), text_option(remote_default), own_default@),
{
    match requested {
        Some(branch) => branch,
        None => match remote_default {
            Some(branch) => branch,
            None => own_default,
        },
    }
}

/// The remote-tracking ref that a cloned branch starts from.
pub fn clone_start_point(branch: &str) -> (r: String)
    ensures
        r@ == "refs/remotes/origin/"@ + branch@,
{
    cat2("refs/remotes/origin/", branch)
}

/// The remote of a push, the branch that is pushed and the one that it goes to.
pub open spec fn branches_to_push(
    branch: Option<Seq<char>>,
    current: Option<Seq<char>>,
    upstream: BranchUpstream<Seq<char>>,
) -> Result<(Seq<char>, Seq<char>, Seq<char>), CommandError<Seq<char>>> {
    match current {
        None => Err(CommandError::InvalidCommand("cannot push in detached HEAD"@)),
        Some(head) => Ok(
            (
                upstream.remote,
                match branch {
                    Some(name) => name,
                    None => head,
                },
                upstream.branch,
            ),
        ),
    }
}

/// The current branch is needed even where another branch is named.
pub fn repo_push_branches(
    branch: Option<String>,
    current: Option<String>,
    upstream: BranchUpstream,
) -> (r: Result<(String, String, String), CommandError>)
    ensures
        match r {
            Ok((remote, local, tracked_branch)) => branches_to_push(
                text_option(branch),
                text_option(current),
                upstream@,
            ) == Ok::<_, CommandError<Seq<char>>>((remote@, local@, tracked_branch@)),
            Err(e) => branches_to_push(
                text_option(branch),
                text_option(current),
                upstream@,
            ) == Err::<
                (Seq<char>, Seq<char>, Seq<char>),
                _,
            >(e@),
        },
{
    match current {
        None => Err(invalid_command("cannot push in detached HEAD")),
        Some(head) => {
            let local = match branch {
                Some(name) => name,
                None => head,
            };
            Ok((upstream.remote, local, upstream.branch))
        },
    }
}

/// The commit that a push without force starts from: the remote-tracking branch, or what the
/// remote has. With force, what the remote has.
pub open spec fn push_base(
    force: bool,
    tracking: Option<Seq<char>>,
    remote_head: Option<Seq<char>>,
) -> Option<Seq<char>> {
    if !force && tracking is Some {
        tracking
    } else {
        remote_head
    }
}

pub fn push_base_head(force: bool, tracking: Option<String>, remote_head: Option<String>) -> (r:
    Option<String>)
    ensures
        text_option(r) == push_base(force, text_option(tracking), text_option(remote_head)),
{
    if !force && tracking.is_some() {
        tracking
    } else {
        remote_head
    }
}

/// Whether a branch is created at a commit: where a start is named, or where there is a commit.
pub fn branch_has_start(start_point: &Option<String>, head: &Option<String>) -> (r: bool)
    ensures
        r == (start_point is Some || head is Some),
{
    start_point.is_some() || head.is_some()
}

/// The cursor of the next page of a log: the last commit of this page, where there is more.
pub open spec fn next_log_cursor(commits: Seq<CommitObjectView>, has_more: bool) -> Option<
    Seq<char>,
> {
    if has_more && commits.len() > 0 {
        Some(commits.last().id)
    } else {
        None
    }
}

pub fn json_log_next_cursor(commits: &Vec<CommitObject>, has_more: bool) -> (r: Option<String>)
    ensures
        text_option(r) == next_log_cursor(views(commits@), has_more),
{
    let n: usize = commits.len();
    if has_more && n > 0 {
        proof {
            assert(views(commits@).last() == commits@[n - 1]@);
        }
        Some(commits[n - 1].id.clone())
    } else {
        None
    }
}

/// What is read of the history for a log.
#[derive(Debug, Clone, PartialEq, Eq)]
pub enum LogReading<S = String> {
    /// Every commit that HEAD leads to.
    Whole,
    /// As many commits as the limit says, from the one behind `after` on.
    Page { limit: usize, after: Option<S> },
}

pub type LogReadingView = LogReading<Seq<char>>;

impl View for LogReading<String> {
    type V = LogReadingView;

    open spec fn view(&self) -> LogReadingView {
        match self {
            LogReading::Whole => LogReading::Whole,
            LogReading::Page { limit, after } => LogReading::Page {
                limit: *limit,
                after: text_option(*after),
            },
        }
    }
}

/// A limit asks for the page of that size behind the cursor; without one the whole log is read, and
/// the cursor says nothing.
pub open spec fn log_reading_of(spec: JsonLogSpec<Seq<char>>) -> LogReadingView {
    match spec.limit {
        Some(limit) => LogReading::Page { limit, after: spec.after },
        None => LogReading::Whole,
    }
}

pub fn log_reading(spec: &JsonLogSpec) -> (r: LogReading)
    ensures
        r@ == log_reading_of(spec@),
{
    match spec.limit {
        Some(limit) => LogReading::Page { limit, after: copy_option(&spec.after) },
        None => LogReading::Whole,
    }
}

/// What a reading of the history gave; only a page can have more behind it.
#[derive(Debug, Clone, PartialEq, Eq)]
pub enum LogRead<L = Vec<CommitObject>> {
    Whole(L),
    Page { commits: L, has_more: bool },
}

pub type LogReadView = LogRead<Seq<CommitObjectView>>;

impl View for LogRead<Vec<CommitObject>> {
    type V = LogReadView;

    open spec fn view(&self) -> LogReadView {
        match self {
            LogRead::Whole(commits) => LogRead::Whole(views(commits@)),
            LogRead::Page { commits, has_more } => LogRead::Page {
                commits: views(commits@),
                has_more: *has_more,
            },
        }
    }
}

/// The commits of a log, as JSON answers give them.
#[derive(Debug, Clone, PartialEq, Eq)]
pub struct JsonRepoLog<S = String, L = Vec<CommitObject>> {
    pub commits: L,
    pub next_cursor: Option<S>,
    pub has_more: bool,
}

pub type JsonRepoLogView = JsonRepoLog<Seq<char>, Seq<CommitObjectView>>;

impl View for JsonRepoLog<String, Vec<CommitObject>> {
    type V = JsonRepoLogView;

    open spec fn view(&self) -> JsonRepoLogView {
        JsonRepoLog {
            commits: views(self.commits@),
            next_cursor: text_option(self.next_cursor),
            has_more: self.has_more,
        }
    }
}

/// The log that a reading gives: a whole log has nothing behind it, and a page that has more names
/// its last commit as the cursor.
pub open spec fn repo_log(read: LogReadView) -> JsonRepoLogView {
    match read {
        LogRead::Whole(commits) => JsonRepoLog { commits, next_cursor: None, has_more: false },
        LogRead::Page { commits, has_more } => JsonRepoLog {
            commits,
            next_cursor: next_log_cursor(commits, has_more),
            has_more,
        },
    }
}

pub fn json_repo_log(read: LogRead) -> (r: JsonRepoLog)
    ensures
        r@ == repo_log(read@),
{
    match read {
        LogRead::Whole(commits) => JsonRepoLog { commits, next_cursor: None, has_more: false },
        LogRead::Page { commits, has_more } => {
            let next_cursor = json_log_next_cursor(&commits, has_more);
            JsonRepoLog { commits, next_cursor, has_more }
        },
    }
}

/// A commit as JSON answers name it.
#[derive(Debug, Clone, PartialEq, Eq)]
pub struct JsonCommitSummary<S = String, L = Vec<String>> {
    pub id: S,
    pub message: S,
    pub parents: L,
}

pub type JsonCommitSummaryView = JsonCommitSummary<Seq<char>, Seq<Seq<char>>>;

impl View for JsonCommitSummary<String, Vec<String>> {
    type V = JsonCommitSummaryView;

    open spec fn view(&self) -> JsonCommitSummaryView {
        JsonCommitSummary { id: self.id@, message: self.message@, parents: texts(self.parents@) }
    }
}

pub fn json_commit_summary(commit: CommitObject) -> (r: JsonCommitSummary)
    ensures
        r@ == (JsonCommitSummary {
            id: commit@.id,
            message: commit@.message,
            parents: parent_ids(commit@),
        }),
{
    let parents = repo_commit_parent_ids(&commit);
    JsonCommitSummary { id: commit.id, message: commit.message, parents }
}

/// A change of a commit as JSON.
pub open spec fn commit_change_json(change: PathChangeView) -> JsonRepoPathDiffView {
    JsonRepoPathDiff {
        path: change.path,
        previous_path: None,
        change: file_change_name(change.change),
        kind: kind_json(change.kind),
        storage: storage_json(change.storage),
    }
}

pub fn json_commit_path_changes(commit: &CommitObject) -> (r: Vec<JsonRepoPathDiff>)
    ensures
        views(r@) == Seq::new(
            commit@.changes.len(),
            |i: int| commit_change_json(commit@.changes[i]),
        ),
{
    let mut out: Vec<JsonRepoPathDiff> = Vec::new();
    let n: usize = commit.changes.len();
    let mut i: usize = 0;
    while i < n
        invariant
            n == commit.changes@.len(),
            0 <= i <= n,
            out@.len() == i,
            forall|k: int| 0 <= k < i ==> #[trigger] out@[k]@ == commit_change_json(commit@.changes[k]),
        decreases n - i,
    {
        let change = &commit.changes[i];
        out.push(
            JsonRepoPathDiff {
                path: change.path.clone(),
                previous_path: None,
                change: repo_file_change_label(change.change).to_owned(),
                kind: repo_tracked_path_kind_json_label(change.kind).to_owned(),
                storage: repo_path_storage_json_label(change.storage).to_owned(),
            },
        );
        i += 1;
    }
    proof {
        assert(views(out@) =~= Seq::new(
            commit@.changes.len(),
            |i: int| commit_change_json(commit@.changes[i]),
        ));
    }
    out
}

/// The databases of a commit that are written to the worktree: all of them, or none.
pub fn materialized_commit_keys(materialize_sqlite: bool, commit: &CommitObject) -> (r: Vec<String>)
    ensures
        texts(r@) == if materialize_sqlite {
            Seq::new(commit@.files.len(), |i: int| commit@.files[i].path)
        } else {
            Seq::empty()
        },
{
    let mut out: Vec<String> = Vec::new();
    if !materialize_sqlite {
        proof {
            assert(texts(out@) =~= Seq::empty());
        }
        return out;
    }
    let n: usize = commit.files.len();
    let mut i: usize = 0;
    while i < n
        invariant
            n == commit.files@.len(),
            0 <= i <= n,
            out@.len() == i,
            forall|k: int| 0 <= k < i ==> #[trigger] out@[k]@ == commit@.files[k].path,
        decreases n - i,
    {
        out.push(commit.files[i].path.clone());
        i += 1;
    }
    proof {
        assert(texts(out@) =~= Seq::new(commit@.files.len(), |i: int| commit@.files[i].path));
    }
    out
}

/// What is said of an exported database.
pub fn exported_reply(path: &str, output: &str) -> (r: String)
    ensures
        r@ == "Exported "@ + path@ + " to "@ + output@,
{
    cat4("Exported ", path, " to ", output)
}

/// What is said of a new repository.
pub fn init_reply(graft_dir: &str) -> (r: String)
    ensures
        r@ == "Initialized empty Graft repository in "@ + graft_dir@,
{
    cat2("Initialized empty Graft repository in ", graft_dir)
}

/// What is said of a switch of branches.
pub fn switched_reply(name: &str) -> (r: String)
    ensures
        r@ == "Switched to branch '"@ + name@ + "'"@,
{
    cat3("Switched to branch '", name, "'")
}

/// What is said of a removed remote.
pub fn removed_remote_reply(name: &str) -> (r: String)
    ensures
        r@ == "Removed remote '"@ + name@ + "'"@,
{
    cat3("Removed remote '", name, "'")
}

/// What is said of a clone.
pub fn cloned_reply(branch: &str, head: &str, graft_dir: &str) -> (r: String)
    requires
        has_short(head@),
    ensures
        r@ == "Cloned origin/"@ + branch@ + " at "@ + short(head@) + (" into "@ + graft_dir@),
{
    cat5("Cloned origin/", branch, " at ", short_id(head), cat2(" into ", graft_dir).as_str())
}

/// What is said of a commit.
pub fn commit_reply(id: &str, message: &str) -> (r: String)
    requires
        has_twelve(id@),
    ensures
        r@ == "["@ + short(id@) + "] "@ + message@,
{
    cat4("[", short_id(id), "] ", message)
}

/// What is said of a merge commit.
pub fn merge_commit_reply(id: &str, message: &str) -> (r: String)
    requires
        has_short(id@),
    ensures
        r@ == "Merge commit ["@ + short(id@) + "] "@ + message@,
{
    cat4("Merge commit [", short_id(id), "] ", message)
}

/// What is said of a merge that was given up.
pub fn aborted_reply(target: &str) -> (r: String)
    requires
        has_short(target@),
    ensures
        r@ == "Aborted merge; reset HEAD to "@ + short(target@),
{
    cat2("Aborted merge; reset HEAD to ", short_id(target))
}

/// What is said of a reset.
pub fn reset_reply(target: &str, mode: ResetMode) -> (r: String)
    requires
        has_short(target@),
    ensures
        r@ == "Reset HEAD to "@ + short(target@) + " ("@ + reset_mode_name(mode) + ")"@,
{
    cat5("Reset HEAD to ", short_id(target), " (", reset_mode_label(mode), ")")
}

/// What is said of a resolved conflict.
pub fn resolved_reply(path: &str, side: ResolveSide) -> (r: String)
    ensures
        r@ == "Resolved "@ + path@ + " using "@ + side.name(),
{
    cat4("Resolved ", path, " using ", side.label())
}

/// What is said of a renamed remote.
pub fn renamed_remote_reply(old_name: &str, remote: &RemoteInfo) -> (r: String)
    ensures
        r@ == "Renamed remote '"@ + old_name@ + "' to '"@ + remote@.name + ("': "@ + uri_of(
            remote@.config,
        )),
{
    let uri = remote_config_uri(&remote.config);
    cat5(
        "Renamed remote '",
        old_name,
        "' to '",
        remote.name.as_str(),
        cat2("': ", uri.as_str()).as_str(),
    )
}

/// What is said of a remote with a new address.
pub fn updated_remote_reply(remote: &RemoteInfo) -> (r: String)
    ensures
        r@ == "Updated remote '"@ + remote@.name + "': "@ + uri_of(remote@.config),
{
    let uri = remote_config_uri(&remote.config);
    cat4("Updated remote '", remote.name.as_str(), "': ", uri.as_str())
}

} // verus!
