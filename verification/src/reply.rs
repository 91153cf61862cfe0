//! What each command answers in words.
use vstd::prelude::*;
use vstd::string::*;

use crate::conflict_list::{
    format_pull_outcome_with_row_analysis, format_repo_row_diff, row_diff_report, text_options,
    with_analysis,
};
use crate::error::{invalid_command, seen, text_option, CommandError};
use crate::labels::reset_mode_name;
use crate::model::{BranchInfo, CommitObject, RemoteBranchRef, RepoStatus, TagInfo};
use crate::remote::{remote_config_uri, uri_of};
use crate::report::{
    branch_created_report, branch_deleted_report, branch_renamed_report,
    branch_upstream_report, branch_upstream_unset_report, branches_report, checkout_report,
    commit_report, config_entry_text, config_entry_texts, conflicts_report, details_report,
    diff_report, done_to_paths, entries_report, format_added_entries, format_branch_created,
    format_branch_deleted, format_branch_renamed, format_branch_upstream,
    format_branch_upstream_unset, format_branches, format_checkout_outcome, format_conflicts,
    format_removed_paths, format_repo_config_entries, format_repo_config_entry,
    format_repo_diff, format_repo_log, format_repo_show, format_repo_status, format_repo_tags,
    format_repo_tracked_path_details, format_repo_tracked_path_entries,
    format_repo_tracked_paths, format_repo_untracked_paths, format_restore_outcome,
    format_tag_created, format_tag_deleted, has_twelve, inventory_report, log_report,
    path_list, short_if_some, short_tag, status_report, tag_created_report, tag_deleted_report,
    tags_report, RepoConfigEntry, RepoDiff, RepoTrackedPath, RepoTrackedPathDetail,
    RepoTrackedPathEntry,
};
use crate::report_sync::{
    audit_report, fetch_report, fetch_reportable, format_fetch_command_outcome,
    format_large_file_fetch_outcome, format_large_file_prune_outcome,
    format_large_file_status_outcome, format_ls_remote, format_push_command_outcome,
    format_remote, format_remote_prune_outcome, format_remotes, format_repo_artifact_audit,
    format_repo_artifact_repair, format_storage_gc_outcome, large_file_fetch_report,
    large_file_prune_report, large_file_status_report, ls_remote_report, prune_report,
    pull_report, push_report, push_reportable, remote_added_report, remotes_report,
    repair_report, short_merge, storage_gc_report, FetchCommandOutcome, PullOutcome,
    PushCommandOutcome, RemoteInfo, RemotePruneOutcome, RepoArtifactAudit,
    RepoArtifactRepairOutcome, RepoLargeFileFetchOutcome, RepoLargeFilePruneOutcome,
    RepoLargeFileStatusOutcome, StorageGcOutcome,
};
use crate::session::{
    aborted_reply, cloned_reply, commit_reply, exported_reply, init_reply, merge_commit_reply,
    removed_remote_reply, renamed_remote_reply, reset_reply, resolved_reply, switched_reply,
    updated_remote_reply,
};
use crate::show::{has_short, short, views};
use crate::spec::{BranchListMode, DiffMode, ResetMode, ResolveSide};
use crate::text::texts;

verus! {

/// What a command came to.
#[derive(Debug)]
#[allow(inconsistent_fields)]
pub enum Reply {
    Tags { tags: Vec<TagInfo> },
    CheckedOut { path: Option<String>, paths: Vec<String>, target: String },
    Restored { path: Option<String>, paths: Vec<String> },
    Exported { path: String, output: String },
    Status { status: RepoStatus },
    Initialized { graft_dir: String },
    Cloned { branch: String, head: String, graft_dir: String },
    Added { paths: Vec<String> },
    Removed { paths: Vec<String> },
    Committed { id: String, message: String },
    Branches {
        branches: Vec<BranchInfo>,
        remote_branches: Vec<RemoteBranchRef>,
        mode: BranchListMode,
    },
    BranchCreated { branch: BranchInfo },
    BranchDeleted { branch: BranchInfo, force: bool },
    BranchRenamed { old_name: String, branch: BranchInfo, force: bool },
    UpstreamSet { branch: BranchInfo },
    UpstreamUnset { branch: BranchInfo },
    TagCreated { tag: TagInfo },
    TagDeleted { tag: TagInfo },
    Switched { name: String },
    MergeAborted { target: String },
    MergeCommitted { id: String, message: String },
    Conflicts { status: RepoStatus },
    Resolved { path: String, side: ResolveSide },
    RemoteAdded { remote: RemoteInfo },
    RemoteRemoved { name: String },
    RemoteRenamed { old_name: String, remote: RemoteInfo },
    RemoteUrl { remote: RemoteInfo },
    RemoteUpdated { remote: RemoteInfo },
    RemotePruned { outcome: RemotePruneOutcome },
    RemoteRefs { name: String, default_branch: Option<String>, refs: Vec<RemoteBranchRef> },
    Remotes { remotes: Vec<RemoteInfo> },
    Fetched { outcome: FetchCommandOutcome },
    Pulled { outcome: PullOutcome, key: Option<String>, analysis: Result<String, String> },
    Pushed { outcome: PushCommandOutcome },
    Audited { audit: RepoArtifactAudit },
    Repaired { outcome: RepoArtifactRepairOutcome },
    PayloadsFetched { outcome: RepoLargeFileFetchOutcome },
    PayloadsChecked { outcome: RepoLargeFileStatusOutcome },
    PayloadsPruned { outcome: RepoLargeFilePruneOutcome },
    StorageCollected { outcome: StorageGcOutcome },
    UntrackedPaths { paths: Vec<RepoTrackedPath> },
    TrackedPaths { paths: Vec<RepoTrackedPath> },
    TrackedDetails { paths: Vec<RepoTrackedPathDetail> },
    TrackedEntries { paths: Vec<RepoTrackedPathEntry> },
    ConfigEntry { entry: RepoConfigEntry },
    ConfigEntries { entries: Vec<RepoConfigEntry> },
    Log { commits: Vec<CommitObject> },
    HeadReset { target: String, mode: ResetMode },
    Shown { commit: CommitObject },
    /// For rows, `reports` holds the report on the rows of each database, where there is one.
    Compared { diff: RepoDiff, mode: DiffMode, reports: Vec<Option<String>> },
}

/// The report on a restore.
pub open spec fn restore_report(path: Option<Seq<char>>, paths: Seq<Seq<char>>) -> Seq<char> {
    "Restored "@ + match path {
        Some(p) => p,
        None => path_list(paths.len(), paths),
    }
}

fn list_remote_refs(
    name: &String,
    default_branch: &Option<String>,
    refs: &Vec<RemoteBranchRef>,
) -> (r: String)
    ensures
        r@ == ls_remote_report(name@, text_option(*default_branch), views(refs@)),
{
    let branch = match default_branch {
        Some(b) => Some(b.as_str()),
        None => None,
    };
    format_ls_remote(name.as_str(), branch, refs)
}

/// The ids that a reply shortens can be shortened.
pub open spec fn presentable(reply: Reply) -> bool {
    match reply {
        Reply::Tags { tags } => forall|i: int| 0 <= i < tags@.len() ==> short_tag(#[trigger] tags@[i]@),
        Reply::CheckedOut { target, .. } => has_short(target@),
        Reply::Status { status } => short_if_some(status@.merge_head),
        Reply::Cloned { head, .. } => has_short(head@),
        Reply::Committed { id, .. } => has_twelve(id@),
        Reply::Branches { branches, remote_branches, .. } => (forall|i: int| 0 <= i < branches@.len() ==> short_if_some(#[trigger] branches@[i]@.target)) && (forall|i: int| 0 <= i < remote_branches@.len() ==> has_short(#[trigger] remote_branches@[i]@.head)),
        Reply::BranchCreated { branch } => branch@.target matches Some(id) ==> has_twelve(id),
        Reply::BranchDeleted { branch, .. } => short_if_some(branch@.target),
        Reply::BranchRenamed { branch, .. } => short_if_some(branch@.target),
        Reply::TagCreated { tag } => short_tag(tag@),
        Reply::TagDeleted { tag } => short_tag(tag@),
        Reply::MergeAborted { target } => has_short(target@),
        Reply::MergeCommitted { id, .. } => has_short(id@),
        Reply::Fetched { outcome } => fetch_reportable(outcome@),
        Reply::Pulled { outcome, .. } => has_short(outcome@.head) && short_merge(outcome@.merge),
        Reply::Pushed { outcome } => push_reportable(outcome@),
        Reply::HeadReset { target, .. } => has_short(target@),
        Reply::Compared { diff, mode, reports } => {
            &&& has_short(diff.from@)
            &&& has_short(diff.to@)
            &&& mode == DiffMode::Rows ==> reports@.len() == diff.files@.len()
        },
        _ => true,
    }
}

/// The text of a reply. A summary of databases is given as JSON only.
pub open spec fn reply_text(reply: Reply) -> Result<Seq<char>, CommandError<Seq<char>>> {
    match reply {
        Reply::Tags { tags } => Ok(tags_report(views(tags@))),
        Reply::CheckedOut { path, paths, target } => Ok(
            checkout_report(text_option(path), texts(paths@), target@),
        ),
        Reply::Restored { path, paths } => Ok(restore_report(text_option(path), texts(paths@))),
        Reply::Exported { path, output } => Ok("Exported "@ + path@ + " to "@ + output@),
        Reply::Status { status } => Ok(status_report(status@)),
        Reply::Initialized { graft_dir } => Ok(
            "Initialized empty Graft repository in "@ + graft_dir@,
        ),
        Reply::Cloned { branch, head, graft_dir } => Ok(
            "Cloned origin/"@ + branch@ + " at "@ + short(head@) + (" into "@ + graft_dir@),
        ),
        Reply::Added { paths } => Ok(done_to_paths("Added"@, texts(paths@))),
        Reply::Removed { paths } => Ok(done_to_paths("Removed"@, texts(paths@))),
        Reply::Committed { id, message } => Ok("["@ + short(id@) + "] "@ + message@),
        Reply::Branches { branches, remote_branches, mode } => Ok(
            branches_report(views(branches@), views(remote_branches@), mode),
        ),
        Reply::BranchCreated { branch } => Ok(branch_created_report(branch@)),
        Reply::BranchDeleted { branch, force } => Ok(branch_deleted_report(branch@, force)),
        Reply::BranchRenamed { old_name, branch, force } => Ok(
            branch_renamed_report(old_name@, branch@, force),
        ),
        Reply::UpstreamSet { branch } => Ok(branch_upstream_report(branch@)),
        Reply::UpstreamUnset { branch } => Ok(branch_upstream_unset_report(branch@)),
        Reply::TagCreated { tag } => Ok(tag_created_report(tag@)),
        Reply::TagDeleted { tag } => Ok(tag_deleted_report(tag@)),
        Reply::Switched { name } => Ok("Switched to branch '"@ + name@ + "'"@),
        Reply::MergeAborted { target } => Ok("Aborted merge; reset HEAD to "@ + short(target@)),
        Reply::MergeCommitted { id, message } => Ok(
            "Merge commit ["@ + short(id@) + "] "@ + message@,
        ),
        Reply::Conflicts { status } => Ok(conflicts_report(status@)),
        Reply::Resolved { path, side } => Ok("Resolved "@ + path@ + " using "@ + side.name()),
        Reply::RemoteAdded { remote } => Ok(remote_added_report(remote@)),
        Reply::RemoteRemoved { name } => Ok("Removed remote '"@ + name@ + "'"@),
        Reply::RemoteRenamed { old_name, remote } => Ok(
            "Renamed remote '"@ + old_name@ + "' to '"@ + remote@.name + ("': "@ + uri_of(remote@.config)),
        ),
        Reply::RemoteUrl { remote } => Ok(uri_of(remote@.config)),
        Reply::RemoteUpdated { remote } => Ok(
            "Updated remote '"@ + remote@.name + "': "@ + uri_of(remote@.config),
        ),
        Reply::RemotePruned { outcome } => Ok(prune_report(outcome@)),
        Reply::RemoteRefs { name, default_branch, refs } => Ok(
            ls_remote_report(name@, text_option(default_branch), views(refs@)),
        ),
        Reply::Remotes { remotes } => Ok(remotes_report(views(remotes@))),
        Reply::Fetched { outcome } => Ok(fetch_report(outcome@)),
        Reply::Pulled { outcome, key, analysis } => Ok(
            with_analysis(pull_report(outcome@), outcome@.merge, text_option(key), seen(analysis)),
        ),
        Reply::Pushed { outcome } => Ok(push_report(outcome@)),
        Reply::Audited { audit } => Ok(audit_report(audit@)),
        Reply::Repaired { outcome } => Ok(repair_report(outcome@)),
        Reply::PayloadsFetched { outcome } => Ok(large_file_fetch_report(outcome@)),
        Reply::PayloadsChecked { outcome } => Ok(large_file_status_report(outcome@)),
        Reply::PayloadsPruned { outcome } => Ok(large_file_prune_report(outcome@)),
        Reply::StorageCollected { outcome } => Ok(storage_gc_report(outcome)),
        Reply::UntrackedPaths { paths } => Ok(
            inventory_report(views(paths@), "No untracked paths."@),
        ),
        Reply::TrackedPaths { paths } => Ok(inventory_report(views(paths@), "No tracked paths."@)),
        Reply::TrackedDetails { paths } => Ok(details_report(views(paths@))),
        Reply::TrackedEntries { paths } => Ok(entries_report(views(paths@))),
        Reply::ConfigEntry { entry } => Ok(config_entry_text(entry@)),
        Reply::ConfigEntries { entries } => Ok(
            config_entry_texts(views(entries@)),
        ),
        Reply::Log { commits } => Ok(log_report(views(commits@))),
        Reply::HeadReset { target, mode } => Ok(
            "Reset HEAD to "@ + short(target@) + " ("@ + reset_mode_name(mode) + ")"@,
        ),
        Reply::Shown { commit } => Ok(commit_report(commit@)),
        Reply::Compared { diff, mode, reports } => match mode {
            DiffMode::Default => Ok(diff_report(diff@)),
            DiffMode::Rows => Ok(row_diff_report(diff@, text_options(reports@))),
            DiffMode::SqliteSummary => Err(
                CommandError::InvalidCommand("diff --sqlite-summary requires JSON output"@),
            ),
        },
    }
}

impl Reply {
    pub fn text(&self) -> (r: Result<String, CommandError>)
        requires
            presentable(*self),
        ensures
            seen(r) == reply_text(*self),
    {
        let text = match self {
            Reply::Tags { tags } => format_repo_tags(tags),
            Reply::CheckedOut { path, paths, target } => format_checkout_outcome(
                path,
                paths,
                target.as_str(),
            ),
            Reply::Restored { path, paths } => format_restore_outcome(path, paths),
            Reply::Exported { path, output } => exported_reply(path.as_str(), output.as_str()),
            Reply::Status { status } => format_repo_status(status),
            Reply::Initialized { graft_dir } => init_reply(graft_dir.as_str()),
            Reply::Cloned { branch, head, graft_dir } => cloned_reply(
                branch.as_str(),
                head.as_str(),
                graft_dir.as_str(),
            ),
            Reply::Added { paths } => format_added_entries(paths),
            Reply::Removed { paths } => format_removed_paths(paths),
            Reply::Committed { id, message } => commit_reply(id.as_str(), message.as_str()),
            Reply::Branches {
                branches,
                remote_branches,
                mode,
            } => format_branches(branches, remote_branches, *mode),
            Reply::BranchCreated { branch } => format_branch_created(branch),
            Reply::BranchDeleted { branch, force } => format_branch_deleted(branch, *force),
            Reply::BranchRenamed { old_name, branch, force } => format_branch_renamed(
                old_name.as_str(),
                branch,
                *force,
            ),
            Reply::UpstreamSet { branch } => format_branch_upstream(branch),
            Reply::UpstreamUnset { branch } => format_branch_upstream_unset(branch),
            Reply::TagCreated { tag } => format_tag_created(tag),
            Reply::TagDeleted { tag } => format_tag_deleted(tag),
            Reply::Switched { name } => switched_reply(name.as_str()),
            Reply::MergeAborted { target } => aborted_reply(target.as_str()),
            Reply::MergeCommitted { id, message } => merge_commit_reply(
                id.as_str(),
                message.as_str(),
            ),
            Reply::Conflicts { status } => format_conflicts(status),
            Reply::Resolved { path, side } => resolved_reply(path.as_str(), *side),
            Reply::RemoteAdded { remote } => format_remote(remote),
            Reply::RemoteRemoved { name } => removed_remote_reply(name.as_str()),
            Reply::RemoteRenamed { old_name, remote } => renamed_remote_reply(
                old_name.as_str(),
                remote,
            ),
            Reply::RemoteUrl { remote } => remote_config_uri(&remote.config),
            Reply::RemoteUpdated { remote } => updated_remote_reply(remote),
            Reply::RemotePruned { outcome } => format_remote_prune_outcome(outcome),
            Reply::RemoteRefs {
                name,
                default_branch,
                refs,
            } => list_remote_refs(name, default_branch, refs),
            Reply::Remotes { remotes } => format_remotes(remotes),
            Reply::Fetched { outcome } => format_fetch_command_outcome(outcome),
            Reply::Pulled {
                outcome,
                key,
                analysis,
            } => format_pull_outcome_with_row_analysis(outcome, key, analysis),
            Reply::Pushed { outcome } => format_push_command_outcome(outcome),
            Reply::Audited { audit } => format_repo_artifact_audit(audit),
            Reply::Repaired { outcome } => format_repo_artifact_repair(outcome),
            Reply::PayloadsFetched { outcome } => format_large_file_fetch_outcome(outcome),
            Reply::PayloadsChecked { outcome } => format_large_file_status_outcome(outcome),
            Reply::PayloadsPruned { outcome } => format_large_file_prune_outcome(outcome),
            Reply::StorageCollected { outcome } => format_storage_gc_outcome(outcome),
            Reply::UntrackedPaths { paths } => format_repo_untracked_paths(paths),
            Reply::TrackedPaths { paths } => format_repo_tracked_paths(paths),
            Reply::TrackedDetails { paths } => format_repo_tracked_path_details(paths),
            Reply::TrackedEntries { paths } => format_repo_tracked_path_entries(paths),
            Reply::ConfigEntry { entry } => format_repo_config_entry(entry),
            Reply::ConfigEntries { entries } => format_repo_config_entries(entries),
            Reply::Log { commits } => format_repo_log(commits),
            Reply::HeadReset { target, mode } => reset_reply(target.as_str(), *mode),
            Reply::Shown { commit } => format_repo_show(commit),
            Reply::Compared { diff, mode, reports } => match mode {
                DiffMode::Default => format_repo_diff(diff),
                DiffMode::Rows => format_repo_row_diff(diff, reports),
                DiffMode::SqliteSummary => {
                    return Err(invalid_command("diff --sqlite-summary requires JSON output"));
                },
            },
        };
        Ok(text)
    }
}

} // verus!
