//! Repository commands by name.
use vstd::prelude::*;

use crate::error::{pragma_fail, refused, seen, str_option, text_option, CommandError, PragmaErr};
use crate::parse_paths::{add_arg, diff_arg, parse_repo_add_arg, parse_repo_diff_arg};
use crate::parse_refs::{
    audit_arg, branch_create_arg, branch_delete_arg, branch_list_mode, branch_rename_arg,
    branch_upstream_arg, config_set_arg, fetch_async_arg, gc_mode_words, json_log_arg,
    lfs_fetch_arg, lfs_status_arg, mode_arg, parse_branch_create_arg, parse_branch_delete_arg,
    parse_branch_list_mode, parse_branch_rename_arg, parse_branch_upstream_arg,
    parse_json_config_list_arg, parse_json_fetch_async_arg, parse_json_log_arg,
    parse_json_tags_arg, parse_lfs_fetch_arg, parse_lfs_prune_arg, parse_lfs_status_arg,
    parse_repo_audit_arg, parse_repo_config_set_arg, parse_repo_reset_arg,
    parse_storage_gc_arg, parse_switch_branch_arg, parse_switch_create_arg,
    parse_tag_create_arg, prune_mode_words, reset_arg, switch_branch_arg, switch_create_arg,
    tag_create_arg, with_status_arg,
};
use crate::parse_worktree::{
    checkout_arg, export_arg, ls_files_arg, parse_ls_files_arg, parse_repo_checkout_arg,
    parse_repo_export_arg, parse_repo_remove_arg, parse_repo_resolve_arg,
    parse_repo_restore_arg, parse_status_arg, remove_arg, resolve_arg, restore_arg, status_arg,
};
use crate::remote::{
    clone_arg, init_arg, parse_remote_add, parse_remote_branch_arg, parse_remote_rename,
    parse_repo_clone_arg, parse_repo_init_arg, remote_add_arg, remote_branch_arg,
    remote_rename_arg,
};
use crate::spec::{
    BranchListMode, JsonConfigListMode, JsonFetchAsyncMode, JsonLogSpec, JsonTagsMode,
    LargeFileFetchSpec, LargeFilePruneSpec, LargeFileStatusSpec, LsFilesSpec, RemoteBranchArg,
    RemoteConfig, RepoAddSpec, RepoAuditSpec, RepoCheckoutSpec, RepoCloneSpec, RepoDiffSpec,
    RepoExportSpec, RepoInitSpec, RepoRemoveSpec, RepoResolveRowSpec, RepoResolveSpec,
    RepoRestoreSpec, ResetMode, ResolveSide, ResolveSpecView, RowSpecView, StatusSpec,
    StorageGcSpec,
};
use crate::text::{cat2, cat3, cut, same, split_once};
use crate::words::Host;

verus! {

/// A repository command with what it asks for.
#[derive(Debug, Clone, PartialEq, Eq)]
#[allow(inconsistent_fields)]
pub enum GraftCommand<S = String, R = RepoResolveRowSpec> {
    /// `graft_checkout`
    RepoCheckout { spec: RepoCheckoutSpec<S> },
    /// `graft_json_checkout`
    JsonRepoCheckout { spec: RepoCheckoutSpec<S> },
    /// `graft_restore`
    Restore { spec: RepoRestoreSpec<S> },
    /// `graft_json_restore`
    JsonRestore { spec: RepoRestoreSpec<S> },
    /// `graft_export`
    Export { spec: RepoExportSpec<S> },
    /// `graft_json_export`
    JsonExport { spec: RepoExportSpec<S> },
    /// `graft_status`
    Status { spec: StatusSpec },
    /// `graft_json_status`
    JsonStatus { spec: StatusSpec },
    /// `graft_init`
    RepoInit { spec: RepoInitSpec<S> },
    /// `graft_json_init`
    JsonRepoInit { spec: RepoInitSpec<S> },
    /// `graft_clone`
    RepoClone { spec: RepoCloneSpec<S> },
    /// `graft_json_clone`
    JsonRepoClone { spec: RepoCloneSpec<S> },
    /// `graft_add`
    Add { spec: RepoAddSpec<S> },
    /// `graft_json_add`
    JsonAdd { spec: RepoAddSpec<S> },
    /// `graft_rm`
    Remove { spec: RepoRemoveSpec<S> },
    /// `graft_json_rm`
    JsonRemove { spec: RepoRemoveSpec<S> },
    /// `graft_commit`
    Commit { message: S },
    /// `graft_json_commit`
    JsonCommit { message: S },
    /// `graft_reset`
    Reset { rev: S, mode: ResetMode },
    /// `graft_json_reset`
    JsonReset { rev: S, mode: ResetMode },
    /// `graft_ls_files`
    LsFiles { spec: LsFilesSpec },
    /// `graft_json_ls_files`
    JsonLsFiles { spec: LsFilesSpec },
    /// `graft_branch`
    Branch { mode: BranchListMode },
    /// `graft_json_branch`
    JsonBranch { mode: BranchListMode },
    /// `graft_branch_create`
    BranchCreate { name: S, start_point: Option<S> },
    /// `graft_json_branch_create`
    JsonBranchCreate { name: S, start_point: Option<S> },
    /// `graft_branch_delete`
    BranchDelete { name: S, force: bool },
    /// `graft_json_branch_delete`
    JsonBranchDelete { name: S, force: bool },
    /// `graft_branch_rename`
    BranchRename { old_name: Option<S>, new_name: S, force: bool },
    /// `graft_json_branch_rename`
    JsonBranchRename { old_name: Option<S>, new_name: S, force: bool },
    /// `graft_branch_upstream`
    BranchUpstream { branch: Option<S>, remote: S, remote_branch: S },
    /// `graft_json_branch_upstream`
    JsonBranchUpstream { branch: Option<S>, remote: S, remote_branch: S },
    /// `graft_branch_unset_upstream`
    BranchUnsetUpstream { branch: Option<S> },
    /// `graft_json_branch_unset_upstream`
    JsonBranchUnsetUpstream { branch: Option<S> },
    /// `graft_switch_branch`
    SwitchBranch { name: S, force: bool },
    /// `graft_json_switch_branch`
    JsonSwitchBranch { name: S, force: bool },
    /// `graft_switch_create`
    SwitchCreate { name: S, start_point: Option<S>, force: bool },
    /// `graft_json_switch_create`
    JsonSwitchCreate { name: S, start_point: Option<S>, force: bool },
    /// `graft_tags`
    Tags,
    /// `graft_json_tags`
    JsonTags { mode: JsonTagsMode },
    /// `graft_tag_create`
    TagCreate { name: S, target: Option<S>, message: Option<S> },
    /// `graft_json_tag_create`
    JsonTagCreate { name: S, target: Option<S>, message: Option<S> },
    /// `graft_tag_delete`
    TagDelete { name: S },
    /// `graft_json_tag_delete`
    JsonTagDelete { name: S },
    /// `graft_log`
    Log,
    /// `graft_json_log`
    JsonLog { spec: JsonLogSpec<S> },
    /// `graft_diff`
    RepoDiff { spec: RepoDiffSpec<S> },
    /// `graft_json_diff`
    JsonRepoDiff { spec: RepoDiffSpec<S> },
    /// `graft_show`
    Show { target: S },
    /// `graft_json_show`
    JsonShow { target: S },
    /// `graft_merge`
    Merge { rev: S },
    /// `graft_json_merge`
    JsonMerge { rev: S },
    /// `graft_merge_abort`
    MergeAbort,
    /// `graft_json_merge_abort`
    JsonMergeAbort,
    /// `graft_merge_continue`
    MergeContinue { message: S },
    /// `graft_json_merge_continue`
    JsonMergeContinue { message: S },
    /// `graft_conflicts`
    Conflicts,
    /// `graft_json_conflicts`
    JsonConflicts,
    /// `graft_resolve`
    Resolve { spec: RepoResolveSpec<S, R> },
    /// `graft_json_resolve_conflict`
    JsonResolveConflict { spec: RepoResolveSpec<S, R> },
    /// `graft_remote_add`
    RemoteAdd { name: S, config: RemoteConfig<S> },
    /// `graft_json_remote_add`
    JsonRemoteAdd { name: S, config: RemoteConfig<S> },
    /// `graft_remote_remove`
    RemoteRemove { name: S },
    /// `graft_json_remote_remove`
    JsonRemoteRemove { name: S },
    /// `graft_remote_rename`
    RemoteRename { old_name: S, new_name: S },
    /// `graft_json_remote_rename`
    JsonRemoteRename { old_name: S, new_name: S },
    /// `graft_remote_get_url`
    RemoteGetUrl { name: S },
    /// `graft_json_remote_get_url`
    JsonRemoteGetUrl { name: S },
    /// `graft_remote_set_url`
    RemoteSetUrl { name: S, config: RemoteConfig<S> },
    /// `graft_json_remote_set_url`
    JsonRemoteSetUrl { name: S, config: RemoteConfig<S> },
    /// `graft_remote_prune`
    RemotePrune { name: S },
    /// `graft_json_remote_prune`
    JsonRemotePrune { name: S },
    /// `graft_ls_remote`
    LsRemote { name: S },
    /// `graft_json_ls_remote`
    JsonLsRemote { name: S },
    /// `graft_remotes`
    Remotes,
    /// `graft_json_remotes`
    JsonRemotes,
    /// `graft_fetch`
    Fetch { remote: Option<S>, branch: Option<S>, refspec: Option<S>, all: bool },
    /// `graft_json_fetch`
    JsonFetch { remote: Option<S>, branch: Option<S>, refspec: Option<S>, all: bool },
    /// `graft_fetch_async`
    FetchAsync { remote: Option<S>, branch: Option<S>, refspec: Option<S>, all: bool },
    /// `graft_json_fetch_async`
    JsonFetchAsync {
        remote: Option<S>,
        branch: Option<S>,
        refspec: Option<S>,
        all: bool,
        mode: JsonFetchAsyncMode,
    },
    /// `graft_job_status`
    JobStatus { id: S },
    /// `graft_json_job_status`
    JsonJobStatus { id: S },
    /// `graft_job_result`
    JobResult { id: S },
    /// `graft_json_job_result`
    JsonJobResult { id: S },
    /// `graft_pull`
    Pull { remote: Option<S>, branch: Option<S>, refspec: Option<S>, all: bool },
    /// `graft_json_pull`
    JsonPull { remote: Option<S>, branch: Option<S>, refspec: Option<S>, all: bool },
    /// `graft_push`
    Push { remote: Option<S>, branch: Option<S>, refspec: Option<S>, all: bool, force: bool },
    /// `graft_json_push`
    JsonPush { remote: Option<S>, branch: Option<S>, refspec: Option<S>, all: bool, force: bool },
    /// `graft_audit`
    RepoAudit { spec: RepoAuditSpec<S> },
    /// `graft_json_audit`
    JsonRepoAudit { spec: RepoAuditSpec<S> },
    /// `graft_lfs_fetch`
    LargeFileFetch { spec: LargeFileFetchSpec<S> },
    /// `graft_json_lfs_fetch`
    JsonLargeFileFetch { spec: LargeFileFetchSpec<S>, operation: S },
    /// `graft_lfs_status`
    LargeFileStatus { spec: LargeFileStatusSpec<S> },
    /// `graft_json_lfs_status`
    JsonLargeFileStatus { spec: LargeFileStatusSpec<S>, operation: S },
    /// `graft_lfs_prune`
    LargeFilePrune { spec: LargeFilePruneSpec },
    /// `graft_json_lfs_prune`
    JsonLargeFilePrune { spec: LargeFilePruneSpec, operation: S },
    /// `graft_gc`
    StorageGc { spec: StorageGcSpec },
    /// `graft_json_gc`
    JsonStorageGc { spec: StorageGcSpec },
    /// `graft_config_get`
    ConfigGet { key: S },
    /// `graft_json_config_get`
    JsonConfigGet { key: S },
    /// `graft_config_list`
    ConfigList,
    /// `graft_json_config_list`
    JsonConfigList { mode: JsonConfigListMode },
    /// `graft_config_set`
    ConfigSet { key: S, value: S },
    /// `graft_json_config_set`
    JsonConfigSet { key: S, value: S },
    /// `graft_config_unset`
    ConfigUnset { key: S },
    /// `graft_json_config_unset`
    JsonConfigUnset { key: S },
    /// Continues a merge after an exact merge-state token proved the worktree unchanged; no command line names it.
    JsonMergeContinueValidated { message: S },
    /// Selects one side for every row conflict of a table; no command line names it.
    JsonResolveTableConflict { path: S, table: S, side: ResolveSide },
    /// Undoes the resolution of a path; no command line names it.
    JsonUnresolveConflict { path: S },
    /// Records the resolution of a path that was edited; no command line names it.
    JsonRecordMergePathResolution { path: S, resolution: S },
}

pub type CommandView = GraftCommand<Seq<char>, RowSpecView>;

impl View for GraftCommand<String, RepoResolveRowSpec> {
    type V = CommandView;

    open spec fn view(&self) -> CommandView {
        match self {
            GraftCommand::RepoCheckout { spec } => GraftCommand::RepoCheckout { spec: spec@ },
            GraftCommand::JsonRepoCheckout { spec } => GraftCommand::JsonRepoCheckout { spec: spec@ },
            GraftCommand::Restore { spec } => GraftCommand::Restore { spec: spec@ },
            GraftCommand::JsonRestore { spec } => GraftCommand::JsonRestore { spec: spec@ },
            GraftCommand::Export { spec } => GraftCommand::Export { spec: spec@ },
            GraftCommand::JsonExport { spec } => GraftCommand::JsonExport { spec: spec@ },
            GraftCommand::Status { spec } => GraftCommand::Status { spec: *spec },
            GraftCommand::JsonStatus { spec } => GraftCommand::JsonStatus { spec: *spec },
            GraftCommand::RepoInit { spec } => GraftCommand::RepoInit { spec: spec@ },
            GraftCommand::JsonRepoInit { spec } => GraftCommand::JsonRepoInit { spec: spec@ },
            GraftCommand::RepoClone { spec } => GraftCommand::RepoClone { spec: spec@ },
            GraftCommand::JsonRepoClone { spec } => GraftCommand::JsonRepoClone { spec: spec@ },
            GraftCommand::Add { spec } => GraftCommand::Add { spec: spec@ },
            GraftCommand::JsonAdd { spec } => GraftCommand::JsonAdd { spec: spec@ },
            GraftCommand::Remove { spec } => GraftCommand::Remove { spec: spec@ },
            GraftCommand::JsonRemove { spec } => GraftCommand::JsonRemove { spec: spec@ },
            GraftCommand::Commit { message } => GraftCommand::Commit { message: message@ },
            GraftCommand::JsonCommit { message } => GraftCommand::JsonCommit { message: message@ },
            GraftCommand::Reset { rev, mode } => GraftCommand::Reset { rev: rev@, mode: *mode },
            GraftCommand::JsonReset { rev, mode } => GraftCommand::JsonReset {
                rev: rev@,
                mode: *mode,
            },
            GraftCommand::LsFiles { spec } => GraftCommand::LsFiles { spec: *spec },
            GraftCommand::JsonLsFiles { spec } => GraftCommand::JsonLsFiles { spec: *spec },
            GraftCommand::Branch { mode } => GraftCommand::Branch { mode: *mode },
            GraftCommand::JsonBranch { mode } => GraftCommand::JsonBranch { mode: *mode },
            GraftCommand::BranchCreate { name, start_point } => GraftCommand::BranchCreate {
                name: name@,
                start_point: text_option(*start_point),
            },
            GraftCommand::JsonBranchCreate { name, start_point } => GraftCommand::JsonBranchCreate {
                name: name@,
                start_point: text_option(*start_point),
            },
            GraftCommand::BranchDelete { name, force } => GraftCommand::BranchDelete {
                name: name@,
                force: *force,
            },
            GraftCommand::JsonBranchDelete { name, force } => GraftCommand::JsonBranchDelete {
                name: name@,
                force: *force,
            },
            GraftCommand::BranchRename { old_name, new_name, force } => GraftCommand::BranchRename {
                old_name: text_option(*old_name),
                new_name: new_name@,
                force: *force,
            },
            GraftCommand::JsonBranchRename { old_name, new_name, force } => GraftCommand::JsonBranchRename {
                old_name: text_option(*old_name),
                new_name: new_name@,
                force: *force,
            },
            GraftCommand::BranchUpstream { branch, remote, remote_branch } => GraftCommand::BranchUpstream {
                branch: text_option(*branch),
                remote: remote@,
                remote_branch: remote_branch@,
            },
            GraftCommand::JsonBranchUpstream { branch, remote, remote_branch } => GraftCommand::JsonBranchUpstream {
                branch: text_option(*branch),
                remote: remote@,
                remote_branch: remote_branch@,
            },
            GraftCommand::BranchUnsetUpstream { branch } => GraftCommand::BranchUnsetUpstream {
                branch: text_option(*branch),
            },
            GraftCommand::JsonBranchUnsetUpstream { branch } => GraftCommand::JsonBranchUnsetUpstream {
                branch: text_option(*branch),
            },
            GraftCommand::SwitchBranch { name, force } => GraftCommand::SwitchBranch {
                name: name@,
                force: *force,
            },
            GraftCommand::JsonSwitchBranch { name, force } => GraftCommand::JsonSwitchBranch {
                name: name@,
                force: *force,
            },
            GraftCommand::SwitchCreate { name, start_point, force } => GraftCommand::SwitchCreate {
                name: name@,
                start_point: text_option(*start_point),
                force: *force,
            },
            GraftCommand::JsonSwitchCreate { name, start_point, force } => GraftCommand::JsonSwitchCreate {
                name: name@,
                start_point: text_option(*start_point),
                force: *force,
            },
            GraftCommand::Tags => GraftCommand::Tags,
            GraftCommand::JsonTags { mode } => GraftCommand::JsonTags { mode: *mode },
            GraftCommand::TagCreate { name, target, message } => GraftCommand::TagCreate {
                name: name@,
                target: text_option(*target),
                message: text_option(*message),
            },
            GraftCommand::JsonTagCreate { name, target, message } => GraftCommand::JsonTagCreate {
                name: name@,
                target: text_option(*target),
                message: text_option(*message),
            },
            GraftCommand::TagDelete { name } => GraftCommand::TagDelete { name: name@ },
            GraftCommand::JsonTagDelete { name } => GraftCommand::JsonTagDelete { name: name@ },
            GraftCommand::Log => GraftCommand::Log,
            GraftCommand::JsonLog { spec } => GraftCommand::JsonLog { spec: spec@ },
            GraftCommand::RepoDiff { spec } => GraftCommand::RepoDiff { spec: spec@ },
            GraftCommand::JsonRepoDiff { spec } => GraftCommand::JsonRepoDiff { spec: spec@ },
            GraftCommand::Show { target } => GraftCommand::Show { target: target@ },
            GraftCommand::JsonShow { target } => GraftCommand::JsonShow { target: target@ },
            GraftCommand::Merge { rev } => GraftCommand::Merge { rev: rev@ },
            GraftCommand::JsonMerge { rev } => GraftCommand::JsonMerge { rev: rev@ },
            GraftCommand::MergeAbort => GraftCommand::MergeAbort,
            GraftCommand::JsonMergeAbort => GraftCommand::JsonMergeAbort,
            GraftCommand::MergeContinue { message } => GraftCommand::MergeContinue { message: message@ },
            GraftCommand::JsonMergeContinue { message } => GraftCommand::JsonMergeContinue { message: message@ },
            GraftCommand::Conflicts => GraftCommand::Conflicts,
            GraftCommand::JsonConflicts => GraftCommand::JsonConflicts,
            GraftCommand::Resolve { spec } => GraftCommand::Resolve { spec: spec@ },
            GraftCommand::JsonResolveConflict { spec } => GraftCommand::JsonResolveConflict { spec: spec@ },
            GraftCommand::RemoteAdd { name, config } => GraftCommand::RemoteAdd {
                name: name@,
                config: config@,
            },
            GraftCommand::JsonRemoteAdd { name, config } => GraftCommand::JsonRemoteAdd {
                name: name@,
                config: config@,
            },
            GraftCommand::RemoteRemove { name } => GraftCommand::RemoteRemove { name: name@ },
            GraftCommand::JsonRemoteRemove { name } => GraftCommand::JsonRemoteRemove { name: name@ },
            GraftCommand::RemoteRename { old_name, new_name } => GraftCommand::RemoteRename {
                old_name: old_name@,
                new_name: new_name@,
            },
            GraftCommand::JsonRemoteRename { old_name, new_name } => GraftCommand::JsonRemoteRename {
                old_name: old_name@,
                new_name: new_name@,
            },
            GraftCommand::RemoteGetUrl { name } => GraftCommand::RemoteGetUrl { name: name@ },
            GraftCommand::JsonRemoteGetUrl { name } => GraftCommand::JsonRemoteGetUrl { name: name@ },
            GraftCommand::RemoteSetUrl { name, config } => GraftCommand::RemoteSetUrl {
                name: name@,
                config: config@,
            },
            GraftCommand::JsonRemoteSetUrl { name, config } => GraftCommand::JsonRemoteSetUrl {
                name: name@,
                config: config@,
            },
            GraftCommand::RemotePrune { name } => GraftCommand::RemotePrune { name: name@ },
            GraftCommand::JsonRemotePrune { name } => GraftCommand::JsonRemotePrune { name: name@ },
            GraftCommand::LsRemote { name } => GraftCommand::LsRemote { name: name@ },
            GraftCommand::JsonLsRemote { name } => GraftCommand::JsonLsRemote { name: name@ },
            GraftCommand::Remotes => GraftCommand::Remotes,
            GraftCommand::JsonRemotes => GraftCommand::JsonRemotes,
            GraftCommand::Fetch { remote, branch, refspec, all } => GraftCommand::Fetch {
                remote: text_option(*remote),
                branch: text_option(*branch),
                refspec: text_option(*refspec),
                all: *all,
            },
            GraftCommand::JsonFetch { remote, branch, refspec, all } => GraftCommand::JsonFetch {
                remote: text_option(*remote),
                branch: text_option(*branch),
                refspec: text_option(*refspec),
                all: *all,
            },
            GraftCommand::FetchAsync { remote, branch, refspec, all } => GraftCommand::FetchAsync {
                remote: text_option(*remote),
                branch: text_option(*branch),
                refspec: text_option(*refspec),
                all: *all,
            },
            GraftCommand::JsonFetchAsync { remote, branch, refspec, all, mode } => GraftCommand::JsonFetchAsync {
                remote: text_option(*remote),
                branch: text_option(*branch),
                refspec: text_option(*refspec),
                all: *all,
                mode: *mode,
            },
            GraftCommand::JobStatus { id } => GraftCommand::JobStatus { id: id@ },
            GraftCommand::JsonJobStatus { id } => GraftCommand::JsonJobStatus { id: id@ },
            GraftCommand::JobResult { id } => GraftCommand::JobResult { id: id@ },
            GraftCommand::JsonJobResult { id } => GraftCommand::JsonJobResult { id: id@ },
            GraftCommand::Pull { remote, branch, refspec, all } => GraftCommand::Pull {
                remote: text_option(*remote),
                branch: text_option(*branch),
                refspec: text_option(*refspec),
                all: *all,
            },
            GraftCommand::JsonPull { remote, branch, refspec, all } => GraftCommand::JsonPull {
                remote: text_option(*remote),
                branch: text_option(*branch),
                refspec: text_option(*refspec),
                all: *all,
            },
            GraftCommand::Push { remote, branch, refspec, all, force } => GraftCommand::Push {
                remote: text_option(*remote),
                branch: text_option(*branch),
                refspec: text_option(*refspec),
                all: *all,
                force: *force,
            },
            GraftCommand::JsonPush { remote, branch, refspec, all, force } => GraftCommand::JsonPush {
                remote: text_option(*remote),
                branch: text_option(*branch),
                refspec: text_option(*refspec),
                all: *all,
                force: *force,
            },
            GraftCommand::RepoAudit { spec } => GraftCommand::RepoAudit { spec: spec@ },
            GraftCommand::JsonRepoAudit { spec } => GraftCommand::JsonRepoAudit { spec: spec@ },
            GraftCommand::LargeFileFetch { spec } => GraftCommand::LargeFileFetch { spec: spec@ },
            GraftCommand::JsonLargeFileFetch { spec, operation } => GraftCommand::JsonLargeFileFetch {
                spec: spec@,
                operation: operation@,
            },
            GraftCommand::LargeFileStatus { spec } => GraftCommand::LargeFileStatus { spec: spec@ },
            GraftCommand::JsonLargeFileStatus { spec, operation } => GraftCommand::JsonLargeFileStatus {
                spec: spec@,
                operation: operation@,
            },
            GraftCommand::LargeFilePrune { spec } => GraftCommand::LargeFilePrune { spec: *spec },
            GraftCommand::JsonLargeFilePrune { spec, operation } => GraftCommand::JsonLargeFilePrune {
                spec: *spec,
                operation: operation@,
            },
            GraftCommand::StorageGc { spec } => GraftCommand::StorageGc { spec: *spec },
            GraftCommand::JsonStorageGc { spec } => GraftCommand::JsonStorageGc { spec: *spec },
            GraftCommand::ConfigGet { key } => GraftCommand::ConfigGet { key: key@ },
            GraftCommand::JsonConfigGet { key } => GraftCommand::JsonConfigGet { key: key@ },
            GraftCommand::ConfigList => GraftCommand::ConfigList,
            GraftCommand::JsonConfigList { mode } => GraftCommand::JsonConfigList { mode: *mode },
            GraftCommand::ConfigSet { key, value } => GraftCommand::ConfigSet {
                key: key@,
                value: value@,
            },
            GraftCommand::JsonConfigSet { key, value } => GraftCommand::JsonConfigSet {
                key: key@,
                value: value@,
            },
            GraftCommand::ConfigUnset { key } => GraftCommand::ConfigUnset { key: key@ },
            GraftCommand::JsonConfigUnset { key } => GraftCommand::JsonConfigUnset { key: key@ },
            GraftCommand::JsonMergeContinueValidated { message } => GraftCommand::JsonMergeContinueValidated { message: message@ },
            GraftCommand::JsonResolveTableConflict { path, table, side } => GraftCommand::JsonResolveTableConflict {
                path: path@,
                table: table@,
                side: *side,
            },
            GraftCommand::JsonUnresolveConflict { path } => GraftCommand::JsonUnresolveConflict { path: path@ },
            GraftCommand::JsonRecordMergePathResolution { path, resolution } => GraftCommand::JsonRecordMergePathResolution {
                path: path@,
                resolution: resolution@,
            },
        }
    }
}

/// A command line: a name and an optional argument.
pub struct Pragma<'a> {
    pub name: &'a str,
    pub arg: Option<&'a str>,
}

/// What is answered where the command of a given name is in a table.
pub type Answer = Option<Result<CommandView, PragmaErr<Seq<char>>>>;

/// What is said where the command `name` misses its argument.
pub open spec fn missing(name: Seq<char>) -> Answer {
    Some(refused("command `"@ + name + "` requires an argument"@))
}

/// The answer with a command made of what an argument was read as.
pub open spec fn answer<T>(
    r: Result<T, PragmaErr<Seq<char>>>,
    make: spec_fn(T) -> CommandView,
) -> Answer {
    match r {
        Ok(v) => Some(Ok(make(v))),
        Err(e) => Some(Err(e)),
    }
}

/// The answer that a required argument gives.
pub open spec fn with_arg(
    name: Seq<char>,
    arg: Option<Seq<char>>,
    make: spec_fn(Seq<char>) -> Answer,
) -> Answer {
    match arg {
        None => missing(name),
        Some(a) => make(a),
    }
}

/// What fetches and pulls, which cannot be forced, make of their argument.
pub open spec fn unforced(
    r: Result<RemoteBranchArg<Seq<char>>, PragmaErr<Seq<char>>>,
    command: Seq<char>,
) -> Result<RemoteBranchArg<Seq<char>>, PragmaErr<Seq<char>>> {
    match r {
        Ok(a) => if a.force {
            refused(command + " does not support --force"@)
        } else {
            Ok(a)
        },
        Err(e) => Err(e),
    }
}

/// An answer as it is seen in contracts.
pub open spec fn seen_answer(r: Option<Result<GraftCommand, PragmaErr>>) -> Answer {
    match r {
        Some(r) => Some(seen(r)),
        None => None,
    }
}

fn require_unforced(r: Result<RemoteBranchArg, PragmaErr>, command: &str) -> (out: Result<
    RemoteBranchArg,
    PragmaErr,
>)
    ensures
        seen(out) == unforced(seen(r), command@),
{
    match r {
        Ok(a) => {
            if a.force {
                Err(pragma_fail(cat2(command, " does not support --force").as_str()))
            } else {
                Ok(a)
            }
        },
        Err(e) => Err(e),
    }
}

impl<'a> Pragma<'a> {
    /// The argument, or the refusal of a command that misses it.
    pub fn require_arg(&self) -> (r: Result<&'a str, PragmaErr>)
        ensures
            match r {
                Ok(a) => str_option(self.arg) == Some(a@),
                Err(e) => self.arg is None && Some(Err::<CommandView, _>(e@)) == missing(
                    self.name@,
                ),
            },
    {
        match self.arg {
            Some(a) => Ok(a),
            None => Err(
                pragma_fail(cat3("command `", self.name, "` requires an argument").as_str()),
            ),
        }
    }
}

/// The commands on the worktree and the index.
pub open spec fn worktree_command(
    s: Seq<char>,
    name: Seq<char>,
    arg: Option<Seq<char>>,
    host: Host,
) -> Answer {
    if s == "checkout"@ {
        with_arg(
            name,
            arg,
            |a: Seq<char>| answer(checkout_arg(a), |spec: RepoCheckoutSpec<Seq<char>>| GraftCommand::RepoCheckout { spec }),
        )
    } else if s == "json_checkout"@ {
        with_arg(
            name,
            arg,
            |a: Seq<char>| answer(checkout_arg(a), |spec: RepoCheckoutSpec<Seq<char>>| GraftCommand::JsonRepoCheckout { spec }),
        )
    } else if s == "restore"@ {
        with_arg(
            name,
            arg,
            |a: Seq<char>| answer(restore_arg(a, host), |spec: RepoRestoreSpec<Seq<char>>| GraftCommand::Restore { spec }),
        )
    } else if s == "json_restore"@ {
        with_arg(
            name,
            arg,
            |a: Seq<char>| answer(restore_arg(a, host), |spec: RepoRestoreSpec<Seq<char>>| GraftCommand::JsonRestore { spec }),
        )
    } else if s == "export"@ {
        with_arg(
            name,
            arg,
            |a: Seq<char>| answer(export_arg(a, host), |spec: RepoExportSpec<Seq<char>>| GraftCommand::Export { spec }),
        )
    } else if s == "json_export"@ {
        with_arg(
            name,
            arg,
            |a: Seq<char>| answer(export_arg(a, host), |spec: RepoExportSpec<Seq<char>>| GraftCommand::JsonExport { spec }),
        )
    } else if s == "status"@ {
        answer(status_arg(arg, host), |spec: StatusSpec| GraftCommand::Status { spec })
    } else if s == "json_status"@ {
        answer(status_arg(arg, host), |spec: StatusSpec| GraftCommand::JsonStatus { spec })
    } else if s == "init"@ {
        answer(init_arg(arg, host), |spec: RepoInitSpec<Seq<char>>| GraftCommand::RepoInit { spec })
    } else if s == "json_init"@ {
        answer(init_arg(arg, host), |spec: RepoInitSpec<Seq<char>>| GraftCommand::JsonRepoInit { spec })
    } else if s == "clone"@ {
        with_arg(
            name,
            arg,
            |a: Seq<char>| answer(clone_arg(a), |spec: RepoCloneSpec<Seq<char>>| GraftCommand::RepoClone { spec }),
        )
    } else if s == "json_clone"@ {
        with_arg(
            name,
            arg,
            |a: Seq<char>| answer(clone_arg(a), |spec: RepoCloneSpec<Seq<char>>| GraftCommand::JsonRepoClone { spec }),
        )
    } else if s == "add"@ {
        answer(add_arg(arg, host), |spec: RepoAddSpec<Seq<char>>| GraftCommand::Add { spec })
    } else if s == "json_add"@ {
        answer(add_arg(arg, host), |spec: RepoAddSpec<Seq<char>>| GraftCommand::JsonAdd { spec })
    } else if s == "rm"@ {
        answer(remove_arg(arg, host), |spec: RepoRemoveSpec<Seq<char>>| GraftCommand::Remove { spec })
    } else if s == "json_rm"@ {
        answer(remove_arg(arg, host), |spec: RepoRemoveSpec<Seq<char>>| GraftCommand::JsonRemove { spec })
    } else if s == "commit"@ {
        with_arg(name, arg, |a: Seq<char>| Some(Ok(GraftCommand::Commit { message: a })))
    } else if s == "json_commit"@ {
        with_arg(name, arg, |a: Seq<char>| Some(Ok(GraftCommand::JsonCommit { message: a })))
    } else if s == "reset"@ {
        with_arg(
            name,
            arg,
            |a: Seq<char>|
                answer(
                    reset_arg(a),
                    |v: (ResetMode, Seq<char>)| GraftCommand::Reset { rev: v.1, mode: v.0 },
                ),
        )
    } else if s == "json_reset"@ {
        with_arg(
            name,
            arg,
            |a: Seq<char>|
                answer(
                    reset_arg(a),
                    |v: (ResetMode, Seq<char>)| GraftCommand::JsonReset { rev: v.1, mode: v.0 },
                ),
        )
    } else if s == "ls_files"@ {
        answer(ls_files_arg(arg, host), |spec: LsFilesSpec| GraftCommand::LsFiles { spec })
    } else if s == "json_ls_files"@ {
        answer(ls_files_arg(arg, host), |spec: LsFilesSpec| GraftCommand::JsonLsFiles { spec })
    } else {
        None
    }
}

fn parse_worktree_command(s: &str, p: &Pragma<'_>, host: Host) -> (r: Option<
    Result<GraftCommand, PragmaErr>,
>)
    ensures
        seen_answer(r) == worktree_command(s@, p.name@, str_option(p.arg), host),
{
    if same(s, "checkout") {
        match p.require_arg() {
            Ok(a) => match parse_repo_checkout_arg(a) {
            Ok(spec) => Some(Ok(GraftCommand::RepoCheckout { spec })),
            Err(e) => Some(Err(e)),
        },
            Err(e) => Some(Err(e)),
        }
    } else if same(s, "json_checkout") {
        match p.require_arg() {
            Ok(a) => match parse_repo_checkout_arg(a) {
            Ok(spec) => Some(Ok(GraftCommand::JsonRepoCheckout { spec })),
            Err(e) => Some(Err(e)),
        },
            Err(e) => Some(Err(e)),
        }
    } else if same(s, "restore") {
        match p.require_arg() {
            Ok(a) => match parse_repo_restore_arg(a, host) {
            Ok(spec) => Some(Ok(GraftCommand::Restore { spec })),
            Err(e) => Some(Err(e)),
        },
            Err(e) => Some(Err(e)),
        }
    } else if same(s, "json_restore") {
        match p.require_arg() {
            Ok(a) => match parse_repo_restore_arg(a, host) {
            Ok(spec) => Some(Ok(GraftCommand::JsonRestore { spec })),
            Err(e) => Some(Err(e)),
        },
            Err(e) => Some(Err(e)),
        }
    } else if same(s, "export") {
        match p.require_arg() {
            Ok(a) => match parse_repo_export_arg(a, host) {
            Ok(spec) => Some(Ok(GraftCommand::Export { spec })),
            Err(e) => Some(Err(e)),
        },
            Err(e) => Some(Err(e)),
        }
    } else if same(s, "json_export") {
        match p.require_arg() {
            Ok(a) => match parse_repo_export_arg(a, host) {
            Ok(spec) => Some(Ok(GraftCommand::JsonExport { spec })),
            Err(e) => Some(Err(e)),
        },
            Err(e) => Some(Err(e)),
        }
    } else if same(s, "status") {
        match parse_status_arg(p.arg, host) {
            Ok(spec) => Some(Ok(GraftCommand::Status { spec })),
            Err(e) => Some(Err(e)),
        }
    } else if same(s, "json_status") {
        match parse_status_arg(p.arg, host) {
            Ok(spec) => Some(Ok(GraftCommand::JsonStatus { spec })),
            Err(e) => Some(Err(e)),
        }
    } else if same(s, "init") {
        match parse_repo_init_arg(p.arg, host) {
            Ok(spec) => Some(Ok(GraftCommand::RepoInit { spec })),
            Err(e) => Some(Err(e)),
        }
    } else if same(s, "json_init") {
        match parse_repo_init_arg(p.arg, host) {
            Ok(spec) => Some(Ok(GraftCommand::JsonRepoInit { spec })),
            Err(e) => Some(Err(e)),
        }
    } else if same(s, "clone") {
        match p.require_arg() {
            Ok(a) => match parse_repo_clone_arg(a) {
            Ok(spec) => Some(Ok(GraftCommand::RepoClone { spec })),
            Err(e) => Some(Err(e)),
        },
            Err(e) => Some(Err(e)),
        }
    } else if same(s, "json_clone") {
        match p.require_arg() {
            Ok(a) => match parse_repo_clone_arg(a) {
            Ok(spec) => Some(Ok(GraftCommand::JsonRepoClone { spec })),
            Err(e) => Some(Err(e)),
        },
            Err(e) => Some(Err(e)),
        }
    } else if same(s, "add") {
        match parse_repo_add_arg(p.arg, host) {
            Ok(spec) => Some(Ok(GraftCommand::Add { spec })),
            Err(e) => Some(Err(e)),
        }
    } else if same(s, "json_add") {
        match parse_repo_add_arg(p.arg, host) {
            Ok(spec) => Some(Ok(GraftCommand::JsonAdd { spec })),
            Err(e) => Some(Err(e)),
        }
    } else if same(s, "rm") {
        match parse_repo_remove_arg(p.arg, host) {
            Ok(spec) => Some(Ok(GraftCommand::Remove { spec })),
            Err(e) => Some(Err(e)),
        }
    } else if same(s, "json_rm") {
        match parse_repo_remove_arg(p.arg, host) {
            Ok(spec) => Some(Ok(GraftCommand::JsonRemove { spec })),
            Err(e) => Some(Err(e)),
        }
    } else if same(s, "commit") {
        match p.require_arg() {
            Ok(a) => Some(Ok(GraftCommand::Commit { message: a.to_owned() })),
            Err(e) => Some(Err(e)),
        }
    } else if same(s, "json_commit") {
        match p.require_arg() {
            Ok(a) => Some(Ok(GraftCommand::JsonCommit { message: a.to_owned() })),
            Err(e) => Some(Err(e)),
        }
    } else if same(s, "reset") {
        match p.require_arg() {
            Ok(a) => match parse_repo_reset_arg(a) {
            Ok((mode, rev)) => Some(Ok(GraftCommand::Reset { rev, mode })),
            Err(e) => Some(Err(e)),
        },
            Err(e) => Some(Err(e)),
        }
    } else if same(s, "json_reset") {
        match p.require_arg() {
            Ok(a) => match parse_repo_reset_arg(a) {
            Ok((mode, rev)) => Some(Ok(GraftCommand::JsonReset { rev, mode })),
            Err(e) => Some(Err(e)),
        },
            Err(e) => Some(Err(e)),
        }
    } else if same(s, "ls_files") {
        match parse_ls_files_arg(p.arg, host) {
            Ok(spec) => Some(Ok(GraftCommand::LsFiles { spec })),
            Err(e) => Some(Err(e)),
        }
    } else if same(s, "json_ls_files") {
        match parse_ls_files_arg(p.arg, host) {
            Ok(spec) => Some(Ok(GraftCommand::JsonLsFiles { spec })),
            Err(e) => Some(Err(e)),
        }
    } else {
        None
    }
}

/// The commands on branches.
pub open spec fn branch_command(
    s: Seq<char>,
    name: Seq<char>,
    arg: Option<Seq<char>>,
    host: Host,
) -> Answer {
    if s == "branch"@ {
        answer(branch_list_mode(arg), |mode: BranchListMode| GraftCommand::Branch { mode })
    } else if s == "json_branch"@ {
        answer(branch_list_mode(arg), |mode: BranchListMode| GraftCommand::JsonBranch { mode })
    } else if s == "branch_create"@ {
        with_arg(
            name,
            arg,
            |a: Seq<char>|
                answer(
                    branch_create_arg(a),
                    |v: (Seq<char>, Option<Seq<char>>)| GraftCommand::BranchCreate {
                        name: v.0,
                        start_point: v.1,
                    },
                ),
        )
    } else if s == "json_branch_create"@ {
        with_arg(
            name,
            arg,
            |a: Seq<char>|
                answer(
                    branch_create_arg(a),
                    |v: (Seq<char>, Option<Seq<char>>)| GraftCommand::JsonBranchCreate {
                        name: v.0,
                        start_point: v.1,
                    },
                ),
        )
    } else if s == "branch_delete"@ {
        with_arg(
            name,
            arg,
            |a: Seq<char>|
                answer(
                    branch_delete_arg(a),
                    |v: (Seq<char>, bool)| GraftCommand::BranchDelete { name: v.0, force: v.1 },
                ),
        )
    } else if s == "json_branch_delete"@ {
        with_arg(
            name,
            arg,
            |a: Seq<char>|
                answer(
                    branch_delete_arg(a),
                    |v: (Seq<char>, bool)| GraftCommand::JsonBranchDelete { name: v.0, force: v.1 },
                ),
        )
    } else if s == "branch_rename"@ {
        with_arg(
            name,
            arg,
            |a: Seq<char>|
                answer(
                    branch_rename_arg(a),
                    |v: (Option<Seq<char>>, Seq<char>, bool)| GraftCommand::BranchRename {
                        old_name: v.0,
                        new_name: v.1,
                        force: v.2,
                    },
                ),
        )
    } else if s == "json_branch_rename"@ {
        with_arg(
            name,
            arg,
            |a: Seq<char>|
                answer(
                    branch_rename_arg(a),
                    |v: (Option<Seq<char>>, Seq<char>, bool)| GraftCommand::JsonBranchRename {
                        old_name: v.0,
                        new_name: v.1,
                        force: v.2,
                    },
                ),
        )
    } else if s == "branch_upstream"@ {
        with_arg(
            name,
            arg,
            |a: Seq<char>|
                answer(
                    branch_upstream_arg(a),
                    |v: (Option<Seq<char>>, Seq<char>, Seq<char>)| GraftCommand::BranchUpstream {
                        branch: v.0,
                        remote: v.1,
                        remote_branch: v.2,
                    },
                ),
        )
    } else if s == "json_branch_upstream"@ {
        with_arg(
            name,
            arg,
            |a: Seq<char>|
                answer(
                    branch_upstream_arg(a),
                    |v: (Option<Seq<char>>, Seq<char>, Seq<char>)| GraftCommand::JsonBranchUpstream {
                        branch: v.0,
                        remote: v.1,
                        remote_branch: v.2,
                    },
                ),
        )
    } else if s == "branch_unset_upstream"@ {
        Some(Ok(GraftCommand::BranchUnsetUpstream { branch: arg }))
    } else if s == "json_branch_unset_upstream"@ {
        Some(Ok(GraftCommand::JsonBranchUnsetUpstream { branch: arg }))
    } else if s == "switch_branch"@ {
        with_arg(
            name,
            arg,
            |a: Seq<char>|
                answer(
                    switch_branch_arg(a),
                    |v: (Seq<char>, bool)| GraftCommand::SwitchBranch { name: v.0, force: v.1 },
                ),
        )
    } else if s == "json_switch_branch"@ {
        with_arg(
            name,
            arg,
            |a: Seq<char>|
                answer(
                    switch_branch_arg(a),
                    |v: (Seq<char>, bool)| GraftCommand::JsonSwitchBranch { name: v.0, force: v.1 },
                ),
        )
    } else if s == "switch_create"@ {
        with_arg(
            name,
            arg,
            |a: Seq<char>|
                answer(
                    switch_create_arg(a),
                    |v: (Seq<char>, Option<Seq<char>>, bool)| GraftCommand::SwitchCreate {
                        name: v.0,
                        start_point: v.1,
                        force: v.2,
                    },
                ),
        )
    } else if s == "json_switch_create"@ {
        with_arg(
            name,
            arg,
            |a: Seq<char>|
                answer(
                    switch_create_arg(a),
                    |v: (Seq<char>, Option<Seq<char>>, bool)| GraftCommand::JsonSwitchCreate {
                        name: v.0,
                        start_point: v.1,
                        force: v.2,
                    },
                ),
        )
    } else {
        None
    }
}

fn parse_branch_command(s: &str, p: &Pragma<'_>, host: Host) -> (r: Option<
    Result<GraftCommand, PragmaErr>,
>)
    ensures
        seen_answer(r) == branch_command(s@, p.name@, str_option(p.arg), host),
{
    if same(s, "branch") {
        match parse_branch_list_mode(p.arg) {
            Ok(mode) => Some(Ok(GraftCommand::Branch { mode })),
            Err(e) => Some(Err(e)),
        }
    } else if same(s, "json_branch") {
        match parse_branch_list_mode(p.arg) {
            Ok(mode) => Some(Ok(GraftCommand::JsonBranch { mode })),
            Err(e) => Some(Err(e)),
        }
    } else if same(s, "branch_create") {
        match p.require_arg() {
            Ok(a) => match parse_branch_create_arg(a) {
            Ok((name, start_point)) => Some(Ok(GraftCommand::BranchCreate { name, start_point })),
            Err(e) => Some(Err(e)),
        },
            Err(e) => Some(Err(e)),
        }
    } else if same(s, "json_branch_create") {
        match p.require_arg() {
            Ok(a) => match parse_branch_create_arg(a) {
            Ok((name, start_point)) => Some(
                Ok(GraftCommand::JsonBranchCreate { name, start_point }),
            ),
            Err(e) => Some(Err(e)),
        },
            Err(e) => Some(Err(e)),
        }
    } else if same(s, "branch_delete") {
        match p.require_arg() {
            Ok(a) => match parse_branch_delete_arg(a) {
            Ok((name, force)) => Some(Ok(GraftCommand::BranchDelete { name, force })),
            Err(e) => Some(Err(e)),
        },
            Err(e) => Some(Err(e)),
        }
    } else if same(s, "json_branch_delete") {
        match p.require_arg() {
            Ok(a) => match parse_branch_delete_arg(a) {
            Ok((name, force)) => Some(Ok(GraftCommand::JsonBranchDelete { name, force })),
            Err(e) => Some(Err(e)),
        },
            Err(e) => Some(Err(e)),
        }
    } else if same(s, "branch_rename") {
        match p.require_arg() {
            Ok(a) => match parse_branch_rename_arg(a) {
            Ok((old_name, new_name, force)) => Some(
                Ok(GraftCommand::BranchRename { old_name, new_name, force }),
            ),
            Err(e) => Some(Err(e)),
        },
            Err(e) => Some(Err(e)),
        }
    } else if same(s, "json_branch_rename") {
        match p.require_arg() {
            Ok(a) => match parse_branch_rename_arg(a) {
            Ok((old_name, new_name, force)) => Some(
                Ok(GraftCommand::JsonBranchRename { old_name, new_name, force }),
            ),
            Err(e) => Some(Err(e)),
        },
            Err(e) => Some(Err(e)),
        }
    } else if same(s, "branch_upstream") {
        match p.require_arg() {
            Ok(a) => match parse_branch_upstream_arg(a) {
            Ok((branch, remote, remote_branch)) => Some(
                Ok(GraftCommand::BranchUpstream { branch, remote, remote_branch }),
            ),
            Err(e) => Some(Err(e)),
        },
            Err(e) => Some(Err(e)),
        }
    } else if same(s, "json_branch_upstream") {
        match p.require_arg() {
            Ok(a) => match parse_branch_upstream_arg(a) {
            Ok((branch, remote, remote_branch)) => Some(
                Ok(GraftCommand::JsonBranchUpstream { branch, remote, remote_branch }),
            ),
            Err(e) => Some(Err(e)),
        },
            Err(e) => Some(Err(e)),
        }
    } else if same(s, "branch_unset_upstream") {
        Some(
            Ok(
                GraftCommand::BranchUnsetUpstream {
                    branch: match p.arg {
                        Some(a) => Some(a.to_owned()),
                        None => None,
                    },
                },
            ),
        )
    } else if same(s, "json_branch_unset_upstream") {
        Some(
            Ok(
                GraftCommand::JsonBranchUnsetUpstream {
                    branch: match p.arg {
                        Some(a) => Some(a.to_owned()),
                        None => None,
                    },
                },
            ),
        )
    } else if same(s, "switch_branch") {
        match p.require_arg() {
            Ok(a) => match parse_switch_branch_arg(a) {
            Ok((name, force)) => Some(Ok(GraftCommand::SwitchBranch { name, force })),
            Err(e) => Some(Err(e)),
        },
            Err(e) => Some(Err(e)),
        }
    } else if same(s, "json_switch_branch") {
        match p.require_arg() {
            Ok(a) => match parse_switch_branch_arg(a) {
            Ok((name, force)) => Some(Ok(GraftCommand::JsonSwitchBranch { name, force })),
            Err(e) => Some(Err(e)),
        },
            Err(e) => Some(Err(e)),
        }
    } else if same(s, "switch_create") {
        match p.require_arg() {
            Ok(a) => match parse_switch_create_arg(a) {
            Ok((name, start_point, force)) => Some(
                Ok(GraftCommand::SwitchCreate { name, start_point, force }),
            ),
            Err(e) => Some(Err(e)),
        },
            Err(e) => Some(Err(e)),
        }
    } else if same(s, "json_switch_create") {
        match p.require_arg() {
            Ok(a) => match parse_switch_create_arg(a) {
            Ok((name, start_point, force)) => Some(
                Ok(GraftCommand::JsonSwitchCreate { name, start_point, force }),
            ),
            Err(e) => Some(Err(e)),
        },
            Err(e) => Some(Err(e)),
        }
    } else {
        None
    }
}

/// The commands on tags and history.
pub open spec fn tag_command(
    s: Seq<char>,
    name: Seq<char>,
    arg: Option<Seq<char>>,
    host: Host,
) -> Answer {
    if s == "tags"@ {
        Some(Ok(GraftCommand::Tags))
    } else if s == "json_tags"@ {
        answer(
            with_status_arg(arg, host),
            |on: bool| GraftCommand::JsonTags {
                mode: if on { JsonTagsMode::WithStatus } else { JsonTagsMode::LegacyArray },
            },
        )
    } else if s == "tag_create"@ {
        with_arg(
            name,
            arg,
            |a: Seq<char>|
                answer(
                    tag_create_arg(a),
                    |v: (Seq<char>, Option<Seq<char>>, Option<Seq<char>>)| GraftCommand::TagCreate { name: v.0, target: v.1, message: v.2 },
                ),
        )
    } else if s == "json_tag_create"@ {
        with_arg(
            name,
            arg,
            |a: Seq<char>|
                answer(
                    tag_create_arg(a),
                    |v: (Seq<char>, Option<Seq<char>>, Option<Seq<char>>)| GraftCommand::JsonTagCreate { name: v.0, target: v.1, message: v.2 },
                ),
        )
    } else if s == "tag_delete"@ {
        with_arg(name, arg, |a: Seq<char>| Some(Ok(GraftCommand::TagDelete { name: a })))
    } else if s == "json_tag_delete"@ {
        with_arg(name, arg, |a: Seq<char>| Some(Ok(GraftCommand::JsonTagDelete { name: a })))
    } else if s == "log"@ {
        Some(Ok(GraftCommand::Log))
    } else if s == "json_log"@ {
        answer(json_log_arg(arg, host), |spec: JsonLogSpec<Seq<char>>| GraftCommand::JsonLog { spec })
    } else if s == "diff"@ {
        answer(diff_arg(arg, host), |spec: RepoDiffSpec<Seq<char>>| GraftCommand::RepoDiff { spec })
    } else if s == "json_diff"@ {
        answer(diff_arg(arg, host), |spec: RepoDiffSpec<Seq<char>>| GraftCommand::JsonRepoDiff { spec })
    } else if s == "show"@ {
        with_arg(name, arg, |a: Seq<char>| Some(Ok(GraftCommand::Show { target: a })))
    } else if s == "json_show"@ {
        with_arg(name, arg, |a: Seq<char>| Some(Ok(GraftCommand::JsonShow { target: a })))
    } else {
        None
    }
}

fn parse_tag_command(s: &str, p: &Pragma<'_>, host: Host) -> (r: Option<
    Result<GraftCommand, PragmaErr>,
>)
    ensures
        seen_answer(r) == tag_command(s@, p.name@, str_option(p.arg), host),
{
    if same(s, "tags") {
        Some(Ok(GraftCommand::Tags))
    } else if same(s, "json_tags") {
        match parse_json_tags_arg(p.arg, host) {
            Ok(mode) => Some(Ok(GraftCommand::JsonTags { mode })),
            Err(e) => Some(Err(e)),
        }
    } else if same(s, "tag_create") {
        match p.require_arg() {
            Ok(a) => match parse_tag_create_arg(a) {
            Ok((name, target, message)) => Some(
                Ok(GraftCommand::TagCreate { name, target, message }),
            ),
            Err(e) => Some(Err(e)),
        },
            Err(e) => Some(Err(e)),
        }
    } else if same(s, "json_tag_create") {
        match p.require_arg() {
            Ok(a) => match parse_tag_create_arg(a) {
            Ok((name, target, message)) => Some(
                Ok(GraftCommand::JsonTagCreate { name, target, message }),
            ),
            Err(e) => Some(Err(e)),
        },
            Err(e) => Some(Err(e)),
        }
    } else if same(s, "tag_delete") {
        match p.require_arg() {
            Ok(a) => Some(Ok(GraftCommand::TagDelete { name: a.to_owned() })),
            Err(e) => Some(Err(e)),
        }
    } else if same(s, "json_tag_delete") {
        match p.require_arg() {
            Ok(a) => Some(Ok(GraftCommand::JsonTagDelete { name: a.to_owned() })),
            Err(e) => Some(Err(e)),
        }
    } else if same(s, "log") {
        Some(Ok(GraftCommand::Log))
    } else if same(s, "json_log") {
        match parse_json_log_arg(p.arg, host) {
            Ok(spec) => Some(Ok(GraftCommand::JsonLog { spec })),
            Err(e) => Some(Err(e)),
        }
    } else if same(s, "diff") {
        match parse_repo_diff_arg(p.arg, host) {
            Ok(spec) => Some(Ok(GraftCommand::RepoDiff { spec })),
            Err(e) => Some(Err(e)),
        }
    } else if same(s, "json_diff") {
        match parse_repo_diff_arg(p.arg, host) {
            Ok(spec) => Some(Ok(GraftCommand::JsonRepoDiff { spec })),
            Err(e) => Some(Err(e)),
        }
    } else if same(s, "show") {
        match p.require_arg() {
            Ok(a) => Some(Ok(GraftCommand::Show { target: a.to_owned() })),
            Err(e) => Some(Err(e)),
        }
    } else if same(s, "json_show") {
        match p.require_arg() {
            Ok(a) => Some(Ok(GraftCommand::JsonShow { target: a.to_owned() })),
            Err(e) => Some(Err(e)),
        }
    } else {
        None
    }
}

/// The commands on merges.
pub open spec fn merge_command(
    s: Seq<char>,
    name: Seq<char>,
    arg: Option<Seq<char>>,
    host: Host,
) -> Answer {
    if s == "merge"@ {
        with_arg(name, arg, |a: Seq<char>| Some(Ok(GraftCommand::Merge { rev: a })))
    } else if s == "json_merge"@ {
        with_arg(name, arg, |a: Seq<char>| Some(Ok(GraftCommand::JsonMerge { rev: a })))
    } else if s == "merge_abort"@ {
        Some(Ok(GraftCommand::MergeAbort))
    } else if s == "json_merge_abort"@ {
        Some(Ok(GraftCommand::JsonMergeAbort))
    } else if s == "merge_continue"@ {
        with_arg(name, arg, |a: Seq<char>| Some(Ok(GraftCommand::MergeContinue { message: a })))
    } else if s == "json_merge_continue"@ {
        with_arg(name, arg, |a: Seq<char>| Some(Ok(GraftCommand::JsonMergeContinue { message: a })))
    } else if s == "conflicts"@ {
        Some(Ok(GraftCommand::Conflicts))
    } else if s == "json_conflicts"@ {
        Some(Ok(GraftCommand::JsonConflicts))
    } else if s == "resolve"@ {
        with_arg(
            name,
            arg,
            |a: Seq<char>| answer(resolve_arg(a), |spec: ResolveSpecView| GraftCommand::Resolve { spec }),
        )
    } else if s == "json_resolve_conflict"@ {
        with_arg(
            name,
            arg,
            |a: Seq<char>| answer(resolve_arg(a), |spec: ResolveSpecView| GraftCommand::JsonResolveConflict { spec }),
        )
    } else {
        None
    }
}

fn parse_merge_command(s: &str, p: &Pragma<'_>, host: Host) -> (r: Option<
    Result<GraftCommand, PragmaErr>,
>)
    ensures
        seen_answer(r) == merge_command(s@, p.name@, str_option(p.arg), host),
{
    if same(s, "merge") {
        match p.require_arg() {
            Ok(a) => Some(Ok(GraftCommand::Merge { rev: a.to_owned() })),
            Err(e) => Some(Err(e)),
        }
    } else if same(s, "json_merge") {
        match p.require_arg() {
            Ok(a) => Some(Ok(GraftCommand::JsonMerge { rev: a.to_owned() })),
            Err(e) => Some(Err(e)),
        }
    } else if same(s, "merge_abort") {
        Some(Ok(GraftCommand::MergeAbort))
    } else if same(s, "json_merge_abort") {
        Some(Ok(GraftCommand::JsonMergeAbort))
    } else if same(s, "merge_continue") {
        match p.require_arg() {
            Ok(a) => Some(Ok(GraftCommand::MergeContinue { message: a.to_owned() })),
            Err(e) => Some(Err(e)),
        }
    } else if same(s, "json_merge_continue") {
        match p.require_arg() {
            Ok(a) => Some(Ok(GraftCommand::JsonMergeContinue { message: a.to_owned() })),
            Err(e) => Some(Err(e)),
        }
    } else if same(s, "conflicts") {
        Some(Ok(GraftCommand::Conflicts))
    } else if same(s, "json_conflicts") {
        Some(Ok(GraftCommand::JsonConflicts))
    } else if same(s, "resolve") {
        match p.require_arg() {
            Ok(a) => match parse_repo_resolve_arg(a) {
            Ok(spec) => Some(Ok(GraftCommand::Resolve { spec })),
            Err(e) => Some(Err(e)),
        },
            Err(e) => Some(Err(e)),
        }
    } else if same(s, "json_resolve_conflict") {
        match p.require_arg() {
            Ok(a) => match parse_repo_resolve_arg(a) {
            Ok(spec) => Some(Ok(GraftCommand::JsonResolveConflict { spec })),
            Err(e) => Some(Err(e)),
        },
            Err(e) => Some(Err(e)),
        }
    } else {
        None
    }
}

/// The commands on remotes.
pub open spec fn remote_command(
    s: Seq<char>,
    name: Seq<char>,
    arg: Option<Seq<char>>,
    host: Host,
) -> Answer {
    if s == "remote_add"@ {
        with_arg(
            name,
            arg,
            |a: Seq<char>|
                answer(
                    remote_add_arg(a),
                    |v: (Seq<char>, RemoteConfig<Seq<char>>)| GraftCommand::RemoteAdd { name: v.0, config: v.1 },
                ),
        )
    } else if s == "json_remote_add"@ {
        with_arg(
            name,
            arg,
            |a: Seq<char>|
                answer(
                    remote_add_arg(a),
                    |v: (Seq<char>, RemoteConfig<Seq<char>>)| GraftCommand::JsonRemoteAdd { name: v.0, config: v.1 },
                ),
        )
    } else if s == "remote_remove"@ {
        with_arg(name, arg, |a: Seq<char>| Some(Ok(GraftCommand::RemoteRemove { name: a })))
    } else if s == "json_remote_remove"@ {
        with_arg(name, arg, |a: Seq<char>| Some(Ok(GraftCommand::JsonRemoteRemove { name: a })))
    } else if s == "remote_rename"@ {
        with_arg(
            name,
            arg,
            |a: Seq<char>|
                answer(
                    remote_rename_arg(a),
                    |v: (Seq<char>, Seq<char>)| GraftCommand::RemoteRename {
                        old_name: v.0,
                        new_name: v.1,
                    },
                ),
        )
    } else if s == "json_remote_rename"@ {
        with_arg(
            name,
            arg,
            |a: Seq<char>|
                answer(
                    remote_rename_arg(a),
                    |v: (Seq<char>, Seq<char>)| GraftCommand::JsonRemoteRename {
                        old_name: v.0,
                        new_name: v.1,
                    },
                ),
        )
    } else if s == "remote_get_url"@ {
        with_arg(name, arg, |a: Seq<char>| Some(Ok(GraftCommand::RemoteGetUrl { name: a })))
    } else if s == "json_remote_get_url"@ {
        with_arg(name, arg, |a: Seq<char>| Some(Ok(GraftCommand::JsonRemoteGetUrl { name: a })))
    } else if s == "remote_set_url"@ {
        with_arg(
            name,
            arg,
            |a: Seq<char>|
                answer(
                    remote_add_arg(a),
                    |v: (Seq<char>, RemoteConfig<Seq<char>>)| GraftCommand::RemoteSetUrl { name: v.0, config: v.1 },
                ),
        )
    } else if s == "json_remote_set_url"@ {
        with_arg(
            name,
            arg,
            |a: Seq<char>|
                answer(
                    remote_add_arg(a),
                    |v: (Seq<char>, RemoteConfig<Seq<char>>)| GraftCommand::JsonRemoteSetUrl { name: v.0, config: v.1 },
                ),
        )
    } else if s == "remote_prune"@ {
        with_arg(name, arg, |a: Seq<char>| Some(Ok(GraftCommand::RemotePrune { name: a })))
    } else if s == "json_remote_prune"@ {
        with_arg(name, arg, |a: Seq<char>| Some(Ok(GraftCommand::JsonRemotePrune { name: a })))
    } else if s == "ls_remote"@ {
        with_arg(name, arg, |a: Seq<char>| Some(Ok(GraftCommand::LsRemote { name: a })))
    } else if s == "json_ls_remote"@ {
        with_arg(name, arg, |a: Seq<char>| Some(Ok(GraftCommand::JsonLsRemote { name: a })))
    } else if s == "remotes"@ {
        Some(Ok(GraftCommand::Remotes))
    } else if s == "json_remotes"@ {
        Some(Ok(GraftCommand::JsonRemotes))
    } else {
        None
    }
}

fn parse_remote_command(s: &str, p: &Pragma<'_>, host: Host) -> (r: Option<
    Result<GraftCommand, PragmaErr>,
>)
    ensures
        seen_answer(r) == remote_command(s@, p.name@, str_option(p.arg), host),
{
    if same(s, "remote_add") {
        match p.require_arg() {
            Ok(a) => match parse_remote_add(a) {
            Ok((name, config)) => Some(Ok(GraftCommand::RemoteAdd { name, config })),
            Err(e) => Some(Err(e)),
        },
            Err(e) => Some(Err(e)),
        }
    } else if same(s, "json_remote_add") {
        match p.require_arg() {
            Ok(a) => match parse_remote_add(a) {
            Ok((name, config)) => Some(Ok(GraftCommand::JsonRemoteAdd { name, config })),
            Err(e) => Some(Err(e)),
        },
            Err(e) => Some(Err(e)),
        }
    } else if same(s, "remote_remove") {
        match p.require_arg() {
            Ok(a) => Some(Ok(GraftCommand::RemoteRemove { name: a.to_owned() })),
            Err(e) => Some(Err(e)),
        }
    } else if same(s, "json_remote_remove") {
        match p.require_arg() {
            Ok(a) => Some(Ok(GraftCommand::JsonRemoteRemove { name: a.to_owned() })),
            Err(e) => Some(Err(e)),
        }
    } else if same(s, "remote_rename") {
        match p.require_arg() {
            Ok(a) => match parse_remote_rename(a) {
            Ok((old_name, new_name)) => Some(Ok(GraftCommand::RemoteRename { old_name, new_name })),
            Err(e) => Some(Err(e)),
        },
            Err(e) => Some(Err(e)),
        }
    } else if same(s, "json_remote_rename") {
        match p.require_arg() {
            Ok(a) => match parse_remote_rename(a) {
            Ok((old_name, new_name)) => Some(
                Ok(GraftCommand::JsonRemoteRename { old_name, new_name }),
            ),
            Err(e) => Some(Err(e)),
        },
            Err(e) => Some(Err(e)),
        }
    } else if same(s, "remote_get_url") {
        match p.require_arg() {
            Ok(a) => Some(Ok(GraftCommand::RemoteGetUrl { name: a.to_owned() })),
            Err(e) => Some(Err(e)),
        }
    } else if same(s, "json_remote_get_url") {
        match p.require_arg() {
            Ok(a) => Some(Ok(GraftCommand::JsonRemoteGetUrl { name: a.to_owned() })),
            Err(e) => Some(Err(e)),
        }
    } else if same(s, "remote_set_url") {
        match p.require_arg() {
            Ok(a) => match parse_remote_add(a) {
            Ok((name, config)) => Some(Ok(GraftCommand::RemoteSetUrl { name, config })),
            Err(e) => Some(Err(e)),
        },
            Err(e) => Some(Err(e)),
        }
    } else if same(s, "json_remote_set_url") {
        match p.require_arg() {
            Ok(a) => match parse_remote_add(a) {
            Ok((name, config)) => Some(Ok(GraftCommand::JsonRemoteSetUrl { name, config })),
            Err(e) => Some(Err(e)),
        },
            Err(e) => Some(Err(e)),
        }
    } else if same(s, "remote_prune") {
        match p.require_arg() {
            Ok(a) => Some(Ok(GraftCommand::RemotePrune { name: a.to_owned() })),
            Err(e) => Some(Err(e)),
        }
    } else if same(s, "json_remote_prune") {
        match p.require_arg() {
            Ok(a) => Some(Ok(GraftCommand::JsonRemotePrune { name: a.to_owned() })),
            Err(e) => Some(Err(e)),
        }
    } else if same(s, "ls_remote") {
        match p.require_arg() {
            Ok(a) => Some(Ok(GraftCommand::LsRemote { name: a.to_owned() })),
            Err(e) => Some(Err(e)),
        }
    } else if same(s, "json_ls_remote") {
        match p.require_arg() {
            Ok(a) => Some(Ok(GraftCommand::JsonLsRemote { name: a.to_owned() })),
            Err(e) => Some(Err(e)),
        }
    } else if same(s, "remotes") {
        Some(Ok(GraftCommand::Remotes))
    } else if same(s, "json_remotes") {
        Some(Ok(GraftCommand::JsonRemotes))
    } else {
        None
    }
}

/// The commands that fetch, pull and push.
pub open spec fn sync_command(
    s: Seq<char>,
    name: Seq<char>,
    arg: Option<Seq<char>>,
    host: Host,
) -> Answer {
    if s == "fetch"@ {
        answer(
            unforced(remote_branch_arg(arg), "fetch"@),
            |a: RemoteBranchArg<Seq<char>>|
                GraftCommand::Fetch {
                    remote: a.remote,
                    branch: a.branch,
                    refspec: a.refspec,
                    all: a.all,
                },
        )
    } else if s == "json_fetch"@ {
        answer(
            unforced(remote_branch_arg(arg), "json_fetch"@),
            |a: RemoteBranchArg<Seq<char>>|
                GraftCommand::JsonFetch {
                    remote: a.remote,
                    branch: a.branch,
                    refspec: a.refspec,
                    all: a.all,
                },
        )
    } else if s == "fetch_async"@ {
        answer(
            unforced(remote_branch_arg(arg), "fetch_async"@),
            |a: RemoteBranchArg<Seq<char>>|
                GraftCommand::FetchAsync {
                    remote: a.remote,
                    branch: a.branch,
                    refspec: a.refspec,
                    all: a.all,
                },
        )
    } else if s == "json_fetch_async"@ {
        match fetch_async_arg(arg, host) {
            Err(e) => Some(Err(e)),
            Ok((a, mode)) => answer(
                unforced(Ok(a), "json_fetch_async"@),
                |a: RemoteBranchArg<Seq<char>>|
                    GraftCommand::JsonFetchAsync {
                        remote: a.remote,
                        branch: a.branch,
                        refspec: a.refspec,
                        all: a.all,
                        mode,
                    },
            ),
        }
    } else if s == "job_status"@ {
        with_arg(name, arg, |a: Seq<char>| Some(Ok(GraftCommand::JobStatus { id: a })))
    } else if s == "json_job_status"@ {
        with_arg(name, arg, |a: Seq<char>| Some(Ok(GraftCommand::JsonJobStatus { id: a })))
    } else if s == "job_result"@ {
        with_arg(name, arg, |a: Seq<char>| Some(Ok(GraftCommand::JobResult { id: a })))
    } else if s == "json_job_result"@ {
        with_arg(name, arg, |a: Seq<char>| Some(Ok(GraftCommand::JsonJobResult { id: a })))
    } else if s == "pull"@ {
        answer(
            unforced(remote_branch_arg(arg), "pull"@),
            |a: RemoteBranchArg<Seq<char>>|
                GraftCommand::Pull {
                    remote: a.remote,
                    branch: a.branch,
                    refspec: a.refspec,
                    all: a.all,
                },
        )
    } else if s == "json_pull"@ {
        answer(
            unforced(remote_branch_arg(arg), "json_pull"@),
            |a: RemoteBranchArg<Seq<char>>|
                GraftCommand::JsonPull {
                    remote: a.remote,
                    branch: a.branch,
                    refspec: a.refspec,
                    all: a.all,
                },
        )
    } else if s == "push"@ {
        answer(
            remote_branch_arg(arg),
            |a: RemoteBranchArg<Seq<char>>|
                GraftCommand::Push {
                    remote: a.remote,
                    branch: a.branch,
                    refspec: a.refspec,
                    all: a.all,
                    force: a.force,
                },
        )
    } else if s == "json_push"@ {
        answer(
            remote_branch_arg(arg),
            |a: RemoteBranchArg<Seq<char>>|
                GraftCommand::JsonPush {
                    remote: a.remote,
                    branch: a.branch,
                    refspec: a.refspec,
                    all: a.all,
                    force: a.force,
                },
        )
    } else {
        None
    }
}

fn parse_sync_command(s: &str, p: &Pragma<'_>, host: Host) -> (r: Option<
    Result<GraftCommand, PragmaErr>,
>)
    ensures
        seen_answer(r) == sync_command(s@, p.name@, str_option(p.arg), host),
{
    if same(s, "fetch") {
        match require_unforced(parse_remote_branch_arg(p.arg), "fetch") {
            Ok(a) => Some(
                Ok(
                    GraftCommand::Fetch {
                        remote: a.remote,
                        branch: a.branch,
                        refspec: a.refspec,
                        all: a.all,
                    },
                ),
            ),
            Err(e) => Some(Err(e)),
        }
    } else if same(s, "json_fetch") {
        match require_unforced(parse_remote_branch_arg(p.arg), "json_fetch") {
            Ok(a) => Some(
                Ok(
                    GraftCommand::JsonFetch {
                        remote: a.remote,
                        branch: a.branch,
                        refspec: a.refspec,
                        all: a.all,
                    },
                ),
            ),
            Err(e) => Some(Err(e)),
        }
    } else if same(s, "fetch_async") {
        match require_unforced(parse_remote_branch_arg(p.arg), "fetch_async") {
            Ok(a) => Some(
                Ok(
                    GraftCommand::FetchAsync {
                        remote: a.remote,
                        branch: a.branch,
                        refspec: a.refspec,
                        all: a.all,
                    },
                ),
            ),
            Err(e) => Some(Err(e)),
        }
    } else if same(s, "json_fetch_async") {
        match parse_json_fetch_async_arg(p.arg, host) {
            Ok((a, mode)) => match require_unforced(Ok(a), "json_fetch_async") {
            Ok(a) => Some(
                Ok(
                    GraftCommand::JsonFetchAsync {
                        remote: a.remote,
                        branch: a.branch,
                        refspec: a.refspec,
                        all: a.all,
                        mode,
                    },
                ),
            ),
            Err(e) => Some(Err(e)),
        },
            Err(e) => Some(Err(e)),
        }
    } else if same(s, "job_status") {
        match p.require_arg() {
            Ok(a) => Some(Ok(GraftCommand::JobStatus { id: a.to_owned() })),
            Err(e) => Some(Err(e)),
        }
    } else if same(s, "json_job_status") {
        match p.require_arg() {
            Ok(a) => Some(Ok(GraftCommand::JsonJobStatus { id: a.to_owned() })),
            Err(e) => Some(Err(e)),
        }
    } else if same(s, "job_result") {
        match p.require_arg() {
            Ok(a) => Some(Ok(GraftCommand::JobResult { id: a.to_owned() })),
            Err(e) => Some(Err(e)),
        }
    } else if same(s, "json_job_result") {
        match p.require_arg() {
            Ok(a) => Some(Ok(GraftCommand::JsonJobResult { id: a.to_owned() })),
            Err(e) => Some(Err(e)),
        }
    } else if same(s, "pull") {
        match require_unforced(parse_remote_branch_arg(p.arg), "pull") {
            Ok(a) => Some(
                Ok(
                    GraftCommand::Pull {
                        remote: a.remote,
                        branch: a.branch,
                        refspec: a.refspec,
                        all: a.all,
                    },
                ),
            ),
            Err(e) => Some(Err(e)),
        }
    } else if same(s, "json_pull") {
        match require_unforced(parse_remote_branch_arg(p.arg), "json_pull") {
            Ok(a) => Some(
                Ok(
                    GraftCommand::JsonPull {
                        remote: a.remote,
                        branch: a.branch,
                        refspec: a.refspec,
                        all: a.all,
                    },
                ),
            ),
            Err(e) => Some(Err(e)),
        }
    } else if same(s, "push") {
        match parse_remote_branch_arg(p.arg) {
            Ok(a) => Some(
                Ok(
                    GraftCommand::Push {
                        remote: a.remote,
                        branch: a.branch,
                        refspec: a.refspec,
                        all: a.all,
                        force: a.force,
                    },
                ),
            ),
            Err(e) => Some(Err(e)),
        }
    } else if same(s, "json_push") {
        match parse_remote_branch_arg(p.arg) {
            Ok(a) => Some(
                Ok(
                    GraftCommand::JsonPush {
                        remote: a.remote,
                        branch: a.branch,
                        refspec: a.refspec,
                        all: a.all,
                        force: a.force,
                    },
                ),
            ),
            Err(e) => Some(Err(e)),
        }
    } else {
        None
    }
}

/// The commands on payloads and audits.
pub open spec fn payload_command(
    s: Seq<char>,
    name: Seq<char>,
    arg: Option<Seq<char>>,
    host: Host,
) -> Answer {
    if s == "audit"@ {
        answer(audit_arg(arg, host), |spec: RepoAuditSpec<Seq<char>>| GraftCommand::RepoAudit { spec })
    } else if s == "json_audit"@ {
        answer(audit_arg(arg, host), |spec: RepoAuditSpec<Seq<char>>| GraftCommand::JsonRepoAudit { spec })
    } else if s == "lfs_fetch"@ {
        answer(lfs_fetch_arg(arg, host), |spec: LargeFileFetchSpec<Seq<char>>| GraftCommand::LargeFileFetch { spec })
    } else if s == "json_lfs_fetch"@ {
        answer(
            lfs_fetch_arg(arg, host),
            |spec: LargeFileFetchSpec<Seq<char>>| GraftCommand::JsonLargeFileFetch {
                spec,
                operation: "lfs_fetch"@,
            },
        )
    } else if s == "payload_fetch"@ {
        answer(lfs_fetch_arg(arg, host), |spec: LargeFileFetchSpec<Seq<char>>| GraftCommand::LargeFileFetch { spec })
    } else if s == "json_payload_fetch"@ {
        answer(
            lfs_fetch_arg(arg, host),
            |spec: LargeFileFetchSpec<Seq<char>>| GraftCommand::JsonLargeFileFetch {
                spec,
                operation: "payload_fetch"@,
            },
        )
    } else if s == "lfs_status"@ {
        answer(lfs_status_arg(arg, host), |spec: LargeFileStatusSpec<Seq<char>>| GraftCommand::LargeFileStatus { spec })
    } else if s == "json_lfs_status"@ {
        answer(
            lfs_status_arg(arg, host),
            |spec: LargeFileStatusSpec<Seq<char>>| GraftCommand::JsonLargeFileStatus {
                spec,
                operation: "lfs_status"@,
            },
        )
    } else if s == "payload_status"@ {
        answer(lfs_status_arg(arg, host), |spec: LargeFileStatusSpec<Seq<char>>| GraftCommand::LargeFileStatus { spec })
    } else if s == "json_payload_status"@ {
        answer(
            lfs_status_arg(arg, host),
            |spec: LargeFileStatusSpec<Seq<char>>| GraftCommand::JsonLargeFileStatus {
                spec,
                operation: "payload_status"@,
            },
        )
    } else if s == "lfs_prune"@ {
        answer(
            mode_arg(arg, host, prune_mode_words()),
            |dry_run: bool| GraftCommand::LargeFilePrune { spec: LargeFilePruneSpec { dry_run } },
        )
    } else if s == "json_lfs_prune"@ {
        answer(
            mode_arg(arg, host, prune_mode_words()),
            |dry_run: bool| GraftCommand::JsonLargeFilePrune {
                spec: LargeFilePruneSpec { dry_run },
                operation: "lfs_prune"@,
            },
        )
    } else if s == "payload_prune"@ {
        answer(
            mode_arg(arg, host, prune_mode_words()),
            |dry_run: bool| GraftCommand::LargeFilePrune { spec: LargeFilePruneSpec { dry_run } },
        )
    } else if s == "json_payload_prune"@ {
        answer(
            mode_arg(arg, host, prune_mode_words()),
            |dry_run: bool| GraftCommand::JsonLargeFilePrune {
                spec: LargeFilePruneSpec { dry_run },
                operation: "payload_prune"@,
            },
        )
    } else {
        None
    }
}

fn parse_payload_command(s: &str, p: &Pragma<'_>, host: Host) -> (r: Option<
    Result<GraftCommand, PragmaErr>,
>)
    ensures
        seen_answer(r) == payload_command(s@, p.name@, str_option(p.arg), host),
{
    if same(s, "audit") {
        match parse_repo_audit_arg(p.arg, host) {
            Ok(spec) => Some(Ok(GraftCommand::RepoAudit { spec })),
            Err(e) => Some(Err(e)),
        }
    } else if same(s, "json_audit") {
        match parse_repo_audit_arg(p.arg, host) {
            Ok(spec) => Some(Ok(GraftCommand::JsonRepoAudit { spec })),
            Err(e) => Some(Err(e)),
        }
    } else if same(s, "lfs_fetch") {
        match parse_lfs_fetch_arg(p.arg, host) {
            Ok(spec) => Some(Ok(GraftCommand::LargeFileFetch { spec })),
            Err(e) => Some(Err(e)),
        }
    } else if same(s, "json_lfs_fetch") {
        match parse_lfs_fetch_arg(p.arg, host) {
            Ok(spec) => Some(
                Ok(GraftCommand::JsonLargeFileFetch { spec, operation: "lfs_fetch".to_owned() }),
            ),
            Err(e) => Some(Err(e)),
        }
    } else if same(s, "payload_fetch") {
        match parse_lfs_fetch_arg(p.arg, host) {
            Ok(spec) => Some(Ok(GraftCommand::LargeFileFetch { spec })),
            Err(e) => Some(Err(e)),
        }
    } else if same(s, "json_payload_fetch") {
        match parse_lfs_fetch_arg(p.arg, host) {
            Ok(spec) => Some(
                Ok(
                    GraftCommand::JsonLargeFileFetch {
                        spec,
                        operation: "payload_fetch".to_owned(),
                    },
                ),
            ),
            Err(e) => Some(Err(e)),
        }
    } else if same(s, "lfs_status") {
        match parse_lfs_status_arg(p.arg, host) {
            Ok(spec) => Some(Ok(GraftCommand::LargeFileStatus { spec })),
            Err(e) => Some(Err(e)),
        }
    } else if same(s, "json_lfs_status") {
        match parse_lfs_status_arg(p.arg, host) {
            Ok(spec) => Some(
                Ok(GraftCommand::JsonLargeFileStatus { spec, operation: "lfs_status".to_owned() }),
            ),
            Err(e) => Some(Err(e)),
        }
    } else if same(s, "payload_status") {
        match parse_lfs_status_arg(p.arg, host) {
            Ok(spec) => Some(Ok(GraftCommand::LargeFileStatus { spec })),
            Err(e) => Some(Err(e)),
        }
    } else if same(s, "json_payload_status") {
        match parse_lfs_status_arg(p.arg, host) {
            Ok(spec) => Some(
                Ok(
                    GraftCommand::JsonLargeFileStatus {
                        spec,
                        operation: "payload_status".to_owned(),
                    },
                ),
            ),
            Err(e) => Some(Err(e)),
        }
    } else if same(s, "lfs_prune") {
        match parse_lfs_prune_arg(p.arg, host) {
            Ok(spec) => Some(Ok(GraftCommand::LargeFilePrune { spec })),
            Err(e) => Some(Err(e)),
        }
    } else if same(s, "json_lfs_prune") {
        match parse_lfs_prune_arg(p.arg, host) {
            Ok(spec) => Some(
                Ok(GraftCommand::JsonLargeFilePrune { spec, operation: "lfs_prune".to_owned() }),
            ),
            Err(e) => Some(Err(e)),
        }
    } else if same(s, "payload_prune") {
        match parse_lfs_prune_arg(p.arg, host) {
            Ok(spec) => Some(Ok(GraftCommand::LargeFilePrune { spec })),
            Err(e) => Some(Err(e)),
        }
    } else if same(s, "json_payload_prune") {
        match parse_lfs_prune_arg(p.arg, host) {
            Ok(spec) => Some(
                Ok(
                    GraftCommand::JsonLargeFilePrune {
                        spec,
                        operation: "payload_prune".to_owned(),
                    },
                ),
            ),
            Err(e) => Some(Err(e)),
        }
    } else {
        None
    }
}

/// The commands on storage and configuration.
pub open spec fn config_command(
    s: Seq<char>,
    name: Seq<char>,
    arg: Option<Seq<char>>,
    host: Host,
) -> Answer {
    if s == "gc"@ {
        answer(
            mode_arg(arg, host, gc_mode_words()),
            |dry_run: bool| GraftCommand::StorageGc { spec: StorageGcSpec { dry_run } },
        )
    } else if s == "json_gc"@ {
        answer(
            mode_arg(arg, host, gc_mode_words()),
            |dry_run: bool| GraftCommand::JsonStorageGc { spec: StorageGcSpec { dry_run } },
        )
    } else if s == "config_get"@ {
        with_arg(name, arg, |a: Seq<char>| Some(Ok(GraftCommand::ConfigGet { key: a })))
    } else if s == "json_config_get"@ {
        with_arg(name, arg, |a: Seq<char>| Some(Ok(GraftCommand::JsonConfigGet { key: a })))
    } else if s == "config_list"@ {
        Some(Ok(GraftCommand::ConfigList))
    } else if s == "json_config_list"@ {
        answer(
            with_status_arg(arg, host),
            |on: bool| GraftCommand::JsonConfigList {
                mode: if on { JsonConfigListMode::WithStatus } else { JsonConfigListMode::LegacyArray },
            },
        )
    } else if s == "config_set"@ {
        with_arg(
            name,
            arg,
            |a: Seq<char>|
                answer(
                    config_set_arg(a),
                    |v: (Seq<char>, Seq<char>)| GraftCommand::ConfigSet { key: v.0, value: v.1 },
                ),
        )
    } else if s == "json_config_set"@ {
        with_arg(
            name,
            arg,
            |a: Seq<char>|
                answer(
                    config_set_arg(a),
                    |v: (Seq<char>, Seq<char>)| GraftCommand::JsonConfigSet {
                        key: v.0,
                        value: v.1,
                    },
                ),
        )
    } else if s == "config_unset"@ {
        with_arg(name, arg, |a: Seq<char>| Some(Ok(GraftCommand::ConfigUnset { key: a })))
    } else if s == "json_config_unset"@ {
        with_arg(name, arg, |a: Seq<char>| Some(Ok(GraftCommand::JsonConfigUnset { key: a })))
    } else {
        None
    }
}

fn parse_config_command(s: &str, p: &Pragma<'_>, host: Host) -> (r: Option<
    Result<GraftCommand, PragmaErr>,
>)
    ensures
        seen_answer(r) == config_command(s@, p.name@, str_option(p.arg), host),
{
    if same(s, "gc") {
        match parse_storage_gc_arg(p.arg, host) {
            Ok(spec) => Some(Ok(GraftCommand::StorageGc { spec })),
            Err(e) => Some(Err(e)),
        }
    } else if same(s, "json_gc") {
        match parse_storage_gc_arg(p.arg, host) {
            Ok(spec) => Some(Ok(GraftCommand::JsonStorageGc { spec })),
            Err(e) => Some(Err(e)),
        }
    } else if same(s, "config_get") {
        match p.require_arg() {
            Ok(a) => Some(Ok(GraftCommand::ConfigGet { key: a.to_owned() })),
            Err(e) => Some(Err(e)),
        }
    } else if same(s, "json_config_get") {
        match p.require_arg() {
            Ok(a) => Some(Ok(GraftCommand::JsonConfigGet { key: a.to_owned() })),
            Err(e) => Some(Err(e)),
        }
    } else if same(s, "config_list") {
        Some(Ok(GraftCommand::ConfigList))
    } else if same(s, "json_config_list") {
        match parse_json_config_list_arg(p.arg, host) {
            Ok(mode) => Some(Ok(GraftCommand::JsonConfigList { mode })),
            Err(e) => Some(Err(e)),
        }
    } else if same(s, "config_set") {
        match p.require_arg() {
            Ok(a) => match parse_repo_config_set_arg(a) {
            Ok((key, value)) => Some(Ok(GraftCommand::ConfigSet { key, value })),
            Err(e) => Some(Err(e)),
        },
            Err(e) => Some(Err(e)),
        }
    } else if same(s, "json_config_set") {
        match p.require_arg() {
            Ok(a) => match parse_repo_config_set_arg(a) {
            Ok((key, value)) => Some(Ok(GraftCommand::JsonConfigSet { key, value })),
            Err(e) => Some(Err(e)),
        },
            Err(e) => Some(Err(e)),
        }
    } else if same(s, "config_unset") {
        match p.require_arg() {
            Ok(a) => Some(Ok(GraftCommand::ConfigUnset { key: a.to_owned() })),
            Err(e) => Some(Err(e)),
        }
    } else if same(s, "json_config_unset") {
        match p.require_arg() {
            Ok(a) => Some(Ok(GraftCommand::JsonConfigUnset { key: a.to_owned() })),
            Err(e) => Some(Err(e)),
        }
    } else {
        None
    }
}

/// The first table that knows the command decides.
pub open spec fn suffix_command(
    s: Seq<char>,
    name: Seq<char>,
    arg: Option<Seq<char>>,
    host: Host,
) -> Result<CommandView, PragmaErr<Seq<char>>> {
    if worktree_command(s, name, arg, host) is Some {
        worktree_command(s, name, arg, host)->0
    } else if branch_command(s, name, arg, host) is Some {
        branch_command(s, name, arg, host)->0
    } else if tag_command(s, name, arg, host) is Some {
        tag_command(s, name, arg, host)->0
    } else if merge_command(s, name, arg, host) is Some {
        merge_command(s, name, arg, host)->0
    } else if remote_command(s, name, arg, host) is Some {
        remote_command(s, name, arg, host)->0
    } else if sync_command(s, name, arg, host) is Some {
        sync_command(s, name, arg, host)->0
    } else if payload_command(s, name, arg, host) is Some {
        payload_command(s, name, arg, host)->0
    } else if config_command(s, name, arg, host) is Some {
        config_command(s, name, arg, host)->0
    } else {
        refused("invalid graft pragma `"@ + name + "`"@)
    }
}

/// The command that a name and an argument give; names without the prefix `graft_` are not found.
pub open spec fn command_of(name: Seq<char>, arg: Option<Seq<char>>, host: Host) -> Result<
    CommandView,
    PragmaErr<Seq<char>>,
> {
    match cut(name, "_"@) {
        Some((prefix, s)) => if prefix == "graft"@ {
            suffix_command(s, name, arg, host)
        } else {
            Err(PragmaErr::NotFound)
        },
        None => Err(PragmaErr::NotFound),
    }
}

/// The command of a repository session: `name` without the prefix `graft_`.
pub open spec fn repository_command(name: Seq<char>, arg: Option<Seq<char>>, host: Host) -> Result<
    CommandView,
    CommandError<Seq<char>>,
> {
    match command_of("graft_"@ + name, arg, host) {
        Ok(c) => Ok(c),
        Err(PragmaErr::NotFound) => Err(CommandError::UnknownCommand),
        Err(PragmaErr::Fail(Some(m))) => Err(CommandError::InvalidCommand(m)),
        Err(PragmaErr::Fail(None)) => Err(
            CommandError::InvalidCommand("invalid repository command"@),
        ),
    }
}

impl GraftCommand<String, RepoResolveRowSpec> {
    /// Reads a command line.
    pub fn parse(p: &Pragma<'_>, host: Host) -> (r: Result<GraftCommand, PragmaErr>)
        ensures
            seen(r) == command_of(p.name@, str_option(p.arg), host),
    {
        let s = match split_once(p.name, "_") {
            None => return Err(PragmaErr::NotFound),
            Some((prefix, s)) => {
                if !same(prefix, "graft") {
                    return Err(PragmaErr::NotFound);
                }
                s
            },
        };
        if let Some(r) = parse_worktree_command(s, p, host) {
            return r;
        }
        if let Some(r) = parse_branch_command(s, p, host) {
            return r;
        }
        if let Some(r) = parse_tag_command(s, p, host) {
            return r;
        }
        if let Some(r) = parse_merge_command(s, p, host) {
            return r;
        }
        if let Some(r) = parse_remote_command(s, p, host) {
            return r;
        }
        if let Some(r) = parse_sync_command(s, p, host) {
            return r;
        }
        if let Some(r) = parse_payload_command(s, p, host) {
            return r;
        }
        if let Some(r) = parse_config_command(s, p, host) {
            return r;
        }
        Err(pragma_fail(cat3("invalid graft pragma `", p.name, "`").as_str()))
    }

    /// Reads a command of a repository session, whose name has no prefix.
    pub fn parse_repository(name: &str, argument: Option<&str>, host: Host) -> (r: Result<
        GraftCommand,
        CommandError,
    >)
        ensures
            seen(r) == repository_command(name@, str_option(argument), host),
    {
        let full_name = cat2("graft_", name);
        let input = Pragma { name: full_name.as_str(), arg: argument };
        match GraftCommand::parse(&input, host) {
            Ok(command) => Ok(command),
            Err(PragmaErr::NotFound) => Err(CommandError::UnknownCommand),
            Err(PragmaErr::Fail(Some(message))) => Err(CommandError::InvalidCommand(message)),
            Err(PragmaErr::Fail(None)) => Err(
                CommandError::InvalidCommand("invalid repository command".to_owned()),
            ),
        }
    }
}

} // verus!
