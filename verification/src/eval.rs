//! What each command does, how it answers, and when it is refused.
use vstd::prelude::*;
use vstd::string::*;

use crate::command::{CommandView, GraftCommand};
use crate::error::{invalid_command, text_option, CommandError};
use crate::spec::{
    BranchListMode, JsonConfigListMode, JsonFetchAsyncMode, JsonLogSpec, JsonTagsMode,
    LargeFileFetchSpec, LargeFilePruneSpec, LargeFileStatusSpec, LsFilesSpec, RemoteConfig,
    RepoAddSpec, RepoAuditSpec, RepoCheckoutSpec, RepoCloneSpec, RepoDiffSpec, RepoExportSpec,
    RepoInitSpec, RepoRemoveSpec, RepoResolveRowSpec, RepoResolveSpec, RepoRestoreSpec,
    ResetMode, ResolveSide, RowSpecView, StatusSpec, StorageGcSpec,
};
use crate::text::cat3;

verus! {

/// What a command does to the repository, whatever form its answer has.
#[derive(Debug, Clone, PartialEq, Eq)]
#[allow(inconsistent_fields)]
pub enum Operation<S = String, R = RepoResolveRowSpec> {
    Tags,
    TagList { mode: JsonTagsMode },
    Checkout { spec: RepoCheckoutSpec<S> },
    Restore { spec: RepoRestoreSpec<S> },
    Export { spec: RepoExportSpec<S> },
    Status { spec: StatusSpec },
    Init { spec: RepoInitSpec<S> },
    Clone { spec: RepoCloneSpec<S> },
    Add { spec: RepoAddSpec<S> },
    Remove { spec: RepoRemoveSpec<S> },
    Commit { message: S },
    Branches { mode: BranchListMode },
    BranchCreate { name: S, start_point: Option<S> },
    BranchDelete { name: S, force: bool },
    BranchRename { old_name: Option<S>, new_name: S, force: bool },
    BranchUpstream { branch: Option<S>, remote: S, remote_branch: S },
    BranchUnsetUpstream { branch: Option<S> },
    TagCreate { name: S, target: Option<S>, message: Option<S> },
    TagDelete { name: S },
    SwitchBranch { name: S, force: bool },
    SwitchCreate { name: S, start_point: Option<S>, force: bool },
    Merge { rev: S },
    MergeAbort,
    MergeContinue { message: S },
    MergeContinueValidated { message: S },
    Conflicts,
    Resolve { spec: RepoResolveSpec<S, R> },
    ResolveTable { path: S, table: S, side: ResolveSide },
    Unresolve { path: S },
    RecordPathResolution { path: S, resolution: S },
    RemoteAdd { name: S, config: RemoteConfig<S> },
    RemoteRemove { name: S },
    RemoteRename { old_name: S, new_name: S },
    RemoteGetUrl { name: S },
    RemoteSetUrl { name: S, config: RemoteConfig<S> },
    RemotePrune { name: S },
    LsRemote { name: S },
    Remotes,
    Fetch { remote: Option<S>, branch: Option<S>, refspec: Option<S>, all: bool },
    FetchAsync { remote: Option<S>, branch: Option<S>, refspec: Option<S>, all: bool },
    FetchAsyncJson {
        remote: Option<S>,
        branch: Option<S>,
        refspec: Option<S>,
        all: bool,
        mode: JsonFetchAsyncMode,
    },
    JobStatus { id: S },
    JobResult { id: S },
    Pull { remote: Option<S>, branch: Option<S>, refspec: Option<S>, all: bool },
    Push { remote: Option<S>, branch: Option<S>, refspec: Option<S>, all: bool, force: bool },
    Audit { spec: RepoAuditSpec<S> },
    PayloadFetch { spec: LargeFileFetchSpec<S> },
    PayloadStatus { spec: LargeFileStatusSpec<S> },
    PayloadPrune { spec: LargeFilePruneSpec },
    StorageGc { spec: StorageGcSpec },
    LsFiles { spec: LsFilesSpec },
    ConfigGet { key: S },
    ConfigList,
    ConfigListJson { mode: JsonConfigListMode },
    ConfigSet { key: S, value: S },
    ConfigUnset { key: S },
    Log,
    LogPage { spec: JsonLogSpec<S> },
    Reset { rev: S, mode: ResetMode },
    Diff { spec: RepoDiffSpec<S> },
    Show { target: S },
}

pub type OperationView = Operation<Seq<char>, RowSpecView>;

impl View for Operation<String, RepoResolveRowSpec> {
    type V = OperationView;

    open spec fn view(&self) -> OperationView {
        match self {
            Operation::Tags => Operation::Tags,
            Operation::TagList { mode } => Operation::TagList { mode: *mode },
            Operation::Checkout { spec } => Operation::Checkout { spec: spec@ },
            Operation::Restore { spec } => Operation::Restore { spec: spec@ },
            Operation::Export { spec } => Operation::Export { spec: spec@ },
            Operation::Status { spec } => Operation::Status { spec: *spec },
            Operation::Init { spec } => Operation::Init { spec: spec@ },
            Operation::Clone { spec } => Operation::Clone { spec: spec@ },
            Operation::Add { spec } => Operation::Add { spec: spec@ },
            Operation::Remove { spec } => Operation::Remove { spec: spec@ },
            Operation::Commit { message } => Operation::Commit { message: message@ },
            Operation::Branches { mode } => Operation::Branches { mode: *mode },
            Operation::BranchCreate { name, start_point } => Operation::BranchCreate {
                name: name@,
                start_point: text_option(*start_point),
            },
            Operation::BranchDelete { name, force } => Operation::BranchDelete {
                name: name@,
                force: *force,
            },
            Operation::BranchRename { old_name, new_name, force } => Operation::BranchRename {
                old_name: text_option(*old_name),
                new_name: new_name@,
                force: *force,
            },
            Operation::BranchUpstream { branch, remote, remote_branch } => Operation::BranchUpstream {
                branch: text_option(*branch),
                remote: remote@,
                remote_branch: remote_branch@,
            },
            Operation::BranchUnsetUpstream { branch } => Operation::BranchUnsetUpstream {
                branch: text_option(*branch),
            },
            Operation::TagCreate { name, target, message } => Operation::TagCreate {
                name: name@,
                target: text_option(*target),
                message: text_option(*message),
            },
            Operation::TagDelete { name } => Operation::TagDelete { name: name@ },
            Operation::SwitchBranch { name, force } => Operation::SwitchBranch {
                name: name@,
                force: *force,
            },
            Operation::SwitchCreate { name, start_point, force } => Operation::SwitchCreate {
                name: name@,
                start_point: text_option(*start_point),
                force: *force,
            },
            Operation::Merge { rev } => Operation::Merge { rev: rev@ },
            Operation::MergeAbort => Operation::MergeAbort,
            Operation::MergeContinue { message } => Operation::MergeContinue { message: message@ },
            Operation::MergeContinueValidated { message } => Operation::MergeContinueValidated { message: message@ },
            Operation::Conflicts => Operation::Conflicts,
            Operation::Resolve { spec } => Operation::Resolve { spec: spec@ },
            Operation::ResolveTable { path, table, side } => Operation::ResolveTable {
                path: path@,
                table: table@,
                side: *side,
            },
            Operation::Unresolve { path } => Operation::Unresolve { path: path@ },
            Operation::RecordPathResolution { path, resolution } => Operation::RecordPathResolution {
                path: path@,
                resolution: resolution@,
            },
            Operation::RemoteAdd { name, config } => Operation::RemoteAdd {
                name: name@,
                config: config@,
            },
            Operation::RemoteRemove { name } => Operation::RemoteRemove { name: name@ },
            Operation::RemoteRename { old_name, new_name } => Operation::RemoteRename {
                old_name: old_name@,
                new_name: new_name@,
            },
            Operation::RemoteGetUrl { name } => Operation::RemoteGetUrl { name: name@ },
            Operation::RemoteSetUrl { name, config } => Operation::RemoteSetUrl {
                name: name@,
                config: config@,
            },
            Operation::RemotePrune { name } => Operation::RemotePrune { name: name@ },
            Operation::LsRemote { name } => Operation::LsRemote { name: name@ },
            Operation::Remotes => Operation::Remotes,
            Operation::Fetch { remote, branch, refspec, all } => Operation::Fetch {
                remote: text_option(*remote),
                branch: text_option(*branch),
                refspec: text_option(*refspec),
                all: *all,
            },
            Operation::FetchAsync { remote, branch, refspec, all } => Operation::FetchAsync {
                remote: text_option(*remote),
                branch: text_option(*branch),
                refspec: text_option(*refspec),
                all: *all,
            },
            Operation::FetchAsyncJson { remote, branch, refspec, all, mode } => Operation::FetchAsyncJson {
                remote: text_option(*remote),
                branch: text_option(*branch),
                refspec: text_option(*refspec),
                all: *all,
                mode: *mode,
            },
            Operation::JobStatus { id } => Operation::JobStatus { id: id@ },
            Operation::JobResult { id } => Operation::JobResult { id: id@ },
            Operation::Pull { remote, branch, refspec, all } => Operation::Pull {
                remote: text_option(*remote),
                branch: text_option(*branch),
                refspec: text_option(*refspec),
                all: *all,
            },
            Operation::Push { remote, branch, refspec, all, force } => Operation::Push {
                remote: text_option(*remote),
                branch: text_option(*branch),
                refspec: text_option(*refspec),
                all: *all,
                force: *force,
            },
            Operation::Audit { spec } => Operation::Audit { spec: spec@ },
            Operation::PayloadFetch { spec } => Operation::PayloadFetch { spec: spec@ },
            Operation::PayloadStatus { spec } => Operation::PayloadStatus { spec: spec@ },
            Operation::PayloadPrune { spec } => Operation::PayloadPrune { spec: *spec },
            Operation::StorageGc { spec } => Operation::StorageGc { spec: *spec },
            Operation::LsFiles { spec } => Operation::LsFiles { spec: *spec },
            Operation::ConfigGet { key } => Operation::ConfigGet { key: key@ },
            Operation::ConfigList => Operation::ConfigList,
            Operation::ConfigListJson { mode } => Operation::ConfigListJson { mode: *mode },
            Operation::ConfigSet { key, value } => Operation::ConfigSet {
                key: key@,
                value: value@,
            },
            Operation::ConfigUnset { key } => Operation::ConfigUnset { key: key@ },
            Operation::Log => Operation::Log,
            Operation::LogPage { spec } => Operation::LogPage { spec: spec@ },
            Operation::Reset { rev, mode } => Operation::Reset { rev: rev@, mode: *mode },
            Operation::Diff { spec } => Operation::Diff { spec: spec@ },
            Operation::Show { target } => Operation::Show { target: target@ },
        }
    }
}

/// The form of an answer: a report, or JSON with the name of the operation where it has one.
#[derive(Debug, Clone, PartialEq, Eq)]
pub enum AnswerForm<S = String> {
    Report,
    Json { operation: Option<S> },
}

impl View for AnswerForm<String> {
    type V = AnswerForm<Seq<char>>;

    open spec fn view(&self) -> AnswerForm<Seq<char>> {
        match self {
            AnswerForm::Report => AnswerForm::Report,
            AnswerForm::Json { operation } => AnswerForm::Json {
                operation: text_option(*operation),
            },
        }
    }
}

/// A command that is refused; where `after_open` says so, a repository that cannot be opened is
/// reported first.
#[derive(Debug, Clone, PartialEq, Eq)]
pub struct Refusal<S = String> {
    pub error: CommandError<S>,
    pub after_open: bool,
}

impl View for Refusal<String> {
    type V = Refusal<Seq<char>>;

    open spec fn view(&self) -> Refusal<Seq<char>> {
        Refusal { error: self.error@, after_open: self.after_open }
    }
}

/// The operation of a command.
pub open spec fn operation_of(c: CommandView) -> OperationView {
    match c {
        GraftCommand::Tags => Operation::Tags,
        GraftCommand::JsonTags { mode } => Operation::TagList { mode },
        GraftCommand::RepoCheckout { spec } => Operation::Checkout { spec },
        GraftCommand::JsonRepoCheckout { spec } => Operation::Checkout { spec },
        GraftCommand::Restore { spec } => Operation::Restore { spec },
        GraftCommand::JsonRestore { spec } => Operation::Restore { spec },
        GraftCommand::Export { spec } => Operation::Export { spec },
        GraftCommand::JsonExport { spec } => Operation::Export { spec },
        GraftCommand::Status { spec } => Operation::Status { spec },
        GraftCommand::JsonStatus { spec } => Operation::Status { spec },
        GraftCommand::RepoInit { spec } => Operation::Init { spec },
        GraftCommand::JsonRepoInit { spec } => Operation::Init { spec },
        GraftCommand::RepoClone { spec } => Operation::Clone { spec },
        GraftCommand::JsonRepoClone { spec } => Operation::Clone { spec },
        GraftCommand::Add { spec } => Operation::Add { spec },
        GraftCommand::JsonAdd { spec } => Operation::Add { spec },
        GraftCommand::Remove { spec } => Operation::Remove { spec },
        GraftCommand::JsonRemove { spec } => Operation::Remove { spec },
        GraftCommand::Commit { message } => Operation::Commit { message },
        GraftCommand::JsonCommit { message } => Operation::Commit { message },
        GraftCommand::Branch { mode } => Operation::Branches { mode },
        GraftCommand::JsonBranch { mode } => Operation::Branches { mode },
        GraftCommand::BranchCreate { name, start_point } => Operation::BranchCreate { name, start_point },
        GraftCommand::JsonBranchCreate { name, start_point } => Operation::BranchCreate { name, start_point },
        GraftCommand::BranchDelete { name, force } => Operation::BranchDelete { name, force },
        GraftCommand::JsonBranchDelete { name, force } => Operation::BranchDelete { name, force },
        GraftCommand::BranchRename {
            old_name,
            new_name,
            force,
        } => Operation::BranchRename { old_name, new_name, force },
        GraftCommand::JsonBranchRename {
            old_name,
            new_name,
            force,
        } => Operation::BranchRename { old_name, new_name, force },
        GraftCommand::BranchUpstream {
            branch,
            remote,
            remote_branch,
        } => Operation::BranchUpstream { branch, remote, remote_branch },
        GraftCommand::JsonBranchUpstream {
            branch,
            remote,
            remote_branch,
        } => Operation::BranchUpstream { branch, remote, remote_branch },
        GraftCommand::BranchUnsetUpstream { branch } => Operation::BranchUnsetUpstream { branch },
        GraftCommand::JsonBranchUnsetUpstream { branch } => Operation::BranchUnsetUpstream { branch },
        GraftCommand::TagCreate {
            name,
            target,
            message,
        } => Operation::TagCreate { name, target, message },
        GraftCommand::JsonTagCreate {
            name,
            target,
            message,
        } => Operation::TagCreate { name, target, message },
        GraftCommand::TagDelete { name } => Operation::TagDelete { name },
        GraftCommand::JsonTagDelete { name } => Operation::TagDelete { name },
        GraftCommand::SwitchBranch { name, force } => Operation::SwitchBranch { name, force },
        GraftCommand::JsonSwitchBranch { name, force } => Operation::SwitchBranch { name, force },
        GraftCommand::SwitchCreate {
            name,
            start_point,
            force,
        } => Operation::SwitchCreate { name, start_point, force },
        GraftCommand::JsonSwitchCreate {
            name,
            start_point,
            force,
        } => Operation::SwitchCreate { name, start_point, force },
        GraftCommand::Merge { rev } => Operation::Merge { rev },
        GraftCommand::JsonMerge { rev } => Operation::Merge { rev },
        GraftCommand::MergeAbort => Operation::MergeAbort,
        GraftCommand::JsonMergeAbort => Operation::MergeAbort,
        GraftCommand::MergeContinue { message } => Operation::MergeContinue { message },
        GraftCommand::JsonMergeContinue { message } => Operation::MergeContinue { message },
        GraftCommand::JsonMergeContinueValidated { message } => Operation::MergeContinueValidated { message },
        GraftCommand::Conflicts => Operation::Conflicts,
        GraftCommand::JsonConflicts => Operation::Conflicts,
        GraftCommand::Resolve { spec } => Operation::Resolve { spec },
        GraftCommand::JsonResolveConflict { spec } => Operation::Resolve { spec },
        GraftCommand::JsonResolveTableConflict { path, table, side } => Operation::ResolveTable { path, table, side },
        GraftCommand::JsonUnresolveConflict { path } => Operation::Unresolve { path },
        GraftCommand::JsonRecordMergePathResolution { path, resolution } => Operation::RecordPathResolution { path, resolution },
        GraftCommand::RemoteAdd { name, config } => Operation::RemoteAdd { name, config },
        GraftCommand::JsonRemoteAdd { name, config } => Operation::RemoteAdd { name, config },
        GraftCommand::RemoteRemove { name } => Operation::RemoteRemove { name },
        GraftCommand::JsonRemoteRemove { name } => Operation::RemoteRemove { name },
        GraftCommand::RemoteRename {
            old_name,
            new_name,
        } => Operation::RemoteRename { old_name, new_name },
        GraftCommand::JsonRemoteRename {
            old_name,
            new_name,
        } => Operation::RemoteRename { old_name, new_name },
        GraftCommand::RemoteGetUrl { name } => Operation::RemoteGetUrl { name },
        GraftCommand::JsonRemoteGetUrl { name } => Operation::RemoteGetUrl { name },
        GraftCommand::RemoteSetUrl { name, config } => Operation::RemoteSetUrl { name, config },
        GraftCommand::JsonRemoteSetUrl { name, config } => Operation::RemoteSetUrl { name, config },
        GraftCommand::RemotePrune { name } => Operation::RemotePrune { name },
        GraftCommand::JsonRemotePrune { name } => Operation::RemotePrune { name },
        GraftCommand::LsRemote { name } => Operation::LsRemote { name },
        GraftCommand::JsonLsRemote { name } => Operation::LsRemote { name },
        GraftCommand::Remotes => Operation::Remotes,
        GraftCommand::JsonRemotes => Operation::Remotes,
        GraftCommand::Fetch {
            remote,
            branch,
            refspec,
            all,
        } => Operation::Fetch { remote, branch, refspec, all },
        GraftCommand::JsonFetch {
            remote,
            branch,
            refspec,
            all,
        } => Operation::Fetch { remote, branch, refspec, all },
        GraftCommand::FetchAsync {
            remote,
            branch,
            refspec,
            all,
        } => Operation::FetchAsync { remote, branch, refspec, all },
        GraftCommand::JsonFetchAsync {
            remote,
            branch,
            refspec,
            all,
            mode,
        } => Operation::FetchAsyncJson { remote, branch, refspec, all, mode },
        GraftCommand::JobStatus { id } => Operation::JobStatus { id },
        GraftCommand::JsonJobStatus { id } => Operation::JobStatus { id },
        GraftCommand::JobResult { id } => Operation::JobResult { id },
        GraftCommand::JsonJobResult { id } => Operation::JobResult { id },
        GraftCommand::Pull {
            remote,
            branch,
            refspec,
            all,
        } => Operation::Pull { remote, branch, refspec, all },
        GraftCommand::JsonPull {
            remote,
            branch,
            refspec,
            all,
        } => Operation::Pull { remote, branch, refspec, all },
        GraftCommand::Push {
            remote,
            branch,
            refspec,
            all,
            force,
        } => Operation::Push { remote, branch, refspec, all, force },
        GraftCommand::JsonPush {
            remote,
            branch,
            refspec,
            all,
            force,
        } => Operation::Push { remote, branch, refspec, all, force },
        GraftCommand::RepoAudit { spec } => Operation::Audit { spec },
        GraftCommand::JsonRepoAudit { spec } => Operation::Audit { spec },
        GraftCommand::LargeFileFetch { spec } => Operation::PayloadFetch { spec },
        GraftCommand::JsonLargeFileFetch { spec, .. } => Operation::PayloadFetch { spec },
        GraftCommand::LargeFileStatus { spec } => Operation::PayloadStatus { spec },
        GraftCommand::JsonLargeFileStatus { spec, .. } => Operation::PayloadStatus { spec },
        GraftCommand::LargeFilePrune { spec } => Operation::PayloadPrune { spec },
        GraftCommand::JsonLargeFilePrune { spec, .. } => Operation::PayloadPrune { spec },
        GraftCommand::StorageGc { spec } => Operation::StorageGc { spec },
        GraftCommand::JsonStorageGc { spec } => Operation::StorageGc { spec },
        GraftCommand::LsFiles { spec } => Operation::LsFiles { spec },
        GraftCommand::JsonLsFiles { spec } => Operation::LsFiles { spec },
        GraftCommand::ConfigGet { key } => Operation::ConfigGet { key },
        GraftCommand::JsonConfigGet { key } => Operation::ConfigGet { key },
        GraftCommand::ConfigList => Operation::ConfigList,
        GraftCommand::JsonConfigList { mode } => Operation::ConfigListJson { mode },
        GraftCommand::ConfigSet { key, value } => Operation::ConfigSet { key, value },
        GraftCommand::JsonConfigSet { key, value } => Operation::ConfigSet { key, value },
        GraftCommand::ConfigUnset { key } => Operation::ConfigUnset { key },
        GraftCommand::JsonConfigUnset { key } => Operation::ConfigUnset { key },
        GraftCommand::Log => Operation::Log,
        GraftCommand::JsonLog { spec } => Operation::LogPage { spec },
        GraftCommand::Reset { rev, mode } => Operation::Reset { rev, mode },
        GraftCommand::JsonReset { rev, mode } => Operation::Reset { rev, mode },
        GraftCommand::RepoDiff { spec } => Operation::Diff { spec },
        GraftCommand::JsonRepoDiff { spec } => Operation::Diff { spec },
        GraftCommand::Show { target } => Operation::Show { target },
        GraftCommand::JsonShow { target } => Operation::Show { target },
    }
}

/// The form of the answer to a command.
pub open spec fn form_of(c: CommandView) -> AnswerForm<Seq<char>> {
    match c {
        GraftCommand::JsonTags { .. } => AnswerForm::Json { operation: None },
        GraftCommand::JsonRepoCheckout { .. } => AnswerForm::Json { operation: Some("checkout"@) },
        GraftCommand::JsonRestore { .. } => AnswerForm::Json { operation: Some("restore"@) },
        GraftCommand::JsonExport { .. } => AnswerForm::Json { operation: Some("export"@) },
        GraftCommand::JsonStatus { .. } => AnswerForm::Json { operation: None },
        GraftCommand::JsonRepoInit { .. } => AnswerForm::Json { operation: Some("init"@) },
        GraftCommand::JsonRepoClone { .. } => AnswerForm::Json { operation: Some("clone"@) },
        GraftCommand::JsonAdd { .. } => AnswerForm::Json { operation: Some("add"@) },
        GraftCommand::JsonRemove { .. } => AnswerForm::Json { operation: Some("rm"@) },
        GraftCommand::JsonCommit { .. } => AnswerForm::Json { operation: Some("commit"@) },
        GraftCommand::JsonBranch { .. } => AnswerForm::Json { operation: None },
        GraftCommand::JsonBranchCreate { .. } => AnswerForm::Json {
            operation: Some("branch_create"@),
        },
        GraftCommand::JsonBranchDelete { .. } => AnswerForm::Json {
            operation: Some("branch_delete"@),
        },
        GraftCommand::JsonBranchRename { .. } => AnswerForm::Json {
            operation: Some("branch_rename"@),
        },
        GraftCommand::JsonBranchUpstream { .. } => AnswerForm::Json {
            operation: Some("branch_upstream"@),
        },
        GraftCommand::JsonBranchUnsetUpstream { .. } => AnswerForm::Json {
            operation: Some("branch_unset_upstream"@),
        },
        GraftCommand::JsonTagCreate { .. } => AnswerForm::Json { operation: Some("tag_create"@) },
        GraftCommand::JsonTagDelete { .. } => AnswerForm::Json { operation: Some("tag_delete"@) },
        GraftCommand::JsonSwitchBranch { .. } => AnswerForm::Json {
            operation: Some("switch_branch"@),
        },
        GraftCommand::JsonSwitchCreate { .. } => AnswerForm::Json {
            operation: Some("switch_create"@),
        },
        GraftCommand::JsonMerge { .. } => AnswerForm::Json { operation: Some("merge"@) },
        GraftCommand::JsonMergeAbort => AnswerForm::Json { operation: Some("merge_abort"@) },
        GraftCommand::JsonMergeContinue { .. } => AnswerForm::Json {
            operation: Some("merge_continue"@),
        },
        GraftCommand::JsonMergeContinueValidated { .. } => AnswerForm::Json {
            operation: Some("merge_continue"@),
        },
        GraftCommand::JsonConflicts => AnswerForm::Json { operation: None },
        GraftCommand::JsonResolveConflict { .. } => AnswerForm::Json {
            operation: Some("resolve_conflict"@),
        },
        GraftCommand::JsonResolveTableConflict { .. } => AnswerForm::Json {
            operation: Some("resolve_merge_table"@),
        },
        GraftCommand::JsonUnresolveConflict { .. } => AnswerForm::Json {
            operation: Some("unresolve_merge_path"@),
        },
        GraftCommand::JsonRecordMergePathResolution { .. } => AnswerForm::Json {
            operation: Some("record_merge_path_resolution"@),
        },
        GraftCommand::JsonRemoteAdd { .. } => AnswerForm::Json { operation: Some("remote_add"@) },
        GraftCommand::JsonRemoteRemove { .. } => AnswerForm::Json {
            operation: Some("remote_remove"@),
        },
        GraftCommand::JsonRemoteRename { .. } => AnswerForm::Json {
            operation: Some("remote_rename"@),
        },
        GraftCommand::JsonRemoteGetUrl { .. } => AnswerForm::Json {
            operation: Some("remote_get_url"@),
        },
        GraftCommand::JsonRemoteSetUrl { .. } => AnswerForm::Json {
            operation: Some("remote_set_url"@),
        },
        GraftCommand::JsonRemotePrune { .. } => AnswerForm::Json {
            operation: Some("remote_prune"@),
        },
        GraftCommand::JsonLsRemote { .. } => AnswerForm::Json { operation: Some("ls_remote"@) },
        GraftCommand::JsonRemotes => AnswerForm::Json { operation: None },
        GraftCommand::JsonFetch { .. } => AnswerForm::Json { operation: Some("fetch"@) },
        GraftCommand::JsonFetchAsync { .. } => AnswerForm::Json { operation: None },
        GraftCommand::JsonJobStatus { .. } => AnswerForm::Json { operation: None },
        GraftCommand::JsonJobResult { .. } => AnswerForm::Json { operation: None },
        GraftCommand::JsonPull { .. } => AnswerForm::Json { operation: Some("pull"@) },
        GraftCommand::JsonPush { .. } => AnswerForm::Json { operation: Some("push"@) },
        GraftCommand::JsonRepoAudit { spec } => AnswerForm::Json {
            operation: if spec.repair {
                Some("audit_repair"@)
            } else {
                None
            },
        },
        GraftCommand::JsonLargeFileFetch { operation, .. } => AnswerForm::Json {
            operation: Some(operation),
        },
        GraftCommand::JsonLargeFileStatus { operation, .. } => AnswerForm::Json {
            operation: Some(operation),
        },
        GraftCommand::JsonLargeFilePrune { operation, .. } => AnswerForm::Json {
            operation: Some(operation),
        },
        GraftCommand::JsonStorageGc { .. } => AnswerForm::Json { operation: Some("gc"@) },
        GraftCommand::JsonLsFiles { .. } => AnswerForm::Json { operation: None },
        GraftCommand::JsonConfigGet { .. } => AnswerForm::Json { operation: None },
        GraftCommand::JsonConfigList { .. } => AnswerForm::Json { operation: None },
        GraftCommand::JsonConfigSet { .. } => AnswerForm::Json { operation: Some("config_set"@) },
        GraftCommand::JsonConfigUnset { .. } => AnswerForm::Json {
            operation: Some("config_unset"@),
        },
        GraftCommand::JsonLog { .. } => AnswerForm::Json { operation: None },
        GraftCommand::JsonReset { .. } => AnswerForm::Json { operation: Some("reset"@) },
        GraftCommand::JsonRepoDiff { .. } => AnswerForm::Json { operation: None },
        GraftCommand::JsonShow { .. } => AnswerForm::Json { operation: None },
        _ => AnswerForm::Report,
    }
}

/// What is said of a command that cannot run while there is an open transaction, and whether the
/// repository is opened before.
pub open spec fn busy_refusal(c: CommandView) -> Option<(Seq<char>, bool)> {
    match c {
        GraftCommand::RepoCheckout { .. } => Some(
            ("cannot checkout while there is an open transaction"@, false),
        ),
        GraftCommand::JsonRepoCheckout { .. } => Some(
            ("cannot checkout while there is an open transaction"@, false),
        ),
        GraftCommand::Restore { .. } => Some(
            ("cannot restore while there is an open transaction"@, false),
        ),
        GraftCommand::JsonRestore { .. } => Some(
            ("cannot restore while there is an open transaction"@, false),
        ),
        GraftCommand::Export { .. } => Some(
            ("cannot export while there is an open transaction"@, false),
        ),
        GraftCommand::JsonExport { .. } => Some(
            ("cannot export while there is an open transaction"@, false),
        ),
        GraftCommand::RepoInit { .. } => Some(
            ("cannot initialize a repository while there is an open transaction"@, false),
        ),
        GraftCommand::JsonRepoInit { .. } => Some(
            ("cannot initialize a repository while there is an open transaction"@, false),
        ),
        GraftCommand::RepoClone { .. } => Some(
            ("cannot clone while there is an open transaction"@, false),
        ),
        GraftCommand::JsonRepoClone { .. } => Some(
            ("cannot clone while there is an open transaction"@, false),
        ),
        GraftCommand::Add { .. } => Some(("cannot add while there is an open transaction"@, false)),
        GraftCommand::JsonAdd { .. } => Some(
            ("cannot add while there is an open transaction"@, false),
        ),
        GraftCommand::Remove { .. } => Some(
            ("cannot remove while there is an open transaction"@, false),
        ),
        GraftCommand::JsonRemove { .. } => Some(
            ("cannot remove while there is an open transaction"@, false),
        ),
        GraftCommand::Commit { .. } => Some(
            ("cannot commit while there is an open transaction"@, false),
        ),
        GraftCommand::JsonCommit { .. } => Some(
            ("cannot commit while there is an open transaction"@, false),
        ),
        GraftCommand::SwitchBranch { .. } => Some(
            ("cannot switch branches while there is an open transaction"@, false),
        ),
        GraftCommand::JsonSwitchBranch { .. } => Some(
            ("cannot switch branches while there is an open transaction"@, false),
        ),
        GraftCommand::SwitchCreate { .. } => Some(
            ("cannot switch branches while there is an open transaction"@, false),
        ),
        GraftCommand::JsonSwitchCreate { .. } => Some(
            ("cannot switch branches while there is an open transaction"@, false),
        ),
        GraftCommand::Merge { .. } => Some(
            ("cannot merge while there is an open transaction"@, false),
        ),
        GraftCommand::JsonMerge { .. } => Some(
            ("cannot merge while there is an open transaction"@, false),
        ),
        GraftCommand::MergeAbort => Some(
            ("cannot abort merge while there is an open transaction"@, false),
        ),
        GraftCommand::JsonMergeAbort => Some(
            ("cannot abort merge while there is an open transaction"@, false),
        ),
        GraftCommand::MergeContinue { .. } => Some(
            ("cannot continue merge while there is an open transaction"@, false),
        ),
        GraftCommand::JsonMergeContinue { .. } => Some(
            ("cannot continue merge while there is an open transaction"@, false),
        ),
        GraftCommand::JsonMergeContinueValidated { .. } => Some(
            ("cannot continue merge while there is an open transaction"@, false),
        ),
        GraftCommand::Resolve { .. } => Some(
            ("cannot resolve while there is an open transaction"@, false),
        ),
        GraftCommand::JsonResolveConflict { .. } => Some(
            ("cannot resolve while there is an open transaction"@, false),
        ),
        GraftCommand::JsonResolveTableConflict { .. } => Some(
            ("cannot resolve while there is an open transaction"@, false),
        ),
        GraftCommand::JsonUnresolveConflict { .. } => Some(
            ("cannot unresolve while there is an open transaction"@, false),
        ),
        GraftCommand::Pull { .. } => Some(
            ("cannot pull while there is an open transaction"@, true),
        ),
        GraftCommand::JsonPull { .. } => Some(
            ("cannot pull while there is an open transaction"@, true),
        ),
        GraftCommand::StorageGc { .. } => Some(
            ("cannot run gc while there is an open transaction"@, false),
        ),
        GraftCommand::JsonStorageGc { .. } => Some(
            ("cannot run gc while there is an open transaction"@, true),
        ),
        GraftCommand::Reset { .. } => Some(
            ("cannot reset while there is an open transaction"@, false),
        ),
        GraftCommand::JsonReset { .. } => Some(
            ("cannot reset while there is an open transaction"@, false),
        ),
        GraftCommand::RepoDiff { .. } => Some(
            ("cannot diff while there is an open transaction"@, false),
        ),
        GraftCommand::JsonRepoDiff { .. } => Some(
            ("cannot diff while there is an open transaction"@, false),
        ),
        GraftCommand::Show { .. } => Some(
            ("cannot show while there is an open transaction"@, false),
        ),
        GraftCommand::JsonShow { .. } => Some(
            ("cannot show while there is an open transaction"@, false),
        ),
        _ => None,
    }
}

/// Why a command is refused before it does anything: `idle` tells that there is no open
/// transaction.
pub open spec fn refusal(c: CommandView, idle: bool) -> Option<Refusal<Seq<char>>> {
    let pulls_all = match c {
        GraftCommand::Pull { all, .. } => all,
        GraftCommand::JsonPull { all, .. } => all,
        _ => false,
    };
    if pulls_all {
        Some(
            Refusal {
                error: CommandError::InvalidCommand(
                    "pull does not support --all; fetch --all first, then pull one branch"@,
                ),
                after_open: true,
            },
        )
    } else {
        match (busy_refusal(c), idle, c) {
            (Some((message, after_open)), false, _) => Some(
                Refusal { error: CommandError::InvalidCommand(message), after_open },
            ),
            (_, _, GraftCommand::RepoDiff { spec }) => if spec.content is Some {
                Some(
                    Refusal {
                        error: CommandError::InvalidCommand(
                            "diff --content is only available through graft_json_diff"@,
                        ),
                        after_open: false,
                    },
                )
            } else {
                None
            },
            _ => None,
        }
    }
}

fn busy(c: &GraftCommand) -> (r: Option<(&'static str, bool)>)
    ensures
        match r {
            Some((m, after_open)) => busy_refusal(c@) == Some((m@, after_open)),
            None => busy_refusal(c@) is None,
        },
{
    match c {
        GraftCommand::RepoCheckout { .. } => Some(
            ("cannot checkout while there is an open transaction", false),
        ),
        GraftCommand::JsonRepoCheckout { .. } => Some(
            ("cannot checkout while there is an open transaction", false),
        ),
        GraftCommand::Restore { .. } => Some(
            ("cannot restore while there is an open transaction", false),
        ),
        GraftCommand::JsonRestore { .. } => Some(
            ("cannot restore while there is an open transaction", false),
        ),
        GraftCommand::Export { .. } => Some(
            ("cannot export while there is an open transaction", false),
        ),
        GraftCommand::JsonExport { .. } => Some(
            ("cannot export while there is an open transaction", false),
        ),
        GraftCommand::RepoInit { .. } => Some(
            ("cannot initialize a repository while there is an open transaction", false),
        ),
        GraftCommand::JsonRepoInit { .. } => Some(
            ("cannot initialize a repository while there is an open transaction", false),
        ),
        GraftCommand::RepoClone { .. } => Some(
            ("cannot clone while there is an open transaction", false),
        ),
        GraftCommand::JsonRepoClone { .. } => Some(
            ("cannot clone while there is an open transaction", false),
        ),
        GraftCommand::Add { .. } => Some(("cannot add while there is an open transaction", false)),
        GraftCommand::JsonAdd { .. } => Some(
            ("cannot add while there is an open transaction", false),
        ),
        GraftCommand::Remove { .. } => Some(
            ("cannot remove while there is an open transaction", false),
        ),
        GraftCommand::JsonRemove { .. } => Some(
            ("cannot remove while there is an open transaction", false),
        ),
        GraftCommand::Commit { .. } => Some(
            ("cannot commit while there is an open transaction", false),
        ),
        GraftCommand::JsonCommit { .. } => Some(
            ("cannot commit while there is an open transaction", false),
        ),
        GraftCommand::SwitchBranch { .. } => Some(
            ("cannot switch branches while there is an open transaction", false),
        ),
        GraftCommand::JsonSwitchBranch { .. } => Some(
            ("cannot switch branches while there is an open transaction", false),
        ),
        GraftCommand::SwitchCreate { .. } => Some(
            ("cannot switch branches while there is an open transaction", false),
        ),
        GraftCommand::JsonSwitchCreate { .. } => Some(
            ("cannot switch branches while there is an open transaction", false),
        ),
        GraftCommand::Merge { .. } => Some(
            ("cannot merge while there is an open transaction", false),
        ),
        GraftCommand::JsonMerge { .. } => Some(
            ("cannot merge while there is an open transaction", false),
        ),
        GraftCommand::MergeAbort => Some(
            ("cannot abort merge while there is an open transaction", false),
        ),
        GraftCommand::JsonMergeAbort => Some(
            ("cannot abort merge while there is an open transaction", false),
        ),
        GraftCommand::MergeContinue { .. } => Some(
            ("cannot continue merge while there is an open transaction", false),
        ),
        GraftCommand::JsonMergeContinue { .. } => Some(
            ("cannot continue merge while there is an open transaction", false),
        ),
        GraftCommand::JsonMergeContinueValidated { .. } => Some(
            ("cannot continue merge while there is an open transaction", false),
        ),
        GraftCommand::Resolve { .. } => Some(
            ("cannot resolve while there is an open transaction", false),
        ),
        GraftCommand::JsonResolveConflict { .. } => Some(
            ("cannot resolve while there is an open transaction", false),
        ),
        GraftCommand::JsonResolveTableConflict { .. } => Some(
            ("cannot resolve while there is an open transaction", false),
        ),
        GraftCommand::JsonUnresolveConflict { .. } => Some(
            ("cannot unresolve while there is an open transaction", false),
        ),
        GraftCommand::Pull { .. } => Some(("cannot pull while there is an open transaction", true)),
        GraftCommand::JsonPull { .. } => Some(
            ("cannot pull while there is an open transaction", true),
        ),
        GraftCommand::StorageGc { .. } => Some(
            ("cannot run gc while there is an open transaction", false),
        ),
        GraftCommand::JsonStorageGc { .. } => Some(
            ("cannot run gc while there is an open transaction", true),
        ),
        GraftCommand::Reset { .. } => Some(
            ("cannot reset while there is an open transaction", false),
        ),
        GraftCommand::JsonReset { .. } => Some(
            ("cannot reset while there is an open transaction", false),
        ),
        GraftCommand::RepoDiff { .. } => Some(
            ("cannot diff while there is an open transaction", false),
        ),
        GraftCommand::JsonRepoDiff { .. } => Some(
            ("cannot diff while there is an open transaction", false),
        ),
        GraftCommand::Show { .. } => Some(
            ("cannot show while there is an open transaction", false),
        ),
        GraftCommand::JsonShow { .. } => Some(
            ("cannot show while there is an open transaction", false),
        ),
        _ => None,
    }
}

fn refused_command(c: &GraftCommand, idle: bool) -> (r: Option<Refusal>)
    ensures
        crate::show::view_option(r) == refusal(c@, idle),
{
    let pulls_all: bool = match c {
        GraftCommand::Pull { all, .. } => *all,
        GraftCommand::JsonPull { all, .. } => *all,
        _ => false,
    };
    if pulls_all {
        return Some(
            Refusal {
                error: invalid_command(
                    "pull does not support --all; fetch --all first, then pull one branch",
                ),
                after_open: true,
            },
        );
    }
    if !idle {
        if let Some((message, after_open)) = busy(c) {
            return Some(Refusal { error: invalid_command(message), after_open });
        }
    }
    match c {
        GraftCommand::RepoDiff { spec } => {
            if spec.content.is_some() {
                Some(
                    Refusal {
                        error: invalid_command(
                            "diff --content is only available through graft_json_diff",
                        ),
                        after_open: false,
                    },
                )
            } else {
                None
            }
        },
        _ => None,
    }
}

fn form(c: &GraftCommand) -> (r: AnswerForm)
    ensures
        r@ == form_of(c@),
{
    match c {
        GraftCommand::JsonTags { .. } => AnswerForm::Json { operation: None },
        GraftCommand::JsonRepoCheckout { .. } => AnswerForm::Json {
            operation: Some("checkout".to_owned()),
        },
        GraftCommand::JsonRestore { .. } => AnswerForm::Json {
            operation: Some("restore".to_owned()),
        },
        GraftCommand::JsonExport { .. } => AnswerForm::Json {
            operation: Some("export".to_owned()),
        },
        GraftCommand::JsonStatus { .. } => AnswerForm::Json { operation: None },
        GraftCommand::JsonRepoInit { .. } => AnswerForm::Json {
            operation: Some("init".to_owned()),
        },
        GraftCommand::JsonRepoClone { .. } => AnswerForm::Json {
            operation: Some("clone".to_owned()),
        },
        GraftCommand::JsonAdd { .. } => AnswerForm::Json { operation: Some("add".to_owned()) },
        GraftCommand::JsonRemove { .. } => AnswerForm::Json { operation: Some("rm".to_owned()) },
        GraftCommand::JsonCommit { .. } => AnswerForm::Json {
            operation: Some("commit".to_owned()),
        },
        GraftCommand::JsonBranch { .. } => AnswerForm::Json { operation: None },
        GraftCommand::JsonBranchCreate { .. } => AnswerForm::Json {
            operation: Some("branch_create".to_owned()),
        },
        GraftCommand::JsonBranchDelete { .. } => AnswerForm::Json {
            operation: Some("branch_delete".to_owned()),
        },
        GraftCommand::JsonBranchRename { .. } => AnswerForm::Json {
            operation: Some("branch_rename".to_owned()),
        },
        GraftCommand::JsonBranchUpstream { .. } => AnswerForm::Json {
            operation: Some("branch_upstream".to_owned()),
        },
        GraftCommand::JsonBranchUnsetUpstream { .. } => AnswerForm::Json {
            operation: Some("branch_unset_upstream".to_owned()),
        },
        GraftCommand::JsonTagCreate { .. } => AnswerForm::Json {
            operation: Some("tag_create".to_owned()),
        },
        GraftCommand::JsonTagDelete { .. } => AnswerForm::Json {
            operation: Some("tag_delete".to_owned()),
        },
        GraftCommand::JsonSwitchBranch { .. } => AnswerForm::Json {
            operation: Some("switch_branch".to_owned()),
        },
        GraftCommand::JsonSwitchCreate { .. } => AnswerForm::Json {
            operation: Some("switch_create".to_owned()),
        },
        GraftCommand::JsonMerge { .. } => AnswerForm::Json { operation: Some("merge".to_owned()) },
        GraftCommand::JsonMergeAbort => AnswerForm::Json {
            operation: Some("merge_abort".to_owned()),
        },
        GraftCommand::JsonMergeContinue { .. } => AnswerForm::Json {
            operation: Some("merge_continue".to_owned()),
        },
        GraftCommand::JsonMergeContinueValidated { .. } => AnswerForm::Json {
            operation: Some("merge_continue".to_owned()),
        },
        GraftCommand::JsonConflicts => AnswerForm::Json { operation: None },
        GraftCommand::JsonResolveConflict { .. } => AnswerForm::Json {
            operation: Some("resolve_conflict".to_owned()),
        },
        GraftCommand::JsonResolveTableConflict { .. } => AnswerForm::Json {
            operation: Some("resolve_merge_table".to_owned()),
        },
        GraftCommand::JsonUnresolveConflict { .. } => AnswerForm::Json {
            operation: Some("unresolve_merge_path".to_owned()),
        },
        GraftCommand::JsonRecordMergePathResolution { .. } => AnswerForm::Json {
            operation: Some("record_merge_path_resolution".to_owned()),
        },
        GraftCommand::JsonRemoteAdd { .. } => AnswerForm::Json {
            operation: Some("remote_add".to_owned()),
        },
        GraftCommand::JsonRemoteRemove { .. } => AnswerForm::Json {
            operation: Some("remote_remove".to_owned()),
        },
        GraftCommand::JsonRemoteRename { .. } => AnswerForm::Json {
            operation: Some("remote_rename".to_owned()),
        },
        GraftCommand::JsonRemoteGetUrl { .. } => AnswerForm::Json {
            operation: Some("remote_get_url".to_owned()),
        },
        GraftCommand::JsonRemoteSetUrl { .. } => AnswerForm::Json {
            operation: Some("remote_set_url".to_owned()),
        },
        GraftCommand::JsonRemotePrune { .. } => AnswerForm::Json {
            operation: Some("remote_prune".to_owned()),
        },
        GraftCommand::JsonLsRemote { .. } => AnswerForm::Json {
            operation: Some("ls_remote".to_owned()),
        },
        GraftCommand::JsonRemotes => AnswerForm::Json { operation: None },
        GraftCommand::JsonFetch { .. } => AnswerForm::Json { operation: Some("fetch".to_owned()) },
        GraftCommand::JsonFetchAsync { .. } => AnswerForm::Json { operation: None },
        GraftCommand::JsonJobStatus { .. } => AnswerForm::Json { operation: None },
        GraftCommand::JsonJobResult { .. } => AnswerForm::Json { operation: None },
        GraftCommand::JsonPull { .. } => AnswerForm::Json { operation: Some("pull".to_owned()) },
        GraftCommand::JsonPush { .. } => AnswerForm::Json { operation: Some("push".to_owned()) },
        GraftCommand::JsonRepoAudit { spec } => AnswerForm::Json {
            operation: if spec.repair {
                Some("audit_repair".to_owned())
            } else {
                None
            },
        },
        GraftCommand::JsonLargeFileFetch { operation, .. } => AnswerForm::Json {
            operation: Some(operation.clone()),
        },
        GraftCommand::JsonLargeFileStatus { operation, .. } => AnswerForm::Json {
            operation: Some(operation.clone()),
        },
        GraftCommand::JsonLargeFilePrune { operation, .. } => AnswerForm::Json {
            operation: Some(operation.clone()),
        },
        GraftCommand::JsonStorageGc { .. } => AnswerForm::Json { operation: Some("gc".to_owned()) },
        GraftCommand::JsonLsFiles { .. } => AnswerForm::Json { operation: None },
        GraftCommand::JsonConfigGet { .. } => AnswerForm::Json { operation: None },
        GraftCommand::JsonConfigList { .. } => AnswerForm::Json { operation: None },
        GraftCommand::JsonConfigSet { .. } => AnswerForm::Json {
            operation: Some("config_set".to_owned()),
        },
        GraftCommand::JsonConfigUnset { .. } => AnswerForm::Json {
            operation: Some("config_unset".to_owned()),
        },
        GraftCommand::JsonLog { .. } => AnswerForm::Json { operation: None },
        GraftCommand::JsonReset { .. } => AnswerForm::Json { operation: Some("reset".to_owned()) },
        GraftCommand::JsonRepoDiff { .. } => AnswerForm::Json { operation: None },
        GraftCommand::JsonShow { .. } => AnswerForm::Json { operation: None },
        _ => AnswerForm::Report,
    }
}

#[verifier::spinoff_prover]
#[verifier::rlimit(60)]
fn operation(c: GraftCommand) -> (r: Operation)
    ensures
        r@ == operation_of(c@),
{
    match c {
        GraftCommand::Tags => Operation::Tags,
        GraftCommand::JsonTags { mode } => Operation::TagList { mode },
        GraftCommand::RepoCheckout { spec } => Operation::Checkout { spec },
        GraftCommand::JsonRepoCheckout { spec } => Operation::Checkout { spec },
        GraftCommand::Restore { spec } => Operation::Restore { spec },
        GraftCommand::JsonRestore { spec } => Operation::Restore { spec },
        GraftCommand::Export { spec } => Operation::Export { spec },
        GraftCommand::JsonExport { spec } => Operation::Export { spec },
        GraftCommand::Status { spec } => Operation::Status { spec },
        GraftCommand::JsonStatus { spec } => Operation::Status { spec },
        GraftCommand::RepoInit { spec } => Operation::Init { spec },
        GraftCommand::JsonRepoInit { spec } => Operation::Init { spec },
        GraftCommand::RepoClone { spec } => Operation::Clone { spec },
        GraftCommand::JsonRepoClone { spec } => Operation::Clone { spec },
        GraftCommand::Add { spec } => Operation::Add { spec },
        GraftCommand::JsonAdd { spec } => Operation::Add { spec },
        GraftCommand::Remove { spec } => Operation::Remove { spec },
        GraftCommand::JsonRemove { spec } => Operation::Remove { spec },
        GraftCommand::Commit { message } => Operation::Commit { message },
        GraftCommand::JsonCommit { message } => Operation::Commit { message },
        GraftCommand::Branch { mode } => Operation::Branches { mode },
        GraftCommand::JsonBranch { mode } => Operation::Branches { mode },
        GraftCommand::BranchCreate { name, start_point } => Operation::BranchCreate { name, start_point },
        GraftCommand::JsonBranchCreate { name, start_point } => Operation::BranchCreate { name, start_point },
        GraftCommand::BranchDelete { name, force } => Operation::BranchDelete { name, force },
        GraftCommand::JsonBranchDelete { name, force } => Operation::BranchDelete { name, force },
        GraftCommand::BranchRename {
            old_name,
            new_name,
            force,
        } => Operation::BranchRename { old_name, new_name, force },
        GraftCommand::JsonBranchRename {
            old_name,
            new_name,
            force,
        } => Operation::BranchRename { old_name, new_name, force },
        GraftCommand::BranchUpstream {
            branch,
            remote,
            remote_branch,
        } => Operation::BranchUpstream { branch, remote, remote_branch },
        GraftCommand::JsonBranchUpstream {
            branch,
            remote,
            remote_branch,
        } => Operation::BranchUpstream { branch, remote, remote_branch },
        GraftCommand::BranchUnsetUpstream { branch } => Operation::BranchUnsetUpstream { branch },
        GraftCommand::JsonBranchUnsetUpstream { branch } => Operation::BranchUnsetUpstream { branch },
        GraftCommand::TagCreate {
            name,
            target,
            message,
        } => Operation::TagCreate { name, target, message },
        GraftCommand::JsonTagCreate {
            name,
            target,
            message,
        } => Operation::TagCreate { name, target, message },
        GraftCommand::TagDelete { name } => Operation::TagDelete { name },
        GraftCommand::JsonTagDelete { name } => Operation::TagDelete { name },
        GraftCommand::SwitchBranch { name, force } => Operation::SwitchBranch { name, force },
        GraftCommand::JsonSwitchBranch { name, force } => Operation::SwitchBranch { name, force },
        GraftCommand::SwitchCreate {
            name,
            start_point,
            force,
        } => Operation::SwitchCreate { name, start_point, force },
        GraftCommand::JsonSwitchCreate {
            name,
            start_point,
            force,
        } => Operation::SwitchCreate { name, start_point, force },
        GraftCommand::Merge { rev } => Operation::Merge { rev },
        GraftCommand::JsonMerge { rev } => Operation::Merge { rev },
        GraftCommand::MergeAbort => Operation::MergeAbort,
        GraftCommand::JsonMergeAbort => Operation::MergeAbort,
        GraftCommand::MergeContinue { message } => Operation::MergeContinue { message },
        GraftCommand::JsonMergeContinue { message } => Operation::MergeContinue { message },
        GraftCommand::JsonMergeContinueValidated { message } => Operation::MergeContinueValidated { message },
        GraftCommand::Conflicts => Operation::Conflicts,
        GraftCommand::JsonConflicts => Operation::Conflicts,
        GraftCommand::Resolve { spec } => Operation::Resolve { spec },
        GraftCommand::JsonResolveConflict { spec } => Operation::Resolve { spec },
        GraftCommand::JsonResolveTableConflict { path, table, side } => Operation::ResolveTable { path, table, side },
        GraftCommand::JsonUnresolveConflict { path } => Operation::Unresolve { path },
        GraftCommand::JsonRecordMergePathResolution { path, resolution } => Operation::RecordPathResolution { path, resolution },
        GraftCommand::RemoteAdd { name, config } => Operation::RemoteAdd { name, config },
        GraftCommand::JsonRemoteAdd { name, config } => Operation::RemoteAdd { name, config },
        GraftCommand::RemoteRemove { name } => Operation::RemoteRemove { name },
        GraftCommand::JsonRemoteRemove { name } => Operation::RemoteRemove { name },
        GraftCommand::RemoteRename {
            old_name,
            new_name,
        } => Operation::RemoteRename { old_name, new_name },
        GraftCommand::JsonRemoteRename {
            old_name,
            new_name,
        } => Operation::RemoteRename { old_name, new_name },
        GraftCommand::RemoteGetUrl { name } => Operation::RemoteGetUrl { name },
        GraftCommand::JsonRemoteGetUrl { name } => Operation::RemoteGetUrl { name },
        GraftCommand::RemoteSetUrl { name, config } => Operation::RemoteSetUrl { name, config },
        GraftCommand::JsonRemoteSetUrl { name, config } => Operation::RemoteSetUrl { name, config },
        GraftCommand::RemotePrune { name } => Operation::RemotePrune { name },
        GraftCommand::JsonRemotePrune { name } => Operation::RemotePrune { name },
        GraftCommand::LsRemote { name } => Operation::LsRemote { name },
        GraftCommand::JsonLsRemote { name } => Operation::LsRemote { name },
        GraftCommand::Remotes => Operation::Remotes,
        GraftCommand::JsonRemotes => Operation::Remotes,
        GraftCommand::Fetch {
            remote,
            branch,
            refspec,
            all,
        } => Operation::Fetch { remote, branch, refspec, all },
        GraftCommand::JsonFetch {
            remote,
            branch,
            refspec,
            all,
        } => Operation::Fetch { remote, branch, refspec, all },
        GraftCommand::FetchAsync {
            remote,
            branch,
            refspec,
            all,
        } => Operation::FetchAsync { remote, branch, refspec, all },
        GraftCommand::JsonFetchAsync {
            remote,
            branch,
            refspec,
            all,
            mode,
        } => Operation::FetchAsyncJson { remote, branch, refspec, all, mode },
        GraftCommand::JobStatus { id } => Operation::JobStatus { id },
        GraftCommand::JsonJobStatus { id } => Operation::JobStatus { id },
        GraftCommand::JobResult { id } => Operation::JobResult { id },
        GraftCommand::JsonJobResult { id } => Operation::JobResult { id },
        GraftCommand::Pull {
            remote,
            branch,
            refspec,
            all,
        } => Operation::Pull { remote, branch, refspec, all },
        GraftCommand::JsonPull {
            remote,
            branch,
            refspec,
            all,
        } => Operation::Pull { remote, branch, refspec, all },
        GraftCommand::Push {
            remote,
            branch,
            refspec,
            all,
            force,
        } => Operation::Push { remote, branch, refspec, all, force },
        GraftCommand::JsonPush {
            remote,
            branch,
            refspec,
            all,
            force,
        } => Operation::Push { remote, branch, refspec, all, force },
        GraftCommand::RepoAudit { spec } => Operation::Audit { spec },
        GraftCommand::JsonRepoAudit { spec } => Operation::Audit { spec },
        GraftCommand::LargeFileFetch { spec } => Operation::PayloadFetch { spec },
        GraftCommand::JsonLargeFileFetch { spec, .. } => Operation::PayloadFetch { spec },
        GraftCommand::LargeFileStatus { spec } => Operation::PayloadStatus { spec },
        GraftCommand::JsonLargeFileStatus { spec, .. } => Operation::PayloadStatus { spec },
        GraftCommand::LargeFilePrune { spec } => Operation::PayloadPrune { spec },
        GraftCommand::JsonLargeFilePrune { spec, .. } => Operation::PayloadPrune { spec },
        GraftCommand::StorageGc { spec } => Operation::StorageGc { spec },
        GraftCommand::JsonStorageGc { spec } => Operation::StorageGc { spec },
        GraftCommand::LsFiles { spec } => Operation::LsFiles { spec },
        GraftCommand::JsonLsFiles { spec } => Operation::LsFiles { spec },
        GraftCommand::ConfigGet { key } => Operation::ConfigGet { key },
        GraftCommand::JsonConfigGet { key } => Operation::ConfigGet { key },
        GraftCommand::ConfigList => Operation::ConfigList,
        GraftCommand::JsonConfigList { mode } => Operation::ConfigListJson { mode },
        GraftCommand::ConfigSet { key, value } => Operation::ConfigSet { key, value },
        GraftCommand::JsonConfigSet { key, value } => Operation::ConfigSet { key, value },
        GraftCommand::ConfigUnset { key } => Operation::ConfigUnset { key },
        GraftCommand::JsonConfigUnset { key } => Operation::ConfigUnset { key },
        GraftCommand::Log => Operation::Log,
        GraftCommand::JsonLog { spec } => Operation::LogPage { spec },
        GraftCommand::Reset { rev, mode } => Operation::Reset { rev, mode },
        GraftCommand::JsonReset { rev, mode } => Operation::Reset { rev, mode },
        GraftCommand::RepoDiff { spec } => Operation::Diff { spec },
        GraftCommand::JsonRepoDiff { spec } => Operation::Diff { spec },
        GraftCommand::Show { target } => Operation::Show { target },
        GraftCommand::JsonShow { target } => Operation::Show { target },
    }
}

impl GraftCommand<String, RepoResolveRowSpec> {
    /// What the command does and how it answers, or why it is refused; `idle` tells that there is
    /// no open transaction.
    pub fn eval(self, idle: bool) -> (r: Result<(Operation, AnswerForm), Refusal>)
        ensures
            match r {
                Ok((op, form)) => refusal(self@, idle) is None && op@ == operation_of(self@)
                    && form@ == form_of(self@),
                Err(e) => refusal(self@, idle) == Some(e@),
            },
    {
        if let Some(e) = refused_command(&self, idle) {
            return Err(e);
        }
        let answer = form(&self);
        Ok((operation(self), answer))
    }
}

/// How the branches of a fetch or a push are named.
#[derive(Debug, Clone, Copy, PartialEq, Eq, Structural)]
pub enum SyncRoute {
    Refspec,
    All,
    OneBranch,
}

/// A refspec comes first, then `--all`; otherwise one branch is meant.
pub fn sync_route(refspec: &Option<String>, all: bool) -> (r: SyncRoute)
    ensures
        r == if refspec is Some {
            SyncRoute::Refspec
        } else if all {
            SyncRoute::All
        } else {
            SyncRoute::OneBranch
        },
        r == SyncRoute::Refspec <==> refspec is Some,
        r == SyncRoute::All ==> all,
        r == SyncRoute::OneBranch ==> !all,
{
    if refspec.is_some() {
        SyncRoute::Refspec
    } else if all {
        SyncRoute::All
    } else {
        SyncRoute::OneBranch
    }
}

/// What stands in the way of replacing the worktree: with `force`, work in progress is discarded.
pub open spec fn clean_guard(operation: Seq<char>, work_in_progress: bool, force: bool) -> Result<
    bool,
    CommandError<Seq<char>>,
> {
    if work_in_progress && !force {
        Err(
            CommandError::InvalidCommand(
                "cannot "@ + operation + " with staged or unstaged changes"@,
            ),
        )
    } else {
        Ok(work_in_progress)
    }
}

/// Whether work in progress is discarded before `operation` replaces the worktree.
pub fn guard_work_in_progress(operation: &str, work_in_progress: bool, force: bool) -> (r: Result<
    bool,
    CommandError,
>)
    ensures
        crate::error::seen(r) == clean_guard(operation@, work_in_progress, force),
{
    if work_in_progress && !force {
        return Err(
            CommandError::InvalidCommand(
                cat3("cannot ", operation, " with staged or unstaged changes"),
            ),
        );
    }
    Ok(work_in_progress)
}

/// Force is all that lets work in progress go.
pub proof fn law_work_is_kept_without_force(operation: Seq<char>, work_in_progress: bool)
    ensures
        clean_guard(operation, work_in_progress, false) is Ok <==> !work_in_progress,
        clean_guard(operation, work_in_progress, false) matches Ok(discard) ==> !discard,
{
}

/// A command without an open transaction is refused only for its arguments: a pull of all branches,
/// or contents that a report cannot show.
pub proof fn law_idle_commands_run(c: CommandView)
    ensures
        refusal(c, true) is Some ==> c is Pull || c is JsonPull || c is RepoDiff,
{
}

/// When an operation finds the repository of the session.
#[derive(Debug, Clone, Copy, PartialEq, Eq, Structural)]
pub enum RepositoryUse {
    /// It needs none, or makes one.
    Never,
    /// Before it does anything.
    First,
    /// Among its own steps.
    AmongSteps,
}

pub open spec fn use_of<S, R>(operation: Operation<S, R>) -> RepositoryUse {
    match operation {
        Operation::Init { .. } | Operation::Clone { .. } | Operation::JobStatus { .. }
        | Operation::JobResult { .. } => RepositoryUse::Never,
        Operation::Checkout { .. } | Operation::SwitchBranch { .. } | Operation::SwitchCreate { .. }
        | Operation::Merge { .. } | Operation::MergeAbort | Operation::Pull { .. }
        | Operation::Reset { .. } => RepositoryUse::AmongSteps,
        _ => RepositoryUse::First,
    }
}

pub fn repository_use(operation: &Operation) -> (r: RepositoryUse)
    ensures
        r == use_of(*operation),
{
    match operation {
        Operation::Init { .. } | Operation::Clone { .. } | Operation::JobStatus { .. }
        | Operation::JobResult { .. } => RepositoryUse::Never,
        Operation::Checkout { .. } | Operation::SwitchBranch { .. } | Operation::SwitchCreate { .. }
        | Operation::Merge { .. } | Operation::MergeAbort | Operation::Pull { .. }
        | Operation::Reset { .. } => RepositoryUse::AmongSteps,
        _ => RepositoryUse::First,
    }
}

/// The command that answers in JSON where `c` answers in words.
pub open spec fn json_twin(c: CommandView) -> Option<CommandView> {
    match c {
        GraftCommand::RepoCheckout { spec } => Some(GraftCommand::JsonRepoCheckout { spec }),
        GraftCommand::Restore { spec } => Some(GraftCommand::JsonRestore { spec }),
        GraftCommand::Export { spec } => Some(GraftCommand::JsonExport { spec }),
        GraftCommand::Status { spec } => Some(GraftCommand::JsonStatus { spec }),
        GraftCommand::RepoInit { spec } => Some(GraftCommand::JsonRepoInit { spec }),
        GraftCommand::RepoClone { spec } => Some(GraftCommand::JsonRepoClone { spec }),
        GraftCommand::Add { spec } => Some(GraftCommand::JsonAdd { spec }),
        GraftCommand::Remove { spec } => Some(GraftCommand::JsonRemove { spec }),
        GraftCommand::Commit { message } => Some(GraftCommand::JsonCommit { message }),
        GraftCommand::Branch { mode } => Some(GraftCommand::JsonBranch { mode }),
        GraftCommand::BranchCreate { name, start_point } => Some(
            GraftCommand::JsonBranchCreate { name, start_point },
        ),
        GraftCommand::BranchDelete { name, force } => Some(
            GraftCommand::JsonBranchDelete { name, force },
        ),
        GraftCommand::BranchRename { old_name, new_name, force } => Some(
            GraftCommand::JsonBranchRename { old_name, new_name, force },
        ),
        GraftCommand::BranchUpstream { branch, remote, remote_branch } => Some(
            GraftCommand::JsonBranchUpstream { branch, remote, remote_branch },
        ),
        GraftCommand::BranchUnsetUpstream { branch } => Some(
            GraftCommand::JsonBranchUnsetUpstream { branch },
        ),
        GraftCommand::TagCreate { name, target, message } => Some(
            GraftCommand::JsonTagCreate { name, target, message },
        ),
        GraftCommand::TagDelete { name } => Some(GraftCommand::JsonTagDelete { name }),
        GraftCommand::SwitchBranch { name, force } => Some(
            GraftCommand::JsonSwitchBranch { name, force },
        ),
        GraftCommand::SwitchCreate { name, start_point, force } => Some(
            GraftCommand::JsonSwitchCreate { name, start_point, force },
        ),
        GraftCommand::Merge { rev } => Some(GraftCommand::JsonMerge { rev }),
        GraftCommand::MergeAbort => Some(GraftCommand::JsonMergeAbort),
        GraftCommand::MergeContinue { message } => Some(
            GraftCommand::JsonMergeContinue { message },
        ),
        GraftCommand::Conflicts => Some(GraftCommand::JsonConflicts),
        GraftCommand::Resolve { spec } => Some(GraftCommand::JsonResolveConflict { spec }),
        GraftCommand::RemoteAdd { name, config } => Some(
            GraftCommand::JsonRemoteAdd { name, config },
        ),
        GraftCommand::RemoteRemove { name } => Some(GraftCommand::JsonRemoteRemove { name }),
        GraftCommand::RemoteRename { old_name, new_name } => Some(
            GraftCommand::JsonRemoteRename { old_name, new_name },
        ),
        GraftCommand::RemoteGetUrl { name } => Some(GraftCommand::JsonRemoteGetUrl { name }),
        GraftCommand::RemoteSetUrl { name, config } => Some(
            GraftCommand::JsonRemoteSetUrl { name, config },
        ),
        GraftCommand::RemotePrune { name } => Some(GraftCommand::JsonRemotePrune { name }),
        GraftCommand::LsRemote { name } => Some(GraftCommand::JsonLsRemote { name }),
        GraftCommand::Remotes => Some(GraftCommand::JsonRemotes),
        GraftCommand::Fetch { remote, branch, refspec, all } => Some(
            GraftCommand::JsonFetch { remote, branch, refspec, all },
        ),
        GraftCommand::JobStatus { id } => Some(GraftCommand::JsonJobStatus { id }),
        GraftCommand::JobResult { id } => Some(GraftCommand::JsonJobResult { id }),
        GraftCommand::Pull { remote, branch, refspec, all } => Some(
            GraftCommand::JsonPull { remote, branch, refspec, all },
        ),
        GraftCommand::Push { remote, branch, refspec, all, force } => Some(
            GraftCommand::JsonPush { remote, branch, refspec, all, force },
        ),
        GraftCommand::RepoAudit { spec } => Some(GraftCommand::JsonRepoAudit { spec }),
        GraftCommand::StorageGc { spec } => Some(GraftCommand::JsonStorageGc { spec }),
        GraftCommand::LsFiles { spec } => Some(GraftCommand::JsonLsFiles { spec }),
        GraftCommand::ConfigGet { key } => Some(GraftCommand::JsonConfigGet { key }),
        GraftCommand::ConfigSet { key, value } => Some(GraftCommand::JsonConfigSet { key, value }),
        GraftCommand::ConfigUnset { key } => Some(GraftCommand::JsonConfigUnset { key }),
        GraftCommand::Reset { rev, mode } => Some(GraftCommand::JsonReset { rev, mode }),
        GraftCommand::RepoDiff { spec } => Some(GraftCommand::JsonRepoDiff { spec }),
        GraftCommand::Show { target } => Some(GraftCommand::JsonShow { target }),
        _ => None,
    }
}

/// A command that answers in JSON does what the one that answers in words does, and an open
/// transaction stops either both or neither.
pub proof fn law_twins_do_the_same(c: CommandView)
    requires
        json_twin(c) is Some,
    ensures
        operation_of(json_twin(c)->0) == operation_of(c),
        form_of(c) == AnswerForm::<Seq<char>>::Report,
        form_of(json_twin(c)->0) is Json,
        busy_refusal(c) is Some == busy_refusal(json_twin(c)->0) is Some,
{
}

} // verus!
