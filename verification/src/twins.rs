//! The commands that answer in words and in JSON read their arguments alike.
use vstd::prelude::*;
use vstd::string::*;

use crate::command::{
    branch_command, command_of, config_command, merge_command, payload_command, remote_command,
    suffix_command, sync_command, tag_command, worktree_command, CommandView, GraftCommand,
};
use crate::error::PragmaErr;
use crate::eval::json_twin;
use crate::parse_paths::{add_arg, diff_arg};
use crate::parse_refs::{
    audit_arg, branch_create_arg, branch_delete_arg, branch_list_mode, branch_rename_arg,
    branch_upstream_arg, config_set_arg, json_log_arg, lfs_fetch_arg, lfs_status_arg,
    reset_arg, switch_branch_arg, switch_create_arg, tag_create_arg,
};
use crate::parse_worktree::{
    checkout_arg, export_arg, ls_files_arg, remove_arg, resolve_arg, restore_arg, status_arg,
};
use crate::remote::{clone_arg, init_arg, remote_add_arg, remote_branch_arg, remote_rename_arg};
use crate::text::lemma_cut_found;
use crate::words::Host;

verus! {

/// `s` names a command.
pub open spec fn names_command(s: Seq<char>) -> bool {
    ||| worktree_command(s, s, None, Host::Posix) is Some
    ||| branch_command(s, s, None, Host::Posix) is Some
    ||| tag_command(s, s, None, Host::Posix) is Some
    ||| merge_command(s, s, None, Host::Posix) is Some
    ||| remote_command(s, s, None, Host::Posix) is Some
    ||| sync_command(s, s, None, Host::Posix) is Some
    ||| payload_command(s, s, None, Host::Posix) is Some
    ||| config_command(s, s, None, Host::Posix) is Some
}

/// The number of the command that `s` names, in the order of the tables.
spec fn place(s: Seq<char>) -> int {
    if s == "checkout"@ {
        0
    } else if s == "json_checkout"@ {
        1
    } else if s == "restore"@ {
        2
    } else if s == "json_restore"@ {
        3
    } else if s == "export"@ {
        4
    } else if s == "json_export"@ {
        5
    } else if s == "status"@ {
        6
    } else if s == "json_status"@ {
        7
    } else if s == "init"@ {
        8
    } else if s == "json_init"@ {
        9
    } else if s == "clone"@ {
        10
    } else if s == "json_clone"@ {
        11
    } else if s == "add"@ {
        12
    } else if s == "json_add"@ {
        13
    } else if s == "rm"@ {
        14
    } else if s == "json_rm"@ {
        15
    } else if s == "commit"@ {
        16
    } else if s == "json_commit"@ {
        17
    } else if s == "reset"@ {
        18
    } else if s == "json_reset"@ {
        19
    } else if s == "ls_files"@ {
        20
    } else if s == "json_ls_files"@ {
        21
    } else if s == "branch"@ {
        22
    } else if s == "json_branch"@ {
        23
    } else if s == "branch_create"@ {
        24
    } else if s == "json_branch_create"@ {
        25
    } else if s == "branch_delete"@ {
        26
    } else if s == "json_branch_delete"@ {
        27
    } else if s == "branch_rename"@ {
        28
    } else if s == "json_branch_rename"@ {
        29
    } else if s == "branch_upstream"@ {
        30
    } else if s == "json_branch_upstream"@ {
        31
    } else if s == "branch_unset_upstream"@ {
        32
    } else if s == "json_branch_unset_upstream"@ {
        33
    } else if s == "switch_branch"@ {
        34
    } else if s == "json_switch_branch"@ {
        35
    } else if s == "switch_create"@ {
        36
    } else if s == "json_switch_create"@ {
        37
    } else if s == "tags"@ {
        38
    } else if s == "json_tags"@ {
        39
    } else if s == "tag_create"@ {
        40
    } else if s == "json_tag_create"@ {
        41
    } else if s == "tag_delete"@ {
        42
    } else if s == "json_tag_delete"@ {
        43
    } else if s == "log"@ {
        44
    } else if s == "json_log"@ {
        45
    } else if s == "diff"@ {
        46
    } else if s == "json_diff"@ {
        47
    } else if s == "show"@ {
        48
    } else if s == "json_show"@ {
        49
    } else if s == "merge"@ {
        50
    } else if s == "json_merge"@ {
        51
    } else if s == "merge_abort"@ {
        52
    } else if s == "json_merge_abort"@ {
        53
    } else if s == "merge_continue"@ {
        54
    } else if s == "json_merge_continue"@ {
        55
    } else if s == "conflicts"@ {
        56
    } else if s == "json_conflicts"@ {
        57
    } else if s == "resolve"@ {
        58
    } else if s == "json_resolve_conflict"@ {
        59
    } else if s == "remote_add"@ {
        60
    } else if s == "json_remote_add"@ {
        61
    } else if s == "remote_remove"@ {
        62
    } else if s == "json_remote_remove"@ {
        63
    } else if s == "remote_rename"@ {
        64
    } else if s == "json_remote_rename"@ {
        65
    } else if s == "remote_get_url"@ {
        66
    } else if s == "json_remote_get_url"@ {
        67
    } else if s == "remote_set_url"@ {
        68
    } else if s == "json_remote_set_url"@ {
        69
    } else if s == "remote_prune"@ {
        70
    } else if s == "json_remote_prune"@ {
        71
    } else if s == "ls_remote"@ {
        72
    } else if s == "json_ls_remote"@ {
        73
    } else if s == "remotes"@ {
        74
    } else if s == "json_remotes"@ {
        75
    } else if s == "fetch"@ {
        76
    } else if s == "json_fetch"@ {
        77
    } else if s == "fetch_async"@ {
        78
    } else if s == "json_fetch_async"@ {
        79
    } else if s == "job_status"@ {
        80
    } else if s == "json_job_status"@ {
        81
    } else if s == "job_result"@ {
        82
    } else if s == "json_job_result"@ {
        83
    } else if s == "pull"@ {
        84
    } else if s == "json_pull"@ {
        85
    } else if s == "push"@ {
        86
    } else if s == "json_push"@ {
        87
    } else if s == "audit"@ {
        88
    } else if s == "json_audit"@ {
        89
    } else if s == "lfs_fetch"@ {
        90
    } else if s == "json_lfs_fetch"@ {
        91
    } else if s == "payload_fetch"@ {
        92
    } else if s == "json_payload_fetch"@ {
        93
    } else if s == "lfs_status"@ {
        94
    } else if s == "json_lfs_status"@ {
        95
    } else if s == "payload_status"@ {
        96
    } else if s == "json_payload_status"@ {
        97
    } else if s == "lfs_prune"@ {
        98
    } else if s == "json_lfs_prune"@ {
        99
    } else if s == "payload_prune"@ {
        100
    } else if s == "json_payload_prune"@ {
        101
    } else if s == "gc"@ {
        102
    } else if s == "json_gc"@ {
        103
    } else if s == "config_get"@ {
        104
    } else if s == "json_config_get"@ {
        105
    } else if s == "config_list"@ {
        106
    } else if s == "json_config_list"@ {
        107
    } else if s == "config_set"@ {
        108
    } else if s == "json_config_set"@ {
        109
    } else if s == "config_unset"@ {
        110
    } else if s == "json_config_unset"@ {
        111
    } else {
        -1
    }
}

/// `s` names a command that reads its argument otherwise than its JSON form, which takes options of
/// its own.
pub open spec fn reads_apart(s: Seq<char>) -> bool {
    s == "tags"@ || s == "log"@ || s == "fetch_async"@ || s == "config_list"@
}

/// The JSON form of a command. Those on payloads also carry the name `s` that they were called by.
pub open spec fn json_form(c: CommandView, s: Seq<char>) -> Option<CommandView> {
    match c {
        GraftCommand::LargeFileFetch { spec } => Some(
            GraftCommand::JsonLargeFileFetch { spec, operation: s },
        ),
        GraftCommand::LargeFileStatus { spec } => Some(
            GraftCommand::JsonLargeFileStatus { spec, operation: s },
        ),
        GraftCommand::LargeFilePrune { spec } => Some(
            GraftCommand::JsonLargeFilePrune { spec, operation: s },
        ),
        _ => json_twin(c),
    }
}

/// Two readings of one argument: both are refused, or the second is the JSON form of the first.
pub open spec fn read_alike(
    plain: Result<CommandView, PragmaErr<Seq<char>>>,
    json: Result<CommandView, PragmaErr<Seq<char>>>,
    s: Seq<char>,
) -> bool {
    match plain {
        Ok(c) => json matches Ok(j) && json_form(c, s) == Some(j),
        Err(_) => json is Err,
    }
}

/// The length of a name and some of its characters: no two commands agree in them.
spec fn mark(s: Seq<char>) -> (nat, char, char, char, char) {
    (s.len(), s[0], near(s, 7), near(s, 12), near(s, s.len() - 2))
}

/// The character at a place, or the last one.
spec fn near(s: Seq<char>, i: int) -> char {
    if i < s.len() {
        s[i]
    } else {
        s.last()
    }
}

#[verifier::spinoff_prover]
#[verifier::rlimit(100)]
proof fn lemma_places()
    ensures
        place("checkout"@) == 0,
        place("json_checkout"@) == 1,
        place("restore"@) == 2,
        place("json_restore"@) == 3,
        place("export"@) == 4,
        place("json_export"@) == 5,
        place("status"@) == 6,
        place("json_status"@) == 7,
        place("init"@) == 8,
        place("json_init"@) == 9,
        place("clone"@) == 10,
        place("json_clone"@) == 11,
        place("add"@) == 12,
        place("json_add"@) == 13,
        place("rm"@) == 14,
        place("json_rm"@) == 15,
        place("commit"@) == 16,
        place("json_commit"@) == 17,
        place("reset"@) == 18,
        place("json_reset"@) == 19,
        place("ls_files"@) == 20,
        place("json_ls_files"@) == 21,
        place("branch"@) == 22,
        place("json_branch"@) == 23,
        place("branch_create"@) == 24,
        place("json_branch_create"@) == 25,
        place("branch_delete"@) == 26,
        place("json_branch_delete"@) == 27,
        place("branch_rename"@) == 28,
        place("json_branch_rename"@) == 29,
        place("branch_upstream"@) == 30,
        place("json_branch_upstream"@) == 31,
        place("branch_unset_upstream"@) == 32,
        place("json_branch_unset_upstream"@) == 33,
        place("switch_branch"@) == 34,
        place("json_switch_branch"@) == 35,
        place("switch_create"@) == 36,
        place("json_switch_create"@) == 37,
        place("tags"@) == 38,
        place("json_tags"@) == 39,
        place("tag_create"@) == 40,
        place("json_tag_create"@) == 41,
        place("tag_delete"@) == 42,
        place("json_tag_delete"@) == 43,
        place("log"@) == 44,
        place("json_log"@) == 45,
        place("diff"@) == 46,
        place("json_diff"@) == 47,
        place("show"@) == 48,
        place("json_show"@) == 49,
        place("merge"@) == 50,
        place("json_merge"@) == 51,
        place("merge_abort"@) == 52,
        place("json_merge_abort"@) == 53,
        place("merge_continue"@) == 54,
        place("json_merge_continue"@) == 55,
        place("conflicts"@) == 56,
        place("json_conflicts"@) == 57,
        place("resolve"@) == 58,
        place("json_resolve_conflict"@) == 59,
        place("remote_add"@) == 60,
        place("json_remote_add"@) == 61,
        place("remote_remove"@) == 62,
        place("json_remote_remove"@) == 63,
        place("remote_rename"@) == 64,
        place("json_remote_rename"@) == 65,
        place("remote_get_url"@) == 66,
        place("json_remote_get_url"@) == 67,
        place("remote_set_url"@) == 68,
        place("json_remote_set_url"@) == 69,
        place("remote_prune"@) == 70,
        place("json_remote_prune"@) == 71,
        place("ls_remote"@) == 72,
        place("json_ls_remote"@) == 73,
        place("remotes"@) == 74,
        place("json_remotes"@) == 75,
        place("fetch"@) == 76,
        place("json_fetch"@) == 77,
        place("fetch_async"@) == 78,
        place("json_fetch_async"@) == 79,
        place("job_status"@) == 80,
        place("json_job_status"@) == 81,
        place("job_result"@) == 82,
        place("json_job_result"@) == 83,
        place("pull"@) == 84,
        place("json_pull"@) == 85,
        place("push"@) == 86,
        place("json_push"@) == 87,
        place("audit"@) == 88,
        place("json_audit"@) == 89,
        place("lfs_fetch"@) == 90,
        place("json_lfs_fetch"@) == 91,
        place("payload_fetch"@) == 92,
        place("json_payload_fetch"@) == 93,
        place("lfs_status"@) == 94,
        place("json_lfs_status"@) == 95,
        place("payload_status"@) == 96,
        place("json_payload_status"@) == 97,
        place("lfs_prune"@) == 98,
        place("json_lfs_prune"@) == 99,
        place("payload_prune"@) == 100,
        place("json_payload_prune"@) == 101,
        place("gc"@) == 102,
        place("json_gc"@) == 103,
        place("config_get"@) == 104,
        place("json_config_get"@) == 105,
        place("config_list"@) == 106,
        place("json_config_list"@) == 107,
        place("config_set"@) == 108,
        place("json_config_set"@) == 109,
        place("config_unset"@) == 110,
        place("json_config_unset"@) == 111,
        place("resolve_conflict"@) == -1,
{
    reveal_strlit("checkout");
    assert(mark("checkout"@) == (8nat, 'c', 't', 't', 'u'));
    reveal_strlit("json_checkout");
    assert(mark("json_checkout"@) == (13nat, 'j', 'e', 't', 'u'));
    reveal_strlit("restore");
    assert(mark("restore"@) == (7nat, 'r', 'e', 'e', 'r'));
    reveal_strlit("json_restore");
    assert(mark("json_restore"@) == (12nat, 'j', 's', 'e', 'r'));
    reveal_strlit("export");
    assert(mark("export"@) == (6nat, 'e', 't', 't', 'r'));
    reveal_strlit("json_export");
    assert(mark("json_export"@) == (11nat, 'j', 'p', 't', 'r'));
    reveal_strlit("status");
    assert(mark("status"@) == (6nat, 's', 's', 's', 'u'));
    reveal_strlit("json_status");
    assert(mark("json_status"@) == (11nat, 'j', 'a', 's', 'u'));
    reveal_strlit("init");
    assert(mark("init"@) == (4nat, 'i', 't', 't', 'i'));
    reveal_strlit("json_init");
    assert(mark("json_init"@) == (9nat, 'j', 'i', 't', 'i'));
    reveal_strlit("clone");
    assert(mark("clone"@) == (5nat, 'c', 'e', 'e', 'n'));
    reveal_strlit("json_clone");
    assert(mark("json_clone"@) == (10nat, 'j', 'o', 'e', 'n'));
    reveal_strlit("add");
    assert(mark("add"@) == (3nat, 'a', 'd', 'd', 'd'));
    reveal_strlit("json_add");
    assert(mark("json_add"@) == (8nat, 'j', 'd', 'd', 'd'));
    reveal_strlit("rm");
    assert(mark("rm"@) == (2nat, 'r', 'm', 'm', 'r'));
    reveal_strlit("json_rm");
    assert(mark("json_rm"@) == (7nat, 'j', 'm', 'm', 'r'));
    reveal_strlit("commit");
    assert(mark("commit"@) == (6nat, 'c', 't', 't', 'i'));
    reveal_strlit("json_commit");
    assert(mark("json_commit"@) == (11nat, 'j', 'm', 't', 'i'));
    reveal_strlit("reset");
    assert(mark("reset"@) == (5nat, 'r', 't', 't', 'e'));
    reveal_strlit("json_reset");
    assert(mark("json_reset"@) == (10nat, 'j', 's', 't', 'e'));
    reveal_strlit("ls_files");
    assert(mark("ls_files"@) == (8nat, 'l', 's', 's', 'e'));
    reveal_strlit("json_ls_files");
    assert(mark("json_ls_files"@) == (13nat, 'j', '_', 's', 'e'));
    reveal_strlit("branch");
    assert(mark("branch"@) == (6nat, 'b', 'h', 'h', 'c'));
    reveal_strlit("json_branch");
    assert(mark("json_branch"@) == (11nat, 'j', 'a', 'h', 'c'));
    reveal_strlit("branch_create");
    assert(mark("branch_create"@) == (13nat, 'b', 'c', 'e', 't'));
    reveal_strlit("json_branch_create");
    assert(mark("json_branch_create"@) == (18nat, 'j', 'a', 'c', 't'));
    reveal_strlit("branch_delete");
    assert(mark("branch_delete"@) == (13nat, 'b', 'd', 'e', 't'));
    reveal_strlit("json_branch_delete");
    assert(mark("json_branch_delete"@) == (18nat, 'j', 'a', 'd', 't'));
    reveal_strlit("branch_rename");
    assert(mark("branch_rename"@) == (13nat, 'b', 'r', 'e', 'm'));
    reveal_strlit("json_branch_rename");
    assert(mark("json_branch_rename"@) == (18nat, 'j', 'a', 'r', 'm'));
    reveal_strlit("branch_upstream");
    assert(mark("branch_upstream"@) == (15nat, 'b', 'u', 'e', 'a'));
    reveal_strlit("json_branch_upstream");
    assert(mark("json_branch_upstream"@) == (20nat, 'j', 'a', 'u', 'a'));
    reveal_strlit("branch_unset_upstream");
    assert(mark("branch_unset_upstream"@) == (21nat, 'b', 'u', '_', 'a'));
    reveal_strlit("json_branch_unset_upstream");
    assert(mark("json_branch_unset_upstream"@) == (26nat, 'j', 'a', 'u', 'a'));
    reveal_strlit("switch_branch");
    assert(mark("switch_branch"@) == (13nat, 's', 'b', 'h', 'c'));
    reveal_strlit("json_switch_branch");
    assert(mark("json_switch_branch"@) == (18nat, 'j', 'i', 'b', 'c'));
    reveal_strlit("switch_create");
    assert(mark("switch_create"@) == (13nat, 's', 'c', 'e', 't'));
    reveal_strlit("json_switch_create");
    assert(mark("json_switch_create"@) == (18nat, 'j', 'i', 'c', 't'));
    reveal_strlit("tags");
    assert(mark("tags"@) == (4nat, 't', 's', 's', 'g'));
    reveal_strlit("json_tags");
    assert(mark("json_tags"@) == (9nat, 'j', 'g', 's', 'g'));
    reveal_strlit("tag_create");
    assert(mark("tag_create"@) == (10nat, 't', 'a', 'e', 't'));
    reveal_strlit("json_tag_create");
    assert(mark("json_tag_create"@) == (15nat, 'j', 'g', 'a', 't'));
    reveal_strlit("tag_delete");
    assert(mark("tag_delete"@) == (10nat, 't', 'e', 'e', 't'));
    reveal_strlit("json_tag_delete");
    assert(mark("json_tag_delete"@) == (15nat, 'j', 'g', 'e', 't'));
    reveal_strlit("log");
    assert(mark("log"@) == (3nat, 'l', 'g', 'g', 'o'));
    reveal_strlit("json_log");
    assert(mark("json_log"@) == (8nat, 'j', 'g', 'g', 'o'));
    reveal_strlit("diff");
    assert(mark("diff"@) == (4nat, 'd', 'f', 'f', 'f'));
    reveal_strlit("json_diff");
    assert(mark("json_diff"@) == (9nat, 'j', 'f', 'f', 'f'));
    reveal_strlit("show");
    assert(mark("show"@) == (4nat, 's', 'w', 'w', 'o'));
    reveal_strlit("json_show");
    assert(mark("json_show"@) == (9nat, 'j', 'o', 'w', 'o'));
    reveal_strlit("merge");
    assert(mark("merge"@) == (5nat, 'm', 'e', 'e', 'g'));
    reveal_strlit("json_merge");
    assert(mark("json_merge"@) == (10nat, 'j', 'r', 'e', 'g'));
    reveal_strlit("merge_abort");
    assert(mark("merge_abort"@) == (11nat, 'm', 'b', 't', 'r'));
    reveal_strlit("json_merge_abort");
    assert(mark("json_merge_abort"@) == (16nat, 'j', 'r', 'b', 'r'));
    reveal_strlit("merge_continue");
    assert(mark("merge_continue"@) == (14nat, 'm', 'o', 'u', 'u'));
    reveal_strlit("json_merge_continue");
    assert(mark("json_merge_continue"@) == (19nat, 'j', 'r', 'o', 'u'));
    reveal_strlit("conflicts");
    assert(mark("conflicts"@) == (9nat, 'c', 't', 's', 't'));
    reveal_strlit("json_conflicts");
    assert(mark("json_conflicts"@) == (14nat, 'j', 'n', 't', 't'));
    reveal_strlit("resolve");
    assert(mark("resolve"@) == (7nat, 'r', 'e', 'e', 'v'));
    reveal_strlit("json_resolve_conflict");
    assert(mark("json_resolve_conflict"@) == (21nat, 'j', 's', '_', 'c'));
    reveal_strlit("remote_add");
    assert(mark("remote_add"@) == (10nat, 'r', 'a', 'd', 'd'));
    reveal_strlit("json_remote_add");
    assert(mark("json_remote_add"@) == (15nat, 'j', 'm', 'a', 'd'));
    reveal_strlit("remote_remove");
    assert(mark("remote_remove"@) == (13nat, 'r', 'r', 'e', 'v'));
    reveal_strlit("json_remote_remove");
    assert(mark("json_remote_remove"@) == (18nat, 'j', 'm', 'r', 'v'));
    reveal_strlit("remote_rename");
    assert(mark("remote_rename"@) == (13nat, 'r', 'r', 'e', 'm'));
    reveal_strlit("json_remote_rename");
    assert(mark("json_remote_rename"@) == (18nat, 'j', 'm', 'r', 'm'));
    reveal_strlit("remote_get_url");
    assert(mark("remote_get_url"@) == (14nat, 'r', 'g', 'r', 'r'));
    reveal_strlit("json_remote_get_url");
    assert(mark("json_remote_get_url"@) == (19nat, 'j', 'm', 'g', 'r'));
    reveal_strlit("remote_set_url");
    assert(mark("remote_set_url"@) == (14nat, 'r', 's', 'r', 'r'));
    reveal_strlit("json_remote_set_url");
    assert(mark("json_remote_set_url"@) == (19nat, 'j', 'm', 's', 'r'));
    reveal_strlit("remote_prune");
    assert(mark("remote_prune"@) == (12nat, 'r', 'p', 'e', 'n'));
    reveal_strlit("json_remote_prune");
    assert(mark("json_remote_prune"@) == (17nat, 'j', 'm', 'p', 'n'));
    reveal_strlit("ls_remote");
    assert(mark("ls_remote"@) == (9nat, 'l', 't', 'e', 't'));
    reveal_strlit("json_ls_remote");
    assert(mark("json_ls_remote"@) == (14nat, 'j', '_', 't', 't'));
    reveal_strlit("remotes");
    assert(mark("remotes"@) == (7nat, 'r', 's', 's', 'e'));
    reveal_strlit("json_remotes");
    assert(mark("json_remotes"@) == (12nat, 'j', 'm', 's', 'e'));
    reveal_strlit("fetch");
    assert(mark("fetch"@) == (5nat, 'f', 'h', 'h', 'c'));
    reveal_strlit("json_fetch");
    assert(mark("json_fetch"@) == (10nat, 'j', 't', 'h', 'c'));
    reveal_strlit("fetch_async");
    assert(mark("fetch_async"@) == (11nat, 'f', 's', 'c', 'n'));
    reveal_strlit("json_fetch_async");
    assert(mark("json_fetch_async"@) == (16nat, 'j', 't', 's', 'n'));
    reveal_strlit("job_status");
    assert(mark("job_status"@) == (10nat, 'j', 't', 's', 'u'));
    reveal_strlit("json_job_status");
    assert(mark("json_job_status"@) == (15nat, 'j', 'b', 't', 'u'));
    reveal_strlit("job_result");
    assert(mark("job_result"@) == (10nat, 'j', 'u', 't', 'l'));
    reveal_strlit("json_job_result");
    assert(mark("json_job_result"@) == (15nat, 'j', 'b', 'u', 'l'));
    reveal_strlit("pull");
    assert(mark("pull"@) == (4nat, 'p', 'l', 'l', 'l'));
    reveal_strlit("json_pull");
    assert(mark("json_pull"@) == (9nat, 'j', 'l', 'l', 'l'));
    reveal_strlit("push");
    assert(mark("push"@) == (4nat, 'p', 'h', 'h', 's'));
    reveal_strlit("json_push");
    assert(mark("json_push"@) == (9nat, 'j', 's', 'h', 's'));
    reveal_strlit("audit");
    assert(mark("audit"@) == (5nat, 'a', 't', 't', 'i'));
    reveal_strlit("json_audit");
    assert(mark("json_audit"@) == (10nat, 'j', 'd', 't', 'i'));
    reveal_strlit("lfs_fetch");
    assert(mark("lfs_fetch"@) == (9nat, 'l', 'c', 'h', 'c'));
    reveal_strlit("json_lfs_fetch");
    assert(mark("json_lfs_fetch"@) == (14nat, 'j', 's', 'c', 'c'));
    reveal_strlit("payload_fetch");
    assert(mark("payload_fetch"@) == (13nat, 'p', '_', 'h', 'c'));
    reveal_strlit("json_payload_fetch");
    assert(mark("json_payload_fetch"@) == (18nat, 'j', 'y', '_', 'c'));
    reveal_strlit("lfs_status");
    assert(mark("lfs_status"@) == (10nat, 'l', 't', 's', 'u'));
    reveal_strlit("json_lfs_status");
    assert(mark("json_lfs_status"@) == (15nat, 'j', 's', 't', 'u'));
    reveal_strlit("payload_status");
    assert(mark("payload_status"@) == (14nat, 'p', '_', 'u', 'u'));
    reveal_strlit("json_payload_status");
    assert(mark("json_payload_status"@) == (19nat, 'j', 'y', '_', 'u'));
    reveal_strlit("lfs_prune");
    assert(mark("lfs_prune"@) == (9nat, 'l', 'n', 'e', 'n'));
    reveal_strlit("json_lfs_prune");
    assert(mark("json_lfs_prune"@) == (14nat, 'j', 's', 'n', 'n'));
    reveal_strlit("payload_prune");
    assert(mark("payload_prune"@) == (13nat, 'p', '_', 'e', 'n'));
    reveal_strlit("json_payload_prune");
    assert(mark("json_payload_prune"@) == (18nat, 'j', 'y', '_', 'n'));
    reveal_strlit("gc");
    assert(mark("gc"@) == (2nat, 'g', 'c', 'c', 'g'));
    reveal_strlit("json_gc");
    assert(mark("json_gc"@) == (7nat, 'j', 'c', 'c', 'g'));
    reveal_strlit("config_get");
    assert(mark("config_get"@) == (10nat, 'c', 'g', 't', 'e'));
    reveal_strlit("json_config_get");
    assert(mark("json_config_get"@) == (15nat, 'j', 'n', 'g', 'e'));
    reveal_strlit("config_list");
    assert(mark("config_list"@) == (11nat, 'c', 'l', 't', 's'));
    reveal_strlit("json_config_list");
    assert(mark("json_config_list"@) == (16nat, 'j', 'n', 'l', 's'));
    reveal_strlit("config_set");
    assert(mark("config_set"@) == (10nat, 'c', 's', 't', 'e'));
    reveal_strlit("json_config_set");
    assert(mark("json_config_set"@) == (15nat, 'j', 'n', 's', 'e'));
    reveal_strlit("config_unset");
    assert(mark("config_unset"@) == (12nat, 'c', 'u', 't', 'e'));
    reveal_strlit("json_config_unset");
    assert(mark("json_config_unset"@) == (17nat, 'j', 'n', 'u', 'e'));
    reveal_strlit("resolve_conflict");
    assert(mark("resolve_conflict"@) == (16nat, 'r', '_', 'l', 'c'));
}

/// The twins of the table that `worktree_command` reads.
#[verifier::spinoff_prover]
#[verifier::rlimit(60)]
proof fn lemma_worktree_twins(
    s: Seq<char>,
    name: Seq<char>,
    json_name: Seq<char>,
    arg: Option<Seq<char>>,
    host: Host,
)
    requires
        0 <= place("json_"@ + s) < 22,
        place(s) >= 0,
        !reads_apart(s),
    ensures
        read_alike(
            suffix_command(s, name, arg, host),
            suffix_command("json_"@ + s, json_name, arg, host),
            s,
        ),
{
    lemma_places();
    lemma_json_worktree(s);
}

/// The names that have a JSON form in the table that `worktree_command` reads.
#[verifier::spinoff_prover]
#[verifier::rlimit(60)]
proof fn lemma_json_worktree(s: Seq<char>)
    requires
        0 <= place("json_"@ + s) < 22,
        place(s) >= 0,
    ensures
        ({
            let j = "json_"@ + s;
            ||| s == "checkout"@ && j == "json_checkout"@
            ||| s == "restore"@ && j == "json_restore"@
            ||| s == "export"@ && j == "json_export"@
            ||| s == "status"@ && j == "json_status"@
            ||| s == "init"@ && j == "json_init"@
            ||| s == "clone"@ && j == "json_clone"@
            ||| s == "add"@ && j == "json_add"@
            ||| s == "rm"@ && j == "json_rm"@
            ||| s == "commit"@ && j == "json_commit"@
            ||| s == "reset"@ && j == "json_reset"@
            ||| s == "ls_files"@ && j == "json_ls_files"@
        }),
{
    reveal_strlit("json_");
    let j = "json_"@ + s;
    assert(j.skip(5) =~= s);
    reveal_strlit("checkout");
    reveal_strlit("json_checkout");
    reveal_strlit("restore");
    reveal_strlit("json_restore");
    reveal_strlit("export");
    reveal_strlit("json_export");
    reveal_strlit("status");
    reveal_strlit("json_status");
    reveal_strlit("init");
    reveal_strlit("json_init");
    reveal_strlit("clone");
    reveal_strlit("json_clone");
    reveal_strlit("add");
    reveal_strlit("json_add");
    reveal_strlit("rm");
    reveal_strlit("json_rm");
    reveal_strlit("commit");
    reveal_strlit("json_commit");
    reveal_strlit("reset");
    reveal_strlit("json_reset");
    reveal_strlit("ls_files");
    reveal_strlit("json_ls_files");
    assert("json_checkout"@.skip(5) =~= "checkout"@);
    assert("json_restore"@.skip(5) =~= "restore"@);
    assert("json_export"@.skip(5) =~= "export"@);
    assert("json_status"@.skip(5) =~= "status"@);
    assert("json_init"@.skip(5) =~= "init"@);
    assert("json_clone"@.skip(5) =~= "clone"@);
    assert("json_add"@.skip(5) =~= "add"@);
    assert("json_rm"@.skip(5) =~= "rm"@);
    assert("json_commit"@.skip(5) =~= "commit"@);
    assert("json_reset"@.skip(5) =~= "reset"@);
    assert("json_ls_files"@.skip(5) =~= "ls_files"@);
    assert(j[0] == 'j' && j[1] == 's');
}

/// The twins of the table that `branch_command` reads.
#[verifier::spinoff_prover]
#[verifier::rlimit(60)]
proof fn lemma_branch_twins(
    s: Seq<char>,
    name: Seq<char>,
    json_name: Seq<char>,
    arg: Option<Seq<char>>,
    host: Host,
)
    requires
        22 <= place("json_"@ + s) < 38,
        place(s) >= 0,
        !reads_apart(s),
    ensures
        read_alike(
            suffix_command(s, name, arg, host),
            suffix_command("json_"@ + s, json_name, arg, host),
            s,
        ),
{
    lemma_places();
    lemma_json_branch(s);
}

/// The names that have a JSON form in the table that `branch_command` reads.
#[verifier::spinoff_prover]
#[verifier::rlimit(60)]
proof fn lemma_json_branch(s: Seq<char>)
    requires
        22 <= place("json_"@ + s) < 38,
        place(s) >= 0,
    ensures
        ({
            let j = "json_"@ + s;
            ||| s == "branch"@ && j == "json_branch"@
            ||| s == "branch_create"@ && j == "json_branch_create"@
            ||| s == "branch_delete"@ && j == "json_branch_delete"@
            ||| s == "branch_rename"@ && j == "json_branch_rename"@
            ||| s == "branch_upstream"@ && j == "json_branch_upstream"@
            ||| s == "branch_unset_upstream"@ && j == "json_branch_unset_upstream"@
            ||| s == "switch_branch"@ && j == "json_switch_branch"@
            ||| s == "switch_create"@ && j == "json_switch_create"@
        }),
{
    reveal_strlit("json_");
    let j = "json_"@ + s;
    assert(j.skip(5) =~= s);
    reveal_strlit("branch");
    reveal_strlit("json_branch");
    reveal_strlit("branch_create");
    reveal_strlit("json_branch_create");
    reveal_strlit("branch_delete");
    reveal_strlit("json_branch_delete");
    reveal_strlit("branch_rename");
    reveal_strlit("json_branch_rename");
    reveal_strlit("branch_upstream");
    reveal_strlit("json_branch_upstream");
    reveal_strlit("branch_unset_upstream");
    reveal_strlit("json_branch_unset_upstream");
    reveal_strlit("switch_branch");
    reveal_strlit("json_switch_branch");
    reveal_strlit("switch_create");
    reveal_strlit("json_switch_create");
    assert("json_branch"@.skip(5) =~= "branch"@);
    assert("json_branch_create"@.skip(5) =~= "branch_create"@);
    assert("json_branch_delete"@.skip(5) =~= "branch_delete"@);
    assert("json_branch_rename"@.skip(5) =~= "branch_rename"@);
    assert("json_branch_upstream"@.skip(5) =~= "branch_upstream"@);
    assert("json_branch_unset_upstream"@.skip(5) =~= "branch_unset_upstream"@);
    assert("json_switch_branch"@.skip(5) =~= "switch_branch"@);
    assert("json_switch_create"@.skip(5) =~= "switch_create"@);
    assert(j[0] == 'j' && j[1] == 's');
}

/// The twins of the table that `tag_command` reads.
#[verifier::spinoff_prover]
#[verifier::rlimit(60)]
proof fn lemma_tag_twins(
    s: Seq<char>,
    name: Seq<char>,
    json_name: Seq<char>,
    arg: Option<Seq<char>>,
    host: Host,
)
    requires
        38 <= place("json_"@ + s) < 50,
        place(s) >= 0,
        !reads_apart(s),
    ensures
        read_alike(
            suffix_command(s, name, arg, host),
            suffix_command("json_"@ + s, json_name, arg, host),
            s,
        ),
{
    lemma_places();
    lemma_json_tag(s);
}

/// The names that have a JSON form in the table that `tag_command` reads.
#[verifier::spinoff_prover]
#[verifier::rlimit(60)]
proof fn lemma_json_tag(s: Seq<char>)
    requires
        38 <= place("json_"@ + s) < 50,
        place(s) >= 0,
    ensures
        ({
            let j = "json_"@ + s;
            ||| s == "tags"@ && j == "json_tags"@
            ||| s == "tag_create"@ && j == "json_tag_create"@
            ||| s == "tag_delete"@ && j == "json_tag_delete"@
            ||| s == "log"@ && j == "json_log"@
            ||| s == "diff"@ && j == "json_diff"@
            ||| s == "show"@ && j == "json_show"@
        }),
{
    reveal_strlit("json_");
    let j = "json_"@ + s;
    assert(j.skip(5) =~= s);
    reveal_strlit("tags");
    reveal_strlit("json_tags");
    reveal_strlit("tag_create");
    reveal_strlit("json_tag_create");
    reveal_strlit("tag_delete");
    reveal_strlit("json_tag_delete");
    reveal_strlit("log");
    reveal_strlit("json_log");
    reveal_strlit("diff");
    reveal_strlit("json_diff");
    reveal_strlit("show");
    reveal_strlit("json_show");
    assert("json_tags"@.skip(5) =~= "tags"@);
    assert("json_tag_create"@.skip(5) =~= "tag_create"@);
    assert("json_tag_delete"@.skip(5) =~= "tag_delete"@);
    assert("json_log"@.skip(5) =~= "log"@);
    assert("json_diff"@.skip(5) =~= "diff"@);
    assert("json_show"@.skip(5) =~= "show"@);
    assert(j[0] == 'j' && j[1] == 's');
}

/// The twins of the table that `merge_command` reads.
#[verifier::spinoff_prover]
#[verifier::rlimit(60)]
proof fn lemma_merge_twins(
    s: Seq<char>,
    name: Seq<char>,
    json_name: Seq<char>,
    arg: Option<Seq<char>>,
    host: Host,
)
    requires
        50 <= place("json_"@ + s) < 60,
        place(s) >= 0,
        !reads_apart(s),
    ensures
        read_alike(
            suffix_command(s, name, arg, host),
            suffix_command("json_"@ + s, json_name, arg, host),
            s,
        ),
{
    lemma_places();
    lemma_json_merge(s);
}

/// The names that have a JSON form in the table that `merge_command` reads.
#[verifier::spinoff_prover]
#[verifier::rlimit(60)]
proof fn lemma_json_merge(s: Seq<char>)
    requires
        50 <= place("json_"@ + s) < 60,
        place(s) >= 0,
    ensures
        ({
            let j = "json_"@ + s;
            ||| s == "merge"@ && j == "json_merge"@
            ||| s == "merge_abort"@ && j == "json_merge_abort"@
            ||| s == "merge_continue"@ && j == "json_merge_continue"@
            ||| s == "conflicts"@ && j == "json_conflicts"@
        }),
{
    reveal_strlit("json_");
    let j = "json_"@ + s;
    assert(j.skip(5) =~= s);
    reveal_strlit("merge");
    reveal_strlit("json_merge");
    reveal_strlit("merge_abort");
    reveal_strlit("json_merge_abort");
    reveal_strlit("merge_continue");
    reveal_strlit("json_merge_continue");
    reveal_strlit("conflicts");
    reveal_strlit("json_conflicts");
    reveal_strlit("resolve");
    reveal_strlit("json_resolve_conflict");
    assert("json_merge"@.skip(5) =~= "merge"@);
    assert("json_merge_abort"@.skip(5) =~= "merge_abort"@);
    assert("json_merge_continue"@.skip(5) =~= "merge_continue"@);
    assert("json_conflicts"@.skip(5) =~= "conflicts"@);
    lemma_places();
    reveal_strlit("resolve_conflict");
    assert("json_resolve_conflict"@.skip(5) =~= "resolve_conflict"@);
    assert(j[0] == 'j' && j[1] == 's');
}

/// The twins of the table that `remote_command` reads.
#[verifier::spinoff_prover]
#[verifier::rlimit(60)]
proof fn lemma_remote_twins(
    s: Seq<char>,
    name: Seq<char>,
    json_name: Seq<char>,
    arg: Option<Seq<char>>,
    host: Host,
)
    requires
        60 <= place("json_"@ + s) < 76,
        place(s) >= 0,
        !reads_apart(s),
    ensures
        read_alike(
            suffix_command(s, name, arg, host),
            suffix_command("json_"@ + s, json_name, arg, host),
            s,
        ),
{
    lemma_places();
    lemma_json_remote(s);
}

/// The names that have a JSON form in the table that `remote_command` reads.
#[verifier::spinoff_prover]
#[verifier::rlimit(60)]
proof fn lemma_json_remote(s: Seq<char>)
    requires
        60 <= place("json_"@ + s) < 76,
        place(s) >= 0,
    ensures
        ({
            let j = "json_"@ + s;
            ||| s == "remote_add"@ && j == "json_remote_add"@
            ||| s == "remote_remove"@ && j == "json_remote_remove"@
            ||| s == "remote_rename"@ && j == "json_remote_rename"@
            ||| s == "remote_get_url"@ && j == "json_remote_get_url"@
            ||| s == "remote_set_url"@ && j == "json_remote_set_url"@
            ||| s == "remote_prune"@ && j == "json_remote_prune"@
            ||| s == "ls_remote"@ && j == "json_ls_remote"@
            ||| s == "remotes"@ && j == "json_remotes"@
        }),
{
    reveal_strlit("json_");
    let j = "json_"@ + s;
    assert(j.skip(5) =~= s);
    reveal_strlit("remote_add");
    reveal_strlit("json_remote_add");
    reveal_strlit("remote_remove");
    reveal_strlit("json_remote_remove");
    reveal_strlit("remote_rename");
    reveal_strlit("json_remote_rename");
    reveal_strlit("remote_get_url");
    reveal_strlit("json_remote_get_url");
    reveal_strlit("remote_set_url");
    reveal_strlit("json_remote_set_url");
    reveal_strlit("remote_prune");
    reveal_strlit("json_remote_prune");
    reveal_strlit("ls_remote");
    reveal_strlit("json_ls_remote");
    reveal_strlit("remotes");
    reveal_strlit("json_remotes");
    assert("json_remote_add"@.skip(5) =~= "remote_add"@);
    assert("json_remote_remove"@.skip(5) =~= "remote_remove"@);
    assert("json_remote_rename"@.skip(5) =~= "remote_rename"@);
    assert("json_remote_get_url"@.skip(5) =~= "remote_get_url"@);
    assert("json_remote_set_url"@.skip(5) =~= "remote_set_url"@);
    assert("json_remote_prune"@.skip(5) =~= "remote_prune"@);
    assert("json_ls_remote"@.skip(5) =~= "ls_remote"@);
    assert("json_remotes"@.skip(5) =~= "remotes"@);
    assert(j[0] == 'j' && j[1] == 's');
}

/// The twins of the table that `sync_command` reads.
#[verifier::spinoff_prover]
#[verifier::rlimit(60)]
proof fn lemma_sync_twins(
    s: Seq<char>,
    name: Seq<char>,
    json_name: Seq<char>,
    arg: Option<Seq<char>>,
    host: Host,
)
    requires
        76 <= place("json_"@ + s) < 88,
        place(s) >= 0,
        !reads_apart(s),
    ensures
        read_alike(
            suffix_command(s, name, arg, host),
            suffix_command("json_"@ + s, json_name, arg, host),
            s,
        ),
{
    lemma_places();
    lemma_json_sync(s);
}

/// The names that have a JSON form in the table that `sync_command` reads.
#[verifier::spinoff_prover]
#[verifier::rlimit(60)]
proof fn lemma_json_sync(s: Seq<char>)
    requires
        76 <= place("json_"@ + s) < 88,
        place(s) >= 0,
    ensures
        ({
            let j = "json_"@ + s;
            ||| s == "fetch"@ && j == "json_fetch"@
            ||| s == "fetch_async"@ && j == "json_fetch_async"@
            ||| s == "job_status"@ && j == "json_job_status"@
            ||| s == "job_result"@ && j == "json_job_result"@
            ||| s == "pull"@ && j == "json_pull"@
            ||| s == "push"@ && j == "json_push"@
        }),
{
    reveal_strlit("json_");
    let j = "json_"@ + s;
    assert(j.skip(5) =~= s);
    reveal_strlit("fetch");
    reveal_strlit("json_fetch");
    reveal_strlit("fetch_async");
    reveal_strlit("json_fetch_async");
    reveal_strlit("job_status");
    reveal_strlit("json_job_status");
    reveal_strlit("job_result");
    reveal_strlit("json_job_result");
    reveal_strlit("pull");
    reveal_strlit("json_pull");
    reveal_strlit("push");
    reveal_strlit("json_push");
    assert("json_fetch"@.skip(5) =~= "fetch"@);
    assert("json_fetch_async"@.skip(5) =~= "fetch_async"@);
    assert("json_job_status"@.skip(5) =~= "job_status"@);
    assert("json_job_result"@.skip(5) =~= "job_result"@);
    assert("json_pull"@.skip(5) =~= "pull"@);
    assert("json_push"@.skip(5) =~= "push"@);
    assert(j[0] == 'j' && j[1] == 's');
}

/// The twins of the table that `payload_command` reads.
#[verifier::spinoff_prover]
#[verifier::rlimit(60)]
proof fn lemma_payload_twins(
    s: Seq<char>,
    name: Seq<char>,
    json_name: Seq<char>,
    arg: Option<Seq<char>>,
    host: Host,
)
    requires
        88 <= place("json_"@ + s) < 102,
        place(s) >= 0,
        !reads_apart(s),
    ensures
        read_alike(
            suffix_command(s, name, arg, host),
            suffix_command("json_"@ + s, json_name, arg, host),
            s,
        ),
{
    lemma_places();
    lemma_json_payload(s);
}

/// The names that have a JSON form in the table that `payload_command` reads.
#[verifier::spinoff_prover]
#[verifier::rlimit(60)]
proof fn lemma_json_payload(s: Seq<char>)
    requires
        88 <= place("json_"@ + s) < 102,
        place(s) >= 0,
    ensures
        ({
            let j = "json_"@ + s;
            ||| s == "audit"@ && j == "json_audit"@
            ||| s == "lfs_fetch"@ && j == "json_lfs_fetch"@
            ||| s == "payload_fetch"@ && j == "json_payload_fetch"@
            ||| s == "lfs_status"@ && j == "json_lfs_status"@
            ||| s == "payload_status"@ && j == "json_payload_status"@
            ||| s == "lfs_prune"@ && j == "json_lfs_prune"@
            ||| s == "payload_prune"@ && j == "json_payload_prune"@
        }),
{
    reveal_strlit("json_");
    let j = "json_"@ + s;
    assert(j.skip(5) =~= s);
    reveal_strlit("audit");
    reveal_strlit("json_audit");
    reveal_strlit("lfs_fetch");
    reveal_strlit("json_lfs_fetch");
    reveal_strlit("payload_fetch");
    reveal_strlit("json_payload_fetch");
    reveal_strlit("lfs_status");
    reveal_strlit("json_lfs_status");
    reveal_strlit("payload_status");
    reveal_strlit("json_payload_status");
    reveal_strlit("lfs_prune");
    reveal_strlit("json_lfs_prune");
    reveal_strlit("payload_prune");
    reveal_strlit("json_payload_prune");
    assert("json_audit"@.skip(5) =~= "audit"@);
    assert("json_lfs_fetch"@.skip(5) =~= "lfs_fetch"@);
    assert("json_payload_fetch"@.skip(5) =~= "payload_fetch"@);
    assert("json_lfs_status"@.skip(5) =~= "lfs_status"@);
    assert("json_payload_status"@.skip(5) =~= "payload_status"@);
    assert("json_lfs_prune"@.skip(5) =~= "lfs_prune"@);
    assert("json_payload_prune"@.skip(5) =~= "payload_prune"@);
    assert(j[0] == 'j' && j[1] == 's');
}

/// The twins of the table that `config_command` reads.
#[verifier::spinoff_prover]
#[verifier::rlimit(60)]
proof fn lemma_config_twins(
    s: Seq<char>,
    name: Seq<char>,
    json_name: Seq<char>,
    arg: Option<Seq<char>>,
    host: Host,
)
    requires
        102 <= place("json_"@ + s) < 112,
        place(s) >= 0,
        !reads_apart(s),
    ensures
        read_alike(
            suffix_command(s, name, arg, host),
            suffix_command("json_"@ + s, json_name, arg, host),
            s,
        ),
{
    lemma_places();
    lemma_json_config(s);
}

/// The names that have a JSON form in the table that `config_command` reads.
#[verifier::spinoff_prover]
#[verifier::rlimit(60)]
proof fn lemma_json_config(s: Seq<char>)
    requires
        102 <= place("json_"@ + s) < 112,
        place(s) >= 0,
    ensures
        ({
            let j = "json_"@ + s;
            ||| s == "gc"@ && j == "json_gc"@
            ||| s == "config_get"@ && j == "json_config_get"@
            ||| s == "config_list"@ && j == "json_config_list"@
            ||| s == "config_set"@ && j == "json_config_set"@
            ||| s == "config_unset"@ && j == "json_config_unset"@
        }),
{
    reveal_strlit("json_");
    let j = "json_"@ + s;
    assert(j.skip(5) =~= s);
    reveal_strlit("gc");
    reveal_strlit("json_gc");
    reveal_strlit("config_get");
    reveal_strlit("json_config_get");
    reveal_strlit("config_list");
    reveal_strlit("json_config_list");
    reveal_strlit("config_set");
    reveal_strlit("json_config_set");
    reveal_strlit("config_unset");
    reveal_strlit("json_config_unset");
    assert("json_gc"@.skip(5) =~= "gc"@);
    assert("json_config_get"@.skip(5) =~= "config_get"@);
    assert("json_config_list"@.skip(5) =~= "config_list"@);
    assert("json_config_set"@.skip(5) =~= "config_set"@);
    assert("json_config_unset"@.skip(5) =~= "config_unset"@);
    assert(j[0] == 'j' && j[1] == 's');
}

/// The text form and the JSON form of a command read their argument alike: both refuse it, or both
/// read the same from it.
pub proof fn law_twins_read_alike(s: Seq<char>, arg: Option<Seq<char>>, host: Host)
    requires
        names_command(s),
        names_command("json_"@ + s),
        !reads_apart(s),
    ensures
        read_alike(
            command_of("graft_"@ + s, arg, host),
            command_of("graft_json_"@ + s, arg, host),
            s,
        ),
{
    let (name, json_name) = ("graft_"@ + s, "graft_json_"@ + s);
    let at = place("json_"@ + s);
    assert(place(s) >= 0 && at >= 0);
    lemma_suffix(s);
    lemma_suffix("json_"@ + s);
    reveal_strlit("graft_");
    reveal_strlit("json_");
    reveal_strlit("graft_json_");
    assert("graft_"@ + ("json_"@ + s) =~= json_name);
    if at < 22 {
        lemma_worktree_twins(s, name, json_name, arg, host);
    } else if at < 38 {
        lemma_branch_twins(s, name, json_name, arg, host);
    } else if at < 50 {
        lemma_tag_twins(s, name, json_name, arg, host);
    } else if at < 60 {
        lemma_merge_twins(s, name, json_name, arg, host);
    } else if at < 76 {
        lemma_remote_twins(s, name, json_name, arg, host);
    } else if at < 88 {
        lemma_sync_twins(s, name, json_name, arg, host);
    } else if at < 102 {
        lemma_payload_twins(s, name, json_name, arg, host);
    } else {
        lemma_config_twins(s, name, json_name, arg, host);
    }
}

/// `resolve` and `json_resolve_conflict`, whose names differ in more, read their argument alike.
pub proof fn law_resolve_reads_alike(arg: Option<Seq<char>>, host: Host)
    ensures
        read_alike(
            command_of("graft_"@ + "resolve"@, arg, host),
            command_of("graft_"@ + "json_resolve_conflict"@, arg, host),
            "resolve"@,
        ),
{
    lemma_places();
    lemma_suffix("resolve"@);
    lemma_suffix("json_resolve_conflict"@);
}

/// The name of a command without the prefix is its suffix.
proof fn lemma_suffix(s: Seq<char>)
    ensures
        forall|arg: Option<Seq<char>>, host: Host| #[trigger]
            command_of("graft_"@ + s, arg, host) == suffix_command(s, "graft_"@ + s, arg, host),
{
    reveal_strlit("graft_");
    reveal_strlit("graft");
    reveal_strlit("_");
    assert("_"@ =~= seq!['_']);
    assert("graft_"@ + s =~= "graft"@ + seq!['_'] + s);
    lemma_cut_found("graft"@, '_', s);
}

/// The names of the commands about the worktree: each stands for its command, with the argument read as
/// that command reads it.
#[verifier::spinoff_prover]
#[verifier::rlimit(100)]
pub proof fn law_worktree_names(a: Seq<char>, arg: Option<Seq<char>>, host: Host)
    ensures
        checkout_arg(a) matches Ok(spec) ==>
            command_of("graft_"@ + "checkout"@, Some(a), host) == Ok::<
            _,
            PragmaErr<Seq<char>>,
        >(CommandView::RepoCheckout { spec }),
        checkout_arg(a) matches Err(e) ==>
            command_of("graft_"@ + "checkout"@, Some(a), host) == Err::<CommandView, _>(
            e,
        ),
        command_of("graft_"@ + "checkout"@, None, host) is Err,
        restore_arg(a, host) matches Ok(spec) ==>
            command_of("graft_"@ + "restore"@, Some(a), host) == Ok::<
            _,
            PragmaErr<Seq<char>>,
        >(CommandView::Restore { spec }),
        restore_arg(a, host) matches Err(e) ==>
            command_of("graft_"@ + "restore"@, Some(a), host) == Err::<CommandView, _>(
            e,
        ),
        command_of("graft_"@ + "restore"@, None, host) is Err,
        export_arg(a, host) matches Ok(spec) ==>
            command_of("graft_"@ + "export"@, Some(a), host) == Ok::<
            _,
            PragmaErr<Seq<char>>,
        >(CommandView::Export { spec }),
        export_arg(a, host) matches Err(e) ==>
            command_of("graft_"@ + "export"@, Some(a), host) == Err::<CommandView, _>(
            e,
        ),
        command_of("graft_"@ + "export"@, None, host) is Err,
        status_arg(arg, host) matches Ok(spec) ==>
            command_of("graft_"@ + "status"@, arg, host) == Ok::<
            _,
            PragmaErr<Seq<char>>,
        >(CommandView::Status { spec }),
        status_arg(arg, host) matches Err(e) ==>
            command_of("graft_"@ + "status"@, arg, host) == Err::<CommandView, _>(
            e,
        ),
        init_arg(arg, host) matches Ok(spec) ==> command_of("graft_"@ + "init"@, arg, host) == Ok::<
            _,
            PragmaErr<Seq<char>>,
        >(CommandView::RepoInit { spec }),
        init_arg(arg, host) matches Err(e) ==>
            command_of("graft_"@ + "init"@, arg, host) == Err::<CommandView, _>(
            e,
        ),
        clone_arg(a) matches Ok(spec) ==> command_of("graft_"@ + "clone"@, Some(a), host) == Ok::<
            _,
            PragmaErr<Seq<char>>,
        >(CommandView::RepoClone { spec }),
        clone_arg(a) matches Err(e) ==>
            command_of("graft_"@ + "clone"@, Some(a), host) == Err::<CommandView, _>(
            e,
        ),
        command_of("graft_"@ + "clone"@, None, host) is Err,
        add_arg(arg, host) matches Ok(spec) ==> command_of("graft_"@ + "add"@, arg, host) == Ok::<
            _,
            PragmaErr<Seq<char>>,
        >(CommandView::Add { spec }),
        add_arg(arg, host) matches Err(e) ==>
            command_of("graft_"@ + "add"@, arg, host) == Err::<CommandView, _>(
            e,
        ),
        remove_arg(arg, host) matches Ok(spec) ==> command_of("graft_"@ + "rm"@, arg, host) == Ok::<
            _,
            PragmaErr<Seq<char>>,
        >(CommandView::Remove { spec }),
        remove_arg(arg, host) matches Err(e) ==>
            command_of("graft_"@ + "rm"@, arg, host) == Err::<CommandView, _>(
            e,
        ),
        command_of("graft_"@ + "commit"@, Some(a), host) == Ok::<
            _,
            PragmaErr<Seq<char>>,
        >(CommandView::Commit { message: a }),
        reset_arg(a) matches Ok((mode, rev)) ==>
            command_of("graft_"@ + "reset"@, Some(a), host) == Ok::<
            _,
            PragmaErr<Seq<char>>,
        >(CommandView::Reset { rev, mode }),
        reset_arg(a) matches Err(e) ==>
            command_of("graft_"@ + "reset"@, Some(a), host) == Err::<CommandView, _>(
            e,
        ),
        command_of("graft_"@ + "reset"@, None, host) is Err,
        ls_files_arg(arg, host) matches Ok(spec) ==>
            command_of("graft_"@ + "ls_files"@, arg, host) == Ok::<
            _,
            PragmaErr<Seq<char>>,
        >(CommandView::LsFiles { spec }),
        ls_files_arg(arg, host) matches Err(e) ==>
            command_of("graft_"@ + "ls_files"@, arg, host) == Err::<CommandView, _>(
            e,
        ),
{
    lemma_places();
    lemma_suffix("checkout"@);
    lemma_suffix("restore"@);
    lemma_suffix("export"@);
    lemma_suffix("status"@);
    lemma_suffix("init"@);
    lemma_suffix("clone"@);
    lemma_suffix("add"@);
    lemma_suffix("rm"@);
    lemma_suffix("commit"@);
    lemma_suffix("reset"@);
    lemma_suffix("ls_files"@);
}

/// The names of the commands about branches: each stands for its command, with the argument read as
/// that command reads it.
#[verifier::spinoff_prover]
#[verifier::rlimit(100)]
pub proof fn law_branch_names(a: Seq<char>, arg: Option<Seq<char>>, host: Host)
    ensures
        branch_list_mode(arg) matches Ok(mode) ==>
            command_of("graft_"@ + "branch"@, arg, host) == Ok::<
            _,
            PragmaErr<Seq<char>>,
        >(CommandView::Branch { mode }),
        branch_list_mode(arg) matches Err(e) ==>
            command_of("graft_"@ + "branch"@, arg, host) == Err::<CommandView, _>(
            e,
        ),
        branch_create_arg(a) matches Ok((name, start_point)) ==>
            command_of("graft_"@ + "branch_create"@, Some(a), host) == Ok::<
            _,
            PragmaErr<Seq<char>>,
        >(CommandView::BranchCreate { name, start_point }),
        branch_create_arg(a) matches Err(e) ==>
            command_of("graft_"@ + "branch_create"@, Some(a), host) == Err::<CommandView, _>(
            e,
        ),
        command_of("graft_"@ + "branch_create"@, None, host) is Err,
        branch_delete_arg(a) matches Ok((name, force)) ==>
            command_of("graft_"@ + "branch_delete"@, Some(a), host) == Ok::<
            _,
            PragmaErr<Seq<char>>,
        >(CommandView::BranchDelete { name, force }),
        branch_delete_arg(a) matches Err(e) ==>
            command_of("graft_"@ + "branch_delete"@, Some(a), host) == Err::<CommandView, _>(
            e,
        ),
        command_of("graft_"@ + "branch_delete"@, None, host) is Err,
        branch_rename_arg(a) matches Ok((old_name, new_name, force)) ==>
            command_of("graft_"@ + "branch_rename"@, Some(a), host) == Ok::<
            _,
            PragmaErr<Seq<char>>,
        >(CommandView::BranchRename { old_name, new_name, force }),
        branch_rename_arg(a) matches Err(e) ==>
            command_of("graft_"@ + "branch_rename"@, Some(a), host) == Err::<CommandView, _>(
            e,
        ),
        command_of("graft_"@ + "branch_rename"@, None, host) is Err,
        branch_upstream_arg(a) matches Ok((branch, remote, remote_branch)) ==>
            command_of("graft_"@ + "branch_upstream"@, Some(a), host) == Ok::<
            _,
            PragmaErr<Seq<char>>,
        >(CommandView::BranchUpstream { branch, remote, remote_branch }),
        branch_upstream_arg(a) matches Err(e) ==>
            command_of("graft_"@ + "branch_upstream"@, Some(a), host) == Err::<CommandView, _>(
            e,
        ),
        command_of("graft_"@ + "branch_upstream"@, None, host) is Err,
        command_of("graft_"@ + "branch_unset_upstream"@, arg, host) == Ok::<
            _,
            PragmaErr<Seq<char>>,
        >(CommandView::BranchUnsetUpstream { branch: arg }),
        switch_branch_arg(a) matches Ok((name, force)) ==>
            command_of("graft_"@ + "switch_branch"@, Some(a), host) == Ok::<
            _,
            PragmaErr<Seq<char>>,
        >(CommandView::SwitchBranch { name, force }),
        switch_branch_arg(a) matches Err(e) ==>
            command_of("graft_"@ + "switch_branch"@, Some(a), host) == Err::<CommandView, _>(
            e,
        ),
        command_of("graft_"@ + "switch_branch"@, None, host) is Err,
        switch_create_arg(a) matches Ok((name, start_point, force)) ==>
            command_of("graft_"@ + "switch_create"@, Some(a), host) == Ok::<
            _,
            PragmaErr<Seq<char>>,
        >(CommandView::SwitchCreate { name, start_point, force }),
        switch_create_arg(a) matches Err(e) ==>
            command_of("graft_"@ + "switch_create"@, Some(a), host) == Err::<CommandView, _>(
            e,
        ),
        command_of("graft_"@ + "switch_create"@, None, host) is Err,
{
    lemma_places();
    lemma_suffix("branch"@);
    lemma_suffix("branch_create"@);
    lemma_suffix("branch_delete"@);
    lemma_suffix("branch_rename"@);
    lemma_suffix("branch_upstream"@);
    lemma_suffix("branch_unset_upstream"@);
    lemma_suffix("switch_branch"@);
    lemma_suffix("switch_create"@);
}

/// The names of the commands about tags and history: each stands for its command, with the argument read as
/// that command reads it.
#[verifier::spinoff_prover]
#[verifier::rlimit(100)]
pub proof fn law_tag_names(a: Seq<char>, arg: Option<Seq<char>>, host: Host)
    ensures
        command_of("graft_"@ + "tags"@, arg, host) == Ok::<
            _,
            PragmaErr<Seq<char>>,
        >(CommandView::Tags),
        tag_create_arg(a) matches Ok((name, target, message)) ==>
            command_of("graft_"@ + "tag_create"@, Some(a), host) == Ok::<
            _,
            PragmaErr<Seq<char>>,
        >(CommandView::TagCreate { name, target, message }),
        tag_create_arg(a) matches Err(e) ==>
            command_of("graft_"@ + "tag_create"@, Some(a), host) == Err::<CommandView, _>(
            e,
        ),
        command_of("graft_"@ + "tag_create"@, None, host) is Err,
        command_of("graft_"@ + "tag_delete"@, Some(a), host) == Ok::<
            _,
            PragmaErr<Seq<char>>,
        >(CommandView::TagDelete { name: a }),
        command_of("graft_"@ + "log"@, arg, host) == Ok::<
            _,
            PragmaErr<Seq<char>>,
        >(CommandView::Log),
        diff_arg(arg, host) matches Ok(spec) ==> command_of("graft_"@ + "diff"@, arg, host) == Ok::<
            _,
            PragmaErr<Seq<char>>,
        >(CommandView::RepoDiff { spec }),
        diff_arg(arg, host) matches Err(e) ==>
            command_of("graft_"@ + "diff"@, arg, host) == Err::<CommandView, _>(
            e,
        ),
        command_of("graft_"@ + "show"@, Some(a), host) == Ok::<
            _,
            PragmaErr<Seq<char>>,
        >(CommandView::Show { target: a }),
        json_log_arg(arg, host) matches Ok(spec) ==>
            command_of("graft_"@ + "json_log"@, arg, host) == Ok::<
            _,
            PragmaErr<Seq<char>>,
        >(CommandView::JsonLog { spec }),
        json_log_arg(arg, host) matches Err(e) ==>
            command_of("graft_"@ + "json_log"@, arg, host) == Err::<CommandView, _>(
            e,
        ),
{
    lemma_places();
    lemma_suffix("tags"@);
    lemma_suffix("tag_create"@);
    lemma_suffix("tag_delete"@);
    lemma_suffix("log"@);
    lemma_suffix("diff"@);
    lemma_suffix("show"@);
    lemma_suffix("json_log"@);
}

/// The names of the commands about merges: each stands for its command, with the argument read as
/// that command reads it.
#[verifier::spinoff_prover]
#[verifier::rlimit(100)]
pub proof fn law_merge_names(a: Seq<char>, arg: Option<Seq<char>>, host: Host)
    ensures
        command_of("graft_"@ + "merge"@, Some(a), host) == Ok::<
            _,
            PragmaErr<Seq<char>>,
        >(CommandView::Merge { rev: a }),
        command_of("graft_"@ + "merge_abort"@, arg, host) == Ok::<
            _,
            PragmaErr<Seq<char>>,
        >(CommandView::MergeAbort),
        command_of("graft_"@ + "merge_continue"@, Some(a), host) == Ok::<
            _,
            PragmaErr<Seq<char>>,
        >(CommandView::MergeContinue { message: a }),
        command_of("graft_"@ + "conflicts"@, arg, host) == Ok::<
            _,
            PragmaErr<Seq<char>>,
        >(CommandView::Conflicts),
        resolve_arg(a) matches Ok(spec) ==>
            command_of("graft_"@ + "resolve"@, Some(a), host) == Ok::<
            _,
            PragmaErr<Seq<char>>,
        >(CommandView::Resolve { spec }),
        resolve_arg(a) matches Err(e) ==>
            command_of("graft_"@ + "resolve"@, Some(a), host) == Err::<CommandView, _>(
            e,
        ),
        command_of("graft_"@ + "resolve"@, None, host) is Err,
{
    lemma_places();
    lemma_suffix("merge"@);
    lemma_suffix("merge_abort"@);
    lemma_suffix("merge_continue"@);
    lemma_suffix("conflicts"@);
    lemma_suffix("resolve"@);
}

/// The names of the commands about remotes: each stands for its command, with the argument read as
/// that command reads it.
#[verifier::spinoff_prover]
#[verifier::rlimit(100)]
pub proof fn law_remote_names(a: Seq<char>, arg: Option<Seq<char>>, host: Host)
    ensures
        remote_add_arg(a) matches Ok((name, config)) ==>
            command_of("graft_"@ + "remote_add"@, Some(a), host) == Ok::<
            _,
            PragmaErr<Seq<char>>,
        >(CommandView::RemoteAdd { name, config }),
        remote_add_arg(a) matches Err(e) ==>
            command_of("graft_"@ + "remote_add"@, Some(a), host) == Err::<CommandView, _>(
            e,
        ),
        command_of("graft_"@ + "remote_add"@, None, host) is Err,
        command_of("graft_"@ + "remote_remove"@, Some(a), host) == Ok::<
            _,
            PragmaErr<Seq<char>>,
        >(CommandView::RemoteRemove { name: a }),
        remote_rename_arg(a) matches Ok((old_name, new_name)) ==>
            command_of("graft_"@ + "remote_rename"@, Some(a), host) == Ok::<
            _,
            PragmaErr<Seq<char>>,
        >(CommandView::RemoteRename { old_name, new_name }),
        remote_rename_arg(a) matches Err(e) ==>
            command_of("graft_"@ + "remote_rename"@, Some(a), host) == Err::<CommandView, _>(
            e,
        ),
        command_of("graft_"@ + "remote_rename"@, None, host) is Err,
        command_of("graft_"@ + "remote_get_url"@, Some(a), host) == Ok::<
            _,
            PragmaErr<Seq<char>>,
        >(CommandView::RemoteGetUrl { name: a }),
        remote_add_arg(a) matches Ok((name, config)) ==>
            command_of("graft_"@ + "remote_set_url"@, Some(a), host) == Ok::<
            _,
            PragmaErr<Seq<char>>,
        >(CommandView::RemoteSetUrl { name, config }),
        remote_add_arg(a) matches Err(e) ==>
            command_of("graft_"@ + "remote_set_url"@, Some(a), host) == Err::<CommandView, _>(
            e,
        ),
        command_of("graft_"@ + "remote_set_url"@, None, host) is Err,
        command_of("graft_"@ + "remote_prune"@, Some(a), host) == Ok::<
            _,
            PragmaErr<Seq<char>>,
        >(CommandView::RemotePrune { name: a }),
        command_of("graft_"@ + "ls_remote"@, Some(a), host) == Ok::<
            _,
            PragmaErr<Seq<char>>,
        >(CommandView::LsRemote { name: a }),
        command_of("graft_"@ + "remotes"@, arg, host) == Ok::<
            _,
            PragmaErr<Seq<char>>,
        >(CommandView::Remotes),
{
    lemma_places();
    lemma_suffix("remote_add"@);
    lemma_suffix("remote_remove"@);
    lemma_suffix("remote_rename"@);
    lemma_suffix("remote_get_url"@);
    lemma_suffix("remote_set_url"@);
    lemma_suffix("remote_prune"@);
    lemma_suffix("ls_remote"@);
    lemma_suffix("remotes"@);
}

/// The names of the commands about fetching and pushing: each stands for its command, with the argument read as
/// that command reads it.
#[verifier::spinoff_prover]
#[verifier::rlimit(100)]
pub proof fn law_sync_names(a: Seq<char>, arg: Option<Seq<char>>, host: Host)
    ensures
        command_of("graft_"@ + "job_status"@, Some(a), host) == Ok::<
            _,
            PragmaErr<Seq<char>>,
        >(CommandView::JobStatus { id: a }),
        command_of("graft_"@ + "job_result"@, Some(a), host) == Ok::<
            _,
            PragmaErr<Seq<char>>,
        >(CommandView::JobResult { id: a }),
        remote_branch_arg(arg) matches Ok(b) ==> command_of("graft_"@ + "push"@, arg, host) == Ok::<
            _,
            PragmaErr<Seq<char>>,
        >(CommandView::Push { remote: b.remote, branch: b.branch, refspec: b.refspec, all: b.all, force: b.force }),
        remote_branch_arg(arg) matches Err(e) ==>
            command_of("graft_"@ + "push"@, arg, host) == Err::<CommandView, _>(
            e,
        ),
        remote_branch_arg(arg) matches Ok(b) ==> if b.force {
            command_of("graft_"@ + "fetch"@, arg, host) is Err
        } else {
            command_of("graft_"@ + "fetch"@, arg, host) == Ok::<_, PragmaErr<Seq<char>>>(CommandView::Fetch { remote: b.remote, branch: b.branch, refspec: b.refspec, all: b.all })
        },
        remote_branch_arg(arg) matches Err(e) ==>
            command_of("graft_"@ + "fetch"@, arg, host) == Err::<CommandView, _>(
            e,
        ),
        remote_branch_arg(arg) matches Ok(b) ==> if b.force {
            command_of("graft_"@ + "pull"@, arg, host) is Err
        } else {
            command_of("graft_"@ + "pull"@, arg, host) == Ok::<_, PragmaErr<Seq<char>>>(CommandView::Pull { remote: b.remote, branch: b.branch, refspec: b.refspec, all: b.all })
        },
        remote_branch_arg(arg) matches Err(e) ==>
            command_of("graft_"@ + "pull"@, arg, host) == Err::<CommandView, _>(
            e,
        ),
{
    lemma_places();
    lemma_suffix("job_status"@);
    lemma_suffix("job_result"@);
    lemma_suffix("push"@);
    lemma_suffix("fetch"@);
    lemma_suffix("pull"@);
}

/// The names of the commands about payloads and audits: each stands for its command, with the argument read as
/// that command reads it.
#[verifier::spinoff_prover]
#[verifier::rlimit(100)]
pub proof fn law_payload_names(a: Seq<char>, arg: Option<Seq<char>>, host: Host)
    ensures
        audit_arg(arg, host) matches Ok(spec) ==>
            command_of("graft_"@ + "audit"@, arg, host) == Ok::<
            _,
            PragmaErr<Seq<char>>,
        >(CommandView::RepoAudit { spec }),
        audit_arg(arg, host) matches Err(e) ==>
            command_of("graft_"@ + "audit"@, arg, host) == Err::<CommandView, _>(
            e,
        ),
        lfs_fetch_arg(arg, host) matches Ok(spec) ==>
            command_of("graft_"@ + "lfs_fetch"@, arg, host) == Ok::<
            _,
            PragmaErr<Seq<char>>,
        >(CommandView::LargeFileFetch { spec }),
        lfs_fetch_arg(arg, host) matches Err(e) ==>
            command_of("graft_"@ + "lfs_fetch"@, arg, host) == Err::<CommandView, _>(
            e,
        ),
        lfs_status_arg(arg, host) matches Ok(spec) ==>
            command_of("graft_"@ + "lfs_status"@, arg, host) == Ok::<
            _,
            PragmaErr<Seq<char>>,
        >(CommandView::LargeFileStatus { spec }),
        lfs_status_arg(arg, host) matches Err(e) ==>
            command_of("graft_"@ + "lfs_status"@, arg, host) == Err::<CommandView, _>(
            e,
        ),
        lfs_fetch_arg(arg, host) matches Ok(spec) ==>
            command_of("graft_"@ + "payload_fetch"@, arg, host) == Ok::<
            _,
            PragmaErr<Seq<char>>,
        >(CommandView::LargeFileFetch { spec }),
        lfs_fetch_arg(arg, host) matches Err(e) ==>
            command_of("graft_"@ + "payload_fetch"@, arg, host) == Err::<CommandView, _>(
            e,
        ),
        lfs_status_arg(arg, host) matches Ok(spec) ==>
            command_of("graft_"@ + "payload_status"@, arg, host) == Ok::<
            _,
            PragmaErr<Seq<char>>,
        >(CommandView::LargeFileStatus { spec }),
        lfs_status_arg(arg, host) matches Err(e) ==>
            command_of("graft_"@ + "payload_status"@, arg, host) == Err::<CommandView, _>(
            e,
        ),
{
    lemma_places();
    lemma_suffix("audit"@);
    lemma_suffix("lfs_fetch"@);
    lemma_suffix("lfs_status"@);
    lemma_suffix("payload_fetch"@);
    lemma_suffix("payload_status"@);
}

/// The names of the commands about storage and settings: each stands for its command, with the argument read as
/// that command reads it.
#[verifier::spinoff_prover]
#[verifier::rlimit(100)]
pub proof fn law_config_names(a: Seq<char>, arg: Option<Seq<char>>, host: Host)
    ensures
        command_of("graft_"@ + "config_get"@, Some(a), host) == Ok::<
            _,
            PragmaErr<Seq<char>>,
        >(CommandView::ConfigGet { key: a }),
        command_of("graft_"@ + "config_list"@, arg, host) == Ok::<
            _,
            PragmaErr<Seq<char>>,
        >(CommandView::ConfigList),
        config_set_arg(a) matches Ok((key, value)) ==>
            command_of("graft_"@ + "config_set"@, Some(a), host) == Ok::<
            _,
            PragmaErr<Seq<char>>,
        >(CommandView::ConfigSet { key, value }),
        config_set_arg(a) matches Err(e) ==>
            command_of("graft_"@ + "config_set"@, Some(a), host) == Err::<CommandView, _>(
            e,
        ),
        command_of("graft_"@ + "config_set"@, None, host) is Err,
        command_of("graft_"@ + "config_unset"@, Some(a), host) == Ok::<
            _,
            PragmaErr<Seq<char>>,
        >(CommandView::ConfigUnset { key: a }),
{
    lemma_places();
    lemma_suffix("config_get"@);
    lemma_suffix("config_list"@);
    lemma_suffix("config_set"@);
    lemma_suffix("config_unset"@);
}

} // verus!
