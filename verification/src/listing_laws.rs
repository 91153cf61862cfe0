//! What holds of lists that are told: every entry is said, in its order and as what it is.
use vstd::prelude::*;
use vstd::string::*;

use crate::conflict_list::{row_conflict_text, row_conflict_texts};
use crate::conflict_report::{row_change_name, RowConflictDetailView};
use crate::conflicts::identity_label;
use crate::labels::artifact_place;
use crate::model::{PathArtifactView, PathFileView, RemoteBranchRefView, TagInfoView};
use crate::number::decimal;
use crate::remote::uri_of;
use crate::report::{
    config_entry_text, config_entry_texts, listed_path_text, listed_path_texts,
    remote_branch_line_text, remote_branch_line_texts, shown_artifact_text,
    shown_artifact_texts, shown_file_text, shown_file_texts, tag_line_text, tag_line_texts,
    RepoConfigEntryView,
};
use crate::report_sync::{
    fetch_status_name, fetched_branch_text, fetched_branch_texts, fetched_file_text,
    fetched_file_texts, issue_line_text, issue_line_texts, issue_name, merge_path_text,
    merge_path_texts, pruned_branch_text, pruned_branch_texts, pruned_file_text,
    pruned_file_texts, remote_line_text, remote_line_texts, remote_ref_text, remote_ref_texts,
    FetchOutcomeView, LargeFileFetchedView, LargeFilePrunedView, RemoteInfoView,
    RepoArtifactAuditIssueView,
};
use crate::show::{padded, short};
use crate::text::joined;

verus! {

/// The databases of a commit are said one after the other, each with its path and its pages.
pub proof fn law_said_databases_of_a_commit(
    a: Seq<PathFileView>,
    b: Seq<PathFileView>,
    e: PathFileView,
)
    ensures
        shown_file_texts(a + b) == shown_file_texts(a) + shown_file_texts(b),
        shown_file_texts(seq![e]) == "  "@ + e.path + " ("@
            + decimal(e.state.snapshot.page_count as nat) + " page(s), "@
            + decimal(e.state.snapshot.ranges.len()) + " range(s))\n"@,
    decreases b.len(),
{
    let line = "  "@ + e.path + " ("@ + decimal(e.state.snapshot.page_count as nat)
        + " page(s), "@ + decimal(e.state.snapshot.ranges.len()) + " range(s))\n"@;
    assert(seq![e].drop_last() =~= Seq::<PathFileView>::empty());
    assert(shown_file_texts(Seq::<PathFileView>::empty()) == Seq::<char>::empty());
    assert(Seq::<char>::empty() + line =~= line);
    if b.len() == 0 {
        assert(a + b =~= a);
        assert(shown_file_texts(a) + Seq::<char>::empty() =~= shown_file_texts(a));
    } else {
        law_said_databases_of_a_commit(a, b.drop_last(), e);
        assert((a + b).drop_last() =~= a + b.drop_last());
        assert((a + b).last() == b.last());
        let (x, y) = (shown_file_texts(a), shown_file_texts(b.drop_last()));
        let z = shown_file_text(b.last());
        assert(x + (y + z) =~= x + y + z);
    }
}

/// The files of a commit are said one after the other, each with its path, its size and its contents.
pub proof fn law_said_files_of_a_commit(
    a: Seq<PathArtifactView>,
    b: Seq<PathArtifactView>,
    e: PathArtifactView,
)
    ensures
        shown_artifact_texts(a + b) == shown_artifact_texts(a) + shown_artifact_texts(b),
        shown_artifact_texts(seq![e]) == "  "@ + e.path + " ("@ + decimal(e.state.size as nat)
            + " byte(s), "@ + artifact_place(e.state.large) + ", "@ + e.state.content_hash
            + ")\n"@,
    decreases b.len(),
{
    let line = "  "@ + e.path + " ("@ + decimal(e.state.size as nat) + " byte(s), "@
        + artifact_place(e.state.large) + ", "@ + e.state.content_hash + ")\n"@;
    assert(seq![e].drop_last() =~= Seq::<PathArtifactView>::empty());
    assert(shown_artifact_texts(Seq::<PathArtifactView>::empty()) == Seq::<char>::empty());
    assert(Seq::<char>::empty() + line =~= line);
    if b.len() == 0 {
        assert(a + b =~= a);
        assert(shown_artifact_texts(a) + Seq::<char>::empty() =~= shown_artifact_texts(a));
    } else {
        law_said_files_of_a_commit(a, b.drop_last(), e);
        assert((a + b).drop_last() =~= a + b.drop_last());
        assert((a + b).last() == b.last());
        let (x, y) = (shown_artifact_texts(a), shown_artifact_texts(b.drop_last()));
        let z = shown_artifact_text(b.last());
        assert(x + (y + z) =~= x + y + z);
    }
}

/// Settings are said one after the other, each with its key before its value.
pub proof fn law_said_settings(
    a: Seq<RepoConfigEntryView>,
    b: Seq<RepoConfigEntryView>,
    e: RepoConfigEntryView,
)
    ensures
        config_entry_texts(a + b) == config_entry_texts(a) + config_entry_texts(b),
        config_entry_texts(seq![e]) == e.key + " = "@ + e.value + "\n"@,
    decreases b.len(),
{
    let line = e.key + " = "@ + e.value + "\n"@;
    assert(seq![e].drop_last() =~= Seq::<RepoConfigEntryView>::empty());
    assert(config_entry_texts(Seq::<RepoConfigEntryView>::empty()) == Seq::<char>::empty());
    assert(Seq::<char>::empty() + line =~= line);
    if b.len() == 0 {
        assert(a + b =~= a);
        assert(config_entry_texts(a) + Seq::<char>::empty() =~= config_entry_texts(a));
    } else {
        law_said_settings(a, b.drop_last(), e);
        assert((a + b).drop_last() =~= a + b.drop_last());
        assert((a + b).last() == b.last());
        let (x, y) = (config_entry_texts(a), config_entry_texts(b.drop_last()));
        let z = config_entry_text(b.last());
        assert(x + (y + z) =~= x + y + z);
    }
}

/// Listed paths are said one after the other, each on a line of its own.
pub proof fn law_said_listed_paths(
    a: Seq<Seq<char>>,
    b: Seq<Seq<char>>,
    e: Seq<char>,
)
    ensures
        listed_path_texts(a + b) == listed_path_texts(a) + listed_path_texts(b),
        listed_path_texts(seq![e]) == "\n  "@ + e,
    decreases b.len(),
{
    let line = "\n  "@ + e;
    assert(seq![e].drop_last() =~= Seq::<Seq<char>>::empty());
    assert(listed_path_texts(Seq::<Seq<char>>::empty()) == Seq::<char>::empty());
    assert(Seq::<char>::empty() + line =~= line);
    if b.len() == 0 {
        assert(a + b =~= a);
        assert(listed_path_texts(a) + Seq::<char>::empty() =~= listed_path_texts(a));
    } else {
        law_said_listed_paths(a, b.drop_last(), e);
        assert((a + b).drop_last() =~= a + b.drop_last());
        assert((a + b).last() == b.last());
        let (x, y) = (listed_path_texts(a), listed_path_texts(b.drop_last()));
        let z = listed_path_text(b.last());
        assert(x + (y + z) =~= x + y + z);
    }
}

/// Tags are said one after the other, each with the commit that it names.
pub proof fn law_said_tags(
    a: Seq<TagInfoView>,
    b: Seq<TagInfoView>,
    e: TagInfoView,
)
    ensures
        tag_line_texts(a + b) == tag_line_texts(a) + tag_line_texts(b),
        tag_line_texts(seq![e]) == padded(e.name, 24) + " "@ + short(e.target)
            + (if e.annotated { " (annotated "@ + short(e.object) + ")"@ } else { Seq::empty() })
            + "\n"@,
    decreases b.len(),
{
    let line = padded(e.name, 24) + " "@ + short(e.target) + (if e.annotated { " (annotated "@
        + short(e.object) + ")"@ } else { Seq::empty() }) + "\n"@;
    assert(seq![e].drop_last() =~= Seq::<TagInfoView>::empty());
    assert(tag_line_texts(Seq::<TagInfoView>::empty()) == Seq::<char>::empty());
    assert(Seq::<char>::empty() + line =~= line);
    if b.len() == 0 {
        assert(a + b =~= a);
        assert(tag_line_texts(a) + Seq::<char>::empty() =~= tag_line_texts(a));
    } else {
        law_said_tags(a, b.drop_last(), e);
        assert((a + b).drop_last() =~= a + b.drop_last());
        assert((a + b).last() == b.last());
        let (x, y) = (tag_line_texts(a), tag_line_texts(b.drop_last()));
        let z = tag_line_text(b.last());
        assert(x + (y + z) =~= x + y + z);
    }
}

/// Remote branches are said one after the other, each with its remote before its name.
pub proof fn law_said_remote_branches(
    a: Seq<RemoteBranchRefView>,
    b: Seq<RemoteBranchRefView>,
    e: RemoteBranchRefView,
    with_prefix: bool,
)
    ensures
        remote_branch_line_texts(a + b, with_prefix) == remote_branch_line_texts(a, with_prefix)
            + remote_branch_line_texts(b, with_prefix),
        remote_branch_line_texts(seq![e], with_prefix) == "  "@
            + padded(if with_prefix { "remotes/"@ + e.remote + "/"@ + e.branch } else { e.remote
            + "/"@ + e.branch }, 24) + " "@ + short(e.head) + "\n"@,
    decreases b.len(),
{
    let line = "  "@ + padded(if with_prefix { "remotes/"@ + e.remote + "/"@
        + e.branch } else { e.remote + "/"@ + e.branch }, 24) + " "@ + short(e.head) + "\n"@;
    assert(seq![e].drop_last() =~= Seq::<RemoteBranchRefView>::empty());
    assert(remote_branch_line_texts(Seq::<RemoteBranchRefView>::empty(), with_prefix) == Seq::<char>::empty());
    assert(Seq::<char>::empty() + line =~= line);
    if b.len() == 0 {
        assert(a + b =~= a);
        assert(remote_branch_line_texts(a, with_prefix) + Seq::<char>::empty() =~= remote_branch_line_texts(a, with_prefix));
    } else {
        law_said_remote_branches(a, b.drop_last(), e, with_prefix);
        assert((a + b).drop_last() =~= a + b.drop_last());
        assert((a + b).last() == b.last());
        let (x, y) = (remote_branch_line_texts(a, with_prefix), remote_branch_line_texts(b.drop_last(), with_prefix));
        let z = remote_branch_line_text(b.last(), with_prefix);
        assert(x + (y + z) =~= x + y + z);
    }
}

/// Fetched branches are said one after the other, each with its commits.
pub proof fn law_said_fetched_branches(
    a: Seq<FetchOutcomeView>,
    b: Seq<FetchOutcomeView>,
    e: FetchOutcomeView,
)
    ensures
        fetched_branch_texts(a + b) == fetched_branch_texts(a) + fetched_branch_texts(b),
        fetched_branch_texts(seq![e]) == "  "@ + e.remote + "/"@ + e.branch + " at "@
            + short(e.head) + " ("@ + decimal(e.commits as nat) + " new "@
            + (if e.commits == 1 { "commit"@ } else { "commits"@ }) + ")\n"@,
    decreases b.len(),
{
    let line = "  "@ + e.remote + "/"@ + e.branch + " at "@ + short(e.head) + " ("@
        + decimal(e.commits as nat) + " new "@
        + (if e.commits == 1 { "commit"@ } else { "commits"@ }) + ")\n"@;
    assert(seq![e].drop_last() =~= Seq::<FetchOutcomeView>::empty());
    assert(fetched_branch_texts(Seq::<FetchOutcomeView>::empty()) == Seq::<char>::empty());
    assert(Seq::<char>::empty() + line =~= line);
    if b.len() == 0 {
        assert(a + b =~= a);
        assert(fetched_branch_texts(a) + Seq::<char>::empty() =~= fetched_branch_texts(a));
    } else {
        law_said_fetched_branches(a, b.drop_last(), e);
        assert((a + b).drop_last() =~= a + b.drop_last());
        assert((a + b).last() == b.last());
        let (x, y) = (fetched_branch_texts(a), fetched_branch_texts(b.drop_last()));
        let z = fetched_branch_text(b.last());
        assert(x + (y + z) =~= x + y + z);
    }
}

/// The paths of a merge are said one after the other.
pub proof fn law_said_merged_paths(
    a: Seq<Seq<char>>,
    b: Seq<Seq<char>>,
    e: Seq<char>,
)
    ensures
        merge_path_texts(a + b) == merge_path_texts(a) + merge_path_texts(b),
        merge_path_texts(seq![e]) == "  "@ + e + "\n"@,
    decreases b.len(),
{
    let line = "  "@ + e + "\n"@;
    assert(seq![e].drop_last() =~= Seq::<Seq<char>>::empty());
    assert(merge_path_texts(Seq::<Seq<char>>::empty()) == Seq::<char>::empty());
    assert(Seq::<char>::empty() + line =~= line);
    if b.len() == 0 {
        assert(a + b =~= a);
        assert(merge_path_texts(a) + Seq::<char>::empty() =~= merge_path_texts(a));
    } else {
        law_said_merged_paths(a, b.drop_last(), e);
        assert((a + b).drop_last() =~= a + b.drop_last());
        assert((a + b).last() == b.last());
        let (x, y) = (merge_path_texts(a), merge_path_texts(b.drop_last()));
        let z = merge_path_text(b.last());
        assert(x + (y + z) =~= x + y + z);
    }
}

/// Remotes are said one after the other, each with where it is.
pub proof fn law_said_remotes(
    a: Seq<RemoteInfoView>,
    b: Seq<RemoteInfoView>,
    e: RemoteInfoView,
)
    ensures
        remote_line_texts(a + b) == remote_line_texts(a) + remote_line_texts(b),
        remote_line_texts(seq![e]) == e.name + "\t"@ + uri_of(e.config) + "\n"@,
    decreases b.len(),
{
    let line = e.name + "\t"@ + uri_of(e.config) + "\n"@;
    assert(seq![e].drop_last() =~= Seq::<RemoteInfoView>::empty());
    assert(remote_line_texts(Seq::<RemoteInfoView>::empty()) == Seq::<char>::empty());
    assert(Seq::<char>::empty() + line =~= line);
    if b.len() == 0 {
        assert(a + b =~= a);
        assert(remote_line_texts(a) + Seq::<char>::empty() =~= remote_line_texts(a));
    } else {
        law_said_remotes(a, b.drop_last(), e);
        assert((a + b).drop_last() =~= a + b.drop_last());
        assert((a + b).last() == b.last());
        let (x, y) = (remote_line_texts(a), remote_line_texts(b.drop_last()));
        let z = remote_line_text(b.last());
        assert(x + (y + z) =~= x + y + z);
    }
}

/// Pruned branches are said one after the other, each behind its remote.
pub proof fn law_said_pruned_branches(
    a: Seq<Seq<char>>,
    b: Seq<Seq<char>>,
    e: Seq<char>,
    remote: Seq<char>,
)
    ensures
        pruned_branch_texts(a + b, remote) == pruned_branch_texts(a, remote)
            + pruned_branch_texts(b, remote),
        pruned_branch_texts(seq![e], remote) == "  "@ + remote + "/"@ + e + "\n"@,
    decreases b.len(),
{
    let line = "  "@ + remote + "/"@ + e + "\n"@;
    assert(seq![e].drop_last() =~= Seq::<Seq<char>>::empty());
    assert(pruned_branch_texts(Seq::<Seq<char>>::empty(), remote) == Seq::<char>::empty());
    assert(Seq::<char>::empty() + line =~= line);
    if b.len() == 0 {
        assert(a + b =~= a);
        assert(pruned_branch_texts(a, remote) + Seq::<char>::empty() =~= pruned_branch_texts(a, remote));
    } else {
        law_said_pruned_branches(a, b.drop_last(), e, remote);
        assert((a + b).drop_last() =~= a + b.drop_last());
        assert((a + b).last() == b.last());
        let (x, y) = (pruned_branch_texts(a, remote), pruned_branch_texts(b.drop_last(), remote));
        let z = pruned_branch_text(b.last(), remote);
        assert(x + (y + z) =~= x + y + z);
    }
}

/// The branches of a remote are said one after the other, each behind its commit.
pub proof fn law_said_remote_refs(
    a: Seq<RemoteBranchRefView>,
    b: Seq<RemoteBranchRefView>,
    e: RemoteBranchRefView,
)
    ensures
        remote_ref_texts(a + b) == remote_ref_texts(a) + remote_ref_texts(b),
        remote_ref_texts(seq![e]) == e.head + "\trefs/heads/"@ + e.branch + "\n"@,
    decreases b.len(),
{
    let line = e.head + "\trefs/heads/"@ + e.branch + "\n"@;
    assert(seq![e].drop_last() =~= Seq::<RemoteBranchRefView>::empty());
    assert(remote_ref_texts(Seq::<RemoteBranchRefView>::empty()) == Seq::<char>::empty());
    assert(Seq::<char>::empty() + line =~= line);
    if b.len() == 0 {
        assert(a + b =~= a);
        assert(remote_ref_texts(a) + Seq::<char>::empty() =~= remote_ref_texts(a));
    } else {
        law_said_remote_refs(a, b.drop_last(), e);
        assert((a + b).drop_last() =~= a + b.drop_last());
        assert((a + b).last() == b.last());
        let (x, y) = (remote_ref_texts(a), remote_ref_texts(b.drop_last()));
        let z = remote_ref_text(b.last());
        assert(x + (y + z) =~= x + y + z);
    }
}

/// Issues are said one after the other, each with its path.
pub proof fn law_said_issues(
    a: Seq<RepoArtifactAuditIssueView>,
    b: Seq<RepoArtifactAuditIssueView>,
    e: RepoArtifactAuditIssueView,
)
    ensures
        issue_line_texts(a + b) == issue_line_texts(a) + issue_line_texts(b),
        issue_line_texts(seq![e]) == "  "@ + issue_name(e.kind) + ": "@ + e.path + " ("@
            + e.message + ")\n"@,
    decreases b.len(),
{
    let line = "  "@ + issue_name(e.kind) + ": "@ + e.path + " ("@ + e.message + ")\n"@;
    assert(seq![e].drop_last() =~= Seq::<RepoArtifactAuditIssueView>::empty());
    assert(issue_line_texts(Seq::<RepoArtifactAuditIssueView>::empty()) == Seq::<char>::empty());
    assert(Seq::<char>::empty() + line =~= line);
    if b.len() == 0 {
        assert(a + b =~= a);
        assert(issue_line_texts(a) + Seq::<char>::empty() =~= issue_line_texts(a));
    } else {
        law_said_issues(a, b.drop_last(), e);
        assert((a + b).drop_last() =~= a + b.drop_last());
        assert((a + b).last() == b.last());
        let (x, y) = (issue_line_texts(a), issue_line_texts(b.drop_last()));
        let z = issue_line_text(b.last());
        assert(x + (y + z) =~= x + y + z);
    }
}

/// Fetched payloads are said one after the other, each with its paths.
pub proof fn law_said_fetched_payloads(
    a: Seq<LargeFileFetchedView>,
    b: Seq<LargeFileFetchedView>,
    e: LargeFileFetchedView,
)
    ensures
        fetched_file_texts(a + b) == fetched_file_texts(a) + fetched_file_texts(b),
        fetched_file_texts(seq![e]) == "  "@ + e.content_hash + " ("@
            + fetch_status_name(e.status) + ", "@ + decimal(e.size as nat) + " byte(s), "@
            + e.store_path + ", paths: "@ + joined(e.paths, ", "@) + ")\n"@,
    decreases b.len(),
{
    let line = "  "@ + e.content_hash + " ("@ + fetch_status_name(e.status) + ", "@
        + decimal(e.size as nat) + " byte(s), "@ + e.store_path + ", paths: "@
        + joined(e.paths, ", "@) + ")\n"@;
    assert(seq![e].drop_last() =~= Seq::<LargeFileFetchedView>::empty());
    assert(fetched_file_texts(Seq::<LargeFileFetchedView>::empty()) == Seq::<char>::empty());
    assert(Seq::<char>::empty() + line =~= line);
    if b.len() == 0 {
        assert(a + b =~= a);
        assert(fetched_file_texts(a) + Seq::<char>::empty() =~= fetched_file_texts(a));
    } else {
        law_said_fetched_payloads(a, b.drop_last(), e);
        assert((a + b).drop_last() =~= a + b.drop_last());
        assert((a + b).last() == b.last());
        let (x, y) = (fetched_file_texts(a), fetched_file_texts(b.drop_last()));
        let z = fetched_file_text(b.last());
        assert(x + (y + z) =~= x + y + z);
    }
}

/// Pruned payloads are said one after the other.
pub proof fn law_said_pruned_payloads(
    a: Seq<LargeFilePrunedView>,
    b: Seq<LargeFilePrunedView>,
    e: LargeFilePrunedView,
)
    ensures
        pruned_file_texts(a + b) == pruned_file_texts(a) + pruned_file_texts(b),
        pruned_file_texts(seq![e]) == "  "@ + e.content_hash + " ("@ + decimal(e.size as nat)
            + " byte(s), "@ + e.path + ")\n"@,
    decreases b.len(),
{
    let line = "  "@ + e.content_hash + " ("@ + decimal(e.size as nat) + " byte(s), "@ + e.path
        + ")\n"@;
    assert(seq![e].drop_last() =~= Seq::<LargeFilePrunedView>::empty());
    assert(pruned_file_texts(Seq::<LargeFilePrunedView>::empty()) == Seq::<char>::empty());
    assert(Seq::<char>::empty() + line =~= line);
    if b.len() == 0 {
        assert(a + b =~= a);
        assert(pruned_file_texts(a) + Seq::<char>::empty() =~= pruned_file_texts(a));
    } else {
        law_said_pruned_payloads(a, b.drop_last(), e);
        assert((a + b).drop_last() =~= a + b.drop_last());
        assert((a + b).last() == b.last());
        let (x, y) = (pruned_file_texts(a), pruned_file_texts(b.drop_last()));
        let z = pruned_file_text(b.last());
        assert(x + (y + z) =~= x + y + z);
    }
}

/// Rows in conflict are said one after the other, each with what ours and theirs did.
pub proof fn law_said_rows_in_conflict(
    a: Seq<RowConflictDetailView>,
    b: Seq<RowConflictDetailView>,
    e: RowConflictDetailView,
)
    ensures
        row_conflict_texts(a + b) == row_conflict_texts(a) + row_conflict_texts(b),
        row_conflict_texts(seq![e]) == "    "@ + e.table + " "@ + identity_label(e.identity)
            + " (ours "@ + row_change_name(e.ours) + ", theirs "@ + row_change_name(e.theirs)
            + ")\n"@,
    decreases b.len(),
{
    let line = "    "@ + e.table + " "@ + identity_label(e.identity) + " (ours "@
        + row_change_name(e.ours) + ", theirs "@ + row_change_name(e.theirs) + ")\n"@;
    assert(seq![e].drop_last() =~= Seq::<RowConflictDetailView>::empty());
    assert(row_conflict_texts(Seq::<RowConflictDetailView>::empty()) == Seq::<char>::empty());
    assert(Seq::<char>::empty() + line =~= line);
    if b.len() == 0 {
        assert(a + b =~= a);
        assert(row_conflict_texts(a) + Seq::<char>::empty() =~= row_conflict_texts(a));
    } else {
        law_said_rows_in_conflict(a, b.drop_last(), e);
        assert((a + b).drop_last() =~= a + b.drop_last());
        assert((a + b).last() == b.last());
        let (x, y) = (row_conflict_texts(a), row_conflict_texts(b.drop_last()));
        let z = row_conflict_text(b.last());
        assert(x + (y + z) =~= x + y + z);
    }
}

} // verus!
