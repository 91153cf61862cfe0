//! What holds of the texts that are told: whatever an outcome holds is said in its report, as what it is.
use vstd::prelude::*;
use vstd::string::*;

use crate::conflict_list::{analysis_report, plan_text, row_conflict_text};
use crate::conflict_report::{
    row_change_name, schema_change_name, RowConflictDetailView, RowMergePlanView,
    SchemaChangeKind,
};
use crate::error::{CommandError, PragmaErr};
use crate::file_diff::{file_diff_report, SqliteFileDiffView};
use crate::labels::{
    artifact_place, file_change_name, kind_json, kind_name, presence_name, reset_mode_name,
    stage_name, storage_json, storage_name, worktree_change_name,
};
use crate::model::{
    BranchInfoView, CommitObject, CommitObjectView, Head, MergeOutcome, MergeOutcomeView,
    RemoteBranchRefView, RepoFileChange, RepoStatus, RepoStatusView, RepoWorktreeChangeKind,
    RepoWorktreeChangeView, TagInfoView,
};
use crate::number::decimal;
use crate::parse_laws::{is_word, law_reset_modes};
use crate::parse_refs::reset_arg;
use crate::remote::uri_of;
use crate::reply::{reply_text, Reply};
use crate::report::{
    branch_line_text, branch_line_texts, branch_renamed_report, branch_upstream_report,
    branches_report, checkout_report, commit_report, conflicts_report, contents_text,
    detail_line_texts, details_report, diff_report, done_to_paths, entries_report,
    entry_line_texts, file_diff_text, file_diff_texts, head_text, indented_path_texts,
    inventory_line_text, inventory_line_texts, inventory_report, is_clean, listed_path_texts,
    log_entry_text, log_entry_texts, log_report, parents_text, path_list,
    remote_branch_line_texts, shown_artifact_texts, shown_file_texts, status_report,
    tag_created_report, tag_deleted_report, tag_line_texts, tags_report, unstaged_text,
    worktree_change_texts, RepoDiff, RepoDiffView, RepoFileDiffView, RepoTrackedPathDetailView,
    RepoTrackedPathEntryView, RepoTrackedPathView,
};
use crate::report_sync::{
    any_forced, audit_report, fetch_branches, fetch_commits, fetch_remote, fetch_report,
    fetched_branch_texts, issue_line_texts, large_file_prune_report, large_file_status_report,
    ls_remote_report, merge_report, merge_section, on_new_line, payload_state_name,
    pull_report, push_branches, push_commits, push_remote, push_report, pushed_branch_text,
    pushed_branch_texts, ref_of, repair_report, row_auto_merge_text, storage_gc_report,
    FetchAllOutcomeView, FetchCommandOutcome, FetchOutcomeView, PullOutcomeView,
    PushAllOutcomeView, PushCommandOutcome, PushOutcomeView, RemoteInfo, RepoArtifactAuditView,
    RepoArtifactRepairOutcomeView, RepoLargeFilePruneOutcomeView,
    RepoLargeFileStatusOutcomeView, RepoLargeFileStatusState, RowAutoMergeResultView,
    StorageGcOutcome,
};
use crate::show::{padded, plural, short, views};
use crate::spec::{
    BranchListMode, DiffMode, IndexStage, RepoPathStorage, RepoTrackedPathKind, ResetMode,
    ResolveSide,
};
use crate::text::{has_prefix, has_suffix, occurs_at, texts};

verus! {

/// A text has another one in it.
pub open spec fn says(text: Seq<char>, part: Seq<char>) -> bool {
    exists|i: int| #[trigger] occurs_at(text, part, i)
}

proof fn lemma_says(a: Seq<char>, part: Seq<char>, b: Seq<char>)
    ensures
        says(a + part + b, part),
{
    let text = a + part + b;
    assert(text.subrange(a.len() as int, (a.len() + part.len()) as int) =~= part);
    assert(occurs_at(text, part, a.len() as int));
}

proof fn lemma_says_within(a: Seq<char>, middle: Seq<char>, b: Seq<char>, part: Seq<char>)
    requires
        says(middle, part),
    ensures
        says(a + middle + b, part),
{
    let i = choose|i: int| #[trigger] occurs_at(middle, part, i);
    let text = a + middle + b;
    assert(text.subrange(a.len() + i, a.len() + i + part.len()) =~= middle.subrange(
        i,
        i + part.len(),
    ));
    assert(occurs_at(text, part, a.len() + i));
}

/// The names of changes, kinds, places and stages are those that users and programs know them by; a
/// change has one name wherever it is told.
pub proof fn law_names_of_changes()
    ensures
        file_change_name(RepoFileChange::Added) == "added"@,
        file_change_name(RepoFileChange::Modified) == "modified"@,
        file_change_name(RepoFileChange::Deleted) == "deleted"@,
        worktree_change_name(RepoWorktreeChangeKind::Untracked) == "untracked"@,
        worktree_change_name(RepoWorktreeChangeKind::Modified) == file_change_name(
            RepoFileChange::Modified,
        ),
        worktree_change_name(RepoWorktreeChangeKind::Deleted) == file_change_name(
            RepoFileChange::Deleted,
        ),
        schema_change_name(SchemaChangeKind::Added) == file_change_name(RepoFileChange::Added),
        schema_change_name(SchemaChangeKind::Modified) == file_change_name(RepoFileChange::Modified),
        schema_change_name(SchemaChangeKind::Deleted) == file_change_name(RepoFileChange::Deleted),
        presence_name(Some(true)) == payload_state_name(RepoLargeFileStatusState::Present),
        presence_name(Some(false)) == payload_state_name(RepoLargeFileStatusState::Missing),
        presence_name(Some(true)) == "present"@,
        presence_name(Some(false)) == "missing"@,
        kind_json(RepoTrackedPathKind::SqliteDatabase) == "sqlite_database"@,
        storage_json(RepoPathStorage::SqliteSnapshot) == "sqlite_snapshot"@,
        storage_json(RepoPathStorage::Inline) == storage_name(RepoPathStorage::Inline),
        storage_json(RepoPathStorage::External) == storage_name(RepoPathStorage::External),
        storage_name(RepoPathStorage::Inline) == "inline"@,
        storage_name(RepoPathStorage::External) == "external"@,
        kind_name(RepoTrackedPathKind::TextFile) == "text file"@,
        kind_name(RepoTrackedPathKind::BinaryFile) == "binary file"@,
        kind_name(RepoTrackedPathKind::SqliteDatabase) == "sqlite"@,
        artifact_place(true) == "external payload"@,
        artifact_place(false) == "file"@,
{
}

/// A stage of a conflict is called what its side is called.
pub proof fn law_stages_are_called_like_sides(side: ResolveSide)
    ensures
        side.stage() matches Some(stage) ==> stage_name(stage) == side.name(),
        stage_name(IndexStage::Base) == "base"@,
        stage_name(IndexStage::Normal) == "normal"@,
{
}

/// A reset is told as it is asked for.
pub proof fn law_resets_are_told_as_asked_for(mode: ResetMode, rev: Seq<char>)
    requires
        is_word(rev),
    ensures
        reset_arg("--"@ + reset_mode_name(mode) + " "@ + rev) == Ok::<_, PragmaErr<Seq<char>>>(
            (mode, rev),
        ),
{
    law_reset_modes(rev);
    reveal_strlit("--");
    reveal_strlit("soft");
    reveal_strlit("mixed");
    reveal_strlit("hard");
    reveal_strlit("--soft");
    reveal_strlit("--mixed");
    reveal_strlit("--hard");
    assert("--"@ + "soft"@ =~= "--soft"@);
    assert("--"@ + "mixed"@ =~= "--mixed"@);
    assert("--"@ + "hard"@ =~= "--hard"@);
}

proof fn lemma_indented_paths(es: Seq<Seq<char>>, i: int)
    requires
        0 <= i < es.len(),
    ensures
        says(indented_path_texts(es), "  "@ + es[i] + "\n"@),
    decreases es.len(),
{
    let was = indented_path_texts(es.drop_last());
    let now = indented_path_texts(es);
    let line = "  "@ + es[i] + "\n"@;
    if i == es.len() - 1 {
        lemma_says(was, line, Seq::empty());
        assert(was + line + Seq::empty() =~= now);
    } else {
        lemma_indented_paths(es.drop_last(), i);
        let last = crate::report::indented_path_text(es.last());
        lemma_says_within(Seq::empty(), was, last, line);
        assert(Seq::empty() + was + last =~= now);
    }
}

proof fn lemma_worktree_changes(es: Seq<RepoWorktreeChangeView>, i: int)
    requires
        0 <= i < es.len(),
    ensures
        says(
            worktree_change_texts(es),
            "  "@ + worktree_change_name(es[i].change) + ": "@ + es[i].path + "\n"@,
        ),
    decreases es.len(),
{
    let was = worktree_change_texts(es.drop_last());
    let now = worktree_change_texts(es);
    let line = "  "@ + worktree_change_name(es[i].change) + ": "@ + es[i].path + "\n"@;
    if i == es.len() - 1 {
        lemma_says(was, line, Seq::empty());
        assert(was + line + Seq::empty() =~= now);
    } else {
        lemma_worktree_changes(es.drop_last(), i);
        let last = crate::report::worktree_change_text(es.last());
        lemma_says_within(Seq::empty(), was, last, line);
        assert(Seq::empty() + was + last =~= now);
    }
}

/// A status says the paths in conflict, those that are staged and the changes that are not, each under
/// its heading; and it ends by saying so where there are none.
pub proof fn law_status_says_what_it_holds(status: RepoStatusView)
    ensures
        status.conflicted.len() > 0 ==> says(
            status_report(status),
            "Unmerged paths:\n"@ + indented_path_texts(status.conflicted),
        ),
        status.staged.len() > 0 ==> says(
            status_report(status),
            "Changes to be committed:\n"@ + indented_path_texts(status.staged),
        ),
        status.unstaged_changes.len() > 0 ==> says(
            status_report(status),
            "Changes not staged for commit.\n  (use 'pragma graft_add' to stage)\n"@
                + worktree_change_texts(status.unstaged_changes),
        ),
        status.unstaged.len() == 0 && status.staged.len() == 0 && status.conflicted.len() == 0
            && status.merge_head is None ==> has_suffix(status_report(status), "Worktree clean.\n"@),
        status.merge_head matches Some(id) ==> says(
            status_report(status),
            "Merge in progress with "@ + short(id) + "\n"@,
        ),
{
    let top = head_text(status.head, status.upstream) + "Repository: "@ + status.worktree
        + "\nFormat: v"@ + decimal(status.repository_format_version as nat) + "\n"@;
    let commits = crate::report::commits_text(status.head_target, status.merge_head);
    let unmerged = crate::report::path_section("Unmerged paths:\n"@, status.conflicted);
    let staged = crate::report::path_section("Changes to be committed:\n"@, status.staged);
    let unstaged = unstaged_text(status);
    let clean = if is_clean(status) {
        "Worktree clean.\n"@
    } else {
        Seq::empty()
    };
    lemma_six_parts(top, commits, unmerged, staged, unstaged, clean);
    if let Some(id) = status.merge_head {
        let line = "Merge in progress with "@ + short(id) + "\n"@;
        let first = match status.head_target {
            Some(target) => "HEAD: "@ + target + "\n"@,
            None => "No commits yet\n"@,
        };
        lemma_says_itself(line);
        lemma_says_through(status_report(status), first, line, line);
    }
}

/// A status begins with the branch, or with the commit where none is checked out.
pub proof fn law_status_begins_with_the_branch(status: RepoStatusView)
    ensures
        status.head matches Head::Branch { name } ==> has_prefix(
            status_report(status),
            "On branch "@ + name + "\n"@,
        ),
        status.head matches Head::Detached { commit } ==> has_prefix(
            status_report(status),
            "HEAD detached at "@ + commit + "\n"@,
        ),
{
    let p = match status.head {
        Head::Branch { name } => "On branch "@ + name + "\n"@,
        Head::Detached { commit } => "HEAD detached at "@ + commit + "\n"@,
    };
    let up = match status.upstream {
        Some(up) => "Tracking: "@ + up.remote + "/"@ + up.branch + "\n"@,
        None => Seq::empty(),
    };
    lemma_prefix_of(p, up, p);
    let t0 = head_text(status.head, status.upstream);
    assert(t0 == p + up);
    lemma_prefix_of(t0, "Repository: "@, p);
    let t1 = t0 + "Repository: "@;
    lemma_prefix_of(t1, status.worktree, p);
    let t2 = t1 + status.worktree;
    lemma_prefix_of(t2, "\nFormat: v"@, p);
    let t3 = t2 + "\nFormat: v"@;
    let version = decimal(status.repository_format_version as nat);
    lemma_prefix_of(t3, version, p);
    let t4 = t3 + version;
    lemma_prefix_of(t4, "\n"@, p);
    let t5 = t4 + "\n"@;
    let commits = crate::report::commits_text(status.head_target, status.merge_head);
    lemma_prefix_of(t5, commits, p);
    let unmerged = crate::report::path_section("Unmerged paths:\n"@, status.conflicted);
    lemma_prefix_of(t5 + commits, unmerged, p);
    let staged = crate::report::path_section("Changes to be committed:\n"@, status.staged);
    lemma_prefix_of(t5 + commits + unmerged, staged, p);
    let unstaged = unstaged_text(status);
    lemma_prefix_of(t5 + commits + unmerged + staged, unstaged, p);
    let clean = if is_clean(status) {
        "Worktree clean.\n"@
    } else {
        Seq::empty()
    };
    lemma_prefix_of(t5 + commits + unmerged + staged + unstaged, clean, p);
}

/// What a text begins with, it begins with however it goes on.
proof fn lemma_prefix_of(a: Seq<char>, b: Seq<char>, p: Seq<char>)
    requires
        p == a || has_prefix(a, p),
    ensures
        has_prefix(a + b, p),
{
    assert((a + b).take(p.len() as int) =~= a.take(p.len() as int));
    assert(a.take(a.len() as int) =~= a);
}

/// Every text is said in itself.
proof fn lemma_says_itself(a: Seq<char>)
    ensures
        says(a, a),
{
    assert(a.subrange(0, a.len() as int) =~= a);
    assert(occurs_at(a, a, 0));
}

/// The end of a text that is put together of parts.
proof fn lemma_ends_with(x: Seq<char>, a: Seq<char>, b: Seq<char>, c: Seq<char>)
    ensures
        has_suffix(x + a + b + c, a + b + c),
{
    let text = x + a + b + c;
    let tail = a + b + c;
    assert(text.skip(text.len() - tail.len()) =~= tail);
}

/// The parts of a text are said in it, and the last is its end.
proof fn lemma_six_parts(
    a: Seq<char>,
    b: Seq<char>,
    c: Seq<char>,
    d: Seq<char>,
    e: Seq<char>,
    f: Seq<char>,
)
    ensures
        says(a + b + c + d + e + f, b),
        says(a + b + c + d + e + f, c),
        says(a + b + c + d + e + f, d),
        says(a + b + c + d + e + f, e),
        has_suffix(a + b + c + d + e + f, f),
{
    let text = a + b + c + d + e + f;
    lemma_says(a, b, c + d + e + f);
    assert(a + b + (c + d + e + f) =~= text);
    lemma_says(a + b, c, d + e + f);
    assert(a + b + c + (d + e + f) =~= text);
    lemma_says(a + b + c, d, e + f);
    assert(a + b + c + d + (e + f) =~= text);
    lemma_says(a + b + c + d, e, f);
    assert(text.skip(text.len() - f.len()) =~= f);
}

/// Every path in conflict and every staged path is said, on a line of its own; every change that is
/// not staged is said with what it is.
pub proof fn law_status_says_every_path(status: RepoStatusView, i: int)
    ensures
        0 <= i < status.conflicted.len() ==> says(
            status_report(status),
            "  "@ + status.conflicted[i] + "\n"@,
        ) && says(conflicts_report(status), "  "@ + status.conflicted[i] + "\n"@),
        0 <= i < status.staged.len() ==> says(
            status_report(status),
            "  "@ + status.staged[i] + "\n"@,
        ),
        0 <= i < status.unstaged_changes.len() ==> says(
            status_report(status),
            "  "@ + worktree_change_name(status.unstaged_changes[i].change) + ": "@
                + status.unstaged_changes[i].path + "\n"@,
        ),
        status.conflicted.len() == 0 ==> conflicts_report(status) == "No conflicts.\n"@,
{
    law_status_says_what_it_holds(status);
    if 0 <= i < status.conflicted.len() {
        let line = "  "@ + status.conflicted[i] + "\n"@;
        let list = indented_path_texts(status.conflicted);
        lemma_indented_paths(status.conflicted, i);
        lemma_says_through(status_report(status), "Unmerged paths:\n"@, list, line);
        let title = "Unmerged paths:\n"@;
        let report = conflicts_report(status);
        let rest = report.skip((title + list).len() as int);
        assert(report =~= title + list + rest);
        lemma_says_within(title, list, rest, line);
    }
    if 0 <= i < status.staged.len() {
        let line = "  "@ + status.staged[i] + "\n"@;
        lemma_indented_paths(status.staged, i);
        lemma_says_through(
            status_report(status),
            "Changes to be committed:\n"@,
            indented_path_texts(status.staged),
            line,
        );
    }
    if 0 <= i < status.unstaged_changes.len() {
        let e = status.unstaged_changes[i];
        let line = "  "@ + worktree_change_name(e.change) + ": "@ + e.path + "\n"@;
        lemma_worktree_changes(status.unstaged_changes, i);
        lemma_says_through(
            status_report(status),
            "Changes not staged for commit.\n  (use 'pragma graft_add' to stage)\n"@,
            worktree_change_texts(status.unstaged_changes),
            line,
        );
    }
}

/// What is said in a section is said in a text that has the section.
proof fn lemma_says_through(text: Seq<char>, title: Seq<char>, list: Seq<char>, line: Seq<char>)
    requires
        says(text, title + list),
        says(list, line),
    ensures
        says(text, line),
{
    lemma_says_within(title, list, Seq::empty(), line);
    let section = title + list;
    assert(title + list + Seq::empty() =~= section);
    let i = choose|i: int| #[trigger] occurs_at(text, section, i);
    let a = text.take(i);
    let b = text.skip(i + section.len());
    assert(text =~= a + section + b);
    lemma_says_within(a, section, b, line);
}

/// A changed database is said with its change and its path, and with the pages of each side behind the
/// name of that side.
pub proof fn law_diff_says_both_sides(e: RepoFileDiffView)
    ensures
        has_prefix(file_diff_text(e), file_change_name(e.change) + ": "@ + e.path + "\n"@),
        e.from matches Some(x) ==> says(
            file_diff_text(e),
            "  from: "@ + decimal(x.snapshot.page_count as nat) + " page(s), "@,
        ),
        e.to matches Some(x) ==> says(
            file_diff_text(e),
            "  to:   "@ + decimal(x.snapshot.page_count as nat) + " page(s), "@,
        ),
        e.to is None && e.worktree is Some ==> says(
            file_diff_text(e),
            "  to:   "@ + decimal(e.worktree->0 as nat) + " page(s), physical worktree\n"@,
        ),
{
    let text = file_diff_text(e);
    let start = file_change_name(e.change) + ": "@ + e.path + "\n"@;
    let from = crate::report::file_side_text("  from: "@, e.from);
    let to = crate::report::file_side_text("  to:   "@, e.to);
    let physical = crate::report::physical_side_text(e);
    assert(text == start + from + to + physical);
    assert(text.take(start.len() as int) =~= start);
    if let Some(x) = e.from {
        let part = "  from: "@ + decimal(x.snapshot.page_count as nat) + " page(s), "@;
        let rest = from.skip(part.len() as int);
        assert(from =~= part + rest);
        lemma_says(start, part, rest + to + physical);
        assert(start + part + (rest + to + physical) =~= text);
    }
    if let Some(x) = e.to {
        let part = "  to:   "@ + decimal(x.snapshot.page_count as nat) + " page(s), "@;
        let rest = to.skip(part.len() as int);
        assert(to =~= part + rest);
        lemma_says(start + from, part, rest + physical);
        assert((start + from) + part + (rest + physical) =~= text);
    }
    if e.to is None && e.worktree is Some {
        lemma_says(start + from + to, physical, Seq::empty());
        assert(start + from + to + physical + Seq::empty() =~= text);
    }
}

/// A diff begins with where it leads from and to, says every changed database, and says where there
/// are no changes.
pub proof fn law_diff_says_every_change(diff: RepoDiffView, i: int)
    ensures
        has_prefix(diff_report(diff), "Diff "@ + short(diff.from) + ".."@ + short(diff.to) + "\n"@),
        diff.files.len() == 0 && diff.artifacts.len() == 0 ==> has_suffix(
            diff_report(diff),
            "No changes.\n"@,
        ),
        0 <= i < diff.files.len() ==> says(diff_report(diff), file_diff_text(diff.files[i])),
        0 <= i < diff.artifacts.len() ==> says(
            diff_report(diff),
            file_change_name(diff.artifacts[i].change) + ": "@ + diff.artifacts[i].path + "\n"@,
        ),
{
    let start = "Diff "@ + short(diff.from) + ".."@ + short(diff.to) + "\n"@;
    let report = diff_report(diff);
    assert(report.take(start.len() as int) =~= start);
    let files = file_diff_texts(diff.files);
    let artifacts = crate::report::artifact_diff_texts(diff.artifacts);
    if diff.files.len() == 0 && diff.artifacts.len() == 0 {
        assert(report.skip(report.len() - "No changes.\n"@.len()) =~= "No changes.\n"@);
    } else {
        assert(report =~= start + files + artifacts);
        assert(report =~= (start + files) + artifacts + Seq::empty());
    }
    if 0 <= i < diff.files.len() {
        lemma_file_diffs(diff.files, i);
        lemma_says_within(start, files, artifacts, file_diff_text(diff.files[i]));
    }
    if 0 <= i < diff.artifacts.len() {
        lemma_artifact_diffs(diff.artifacts, i);
        lemma_says_within(
            start + files,
            artifacts,
            Seq::empty(),
            file_change_name(diff.artifacts[i].change) + ": "@ + diff.artifacts[i].path + "\n"@,
        );
    }
}

proof fn lemma_file_diffs(es: Seq<RepoFileDiffView>, i: int)
    requires
        0 <= i < es.len(),
    ensures
        says(file_diff_texts(es), file_diff_text(es[i])),
    decreases es.len(),
{
    let was = file_diff_texts(es.drop_last());
    let now = file_diff_texts(es);
    let line = file_diff_text(es[i]);
    if i == es.len() - 1 {
        lemma_says(was, line, Seq::empty());
        assert(was + line + Seq::empty() =~= now);
    } else {
        lemma_file_diffs(es.drop_last(), i);
        lemma_says_within(Seq::empty(), was, file_diff_text(es.last()), line);
        assert(Seq::empty() + was + file_diff_text(es.last()) =~= now);
    }
}

proof fn lemma_artifact_diffs(es: Seq<crate::report::RepoArtifactDiffView>, i: int)
    requires
        0 <= i < es.len(),
    ensures
        says(
            crate::report::artifact_diff_texts(es),
            file_change_name(es[i].change) + ": "@ + es[i].path + "\n"@,
        ),
    decreases es.len(),
{
    let was = crate::report::artifact_diff_texts(es.drop_last());
    let now = crate::report::artifact_diff_texts(es);
    let line = file_change_name(es[i].change) + ": "@ + es[i].path + "\n"@;
    let last = crate::report::artifact_diff_text(es.last());
    if i == es.len() - 1 {
        let rest = last.skip(line.len() as int);
        assert(last =~= line + rest);
        lemma_says(was, line, rest);
        assert(was + line + rest =~= now);
    } else {
        lemma_artifact_diffs(es.drop_last(), i);
        lemma_says_within(Seq::empty(), was, last, line);
        assert(Seq::empty() + was + last =~= now);
    }
}

/// A log says every commit, from the first to the last.
pub proof fn law_log_says_every_commit(commits: Seq<CommitObjectView>, more: Seq<CommitObjectView>)
    ensures
        log_entry_texts(commits + more) == log_entry_texts(commits) + log_entry_texts(more),
    decreases more.len(),
{
    if more.len() == 0 {
        assert(commits + more =~= commits);
        assert(log_entry_texts(commits) + Seq::<char>::empty() =~= log_entry_texts(commits));
    } else {
        let rest = more.drop_last();
        law_log_says_every_commit(commits, rest);
        assert((commits + more).drop_last() =~= commits + rest);
        let (a, b, c) = (
            log_entry_texts(commits),
            log_entry_texts(rest),
            log_entry_text(more.last()),
        );
        assert(a + (b + c) =~= a + b + c);
    }
}

/// A commit is said in a log with its id first and its message last.
pub proof fn law_log_says_a_commit(e: CommitObjectView)
    ensures
        log_entry_texts(seq![e]) == log_entry_text(e),
        has_prefix(log_entry_text(e), "commit "@ + e.id + "\n"@),
        has_suffix(log_entry_text(e), "\n\n    "@ + e.message + "\n\n"@),
        e.parent matches Some(p) ==> says(log_entry_text(e), "parent "@ + p + "\n"@),
{
    assert(seq![e].drop_last() =~= Seq::<CommitObjectView>::empty());
    assert(log_entry_texts(Seq::<CommitObjectView>::empty()) == Seq::<char>::empty());
    let text = log_entry_text(e);
    assert(Seq::<char>::empty() + text =~= text);
    let id = "commit "@ + e.id + "\n"@;
    let parent = crate::report::option_line("parent "@, e.parent);
    let time = crate::time::shown_time(e.timestamp_ms as int);
    lemma_prefix_of(id, parent, id);
    lemma_prefix_of(id + parent, "date "@, id);
    lemma_prefix_of(id + parent + "date "@, time, id);
    let x = id + parent + "date "@ + time;
    lemma_prefix_of(x, "\n\n    "@, id);
    lemma_prefix_of(x + "\n\n    "@, e.message, id);
    lemma_prefix_of(x + "\n\n    "@ + e.message, "\n\n"@, id);
    lemma_ends_with(x, "\n\n    "@, e.message, "\n\n"@);
    if let Some(p) = e.parent {
        lemma_six_parts(
            id,
            parent,
            "date "@,
            time,
            "\n\n    "@,
            e.message,
        );
        lemma_says_more(x + "\n\n    "@ + e.message, "\n\n"@, parent);
    }
}

/// What a text says, it says however it goes on.
proof fn lemma_says_more(a: Seq<char>, b: Seq<char>, part: Seq<char>)
    requires
        says(a, part),
    ensures
        says(a + b, part),
{
    lemma_says_within(Seq::empty(), a, b, part);
    assert(Seq::empty() + a + b =~= a + b);
}

/// A commit is said with its parents, its message and its id.
pub proof fn law_commit_says_its_parents(commit: CommitObjectView, i: int)
    ensures
        has_prefix(commit_report(commit), "commit "@ + commit.id + "\n"@),
        0 <= i < commit.parents.len() ==> says(
            parents_text(commit),
            "parent "@ + commit.parents[i] + "\n"@,
        ),
        commit.parents.len() == 0 && commit.parent is Some ==> parents_text(commit) == "parent "@
            + commit.parent->0 + "\n"@,
        commit.parents.len() == 0 && commit.parent is None ==> parents_text(commit).len() == 0,
{
    let text = commit_report(commit);
    let p = "commit "@ + commit.id + "\n"@;
    assert(text.take(p.len() as int) =~= p);
    if 0 <= i < commit.parents.len() {
        lemma_parents(commit.parents, i);
    }
}

proof fn lemma_parents(es: Seq<Seq<char>>, i: int)
    requires
        0 <= i < es.len(),
    ensures
        says(crate::report::parent_texts(es), "parent "@ + es[i] + "\n"@),
    decreases es.len(),
{
    let was = crate::report::parent_texts(es.drop_last());
    let now = crate::report::parent_texts(es);
    let line = "parent "@ + es[i] + "\n"@;
    let last = crate::report::parent_text(es.last());
    if i == es.len() - 1 {
        lemma_says(was, line, Seq::empty());
        assert(was + line + Seq::empty() =~= now);
    } else {
        lemma_parents(es.drop_last(), i);
        lemma_says_within(Seq::empty(), was, last, line);
        assert(Seq::empty() + was + last =~= now);
    }
}

/// The branch that is checked out, and no other, is marked; a branch is said with its upstream.
pub proof fn law_branches_are_marked(e: BranchInfoView)
    ensures
        branch_line_text(e).len() > 0,
        branch_line_text(e)[0] == '*' <==> e.current,
        e.upstream matches Some(up) ==> has_suffix(
            branch_line_text(e),
            " ["@ + up.remote + "/"@ + up.branch + "]"@ + "\n"@,
        ),
        e.upstream matches Some(up) ==> branch_upstream_report(e) == "Branch '"@ + e.name
            + "' set to track "@ + up.remote + "/"@ + up.branch,
{
    reveal_strlit("*");
    reveal_strlit(" ");
    let text = branch_line_text(e);
    assert(text[0] == (if e.current {
        "*"@
    } else {
        " "@
    })[0]);
    if let Some(up) = e.upstream {
        let tail = " ["@ + up.remote + "/"@ + up.branch + "]"@ + "\n"@;
        assert(text.skip(text.len() - tail.len()) =~= tail);
    }
}

/// A renamed branch is said with its old name first.
pub proof fn law_renames_say_old_and_new(old_name: Seq<char>, e: BranchInfoView, force: bool)
    ensures
        e.target is Some ==> has_prefix(
            branch_renamed_report(old_name, e, force),
            "Renamed branch '"@ + old_name + "' to '"@ + e.name + "'"@,
        ),
        e.target is None ==> has_prefix(
            branch_renamed_report(old_name, e, force),
            "Renamed unborn branch '"@ + old_name + "' to '"@ + e.name + "'"@,
        ),
{
    let text = branch_renamed_report(old_name, e, force);
    if e.target is Some {
        let p = "Renamed branch '"@ + old_name + "' to '"@ + e.name + "'"@;
        assert(text.take(p.len() as int) =~= p);
    } else {
        let p = "Renamed unborn branch '"@ + old_name + "' to '"@ + e.name + "'"@;
        assert(text.take(p.len() as int) =~= p);
    }
}

/// A merge says where the branch moved from and to, or what was merged, with the staged paths and those
/// in conflict each under its heading.
pub proof fn law_merge_says_what_it_did(outcome: MergeOutcomeView)
    ensures
        outcome matches MergeOutcome::FastForward { from: Some(from), to } ==> merge_report(outcome)
            == "Fast-forward "@ + short(from) + ".."@ + short(to) + "\n"@,
        outcome matches MergeOutcome::AlreadyUpToDate { head } ==> merge_report(outcome)
            == "Already up to date at "@ + short(head) + "\n"@,
        outcome matches MergeOutcome::Merged { target, staged, conflicted, .. } ==> {
            &&& has_prefix(merge_report(outcome), "Merged "@ + short(target) + "\n"@)
            &&& staged.len() > 0 ==> says(
                merge_report(outcome),
                "Staged paths:\n"@ + crate::report_sync::merge_path_texts(staged),
            )
            &&& conflicted.len() > 0 ==> says(
                merge_report(outcome),
                "Unmerged paths:\n"@ + crate::report_sync::merge_path_texts(conflicted),
            )
            &&& staged.len() == 0 && conflicted.len() == 0 ==> has_suffix(
                merge_report(outcome),
                "No changes.\n"@,
            )
        },
{
    if let MergeOutcome::Merged { head, target, merge_base, staged, conflicted } = outcome {
        let report = merge_report(outcome);
        let top = "Merged "@ + short(target) + "\n"@;
        let base = crate::report_sync::merge_base_text(merge_base);
        let s = merge_section("Staged paths:\n"@, staged);
        let c = merge_section("Unmerged paths:\n"@, conflicted);
        let end = if staged.len() == 0 && conflicted.len() == 0 {
            "No changes.\n"@
        } else {
            Seq::empty()
        };
        assert(report == top + base + s + c + end);
        assert(report.take(top.len() as int) =~= top);
        assert(report =~= (top + base) + s + (c + end));
        lemma_says(top + base, s, c + end);
        lemma_says(top + base + s, c, end);
        if staged.len() == 0 && conflicted.len() == 0 {
            assert(report.skip(report.len() - end.len()) =~= end);
        }
    }
}

/// A pull says what was fetched, from where, and into which branch it went; and that a commit
/// completes the merge exactly where it has no conflict.
pub proof fn law_pull_says_what_it_did(outcome: PullOutcomeView)
    ensures
        has_prefix(
            pull_report(outcome),
            "Fetched "@ + outcome.remote + "/"@ + outcome.remote_branch + " at "@ + short(
                outcome.head,
            ) + " ("@ + decimal(outcome.commits as nat) + " new commits)\n"@,
        ),
        outcome.merge matches MergeOutcome::FastForward { from: Some(from), to } ==> has_suffix(
            pull_report(outcome),
            "Fast-forwarded "@ + outcome.local_branch + " "@ + short(from) + ".."@ + short(to)
                + "\n"@,
        ),
        outcome.merge matches MergeOutcome::Merged { target, conflicted, .. } ==> says(
            pull_report(outcome),
            "Merged "@ + outcome.remote + "/"@ + outcome.remote_branch + " ("@ + short(target)
                + ") into "@ + outcome.local_branch + "\n"@,
        ) && (conflicted.len() == 0 ==> has_suffix(
            pull_report(outcome),
            "Commit to complete the merge.\n"@,
        )),
{
    let report = pull_report(outcome);
    let top = "Fetched "@ + outcome.remote + "/"@ + outcome.remote_branch + " at "@ + short(
        outcome.head,
    ) + " ("@ + decimal(outcome.commits as nat) + " new commits)\n"@;
    let rest = crate::report_sync::pulled_text(outcome);
    assert(report == top + rest);
    assert(report.take(top.len() as int) =~= top);
    assert(report.skip(report.len() - rest.len()) =~= rest);
    if let MergeOutcome::Merged { head, target, merge_base, staged, conflicted } = outcome.merge {
        let line = "Merged "@ + outcome.remote + "/"@ + outcome.remote_branch + " ("@ + short(target)
            + ") into "@ + outcome.local_branch + "\n"@;
        let after = rest.skip(line.len() as int);
        assert(rest =~= line + after);
        lemma_says(top, line, after);
        assert(top + line + after =~= report);
        if conflicted.len() == 0 {
            let end = "Commit to complete the merge.\n"@;
            assert(report.skip(report.len() - end.len()) =~= end);
        }
    }
}

/// The commits of several branches are added up, and a push counts as forced where one of them is.
pub proof fn law_branches_add_up(
    fetched: Seq<FetchOutcomeView>,
    f: FetchOutcomeView,
    pushed: Seq<PushOutcomeView>,
    p: PushOutcomeView,
)
    ensures
        fetch_commits(fetched.push(f)) == fetch_commits(fetched) + f.commits,
        push_commits(pushed.push(p)) == push_commits(pushed) + p.commits,
        fetch_commits(Seq::empty()) == 0,
        push_commits(Seq::empty()) == 0,
        any_forced(pushed.push(p)) <==> any_forced(pushed) || p.forced,
{
    assert(fetched.push(f).drop_last() =~= fetched);
    assert(pushed.push(p).drop_last() =~= pushed);
    if any_forced(pushed) {
        let i = choose|i: int| 0 <= i < pushed.len() && (#[trigger] pushed[i]).forced;
        assert(pushed.push(p)[i] == pushed[i]);
    }
    if p.forced {
        assert(pushed.push(p)[pushed.len() as int] == p);
    }
    if any_forced(pushed.push(p)) {
        let all = pushed.push(p);
        let i = choose|i: int| 0 <= i < all.len() && (#[trigger] all[i]).forced;
        if i < pushed.len() {
            assert(pushed[i] == all[i]);
        }
    }
}

/// A push of a branch says whether it was forced, and where it went; a fetch where it came from.
pub proof fn law_one_branch_is_said(p: PushOutcomeView, f: FetchOutcomeView)
    ensures
        p.forced ==> has_prefix(
            push_report(PushCommandOutcome::One(p)),
            "Force-pushed"@ + " "@ + p.remote + "/"@ + p.remote_branch + " to "@ + short(p.head),
        ),
        !p.forced ==> has_prefix(
            push_report(PushCommandOutcome::One(p)),
            "Pushed"@ + " "@ + p.remote + "/"@ + p.remote_branch + " to "@ + short(p.head),
        ),
        has_prefix(
            fetch_report(FetchCommandOutcome::One(f)),
            "Fetched "@ + f.remote + "/"@ + f.branch + " at "@ + short(f.head),
        ),
{
    let pushed = push_report(PushCommandOutcome::One(p));
    let a = "Force-pushed"@ + " "@ + p.remote + "/"@ + p.remote_branch + " to "@ + short(p.head);
    let b = "Pushed"@ + " "@ + p.remote + "/"@ + p.remote_branch + " to "@ + short(p.head);
    if p.forced {
        assert(pushed.take(a.len() as int) =~= a);
    } else {
        assert(pushed.take(b.len() as int) =~= b);
    }
    let fetched = fetch_report(FetchCommandOutcome::One(f));
    let c = "Fetched "@ + f.remote + "/"@ + f.branch + " at "@ + short(f.head);
    assert(fetched.take(c.len() as int) =~= c);
}

/// A merge by rows says how many changes each side has, each behind its name.
pub proof fn law_row_merge_says_both_sides(e: RowAutoMergeResultView)
    ensures
        says(
            row_auto_merge_text(e),
            "  applied "@ + decimal(e.applied_changes as nat) + " row change(s) from theirs\n"@,
        ),
        says(row_auto_merge_text(e), "  ours: "@ + decimal(e.ours_changes as nat) + " row change(s)\n"@),
        says(
            row_auto_merge_text(e),
            "  theirs: "@ + decimal(e.theirs_changes as nat) + " row change(s)\n"@,
        ),
        has_prefix(row_auto_merge_text(e), "Row-level auto-merged "@ + e.key + ":\n"@),
{
    reveal_strlit(":\n  applied ");
    reveal_strlit(":\n");
    reveal_strlit("  applied ");
    reveal_strlit(" row change(s) from theirs\n  ours: ");
    reveal_strlit(" row change(s) from theirs\n");
    reveal_strlit("  ours: ");
    reveal_strlit(" row change(s)\n  theirs: ");
    reveal_strlit(" row change(s)\n");
    reveal_strlit("  theirs: ");
    let text = row_auto_merge_text(e);
    let (n, o, t) = (
        decimal(e.applied_changes as nat),
        decimal(e.ours_changes as nat),
        decimal(e.theirs_changes as nat),
    );
    let top = "Row-level auto-merged "@ + e.key + ":\n"@;
    let a = "  applied "@ + n + " row change(s) from theirs\n"@;
    let b = "  ours: "@ + o + " row change(s)\n"@;
    let c = "  theirs: "@ + t + " row change(s)\n"@;
    assert(":\n  applied "@ =~= ":\n"@ + "  applied "@);
    assert(" row change(s) from theirs\n  ours: "@ =~= " row change(s) from theirs\n"@ + "  ours: "@);
    assert(" row change(s)\n  theirs: "@ =~= " row change(s)\n"@ + "  theirs: "@);
    assert(text =~= top + a + b + c);
    assert(text =~= top + a + (b + c));
    assert(text =~= (top + a) + b + c);
    assert(text =~= (top + a + b) + c + Seq::empty());
    lemma_says(top, a, b + c);
    lemma_says(top + a, b, c);
    lemma_says(top + a + b, c, Seq::empty());
    assert(text.take(top.len() as int) =~= top);
}

/// A listing of a remote begins with the commit of its own branch, where it has that branch.
pub proof fn law_remote_head_is_said(
    remote: Seq<char>,
    refs: Seq<RemoteBranchRefView>,
    i: int,
)
    requires
        0 <= i < refs.len(),
        forall|j: int| #![trigger refs[j]] 0 <= j < i ==> refs[j].branch != refs[i].branch,
    ensures
        has_prefix(
            ls_remote_report(remote, Some(refs[i].branch), refs),
            refs[i].head + "\tHEAD\n"@,
        ),
{
    lemma_ref_of(refs, i, 0);
    let p = refs[i].head + "\tHEAD\n"@;
    let text = ls_remote_report(remote, Some(refs[i].branch), refs);
    assert(Seq::<char>::empty() + refs[i].head =~= refs[i].head);
    assert(text.take(p.len() as int) =~= p);
}

proof fn lemma_ref_of(refs: Seq<RemoteBranchRefView>, i: int, at: int)
    requires
        0 <= at <= i < refs.len(),
        forall|j: int| #![trigger refs[j]] 0 <= j < i ==> refs[j].branch != refs[i].branch,
    ensures
        ref_of(refs, refs[i].branch, at) == Some(refs[i]),
    decreases i - at,
{
    if at < i {
        lemma_ref_of(refs, i, at + 1);
    }
}

/// What would be pruned is only said to be; what was pruned is said with what it came to.
pub proof fn law_prunes_say_what_was_done(outcome: RepoLargeFilePruneOutcomeView)
    ensures
        outcome.candidate_payloads == 0 ==> has_prefix(
            large_file_prune_report(outcome),
            "No unreferenced external payloads.\n"@,
        ),
        outcome.candidate_payloads > 0 && outcome.dry_run ==> has_prefix(
            large_file_prune_report(outcome),
            "Would prune "@ + decimal(outcome.candidate_payloads as nat) + " external payload(s), "@
                + decimal(outcome.candidate_bytes as nat) + " byte(s).\n"@,
        ),
        outcome.candidate_payloads > 0 && !outcome.dry_run ==> has_prefix(
            large_file_prune_report(outcome),
            "Pruned "@ + decimal(outcome.pruned_payloads as nat) + " external payload(s), "@ + decimal(
                outcome.pruned_bytes as nat,
            ) + " byte(s).\n"@,
        ),
{
    let text = large_file_prune_report(outcome);
    let a = "No unreferenced external payloads.\n"@;
    let b = "Would prune "@ + decimal(outcome.candidate_payloads as nat) + " external payload(s), "@
        + decimal(outcome.candidate_bytes as nat) + " byte(s).\n"@;
    let c = "Pruned "@ + decimal(outcome.pruned_payloads as nat) + " external payload(s), "@ + decimal(
        outcome.pruned_bytes as nat,
    ) + " byte(s).\n"@;
    if outcome.candidate_payloads == 0 {
        assert(text.take(a.len() as int) =~= a);
    } else if outcome.dry_run {
        assert(text.take(b.len() as int) =~= b);
    } else {
        assert(text.take(c.len() as int) =~= c);
    }
}

/// A row in conflict is said with what each side did, each behind its name.
pub proof fn law_row_conflicts_say_both_sides(c: RowConflictDetailView)
    ensures
        has_suffix(
            row_conflict_text(c),
            " (ours "@ + row_change_name(c.ours) + ", theirs "@ + row_change_name(c.theirs) + ")\n"@,
        ),
        has_prefix(row_conflict_text(c), "    "@ + c.table + " "@),
{
    let text = row_conflict_text(c);
    let tail = " (ours "@ + row_change_name(c.ours) + ", theirs "@ + row_change_name(c.theirs)
        + ")\n"@;
    assert(text.skip(text.len() - tail.len()) =~= tail);
    let p = "    "@ + c.table + " "@;
    assert(text.take(p.len() as int) =~= p);
}

/// An analysis says how many changes each side has, each behind its name.
pub proof fn law_analysis_says_both_sides(key: Seq<char>, plan: RowMergePlanView)
    ensures
        has_prefix(analysis_report(key, true, plan), "Row-level analysis for "@ + key + ":\n"@),
        has_prefix(
            plan_text(plan),
            "  ours: "@ + decimal(plan.ours_changes as nat) + " row change(s)\n  theirs: "@ + decimal(
                plan.theirs_changes as nat,
            ) + " row change(s)\n"@,
        ),
        has_suffix(analysis_report(key, true, plan), plan_text(plan)),
        has_suffix(
            analysis_report(key, false, plan),
            "  unavailable: merge involves add/delete of this tracked path.\n"@,
        ),
{
    let gone = "  unavailable: merge involves add/delete of this tracked path.\n"@;
    let other = analysis_report(key, false, plan);
    assert(other.skip(other.len() - gone.len()) =~= gone);
    let whole = analysis_report(key, true, plan);
    assert(whole.skip(whole.len() - plan_text(plan).len()) =~= plan_text(plan));
    let text = analysis_report(key, true, plan);
    let p = "Row-level analysis for "@ + key + ":\n"@;
    assert(text.take(p.len() as int) =~= p);
    let t = plan_text(plan);
    let q = "  ours: "@ + decimal(plan.ours_changes as nat) + " row change(s)\n  theirs: "@ + decimal(
        plan.theirs_changes as nat,
    ) + " row change(s)\n"@;
    assert(t.take(q.len() as int) =~= q);
}

/// A comparison of two files is said with the first before the second, and says where they are the
/// same.
pub proof fn law_file_diff_says_both_files(d: SqliteFileDiffView)
    ensures
        d.rows ==> has_prefix(
            file_diff_report(d),
            "Row Diff"@ + " --no-index "@ + d.from + ".."@ + d.to + "\n"@,
        ),
        !d.rows ==> has_prefix(
            file_diff_report(d),
            "Diff"@ + " --no-index "@ + d.from + ".."@ + d.to + "\n"@,
        ),
        !d.changed ==> has_suffix(file_diff_report(d), "No changes.\n"@),
        d.changed ==> says(
            file_diff_report(d),
            "modified: "@ + d.from + " -> "@ + d.to + "\n  from: "@ + decimal(
                d.from_page_count as nat,
            ) + " page(s), physical file\n  to:   "@ + decimal(d.to_page_count as nat)
                + " page(s), physical file\n"@,
        ),
{
    let text = file_diff_report(d);
    let p = "Row Diff"@ + " --no-index "@ + d.from + ".."@ + d.to + "\n"@;
    let q = "Diff"@ + " --no-index "@ + d.from + ".."@ + d.to + "\n"@;
    let top = if d.rows {
        p
    } else {
        q
    };
    assert(text.take(top.len() as int) =~= top);
    if d.changed {
        let body = crate::file_diff::changed_text(d);
        let part = "modified: "@ + d.from + " -> "@ + d.to + "\n  from: "@ + decimal(
            d.from_page_count as nat,
        ) + " page(s), physical file\n  to:   "@ + decimal(d.to_page_count as nat)
            + " page(s), physical file\n"@;
        let rest = body.skip(part.len() as int);
        assert(body =~= part + rest);
        assert(text =~= top + part + rest);
        lemma_says(top, part, rest);
    } else {
        let end = "No changes.\n"@;
        assert(text.skip(text.len() - end.len()) =~= end);
    }
}

/// A padded text begins with the text and goes on with blanks up to the width; one that is as wide
/// already stays as it is.
pub proof fn law_padding(s: Seq<char>, width: nat)
    ensures
        s.len() >= width ==> padded(s, width) == s,
        s.len() < width ==> padded(s, width).len() == width && padded(s, width).take(s.len() as int)
            == s && forall|i: int|
            s.len() <= i < width ==> #[trigger] padded(s, width)[i] == ' ',
        plural(1, s, s.push(' ')) == s,
    decreases width - s.len(),
{
    if s.len() < width {
        law_padding(s.push(' '), width);
        let p = padded(s, width);
        if s.len() + 1 < width {
            assert(p.take((s.len() + 1) as int) == s.push(' '));
            assert(p.take(s.len() as int) =~= p.take((s.len() + 1) as int).take(s.len() as int));
            assert(p.take((s.len() + 1) as int)[s.len() as int] == ' ');
            assert(s.push(' ').take(s.len() as int) =~= s);
        } else {
            assert(p == s.push(' '));
            assert(s.push(' ').take(s.len() as int) =~= s);
        }
    }
}

/// A listing of branches has the local ones, the remote ones or both, as it is asked for.
pub proof fn law_branches_that_are_listed(
    branches: Seq<BranchInfoView>,
    remotes: Seq<RemoteBranchRefView>,
)
    ensures
        branches.len() > 0 ==> branches_report(branches, remotes, BranchListMode::Local)
            == branch_line_texts(branches),
        remotes.len() > 0 ==> branches_report(branches, remotes, BranchListMode::Remote)
            == remote_branch_line_texts(remotes, false),
        branches.len() > 0 ==> branches_report(branches, remotes, BranchListMode::All)
            == branch_line_texts(branches) + remote_branch_line_texts(remotes, true),
        branches.len() == 0 && remotes.len() == 0 ==> branches_report(
            branches,
            remotes,
            BranchListMode::Local,
        ) == "No branches."@,
        remotes.len() == 0 ==> branches_report(branches, remotes, BranchListMode::Remote)
            == "No remote branches."@,
{
    assert(Seq::<char>::empty() + remote_branch_line_texts(remotes, false)
        =~= remote_branch_line_texts(remotes, false));
}

/// What was done to one path is said of that path; what was done to several is said with how many
/// they are, and with each.
pub proof fn law_paths_that_something_was_done_to(verb: Seq<char>, path: Seq<char>, paths: Seq<Seq<char>>)
    ensures
        done_to_paths(verb, seq![path]) == verb + " "@ + path,
        paths.len() != 1 ==> done_to_paths(verb, paths) == verb + " "@ + decimal(paths.len())
            + " paths"@ + listed_path_texts(paths),
        path_list(1, seq![path]) == path,
        paths.len() != 1 ==> path_list(paths.len(), paths) == decimal(paths.len()) + " paths"@
            + listed_path_texts(paths),
{
}

/// A checkout says the path and the commit that it comes from, or where the head is now.
pub proof fn law_checkout_says_where_from(
    path: Seq<char>,
    paths: Seq<Seq<char>>,
    target: Seq<char>,
)
    ensures
        checkout_report(Some(path), paths, target) == "Checked out "@ + path + " from "@ + short(
            target,
        ),
        paths.len() > 0 ==> checkout_report(None, paths, target) == "Checked out "@ + decimal(
            paths.len(),
        ) + " paths from "@ + short(target) + listed_path_texts(paths),
        paths.len() == 0 ==> checkout_report(None, paths, target) == "HEAD detached at "@ + short(
            target,
        ),
{
}

/// A push of several branches says whether one of them was forced, how many they are and how many
/// commits went with them.
pub proof fn law_many_pushed_branches_are_said(pushed: PushAllOutcomeView)
    ensures
        any_forced(pushed.branches) ==> has_prefix(
            push_report(PushCommandOutcome::Many(pushed)),
            "Force-pushed"@ + " "@ + pushed.remote + " ("@ + decimal(pushed.branches.len()) + " "@,
        ),
        !any_forced(pushed.branches) ==> has_prefix(
            push_report(PushCommandOutcome::Many(pushed)),
            "Pushed"@ + " "@ + pushed.remote + " ("@ + decimal(pushed.branches.len()) + " "@,
        ),
        says(
            push_report(PushCommandOutcome::Many(pushed)),
            ", "@ + decimal(push_commits(pushed.branches)) + " "@,
        ),
        has_suffix(
            push_report(PushCommandOutcome::Many(pushed)),
            pushed_branch_texts(pushed.branches),
        ),
{
    let a = push_report(PushCommandOutcome::Many(pushed));
    let verb = if any_forced(pushed.branches) {
        "Force-pushed"@
    } else {
        "Pushed"@
    };
    let top = verb + " "@ + pushed.remote + " ("@ + decimal(pushed.branches.len()) + " "@;
    let word = plural(pushed.branches.len(), "branch"@, "branchs"@);
    let part = ", "@ + decimal(push_commits(pushed.branches)) + " "@;
    let word2 = plural(push_commits(pushed.branches), "commit"@, "commits"@);
    let list = pushed_branch_texts(pushed.branches);
    lemma_five_parts(top, word, part, word2 + ")\n"@, list);
    assert(a =~= top + word + part + (word2 + ")\n"@) + list);
}

/// A text begins with its first part, says its third and ends with its last.
proof fn lemma_five_parts(a: Seq<char>, b: Seq<char>, c: Seq<char>, d: Seq<char>, e: Seq<char>)
    ensures
        has_prefix(a + b + c + d + e, a),
        says(a + b + c + d + e, c),
        has_suffix(a + b + c + d + e, e),
{
    let text = a + b + c + d + e;
    assert(text.take(a.len() as int) =~= a);
    assert(text.skip(text.len() - e.len()) =~= e);
    lemma_says(a + b, c, d + e);
    assert(a + b + c + (d + e) =~= text);
}

/// A fetch of several branches says how many they are and how many commits came with them.
pub proof fn law_many_fetched_branches_are_said(fetched: FetchAllOutcomeView)
    ensures
        has_prefix(
            fetch_report(FetchCommandOutcome::Many(fetched)),
            "Fetched "@ + fetched.remote + " ("@ + decimal(fetched.branches.len()) + " "@,
        ),
        says(
            fetch_report(FetchCommandOutcome::Many(fetched)),
            ", "@ + decimal(fetch_commits(fetched.branches)) + " new "@,
        ),
        has_suffix(
            fetch_report(FetchCommandOutcome::Many(fetched)),
            fetched_branch_texts(fetched.branches),
        ),
{
    let b = fetch_report(FetchCommandOutcome::Many(fetched));
    let top = "Fetched "@ + fetched.remote + " ("@ + decimal(fetched.branches.len()) + " "@;
    let word = plural(fetched.branches.len(), "branch"@, "branchs"@);
    let part = ", "@ + decimal(fetch_commits(fetched.branches)) + " new "@;
    let word2 = plural(fetch_commits(fetched.branches), "commit"@, "commits"@);
    let list = fetched_branch_texts(fetched.branches);
    lemma_five_parts(top, word, part, word2 + ")\n"@, list);
    assert(b =~= top + word + part + (word2 + ")\n"@) + list);
}

/// A pushed branch is said with its remote and its commit; one that was deleted is said to be, and one
/// that was forced is marked.
pub proof fn law_pushed_branch_is_said(p: PushOutcomeView)
    ensures
        p.deleted ==> pushed_branch_text(p) == "  Deleted "@ + p.remote + "/"@ + p.remote_branch
            + " (was "@ + short(p.head) + ")\n"@,
        !p.deleted && p.forced ==> has_prefix(
            pushed_branch_text(p),
            "  "@ + "+"@ + p.remote + "/"@ + p.remote_branch + " at "@ + short(p.head),
        ),
        !p.deleted && !p.forced ==> has_prefix(
            pushed_branch_text(p),
            "  "@ + p.remote + "/"@ + p.remote_branch + " at "@ + short(p.head),
        ),
{
    if !p.deleted {
        reveal_strlit("");
        let text = pushed_branch_text(p);
        let mark = if p.forced {
            "+"@
        } else {
            ""@
        };
        let start = "  "@ + mark + p.remote + "/"@ + p.remote_branch + " at "@ + short(p.head);
        assert(text.take(start.len() as int) =~= start);
        assert("  "@ + ""@ =~= "  "@);
    }
}

/// A repair says the issues before it and those after it, each as what they are.
pub proof fn law_repair_says_before_and_after(outcome: RepoArtifactRepairOutcomeView)
    ensures
        has_prefix(
            repair_report(outcome),
            "Repaired repository artifact payloads from "@ + outcome.remote + ".\nFetched objects: "@
                + decimal(outcome.fetched_objects as nat) + "\nFetched external payloads: "@ + decimal(
                outcome.fetched_external_payloads as nat,
            ) + "\nIssues before: "@ + decimal(outcome.before.issues.len()) + "\nIssues after: "@
                + decimal(outcome.after.issues.len()) + "\n"@,
        ),
{
    let text = repair_report(outcome);
    let p = "Repaired repository artifact payloads from "@ + outcome.remote + ".\nFetched objects: "@
        + decimal(outcome.fetched_objects as nat) + "\nFetched external payloads: "@ + decimal(
        outcome.fetched_external_payloads as nat,
    ) + "\nIssues before: "@ + decimal(outcome.before.issues.len()) + "\nIssues after: "@ + decimal(
        outcome.after.issues.len(),
    ) + "\n"@;
    assert(text.take(p.len() as int) =~= p);
}

/// An audit says that all is well exactly where it has no issues.
pub proof fn law_audit_says_whether_all_is_well(audit: RepoArtifactAuditView)
    ensures
        audit.issues.len() == 0 ==> has_prefix(
            audit_report(audit),
            "Repository artifact payloads OK.\n"@,
        ),
        audit.issues.len() > 0 ==> has_prefix(
            audit_report(audit),
            "Repository artifact payload issues:\n"@ + issue_line_texts(audit.issues),
        ),
        has_suffix(
            audit_report(audit),
            "Artifacts: "@ + decimal(audit.artifacts as nat) + "\nExternal payloads: "@ + decimal(
                audit.external_payloads as nat,
            ) + "\n"@,
        ),
{
    let text = audit_report(audit);
    let tail = "Artifacts: "@ + decimal(audit.artifacts as nat) + "\nExternal payloads: "@ + decimal(
        audit.external_payloads as nat,
    ) + "\n"@;
    assert(text.skip(text.len() - tail.len()) =~= tail);
    if audit.issues.len() == 0 {
        let p = "Repository artifact payloads OK.\n"@;
        assert(text.take(p.len() as int) =~= p);
    } else {
        let p = "Repository artifact payload issues:\n"@ + issue_line_texts(audit.issues);
        assert(text.take(p.len() as int) =~= p);
    }
}

/// The status of payloads says how many are present, missing and invalid, each as what they are.
pub proof fn law_payload_status_says_its_counts(outcome: RepoLargeFileStatusOutcomeView)
    ensures
        outcome.external_payloads > 0 ==> has_prefix(
            large_file_status_report(outcome),
            "External payloads for "@ + outcome.target + ": "@ + decimal(
                outcome.present_payloads as nat,
            ) + " present, "@ + decimal(outcome.missing_payloads as nat) + " missing, "@ + decimal(
                outcome.invalid_payloads as nat,
            ) + " invalid.\n"@,
        ),
        says(
            large_file_status_report(outcome),
            "\nPresent bytes: "@ + decimal(outcome.present_bytes as nat) + "\nMissing bytes: "@
                + decimal(outcome.missing_bytes as nat) + "\nInvalid bytes: "@ + decimal(
                outcome.invalid_bytes as nat,
            ) + "\n"@,
        ),
{
    let text = large_file_status_report(outcome);
    let first = if outcome.external_payloads == 0 {
        "No external payloads referenced by "@ + outcome.target + ".\n"@
    } else {
        "External payloads for "@ + outcome.target + ": "@ + decimal(outcome.present_payloads as nat)
            + " present, "@ + decimal(outcome.missing_payloads as nat) + " missing, "@ + decimal(
            outcome.invalid_payloads as nat,
        ) + " invalid.\n"@
    };
    assert(text.take(first.len() as int) =~= first);
    let count = "External payloads: "@ + decimal(outcome.external_payloads as nat);
    let part = "\nPresent bytes: "@ + decimal(outcome.present_bytes as nat) + "\nMissing bytes: "@
        + decimal(outcome.missing_bytes as nat) + "\nInvalid bytes: "@ + decimal(
        outcome.invalid_bytes as nat,
    ) + "\n"@;
    let rest = text.skip((first + count + part).len() as int);
    assert(text =~= (first + count) + part + rest);
    lemma_says(first + count, part, rest);
}

/// A collection of storage that is only shown says what it would drop; one that was made says what it
/// dropped; and either says what is kept.
pub proof fn law_collection_says_what_was_done(o: StorageGcOutcome)
    ensures
        o.candidate_volumes + o.candidate_commits + o.candidate_segments + o.candidate_pages > 0
            && o.dry_run ==> has_prefix(
            storage_gc_report(o),
            "Would prune "@ + decimal(o.candidate_volumes as nat) + " volume(s), "@ + decimal(
                o.candidate_commits as nat,
            ) + " commit(s), "@ + decimal(o.candidate_segments as nat) + " segment(s), and "@
                + decimal(o.candidate_pages as nat) + " page(s)"@,
        ),
        o.candidate_volumes + o.candidate_commits + o.candidate_segments + o.candidate_pages > 0
            && !o.dry_run ==> has_prefix(
            storage_gc_report(o),
            "Pruned "@ + decimal(o.pruned_volumes as nat) + " volume(s), "@ + decimal(
                o.pruned_commits as nat,
            ) + " commit(s), "@ + decimal(o.pruned_segments as nat) + " segment(s), and "@ + decimal(
                o.pruned_pages as nat,
            ) + " page(s)"@,
        ),
        o.candidate_volumes + o.candidate_commits + o.candidate_segments + o.candidate_pages == 0
            ==> has_prefix(storage_gc_report(o), "No unreachable SQLite storage records.\n"@),
        has_suffix(
            storage_gc_report(o),
            "Retained "@ + decimal(o.retained_volumes as nat) + " volume(s), "@ + decimal(
                o.retained_commits as nat,
            ) + " commit(s), "@ + decimal(o.retained_segments as nat) + " segment(s), and "@ + decimal(
                o.retained_pages as nat,
            ) + " page(s)"@ + ".\n"@,
        ),
{
    let text = storage_gc_report(o);
    let tail = "Retained "@ + decimal(o.retained_volumes as nat) + " volume(s), "@ + decimal(
        o.retained_commits as nat,
    ) + " commit(s), "@ + decimal(o.retained_segments as nat) + " segment(s), and "@ + decimal(
        o.retained_pages as nat,
    ) + " page(s)"@ + ".\n"@;
    assert(text.skip(text.len() - tail.len()) =~= tail);
    if o.candidate_volumes + o.candidate_commits + o.candidate_segments + o.candidate_pages == 0 {
        let p = "No unreachable SQLite storage records.\n"@;
        assert(text.take(p.len() as int) =~= p);
    } else if o.dry_run {
        let p = "Would prune "@ + decimal(o.candidate_volumes as nat) + " volume(s), "@ + decimal(
            o.candidate_commits as nat,
        ) + " commit(s), "@ + decimal(o.candidate_segments as nat) + " segment(s), and "@ + decimal(
            o.candidate_pages as nat,
        ) + " page(s)"@;
        assert(text.take(p.len() as int) =~= p);
    } else {
        let p = "Pruned "@ + decimal(o.pruned_volumes as nat) + " volume(s), "@ + decimal(
            o.pruned_commits as nat,
        ) + " commit(s), "@ + decimal(o.pruned_segments as nat) + " segment(s), and "@ + decimal(
            o.pruned_pages as nat,
        ) + " page(s)"@;
        assert(text.take(p.len() as int) =~= p);
    }
}

/// A tag is said with its name and the commit that it names; an annotated one with its object as well.
pub proof fn law_tags_are_said(tag: TagInfoView)
    ensures
        !tag.annotated ==> tag_created_report(tag) == "Created tag '"@ + tag.name + "' at "@ + short(
            tag.target,
        ),
        tag.annotated ==> tag_created_report(tag) == "Created annotated tag '"@ + tag.name + "' at "@
            + short(tag.target) + " ("@ + short(tag.object) + ")"@,
        !tag.annotated ==> tag_deleted_report(tag) == "Deleted tag '"@ + tag.name + "' (was "@ + short(
            tag.target,
        ) + ")"@,
        tag.annotated ==> tag_deleted_report(tag) == "Deleted annotated tag '"@ + tag.name
            + "' (was "@ + short(tag.target) + " via "@ + short(tag.object) + ")"@,
{
}

/// A tracked path is said with its pages where it is a database and they are known, and with its bytes
/// otherwise.
pub proof fn law_tracked_paths_are_said(e: RepoTrackedPathView)
    ensures
        has_prefix(inventory_line_text(e), e.path + " ("@),
        e.kind == RepoTrackedPathKind::SqliteDatabase && e.page_count is Some ==> has_suffix(
            inventory_line_text(e),
            ", "@ + decimal(e.page_count->0 as nat) + " page(s))\n"@,
        ),
        e.kind != RepoTrackedPathKind::SqliteDatabase && e.size is Some ==> has_suffix(
            inventory_line_text(e),
            ", "@ + decimal(e.size->0 as nat) + " byte(s))\n"@,
        ),
        e.kind != RepoTrackedPathKind::SqliteDatabase ==> has_prefix(
            inventory_line_text(e),
            e.path + " ("@ + kind_name(e.kind) + ", "@ + storage_name(e.storage) + ", "@,
        ),
{
    reveal_strlit(" (");
    reveal_strlit(" (sqlite, ");
    let text = inventory_line_text(e);
    let p = e.path + " ("@;
    assert(text.take(p.len() as int) =~= p);
    if e.kind == RepoTrackedPathKind::SqliteDatabase && e.page_count is Some {
        let tail = ", "@ + decimal(e.page_count->0 as nat) + " page(s))\n"@;
        assert(text.skip(text.len() - tail.len()) =~= tail);
    }
    if e.kind != RepoTrackedPathKind::SqliteDatabase {
        let q = e.path + " ("@ + kind_name(e.kind) + ", "@ + storage_name(e.storage) + ", "@;
        assert(text.take(q.len() as int) =~= q);
        if e.size is Some {
            let tail = ", "@ + decimal(e.size->0 as nat) + " byte(s))\n"@;
            assert(text.skip(text.len() - tail.len()) =~= tail);
        }
    }
}

/// What is added to a report begins on a line of its own.
pub proof fn law_new_lines(s: Seq<char>)
    ensures
        on_new_line(s).last() == '\n',
        s.len() > 0 && s.last() == '\n' ==> on_new_line(s) == s,
        s.len() == 0 || s.last() != '\n' ==> on_new_line(s) == s.push('\n'),
{
}

/// A commit is said with its databases and its files, each under its heading and only where it has any;
/// a listing without entries says so.
pub proof fn law_contents_are_said(
    commit: CommitObjectView,
    details: Seq<RepoTrackedPathDetailView>,
    entries: Seq<RepoTrackedPathEntryView>,
    paths: Seq<RepoTrackedPathView>,
    empty: Seq<char>,
    tags: Seq<TagInfoView>,
    commits: Seq<CommitObjectView>,
)
    ensures
        commit.files.len() > 0 ==> has_prefix(
            contents_text(commit),
            "\nFiles:\n"@ + shown_file_texts(commit.files),
        ),
        commit.artifacts.len() > 0 ==> has_suffix(
            contents_text(commit),
            "\nArtifacts:\n"@ + shown_artifact_texts(commit.artifacts),
        ),
        commit.files.len() == 0 && commit.artifacts.len() == 0 ==> contents_text(commit).len() == 0,
        details.len() == 0 ==> details_report(details) == "No tracked paths.\n"@,
        details.len() > 0 ==> details_report(details) == detail_line_texts(details),
        entries.len() == 0 ==> entries_report(entries) == "No tracked paths.\n"@,
        entries.len() > 0 ==> entries_report(entries) == entry_line_texts(entries),
        paths.len() == 0 ==> inventory_report(paths, empty) == empty + "\n"@,
        paths.len() > 0 ==> inventory_report(paths, empty) == inventory_line_texts(paths),
        tags.len() == 0 ==> tags_report(tags) == "No tags."@,
        tags.len() > 0 ==> tags_report(tags) == tag_line_texts(tags),
        commits.len() == 0 ==> log_report(commits) == "No commits yet."@,
        commits.len() > 0 ==> log_report(commits) == log_entry_texts(commits),
{
    let text = contents_text(commit);
    if commit.files.len() > 0 {
        let p = "\nFiles:\n"@ + shown_file_texts(commit.files);
        assert(text.take(p.len() as int) =~= p);
    }
    if commit.artifacts.len() > 0 {
        let q = "\nArtifacts:\n"@ + shown_artifact_texts(commit.artifacts);
        assert(text.skip(text.len() - q.len()) =~= q);
    }
}

/// What was fetched or pushed is that of its branches, one or many, on its remote.
pub proof fn law_outcomes_hold_their_branches(
    f: FetchOutcomeView,
    fs: FetchAllOutcomeView,
    p: PushOutcomeView,
    ps: PushAllOutcomeView,
)
    ensures
        fetch_remote(FetchCommandOutcome::One(f)) == f.remote,
        fetch_remote(FetchCommandOutcome::Many(fs)) == fs.remote,
        fetch_branches(FetchCommandOutcome::One(f)).len() == 1,
        fetch_branches(FetchCommandOutcome::One(f))[0] == f,
        fetch_branches(FetchCommandOutcome::Many(fs)) == fs.branches,
        push_remote(PushCommandOutcome::One(p)) == p.remote,
        push_remote(PushCommandOutcome::Many(ps)) == ps.remote,
        push_branches(PushCommandOutcome::One(p)).len() == 1,
        push_branches(PushCommandOutcome::One(p))[0] == p,
        push_branches(PushCommandOutcome::Many(ps)) == ps.branches,
{
}

/// A reply says what was done in the words for it, with each name in its place.
pub proof fn law_replies(
    a: String,
    b: String,
    c: String,
    message: String,
    side: ResolveSide,
    mode: ResetMode,
    remote: RemoteInfo,
)
    ensures
        reply_text(Reply::Exported { path: a, output: b }) == Ok::<_, CommandError<Seq<char>>>(
            "Exported "@ + a@ + " to "@ + b@,
        ),
        reply_text(Reply::Committed { id: a, message }) == Ok::<_, CommandError<Seq<char>>>(
            "["@ + short(a@) + "] "@ + message@,
        ),
        reply_text(Reply::Resolved { path: a, side }) == Ok::<_, CommandError<Seq<char>>>(
            "Resolved "@ + a@ + " using "@ + side.name(),
        ),
        reply_text(Reply::HeadReset { target: a, mode }) == Ok::<_, CommandError<Seq<char>>>(
            "Reset HEAD to "@ + short(a@) + " ("@ + reset_mode_name(mode) + ")"@,
        ),
        reply_text(Reply::Switched { name: a }) == Ok::<_, CommandError<Seq<char>>>(
            "Switched to branch '"@ + a@ + "'"@,
        ),
        reply_text(Reply::MergeAborted { target: a }) == Ok::<_, CommandError<Seq<char>>>(
            "Aborted merge; reset HEAD to "@ + short(a@),
        ),
        reply_text(Reply::RemoteRemoved { name: a }) == Ok::<_, CommandError<Seq<char>>>(
            "Removed remote '"@ + a@ + "'"@,
        ),
        reply_text(Reply::RemoteUrl { remote }) == Ok::<_, CommandError<Seq<char>>>(
            uri_of(remote@.config),
        ),
        reply_text(Reply::RemoteRenamed { old_name: a, remote }) matches Ok(text) && has_prefix(
            text,
            "Renamed remote '"@ + a@ + "' to '"@ + remote@.name,
        ),
        reply_text(Reply::Cloned { branch: a, head: b, graft_dir: c }) matches Ok(text)
            && has_prefix(text, "Cloned origin/"@ + a@ + " at "@ + short(b@)),
{
    if let Ok(text) = reply_text(Reply::RemoteRenamed { old_name: a, remote }) {
        let p = "Renamed remote '"@ + a@ + "' to '"@ + remote@.name;
        assert(text.take(p.len() as int) =~= p);
    }
    if let Ok(text) = reply_text(Reply::Cloned { branch: a, head: b, graft_dir: c }) {
        let p = "Cloned origin/"@ + a@ + " at "@ + short(b@);
        assert(text.take(p.len() as int) =~= p);
    }
}

/// A reply with a status, conflicts, a log, a commit or a list says what the report on it says.
pub proof fn law_replies_are_reports(
    status: RepoStatus,
    commits: Vec<CommitObject>,
    commit: CommitObject,
    paths: Vec<String>,
    diff: RepoDiff,
    reports: Vec<Option<String>>,
)
    ensures
        reply_text(Reply::Status { status }) == Ok::<_, CommandError<Seq<char>>>(
            status_report(status@),
        ),
        reply_text(Reply::Conflicts { status }) == Ok::<_, CommandError<Seq<char>>>(
            conflicts_report(status@),
        ),
        reply_text(Reply::Log { commits }) == Ok::<_, CommandError<Seq<char>>>(
            log_report(views(commits@)),
        ),
        reply_text(Reply::Shown { commit }) == Ok::<_, CommandError<Seq<char>>>(
            commit_report(commit@),
        ),
        reply_text(Reply::Added { paths }) == Ok::<_, CommandError<Seq<char>>>(
            done_to_paths("Added"@, texts(paths@)),
        ),
        reply_text(Reply::Removed { paths }) == Ok::<_, CommandError<Seq<char>>>(
            done_to_paths("Removed"@, texts(paths@)),
        ),
        reply_text(Reply::Compared { diff, mode: DiffMode::Default, reports }) == Ok::<
            _,
            CommandError<Seq<char>>,
        >(diff_report(diff@)),
        reply_text(Reply::Compared { diff, mode: DiffMode::SqliteSummary, reports }) is Err,
{
}

} // verus!
