//! Reports on the state and the history of a repository.
use vstd::prelude::*;
use vstd::string::*;
use vstd::utf8::encode_utf8;

use crate::error::text_option;
use crate::labels::{
    artifact_place, file_change_name, kind_name, presence_label, presence_name,
    repo_artifact_storage_label, repo_file_change_label, repo_index_stage_label,
    repo_path_storage_label, repo_tracked_path_kind_label, stage_name, storage_name,
    worktree_change_label, worktree_change_name,
};
use crate::model::{
    BranchInfo, BranchInfoView, BranchUpstream, BranchUpstreamView, CommitArtifactState,
    CommitArtifactStateView, CommitFileState, CommitFileStateView, CommitObject,
    CommitObjectView, Head, HeadView, PathArtifact, PathArtifactView, PathFile, PathFileView,
    RemoteBranchRef, RemoteBranchRefView, RepoFileChange, RepoStatus, RepoStatusView,
    RepoWorktreeChange, RepoWorktreeChangeView, TagInfo, TagInfoView,
};
use crate::number::{decimal, show_u64};
use crate::show::{has_short, lines, pad, padded, short, short_id, split_lines, view_option, views};
use crate::spec::{BranchListMode, IndexStage, RepoPathStorage, RepoTrackedPathKind};
use crate::text::texts;
use crate::time::{format_unix_millis, shown_time};

verus! {

/// `s` has a first line of twelve bytes that ends with a character.
pub open spec fn has_twelve(s: Seq<char>) -> bool {
    encode_utf8(s).len() >= 12 && has_short(s)
}

/// Every id of a list of optional ids can be shortened.
pub open spec fn short_if_some(s: Option<Seq<char>>) -> bool {
    s matches Some(id) ==> has_short(id)
}

/// A database that differs between two states; `worktree` counts the pages of a physical file.
#[derive(Debug, Clone, PartialEq, Eq)]
pub struct RepoFileDiff<S = String, L1 = CommitFileState, L2 = CommitFileState> {
    pub path: S,
    pub previous_path: Option<S>,
    pub change: RepoFileChange,
    pub kind: RepoTrackedPathKind,
    pub from: Option<L1>,
    pub to: Option<L2>,
    pub worktree: Option<u32>,
}

pub type RepoFileDiffView = RepoFileDiff<Seq<char>, CommitFileStateView, CommitFileStateView>;

impl View for RepoFileDiff<String, CommitFileState, CommitFileState> {
    type V = RepoFileDiffView;

    open spec fn view(&self) -> RepoFileDiffView {
        RepoFileDiff {
            path: self.path@,
            previous_path: text_option(self.previous_path),
            change: self.change,
            kind: self.kind,
            from: view_option(self.from),
            to: view_option(self.to),
            worktree: self.worktree,
        }
    }
}

/// An ordinary file that differs between two states.
#[derive(Debug, Clone, PartialEq, Eq)]
pub struct RepoArtifactDiff<S = String, L1 = CommitArtifactState, L2 = CommitArtifactState> {
    pub path: S,
    pub previous_path: Option<S>,
    pub change: RepoFileChange,
    pub kind: RepoTrackedPathKind,
    pub from: Option<L1>,
    pub to: Option<L2>,
}

pub type RepoArtifactDiffView = RepoArtifactDiff<Seq<char>, CommitArtifactStateView, CommitArtifactStateView>;

impl View for RepoArtifactDiff<String, CommitArtifactState, CommitArtifactState> {
    type V = RepoArtifactDiffView;

    open spec fn view(&self) -> RepoArtifactDiffView {
        RepoArtifactDiff {
            path: self.path@,
            previous_path: text_option(self.previous_path),
            change: self.change,
            kind: self.kind,
            from: view_option(self.from),
            to: view_option(self.to),
        }
    }
}

/// The paths that differ between two states.
#[derive(Debug, Clone, PartialEq, Eq)]
pub struct RepoDiff<S = String, L1 = Vec<RepoFileDiff>, L2 = Vec<RepoArtifactDiff>> {
    pub from: S,
    pub to: S,
    pub files: L1,
    pub artifacts: L2,
}

pub type RepoDiffView = RepoDiff<Seq<char>, Seq<RepoFileDiffView>, Seq<RepoArtifactDiffView>>;

impl View for RepoDiff<String, Vec<RepoFileDiff>, Vec<RepoArtifactDiff>> {
    type V = RepoDiffView;

    open spec fn view(&self) -> RepoDiffView {
        RepoDiff {
            from: self.from@,
            to: self.to@,
            files: views(self.files@),
            artifacts: views(self.artifacts@),
        }
    }
}

/// One side of a database in a diff, where there is one.
pub open spec fn file_side_text(label: Seq<char>, side: Option<CommitFileStateView>) -> Seq<char> {
    match side {
        Some(x) => label + decimal(x.snapshot.page_count as nat) + " page(s), "@ + decimal(
            x.snapshot.ranges.len(),
        ) + " range(s)\n"@,
        None => Seq::empty(),
    }
}

fn add_file_side(out: &mut String, label: &str, side: &Option<CommitFileState>)
    ensures
        final(out)@ == old(out)@ + file_side_text(label@, view_option(*side)),
{
    if let Some(x) = side {
        out.append(label);
        out.append(show_u64(x.snapshot.page_count as u64).as_str());
        out.append(" page(s), ");
        out.append(show_u64(x.snapshot.ranges.len() as u64).as_str());
        out.append(" range(s)\n");
    }
    proof {
        assert(out@ =~= old(out)@ + file_side_text(label@, view_option(*side)));
    }
}

/// The file of the worktree that a database is compared with, where no commit holds that side.
pub open spec fn physical_side_text(e: RepoFileDiffView) -> Seq<char> {
    match (e.to, e.worktree) {
        (None, Some(pages)) => "  to:   "@ + decimal(pages as nat) + " page(s), physical worktree\n"@,
        _ => Seq::empty(),
    }
}

fn add_physical_side(out: &mut String, e: &RepoFileDiff)
    ensures
        final(out)@ == old(out)@ + physical_side_text(e@),
{
    if e.to.is_none() {
        if let Some(pages) = e.worktree {
            out.append("  to:   ");
            out.append(show_u64(pages as u64).as_str());
            out.append(" page(s), physical worktree\n");
        }
    }
    proof {
        assert(out@ =~= old(out)@ + physical_side_text(e@));
    }
}

/// One database of a diff.
pub open spec fn file_diff_text(e: RepoFileDiffView) -> Seq<char> {
    file_change_name(e.change) + ": "@ + e.path + "\n"@ + file_side_text("  from: "@, e.from)
        + file_side_text("  to:   "@, e.to) + physical_side_text(e)
}

fn add_file_diff(out: &mut String, e: &RepoFileDiff)
    ensures
        final(out)@ == old(out)@ + file_diff_text(e@),
{
    out.append(repo_file_change_label(e.change));
    out.append(": ");
    out.append(e.path.as_str());
    out.append("\n");
    add_file_side(out, "  from: ", &e.from);
    add_file_side(out, "  to:   ", &e.to);
    add_physical_side(out, e);
    proof {
        assert(out@ =~= old(out)@ + file_diff_text(e@));
    }
}

pub open spec fn file_diff_texts(es: Seq<RepoFileDiffView>) -> Seq<char>
    decreases es.len(),
{
    if es.len() == 0 {
        Seq::empty()
    } else {
        file_diff_texts(es.drop_last()) + file_diff_text(es.last())
    }
}

fn add_file_diff_list(out: &mut String, es: &Vec<RepoFileDiff>)
    ensures
        final(out)@ == old(out)@ + file_diff_texts(views(es@)),
{
    let ghost list = views(es@);
    let mut i: usize = 0;
    proof {
        assert(list.take(0) =~= Seq::empty());
        assert(old(out)@ + Seq::<char>::empty() =~= old(out)@);
    }
    while i < es.len()
        invariant
            i <= es@.len(),
            list == views(es@),
            out@ == old(out)@ + file_diff_texts(list.take(i as int)),
        decreases es@.len() - i,
    {
        proof {
            assert(list.take(i + 1).drop_last() =~= list.take(i as int));
            assert(list.take(i + 1).last() == es@[i as int]@);
        }
        add_file_diff(out, &es[i]);
        proof {
            assert(out@ =~= old(out)@ + file_diff_texts(list.take(i + 1)));
        }
        i += 1;
    }
    proof {
        assert(list.take(i as int) =~= list);
    }
}

/// One side of an ordinary file in a diff, where there is one.
pub open spec fn artifact_side_text(label: Seq<char>, side: Option<CommitArtifactStateView>) -> Seq<char> {
    match side {
        Some(x) => label + decimal(x.size as nat) + " byte(s), "@ + artifact_place(x.large) + ", "@
            + x.content_hash + "\n"@,
        None => Seq::empty(),
    }
}

fn add_artifact_side(out: &mut String, label: &str, side: &Option<CommitArtifactState>)
    ensures
        final(out)@ == old(out)@ + artifact_side_text(label@, view_option(*side)),
{
    if let Some(x) = side {
        out.append(label);
        out.append(show_u64(x.size).as_str());
        out.append(" byte(s), ");
        out.append(repo_artifact_storage_label(x.large));
        out.append(", ");
        out.append(x.content_hash.as_str());
        out.append("\n");
    }
    proof {
        assert(out@ =~= old(out)@ + artifact_side_text(label@, view_option(*side)));
    }
}

/// One ordinary file of a diff.
pub open spec fn artifact_diff_text(e: RepoArtifactDiffView) -> Seq<char> {
    file_change_name(e.change) + ": "@ + e.path + "\n"@ + artifact_side_text("  from: "@, e.from)
        + artifact_side_text("  to:   "@, e.to)
}

fn add_artifact_diff(out: &mut String, e: &RepoArtifactDiff)
    ensures
        final(out)@ == old(out)@ + artifact_diff_text(e@),
{
    out.append(repo_file_change_label(e.change));
    out.append(": ");
    out.append(e.path.as_str());
    out.append("\n");
    add_artifact_side(out, "  from: ", &e.from);
    add_artifact_side(out, "  to:   ", &e.to);
    proof {
        assert(out@ =~= old(out)@ + artifact_diff_text(e@));
    }
}

pub open spec fn artifact_diff_texts(es: Seq<RepoArtifactDiffView>) -> Seq<char>
    decreases es.len(),
{
    if es.len() == 0 {
        Seq::empty()
    } else {
        artifact_diff_texts(es.drop_last()) + artifact_diff_text(es.last())
    }
}

fn add_artifact_diff_list(out: &mut String, es: &Vec<RepoArtifactDiff>)
    ensures
        final(out)@ == old(out)@ + artifact_diff_texts(views(es@)),
{
    let ghost list = views(es@);
    let mut i: usize = 0;
    proof {
        assert(list.take(0) =~= Seq::empty());
        assert(old(out)@ + Seq::<char>::empty() =~= old(out)@);
    }
    while i < es.len()
        invariant
            i <= es@.len(),
            list == views(es@),
            out@ == old(out)@ + artifact_diff_texts(list.take(i as int)),
        decreases es@.len() - i,
    {
        proof {
            assert(list.take(i + 1).drop_last() =~= list.take(i as int));
            assert(list.take(i + 1).last() == es@[i as int]@);
        }
        add_artifact_diff(out, &es[i]);
        proof {
            assert(out@ =~= old(out)@ + artifact_diff_texts(list.take(i + 1)));
        }
        i += 1;
    }
    proof {
        assert(list.take(i as int) =~= list);
    }
}

/// The report on a diff.
pub open spec fn diff_report(diff: RepoDiffView) -> Seq<char> {
    "Diff "@ + short(diff.from) + ".."@ + short(diff.to) + "\n"@
        + (if diff.files.len() == 0 && diff.artifacts.len() == 0 {
            "No changes.\n"@
        } else {
            file_diff_texts(diff.files) + artifact_diff_texts(diff.artifacts)
        })
}

pub fn format_repo_diff(diff: &RepoDiff) -> (r: String)
    requires
        has_short(diff.from@),
        has_short(diff.to@),
    ensures
        r@ == diff_report(diff@),
{
    let mut out = String::new();
    out.append("Diff ");
    out.append(short_id(diff.from.as_str()));
    out.append("..");
    out.append(short_id(diff.to.as_str()));
    out.append("\n");
    if diff.files.len() == 0 && diff.artifacts.len() == 0 {
        out.append("No changes.\n");
    } else {
        add_file_diff_list(&mut out, &diff.files);
        add_artifact_diff_list(&mut out, &diff.artifacts);
    }
    proof {
        assert(out@ =~= diff_report(diff@));
    }
    out
}

/// A parent of a commit.
pub open spec fn parent_text(e: Seq<char>) -> Seq<char> {
    "parent "@ + e + "\n"@
}

fn add_parent(out: &mut String, e: &String)
    ensures
        final(out)@ == old(out)@ + parent_text(e@),
{
    out.append("parent ");
    out.append(e.as_str());
    out.append("\n");
    proof {
        assert(out@ =~= old(out)@ + parent_text(e@));
    }
}

pub open spec fn parent_texts(es: Seq<Seq<char>>) -> Seq<char>
    decreases es.len(),
{
    if es.len() == 0 {
        Seq::empty()
    } else {
        parent_texts(es.drop_last()) + parent_text(es.last())
    }
}

fn add_parent_list(out: &mut String, es: &Vec<String>)
    ensures
        final(out)@ == old(out)@ + parent_texts(texts(es@)),
{
    let ghost list = texts(es@);
    let mut i: usize = 0;
    proof {
        assert(list.take(0) =~= Seq::empty());
        assert(old(out)@ + Seq::<char>::empty() =~= old(out)@);
    }
    while i < es.len()
        invariant
            i <= es@.len(),
            list == texts(es@),
            out@ == old(out)@ + parent_texts(list.take(i as int)),
        decreases es@.len() - i,
    {
        proof {
            assert(list.take(i + 1).drop_last() =~= list.take(i as int));
            assert(list.take(i + 1).last() == es@[i as int]@);
        }
        add_parent(out, &es[i]);
        proof {
            assert(out@ =~= old(out)@ + parent_texts(list.take(i + 1)));
        }
        i += 1;
    }
    proof {
        assert(list.take(i as int) =~= list);
    }
}

/// A database of a commit.
pub open spec fn shown_file_text(e: PathFileView) -> Seq<char> {
    "  "@ + e.path + " ("@ + decimal(e.state.snapshot.page_count as nat) + " page(s), "@
        + decimal(e.state.snapshot.ranges.len()) + " range(s))\n"@
}

fn add_shown_file(out: &mut String, e: &PathFile)
    ensures
        final(out)@ == old(out)@ + shown_file_text(e@),
{
    out.append("  ");
    out.append(e.path.as_str());
    out.append(" (");
    out.append(show_u64(e.state.snapshot.page_count as u64).as_str());
    out.append(" page(s), ");
    out.append(show_u64(e.state.snapshot.ranges.len() as u64).as_str());
    out.append(" range(s))\n");
    proof {
        assert(out@ =~= old(out)@ + shown_file_text(e@));
    }
}

pub open spec fn shown_file_texts(es: Seq<PathFileView>) -> Seq<char>
    decreases es.len(),
{
    if es.len() == 0 {
        Seq::empty()
    } else {
        shown_file_texts(es.drop_last()) + shown_file_text(es.last())
    }
}

fn add_shown_file_list(out: &mut String, es: &Vec<PathFile>)
    ensures
        final(out)@ == old(out)@ + shown_file_texts(views(es@)),
{
    let ghost list = views(es@);
    let mut i: usize = 0;
    proof {
        assert(list.take(0) =~= Seq::empty());
        assert(old(out)@ + Seq::<char>::empty() =~= old(out)@);
    }
    while i < es.len()
        invariant
            i <= es@.len(),
            list == views(es@),
            out@ == old(out)@ + shown_file_texts(list.take(i as int)),
        decreases es@.len() - i,
    {
        proof {
            assert(list.take(i + 1).drop_last() =~= list.take(i as int));
            assert(list.take(i + 1).last() == es@[i as int]@);
        }
        add_shown_file(out, &es[i]);
        proof {
            assert(out@ =~= old(out)@ + shown_file_texts(list.take(i + 1)));
        }
        i += 1;
    }
    proof {
        assert(list.take(i as int) =~= list);
    }
}

/// An ordinary file of a commit.
pub open spec fn shown_artifact_text(e: PathArtifactView) -> Seq<char> {
    "  "@ + e.path + " ("@ + decimal(e.state.size as nat) + " byte(s), "@
        + artifact_place(e.state.large) + ", "@ + e.state.content_hash + ")\n"@
}

fn add_shown_artifact(out: &mut String, e: &PathArtifact)
    ensures
        final(out)@ == old(out)@ + shown_artifact_text(e@),
{
    out.append("  ");
    out.append(e.path.as_str());
    out.append(" (");
    out.append(show_u64(e.state.size as u64).as_str());
    out.append(" byte(s), ");
    out.append(repo_artifact_storage_label(e.state.large));
    out.append(", ");
    out.append(e.state.content_hash.as_str());
    out.append(")\n");
    proof {
        assert(out@ =~= old(out)@ + shown_artifact_text(e@));
    }
}

pub open spec fn shown_artifact_texts(es: Seq<PathArtifactView>) -> Seq<char>
    decreases es.len(),
{
    if es.len() == 0 {
        Seq::empty()
    } else {
        shown_artifact_texts(es.drop_last()) + shown_artifact_text(es.last())
    }
}

fn add_shown_artifact_list(out: &mut String, es: &Vec<PathArtifact>)
    ensures
        final(out)@ == old(out)@ + shown_artifact_texts(views(es@)),
{
    let ghost list = views(es@);
    let mut i: usize = 0;
    proof {
        assert(list.take(0) =~= Seq::empty());
        assert(old(out)@ + Seq::<char>::empty() =~= old(out)@);
    }
    while i < es.len()
        invariant
            i <= es@.len(),
            list == views(es@),
            out@ == old(out)@ + shown_artifact_texts(list.take(i as int)),
        decreases es@.len() - i,
    {
        proof {
            assert(list.take(i + 1).drop_last() =~= list.take(i as int));
            assert(list.take(i + 1).last() == es@[i as int]@);
        }
        add_shown_artifact(out, &es[i]);
        proof {
            assert(out@ =~= old(out)@ + shown_artifact_texts(list.take(i + 1)));
        }
        i += 1;
    }
    proof {
        assert(list.take(i as int) =~= list);
    }
}

/// A line with a value, where there is one.
pub open spec fn option_line(label: Seq<char>, value: Option<Seq<char>>) -> Seq<char> {
    match value {
        Some(v) => label + v + "\n"@,
        None => Seq::empty(),
    }
}

fn add_option_line(out: &mut String, label: &str, value: &Option<String>)
    ensures
        final(out)@ == old(out)@ + option_line(label@, text_option(*value)),
{
    if let Some(v) = value {
        out.append(label);
        out.append(v.as_str());
        out.append("\n");
    }
    proof {
        assert(out@ =~= old(out)@ + option_line(label@, text_option(*value)));
    }
}

/// The databases and the ordinary files of a commit.
pub open spec fn contents_text(commit: CommitObjectView) -> Seq<char> {
    (if commit.files.len() != 0 {
        "\nFiles:\n"@ + shown_file_texts(commit.files)
    } else {
        Seq::empty()
    }) + (if commit.artifacts.len() != 0 {
        "\nArtifacts:\n"@ + shown_artifact_texts(commit.artifacts)
    } else {
        Seq::empty()
    })
}

fn add_contents(out: &mut String, commit: &CommitObject)
    ensures
        final(out)@ == old(out)@ + contents_text(commit@),
{
    if commit.files.len() != 0 {
        out.append("\nFiles:\n");
        add_shown_file_list(out, &commit.files);
    }
    if commit.artifacts.len() != 0 {
        out.append("\nArtifacts:\n");
        add_shown_artifact_list(out, &commit.artifacts);
    }
    proof {
        assert(out@ =~= old(out)@ + contents_text(commit@));
    }
}

/// The parents of a commit: all of them, or the only one.
pub open spec fn parents_text(commit: CommitObjectView) -> Seq<char> {
    if commit.parents.len() == 0 {
        option_line("parent "@, commit.parent)
    } else {
        parent_texts(commit.parents)
    }
}

/// The report on a commit.
pub open spec fn commit_report(commit: CommitObjectView) -> Seq<char> {
    "commit "@ + commit.id + "\n"@ + parents_text(commit) + option_line("tree "@, commit.tree)
        + "date "@ + shown_time(commit.timestamp_ms as int) + "\n\n    "@ + commit.message + "\n"@
        + contents_text(commit)
}

pub fn format_repo_show(commit: &CommitObject) -> (r: String)
    ensures
        r@ == commit_report(commit@),
{
    let mut out = "commit ".to_owned();
    out.append(commit.id.as_str());
    out.append("\n");
    if commit.parents.len() == 0 {
        add_option_line(&mut out, "parent ", &commit.parent);
    } else {
        add_parent_list(&mut out, &commit.parents);
    }
    add_option_line(&mut out, "tree ", &commit.tree);
    out.append("date ");
    out.append(format_unix_millis(commit.timestamp_ms).as_str());
    out.append("\n\n    ");
    out.append(commit.message.as_str());
    out.append("\n");
    add_contents(&mut out, commit);
    out
}

/// A commit of the log.
pub open spec fn log_entry_text(e: CommitObjectView) -> Seq<char> {
    "commit "@ + e.id + "\n"@ + option_line("parent "@, e.parent) + "date "@ + shown_time(
        e.timestamp_ms as int,
    ) + "\n\n    "@ + e.message + "\n\n"@
}

fn add_log_entry(out: &mut String, e: &CommitObject)
    ensures
        final(out)@ == old(out)@ + log_entry_text(e@),
{
    out.append("commit ");
    out.append(e.id.as_str());
    out.append("\n");
    add_option_line(out, "parent ", &e.parent);
    out.append("date ");
    out.append(format_unix_millis(e.timestamp_ms).as_str());
    out.append("\n\n    ");
    out.append(e.message.as_str());
    out.append("\n\n");
    proof {
        assert(out@ =~= old(out)@ + log_entry_text(e@));
    }
}

pub open spec fn log_entry_texts(es: Seq<CommitObjectView>) -> Seq<char>
    decreases es.len(),
{
    if es.len() == 0 {
        Seq::empty()
    } else {
        log_entry_texts(es.drop_last()) + log_entry_text(es.last())
    }
}

fn add_log_entry_list(out: &mut String, es: &Vec<CommitObject>)
    ensures
        final(out)@ == old(out)@ + log_entry_texts(views(es@)),
{
    let ghost list = views(es@);
    let mut i: usize = 0;
    proof {
        assert(list.take(0) =~= Seq::empty());
        assert(old(out)@ + Seq::<char>::empty() =~= old(out)@);
    }
    while i < es.len()
        invariant
            i <= es@.len(),
            list == views(es@),
            out@ == old(out)@ + log_entry_texts(list.take(i as int)),
        decreases es@.len() - i,
    {
        proof {
            assert(list.take(i + 1).drop_last() =~= list.take(i as int));
            assert(list.take(i + 1).last() == es@[i as int]@);
        }
        add_log_entry(out, &es[i]);
        proof {
            assert(out@ =~= old(out)@ + log_entry_texts(list.take(i + 1)));
        }
        i += 1;
    }
    proof {
        assert(list.take(i as int) =~= list);
    }
}

/// The report on the history.
pub open spec fn log_report(commits: Seq<CommitObjectView>) -> Seq<char> {
    if commits.len() == 0 {
        "No commits yet."@
    } else {
        log_entry_texts(commits)
    }
}

pub fn format_repo_log(commits: &Vec<CommitObject>) -> (r: String)
    ensures
        r@ == log_report(views(commits@)),
{
    if commits.len() == 0 {
        return "No commits yet.".to_owned();
    }
    let mut out = String::new();
    add_log_entry_list(&mut out, commits);
    out
}

/// An indented path.
pub open spec fn indented_path_text(e: Seq<char>) -> Seq<char> {
    "  "@ + e + "\n"@
}

fn add_indented_path(out: &mut String, e: &String)
    ensures
        final(out)@ == old(out)@ + indented_path_text(e@),
{
    out.append("  ");
    out.append(e.as_str());
    out.append("\n");
    proof {
        assert(out@ =~= old(out)@ + indented_path_text(e@));
    }
}

pub open spec fn indented_path_texts(es: Seq<Seq<char>>) -> Seq<char>
    decreases es.len(),
{
    if es.len() == 0 {
        Seq::empty()
    } else {
        indented_path_texts(es.drop_last()) + indented_path_text(es.last())
    }
}

fn add_indented_path_list(out: &mut String, es: &Vec<String>)
    ensures
        final(out)@ == old(out)@ + indented_path_texts(texts(es@)),
{
    let ghost list = texts(es@);
    let mut i: usize = 0;
    proof {
        assert(list.take(0) =~= Seq::empty());
        assert(old(out)@ + Seq::<char>::empty() =~= old(out)@);
    }
    while i < es.len()
        invariant
            i <= es@.len(),
            list == texts(es@),
            out@ == old(out)@ + indented_path_texts(list.take(i as int)),
        decreases es@.len() - i,
    {
        proof {
            assert(list.take(i + 1).drop_last() =~= list.take(i as int));
            assert(list.take(i + 1).last() == es@[i as int]@);
        }
        add_indented_path(out, &es[i]);
        proof {
            assert(out@ =~= old(out)@ + indented_path_texts(list.take(i + 1)));
        }
        i += 1;
    }
    proof {
        assert(list.take(i as int) =~= list);
    }
}

/// A changed path of the worktree.
pub open spec fn worktree_change_text(e: RepoWorktreeChangeView) -> Seq<char> {
    "  "@ + worktree_change_name(e.change) + ": "@ + e.path + "\n"@
}

fn add_worktree_change(out: &mut String, e: &RepoWorktreeChange)
    ensures
        final(out)@ == old(out)@ + worktree_change_text(e@),
{
    out.append("  ");
    out.append(worktree_change_label(e.change));
    out.append(": ");
    out.append(e.path.as_str());
    out.append("\n");
    proof {
        assert(out@ =~= old(out)@ + worktree_change_text(e@));
    }
}

pub open spec fn worktree_change_texts(es: Seq<RepoWorktreeChangeView>) -> Seq<char>
    decreases es.len(),
{
    if es.len() == 0 {
        Seq::empty()
    } else {
        worktree_change_texts(es.drop_last()) + worktree_change_text(es.last())
    }
}

fn add_worktree_change_list(out: &mut String, es: &Vec<RepoWorktreeChange>)
    ensures
        final(out)@ == old(out)@ + worktree_change_texts(views(es@)),
{
    let ghost list = views(es@);
    let mut i: usize = 0;
    proof {
        assert(list.take(0) =~= Seq::empty());
        assert(old(out)@ + Seq::<char>::empty() =~= old(out)@);
    }
    while i < es.len()
        invariant
            i <= es@.len(),
            list == views(es@),
            out@ == old(out)@ + worktree_change_texts(list.take(i as int)),
        decreases es@.len() - i,
    {
        proof {
            assert(list.take(i + 1).drop_last() =~= list.take(i as int));
            assert(list.take(i + 1).last() == es@[i as int]@);
        }
        add_worktree_change(out, &es[i]);
        proof {
            assert(out@ =~= old(out)@ + worktree_change_texts(list.take(i + 1)));
        }
        i += 1;
    }
    proof {
        assert(list.take(i as int) =~= list);
    }
}

/// Where HEAD stands, and what it follows.
pub open spec fn head_text(head: HeadView, upstream: Option<BranchUpstreamView>) -> Seq<char> {
    (match head {
        Head::Branch { name } => "On branch "@ + name + "\n"@,
        Head::Detached { commit } => "HEAD detached at "@ + commit + "\n"@,
    }) + (match upstream {
        Some(up) => "Tracking: "@ + up.remote + "/"@ + up.branch + "\n"@,
        None => Seq::empty(),
    })
}

fn add_head(out: &mut String, head: &Head, upstream: &Option<BranchUpstream>)
    ensures
        final(out)@ == old(out)@ + head_text(head@, view_option(*upstream)),
{
    match head {
        Head::Branch { name } => {
            out.append("On branch ");
            out.append(name.as_str());
        },
        Head::Detached { commit } => {
            out.append("HEAD detached at ");
            out.append(commit.as_str());
        },
    }
    out.append("\n");
    if let Some(up) = upstream {
        out.append("Tracking: ");
        out.append(up.remote.as_str());
        out.append("/");
        out.append(up.branch.as_str());
        out.append("\n");
    }
    proof {
        assert(out@ =~= old(out)@ + head_text(head@, view_option(*upstream)));
    }
}

/// The commit that HEAD stands at, and the one that is being merged into it.
pub open spec fn commits_text(head_target: Option<Seq<char>>, merge_head: Option<Seq<char>>) -> Seq<char> {
    (match head_target {
        Some(target) => "HEAD: "@ + target + "\n"@,
        None => "No commits yet\n"@,
    }) + (match merge_head {
        Some(id) => "Merge in progress with "@ + short(id) + "\n"@,
        None => Seq::empty(),
    })
}

fn add_commits(out: &mut String, head_target: &Option<String>, merge_head: &Option<String>)
    requires
        short_if_some(text_option(*merge_head)),
    ensures
        final(out)@ == old(out)@ + commits_text(text_option(*head_target), text_option(*merge_head)),
{
    match head_target {
        Some(target) => {
            out.append("HEAD: ");
            out.append(target.as_str());
            out.append("\n");
        },
        None => out.append("No commits yet\n"),
    }
    if let Some(id) = merge_head {
        out.append("Merge in progress with ");
        out.append(short_id(id.as_str()));
        out.append("\n");
    }
    proof {
        assert(out@ =~= old(out)@ + commits_text(text_option(*head_target), text_option(*merge_head)));
    }
}

/// Paths under a title, where there are any.
pub open spec fn path_section(title: Seq<char>, paths: Seq<Seq<char>>) -> Seq<char> {
    if paths.len() == 0 {
        Seq::empty()
    } else {
        title + indented_path_texts(paths)
    }
}

fn add_path_section(out: &mut String, title: &str, paths: &Vec<String>)
    ensures
        final(out)@ == old(out)@ + path_section(title@, texts(paths@)),
{
    if paths.len() != 0 {
        out.append(title);
        add_indented_path_list(out, paths);
    }
    proof {
        assert(out@ =~= old(out)@ + path_section(title@, texts(paths@)));
    }
}

/// What stands above changes that are not staged.
pub open spec fn unstaged_title() -> Seq<char> {
    "Changes not staged for commit.\n  (use 'pragma graft_add' to stage)\n"@
}

/// The changes that are not staged, with what they are where that is known.
pub open spec fn unstaged_text(status: RepoStatusView) -> Seq<char> {
    if status.unstaged_changes.len() != 0 {
        unstaged_title() + worktree_change_texts(status.unstaged_changes)
    } else {
        path_section(unstaged_title(), status.unstaged)
    }
}

fn add_unstaged(out: &mut String, status: &RepoStatus)
    ensures
        final(out)@ == old(out)@ + unstaged_text(status@),
{
    if status.unstaged_changes.len() != 0 {
        out.append("Changes not staged for commit.\n  (use 'pragma graft_add' to stage)\n");
        add_worktree_change_list(out, &status.unstaged_changes);
    } else {
        add_path_section(
            out,
            "Changes not staged for commit.\n  (use 'pragma graft_add' to stage)\n",
            &status.unstaged,
        );
    }
    proof {
        assert(out@ =~= old(out)@ + unstaged_text(status@));
    }
}

/// Nothing is changed, and no merge is in progress.
pub open spec fn is_clean(status: RepoStatusView) -> bool {
    status.unstaged.len() == 0 && status.staged.len() == 0 && status.conflicted.len() == 0
        && status.merge_head is None
}

/// The report on the state of a repository.
pub open spec fn status_report(status: RepoStatusView) -> Seq<char> {
    head_text(status.head, status.upstream) + "Repository: "@ + status.worktree + "\nFormat: v"@
        + decimal(status.repository_format_version as nat) + "\n"@ + commits_text(
        status.head_target,
        status.merge_head,
    ) + path_section("Unmerged paths:\n"@, status.conflicted) + path_section(
        "Changes to be committed:\n"@,
        status.staged,
    ) + unstaged_text(status) + (if is_clean(status) {
        "Worktree clean.\n"@
    } else {
        Seq::empty()
    })
}

pub fn format_repo_status(status: &RepoStatus) -> (r: String)
    requires
        short_if_some(status@.merge_head),
    ensures
        r@ == status_report(status@),
{
    let mut out = String::new();
    add_head(&mut out, &status.head, &status.upstream);
    proof {
        assert(out@ =~= head_text(status@.head, status@.upstream));
    }
    out.append("Repository: ");
    out.append(status.worktree.as_str());
    out.append("\nFormat: v");
    out.append(show_u64(status.repository_format_version as u64).as_str());
    out.append("\n");
    add_commits(&mut out, &status.head_target, &status.merge_head);
    add_path_section(&mut out, "Unmerged paths:\n", &status.conflicted);
    add_path_section(&mut out, "Changes to be committed:\n", &status.staged);
    add_unstaged(&mut out, status);
    if status.unstaged.len() == 0 && status.staged.len() == 0 && status.conflicted.len() == 0
        && status.merge_head.is_none() {
        out.append("Worktree clean.\n");
    } else {
        proof {
            assert(out@ + Seq::<char>::empty() =~= out@);
        }
    }
    out
}

/// The report on the unresolved paths.
pub open spec fn conflicts_report(status: RepoStatusView) -> Seq<char> {
    if status.conflicted.len() == 0 {
        "No conflicts.\n"@
    } else {
        "Unmerged paths:\n"@ + indented_path_texts(status.conflicted)
            + "\nResolve a path with `pragma graft_resolve = \"--ours [path]\"`, `pragma graft_resolve = \"--theirs [path]\"`, or `pragma graft_resolve = \"--manual [path]\"`.\n"@
    }
}

pub fn format_conflicts(status: &RepoStatus) -> (r: String)
    ensures
        r@ == conflicts_report(status@),
{
    let mut out = String::new();
    if status.conflicted.len() == 0 {
        out.append("No conflicts.\n");
    } else {
        out.append("Unmerged paths:\n");
        add_indented_path_list(&mut out, &status.conflicted);
        out.append(
            "\nResolve a path with `pragma graft_resolve = \"--ours [path]\"`, `pragma graft_resolve = \"--theirs [path]\"`, or `pragma graft_resolve = \"--manual [path]\"`.\n",
        );
    }
    proof {
        assert(out@ =~= conflicts_report(status@));
    }
    out
}

/// A local branch in a listing.
pub open spec fn branch_line_text(e: BranchInfoView) -> Seq<char> {
    (if e.current { "*"@ } else { " "@ }) + " "@ + padded(e.name, 24) + " "@
        + (match e.target {
            Some(target) => short(target),
            None => "(unborn)"@,
        })
        + (match e.upstream {
            Some(up) => " ["@ + up.remote + "/"@ + up.branch + "]"@,
            None => Seq::empty(),
        })
        + "\n"@
}

fn add_branch_line(out: &mut String, e: &BranchInfo)
    requires
        short_if_some(e@.target),
    ensures
        final(out)@ == old(out)@ + branch_line_text(e@),
{
    out.append(if e.current { "*" } else { " " });
    out.append(" ");
    out.append(pad(e.name.as_str(), 24).as_str());
    out.append(" ");
    match &e.target {
        Some(target) => {
            out.append(short_id(target.as_str()));
        },
        None => {
            out.append("(unborn)");
        },
    }
    match &e.upstream {
        Some(up) => {
            out.append(" [");
            out.append(up.remote.as_str());
            out.append("/");
            out.append(up.branch.as_str());
            out.append("]");
        },
        None => {

        },
    }
    out.append("\n");
    proof {
        assert(out@ =~= old(out)@ + branch_line_text(e@));
    }
}

pub open spec fn branch_line_texts(es: Seq<BranchInfoView>) -> Seq<char>
    decreases es.len(),
{
    if es.len() == 0 {
        Seq::empty()
    } else {
        branch_line_texts(es.drop_last()) + branch_line_text(es.last())
    }
}

fn add_branch_line_list(out: &mut String, es: &Vec<BranchInfo>)
    requires
        forall|i: int| 0 <= i < es@.len() ==> short_if_some(#[trigger] es@[i]@.target),
    ensures
        final(out)@ == old(out)@ + branch_line_texts(views(es@)),
{
    let ghost list = views(es@);
    let mut i: usize = 0;
    proof {
        assert(list.take(0) =~= Seq::empty());
        assert(old(out)@ + Seq::<char>::empty() =~= old(out)@);
    }
    while i < es.len()
        invariant
            i <= es@.len(),
            list == views(es@),
            forall|i: int| 0 <= i < es@.len() ==> short_if_some(#[trigger] es@[i]@.target),
            out@ == old(out)@ + branch_line_texts(list.take(i as int)),
        decreases es@.len() - i,
    {
        proof {
            assert(list.take(i + 1).drop_last() =~= list.take(i as int));
            assert(list.take(i + 1).last() == es@[i as int]@);
        }
        add_branch_line(out, &es[i]);
        proof {
            assert(out@ =~= old(out)@ + branch_line_texts(list.take(i + 1)));
        }
        i += 1;
    }
    proof {
        assert(list.take(i as int) =~= list);
    }
}

fn remote_name(e: &RemoteBranchRef, all: bool) -> (r: String)
    ensures
        r@ == if all {
            "remotes/"@ + e@.remote + "/"@ + e@.branch
        } else {
            e@.remote + "/"@ + e@.branch
        },
{
    let mut out = String::new();
    if all {
        out = "remotes/".to_owned();
        out.append(e.remote.as_str());
    } else {
        out = e.remote.clone();
    }
    out.append("/");
    out.append(e.branch.as_str());
    out
}

/// A branch of a remote in a listing.
pub open spec fn remote_branch_line_text(e: RemoteBranchRefView, with_prefix: bool) -> Seq<char> {
    "  "@
        + padded(if with_prefix { "remotes/"@ + e.remote + "/"@ + e.branch } else { e.remote + "/"@ + e.branch }, 24)
        + " "@ + short(e.head) + "\n"@
}

fn add_remote_branch_line(out: &mut String, e: &RemoteBranchRef, with_prefix: bool)
    requires
        has_short(e@.head),
    ensures
        final(out)@ == old(out)@ + remote_branch_line_text(e@, with_prefix),
{
    out.append("  ");
    out.append(pad(remote_name(e, with_prefix).as_str(), 24).as_str());
    out.append(" ");
    out.append(short_id(e.head.as_str()));
    out.append("\n");
    proof {
        assert(out@ =~= old(out)@ + remote_branch_line_text(e@, with_prefix));
    }
}

pub open spec fn remote_branch_line_texts(es: Seq<RemoteBranchRefView>, with_prefix: bool) -> Seq<char>
    decreases es.len(),
{
    if es.len() == 0 {
        Seq::empty()
    } else {
        remote_branch_line_texts(es.drop_last(), with_prefix) + remote_branch_line_text(es.last(), with_prefix)
    }
}

fn add_remote_branch_line_list(out: &mut String, es: &Vec<RemoteBranchRef>, with_prefix: bool)
    requires
        forall|i: int| 0 <= i < es@.len() ==> has_short(#[trigger] es@[i]@.head),
    ensures
        final(out)@ == old(out)@ + remote_branch_line_texts(views(es@), with_prefix),
{
    let ghost list = views(es@);
    let mut i: usize = 0;
    proof {
        assert(list.take(0) =~= Seq::empty());
        assert(old(out)@ + Seq::<char>::empty() =~= old(out)@);
    }
    while i < es.len()
        invariant
            i <= es@.len(),
            list == views(es@),
            forall|i: int| 0 <= i < es@.len() ==> has_short(#[trigger] es@[i]@.head),
            out@ == old(out)@ + remote_branch_line_texts(list.take(i as int), with_prefix),
        decreases es@.len() - i,
    {
        proof {
            assert(list.take(i + 1).drop_last() =~= list.take(i as int));
            assert(list.take(i + 1).last() == es@[i as int]@);
        }
        add_remote_branch_line(out, &es[i], with_prefix);
        proof {
            assert(out@ =~= old(out)@ + remote_branch_line_texts(list.take(i + 1), with_prefix));
        }
        i += 1;
    }
    proof {
        assert(list.take(i as int) =~= list);
    }
}

/// The listing of branches.
pub open spec fn branches_report(
    branches: Seq<BranchInfoView>,
    remote_branches: Seq<RemoteBranchRefView>,
    mode: BranchListMode,
) -> Seq<char> {
    if branches.len() == 0 && remote_branches.len() == 0 && mode != BranchListMode::Remote {
        "No branches."@
    } else if remote_branches.len() == 0 && mode == BranchListMode::Remote {
        "No remote branches."@
    } else {
        let local = if mode == BranchListMode::Remote {
            Seq::empty()
        } else {
            branch_line_texts(branches)
        };
        if mode.with_remote() {
            local + remote_branch_line_texts(remote_branches, mode == BranchListMode::All)
        } else {
            local
        }
    }
}

pub fn format_branches(
    branches: &Vec<BranchInfo>,
    remote_branches: &Vec<RemoteBranchRef>,
    mode: BranchListMode,
) -> (r: String)
    requires
        forall|i: int| 0 <= i < branches@.len() ==> short_if_some(#[trigger] branches@[i]@.target),
        forall|i: int|
            0 <= i < remote_branches@.len() ==> has_short(#[trigger] remote_branches@[i]@.head),
    ensures
        r@ == branches_report(views(branches@), views(remote_branches@), mode),
{
    if branches.len() == 0 && remote_branches.len() == 0 && mode != BranchListMode::Remote {
        return "No branches.".to_owned();
    }
    if remote_branches.len() == 0 && mode == BranchListMode::Remote {
        return "No remote branches.".to_owned();
    }
    let mut out = String::new();
    if mode != BranchListMode::Remote {
        add_branch_line_list(&mut out, branches);
    }
    if mode.includes_remote() {
        add_remote_branch_line_list(&mut out, remote_branches, mode == BranchListMode::All);
    }
    out
}

/// The report on a new branch.
pub open spec fn branch_created_report(branch: BranchInfoView) -> Seq<char> {
    match branch.target {
        Some(target) => "Created branch '"@ + branch.name + "' at "@ + short(target),
        None => "Created unborn branch '"@ + branch.name + "'"@,
    }
}

pub fn format_branch_created(branch: &BranchInfo) -> (r: String)
    requires
        branch@.target matches Some(id) ==> has_twelve(id),
    ensures
        r@ == branch_created_report(branch@),
{
    let mut out = String::new();
    match &branch.target {
        Some(target) => {
            out.append("Created branch '");
            out.append(branch.name.as_str());
            out.append("' at ");
            out.append(short_id(target.as_str()));
        },
        None => {
            out.append("Created unborn branch '");
            out.append(branch.name.as_str());
            out.append("'");
        },
    }
    proof {
        assert(out@ =~= branch_created_report(branch@));
    }
    out
}

/// The report on the upstream of a branch.
pub open spec fn branch_upstream_report(branch: BranchInfoView) -> Seq<char> {
    match branch.upstream {
        Some(up) => "Branch '"@ + branch.name + "' set to track "@ + up.remote + "/"@ + up.branch,
        None => "Branch '"@ + branch.name + "' has no upstream"@,
    }
}

pub fn format_branch_upstream(branch: &BranchInfo) -> (r: String)
    ensures
        r@ == branch_upstream_report(branch@),
{
    let mut out = String::new();
    match &branch.upstream {
        Some(up) => {
            out.append("Branch '");
            out.append(branch.name.as_str());
            out.append("' set to track ");
            out.append(up.remote.as_str());
            out.append("/");
            out.append(up.branch.as_str());
        },
        None => {
            out.append("Branch '");
            out.append(branch.name.as_str());
            out.append("' has no upstream");
        },
    }
    proof {
        assert(out@ =~= branch_upstream_report(branch@));
    }
    out
}

/// The report on an upstream that was taken away.
pub open spec fn branch_upstream_unset_report(branch: BranchInfoView) -> Seq<char> {
    "Branch '"@ + branch.name + "' upstream unset"@
}

pub fn format_branch_upstream_unset(branch: &BranchInfo) -> (r: String)
    ensures
        r@ == branch_upstream_unset_report(branch@),
{
    let mut out = String::new();
    out.append("Branch '");
    out.append(branch.name.as_str());
    out.append("' upstream unset");
    proof {
        assert(out@ =~= branch_upstream_unset_report(branch@));
    }
    out
}

/// The report on a deleted branch.
pub open spec fn branch_deleted_report(branch: BranchInfoView, force: bool) -> Seq<char> {
    match branch.target {
        Some(target) => "Deleted branch '"@ + branch.name + "'"@ + (if force { " forcibly"@ } else { ""@ })
            + " (was "@ + short(target) + ")"@,
        None => "Deleted unborn branch '"@ + branch.name + "'"@ + (if force { " forcibly"@ } else { ""@ }),
    }
}

pub fn format_branch_deleted(branch: &BranchInfo, force: bool) -> (r: String)
    requires
        short_if_some(branch@.target),
    ensures
        r@ == branch_deleted_report(branch@, force),
{
    let mut out = String::new();
    match &branch.target {
        Some(target) => {
            out.append("Deleted branch '");
            out.append(branch.name.as_str());
            out.append("'");
            out.append(if force { " forcibly" } else { "" });
            out.append(" (was ");
            out.append(short_id(target.as_str()));
            out.append(")");
        },
        None => {
            out.append("Deleted unborn branch '");
            out.append(branch.name.as_str());
            out.append("'");
            out.append(if force { " forcibly" } else { "" });
        },
    }
    proof {
        assert(out@ =~= branch_deleted_report(branch@, force));
    }
    out
}

/// The report on a renamed branch.
pub open spec fn branch_renamed_report(old_name: Seq<char>, branch: BranchInfoView, force: bool) -> Seq<char> {
    match branch.target {
        Some(target) => "Renamed branch '"@ + old_name + "' to '"@ + branch.name + "'"@
            + (if force { " forcibly"@ } else { ""@ }) + " at "@ + short(target),
        None => "Renamed unborn branch '"@ + old_name + "' to '"@ + branch.name + "'"@
            + (if force { " forcibly"@ } else { ""@ }),
    }
}

pub fn format_branch_renamed(old_name: &str, branch: &BranchInfo, force: bool) -> (r: String)
    requires
        short_if_some(branch@.target),
    ensures
        r@ == branch_renamed_report(old_name@, branch@, force),
{
    let mut out = String::new();
    match &branch.target {
        Some(target) => {
            out.append("Renamed branch '");
            out.append(old_name);
            out.append("' to '");
            out.append(branch.name.as_str());
            out.append("'");
            out.append(if force { " forcibly" } else { "" });
            out.append(" at ");
            out.append(short_id(target.as_str()));
        },
        None => {
            out.append("Renamed unborn branch '");
            out.append(old_name);
            out.append("' to '");
            out.append(branch.name.as_str());
            out.append("'");
            out.append(if force { " forcibly" } else { "" });
        },
    }
    proof {
        assert(out@ =~= branch_renamed_report(old_name@, branch@, force));
    }
    out
}

/// A tag in a listing.
pub open spec fn tag_line_text(e: TagInfoView) -> Seq<char> {
    padded(e.name, 24) + " "@ + short(e.target)
        + (if e.annotated {
            " (annotated "@ + short(e.object) + ")"@
        } else {
            Seq::empty()
        })
        + "\n"@
}

fn add_tag_line(out: &mut String, e: &TagInfo)
    requires
        short_tag(e@),
    ensures
        final(out)@ == old(out)@ + tag_line_text(e@),
{
    out.append(pad(e.name.as_str(), 24).as_str());
    out.append(" ");
    out.append(short_id(e.target.as_str()));
    if e.annotated {
        out.append(" (annotated ");
        out.append(short_id(e.object.as_str()));
        out.append(")");
    }
    out.append("\n");
    proof {
        assert(out@ =~= old(out)@ + tag_line_text(e@));
    }
}

pub open spec fn tag_line_texts(es: Seq<TagInfoView>) -> Seq<char>
    decreases es.len(),
{
    if es.len() == 0 {
        Seq::empty()
    } else {
        tag_line_texts(es.drop_last()) + tag_line_text(es.last())
    }
}

fn add_tag_line_list(out: &mut String, es: &Vec<TagInfo>)
    requires
        forall|i: int| 0 <= i < es@.len() ==> short_tag(#[trigger] es@[i]@),
    ensures
        final(out)@ == old(out)@ + tag_line_texts(views(es@)),
{
    let ghost list = views(es@);
    let mut i: usize = 0;
    proof {
        assert(list.take(0) =~= Seq::empty());
        assert(old(out)@ + Seq::<char>::empty() =~= old(out)@);
    }
    while i < es.len()
        invariant
            i <= es@.len(),
            list == views(es@),
            forall|i: int| 0 <= i < es@.len() ==> short_tag(#[trigger] es@[i]@),
            out@ == old(out)@ + tag_line_texts(list.take(i as int)),
        decreases es@.len() - i,
    {
        proof {
            assert(list.take(i + 1).drop_last() =~= list.take(i as int));
            assert(list.take(i + 1).last() == es@[i as int]@);
        }
        add_tag_line(out, &es[i]);
        proof {
            assert(out@ =~= old(out)@ + tag_line_texts(list.take(i + 1)));
        }
        i += 1;
    }
    proof {
        assert(list.take(i as int) =~= list);
    }
}

/// The ids of a tag can be shortened.
pub open spec fn short_tag(tag: TagInfoView) -> bool {
    has_short(tag.target) && (tag.annotated ==> has_short(tag.object))
}

/// The listing of tags.
pub open spec fn tags_report(tags: Seq<TagInfoView>) -> Seq<char> {
    if tags.len() == 0 {
        "No tags."@
    } else {
        tag_line_texts(tags)
    }
}

pub fn format_repo_tags(tags: &Vec<TagInfo>) -> (r: String)
    requires
        forall|i: int| 0 <= i < tags@.len() ==> short_tag(#[trigger] tags@[i]@),
    ensures
        r@ == tags_report(views(tags@)),
{
    if tags.len() == 0 {
        return "No tags.".to_owned();
    }
    let mut out = String::new();
    add_tag_line_list(&mut out, tags);
    out
}

/// The report on a new tag.
pub open spec fn tag_created_report(tag: TagInfoView) -> Seq<char> {
    if tag.annotated {
        "Created annotated tag '"@ + tag.name + "' at "@ + short(tag.target) + " ("@
            + short(tag.object) + ")"@
    } else {
        "Created tag '"@ + tag.name + "' at "@ + short(tag.target)
    }
}

pub fn format_tag_created(tag: &TagInfo) -> (r: String)
    requires
        short_tag(tag@),
    ensures
        r@ == tag_created_report(tag@),
{
    let mut out = String::new();
    if tag.annotated {
        out.append("Created annotated tag '");
        out.append(tag.name.as_str());
        out.append("' at ");
        out.append(short_id(tag.target.as_str()));
        out.append(" (");
        out.append(short_id(tag.object.as_str()));
        out.append(")");
    } else {
        out.append("Created tag '");
        out.append(tag.name.as_str());
        out.append("' at ");
        out.append(short_id(tag.target.as_str()));
    }
    proof {
        assert(out@ =~= tag_created_report(tag@));
    }
    out
}

/// The report on a deleted tag.
pub open spec fn tag_deleted_report(tag: TagInfoView) -> Seq<char> {
    if tag.annotated {
        "Deleted annotated tag '"@ + tag.name + "' (was "@ + short(tag.target) + " via "@
            + short(tag.object) + ")"@
    } else {
        "Deleted tag '"@ + tag.name + "' (was "@ + short(tag.target) + ")"@
    }
}

pub fn format_tag_deleted(tag: &TagInfo) -> (r: String)
    requires
        short_tag(tag@),
    ensures
        r@ == tag_deleted_report(tag@),
{
    let mut out = String::new();
    if tag.annotated {
        out.append("Deleted annotated tag '");
        out.append(tag.name.as_str());
        out.append("' (was ");
        out.append(short_id(tag.target.as_str()));
        out.append(" via ");
        out.append(short_id(tag.object.as_str()));
        out.append(")");
    } else {
        out.append("Deleted tag '");
        out.append(tag.name.as_str());
        out.append("' (was ");
        out.append(short_id(tag.target.as_str()));
        out.append(")");
    }
    proof {
        assert(out@ =~= tag_deleted_report(tag@));
    }
    out
}

/// A path of an inventory.
#[derive(Debug, Clone, PartialEq, Eq)]
pub struct RepoTrackedPath<S = String> {
    pub path: S,
    pub kind: RepoTrackedPathKind,
    pub storage: RepoPathStorage,
    pub page_count: Option<u32>,
    pub size: Option<u64>,
}

pub type RepoTrackedPathView = RepoTrackedPath<Seq<char>>;

impl View for RepoTrackedPath<String> {
    type V = RepoTrackedPathView;

    open spec fn view(&self) -> RepoTrackedPathView {
        RepoTrackedPath {
            path: self.path@,
            kind: self.kind,
            storage: self.storage,
            page_count: self.page_count,
            size: self.size,
        }
    }
}

/// A tracked path with what is known of its objects.
#[derive(Debug, Clone, PartialEq, Eq)]
pub struct RepoTrackedPathDetail<S = String> {
    pub path: S,
    pub kind: RepoTrackedPathKind,
    pub storage: RepoPathStorage,
    pub page_count: Option<u32>,
    pub size: Option<u64>,
    pub oid: Option<S>,
    pub content_hash: Option<S>,
    pub object_present: Option<bool>,
    pub external_payload_present: Option<bool>,
}

pub type RepoTrackedPathDetailView = RepoTrackedPathDetail<Seq<char>>;

impl View for RepoTrackedPathDetail<String> {
    type V = RepoTrackedPathDetailView;

    open spec fn view(&self) -> RepoTrackedPathDetailView {
        RepoTrackedPathDetail {
            path: self.path@,
            kind: self.kind,
            storage: self.storage,
            page_count: self.page_count,
            size: self.size,
            oid: text_option(self.oid),
            content_hash: text_option(self.content_hash),
            object_present: self.object_present,
            external_payload_present: self.external_payload_present,
        }
    }
}

/// An index entry of an inventory; `oid` is the short form of the object id.
#[derive(Debug, Clone, PartialEq, Eq)]
pub struct RepoTrackedPathEntry<S = String> {
    pub path: S,
    pub kind: RepoTrackedPathKind,
    pub storage: RepoPathStorage,
    pub stage: IndexStage,
    pub mode: Option<S>,
    pub oid: Option<S>,
    pub page_count: Option<u32>,
    pub size: Option<u64>,
}

pub type RepoTrackedPathEntryView = RepoTrackedPathEntry<Seq<char>>;

impl View for RepoTrackedPathEntry<String> {
    type V = RepoTrackedPathEntryView;

    open spec fn view(&self) -> RepoTrackedPathEntryView {
        RepoTrackedPathEntry {
            path: self.path@,
            kind: self.kind,
            storage: self.storage,
            stage: self.stage,
            mode: text_option(self.mode),
            oid: text_option(self.oid),
            page_count: self.page_count,
            size: self.size,
        }
    }
}

/// A number, or a question mark where it is not known.
pub open spec fn number_or_unknown(n: Option<u64>) -> Seq<char> {
    match n {
        Some(n) => decimal(n as nat),
        None => "?"@,
    }
}

fn show_number_or_unknown(n: Option<u64>) -> (r: String)
    ensures
        r@ == number_or_unknown(n),
{
    match n {
        Some(n) => show_u64(n),
        None => "?".to_owned(),
    }
}

pub open spec fn widened(n: Option<u32>) -> Option<u64> {
    match n {
        Some(n) => Some(n as u64),
        None => None,
    }
}

fn widen(n: Option<u32>) -> (r: Option<u64>)
    ensures
        r == widened(n),
{
    match n {
        Some(n) => Some(n as u64),
        None => None,
    }
}

pub open spec fn text_or(s: Option<Seq<char>>, otherwise: Seq<char>) -> Seq<char> {
    match s {
        Some(t) => t,
        None => otherwise,
    }
}

fn show_text_or<'a>(s: &'a Option<String>, otherwise: &'a str) -> (r: &'a str)
    ensures
        r@ == text_or(text_option(*s), otherwise@),
{
    match s {
        Some(t) => t.as_str(),
        None => otherwise,
    }
}

/// A path of an inventory.
pub open spec fn inventory_line_text(e: RepoTrackedPathView) -> Seq<char> {
    if e.kind == RepoTrackedPathKind::SqliteDatabase {
        match e.page_count {
            Some(pages) => e.path + " (sqlite, "@ + storage_name(e.storage) + ", "@ + decimal(pages as nat)
                + " page(s))\n"@,
            None => e.path + " (sqlite, "@ + storage_name(e.storage) + ", "@ + number_or_unknown(e.size)
                + " byte(s))\n"@,
        }
    } else {
        e.path + " ("@ + kind_name(e.kind) + ", "@ + storage_name(e.storage) + ", "@
            + number_or_unknown(e.size) + " byte(s))\n"@
    }
}

fn add_inventory_line(out: &mut String, e: &RepoTrackedPath)
    ensures
        final(out)@ == old(out)@ + inventory_line_text(e@),
{
    if e.kind == RepoTrackedPathKind::SqliteDatabase {
        match &e.page_count {
            Some(pages) => {
                out.append(e.path.as_str());
                out.append(" (sqlite, ");
                out.append(repo_path_storage_label(e.storage));
                out.append(", ");
                out.append(show_u64(*pages as u64).as_str());
                out.append(" page(s))\n");
            },
            None => {
                out.append(e.path.as_str());
                out.append(" (sqlite, ");
                out.append(repo_path_storage_label(e.storage));
                out.append(", ");
                out.append(show_number_or_unknown(e.size).as_str());
                out.append(" byte(s))\n");
            },
        }
    } else {
        out.append(e.path.as_str());
        out.append(" (");
        out.append(repo_tracked_path_kind_label(e.kind));
        out.append(", ");
        out.append(repo_path_storage_label(e.storage));
        out.append(", ");
        out.append(show_number_or_unknown(e.size).as_str());
        out.append(" byte(s))\n");
    }
    proof {
        assert(out@ =~= old(out)@ + inventory_line_text(e@));
    }
}

pub open spec fn inventory_line_texts(es: Seq<RepoTrackedPathView>) -> Seq<char>
    decreases es.len(),
{
    if es.len() == 0 {
        Seq::empty()
    } else {
        inventory_line_texts(es.drop_last()) + inventory_line_text(es.last())
    }
}

fn add_inventory_line_list(out: &mut String, es: &Vec<RepoTrackedPath>)
    ensures
        final(out)@ == old(out)@ + inventory_line_texts(views(es@)),
{
    let ghost list = views(es@);
    let mut i: usize = 0;
    proof {
        assert(list.take(0) =~= Seq::empty());
        assert(old(out)@ + Seq::<char>::empty() =~= old(out)@);
    }
    while i < es.len()
        invariant
            i <= es@.len(),
            list == views(es@),
            out@ == old(out)@ + inventory_line_texts(list.take(i as int)),
        decreases es@.len() - i,
    {
        proof {
            assert(list.take(i + 1).drop_last() =~= list.take(i as int));
            assert(list.take(i + 1).last() == es@[i as int]@);
        }
        add_inventory_line(out, &es[i]);
        proof {
            assert(out@ =~= old(out)@ + inventory_line_texts(list.take(i + 1)));
        }
        i += 1;
    }
    proof {
        assert(list.take(i as int) =~= list);
    }
}

/// The inventory of paths, or what is said where there are none.
pub open spec fn inventory_report(paths: Seq<RepoTrackedPathView>, empty: Seq<char>) -> Seq<char> {
    if paths.len() == 0 {
        empty + "\n"@
    } else {
        inventory_line_texts(paths)
    }
}

pub fn format_repo_path_inventory(paths: &Vec<RepoTrackedPath>, empty_message: &str) -> (r: String)
    ensures
        r@ == inventory_report(views(paths@), empty_message@),
{
    let mut out = String::new();
    if paths.len() == 0 {
        out = empty_message.to_owned();
        out.append("\n");
        return out;
    }
    add_inventory_line_list(&mut out, paths);
    out
}

pub fn format_repo_tracked_paths(paths: &Vec<RepoTrackedPath>) -> (r: String)
    ensures
        r@ == inventory_report(views(paths@), "No tracked paths."@),
{
    format_repo_path_inventory(paths, "No tracked paths.")
}

pub fn format_repo_untracked_paths(paths: &Vec<RepoTrackedPath>) -> (r: String)
    ensures
        r@ == inventory_report(views(paths@), "No untracked paths."@),
{
    format_repo_path_inventory(paths, "No untracked paths.")
}

/// What is known of the content of an ordinary file.
pub open spec fn content_text(e: RepoTrackedPathDetailView) -> Seq<char> {
    number_or_unknown(e.size) + " byte(s)"@ + ", oid "@ + text_or(e.oid, "?"@) + ", hash "@ + text_or(
        e.content_hash,
        "?"@,
    ) + ", object "@ + presence_name(e.object_present) + (if e.storage == RepoPathStorage::External {
        ", payload "@ + presence_name(e.external_payload_present)
    } else {
        Seq::empty()
    })
}

fn add_content(out: &mut String, e: &RepoTrackedPathDetail)
    ensures
        final(out)@ == old(out)@ + content_text(e@),
{
    out.append(show_number_or_unknown(e.size).as_str());
    out.append(" byte(s)");
    out.append(", oid ");
    out.append(show_text_or(&e.oid, "?"));
    out.append(", hash ");
    out.append(show_text_or(&e.content_hash, "?"));
    out.append(", object ");
    out.append(presence_label(e.object_present));
    let ghost b = out@;
    if e.storage == RepoPathStorage::External {
        out.append(", payload ");
        out.append(presence_label(e.external_payload_present));
    }
    proof {
        let payload = if e.storage == RepoPathStorage::External {
            ", payload "@ + presence_name(e@.external_payload_present)
        } else {
            Seq::empty()
        };
        assert(out@ =~= b + payload);
        assert(out@ =~= old(out)@ + content_text(e@));
    }
}

/// A tracked path with its details.
pub open spec fn detail_line_text(e: RepoTrackedPathDetailView) -> Seq<char> {
    if e.kind == RepoTrackedPathKind::SqliteDatabase {
        e.path + " (sqlite, "@ + storage_name(e.storage) + ", "@ + number_or_unknown(
            widened(e.page_count),
        ) + " page(s))\n"@
    } else {
        e.path + " ("@ + kind_name(e.kind) + ", "@ + storage_name(e.storage) + ", "@ + content_text(e)
            + ")\n"@
    }
}

fn add_detail_line(out: &mut String, e: &RepoTrackedPathDetail)
    ensures
        final(out)@ == old(out)@ + detail_line_text(e@),
{
    if e.kind == RepoTrackedPathKind::SqliteDatabase {
        out.append(e.path.as_str());
        out.append(" (sqlite, ");
        out.append(repo_path_storage_label(e.storage));
        out.append(", ");
        out.append(show_number_or_unknown(widen(e.page_count)).as_str());
        out.append(" page(s))\n");
    } else {
        out.append(e.path.as_str());
        out.append(" (");
        out.append(repo_tracked_path_kind_label(e.kind));
        out.append(", ");
        out.append(repo_path_storage_label(e.storage));
        out.append(", ");
        add_content(out, e);
        out.append(")\n");
    }
    proof {
        assert(out@ =~= old(out)@ + detail_line_text(e@));
    }
}

pub open spec fn detail_line_texts(es: Seq<RepoTrackedPathDetailView>) -> Seq<char>
    decreases es.len(),
{
    if es.len() == 0 {
        Seq::empty()
    } else {
        detail_line_texts(es.drop_last()) + detail_line_text(es.last())
    }
}

fn add_detail_line_list(out: &mut String, es: &Vec<RepoTrackedPathDetail>)
    ensures
        final(out)@ == old(out)@ + detail_line_texts(views(es@)),
{
    let ghost list = views(es@);
    let mut i: usize = 0;
    proof {
        assert(list.take(0) =~= Seq::empty());
        assert(old(out)@ + Seq::<char>::empty() =~= old(out)@);
    }
    while i < es.len()
        invariant
            i <= es@.len(),
            list == views(es@),
            out@ == old(out)@ + detail_line_texts(list.take(i as int)),
        decreases es@.len() - i,
    {
        proof {
            assert(list.take(i + 1).drop_last() =~= list.take(i as int));
            assert(list.take(i + 1).last() == es@[i as int]@);
        }
        add_detail_line(out, &es[i]);
        proof {
            assert(out@ =~= old(out)@ + detail_line_texts(list.take(i + 1)));
        }
        i += 1;
    }
    proof {
        assert(list.take(i as int) =~= list);
    }
}

/// An index entry.
pub open spec fn entry_line_text(e: RepoTrackedPathEntryView) -> Seq<char> {
    stage_name(e.stage) + " "@ + text_or(e.mode, "------"@) + " "@ + text_or(e.oid, "------------"@)
        + " "@ + e.path
        + (if e.kind == RepoTrackedPathKind::SqliteDatabase {
            " (sqlite, "@ + storage_name(e.storage) + ", "@
                + number_or_unknown(widened(e.page_count)) + " page(s))\n"@
        } else {
            " ("@ + kind_name(e.kind) + ", "@ + storage_name(e.storage) + ", "@
                + number_or_unknown(e.size) + " byte(s))\n"@
        })
}

fn add_entry_line(out: &mut String, e: &RepoTrackedPathEntry)
    ensures
        final(out)@ == old(out)@ + entry_line_text(e@),
{
    out.append(repo_index_stage_label(e.stage));
    out.append(" ");
    out.append(show_text_or(&e.mode, "------"));
    out.append(" ");
    out.append(show_text_or(&e.oid, "------------"));
    out.append(" ");
    out.append(e.path.as_str());
    if e.kind == RepoTrackedPathKind::SqliteDatabase {
        out.append(" (sqlite, ");
        out.append(repo_path_storage_label(e.storage));
        out.append(", ");
        out.append(show_number_or_unknown(widen(e.page_count)).as_str());
        out.append(" page(s))\n");
    } else {
        out.append(" (");
        out.append(repo_tracked_path_kind_label(e.kind));
        out.append(", ");
        out.append(repo_path_storage_label(e.storage));
        out.append(", ");
        out.append(show_number_or_unknown(e.size).as_str());
        out.append(" byte(s))\n");
    }
    proof {
        assert(out@ =~= old(out)@ + entry_line_text(e@));
    }
}

pub open spec fn entry_line_texts(es: Seq<RepoTrackedPathEntryView>) -> Seq<char>
    decreases es.len(),
{
    if es.len() == 0 {
        Seq::empty()
    } else {
        entry_line_texts(es.drop_last()) + entry_line_text(es.last())
    }
}

fn add_entry_line_list(out: &mut String, es: &Vec<RepoTrackedPathEntry>)
    ensures
        final(out)@ == old(out)@ + entry_line_texts(views(es@)),
{
    let ghost list = views(es@);
    let mut i: usize = 0;
    proof {
        assert(list.take(0) =~= Seq::empty());
        assert(old(out)@ + Seq::<char>::empty() =~= old(out)@);
    }
    while i < es.len()
        invariant
            i <= es@.len(),
            list == views(es@),
            out@ == old(out)@ + entry_line_texts(list.take(i as int)),
        decreases es@.len() - i,
    {
        proof {
            assert(list.take(i + 1).drop_last() =~= list.take(i as int));
            assert(list.take(i + 1).last() == es@[i as int]@);
        }
        add_entry_line(out, &es[i]);
        proof {
            assert(out@ =~= old(out)@ + entry_line_texts(list.take(i + 1)));
        }
        i += 1;
    }
    proof {
        assert(list.take(i as int) =~= list);
    }
}

/// The listing of tracked paths.
pub open spec fn details_report(paths: Seq<RepoTrackedPathDetailView>) -> Seq<char> {
    if paths.len() == 0 {
        "No tracked paths.\n"@
    } else {
        detail_line_texts(paths)
    }
}

pub fn format_repo_tracked_path_details(paths: &Vec<RepoTrackedPathDetail>) -> (r: String)
    ensures
        r@ == details_report(views(paths@)),
{
    if paths.len() == 0 {
        return "No tracked paths.\n".to_owned();
    }
    let mut out = String::new();
    add_detail_line_list(&mut out, paths);
    out
}

/// The listing of tracked paths.
pub open spec fn entries_report(paths: Seq<RepoTrackedPathEntryView>) -> Seq<char> {
    if paths.len() == 0 {
        "No tracked paths.\n"@
    } else {
        entry_line_texts(paths)
    }
}

pub fn format_repo_tracked_path_entries(paths: &Vec<RepoTrackedPathEntry>) -> (r: String)
    ensures
        r@ == entries_report(views(paths@)),
{
    if paths.len() == 0 {
        return "No tracked paths.\n".to_owned();
    }
    let mut out = String::new();
    add_entry_line_list(&mut out, paths);
    out
}

/// A configuration key and its value.
#[derive(Debug, Clone, PartialEq, Eq)]
pub struct RepoConfigEntry<S = String> {
    pub key: S,
    pub value: S,
}

pub type RepoConfigEntryView = RepoConfigEntry<Seq<char>>;

impl View for RepoConfigEntry<String> {
    type V = RepoConfigEntryView;

    open spec fn view(&self) -> RepoConfigEntryView {
        RepoConfigEntry { key: self.key@, value: self.value@ }
    }
}

/// A configuration entry.
pub open spec fn config_entry_text(e: RepoConfigEntryView) -> Seq<char> {
    e.key + " = "@ + e.value + "\n"@
}

fn add_config_entry(out: &mut String, e: &RepoConfigEntry)
    ensures
        final(out)@ == old(out)@ + config_entry_text(e@),
{
    out.append(e.key.as_str());
    out.append(" = ");
    out.append(e.value.as_str());
    out.append("\n");
    proof {
        assert(out@ =~= old(out)@ + config_entry_text(e@));
    }
}

pub open spec fn config_entry_texts(es: Seq<RepoConfigEntryView>) -> Seq<char>
    decreases es.len(),
{
    if es.len() == 0 {
        Seq::empty()
    } else {
        config_entry_texts(es.drop_last()) + config_entry_text(es.last())
    }
}

fn add_config_entry_list(out: &mut String, es: &Vec<RepoConfigEntry>)
    ensures
        final(out)@ == old(out)@ + config_entry_texts(views(es@)),
{
    let ghost list = views(es@);
    let mut i: usize = 0;
    proof {
        assert(list.take(0) =~= Seq::empty());
        assert(old(out)@ + Seq::<char>::empty() =~= old(out)@);
    }
    while i < es.len()
        invariant
            i <= es@.len(),
            list == views(es@),
            out@ == old(out)@ + config_entry_texts(list.take(i as int)),
        decreases es@.len() - i,
    {
        proof {
            assert(list.take(i + 1).drop_last() =~= list.take(i as int));
            assert(list.take(i + 1).last() == es@[i as int]@);
        }
        add_config_entry(out, &es[i]);
        proof {
            assert(out@ =~= old(out)@ + config_entry_texts(list.take(i + 1)));
        }
        i += 1;
    }
    proof {
        assert(list.take(i as int) =~= list);
    }
}

pub fn format_repo_config_entry(entry: &RepoConfigEntry) -> (r: String)
    ensures
        r@ == config_entry_text(entry@),
{
    let mut out = String::new();
    add_config_entry(&mut out, entry);
    proof {
        assert(out@ =~= config_entry_text(entry@));
    }
    out
}

pub fn format_repo_config_entries(entries: &Vec<RepoConfigEntry>) -> (r: String)
    ensures
        r@ == config_entry_texts(views(entries@)),
{
    let mut out = String::new();
    add_config_entry_list(&mut out, entries);
    out
}

/// A path on a line of its own, after a line break.
pub open spec fn listed_path_text(e: Seq<char>) -> Seq<char> {
    "\n  "@ + e
}

fn add_listed_path(out: &mut String, e: &String)
    ensures
        final(out)@ == old(out)@ + listed_path_text(e@),
{
    out.append("\n  ");
    out.append(e.as_str());
    proof {
        assert(out@ =~= old(out)@ + listed_path_text(e@));
    }
}

pub open spec fn listed_path_texts(es: Seq<Seq<char>>) -> Seq<char>
    decreases es.len(),
{
    if es.len() == 0 {
        Seq::empty()
    } else {
        listed_path_texts(es.drop_last()) + listed_path_text(es.last())
    }
}

fn add_listed_path_list(out: &mut String, es: &Vec<String>)
    ensures
        final(out)@ == old(out)@ + listed_path_texts(texts(es@)),
{
    let ghost list = texts(es@);
    let mut i: usize = 0;
    proof {
        assert(list.take(0) =~= Seq::empty());
        assert(old(out)@ + Seq::<char>::empty() =~= old(out)@);
    }
    while i < es.len()
        invariant
            i <= es@.len(),
            list == texts(es@),
            out@ == old(out)@ + listed_path_texts(list.take(i as int)),
        decreases es@.len() - i,
    {
        proof {
            assert(list.take(i + 1).drop_last() =~= list.take(i as int));
            assert(list.take(i + 1).last() == es@[i as int]@);
        }
        add_listed_path(out, &es[i]);
        proof {
            assert(out@ =~= old(out)@ + listed_path_texts(list.take(i + 1)));
        }
        i += 1;
    }
    proof {
        assert(list.take(i as int) =~= list);
    }
}

/// One path, or their number and the paths themselves.
pub open spec fn path_list(count: nat, paths: Seq<Seq<char>>) -> Seq<char> {
    if paths.len() == 1 {
        paths[0]
    } else {
        decimal(count) + " paths"@ + listed_path_texts(paths)
    }
}

pub fn format_repo_path_list(count: usize, paths: &Vec<String>) -> (r: String)
    ensures
        r@ == path_list(count as nat, texts(paths@)),
{
    if paths.len() == 1 {
        return paths[0].clone();
    }
    let mut out = show_u64(count as u64);
    out.append(" paths");
    add_listed_path_list(&mut out, paths);
    out
}

/// `verb` and the paths it was done to.
pub open spec fn done_to_paths(verb: Seq<char>, paths: Seq<Seq<char>>) -> Seq<char> {
    if paths.len() == 1 {
        verb + " "@ + paths[0]
    } else {
        verb + " "@ + decimal(paths.len()) + " paths"@ + listed_path_texts(paths)
    }
}

fn show_done_to_paths(verb: &str, paths: &Vec<String>) -> (r: String)
    ensures
        r@ == done_to_paths(verb@, texts(paths@)),
{
    let mut out = verb.to_owned();
    out.append(" ");
    if paths.len() == 1 {
        out.append(paths[0].as_str());
        return out;
    }
    out.append(show_u64(paths.len() as u64).as_str());
    out.append(" paths");
    add_listed_path_list(&mut out, paths);
    out
}

/// The report on added paths.
pub fn format_added_entries(paths: &Vec<String>) -> (r: String)
    ensures
        r@ == done_to_paths("Added"@, texts(paths@)),
{
    show_done_to_paths("Added", paths)
}

/// The report on removed paths.
pub fn format_removed_paths(paths: &Vec<String>) -> (r: String)
    ensures
        r@ == done_to_paths("Removed"@, texts(paths@)),
{
    show_done_to_paths("Removed", paths)
}

/// The report on restored paths: `path` where exactly one was restored.
pub fn format_restore_outcome(path: &Option<String>, paths: &Vec<String>) -> (r: String)
    ensures
        r@ == "Restored "@ + match text_option(*path) {
            Some(p) => p,
            None => path_list(paths@.len(), texts(paths@)),
        },
{
    let mut out = "Restored ".to_owned();
    match path {
        Some(p) => out.append(p.as_str()),
        None => {
            let list = format_repo_path_list(paths.len(), paths);
            out.append(list.as_str());
        },
    }
    out
}

/// The report on a checkout.
pub open spec fn checkout_report(
    path: Option<Seq<char>>,
    paths: Seq<Seq<char>>,
    target: Seq<char>,
) -> Seq<char> {
    match path {
        Some(path) => "Checked out "@ + path + " from "@ + short(target),
        None => if paths.len() > 0 {
            "Checked out "@ + decimal(paths.len()) + " paths from "@ + short(target) + listed_path_texts(paths)
        } else {
            "HEAD detached at "@ + short(target)
        },
    }
}

pub fn format_checkout_outcome(path: &Option<String>, paths: &Vec<String>, target: &str) -> (r:
    String)
    requires
        has_short(target@),
    ensures
        r@ == checkout_report(text_option(*path), texts(paths@), target@),
{
    match path {
        Some(path) => {
            let mut out = "Checked out ".to_owned();
            out.append(path.as_str());
            out.append(" from ");
            out.append(short_id(target));
            out
        },
        None => {
            if paths.len() > 0 {
                let mut out = "Checked out ".to_owned();
                out.append(show_u64(paths.len() as u64).as_str());
                out.append(" paths from ");
                out.append(short_id(target));
                add_listed_path_list(&mut out, paths);
                out
            } else {
                let mut out = "HEAD detached at ".to_owned();
                out.append(short_id(target));
                out
            }
        },
    }
}

/// Every line of `text` after `prefix`, each ended by a line feed.
pub open spec fn indented_lines(text: Seq<Seq<char>>, prefix: Seq<char>) -> Seq<char>
    decreases text.len(),
{
    if text.len() == 0 {
        Seq::empty()
    } else {
        indented_lines(text.drop_last(), prefix) + prefix + text.last() + "\n"@
    }
}

pub fn write_indented(out: &mut String, text: &str, prefix: &str)
    ensures
        final(out)@ == old(out)@ + indented_lines(lines(text@), prefix@),
{
    let all = split_lines(text);
    let ghost ls = lines(text@);
    let mut i: usize = 0;
    proof {
        assert(ls.take(0) =~= Seq::empty());
        assert(old(out)@ + Seq::<char>::empty() =~= old(out)@);
    }
    while i < all.len()
        invariant
            i <= all@.len(),
            ls == texts(all@),
            out@ == old(out)@ + indented_lines(ls.take(i as int), prefix@),
        decreases all@.len() - i,
    {
        proof {
            assert(ls.take(i + 1).drop_last() =~= ls.take(i as int));
            assert(ls.take(i + 1).last() == all@[i as int]@);
        }
        out.append(prefix);
        out.append(all[i].as_str());
        out.append("\n");
        proof {
            assert(out@ =~= old(out)@ + indented_lines(ls.take(i + 1), prefix@));
        }
        i += 1;
    }
    proof {
        assert(ls.take(i as int) =~= ls);
    }
}

} // verus!
