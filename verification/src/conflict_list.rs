//! The conflicts of a merge as a list, counted by path, and what is said of their rows.
use vstd::prelude::*;
use vstd::string::*;

use crate::conflict_report::{
    path_artifacts, row_change_kind_label, row_change_name, ConflictContext,
    JsonConflictArtifact, JsonConflictArtifactView, JsonConflictPath, JsonConflictPathView,
    PlanResultView, RowConflictDetail, RowConflictDetailView, RowMergePlan, RowMergePlanView,
};
use crate::conflicts::{identity_label, row_identity_label, RowConflictResolutionState};
use crate::error::{seen, text_option};
use crate::labels::{file_change_name, repo_file_change_label};
use crate::merge::{merge_outcome_with_row_auto_merge, merged_by_rows};
use crate::model::{MergeOutcome, MergeOutcomeView};
use crate::number::{decimal, show_usize};
use crate::order::{ascending, insert_keys, lists, KeyMap};
use crate::report::{indented_lines, write_indented, RepoDiff, RepoDiffView, RepoFileDiffView};
use crate::report_sync::{
    append_row_auto_merge_result, format_merge_outcome, format_pull_outcome, merge_report,
    on_new_line, pull_report, row_auto_merge_text, short_merge, start_line, PullOutcome,
    RowAutoMergeResult,
};
use crate::show::{has_short, lines, short, short_id, views};
use crate::text::{same, texts};

verus! {

/// The paths with conflicts: those that are in conflict and those that were when the merge began, in
/// ascending order.
pub fn conflict_paths(
    conflicted: &Vec<String>,
    state: &RowConflictResolutionState,
) -> (r: Vec<String>)
    requires
        state.wf(),
    ensures
        ascending(texts(r@)),
        forall|k: Seq<char>| #[trigger]
            texts(r@).contains(k) == (texts(conflicted@).contains(k) || state.paths@.contains_key(k)),
{
    let mut out: Vec<String> = Vec::new();
    insert_keys(&mut out, conflicted);
    insert_keys(&mut out, &state.paths.keys);
    out
}

/// How many conflicts a path has.
pub open spec fn path_total(cs: Seq<JsonConflictArtifactView>, path: Seq<char>) -> nat
    decreases cs.len(),
{
    if cs.len() == 0 {
        0
    } else {
        path_total(cs.drop_last(), path) + if cs.last().path == path {
            1nat
        } else {
            0nat
        }
    }
}

/// How many conflicts of a path are resolved.
pub open spec fn path_resolved(cs: Seq<JsonConflictArtifactView>, path: Seq<char>) -> nat
    decreases cs.len(),
{
    if cs.len() == 0 {
        0
    } else {
        path_resolved(cs.drop_last(), path) + if cs.last().path == path && cs.last().status
            == "resolved"@ {
            1nat
        } else {
            0nat
        }
    }
}

/// The last conflict of a path.
pub open spec fn last_of_path(cs: Seq<JsonConflictArtifactView>, path: Seq<char>) -> Option<
    JsonConflictArtifactView,
>
    decreases cs.len(),
{
    if cs.len() == 0 {
        None
    } else if cs.last().path == path {
        Some(cs.last())
    } else {
        last_of_path(cs.drop_last(), path)
    }
}

/// A path and its conflicts, counted.
pub open spec fn path_summary(cs: Seq<JsonConflictArtifactView>, path: Seq<char>) -> JsonConflictPathView {
    let total = path_total(cs, path);
    let resolved = path_resolved(cs, path);
    JsonConflictPath {
        path,
        kind: last_of_path(cs, path)->0.path_kind,
        storage: last_of_path(cs, path)->0.storage,
        status: if total == resolved {
            "resolved"@
        } else {
            "unresolved"@
        },
        total: total as usize,
        unresolved: (total - resolved) as usize,
        resolved: resolved as usize,
    }
}

/// The conflicts of a path are counted once each, as resolved or not.
pub proof fn law_path_counts_add_up(cs: Seq<JsonConflictArtifactView>, path: Seq<char>)
    ensures
        path_resolved(cs, path) <= path_total(cs, path) <= cs.len(),
    decreases cs.len(),
{
    if cs.len() > 0 {
        law_path_counts_add_up(cs.drop_last(), path);
    }
}

struct PathCounts {
    kind: String,
    storage: String,
    total: usize,
    resolved: usize,
}

spec fn counted(c: PathCounts, cs: Seq<JsonConflictArtifactView>, path: Seq<char>) -> bool {
    &&& last_of_path(cs, path) is Some
    &&& c.kind@ == last_of_path(cs, path)->0.path_kind
    &&& c.storage@ == last_of_path(cs, path)->0.storage
    &&& c.total == path_total(cs, path)
    &&& c.resolved == path_resolved(cs, path)
}

spec fn holds_counts(m: KeyMap<PathCounts>, cs: Seq<JsonConflictArtifactView>) -> bool {
    &&& m.wf()
    &&& forall|k: Seq<char>| #[trigger] m@.contains_key(k) == (last_of_path(cs, k) is Some)
    &&& forall|k: Seq<char>| #[trigger] m@.contains_key(k) ==> counted(m@[k], cs, k)
}

proof fn lemma_none_counted(cs: Seq<JsonConflictArtifactView>, path: Seq<char>)
    requires
        last_of_path(cs, path) is None,
    ensures
        path_total(cs, path) == 0,
        path_resolved(cs, path) == 0,
    decreases cs.len(),
{
    if cs.len() > 0 {
        lemma_none_counted(cs.drop_last(), path);
    }
}

fn count_conflict(
    m: &mut KeyMap<PathCounts>,
    c: &JsonConflictArtifact,
    before: Ghost<Seq<JsonConflictArtifactView>>,
)
    requires
        holds_counts(*old(m), before@),
        before@.len() < usize::MAX,
    ensures
        holds_counts(*final(m), before@.push(c@)),
{
    let ghost all = before@.push(c@);
    proof {
        assert(all.drop_last() =~= before@);
        law_path_counts_add_up(before@, c@.path);
        if last_of_path(before@, c@.path) is None {
            lemma_none_counted(before@, c@.path);
        }
    }
    let (total, resolved): (usize, usize) = match m.get(c.path.as_str()) {
        Some(counts) => (counts.total, counts.resolved),
        None => (0, 0),
    };
    let hit: usize = if same(c.status.as_str(), "resolved") {
        1
    } else {
        0
    };
    let counts = PathCounts {
        kind: c.path_kind.clone(),
        storage: c.storage.clone(),
        total: total + 1,
        resolved: resolved + hit,
    };
    m.put(c.path.as_str(), counts);
}

/// The paths of a list.
pub open spec fn listed_paths(list: Seq<JsonConflictPathView>) -> Seq<Seq<char>> {
    Seq::new(list.len(), |i: int| list[i].path)
}

/// The conflicts counted by path, in ascending order of the paths.
pub fn json_conflict_paths(conflicts: &Vec<JsonConflictArtifact>) -> (r: Vec<JsonConflictPath>)
    ensures
        ascending(listed_paths(views(r@))),
        forall|k: Seq<char>| #[trigger]
            listed_paths(views(r@)).contains(k) == (last_of_path(views(conflicts@), k) is Some),
        forall|i: int|
            0 <= i < r@.len() ==> (#[trigger] r@[i])@ == path_summary(
                views(conflicts@),
                r@[i]@.path,
            ),
{
    let ghost all = views(conflicts@);
    let mut m: KeyMap<PathCounts> = KeyMap::new();
    let n: usize = conflicts.len();
    let mut i: usize = 0;
    while i < n
        invariant
            n == conflicts@.len(),
            i <= n,
            all == views(conflicts@),
            holds_counts(m, all.take(i as int)),
        decreases n - i,
    {
        proof {
            assert(all[i as int] == conflicts@[i as int]@);
            assert(all.take(i + 1) =~= all.take(i as int).push(all[i as int]));
        }
        count_conflict(&mut m, &conflicts[i], Ghost(all.take(i as int)));
        i += 1;
    }
    proof {
        assert(all.take(n as int) =~= all);
    }
    let mut out: Vec<JsonConflictPath> = Vec::new();
    let count: usize = m.keys.len();
    let mut j: usize = 0;
    while j < count
        invariant
            count == m.keys@.len(),
            j <= count,
            all.len() <= usize::MAX,
            holds_counts(m, all),
            out@.len() == j,
            forall|k: int| 0 <= k < j ==> (#[trigger] out@[k])@ == path_summary(all, m.names()[k]),
        decreases count - j,
    {
        proof {
            m.lemma_at(j as int);
            law_path_counts_add_up(all, m.names()[j as int]);
        }
        let c = &m.values[j];
        let unresolved: usize = c.total - c.resolved;
        out.push(
            JsonConflictPath {
                path: m.keys[j].clone(),
                kind: c.kind.clone(),
                storage: c.storage.clone(),
                status: (if unresolved == 0 {
                    "resolved"
                } else {
                    "unresolved"
                }).to_owned(),
                total: c.total,
                unresolved,
                resolved: c.resolved,
            },
        );
        j += 1;
    }
    proof {
        assert(listed_paths(views(out@)) =~= m.names());
        assert forall|k: Seq<char>| #[trigger] listed_paths(views(out@)).contains(k) == (
        last_of_path(all, k) is Some) by {
            assert(m@.contains_key(k) == (last_of_path(all, k) is Some));
        }
    }
    out
}

/// How many conflicts are not resolved.
pub open spec fn unresolved_total(cs: Seq<JsonConflictArtifactView>) -> nat
    decreases cs.len(),
{
    if cs.len() == 0 {
        0
    } else {
        unresolved_total(cs.drop_last()) + if cs.last().status == "unresolved"@ {
            1nat
        } else {
            0nat
        }
    }
}

pub fn unresolved_conflict_artifact_count(conflicts: &Vec<JsonConflictArtifact>) -> (r: usize)
    ensures
        r == unresolved_total(views(conflicts@)),
{
    let ghost all = views(conflicts@);
    let mut count: usize = 0;
    let n: usize = conflicts.len();
    let mut i: usize = 0;
    proof {
        assert(all.take(0) =~= Seq::empty());
    }
    while i < n
        invariant
            n == conflicts@.len(),
            i <= n,
            all == views(conflicts@),
            count <= i,
            count == unresolved_total(all.take(i as int)),
        decreases n - i,
    {
        proof {
            assert(all.take(i + 1).drop_last() =~= all.take(i as int));
            assert(all.take(i + 1).last() == conflicts@[i as int]@);
        }
        if same(conflicts[i].status.as_str(), "unresolved") {
            count = count + 1;
        }
        i += 1;
    }
    proof {
        assert(all.take(n as int) =~= all);
    }
    count
}

/// Once a path has left the index of conflicts with a resolution, every conflict that is reported of
/// it is resolved.
pub proof fn law_resolved_path_has_no_open_conflict(
    x: ConflictContext,
    analysis_error: Option<Seq<char>>,
    three_states: bool,
    result: PlanResultView,
)
    requires
        x.path_resolution is Some,
        !x.unmerged,
    ensures
        forall|i: int|
            0 <= i < path_artifacts(x, analysis_error, three_states, result).len()
                ==> (#[trigger] path_artifacts(x, analysis_error, three_states, result)[i]).status
                == "resolved"@,
{
}

/// A path in conflict whose merge failed is reported as that alone, whatever its rows are.
pub proof fn law_recorded_failure_comes_first(
    x: ConflictContext,
    error: Seq<char>,
    three_states: bool,
    result: PlanResultView,
)
    requires
        x.unmerged,
    ensures
        path_artifacts(x, Some(error), three_states, result).len() == 1,
        path_artifacts(x, Some(error), three_states, result)[0].reason
            == "candidate_validation_failed"@,
        path_artifacts(x, Some(error), three_states, result)[0].message == Some(error),
{
}

/// One row in conflict.
pub open spec fn row_conflict_text(c: RowConflictDetailView) -> Seq<char> {
    "    "@ + c.table + " "@ + identity_label(c.identity) + " (ours "@ + row_change_name(c.ours)
        + ", theirs "@ + row_change_name(c.theirs) + ")\n"@
}

/// The rows in conflict, one on each line.
pub open spec fn row_conflict_texts(cs: Seq<RowConflictDetailView>) -> Seq<char>
    decreases cs.len(),
{
    if cs.len() == 0 {
        Seq::empty()
    } else {
        row_conflict_texts(cs.drop_last()) + row_conflict_text(cs.last())
    }
}

/// A line with a number, where the number is not zero.
pub open spec fn count_text(label: Seq<char>, n: nat) -> Seq<char> {
    if n == 0 {
        Seq::empty()
    } else {
        label + decimal(n) + "\n"@
    }
}

/// The report on the rows of a merge.
pub open spec fn analysis_report(key: Seq<char>, three_states: bool, plan: RowMergePlanView) -> Seq<char> {
    "Row-level analysis for "@ + key + ":\n"@ + (if three_states {
        plan_text(plan)
    } else {
        "  unavailable: merge involves add/delete of this tracked path.\n"@
    })
}

/// What a plan says of the rows of a merge.
pub open spec fn plan_text(plan: RowMergePlanView) -> Seq<char> {
    "  ours: "@ + decimal(plan.ours_changes as nat) + " row change(s)\n  theirs: "@ + decimal(
        plan.theirs_changes as nat,
    ) + " row change(s)\n"@ + count_text("  resolved opaque change(s): "@, plan.resolved_opaque.len())
        + count_text("  unresolved opaque change(s): "@, plan.opaque_changes as nat) + count_text(
        "  schema conflict(s): "@,
        plan.schema_conflicts.len(),
    ) + (if plan.conflicts.len() > 0 {
        "  Row conflicts:\n"@ + row_conflict_texts(plan.conflicts)
    } else if plan.opaque_changes == 0 && plan.schema_conflicts.len() == 0 {
        "  No row conflicts detected; row-level auto-merge candidate.\n"@
    } else {
        "  No row conflicts detected.\n"@
    })
}

fn add_count(out: &mut String, label: &str, n: usize)
    ensures
        final(out)@ == old(out)@ + count_text(label@, n as nat),
{
    if n != 0 {
        out.append(label);
        out.append(show_usize(n).as_str());
        out.append("\n");
    }
    proof {
        assert(out@ =~= old(out)@ + count_text(label@, n as nat));
    }
}

fn add_row_conflicts(out: &mut String, cs: &Vec<RowConflictDetail>)
    ensures
        final(out)@ == old(out)@ + row_conflict_texts(views(cs@)),
{
    let ghost all = views(cs@);
    let n: usize = cs.len();
    let mut i: usize = 0;
    proof {
        assert(all.take(0) =~= Seq::empty());
        assert(old(out)@ + Seq::<char>::empty() =~= old(out)@);
    }
    while i < n
        invariant
            n == cs@.len(),
            i <= n,
            all == views(cs@),
            out@ == old(out)@ + row_conflict_texts(all.take(i as int)),
        decreases n - i,
    {
        let c = &cs[i];
        proof {
            assert(all.take(i + 1).drop_last() =~= all.take(i as int));
            assert(all.take(i + 1).last() == cs@[i as int]@);
        }
        out.append("    ");
        out.append(c.table.as_str());
        out.append(" ");
        out.append(row_identity_label(&c.identity).as_str());
        out.append(" (ours ");
        out.append(row_change_kind_label(c.ours));
        out.append(", theirs ");
        out.append(row_change_kind_label(c.theirs));
        out.append(")\n");
        proof {
            assert(out@ =~= old(out)@ + row_conflict_texts(all.take(i + 1)));
        }
        i += 1;
    }
    proof {
        assert(all.take(n as int) =~= all);
    }
}

/// The report on the rows of a merge; without a plan, one of the three states is missing.
pub fn format_current_file_row_merge_analysis(key: &str, plan: Option<&RowMergePlan>) -> (r: String)
    ensures
        match plan {
            Some(p) => r@ == analysis_report(key@, true, p@),
            None => forall|p: RowMergePlanView| r@ == #[trigger] analysis_report(key@, false, p),
        },
{
    let mut f = "Row-level analysis for ".to_owned();
    f.append(key);
    f.append(":\n");
    let plan = match plan {
        Some(p) => p,
        None => {
            f.append("  unavailable: merge involves add/delete of this tracked path.\n");
            return f;
        },
    };
    f.append("  ours: ");
    f.append(show_usize(plan.ours_changes).as_str());
    f.append(" row change(s)\n  theirs: ");
    f.append(show_usize(plan.theirs_changes).as_str());
    f.append(" row change(s)\n");
    add_count(&mut f, "  resolved opaque change(s): ", plan.resolved_opaque.len());
    add_count(&mut f, "  unresolved opaque change(s): ", plan.opaque_changes);
    add_count(&mut f, "  schema conflict(s): ", plan.schema_conflicts.len());
    if plan.conflicts.len() > 0 {
        f.append("  Row conflicts:\n");
        add_row_conflicts(&mut f, &plan.conflicts);
    } else if plan.opaque_changes == 0 && plan.schema_conflicts.len() == 0 {
        f.append("  No row conflicts detected; row-level auto-merge candidate.\n");
    } else {
        f.append("  No row conflicts detected.\n");
    }
    f
}

/// What is added to a report on a merge: the analysis of the rows of the open database, or why there
/// is none. Nothing is added where that database is not in conflict.
pub open spec fn with_analysis(
    acc: Seq<char>,
    outcome: MergeOutcomeView,
    key: Option<Seq<char>>,
    analysis: Result<Seq<char>, Seq<char>>,
) -> Seq<char> {
    match (outcome, key) {
        (MergeOutcome::Merged { conflicted, .. }, Some(k)) => if conflicted.contains(k) {
            match analysis {
                Ok(text) => on_new_line(acc) + text,
                Err(e) => on_new_line(acc) + "Row-level analysis for "@ + k + " unavailable: "@ + e + "\n"@,
            }
        } else {
            acc
        },
        _ => acc,
    }
}

pub fn append_row_merge_analysis(
    output: &mut String,
    outcome: &MergeOutcome,
    key: &Option<String>,
    analysis: &Result<String, String>,
)
    ensures
        final(output)@ == with_analysis(
            old(output)@,
            outcome@,
            text_option(*key),
            seen(*analysis),
        ),
{
    if let MergeOutcome::Merged { conflicted, .. } = outcome {
        if let Some(k) = key {
            if lists(conflicted, k.as_str()) {
                start_line(output);
                match analysis {
                    Ok(text) => {
                        output.append(text.as_str());
                    },
                    Err(e) => {
                        output.append("Row-level analysis for ");
                        output.append(k.as_str());
                        output.append(" unavailable: ");
                        output.append(e.as_str());
                        output.append("\n");
                    },
                }
            }
        }
    }
}

/// The report on a merge: with what the merge of the rows of a database came to, or with the
/// analysis of those rows.
pub fn format_merge_outcome_with_row_auto_merge(
    outcome: MergeOutcome,
    row_auto_merge: &Option<RowAutoMergeResult>,
    key: &Option<String>,
    analysis: &Result<String, String>,
) -> (r: String)
    requires
        short_merge(outcome@),
    ensures
        match *row_auto_merge {
            Some(result) => exists|shown: MergeOutcomeView| #[trigger]
                merged_by_rows(outcome@, result@.key, shown) && r@ == on_new_line(
                    merge_report(shown),
                ) + row_auto_merge_text(result@),
            None => r@ == with_analysis(
                merge_report(outcome@),
                outcome@,
                text_option(*key),
                seen(*analysis),
            ),
        },
{
    match row_auto_merge {
        Some(result) => {
            let shown = merge_outcome_with_row_auto_merge(outcome, result.key.as_str());
            let mut f = format_merge_outcome(&shown);
            append_row_auto_merge_result(&mut f, result);
            proof {
                assert(merged_by_rows(outcome@, result@.key, shown@));
            }
            f
        },
        None => {
            let mut f = format_merge_outcome(&outcome);
            append_row_merge_analysis(&mut f, &outcome, key, analysis);
            f
        },
    }
}

/// The report on a pull, with the analysis of the rows of the open database.
pub fn format_pull_outcome_with_row_analysis(
    outcome: &PullOutcome,
    key: &Option<String>,
    analysis: &Result<String, String>,
) -> (r: String)
    requires
        has_short(outcome@.head),
        short_merge(outcome@.merge),
    ensures
        r@ == with_analysis(
            pull_report(outcome@),
            outcome@.merge,
            text_option(*key),
            seen(*analysis),
        ),
{
    let mut f = format_pull_outcome(outcome);
    append_row_merge_analysis(&mut f, &outcome.merge, key, analysis);
    f
}

/// One database of a row diff: the report on its rows, or that there is none.
pub open spec fn row_diff_text(file: RepoFileDiffView, report: Option<Seq<char>>) -> Seq<char> {
    file_change_name(file.change) + ": "@ + file.path + "\n"@ + (match report {
        Some(text) => indented_lines(lines(text), "  "@),
        None => "  Row diff unavailable for "@ + file_change_name(file.change)
            + " database snapshots.\n"@,
    })
}

/// The first `n` databases of a row diff.
pub open spec fn row_diff_texts(
    files: Seq<RepoFileDiffView>,
    reports: Seq<Option<Seq<char>>>,
    n: int,
) -> Seq<char>
    decreases n,
{
    if n <= 0 {
        Seq::empty()
    } else {
        row_diff_texts(files, reports, n - 1) + row_diff_text(files[n - 1], reports[n - 1])
    }
}

/// The report on a row diff.
pub open spec fn row_diff_report(diff: RepoDiffView, reports: Seq<Option<Seq<char>>>) -> Seq<char> {
    "Row Diff "@ + short(diff.from) + ".."@ + short(diff.to) + "\n"@ + (if diff.files.len() == 0 {
        "No changes.\n"@
    } else {
        row_diff_texts(diff.files, reports, diff.files.len() as int)
    })
}

/// Optional texts with their characters.
pub open spec fn text_options(v: Seq<Option<String>>) -> Seq<Option<Seq<char>>> {
    Seq::new(v.len(), |i: int| text_option(v[i]))
}

/// `reports` holds for each database the report on its rows, where there is one.
pub fn format_repo_row_diff(diff: &RepoDiff, reports: &Vec<Option<String>>) -> (r: String)
    requires
        reports@.len() == diff.files@.len(),
        has_short(diff@.from),
        has_short(diff@.to),
    ensures
        r@ == row_diff_report(diff@, text_options(reports@)),
{
    let mut f = "Row Diff ".to_owned();
    f.append(short_id(diff.from.as_str()));
    f.append("..");
    f.append(short_id(diff.to.as_str()));
    f.append("\n");
    let n: usize = diff.files.len();
    if n == 0 {
        f.append("No changes.\n");
        return f;
    }
    let ghost head = f@;
    let ghost rs = text_options(reports@);
    let mut i: usize = 0;
    proof {
        assert(head + Seq::<char>::empty() =~= head);
    }
    while i < n
        invariant
            n == diff.files@.len(),
            n == reports@.len(),
            i <= n,
            rs == text_options(reports@),
            f@ == head + row_diff_texts(diff@.files, rs, i as int),
        decreases n - i,
    {
        let file = &diff.files[i];
        proof {
            assert(diff@.files[i as int] == file@);
            assert(rs[i as int] == text_option(reports@[i as int]));
        }
        let ghost b = f@;
        let change = repo_file_change_label(file.change);
        f.append(change);
        f.append(": ");
        f.append(file.path.as_str());
        f.append("\n");
        match &reports[i] {
            Some(text) => {
                write_indented(&mut f, text.as_str(), "  ");
            },
            None => {
                f.append("  Row diff unavailable for ");
                f.append(change);
                f.append(" database snapshots.\n");
            },
        }
        proof {
            assert(f@ =~= b + row_diff_text(file@, rs[i as int]));
            assert(f@ =~= head + row_diff_texts(diff@.files, rs, i + 1));
        }
        i += 1;
    }
    f
}

} // verus!
