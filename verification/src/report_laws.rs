//! What holds of the differences and conflicts that are told: which side is which, what is resolved,
//! and what is compared with what.
use vstd::prelude::*;
use vstd::string::*;

use crate::checkout::{
    action_of, action_paths, actions_are, checkout_action, listed, path_action_name,
    staged_entry, Descriptor, JsonPathActionView, PathActionKind, PathListingView,
};
use crate::conflict_list::{
    last_of_path, path_resolved, path_summary, path_total, unresolved_total, with_analysis,
};
use crate::conflict_report::{
    analysis_json, blocked, cell_json, cell_resolution, inner_artifacts, key_of,
    opaque_artifact, outer_artifacts, path_artifacts, path_resolution_of, pending_artifact,
    reported_analysis, reported_label, resolved_cells, row_artifact, row_change_name,
    row_conflict_json, row_resolution, rowid_of, schema_artifact, schema_change_name,
    schema_conflict_json, with_resolution, CellConflict, ConflictContext,
    JsonConflictArtifactView, OpaqueConflictView, PendingRecomputationView, PlanResult,
    PlanResultView, RowChangeKind, RowConflictDetail, RowConflictDetailView, RowMergePlanView,
    SchemaConflictDetail,
};
use crate::conflicts::{
    cell_key, is_unresolved, row_key, RowConflictResolutionState, RowMergeConflictReason,
    RowMergeConflictView,
};
use crate::diff::{
    appended, diff_of_kind, diff_route, empty_worktree_diff, look_step, walk_step, walk_task,
    walked, DiffRoute, PathState, PathStep,
};
use crate::error::CommandError;
use crate::file_diff::{file_diff, file_diff_json, same_contents, SqliteFileDiffOptions};
use crate::json::{json_value, JsonValueView};
use crate::labels::{file_change_name, kind_json, storage_json};
use crate::merge_policy::{
    apply_policy_json, generated_columns_json, internal_resolvers_json, schema_resolvers_json,
    JsonRowMergeApplyPolicyView, RowMergePolicy,
};
use crate::model::{IndexEntryView, MergeOutcomeView, PathChangeView};
use crate::report::{RepoArtifactDiffView, RepoDiffView, RepoFileDiffView};
use crate::row_diff::{
    change_json, limitation_json_list, opaque_json_list, path_json, schema_json_list,
    table_json_list, RepoDiffPathView, RowChangeView, RowLevelDiffView,
};
use crate::row_laws::are_values_of;
use crate::session::commit_change_json;
use crate::spec::{KeyValue, RepoDiffTarget, RepoTrackedPathKind, RowIdentity};
use crate::staging::staged_json;
use crate::status_laws::lemma_filters_keep;
use crate::text::texts;

verus! {

/// A row of a JSON answer is that of a record, where there is one.
pub open spec fn is_record(shown: Option<Seq<JsonValueView>>, record: Option<Vec<KeyValue>>) -> bool {
    match record {
        Some(row) => shown matches Some(values) && are_values_of(values, row@),
        None => shown is None,
    }
}

/// A row in conflict is told with each side as its own: what it did, what its row is, and what it is
/// known by; and with the row that both came from.
pub proof fn law_sides_of_a_row(
    d: RowConflictDetail,
    key: Seq<char>,
    storage: Seq<char>,
    resolution: Option<Seq<char>>,
    rows: Map<Seq<char>, Seq<char>>,
    cells: Map<Seq<char>, Seq<char>>,
)
    ensures
        ({
            let told = row_conflict_json(d@);
            let artifact = row_artifact(key, storage, resolution, rows, cells, d@);
            &&& is_record(told.base_row, d.base_row)
            &&& is_record(told.ours_row, d.ours_row)
            &&& is_record(told.theirs_row, d.theirs_row)
            &&& told.ours == row_change_name(d.ours)
            &&& told.theirs == row_change_name(d.theirs)
            &&& told.rowid == rowid_of(d.identity@)
            &&& told.ours_rowid == rowid_of(d.ours_identity@)
            &&& told.theirs_rowid == rowid_of(d.theirs_identity@)
            &&& told.key == key_of(d.identity@)
            &&& told.ours_key == key_of(d.ours_identity@)
            &&& told.theirs_key == key_of(d.theirs_identity@)
            &&& told.table == d.table@
            &&& told.reason == d.reason@
            &&& artifact.base_row == told.base_row
            &&& artifact.ours_row == told.ours_row
            &&& artifact.theirs_row == told.theirs_row
            &&& artifact.ours_op == Some(told.ours)
            &&& artifact.theirs_op == Some(told.theirs)
            &&& artifact.rowid == told.rowid
            &&& artifact.ours_rowid == told.ours_rowid
            &&& artifact.theirs_rowid == told.theirs_rowid
            &&& artifact.key == told.key
            &&& artifact.ours_key == told.ours_key
            &&& artifact.theirs_key == told.theirs_key
            &&& artifact.table == Some(told.table)
            &&& artifact.reason == told.reason
            &&& artifact.path == key
            &&& artifact.kind == "row"@
        }),
{
}

/// What a side did with a row is called what a diff calls that change.
pub proof fn law_changes_have_one_name(change: RowChangeView)
    ensures
        change is Insert || change is PrimaryKeyInsert ==> change_json(change).op == row_change_name(
            RowChangeKind::Insert,
        ),
        change is Delete || change is PrimaryKeyDelete ==> change_json(change).op == row_change_name(
            RowChangeKind::Delete,
        ),
        change is Update || change is PrimaryKeyUpdate ==> change_json(change).op == row_change_name(
            RowChangeKind::Update,
        ),
{
}

/// A cell in conflict is told with the value of each side as its own.
pub proof fn law_sides_of_a_cell(c: CellConflict)
    ensures
        cell_json(c@).column == c.column@,
        cell_json(c@).base == json_value(c.base@),
        cell_json(c@).ours == json_value(c.ours@),
        cell_json(c@).theirs == json_value(c.theirs@),
        cell_json(c@).resolution is None,
{
}

/// A schema conflict is told with what each side did as its own.
pub proof fn law_sides_of_a_definition(
    d: SchemaConflictDetail,
    key: Seq<char>,
    storage: Seq<char>,
    resolution: Option<Seq<char>>,
)
    ensures
        ({
            let told = schema_conflict_json(d@);
            let artifact = schema_artifact(key, storage, resolution, d@);
            &&& told.ours is Some <==> d.ours is Some
            &&& told.theirs is Some <==> d.theirs is Some
            &&& d.ours is Some ==> told.ours == Some(schema_change_name(d.ours->0))
            &&& d.theirs is Some ==> told.theirs == Some(schema_change_name(d.theirs->0))
            &&& told.name == d.name@
            &&& artifact.ours_op == told.ours
            &&& artifact.theirs_op == told.theirs
            &&& artifact.name == Some(told.name)
            &&& artifact.column_changes == told.column_changes
            &&& artifact.path == key
            &&& artifact.status == (if resolution is Some {
                "resolved"@
            } else {
                "unresolved"@
            })
        }),
{
}

/// A row is known by its rowid or by its key, never by both.
pub proof fn law_rows_are_known_by_one(identity: RowIdentity)
    ensures
        identity matches RowIdentity::Rowid(rowid) ==> rowid_of(identity@) == Some(rowid) && key_of(
            identity@,
        ) is None,
        identity is PrimaryKey ==> rowid_of(identity@) is None && key_of(identity@) is Some,
{
}

/// What stands in the way of a merge is named exactly where it stands there.
pub proof fn law_reasons_are_named(plan: RowMergePlanView)
    ensures
        blocked(plan).contains("row_conflicts"@) <==> plan.conflicts.len() > 0,
        blocked(plan).contains("schema_conflicts"@) <==> plan.schema_conflicts.len() > 0,
        blocked(plan).contains("opaque_changes"@) <==> plan.opaque_changes > 0,
        blocked(plan).contains("analysis_limitations"@) <==> plan.limitations.len() > 0,
        blocked(plan).contains("no_applicable_changes"@) <==> plan.apply_changes == 0
            && !plan.keeps_ours,
{
    reveal_strlit("row_conflicts");
    reveal_strlit("schema_conflicts");
    reveal_strlit("opaque_changes");
    reveal_strlit("analysis_limitations");
    reveal_strlit("no_applicable_changes");
    assert("row_conflicts"@.len() == 13);
    assert("schema_conflicts"@.len() == 16);
    assert("opaque_changes"@.len() == 14);
    assert("analysis_limitations"@.len() == 20);
    assert("no_applicable_changes"@.len() == 21);
    let none = Seq::<Seq<char>>::empty();
    let a = lemma_push_if(none, "row_conflicts"@, plan.conflicts.len() > 0);
    let b = lemma_push_if(a, "schema_conflicts"@, plan.schema_conflicts.len() > 0);
    let c = lemma_push_if(b, "opaque_changes"@, plan.opaque_changes > 0);
    let d = lemma_push_if(c, "analysis_limitations"@, plan.limitations.len() > 0);
    let e = lemma_push_if(d, "no_applicable_changes"@, plan.apply_changes == 0 && !plan.keeps_ours);
    assert(blocked(plan) == e);
}

proof fn lemma_push_if(list: Seq<Seq<char>>, x: Seq<char>, add: bool) -> (r: Seq<Seq<char>>)
    ensures
        r == if add {
            list.push(x)
        } else {
            list
        },
        forall|y: Seq<char>| #[trigger] r.contains(y) <==> list.contains(y) || (add && y == x),
{
    let r = if add {
        list.push(x)
    } else {
        list
    };
    assert forall|y: Seq<char>| #[trigger] r.contains(y) <==> list.contains(y) || (add && y == x) by {
        if list.contains(y) {
            assert(r[list.index_of(y)] == y);
        }
        if add && y == x {
            assert(r[list.len() as int] == y);
        }
        if r.contains(y) {
            let i = r.index_of(y);
            if i < list.len() {
                assert(list[i] == y);
            }
        }
    }
    r
}

/// An analysis tells what its plan counted, side by side, and that the merge can be made without
/// asking exactly where nothing stands in its way.
pub proof fn law_analysis_tells_its_plan(
    path: Seq<char>,
    plan: RowMergePlanView,
    policy: JsonRowMergeApplyPolicyView,
)
    ensures
        ({
            let told = analysis_json(path, plan, policy);
            &&& told.path == path
            &&& told.available
            &&& told.can_auto_merge <==> told.blocked_reasons.len() == 0
            &&& told.can_auto_merge <==> plan.conflicts.len() == 0 && plan.schema_conflicts.len() == 0
                && plan.opaque_changes == 0 && plan.limitations.len() == 0 && (plan.apply_changes > 0
                || plan.keeps_ours)
            &&& told.ours_changes == plan.ours_changes
            &&& told.theirs_changes == plan.theirs_changes
            &&& told.apply_changes == plan.apply_changes
            &&& told.opaque_changes == plan.opaque_changes
            &&& told.row_conflicts.len() == plan.conflicts.len()
            &&& told.schema_conflicts.len() == plan.schema_conflicts.len()
            &&& told.resolved_opaque_change_details.len() == plan.resolved_opaque.len()
            &&& told.limitations.len() == plan.limitations.len()
            &&& told.message is None
            &&& forall|i: int| #![trigger plan.conflicts[i]]
                0 <= i < plan.conflicts.len() ==> told.row_conflicts[i] == row_conflict_json(
                    plan.conflicts[i],
                )
            &&& forall|i: int| #![trigger plan.schema_conflicts[i]]
                0 <= i < plan.schema_conflicts.len() ==> told.schema_conflicts[i]
                    == schema_conflict_json(plan.schema_conflicts[i])
        }),
{
    crate::conflict_report::law_auto_merge_needs_all_clear(plan);
}

/// An analysis is told only of a path in conflict, and is available exactly where all three states
/// are there and the merge could be planned. One that is not never offers a merge.
pub proof fn law_analyses_that_are_available(
    key: Seq<char>,
    unmerged: bool,
    three_states: bool,
    result: PlanResultView,
    policy: JsonRowMergeApplyPolicyView,
    default: JsonRowMergeApplyPolicyView,
)
    ensures
        ({
            let told = reported_analysis(key, unmerged, three_states, result, policy, default);
            &&& told is Some <==> unmerged
            &&& told matches Some(a) ==> {
                &&& a.path == key
                &&& a.available <==> three_states && result is Planned
                &&& !a.available ==> !a.can_auto_merge && a.message is Some
                    && a.blocked_reasons.len() == 1 && a.apply_policy == default
                &&& a.available ==> a == analysis_json(key, result->Planned_0, policy)
                &&& !three_states ==> a.blocked_reasons[0] == "add_delete_conflict"@
                &&& three_states && !a.available ==> a.blocked_reasons[0] == "analysis_error"@
            }
        }),
{
}

/// A conflict inside a database is told as unresolved exactly where the merge counts it as
/// unresolved, as long as the labels on record are those of sides.
pub proof fn law_status_is_what_the_merge_counts(
    key: Seq<char>,
    storage: Seq<char>,
    rows: Map<Seq<char>, Seq<char>>,
    cells: Map<Seq<char>, Seq<char>>,
    c: RowConflictDetailView,
    conflict: RowMergeConflictView,
)
    requires
        conflict.table == c.table,
        conflict.identity == c.identity,
        conflict.cell_columns.len() == c.cells.len(),
        forall|i: int| #![trigger c.cells[i]]
            0 <= i < c.cells.len() ==> conflict.cell_columns[i] == c.cells[i].column,
        conflict.reason == RowMergeConflictReason::Cell <==> c.cells.len() > 0,
        forall|k: Seq<char>| #[trigger]
            rows.contains_key(k) ==> rows[k] == "ours"@ || rows[k] == "theirs"@,
        forall|k: Seq<char>| #[trigger]
            cells.contains_key(k) ==> cells[k] == "ours"@ || cells[k] == "theirs"@,
    ensures
        row_artifact(key, storage, None, rows, cells, c).resolution is None <==> is_unresolved(
            key,
            conflict,
            rows,
            cells,
        ),
        row_artifact(key, storage, None, rows, cells, c).status == (if is_unresolved(
            key,
            conflict,
            rows,
            cells,
        ) {
            "unresolved"@
        } else {
            "resolved"@
        }),
{
    let told = resolved_cells(cells, key, c);
    assert forall|i: int| #![trigger c.cells[i]] 0 <= i < c.cells.len() implies (told[i].resolution
        is Some <==> cells.contains_key(
        cell_key(key, conflict.table, conflict.identity, conflict.cell_columns[i]),
    )) by {
        assert(conflict.cell_columns[i] == c.cells[i].column);
    }
    if c.cells.len() > 0 && exists|i: int|
        0 <= i < conflict.cell_columns.len() && !cells.contains_key(
            cell_key(
                key,
                conflict.table,
                conflict.identity,
                #[trigger] conflict.cell_columns[i],
            ),
        ) {
        let i = choose|i: int|
            0 <= i < conflict.cell_columns.len() && !cells.contains_key(
                cell_key(
                    key,
                    conflict.table,
                    conflict.identity,
                    #[trigger] conflict.cell_columns[i],
                ),
            );
        assert(c.cells[i].column == conflict.cell_columns[i]);
        assert(told[i].resolution is None);
    }
    if c.cells.len() > 0 && !(forall|i: int|
        0 <= i < c.cells.len() ==> (#[trigger] told[i]).resolution is Some) {
        let i = choose|i: int| 0 <= i < c.cells.len() && (#[trigger] told[i]).resolution is None;
        assert(c.cells[i].column == conflict.cell_columns[i]);
    }
}

/// The resolution that is told of a row is that of its path, or else the side that was selected for
/// it, or else that all its cells have one.
pub proof fn law_resolution_of_a_row(
    path_resolution: Option<Seq<char>>,
    rows: Map<Seq<char>, Seq<char>>,
    cells: Map<Seq<char>, Seq<char>>,
    key: Seq<char>,
    c: RowConflictDetailView,
)
    ensures
        path_resolution is Some ==> row_resolution(path_resolution, rows, cells, key, c)
            == path_resolution,
        path_resolution is None && rows.contains_key(row_key(key, c.table, c.identity)) && (rows[row_key(
            key,
            c.table,
            c.identity,
        )] == "ours"@ || rows[row_key(key, c.table, c.identity)] == "theirs"@) ==> row_resolution(
            path_resolution,
            rows,
            cells,
            key,
            c,
        ) == Some(rows[row_key(key, c.table, c.identity)]),
        path_resolution is None && !rows.contains_key(row_key(key, c.table, c.identity)) ==> (
        row_resolution(path_resolution, rows, cells, key, c) is None || row_resolution(
            path_resolution,
            rows,
            cells,
            key,
            c,
        ) == Some("cells"@)),
        path_resolution is None && !rows.contains_key(row_key(key, c.table, c.identity))
            && c.cells.len() == 0 ==> row_resolution(path_resolution, rows, cells, key, c) is None,
        path_resolution is None && !rows.contains_key(row_key(key, c.table, c.identity))
            && c.cells.len() > 0 ==> (row_resolution(path_resolution, rows, cells, key, c) is Some
            <==> forall|i: int| #![trigger c.cells[i]]
            0 <= i < c.cells.len() ==> cell_resolution(cells, key, c, c.cells[i].column) is Some),
{
    let told = resolved_cells(cells, key, c);
    assert forall|i: int| #![trigger c.cells[i]] 0 <= i < c.cells.len() implies told[i].resolution
        == cell_resolution(cells, key, c, c.cells[i].column) by {}
    if !(forall|i: int| 0 <= i < c.cells.len() ==> (#[trigger] told[i]).resolution is Some) {
        let i = choose|i: int| 0 <= i < c.cells.len() && (#[trigger] told[i]).resolution is None;
        assert(cell_resolution(cells, key, c, c.cells[i].column) is None);
    }
    if !(forall|i: int| #![trigger c.cells[i]]
        0 <= i < c.cells.len() ==> cell_resolution(cells, key, c, c.cells[i].column) is Some) {
        let i = choose|i: int| #![trigger c.cells[i]]
            0 <= i < c.cells.len() && cell_resolution(cells, key, c, c.cells[i].column) is None;
        assert(told[i].resolution is None);
    }
}

/// Each cell is told with the label on record for it.
pub proof fn law_resolution_of_a_cell(
    cells: Map<Seq<char>, Seq<char>>,
    key: Seq<char>,
    c: RowConflictDetailView,
    i: int,
)
    requires
        0 <= i < c.cells.len(),
    ensures
        resolved_cells(cells, key, c).len() == c.cells.len(),
        resolved_cells(cells, key, c)[i].column == c.cells[i].column,
        resolved_cells(cells, key, c)[i].base == cell_json(c.cells[i]).base,
        resolved_cells(cells, key, c)[i].ours == cell_json(c.cells[i]).ours,
        resolved_cells(cells, key, c)[i].theirs == cell_json(c.cells[i]).theirs,
        ({
            let k = cell_key(key, c.table, c.identity, c.cells[i].column);
            &&& !cells.contains_key(k) ==> resolved_cells(cells, key, c)[i].resolution is None
            &&& cells.contains_key(k) && (cells[k] == "ours"@ || cells[k] == "theirs"@)
                ==> resolved_cells(cells, key, c)[i].resolution == Some(cells[k])
        }),
{
}

/// A label is told as it is on record, where it is one that the merge writes.
pub proof fn law_labels_that_are_told(label: Seq<char>)
    ensures
        reported_label(label) matches Some(l) ==> l == label,
        reported_label("ours"@) is Some,
        reported_label("theirs"@) is Some,
        reported_label("manual"@) is Some,
        reported_label("edited"@) is Some,
        reported_label("cells"@) is Some,
        reported_label(label) is Some ==> label == "ours"@ || label == "theirs"@ || label
            == "manual"@ || label == "edited"@ || label == "cells"@,
{
}

/// A conflict that is not resolved is told as unresolved, and a resolution is told with it.
pub proof fn law_resolutions_are_told(a: JsonConflictArtifactView, resolution: Option<Seq<char>>)
    ensures
        resolution is None ==> with_resolution(a, resolution) == a,
        resolution is Some ==> with_resolution(a, resolution).resolution == resolution
            && with_resolution(a, resolution).status == "resolved"@,
        with_resolution(a, resolution).path == a.path,
        with_resolution(a, resolution).kind == a.kind,
        with_resolution(a, resolution).reason == a.reason,
        with_resolution(a, resolution).message == a.message,
{
}

/// Every conflict inside a database is told once, and all of them of its path.
pub proof fn law_every_conflict_is_told(x: ConflictContext, plan: RowMergePlanView, i: int)
    ensures
        inner_artifacts(x, plan).len() == plan.conflicts.len() + plan.schema_conflicts.len()
            + plan.unresolved_opaque.len() + plan.pending.len(),
        0 <= i < plan.conflicts.len() ==> inner_artifacts(x, plan)[i].table == Some(
            plan.conflicts[i].table,
        ) && inner_artifacts(x, plan)[i].kind == "row"@,
        0 <= i < plan.schema_conflicts.len() ==> inner_artifacts(x, plan)[plan.conflicts.len()
            + i].name == Some(plan.schema_conflicts[i].name) && inner_artifacts(
            x,
            plan,
        )[plan.conflicts.len() + i].kind == "schema"@,
        0 <= i < plan.unresolved_opaque.len() ==> inner_artifacts(x, plan)[plan.conflicts.len()
            + plan.schema_conflicts.len() + i].name == Some(plan.unresolved_opaque[i].name)
            && inner_artifacts(x, plan)[plan.conflicts.len() + plan.schema_conflicts.len() + i].kind
            == "opaque"@,
        0 <= i < plan.pending.len() ==> inner_artifacts(x, plan)[plan.conflicts.len()
            + plan.schema_conflicts.len() + plan.unresolved_opaque.len() + i].table == Some(
            plan.pending[i].table,
        ) && inner_artifacts(x, plan)[plan.conflicts.len() + plan.schema_conflicts.len()
            + plan.unresolved_opaque.len() + i].kind == "validation"@,
        0 <= i < inner_artifacts(x, plan).len() ==> inner_artifacts(x, plan)[i].path == x.key,
{
}

/// What is told of a path is told of that path, whatever came of its analysis; and of a path in
/// conflict something always is.
pub proof fn law_conflicts_are_told_of_their_path(
    x: ConflictContext,
    error: Option<Seq<char>>,
    three_states: bool,
    result: PlanResultView,
    i: int,
)
    ensures
        0 <= i < path_artifacts(x, error, three_states, result).len() ==> path_artifacts(
            x,
            error,
            three_states,
            result,
        )[i].path == x.key,
        x.unmerged ==> path_artifacts(x, error, three_states, result).len() > 0,
        !(x.unmerged && error is Some) && !three_states ==> path_artifacts(
            x,
            error,
            three_states,
            result,
        ).len() == 1 && path_artifacts(x, error, three_states, result)[0].reason
            == "add_delete_conflict"@,
        !(x.unmerged && error is Some) && three_states && result is Failed ==> path_artifacts(
            x,
            error,
            three_states,
            result,
        ).len() == 1 && path_artifacts(x, error, three_states, result)[0].reason
            == "analysis_error"@,
        !(x.unmerged && error is Some) && three_states ==> (result matches PlanResult::Planned(plan)
            ==> path_artifacts(x, error, three_states, result) == (if plan.conflicts.len()
            + plan.schema_conflicts.len() + plan.unresolved_opaque.len() + plan.pending.len() > 0 {
            inner_artifacts(x, plan)
        } else {
            outer_artifacts(x, plan)
        })),
        !x.unmerged && x.path_resolution is None ==> (result matches PlanResult::Planned(plan)
            ==> plan.keeps_ours ==> outer_artifacts(x, plan).len() == 0),
        x.path_resolution is None && x.rows == Map::<Seq<char>, Seq<char>>::empty() && x.cells
            == Map::<Seq<char>, Seq<char>>::empty() && 0 <= i < path_artifacts(
            x,
            error,
            three_states,
            result,
        ).len() ==> path_artifacts(x, error, three_states, result)[i].status == "unresolved"@,
{
    if let PlanResult::Planned(plan) = result {
        law_every_conflict_is_told(x, plan, i);
        let inner = inner_artifacts(x, plan);
        if x.path_resolution is None && x.rows == Map::<Seq<char>, Seq<char>>::empty() && x.cells
            == Map::<Seq<char>, Seq<char>>::empty() && 0 <= i < plan.conflicts.len() {
            let c = plan.conflicts[i];
            if c.cells.len() > 0 {
                assert(resolved_cells(x.cells, x.key, c)[0].resolution is None);
            }
            assert(inner[i] == row_artifact(
                x.key,
                x.storage,
                x.path_resolution,
                x.rows,
                x.cells,
                c,
            ));
        }
    }
}

/// A merge without conflicts inside the database is offered with its result: ours where the plan
/// keeps ours, the merged database where changes are applied, and nothing otherwise.
pub proof fn law_offered_results(x: ConflictContext, plan: RowMergePlanView)
    requires
        x.unmerged,
    ensures
        outer_artifacts(x, plan).len() == 1,
        outer_artifacts(x, plan)[0].recommended_result == Some("ours"@) <==> plan.keeps_ours,
        outer_artifacts(x, plan)[0].recommended_result == Some("merged"@) <==> !plan.keeps_ours
            && plan.apply_changes > 0,
        outer_artifacts(x, plan)[0].auto_resolvable == Some(true) <==> plan.keeps_ours
            || plan.apply_changes > 0,
        plan.keeps_ours && plan.theirs_unchanged ==> outer_artifacts(x, plan)[0].reason
            == "theirs_logically_equivalent_to_base"@,
        plan.keeps_ours && !plan.theirs_unchanged ==> outer_artifacts(x, plan)[0].reason
            == "merge_result_matches_ours"@,
        !plan.keeps_ours && plan.apply_changes > 0 ==> outer_artifacts(x, plan)[0].reason
            == "automatic_merge_available"@,
        !plan.keeps_ours && plan.apply_changes == 0 ==> outer_artifacts(x, plan)[0].reason
            == "no_applicable_changes"@,
{
    reveal_strlit("ours");
    reveal_strlit("merged");
    assert("ours"@.len() == 4);
    assert("merged"@.len() == 6);
}

/// The resolution of a path is the label on record for it.
pub proof fn law_resolution_of_a_path(state: RowConflictResolutionState, key: Seq<char>)
    ensures
        !state.paths@.contains_key(key) ==> path_resolution_of(state, key) is None,
        state.paths@.contains_key(key) && state.paths@[key].resolution is None ==> path_resolution_of(
            state,
            key,
        ) is None,
        path_resolution_of(state, key) matches Some(label) ==> state.paths@.contains_key(key)
            && state.paths@[key].resolution is Some && state.paths@[key].resolution->0@ == label,
        state.paths@.contains_key(key) && state.paths@[key].resolution is Some
            ==> path_resolution_of(state, key) == reported_label(
            state.paths@[key].resolution->0@,
        ),
{
}

/// One more conflict of a path is counted once, and as resolved only where it is.
pub proof fn law_conflicts_are_counted(
    cs: Seq<JsonConflictArtifactView>,
    c: JsonConflictArtifactView,
    path: Seq<char>,
)
    ensures
        path_total(cs.push(c), path) == path_total(cs, path) + (if c.path == path {
            1int
        } else {
            0int
        }),
        path_resolved(cs.push(c), path) == path_resolved(cs, path) + (if c.path == path && c.status
            == "resolved"@ {
            1int
        } else {
            0int
        }),
        unresolved_total(cs.push(c)) == unresolved_total(cs) + (if c.status == "unresolved"@ {
            1int
        } else {
            0int
        }),
        path_total(Seq::empty(), path) == 0,
        unresolved_total(Seq::empty()) == 0,
        c.path == path ==> last_of_path(cs.push(c), path) == Some(c),
        c.path != path ==> last_of_path(cs.push(c), path) == last_of_path(cs, path),
{
    assert(cs.push(c).drop_last() =~= cs);
}

/// A path is resolved exactly where none of its conflicts is left, and its counts add up.
pub proof fn law_paths_are_summed_up(cs: Seq<JsonConflictArtifactView>, path: Seq<char>)
    requires
        cs.len() <= usize::MAX,
    ensures
        ({
            let s = path_summary(cs, path);
            &&& s.path == path
            &&& s.total == s.resolved + s.unresolved
            &&& s.total == path_total(cs, path)
            &&& s.resolved == path_resolved(cs, path)
            &&& s.status == "resolved"@ <==> s.unresolved == 0
            &&& s.status == "unresolved"@ <==> s.unresolved > 0
        }),
{
    reveal_strlit("resolved");
    reveal_strlit("unresolved");
    assert("resolved"@.len() == 8);
    assert("unresolved"@.len() == 10);
    crate::conflict_list::law_path_counts_add_up(cs, path);
}

/// An analysis is added to the report of a merge exactly where the merge left its path in conflict.
pub proof fn law_analysis_follows_a_conflict(
    acc: Seq<char>,
    outcome: MergeOutcomeView,
    key: Seq<char>,
    analysis: Result<Seq<char>, Seq<char>>,
)
    ensures
        with_analysis(acc, outcome, None, analysis) == acc,
        !(outcome is Merged) ==> with_analysis(acc, outcome, Some(key), analysis) == acc,
        outcome is Merged && !outcome->conflicted.contains(key) ==> with_analysis(
            acc,
            outcome,
            Some(key),
            analysis,
        ) == acc,
        outcome is Merged && outcome->conflicted.contains(key) && analysis is Ok
            ==> crate::text::has_suffix(
            with_analysis(acc, outcome, Some(key), analysis),
            analysis->Ok_0,
        ),
{
    if outcome is Merged && outcome->conflicted.contains(key) && analysis is Ok {
        let text = analysis->Ok_0;
        let whole = with_analysis(acc, outcome, Some(key), analysis);
        assert(whole.skip(whole.len() - text.len()) =~= text);
    }
}

/// Two images differ by one byte exactly where it is another byte and not one of those that SQLite
/// changes with every write: the change counter, and the last eight of the header.
pub proof fn law_bytes_that_count(data: Seq<u8>, i: int, b: u8)
    requires
        0 <= i < data.len(),
    ensures
        same_contents(data, data.update(i, b)) <==> data[i] == b || (24 <= i && i < 28) || (92 <= i
            && i < 100),
        forall|other: Seq<u8>| other.len() != data.len() ==> !#[trigger] same_contents(data, other),
{
    let changed = data.update(i, b);
    if data[i] != b && !((24 <= i && i < 28) || (92 <= i && i < 100)) {
        assert(changed[i] == b);
    }
}

/// Two files are told as they are: each under its own path and with its own pages. Rows are told only
/// where they were asked for and the files differ.
pub proof fn law_files_are_told(
    from: Seq<char>,
    from_data: Seq<u8>,
    to: Seq<char>,
    to_data: Seq<u8>,
    options: SqliteFileDiffOptions,
    row_diff: Option<RowLevelDiffView>,
)
    requires
        from_data.len() <= u32::MAX,
        to_data.len() <= u32::MAX,
    ensures
        ({
            let d = file_diff(from, from_data, to, to_data, options, row_diff);
            let told = file_diff_json(d);
            &&& d.changed <==> !same_contents(from_data, to_data)
            &&& d.from_page_count * 4096 <= from_data.len() < (d.from_page_count + 1) * 4096
            &&& d.to_page_count * 4096 <= to_data.len() < (d.to_page_count + 1) * 4096
            &&& d.row_diff == (if options.rows && d.changed {
                row_diff
            } else {
                None
            })
            &&& told.from.path == from && told.to.path == to
            &&& told.from.page_count == d.from_page_count && told.to.page_count == d.to_page_count
            &&& told.changed == d.changed && told.rows == options.rows
            &&& told.row_diff is Some <==> d.row_diff is Some
            &&& d.row_diff matches Some(rows) ==> {
                &&& told.row_diff->0.tables == table_json_list(rows.table_changes)
                &&& told.row_diff->0.schema_changes == schema_json_list(rows.schema_changes)
                &&& told.row_diff->0.opaque_changes == opaque_json_list(rows.opaque_changes)
                &&& told.row_diff->0.limitations == limitation_json_list(rows.limitations)
                &&& told.row_diff->0.logical_status == rows.logical_status
            }
        }),
{
}

/// A diff with the worktree compares everything where no path is named, the open database where it
/// is, and looks at what stands at any other path; from the revision where one is named.
pub proof fn law_diffs_of_the_worktree(
    rev: Seq<char>,
    path: Seq<char>,
    current_key: Seq<char>,
)
    ensures
        diff_route(RepoDiffTarget::Worktree { path: None }, current_key) == (DiffRoute::Walk {
            rev: None,
            filter: Seq::<char>::empty(),
        }),
        diff_route(RepoDiffTarget::RevisionToWorktree { rev, path: None }, current_key)
            == (DiffRoute::Walk { rev: Some(rev), filter: Seq::<char>::empty() }),
        diff_route(RepoDiffTarget::Worktree { path: Some(current_key) }, current_key)
            == (DiffRoute::Current { rev: None, path: Some(current_key) }),
        diff_route(RepoDiffTarget::RevisionToWorktree { rev, path: Some(current_key) }, current_key)
            == (DiffRoute::Current { rev: Some(rev), path: Some(current_key) }),
        path != current_key ==> diff_route(
            RepoDiffTarget::Worktree { path: Some(path) },
            current_key,
        ) == (DiffRoute::Look { rev: None, path }),
        path != current_key ==> diff_route(
            RepoDiffTarget::RevisionToWorktree { rev, path: Some(path) },
            current_key,
        ) == (DiffRoute::Look { rev: Some(rev), path }),
{
}

/// A diff of the index or of revisions is that of what it names, from the first to the second.
pub proof fn law_diffs_of_revisions(
    from: Seq<char>,
    to: Seq<char>,
    path: Option<Seq<char>>,
    current_key: Seq<char>,
)
    ensures
        diff_route(RepoDiffTarget::Staged { path }, current_key) == (DiffRoute::Staged { path }),
        diff_route(RepoDiffTarget::Revisions { from, to, path }, current_key) == (
        DiffRoute::Revisions { from, to, path }),
        diff_route(RepoDiffTarget::Root { to, path }, current_key) == (DiffRoute::Root { to, path }),
{
}

/// What is done with a path follows from what stands there, and a walk does the same with it as a
/// look at it, as long as it is of the sort that is expected.
pub proof fn law_looks_and_walks_agree(shown: Seq<char>, state: PathState, artifact: bool)
    ensures
        look_step(shown, state, artifact) == Ok::<_, CommandError<Seq<char>>>(PathStep::Walk) <==> state
            == PathState::Directory,
        look_step(shown, state, artifact) is Err <==> state == PathState::Special,
        look_step(shown, state, artifact) == Ok::<_, CommandError<Seq<char>>>(
            PathStep::FileRemoval,
        ) <==> state == PathState::Missing && !artifact,
        look_step(shown, state, artifact) == Ok::<_, CommandError<Seq<char>>>(
            PathStep::ArtifactRemoval,
        ) <==> state == PathState::Missing && artifact,
        look_step(shown, state, artifact) == Ok::<_, CommandError<Seq<char>>>(
            PathStep::CompareFile,
        ) <==> state == PathState::SqliteFile,
        state == PathState::Missing || state == PathState::SqliteFile ==> look_step(
            shown,
            state,
            false,
        ) == Ok::<_, CommandError<Seq<char>>>(walk_step(true, false, state)->0),
        state == PathState::Missing || state == PathState::PlainFile ==> look_step(
            shown,
            state,
            true,
        ) == Ok::<_, CommandError<Seq<char>>>(walk_step(false, false, state)->0),
        walk_step(true, true, state) == Some(PathStep::CompareFile),
        state == PathState::Missing ==> walk_step(true, false, state) == Some(PathStep::FileRemoval)
            && walk_step(false, false, state) == Some(PathStep::ArtifactRemoval),
        state == PathState::Directory || state == PathState::Special ==> walk_step(
            true,
            false,
            state,
        ) is None && walk_step(false, false, state) is None,
        state == PathState::PlainFile ==> walk_step(true, false, state) is None,
{
}

/// A walk visits every database and then every file, each once and in its order.
pub proof fn law_walks_visit_everything(
    files: Seq<Seq<char>>,
    artifacts: Seq<Seq<char>>,
    current_key: Seq<char>,
    i: int,
)
    ensures
        0 <= i < files.len() ==> (walk_task(files, artifacts, current_key, i) matches Some(t) && t.key
            == files[i] && t.file && (t.current <==> files[i] == current_key)),
        0 <= i < artifacts.len() ==> (walk_task(files, artifacts, current_key, files.len() + i)
            matches Some(t) && t.key == artifacts[i] && !t.file && !t.current),
        i >= files.len() + artifacts.len() ==> walk_task(files, artifacts, current_key, i) is None,
{
}

/// Every path of the commit and of the index is walked where the filter takes it, and so is the open
/// database unless it lies in the repository's own directory.
pub proof fn law_paths_that_are_walked(
    key: Seq<char>,
    commit: Seq<Seq<char>>,
    index: Seq<Seq<char>>,
    current: Option<Seq<char>>,
    filter: Seq<char>,
)
    ensures
        commit.contains(key) ==> walked(key, commit, index, current, Seq::empty()),
        index.contains(key) ==> walked(key, commit, index, current, Seq::empty()),
        walked(key, commit, index, current, filter) ==> crate::diff::key_matches(key, filter),
        walked(key, commit, index, None, filter) ==> commit.contains(key) || index.contains(key),
        current == Some(key) && !crate::text::has_prefix(key, ".graft/"@) ==> walked(
            key,
            commit,
            index,
            current,
            key,
        ),
{
}

/// The differences of paths are put together in their order, and a diff of one kind holds those of
/// that kind and no others.
pub proof fn law_differences_are_put_together(
    a: RepoDiffView,
    b: RepoDiffView,
    kind: RepoTrackedPathKind,
    file: RepoFileDiffView,
    artifact: RepoArtifactDiffView,
)
    ensures
        appended(a, b).from == a.from,
        appended(a, b).to == a.to,
        appended(a, b).files.len() == a.files.len() + b.files.len(),
        appended(a, b).files.take(a.files.len() as int) == a.files,
        appended(a, b).files.skip(a.files.len() as int) == b.files,
        appended(a, b).artifacts.take(a.artifacts.len() as int) == a.artifacts,
        appended(a, b).artifacts.skip(a.artifacts.len() as int) == b.artifacts,
        diff_of_kind(a, None) == a,
        diff_of_kind(a, Some(kind)).from == a.from,
        diff_of_kind(a, Some(kind)).to == a.to,
        diff_of_kind(a, Some(kind)).files.contains(file) <==> a.files.contains(file) && file.kind
            == kind,
        diff_of_kind(a, Some(kind)).artifacts.contains(artifact) <==> a.artifacts.contains(artifact)
            && artifact.kind == kind,
{
    lemma_filters_keep(a.files);
    lemma_filters_keep(a.artifacts);
    assert(appended(a, b).files.take(a.files.len() as int) =~= a.files);
    assert(appended(a, b).files.skip(a.files.len() as int) =~= b.files);
    assert(appended(a, b).artifacts.take(a.artifacts.len() as int) =~= a.artifacts);
    assert(appended(a, b).artifacts.skip(a.artifacts.len() as int) =~= b.artifacts);
}

/// A diff with the worktree leads from the revision, or from the index, to the worktree.
pub proof fn law_sides_of_a_worktree_diff(from: Seq<char>)
    ensures
        empty_worktree_diff(Some(from)).from == from,
        empty_worktree_diff(None).from == "index"@,
        empty_worktree_diff(Some(from)).to == "worktree"@,
        empty_worktree_diff(Some(from)).files.len() == 0,
        empty_worktree_diff(Some(from)).artifacts.len() == 0,
{
}

/// A change that is not shown row by row is told with its name, its change, its owner and why; one that
/// is left to be computed with its table, its columns and its row.
pub proof fn law_other_conflicts_are_told(
    key: Seq<char>,
    path_kind: Seq<char>,
    storage: Seq<char>,
    resolution: Option<Seq<char>>,
    c: OpaqueConflictView,
    p: PendingRecomputationView,
)
    ensures
        ({
            let told = opaque_artifact(key, storage, resolution, c);
            &&& told.path == key
            &&& told.storage == storage
            &&& told.kind == "opaque"@
            &&& told.name == Some(c.name)
            &&& told.change == Some(c.change)
            &&& told.owner == c.owner
            &&& told.reason == c.reason_name
            &&& told.status == (if resolution is Some {
                "resolved"@
            } else {
                "unresolved"@
            })
        }),
        ({
            let told = pending_artifact(key, path_kind, storage, resolution, p);
            &&& told.path == key
            &&& told.path_kind == path_kind
            &&& told.storage == storage
            &&& told.kind == "validation"@
            &&& told.table == Some(p.table)
            &&& told.columns == Some(p.columns)
            &&& told.rowid == rowid_of(p.identity)
            &&& told.key == key_of(p.identity)
            &&& told.recommended_action == Some("stage_worktree_result"@)
            &&& told.status == (if resolution is Some {
                "resolved"@
            } else {
                "unresolved"@
            })
        }),
{
}

/// A changed path is told with its change, its kind and its place, in a diff as in a commit, and so is
/// a staged one.
pub proof fn law_paths_are_told(
    v: RepoDiffPathView,
    change: PathChangeView,
    head: Option<PathListingView>,
    entry: IndexEntryView,
)
    ensures
        path_json(v).path == v.path,
        path_json(v).previous_path == v.previous_path,
        path_json(v).change == file_change_name(v.change),
        path_json(v).kind == kind_json(v.kind),
        path_json(v).storage == storage_json(v.storage),
        v.path == change.path && v.previous_path is None && v.change == change.change && v.kind
            == change.kind && v.storage == change.storage ==> commit_change_json(change) == path_json(
            v,
        ),
        staged_json(head, entry).path == entry.path,
        staged_json(head, entry).change == "deleted"@ <==> entry.file is None && entry.artifact
            is None,
        staged_json(head, entry).kind == kind_json(staged_entry(head, entry).0),
        staged_json(head, entry).storage == storage_json(staged_entry(head, entry).1),
        staged_json(head, entry).change == file_change_name(staged_entry(head, entry).2),
{
    reveal_strlit("added");
    reveal_strlit("deleted");
    reveal_strlit("modified");
    assert("added"@.len() == 5 && "deleted"@.len() == 7 && "modified"@.len() == 8);
    let _change = staged_entry(head, entry).2;
}

/// What was done with a path is told of that path, as what it is; each thing that can be done has a
/// name of its own.
pub proof fn law_actions_are_told(path: Seq<char>, d: Descriptor, action: PathActionKind)
    ensures
        action_of(path, d, action).path == path,
        action_of(path, d, action).kind == d.0,
        action_of(path, d, action).storage == d.1,
        action_of(path, d, action).action == action,
        path_action_name(action) == "checked_out"@ <==> action == PathActionKind::CheckedOut,
        path_action_name(action) == "removed"@ <==> action == PathActionKind::Removed,
        path_action_name(action) == "staged"@ <==> action == PathActionKind::Staged,
        path_action_name(action) == "conflicted"@ <==> action == PathActionKind::Conflicted,
        path_action_name(action) == "materialized"@ <==> action == PathActionKind::Materialized,
{
    reveal_strlit("checked_out");
    reveal_strlit("removed");
    reveal_strlit("staged");
    reveal_strlit("conflicted");
    reveal_strlit("materialized");
    assert("checked_out"@.len() == 11 && "removed"@.len() == 7 && "staged"@.len() == 6
        && "conflicted"@.len() == 10 && "materialized"@.len() == 12);
}

/// A policy is told with its settings as they are, and says that foreign keys and triggers are off
/// while rows are applied, and that the result is checked.
pub proof fn law_policy_is_told_whole(policy: RowMergePolicy)
    ensures
        apply_policy_json(policy).settings == policy.settings@,
        apply_policy_json(policy).default_semantic_keys == texts(policy.default_semantic_keys@),
        apply_policy_json(policy).internal_resolvers == internal_resolvers_json(
            policy.internal_resolvers,
        ),
        apply_policy_json(policy).schema_resolvers == schema_resolvers_json(policy.schema_resolvers),
        apply_policy_json(policy).generated_columns == generated_columns_json(
            policy.generated_columns,
        ),
        apply_policy_json(policy).foreign_keys == "disabled_during_apply_checked_after"@,
        apply_policy_json(policy).triggers == "disabled_during_apply"@,
        apply_policy_json(policy).validation.contains("integrity_check"@),
        apply_policy_json(policy).validation.contains("foreign_key_check"@),
{
    let v = apply_policy_json(policy).validation;
    assert(v[0] == "integrity_check"@);
    assert(v[1] == "foreign_key_check"@);
}

/// The paths that a plan acts on are told in ascending order, each once, with what is done to it; and
/// no path is told that nothing is done to.
pub proof fn law_every_action_is_told(
    actions: Seq<JsonPathActionView>,
    plan: PathListingView,
    previous: PathListingView,
    path: Seq<char>,
)
    requires
        actions_are(actions, |p: Seq<char>| checkout_action(plan, previous, p)),
    ensures
        (exists|i: int| 0 <= i < actions.len() && (#[trigger] actions[i]).path == path) <==> listed(
            plan,
            path,
        ) is Some || listed(previous, path) is Some,
        forall|i: int| #![trigger actions[i]]
            0 <= i < actions.len() && actions[i].path == path ==> (actions[i].action
                == PathActionKind::CheckedOut <==> listed(plan, path) is Some),
{
    let of = |p: Seq<char>| checkout_action(plan, previous, p);
    if listed(plan, path) is Some || listed(previous, path) is Some {
        assert(of(path) is Some);
        let paths = action_paths(actions);
        assert(paths.contains(path));
        let i = paths.index_of(path);
        assert(actions[i].path == path);
    }
    assert forall|i: int| #![trigger actions[i]] 0 <= i < actions.len() implies of(actions[i].path)
        == Some(actions[i]) by {}
}

} // verus!
