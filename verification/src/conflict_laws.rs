//! What holds of selections and resolutions: the side that is selected is the side that is written.
use vstd::prelude::*;
use vstd::string::*;

use crate::conflict_paths::{
    cell_choice, cell_choices, directive, entries_descriptor, first_of_stage, last_of_stage,
    resolve_start, rows_resolve, side_of_label, side_state, some_file, stage_entry_at,
    stage_file, state_step, take_side, takes_theirs, three_way, unresolve_step,
    RepoConflictSideState, ResolutionStateStep, ResolveStep, RowDirective, RowMergeSide,
    SideStateView, UnresolveStep,
};
use crate::conflicts::{
    cell_conflict_at, cell_key, cell_selection, column_at, identities_match, is_unresolved,
    part_among, path_reopened, row_conflict_at, row_key, row_selection, rows_with_table,
    same_but_case, selected_cell_key, selection_guard, semantic_conflict_at, table_selection,
    unresolved_count, MergePlanFlags, MergeResolutionPathState, RowMergeConflictReason,
    RowMergeConflictView, SelectedPart,
};
use crate::diff::PathState;
use crate::error::{CommandError, RepoErr};
use crate::model::IndexEntryView;
use crate::spec::{
    IndexStage, KeyPartView, RepoPathStorage, RepoResolveCellSpec, RepoTrackedPathKind,
    ResolveSide, RowIdentity, RowIdentityView, RowSpecView,
};

verus! {

pub type DirectiveView = RowDirective<Seq<(Seq<char>, RowMergeSide)>>;

/// The labels of the two sides differ.
proof fn lemma_side_labels()
    ensures
        "ours"@ != "theirs"@,
        "ours"@ != "manual"@,
        "theirs"@ != "manual"@,
{
    reveal_strlit("ours");
    reveal_strlit("theirs");
    reveal_strlit("manual");
    assert("ours"@.len() == 4);
    assert("theirs"@.len() == 6);
    assert("manual"@.len() == 6);
    assert("theirs"@[0] == 't');
    assert("manual"@[0] == 'm');
}

/// The label of a side says which it is, and no other text does.
pub proof fn law_labels_name_the_sides(label: Seq<char>)
    ensures
        ResolveSide::Ours.name() == "ours"@,
        ResolveSide::Theirs.name() == "theirs"@,
        side_of_label(ResolveSide::Ours.name()) == Some(RowMergeSide::Ours),
        side_of_label(ResolveSide::Theirs.name()) == Some(RowMergeSide::Theirs),
        side_of_label(ResolveSide::Manual.name()) is None,
        side_of_label(label) == Some(RowMergeSide::Ours) ==> label == "ours"@,
        side_of_label(label) == Some(RowMergeSide::Theirs) ==> label == "theirs"@,
        ResolveSide::Ours.stage() == Some(IndexStage::Ours),
        ResolveSide::Theirs.stage() == Some(IndexStage::Theirs),
        ResolveSide::Manual.stage() is None,
{
    lemma_side_labels();
}

/// The label on record for a row decides what is written: the row of theirs for the one of theirs,
/// and nothing for that of ours, whatever is on record for its cells.
pub proof fn law_row_label_decides(
    key: Seq<char>,
    conflict: RowMergeConflictView,
    rows: Map<Seq<char>, Seq<char>>,
    cells: Map<Seq<char>, Seq<char>>,
)
    requires
        rows.contains_key(row_key(key, conflict.table, conflict.identity)),
    ensures
        rows[row_key(key, conflict.table, conflict.identity)] == "theirs"@ <==> directive(
            key,
            conflict,
            rows,
            cells,
        ) == Some(DirectiveView::TakeTheirs),
        rows[row_key(key, conflict.table, conflict.identity)] == "ours"@ ==> directive(
            key,
            conflict,
            rows,
            cells,
        ) is None,
        directive(key, conflict, rows, cells) is None || directive(key, conflict, rows, cells)
            == Some(DirectiveView::TakeTheirs),
{
    lemma_side_labels();
}

/// Without a label for its row, a conflict is written only where it is one of cells and a cell is
/// taken from theirs, and then with the side on record for each cell that has one.
pub proof fn law_cell_labels_decide(
    key: Seq<char>,
    conflict: RowMergeConflictView,
    rows: Map<Seq<char>, Seq<char>>,
    cells: Map<Seq<char>, Seq<char>>,
)
    requires
        !rows.contains_key(row_key(key, conflict.table, conflict.identity)),
    ensures
        conflict.reason != RowMergeConflictReason::Cell ==> directive(key, conflict, rows, cells)
            is None,
        directive(key, conflict, rows, cells) != Some(DirectiveView::TakeTheirs),
        directive(key, conflict, rows, cells) is Some <==> conflict.reason
            == RowMergeConflictReason::Cell && exists|c: int|
            0 <= c < conflict.cell_columns.len() && label_on_record(key, conflict, cells, c) == Some(
                "theirs"@,
            ),
        directive(key, conflict, rows, cells) matches Some(DirectiveView::TakeCells(list)) ==> {
            &&& forall|i: int| #![trigger list[i]]
                0 <= i < list.len() ==> exists|c: int|
                    0 <= c < conflict.cell_columns.len() && list[i].0 == conflict.cell_columns[c]
                        && label_on_record(key, conflict, cells, c) == Some(
                        if list[i].1 == RowMergeSide::Ours {
                            "ours"@
                        } else {
                            "theirs"@
                        },
                    )
            &&& forall|c: int| #![trigger conflict.cell_columns[c]]
                0 <= c < conflict.cell_columns.len() ==> {
                    &&& label_on_record(key, conflict, cells, c) == Some("ours"@) ==> list.contains(
                        (conflict.cell_columns[c], RowMergeSide::Ours),
                    )
                    &&& label_on_record(key, conflict, cells, c) == Some("theirs"@)
                        ==> list.contains((conflict.cell_columns[c], RowMergeSide::Theirs))
                }
        },
{
    lemma_side_labels();
    let n = conflict.cell_columns.len() as int;
    let list = cell_choices(key, conflict, cells, n);
    lemma_cell_choices(key, conflict, cells, n);
    if takes_theirs(list) {
        let i = choose|i: int| 0 <= i < list.len() && (#[trigger] list[i]).1 != RowMergeSide::Ours;
        let c = chosen_cell(key, conflict, cells, n, list[i]);
        assert(label_on_record(key, conflict, cells, c) == Some("theirs"@));
    }
    if exists|c: int|
        0 <= c < n && label_on_record(key, conflict, cells, c) == Some("theirs"@) {
        let c = choose|c: int|
            0 <= c < n && label_on_record(key, conflict, cells, c) == Some("theirs"@);
        let e = (conflict.cell_columns[c], RowMergeSide::Theirs);
        assert(cell_choice(key, conflict, cells, c) == Some(e));
        assert(list.contains(e));
        assert(list[list.index_of(e)].1 != RowMergeSide::Ours);
    }
    assert forall|i: int| #![trigger list[i]] 0 <= i < list.len() implies exists|c: int|
        0 <= c < conflict.cell_columns.len() && list[i].0 == conflict.cell_columns[c]
            && label_on_record(key, conflict, cells, c) == Some(
            if list[i].1 == RowMergeSide::Ours {
                "ours"@
            } else {
                "theirs"@
            },
        ) by {
        let c = chosen_cell(key, conflict, cells, n, list[i]);
        assert(label_on_record(key, conflict, cells, c) is Some);
    }
    assert forall|c: int| #![trigger conflict.cell_columns[c]] 0 <= c < n implies {
        &&& label_on_record(key, conflict, cells, c) == Some("ours"@) ==> list.contains(
            (conflict.cell_columns[c], RowMergeSide::Ours),
        )
        &&& label_on_record(key, conflict, cells, c) == Some("theirs"@) ==> list.contains(
            (conflict.cell_columns[c], RowMergeSide::Theirs),
        )
    } by {
        assert(cell_choice(key, conflict, cells, c) is Some ==> list.contains(
            cell_choice(key, conflict, cells, c)->0,
        ));
    }
}

/// The label on record for a cell of a conflict.
pub open spec fn label_on_record(
    key: Seq<char>,
    conflict: RowMergeConflictView,
    cells: Map<Seq<char>, Seq<char>>,
    c: int,
) -> Option<Seq<char>> {
    let k = cell_key(key, conflict.table, conflict.identity, conflict.cell_columns[c]);
    if cells.contains_key(k) {
        Some(cells[k])
    } else {
        None
    }
}

/// A cell that a choice comes from.
spec fn chosen_cell(
    key: Seq<char>,
    conflict: RowMergeConflictView,
    cells: Map<Seq<char>, Seq<char>>,
    n: int,
    choice: (Seq<char>, RowMergeSide),
) -> int {
    choose|c: int| 0 <= c < n && #[trigger] cell_choice(key, conflict, cells, c) == Some(choice)
}

/// The choices are those of the cells that have one.
proof fn lemma_cell_choices(
    key: Seq<char>,
    conflict: RowMergeConflictView,
    cells: Map<Seq<char>, Seq<char>>,
    n: int,
)
    requires
        0 <= n <= conflict.cell_columns.len(),
    ensures
        forall|i: int| #![trigger cell_choices(key, conflict, cells, n)[i]]
            0 <= i < cell_choices(key, conflict, cells, n).len() ==> exists|c: int|
                0 <= c < n && #[trigger] cell_choice(key, conflict, cells, c) == Some(
                    cell_choices(key, conflict, cells, n)[i],
                ),
        forall|c: int| #![trigger cell_choice(key, conflict, cells, c)]
            0 <= c < n && cell_choice(key, conflict, cells, c) is Some ==> cell_choices(
                key,
                conflict,
                cells,
                n,
            ).contains(cell_choice(key, conflict, cells, c)->0),
    decreases n,
{
    if n > 0 {
        lemma_cell_choices(key, conflict, cells, n - 1);
        let was = cell_choices(key, conflict, cells, n - 1);
        let now = cell_choices(key, conflict, cells, n);
        let last = cell_choice(key, conflict, cells, n - 1);
        if last is Some {
            assert(now[was.len() as int] == last->0);
        }
        assert forall|i: int| #![trigger now[i]] 0 <= i < now.len() implies exists|c: int|
            0 <= c < n && #[trigger] cell_choice(key, conflict, cells, c) == Some(now[i]) by {
            if i < was.len() {
                assert(was[i] == now[i]);
                let c = choose|c: int|
                    0 <= c < n - 1 && #[trigger] cell_choice(key, conflict, cells, c) == Some(was[i]);
                assert(cell_choice(key, conflict, cells, c) == Some(now[i]));
            } else {
                assert(last == Some(now[i]));
            }
        }
        assert forall|c: int| #![trigger cell_choice(key, conflict, cells, c)]
            0 <= c < n && cell_choice(key, conflict, cells, c) is Some implies now.contains(
            cell_choice(key, conflict, cells, c)->0,
        ) by {
            if c < n - 1 {
                let e = cell_choice(key, conflict, cells, c)->0;
                assert(was.contains(e));
                assert(now[was.index_of(e)] == e);
            }
        }
    }
}

/// The conflict that is found for a row is the first of its table and its identity, and one is found
/// wherever there is any.
pub proof fn law_row_conflict_is_found(
    conflicts: Seq<RowMergeConflictView>,
    row: RowSpecView,
    i: int,
)
    requires
        0 <= i <= conflicts.len(),
    ensures
        match row_conflict_at(conflicts, row, i) {
            Some(found) => {
                &&& i <= found < conflicts.len()
                &&& conflicts[found].table == row.table
                &&& identities_match(conflicts[found].identity, row.identity)
                &&& forall|j: int| #![trigger conflicts[j]]
                    i <= j < found ==> !(conflicts[j].table == row.table && identities_match(
                        conflicts[j].identity,
                        row.identity,
                    ))
            },
            None => forall|j: int| #![trigger conflicts[j]]
                i <= j < conflicts.len() ==> !(conflicts[j].table == row.table && identities_match(
                    conflicts[j].identity,
                    row.identity,
                )),
        },
    decreases conflicts.len() - i,
{
    if i < conflicts.len() {
        law_row_conflict_is_found(conflicts, row, i + 1);
    }
}

/// Rows are the same by their rowids, or by their keys. A rowid and a key are never the same row.
pub proof fn law_rows_are_told_apart(a: RowIdentityView, b: RowIdentityView)
    ensures
        identities_match(a, a),
        a is Rowid && b is Rowid ==> (identities_match(a, b) <==> a == b),
        a is Rowid != b is Rowid ==> !identities_match(a, b),
{
    if let RowIdentity::PrimaryKey { parts } = a {
        assert forall|i: int| 0 <= i < parts.len() implies part_among(#[trigger] parts[i], parts) by {
            assert(parts[i].column == parts[i].column);
        }
    }
}

/// Keys of the same row have as many parts, and every column has the value that it has in the other
/// key, however the parts are ordered.
pub proof fn law_keys_are_told_apart(a: Seq<KeyPartView>, b: Seq<KeyPartView>, i: int)
    requires
        identities_match(RowIdentity::PrimaryKey { parts: a }, RowIdentity::PrimaryKey { parts: b }),
        0 <= i < a.len(),
    ensures
        a.len() == b.len(),
        exists|j: int| #![trigger b[j]]
            0 <= j < b.len() && b[j].column == a[i].column && (b[j].value == a[i].value || (
            b[j].value is Real && a[i].value is Real && b[j].value->bits == a[i].value->bits)),
{
    assert(part_among(a[i], b));
}

/// What is written for the side that a row, or each row of a table, was given.
pub open spec fn written_for(side: ResolveSide, d: Option<DirectiveView>) -> bool {
    match side {
        ResolveSide::Ours => d is None,
        ResolveSide::Theirs => d == Some(DirectiveView::TakeTheirs),
        ResolveSide::Manual => false,
    }
}

/// A side that is selected for a row is what is written for it. The selection is refused for no
/// side, with conflicts that rows cannot express, for a row that is in no conflict and for one that
/// conflicts in its semantic key, and only then.
pub proof fn law_selected_row_is_written(
    key: Seq<char>,
    side: ResolveSide,
    row: RowSpecView,
    flags: MergePlanFlags,
    conflicts: Seq<RowMergeConflictView>,
    rows: Map<Seq<char>, Seq<char>>,
    cells: Map<Seq<char>, Seq<char>>,
)
    ensures
        row_selection(key, side, row, flags, conflicts) matches Ok(i) ==> {
            let after = rows.insert(row_key(key, row.table, conflicts[i].identity), side.name());
            &&& 0 <= i < conflicts.len()
            &&& conflicts[i].table == row.table
            &&& identities_match(conflicts[i].identity, row.identity)
            &&& conflicts[i].reason != RowMergeConflictReason::SemanticKey
            &&& side != ResolveSide::Manual
            &&& !flags.schema_conflicts
            &&& !flags.opaque_changes
            &&& written_for(side, directive(key, conflicts[i], after, cells))
            &&& !is_unresolved(key, conflicts[i], after, cells)
        },
        side == ResolveSide::Manual || flags.schema_conflicts || flags.opaque_changes
            ==> row_selection(key, side, row, flags, conflicts) is Err,
        row_conflict_at(conflicts, row, 0) is None ==> row_selection(
            key,
            side,
            row,
            flags,
            conflicts,
        ) is Err,
        side != ResolveSide::Manual && !flags.schema_conflicts && !flags.opaque_changes && (
        row_conflict_at(conflicts, row, 0) matches Some(i) && conflicts[i].reason
            != RowMergeConflictReason::SemanticKey) ==> row_selection(
            key,
            side,
            row,
            flags,
            conflicts,
        ) is Ok,
{
    lemma_side_labels();
    law_row_conflict_is_found(conflicts, row, 0);
}

/// A column is found by its name, whatever the case of its letters.
pub proof fn law_column_is_found(columns: Seq<Seq<char>>, name: Seq<char>, i: int)
    requires
        0 <= i <= columns.len(),
    ensures
        match column_at(columns, name, i) {
            Some(found) => {
                &&& i <= found < columns.len()
                &&& same_but_case(columns[found], name)
                &&& forall|j: int| i <= j < found ==> !same_but_case(#[trigger] columns[j], name)
            },
            None => forall|j: int|
                i <= j < columns.len() ==> !same_but_case(#[trigger] columns[j], name),
        },
    decreases columns.len() - i,
{
    if i < columns.len() && !same_but_case(columns[i], name) {
        law_column_is_found(columns, name, i + 1);
    }
}

/// The conflict that is found for a cell is one of cells, of its row and with its column.
pub proof fn law_cell_conflict_is_found(
    conflicts: Seq<RowMergeConflictView>,
    cell: RepoResolveCellSpec<Seq<char>, RowIdentityView>,
    i: int,
)
    requires
        0 <= i <= conflicts.len(),
    ensures
        match cell_conflict_at(conflicts, cell, i) {
            Some(found) => {
                &&& i <= found < conflicts.len()
                &&& conflicts[found].reason == RowMergeConflictReason::Cell
                &&& conflicts[found].table == cell.table
                &&& identities_match(conflicts[found].identity, cell.identity)
                &&& column_at(conflicts[found].cell_columns, cell.column, 0) is Some
            },
            None => forall|j: int, c: int| #![trigger conflicts[j].cell_columns[c]]
                i <= j < conflicts.len() && 0 <= c < conflicts[j].cell_columns.len()
                    && conflicts[j].reason == RowMergeConflictReason::Cell && conflicts[j].table
                    == cell.table && identities_match(conflicts[j].identity, cell.identity)
                    ==> !same_but_case(conflicts[j].cell_columns[c], cell.column),
        },
    decreases conflicts.len() - i,
{
    if i < conflicts.len() {
        law_column_is_found(conflicts[i].cell_columns, cell.column, 0);
        law_cell_conflict_is_found(conflicts, cell, i + 1);
    }
}

/// A side that is selected for a cell is what is written for it, once there is no selection for its
/// whole row: a cell of theirs is taken over, and one of ours is not.
pub proof fn law_selected_cell_is_written(
    key: Seq<char>,
    side: ResolveSide,
    cell: RepoResolveCellSpec<Seq<char>, RowIdentityView>,
    conflicts: Seq<RowMergeConflictView>,
    rows: Map<Seq<char>, Seq<char>>,
    cells: Map<Seq<char>, Seq<char>>,
)
    ensures
        side == ResolveSide::Manual ==> cell_selection(key, side, cell, conflicts) is Err,
        side != ResolveSide::Manual ==> (cell_selection(key, side, cell, conflicts) is Ok
            <==> cell_conflict_at(conflicts, cell, 0) is Some),
        cell_selection(key, side, cell, conflicts) matches Ok(i) ==> {
            let conflict = conflicts[i];
            let k = selected_cell_key(key, cell, conflict);
            let rows_after = rows.remove(row_key(key, cell.table, conflict.identity));
            let after = directive(key, conflict, rows_after, cells.insert(k, side.name()));
            let name = conflict.cell_columns[column_at(conflict.cell_columns, cell.column, 0)->0];
            &&& 0 <= i < conflicts.len()
            &&& conflict.reason == RowMergeConflictReason::Cell
            &&& conflict.table == cell.table
            &&& identities_match(conflict.identity, cell.identity)
            &&& same_but_case(name, cell.column)
            &&& side == ResolveSide::Theirs ==> (after matches Some(DirectiveView::TakeCells(list))
                && list.contains((name, RowMergeSide::Theirs)) && !list.contains(
                (name, RowMergeSide::Ours),
            ))
            &&& side == ResolveSide::Ours ==> (after matches Some(d) ==> (
            d matches DirectiveView::TakeCells(list) && list.contains((name, RowMergeSide::Ours))
                && !list.contains((name, RowMergeSide::Theirs))))
        },
{
    lemma_side_labels();
    law_cell_conflict_is_found(conflicts, cell, 0);
    if let Ok(i) = cell_selection(key, side, cell, conflicts) {
        let conflict = conflicts[i];
        law_column_is_found(conflict.cell_columns, cell.column, 0);
        let c0 = column_at(conflict.cell_columns, cell.column, 0)->0;
        let name = conflict.cell_columns[c0];
        let k = selected_cell_key(key, cell, conflict);
        let rows_after = rows.remove(row_key(key, cell.table, conflict.identity));
        let cells_after = cells.insert(k, side.name());
        law_cell_labels_decide(key, conflict, rows_after, cells_after);
        assert(label_on_record(key, conflict, cells_after, c0) == Some(side.name()));
        if let Some(DirectiveView::TakeCells(list)) = directive(
            key,
            conflict,
            rows_after,
            cells_after,
        ) {
            assert forall|other: RowMergeSide|
                #[trigger] list.contains((name, other)) implies side.name() == (if other
                == RowMergeSide::Ours {
                "ours"@
            } else {
                "theirs"@
            }) by {
                let at = list.index_of((name, other));
                assert(list[at] == (name, other));
                let c = choose|c: int|
                    0 <= c < conflict.cell_columns.len() && list[at].0 == conflict.cell_columns[c]
                        && label_on_record(key, conflict, cells_after, c) == Some(
                        if list[at].1 == RowMergeSide::Ours {
                            "ours"@
                        } else {
                            "theirs"@
                        },
                    );
                assert(label_on_record(key, conflict, cells_after, c) == Some(side.name()));
            }
        }
    }
}

/// A conflict in a table that needs its file resolved is found wherever there is one.
pub proof fn law_semantic_conflict_is_found(
    conflicts: Seq<RowMergeConflictView>,
    table: Seq<char>,
    i: int,
)
    requires
        0 <= i <= conflicts.len(),
    ensures
        match semantic_conflict_at(conflicts, table, i) {
            Some(found) => i <= found < conflicts.len() && conflicts[found].table == table
                && conflicts[found].reason == RowMergeConflictReason::SemanticKey,
            None => forall|j: int| #![trigger conflicts[j]]
                i <= j < conflicts.len() && conflicts[j].table == table ==> conflicts[j].reason
                    != RowMergeConflictReason::SemanticKey,
        },
    decreases conflicts.len() - i,
{
    if i < conflicts.len() {
        law_semantic_conflict_is_found(conflicts, table, i + 1);
    }
}

proof fn lemma_rows_with_table(
    rows: Map<Seq<char>, Seq<char>>,
    key: Seq<char>,
    side: ResolveSide,
    table: Seq<char>,
    conflicts: Seq<RowMergeConflictView>,
    n: int,
    k: Seq<char>,
)
    requires
        0 <= n <= conflicts.len(),
    ensures
        ({
            let after = rows_with_table(rows, key, side, table, conflicts, n);
            if exists|j: int| #![trigger conflicts[j]]
                0 <= j < n && conflicts[j].table == table && k == row_key(
                    key,
                    table,
                    conflicts[j].identity,
                ) {
                after.contains_key(k) && after[k] == side.name()
            } else {
                after.contains_key(k) == rows.contains_key(k) && (rows.contains_key(k) ==> after[k]
                    == rows[k])
            }
        }),
    decreases n,
{
    if n > 0 {
        lemma_rows_with_table(rows, key, side, table, conflicts, n - 1, k);
        let hit = |j: int| conflicts[j].table == table && k == row_key(key, table, conflicts[j].identity);
        if hit(n - 1) {
            assert(conflicts[n - 1].table == table);
        }
    }
}

/// A side can be selected for a table unless there is none, or conflicts that rows cannot express,
/// or no row in conflict, or one that conflicts in its semantic key.
pub proof fn law_tables_that_take_a_side(
    key: Seq<char>,
    side: ResolveSide,
    table: Seq<char>,
    flags: MergePlanFlags,
    conflicts: Seq<RowMergeConflictView>,
)
    ensures
        table_selection(key, side, table, flags, conflicts) is Ok <==> {
            &&& side != ResolveSide::Manual
            &&& !flags.schema_conflicts
            &&& !flags.opaque_changes
            &&& exists|i: int| 0 <= i < conflicts.len() && (#[trigger] conflicts[i]).table == table
            &&& forall|i: int| #![trigger conflicts[i]]
                0 <= i < conflicts.len() && conflicts[i].table == table ==> conflicts[i].reason
                    != RowMergeConflictReason::SemanticKey
        },
{
    law_semantic_conflict_is_found(conflicts, table, 0);
}

/// A side that is selected for a table is what is written for each row of it that is in conflict.
pub proof fn law_selected_table_is_written(
    key: Seq<char>,
    side: ResolveSide,
    table: Seq<char>,
    conflicts: Seq<RowMergeConflictView>,
    rows: Map<Seq<char>, Seq<char>>,
    cells: Map<Seq<char>, Seq<char>>,
    i: int,
)
    requires
        side != ResolveSide::Manual,
        0 <= i < conflicts.len(),
        conflicts[i].table == table,
    ensures
        ({
            let after = rows_with_table(rows, key, side, table, conflicts, conflicts.len() as int);
            &&& written_for(side, directive(key, conflicts[i], after, cells))
            &&& !is_unresolved(key, conflicts[i], after, cells)
        }),
{
    lemma_side_labels();
    let k = row_key(key, table, conflicts[i].identity);
    lemma_rows_with_table(rows, key, side, table, conflicts, conflicts.len() as int, k);
    let after = rows_with_table(rows, key, side, table, conflicts, conflicts.len() as int);
    assert(after.contains_key(k) && after[k] == side.name());
}

/// Selecting a side for a table changes no selection but those of its rows in conflict.
pub proof fn law_other_selections_stay(
    key: Seq<char>,
    side: ResolveSide,
    table: Seq<char>,
    conflicts: Seq<RowMergeConflictView>,
    rows: Map<Seq<char>, Seq<char>>,
    k: Seq<char>,
)
    requires
        forall|i: int| #![trigger conflicts[i]]
            0 <= i < conflicts.len() && conflicts[i].table == table ==> k != row_key(
                key,
                table,
                conflicts[i].identity,
            ),
    ensures
        ({
            let after = rows_with_table(rows, key, side, table, conflicts, conflicts.len() as int);
            &&& after.contains_key(k) == rows.contains_key(k)
            &&& rows.contains_key(k) ==> after[k] == rows[k]
        }),
{
    lemma_rows_with_table(rows, key, side, table, conflicts, conflicts.len() as int, k);
}

/// The entry that is found for a stage of a path is the first of that path and stage.
pub proof fn law_stage_entry_is_found(
    entries: Seq<IndexEntryView>,
    key: Seq<char>,
    stage: IndexStage,
    i: int,
)
    requires
        0 <= i <= entries.len(),
    ensures
        match stage_entry_at(entries, key, stage, i) {
            Some(found) => {
                &&& i <= found < entries.len()
                &&& entries[found].path == key
                &&& entries[found].stage == stage
                &&& forall|j: int| #![trigger entries[j]]
                    i <= j < found ==> entries[j].path != key || entries[j].stage != stage
            },
            None => forall|j: int| #![trigger entries[j]]
                i <= j < entries.len() ==> entries[j].path != key || entries[j].stage != stage,
        },
    decreases entries.len() - i,
{
    if i < entries.len() {
        law_stage_entry_is_found(entries, key, stage, i + 1);
    }
}

/// Taking a side takes what the index holds of the path at the stage of that side: its database, its
/// ordinary file, or its deletion where it holds neither. It fails only where there is no side to
/// take or no conflict.
pub proof fn law_side_is_that_of_its_stage(entries: Seq<IndexEntryView>, key: Seq<char>, i: int)
    requires
        0 <= i < entries.len(),
        entries[i].path == key,
        forall|j: int| #![trigger entries[j]]
            0 <= j < i ==> entries[j].path != key || entries[j].stage != entries[i].stage,
    ensures
        entries[i].stage == IndexStage::Ours ==> side_state(entries, key, ResolveSide::Ours) == Ok::<
            _,
            CommandError<Seq<char>>,
        >(held(entries[i])),
        entries[i].stage == IndexStage::Theirs ==> side_state(entries, key, ResolveSide::Theirs)
            == Ok::<_, CommandError<Seq<char>>>(held(entries[i])),
{
    law_stage_entry_is_found(entries, key, entries[i].stage, 0);
}

/// What an entry of the index holds.
pub open spec fn held(entry: IndexEntryView) -> SideStateView {
    if entry.file is Some {
        RepoConflictSideState::SqliteDatabase(entry.file->0)
    } else if entry.artifact is Some {
        RepoConflictSideState::Artifact(entry.artifact->0)
    } else {
        RepoConflictSideState::Deleted
    }
}

/// A side without an entry of its own deleted the path, and there is nothing to take without a side
/// or without a conflict.
pub proof fn law_side_without_an_entry(entries: Seq<IndexEntryView>, key: Seq<char>)
    ensures
        entries.len() > 0 && (forall|j: int| #![trigger entries[j]]
            0 <= j < entries.len() ==> entries[j].path != key || entries[j].stage != IndexStage::Ours)
            ==> side_state(entries, key, ResolveSide::Ours) == Ok::<_, CommandError<Seq<char>>>(
            SideStateView::Deleted,
        ),
        entries.len() > 0 && (forall|j: int| #![trigger entries[j]]
            0 <= j < entries.len() ==> entries[j].path != key || entries[j].stage
                != IndexStage::Theirs) ==> side_state(entries, key, ResolveSide::Theirs) == Ok::<
            _,
            CommandError<Seq<char>>,
        >(SideStateView::Deleted),
        side_state(entries, key, ResolveSide::Manual) is Err,
        entries.len() == 0 ==> side_state(entries, key, ResolveSide::Ours) == Err::<SideStateView, _>(
            CommandError::Repo(RepoErr::PathNotConflicted(key)),
        ) && side_state(entries, key, ResolveSide::Theirs) == Err::<SideStateView, _>(
            CommandError::Repo(RepoErr::PathNotConflicted(key)),
        ),
{
    law_stage_entry_is_found(entries, key, IndexStage::Ours, 0);
    law_stage_entry_is_found(entries, key, IndexStage::Theirs, 0);
}

/// What is taken is what the side holds, and the open database is told from the others.
pub proof fn law_taking_a_side(state: SideStateView, current: bool)
    ensures
        take_side(state, current) == (ResolveStep::TakeDatabase { current }) <==> state
            is SqliteDatabase,
        take_side(state, current) == (ResolveStep::TakeArtifact { current }) <==> state is Artifact,
        take_side(state, current) == (ResolveStep::TakeDeletion { current }) <==> state is Deleted,
{
}

/// A resolution starts only on a path of the merge. A named row is selected; a side is taken row by
/// row; and by hand, what stands at the path is staged: a deletion exactly where nothing does, and
/// the open database from its session.
pub proof fn law_resolution_starts(
    known: bool,
    key: Seq<char>,
    side: ResolveSide,
    names_row: bool,
    current: bool,
    standing: PathState,
)
    ensures
        resolve_start(known, key, side, names_row, current, standing) is Ok <==> known,
        resolve_start(known, key, side, names_row, current, standing) matches Err(e) ==> e
            == CommandError::<Seq<char>>::Repo(RepoErr::PathNotConflicted(key)),
        resolve_start(known, key, side, names_row, current, standing) matches Ok(step) ==> {
            &&& step == ResolveStep::SelectRow <==> names_row
            &&& step == ResolveStep::MergeRows <==> !names_row && (side == ResolveSide::Ours || side
                == ResolveSide::Theirs)
            &&& step == ResolveStep::StageCurrent <==> !names_row && side == ResolveSide::Manual
                && current
            &&& step == ResolveStep::StageDeletion <==> !names_row && side == ResolveSide::Manual
                && !current && standing == PathState::Missing
            &&& step == ResolveStep::StageDatabase <==> !names_row && side == ResolveSide::Manual
                && !current && standing == PathState::SqliteFile
            &&& !(step is TakeDatabase) && !(step is TakeArtifact) && !(step is TakeDeletion)
        },
{
}

/// Rows are merged only where a row is in conflict and a side is named, and nothing in conflict is
/// beyond rows.
pub proof fn law_rows_that_resolve(conflicts: bool, schema: bool, opaque: bool, side: ResolveSide)
    ensures
        rows_resolve(conflicts, schema, opaque, side) ==> conflicts && !schema && !opaque,
        !rows_resolve(conflicts, schema, opaque, ResolveSide::Manual),
        rows_resolve(conflicts, schema, opaque, ResolveSide::Ours) == rows_resolve(
            conflicts,
            schema,
            opaque,
            ResolveSide::Theirs,
        ),
        rows_resolve(true, false, false, ResolveSide::Ours),
{
}

/// The entry that a stage holds first is found.
pub proof fn law_first_of_stage_is_found(entries: Seq<IndexEntryView>, stage: IndexStage, i: int)
    requires
        0 <= i <= entries.len(),
    ensures
        match first_of_stage(entries, stage, i) {
            Some(found) => i <= found < entries.len() && entries[found].stage == stage && forall|
                j: int,
            | #![trigger entries[j]]
                i <= j < found ==> entries[j].stage != stage,
            None => forall|j: int| #![trigger entries[j]]
                i <= j < entries.len() ==> entries[j].stage != stage,
        },
    decreases entries.len() - i,
{
    if i < entries.len() {
        law_first_of_stage_is_found(entries, stage, i + 1);
    }
}

/// The entry that a stage holds last is found, and of it the database of the stage.
pub proof fn law_last_of_stage_is_found(entries: Seq<IndexEntryView>, stage: IndexStage)
    ensures
        match last_of_stage(entries, stage) {
            Some(found) => {
                &&& 0 <= found < entries.len()
                &&& entries[found].stage == stage
                &&& forall|j: int| #![trigger entries[j]]
                    found < j < entries.len() ==> entries[j].stage != stage
                &&& stage_file(entries, stage) == entries[found].file
            },
            None => {
                &&& forall|j: int| #![trigger entries[j]]
                    0 <= j < entries.len() ==> entries[j].stage != stage
                &&& stage_file(entries, stage) is None
            },
        },
    decreases entries.len(),
{
    if entries.len() > 0 {
        law_last_of_stage_is_found(entries.drop_last(), stage);
        assert forall|j: int| #![trigger entries[j]] 0 <= j < entries.len() - 1 implies entries[j]
            == entries.drop_last()[j] by {}
    }
}

/// The three databases of a merge are those of the three stages, in the order of base, ours and
/// theirs, and are there only together.
pub proof fn law_three_way_is_base_ours_theirs(entries: Seq<IndexEntryView>)
    ensures
        three_way(entries) is Some <==> stage_file(entries, IndexStage::Base) is Some && stage_file(
            entries,
            IndexStage::Ours,
        ) is Some && stage_file(entries, IndexStage::Theirs) is Some,
        three_way(entries) matches Some(t) ==> Some(t.0) == stage_file(entries, IndexStage::Base)
            && Some(t.1) == stage_file(entries, IndexStage::Ours) && Some(t.2) == stage_file(
            entries,
            IndexStage::Theirs,
        ),
{
}

/// A path goes back into conflict as our side had it: with its database, with its ordinary file, or
/// without either where our side had none. A database whose rows could be merged comes back in any
/// case. The open database is emptied, never removed.
pub proof fn law_unresolving_restores_ours(
    entries: Seq<IndexEntryView>,
    key: Seq<char>,
    current: bool,
    merged: bool,
)
    ensures
        unresolve_step(entries, key, current, merged) is Ok <==> entries.len() > 0,
        unresolve_step(entries, key, current, merged) matches Ok(step) ==> {
            let ours = first_of_stage(entries, IndexStage::Ours, 0);
            &&& step == UnresolveStep::EmptyCurrent ==> current
            &&& step == UnresolveStep::RemoveFile ==> !current
            &&& step matches UnresolveStep::RestoreDatabase { current: c } ==> c == current
                && exists|i: int| 0 <= i < entries.len() && (#[trigger] entries[i]).file is Some
            &&& step matches UnresolveStep::RestoreArtifact { current: c } ==> c == current && ours
                is Some && entries[ours->0].artifact is Some && forall|i: int|
                0 <= i < entries.len() ==> (#[trigger] entries[i]).file is None
            &&& ours is Some && entries[ours->0].file is Some ==> step
                == (UnresolveStep::RestoreDatabase { current })
            &&& merged && some_file(entries) ==> step == (UnresolveStep::RestoreDatabase { current })
            &&& !some_file(entries) && ours is Some && entries[ours->0].artifact is Some ==> step
                == (UnresolveStep::RestoreArtifact { current })
            &&& !merged && (ours is None || (entries[ours->0].file is None
                && entries[ours->0].artifact is None)) ==> step == UnresolveStep::EmptyCurrent
                || step == UnresolveStep::RemoveFile
        },
{
    law_first_of_stage_is_found(entries, IndexStage::Ours, 0);
    if some_file(entries) {
        let i = choose|i: int| 0 <= i < entries.len() && (#[trigger] entries[i]).file is Some;
        assert(entries[i].file is Some);
    }
}

/// What is on record of a merge is used only for the merge it was made for and under its policy.
pub proof fn law_recorded_state_belongs_to_its_merge(
    same_merge: bool,
    version: u32,
    policy_matches: bool,
)
    ensures
        state_step(same_merge, version, policy_matches) == Ok::<_, CommandError<Seq<char>>>(
            ResolutionStateStep::Use,
        ) <==> same_merge && version == 2 && policy_matches,
        state_step(same_merge, version, policy_matches) == Ok::<_, CommandError<Seq<char>>>(
            ResolutionStateStep::Rebuild,
        ) <==> !same_merge,
        state_step(same_merge, version, policy_matches) == Ok::<_, CommandError<Seq<char>>>(
            ResolutionStateStep::Upgrade,
        ) <==> same_merge && version == 1,
{
}

/// A path is what the first of its entries that holds anything is: a database wherever that is one.
pub proof fn law_descriptor_is_that_of_an_entry(entries: Seq<IndexEntryView>, at: int, i: int)
    requires
        0 <= at <= i < entries.len(),
        entries[i].file is Some || entries[i].artifact is Some,
        forall|j: int| #![trigger entries[j]]
            at <= j < i ==> entries[j].file is None && entries[j].artifact is None,
    ensures
        entries[i].file is Some ==> entries_descriptor(entries, at) == (
            RepoTrackedPathKind::SqliteDatabase,
            RepoPathStorage::SqliteSnapshot,
        ),
        entries[i].file is None ==> entries_descriptor(entries, at).0 == entries[i].artifact->0.kind,
        entries[i].file is None ==> (entries_descriptor(entries, at).1 == RepoPathStorage::External
            <==> entries[i].artifact->0.large),
        entries[i].file is None ==> (entries_descriptor(entries, at).1 == RepoPathStorage::Inline
            <==> !entries[i].artifact->0.large),
    decreases i - at,
{
    if at < i {
        law_descriptor_is_that_of_an_entry(entries, at + 1, i);
    }
}

/// No conflict is unresolved exactly where every one has a selection for its row or, being one of
/// cells, a selection for each of them.
pub proof fn law_nothing_is_left_to_select(
    key: Seq<char>,
    conflicts: Seq<RowMergeConflictView>,
    rows: Map<Seq<char>, Seq<char>>,
    cells: Map<Seq<char>, Seq<char>>,
    n: int,
)
    requires
        0 <= n <= conflicts.len(),
    ensures
        unresolved_count(key, conflicts, rows, cells, n) <= n,
        unresolved_count(key, conflicts, rows, cells, n) == 0 <==> forall|i: int| #![trigger conflicts[i]]
            0 <= i < n ==> rows.contains_key(row_key(key, conflicts[i].table, conflicts[i].identity))
                || (conflicts[i].reason == RowMergeConflictReason::Cell && forall|c: int|
                0 <= c < conflicts[i].cell_columns.len() ==> cells.contains_key(
                    cell_key(
                        key,
                        conflicts[i].table,
                        conflicts[i].identity,
                        #[trigger] conflicts[i].cell_columns[c],
                    ),
                )),
    decreases n,
{
    if n > 0 {
        law_nothing_is_left_to_select(key, conflicts, rows, cells, n - 1);
        assert(conflicts[n - 1] == conflicts[n - 1]);
    }
}

/// Selecting a side for one more row leaves no more conflicts unresolved than before.
pub proof fn law_selecting_leaves_no_more(
    key: Seq<char>,
    conflicts: Seq<RowMergeConflictView>,
    rows: Map<Seq<char>, Seq<char>>,
    cells: Map<Seq<char>, Seq<char>>,
    k: Seq<char>,
    label: Seq<char>,
    n: int,
)
    requires
        0 <= n <= conflicts.len(),
    ensures
        unresolved_count(key, conflicts, rows.insert(k, label), cells, n) <= unresolved_count(
            key,
            conflicts,
            rows,
            cells,
            n,
        ),
        unresolved_count(key, conflicts, rows, cells.insert(k, label), n) <= unresolved_count(
            key,
            conflicts,
            rows,
            cells,
            n,
        ),
    decreases n,
{
    if n > 0 {
        law_selecting_leaves_no_more(key, conflicts, rows, cells, k, label, n - 1);
    }
}

/// A selection is refused before the merge is planned exactly where it names no side or the merge
/// does not have all three states.
pub proof fn law_selections_that_are_guarded(
    part: SelectedPart,
    side: ResolveSide,
    three_states: bool,
    key: Seq<char>,
)
    ensures
        selection_guard(part, side, three_states, key) is Ok <==> three_states && (side
            == ResolveSide::Ours || side == ResolveSide::Theirs),
{
}

/// Reopening a path takes back its resolution, keeps the entries that the merge began with, and
/// leaves every other path alone.
pub proof fn law_reopening_a_path(
    paths: Map<Seq<char>, MergeResolutionPathState>,
    key: Seq<char>,
    other: Seq<char>,
)
    ensures
        path_reopened(paths, key).contains_key(other) == paths.contains_key(other),
        other != key && paths.contains_key(other) ==> path_reopened(paths, key)[other]
            == paths[other],
        paths.contains_key(key) ==> path_reopened(paths, key)[key].resolution is None
            && path_reopened(paths, key)[key].original_entries == paths[key].original_entries,
{
}

/// Names are the same but for their case where they are as long and differ in no character but in the
/// case of a letter.
pub proof fn law_names_but_for_their_case(a: Seq<char>, b: Seq<char>, i: int)
    ensures
        same_but_case(a, a),
        same_but_case(a, b) ==> same_but_case(b, a),
        same_but_case(a, b) ==> a.len() == b.len(),
        same_but_case(a, b) && 0 <= i < a.len() ==> a[i] == b[i] || ('A' <= a[i] <= 'Z' && b[i] as int
            == a[i] as int + 32) || ('A' <= b[i] <= 'Z' && a[i] as int == b[i] as int + 32),
        a.len() == b.len() && (forall|k: int| #![trigger a[k]]
            0 <= k < a.len() ==> a[k] == b[k] || ('A' <= a[k] <= 'Z' && b[k] as int == a[k] as int
                + 32)) ==> same_but_case(a, b),
{
    if same_but_case(a, b) {
        assert forall|k: int| 0 <= k < b.len() implies crate::conflicts::lower(#[trigger] b[k])
            == crate::conflicts::lower(a[k]) by {
            assert(crate::conflicts::lower(a[k]) == crate::conflicts::lower(b[k]));
        }
        if 0 <= i < a.len() {
            assert(crate::conflicts::lower(a[i]) == crate::conflicts::lower(b[i]));
        }
    }
}

} // verus!
