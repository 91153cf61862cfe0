//! What holds of the JSON of row differences and of the counts of changed rows.
use vstd::prelude::*;
use vstd::string::*;

use crate::bytes::{is_hex, law_hex_round_trip, unhex};
use crate::error::CommandError;
use crate::json::{is_finite, json_key, json_key_value, json_value, JsonValue, JsonValueView};
use crate::row_diff::{
    bounded_file, change_json, change_json_list, law_row_cursor_round_trip,
    limitation_json_list, opaque_json_list, path_json_list, row_file, row_offset,
    schema_json_list, summary_json_list, table_json_list, BoundedRowDiffView, OpaqueChangeView,
    RepoDiffPathView, RowChange, RowChangeView, RowDiffResult, RowLevelDiffLimitationView,
    RowLevelDiffView, SchemaChangeView, TableChangesView, TableSummaryView,
};
use crate::spec::{KeyPart, KeyPartView, KeyValue};
use crate::tables::{
    changed_tables, counted_as, counts_are, is_delete, is_insert, is_update, summary_of,
    summary_route, total_of, whole_table, whole_tables, CommitTableSummaryView, RowCounts,
    SnapshotSummaryMode, SummaryRoute, TableRowsView,
};

verus! {

/// The values of a JSON answer are those of a row, one by one.
pub open spec fn are_values_of(values: Seq<JsonValueView>, row: Seq<KeyValue>) -> bool {
    values.len() == row.len() && forall|i: int|
        0 <= i < row.len() ==> #[trigger] values[i] == json_value(row[i]@)
}

/// A change of a row by its rowid shows, as its values, the row after the change or, of a row that is
/// gone, the row before; an update shows the row before as well.
pub proof fn law_changes_by_rowid(rowid: i64, old_row: Vec<KeyValue>, new_row: Vec<KeyValue>)
    ensures
        ({
            let insert = change_json((RowChange::Insert { rowid, row: new_row })@);
            let delete = change_json((RowChange::Delete { rowid, row: old_row })@);
            let update = change_json((RowChange::Update { rowid, old_row, new_row })@);
            &&& are_values_of(update.values, new_row@)
            &&& update.old_values matches Some(old) && are_values_of(old, old_row@)
            &&& update.values == insert.values
            &&& update.old_values == Some(delete.values)
            &&& insert.old_values is None
            &&& delete.old_values is None
            &&& insert.op == "insert"@
            &&& delete.op == "delete"@
            &&& update.op == "update"@
            &&& insert.rowid == Some(rowid) && insert.key is None
            &&& delete.rowid == Some(rowid) && delete.key is None
            &&& update.rowid == Some(rowid) && update.key is None
        }),
{
}

/// A change of a row by its primary key shows what the change by a rowid shows, under the key.
pub proof fn law_changes_by_key(
    rowid: i64,
    key: Vec<KeyPart>,
    old_row: Vec<KeyValue>,
    new_row: Vec<KeyValue>,
)
    ensures
        ({
            let insert = change_json((RowChange::PrimaryKeyInsert { key, row: new_row })@);
            let delete = change_json((RowChange::PrimaryKeyDelete { key, row: old_row })@);
            let update = change_json((RowChange::PrimaryKeyUpdate { key, old_row, new_row })@);
            let by_rowid = change_json((RowChange::Update { rowid, old_row, new_row })@);
            &&& are_values_of(update.values, new_row@)
            &&& update.old_values matches Some(old) && are_values_of(old, old_row@)
            &&& update.values == by_rowid.values
            &&& update.old_values == by_rowid.old_values
            &&& update.values == insert.values
            &&& update.old_values == Some(delete.values)
            &&& insert.old_values is None
            &&& delete.old_values is None
            &&& insert.op == "insert"@
            &&& delete.op == "delete"@
            &&& update.op == "update"@
            &&& insert.rowid is None && delete.rowid is None && update.rowid is None
            &&& insert.key is Some && insert.key == delete.key && insert.key == update.key
            &&& forall|c: Seq<char>| #[trigger]
                update.key->0.contains_key(c) <==> exists|i: int|
                    0 <= i < key@.len() && (#[trigger] key@[i]).column@ == c
            &&& forall|i: int| #![trigger key@[i]]
                0 <= i < key@.len() && (forall|j: int| #![trigger key@[j]]
                    i < j < key@.len() ==> key@[j].column@ != key@[i].column@)
                    ==> update.key->0[key@[i].column@] == json_key_value(key@[i].value@)
        }),
{
    let parts = crate::spec::key_parts(key@);
    lemma_json_key(parts);
    let m = json_key(parts);
    assert forall|c: Seq<char>| #[trigger] m.contains_key(c) <==> exists|i: int|
        0 <= i < key@.len() && (#[trigger] key@[i]).column@ == c by {
        if m.contains_key(c) {
            let i = choose|i: int| 0 <= i < parts.len() && (#[trigger] parts[i]).column == c;
            assert(key@[i].column@ == c);
        }
        if exists|i: int| 0 <= i < key@.len() && (#[trigger] key@[i]).column@ == c {
            let i = choose|i: int| 0 <= i < key@.len() && (#[trigger] key@[i]).column@ == c;
            assert(parts[i].column == c);
        }
    }
    assert forall|i: int| #![trigger key@[i]]
        0 <= i < key@.len() && (forall|j: int| #![trigger key@[j]]
            i < j < key@.len() ==> key@[j].column@ != key@[i].column@) implies m[key@[i].column@]
        == json_key_value(key@[i].value@) by {
        assert(parts[i] == key@[i]@);
        assert forall|j: int| #![trigger parts[j]] i < j < parts.len() implies parts[j].column
            != parts[i].column by {
            assert(parts[j] == key@[j]@);
        }
    }
}

proof fn lemma_json_key(parts: Seq<KeyPartView>)
    ensures
        forall|c: Seq<char>| #[trigger]
            json_key(parts).contains_key(c) <==> exists|i: int|
                0 <= i < parts.len() && (#[trigger] parts[i]).column == c,
        forall|i: int| #![trigger parts[i]]
            0 <= i < parts.len() && (forall|j: int| #![trigger parts[j]]
                i < j < parts.len() ==> parts[j].column != parts[i].column)
                ==> json_key(parts)[parts[i].column] == json_key_value(parts[i].value),
    decreases parts.len(),
{
    if parts.len() > 0 {
        let was = parts.drop_last();
        lemma_json_key(was);
        assert forall|c: Seq<char>| #[trigger] json_key(parts).contains_key(c) <==> exists|i: int|
            0 <= i < parts.len() && (#[trigger] parts[i]).column == c by {
            if json_key(was).contains_key(c) {
                let i = choose|i: int| 0 <= i < was.len() && (#[trigger] was[i]).column == c;
                assert(parts[i].column == c);
            }
            if parts.last().column == c {
                assert(parts[parts.len() - 1].column == c);
            }
            if exists|i: int| 0 <= i < parts.len() && (#[trigger] parts[i]).column == c {
                let i = choose|i: int| 0 <= i < parts.len() && (#[trigger] parts[i]).column == c;
                if i < was.len() {
                    assert(was[i].column == c);
                }
            }
        }
        assert forall|i: int| #![trigger parts[i]]
            0 <= i < parts.len() && (forall|j: int| #![trigger parts[j]]
                i < j < parts.len() ==> parts[j].column != parts[i].column) implies json_key(
            parts,
        )[parts[i].column] == json_key_value(parts[i].value) by {
            if i < was.len() {
                assert(was[i] == parts[i]);
                assert(parts[parts.len() - 1].column != parts[i].column);
                assert forall|j: int| #![trigger was[j]] i < j < was.len() implies was[j].column
                    != was[i].column by {
                    assert(parts[j] == was[j]);
                }
            }
        }
    }
}

/// JSON has the values of a row as they are: a blob by the hexadecimal digits that write its bytes,
/// and a number by its numeral, but for the infinite ones and those that are no number.
pub proof fn law_values_are_shown(i: i64, s: Seq<char>, b: Seq<u8>, bits: u64)
    ensures
        json_value(KeyValue::Integer(i)) == JsonValue::<Seq<char>>::Integer(i),
        json_value(KeyValue::Text(s)) == JsonValue::<Seq<char>>::Text(s),
        json_value(KeyValue::Null) == JsonValue::<Seq<char>>::Null,
        json_value(KeyValue::Blob(b)) matches JsonValue::Text(t) && is_hex(t) && unhex(t) == b,
        json_key_value(KeyValue::Blob(b)) matches JsonValue::Tagged { tag, text } && tag == "$blob"@
            && is_hex(text) && unhex(text) == b,
        json_key_value(KeyValue::Integer(i)) == JsonValue::<Seq<char>>::Integer(i),
        json_key_value(KeyValue::Text(s)) == JsonValue::<Seq<char>>::Text(s),
        json_key_value(KeyValue::Null) == JsonValue::<Seq<char>>::Null,
        json_value(KeyValue::Real { bits, json: s }) == (if is_finite(bits) {
            JsonValue::<Seq<char>>::Number(s)
        } else {
            JsonValue::<Seq<char>>::Null
        }),
        json_key_value(KeyValue::Real { bits, json: s }) == json_value(
            KeyValue::Real { bits, json: s },
        ),
{
    law_hex_round_trip(b);
}

/// A number is finite unless all of the eleven bits of its exponent are set.
pub proof fn law_finite_numbers(sign: u64, exponent: u64, fraction: u64)
    requires
        sign < 2,
        exponent < 2048,
        fraction < 4503599627370496,
    ensures
        is_finite((sign * 9223372036854775808 + exponent * 4503599627370496 + fraction) as u64)
            <==> exponent < 2047,
{
    let bits = (sign * 9223372036854775808 + exponent * 4503599627370496 + fraction) as u64;
    assert(bits / 0x10_0000_0000_0000 == sign * 2048 + exponent);
    assert((sign * 2048 + exponent) % 0x800 == exponent);
}

/// A list of changes has the JSON of each, in its order.
pub proof fn law_changes_keep_their_order(
    changes: Seq<RowChangeView>,
    tables: Seq<TableChangesView>,
    i: int,
    t: int,
)
    ensures
        change_json_list(changes).len() == changes.len(),
        0 <= i < changes.len() ==> change_json_list(changes)[i] == change_json(changes[i]),
        table_json_list(tables).len() == tables.len(),
        0 <= t < tables.len() ==> {
            &&& table_json_list(tables)[t].name == tables[t].table_name
            &&& table_json_list(tables)[t].columns == tables[t].columns
            &&& table_json_list(tables)[t].primary_key_columns == tables[t].primary_key_columns
            &&& table_json_list(tables)[t].changes == change_json_list(tables[t].changes)
        },
{
}

/// A change of a definition shows the definition after it and the one before.
pub proof fn law_definitions_are_shown(
    schema: Seq<SchemaChangeView>,
    opaque: Seq<OpaqueChangeView>,
    limits: Seq<RowLevelDiffLimitationView>,
    i: int,
)
    ensures
        schema_json_list(schema).len() == schema.len(),
        0 <= i < schema.len() ==> {
            &&& schema_json_list(schema)[i].sql == schema[i].sql
            &&& schema_json_list(schema)[i].old_sql == schema[i].old_sql
            &&& schema_json_list(schema)[i].name == schema[i].name
            &&& schema_json_list(schema)[i].entry_type == schema[i].entry_type
            &&& schema_json_list(schema)[i].op == schema[i].kind
        },
        opaque_json_list(opaque).len() == opaque.len(),
        0 <= i < opaque.len() ==> {
            &&& opaque_json_list(opaque)[i].name == opaque[i].name
            &&& opaque_json_list(opaque)[i].change == opaque[i].change
            &&& opaque_json_list(opaque)[i].reason == opaque[i].reason
            &&& opaque_json_list(opaque)[i].owner == opaque[i].owner
        },
        limitation_json_list(limits).len() == limits.len(),
        0 <= i < limits.len() ==> {
            &&& limitation_json_list(limits)[i].kind == limits[i].kind
            &&& limitation_json_list(limits)[i].subject == limits[i].subject
        },
{
}

/// The counts and the paths of an answer are those of the comparison, one by one.
pub proof fn law_summaries_are_shown(
    summaries: Seq<TableSummaryView>,
    paths: Seq<RepoDiffPathView>,
    i: int,
)
    ensures
        summary_json_list(summaries).len() == summaries.len(),
        0 <= i < summaries.len() ==> {
            &&& summary_json_list(summaries)[i].name == summaries[i].table_name
            &&& summary_json_list(summaries)[i].inserts == summaries[i].inserts
            &&& summary_json_list(summaries)[i].deletes == summaries[i].deletes
            &&& summary_json_list(summaries)[i].updates == summaries[i].updates
        },
        path_json_list(paths).len() == paths.len(),
        0 <= i < paths.len() ==> {
            &&& path_json_list(paths)[i].path == paths[i].path
            &&& path_json_list(paths)[i].previous_path == paths[i].previous_path
        },
{
}

/// The rows of a file are available exactly where they could be compared, and then it shows what was
/// found; otherwise it says why not and shows nothing.
pub proof fn law_row_file_shows_its_comparison(
    file: RepoDiffPathView,
    result: RowDiffResult<RowLevelDiffView, Seq<char>>,
)
    ensures
        row_file(file, result).row_diff_available <==> result is Available,
        row_file(file, result).message is None <==> result is Available,
        row_file(file, result).path == file.path,
        row_file(file, result).previous_path == file.previous_path,
        result matches RowDiffResult::Available(d) ==> {
            &&& row_file(file, result).tables == table_json_list(d.table_changes)
            &&& row_file(file, result).schema_changes == schema_json_list(d.schema_changes)
            &&& row_file(file, result).opaque_changes == opaque_json_list(d.opaque_changes)
            &&& row_file(file, result).limitations == limitation_json_list(d.limitations)
            &&& row_file(file, result).logical_status == d.logical_status
            &&& row_file(file, result).capabilities == d.capabilities
            &&& row_file(file, result).telemetry.requested_table == d.telemetry.requested_table
            &&& row_file(file, result).telemetry.tables_considered == d.telemetry.tables_considered
            &&& row_file(file, result).telemetry.tables_scanned == d.telemetry.tables_scanned
        },
        !(result is Available) ==> row_file(file, result).tables.len() == 0 && row_file(
            file,
            result,
        ).schema_changes.len() == 0 && row_file(file, result).opaque_changes.len() == 0,
{
}

/// A page of rows shows what was found, and the cursor that it gives leads to where the next page
/// starts. There is a cursor exactly where there is a next page.
pub proof fn law_pages_follow_each_other(
    file: RepoDiffPathView,
    mode: Seq<char>,
    result: RowDiffResult<BoundedRowDiffView, Seq<char>>,
)
    ensures
        bounded_file(file, mode, result).row_diff_available <==> result is Available,
        bounded_file(file, mode, result).message is None <==> result is Available,
        bounded_file(file, mode, result).mode == mode,
        bounded_file(file, mode, result).path == file.path,
        bounded_file(file, mode, result).previous_path == file.previous_path,
        !(result is Available) ==> !bounded_file(file, mode, result).has_more && bounded_file(
            file,
            mode,
            result,
        ).next_cursor is None && bounded_file(file, mode, result).tables.len() == 0,
        result matches RowDiffResult::Available(d) ==> {
            let shown = bounded_file(file, mode, result);
            &&& shown.has_more == d.has_more
            &&& shown.next_cursor is Some <==> d.next_offset is Some
            &&& d.next_offset matches Some(offset) ==> row_offset(
                shown.next_cursor,
                d.telemetry.requested_table->0,
            ) == Ok::<_, CommandError<Seq<char>>>(offset as nat)
            &&& shown.tables == table_json_list(d.table_changes)
            &&& shown.summaries == summary_json_list(d.summaries)
            &&& shown.schema_changes == schema_json_list(d.schema_changes)
            &&& shown.opaque_changes == opaque_json_list(d.opaque_changes)
            &&& shown.limitations == limitation_json_list(d.limitations)
            &&& shown.logical_status == d.logical_status
            &&& shown.telemetry.rows_scanned == d.telemetry.rows_scanned
            &&& shown.telemetry.rows_returned == d.telemetry.rows_returned
            &&& shown.telemetry.truncated == d.telemetry.truncated
            &&& shown.telemetry.tables_considered == d.telemetry.tables_considered
            &&& shown.telemetry.tables_scanned == d.telemetry.tables_scanned
            &&& shown.telemetry.requested_table == d.telemetry.requested_table
            &&& shown.telemetry.response_scope == d.telemetry.response_scope
        },
{
    if let RowDiffResult::Available(d) = result {
        if let Some(offset) = d.next_offset {
            law_row_cursor_round_trip(d.telemetry.requested_table->0, offset as nat);
        }
    }
}

/// One more change is counted once, as what it is.
pub proof fn law_each_change_is_counted(
    changes: Seq<RowChangeView>,
    change: RowChangeView,
    before: RowCounts,
    after: RowCounts,
)
    requires
        counts_are(changes, before),
        counts_are(changes.push(change), after),
    ensures
        after.inserts == before.inserts + (if change is Insert || change is PrimaryKeyInsert {
            1int
        } else {
            0int
        }),
        after.deletes == before.deletes + (if change is Delete || change is PrimaryKeyDelete {
            1int
        } else {
            0int
        }),
        after.updates == before.updates + (if change is Update || change is PrimaryKeyUpdate {
            1int
        } else {
            0int
        }),
{
    assert(changes.push(change).drop_last() =~= changes);
}

/// Without changes nothing is counted.
pub proof fn law_nothing_is_counted(c: RowCounts)
    requires
        counts_are(Seq::empty(), c),
    ensures
        c.inserts == 0 && c.deletes == 0 && c.updates == 0,
{
}

/// A table is summarised exactly where it has a name and a row of it changes, and by its counts.
pub proof fn law_tables_that_are_summarised(name: Seq<char>, c: RowCounts)
    ensures
        summary_of(name, c) is Some <==> name.len() > 0 && c.inserts + c.deletes + c.updates > 0,
        summary_of(name, c) matches Some(s) ==> s.name == name && s.inserts == c.inserts && s.deletes
            == c.deletes && s.updates == c.updates,
{
}

/// Rows are compared where both states have some. The two directions of a comparison mirror each
/// other: what one inserts the other deletes.
pub proof fn law_directions_mirror_each_other(from: Option<bool>, to: Option<bool>)
    ensures
        summary_route(from, to) == SummaryRoute::Inserted <==> summary_route(to, from)
            == SummaryRoute::Deleted,
        summary_route(from, to) == SummaryRoute::Inserted <==> from != Some(false) && to == Some(
            false,
        ),
        summary_route(from, to) == SummaryRoute::Compared <==> from == Some(false) && to == Some(
            false,
        ),
        summary_route(from, from) == SummaryRoute::Nothing || summary_route(from, from)
            == SummaryRoute::Compared,
{
}

/// Every table with a name and a change is summarised, by what its changes count, and no other is.
pub proof fn law_changed_tables_are_summarised(tables: Seq<TableChangesView>, i: int)
    requires
        0 <= i < tables.len(),
        tables[i].changes.len() <= usize::MAX,
    ensures
        tables[i].table_name.len() > 0 && tables[i].changes.len() > 0 ==> exists|j: int|
            #![trigger changed_tables(tables)[j]]
            0 <= j < changed_tables(tables).len() && changed_tables(tables)[j].name
                == tables[i].table_name && counts_are(
                tables[i].changes,
                RowCounts {
                    inserts: changed_tables(tables)[j].inserts,
                    deletes: changed_tables(tables)[j].deletes,
                    updates: changed_tables(tables)[j].updates,
                },
            ),
    decreases tables.len(),
{
    let now = changed_tables(tables);
    let was = changed_tables(tables.drop_last());
    let t = tables.last();
    if i == tables.len() - 1 {
        if t.table_name.len() > 0 && t.changes.len() > 0 {
            lemma_counts_fit(t.changes);
            assert(now[was.len() as int].name == t.table_name);
        }
    } else {
        law_changed_tables_are_summarised(tables.drop_last(), i);
        if tables[i].table_name.len() > 0 && tables[i].changes.len() > 0 {
            let j = choose|j: int| #![trigger was[j]]
                0 <= j < was.len() && was[j].name == tables[i].table_name && counts_are(
                    tables[i].changes,
                    RowCounts {
                        inserts: was[j].inserts,
                        deletes: was[j].deletes,
                        updates: was[j].updates,
                    },
                );
            assert(now[j] == was[j]);
        }
    }
}

/// Only tables with a name and a change are summarised.
pub proof fn law_no_other_table_is_summarised(tables: Seq<TableChangesView>, j: int)
    requires
        0 <= j < changed_tables(tables).len(),
    ensures
        exists|i: int| #![trigger tables[i]]
            0 <= i < tables.len() && tables[i].table_name == changed_tables(tables)[j].name
                && tables[i].table_name.len() > 0 && tables[i].changes.len() > 0,
        changed_tables(tables).len() <= tables.len(),
    decreases tables.len(),
{
    let was = changed_tables(tables.drop_last());
    let n = tables.len() - 1;
    if was.len() > 0 {
        law_no_other_table_is_summarised(
            tables.drop_last(),
            if j < was.len() {
                j
            } else {
                0
            },
        );
    }
    if j < was.len() {
        let i = choose|i: int| #![trigger tables.drop_last()[i]]
            0 <= i < n && tables.drop_last()[i].table_name == was[j].name
                && tables.drop_last()[i].table_name.len() > 0
                && tables.drop_last()[i].changes.len() > 0;
        assert(tables[i] == tables.drop_last()[i]);
    } else {
        assert(tables[n] == tables.last());
    }
}

proof fn lemma_counts_fit(changes: Seq<RowChangeView>)
    ensures
        counted_as(changes, |x: RowChangeView| is_insert(x)) <= changes.len(),
        counted_as(changes, |x: RowChangeView| is_delete(x)) <= changes.len(),
        counted_as(changes, |x: RowChangeView| is_update(x)) <= changes.len(),
    decreases changes.len(),
{
    if changes.len() > 0 {
        lemma_counts_fit(changes.drop_last());
    }
}

/// A whole table counts each of its rows as inserted, or each as deleted.
pub proof fn law_whole_tables_count_every_row(t: TableRowsView)
    ensures
        whole_table(t, SnapshotSummaryMode::Inserted) is Some <==> t.name.len() > 0 && t.rows > 0,
        whole_table(t, SnapshotSummaryMode::Deleted) is Some <==> t.name.len() > 0 && t.rows > 0,
        whole_table(t, SnapshotSummaryMode::Inserted) matches Some(s) ==> s.name == t.name
            && s.inserts == t.rows && s.deletes == 0 && s.updates == 0,
        whole_table(t, SnapshotSummaryMode::Deleted) matches Some(s) ==> s.name == t.name && s.deletes
            == t.rows && s.inserts == 0 && s.updates == 0,
{
}

/// Every table with a name and rows stands in the summary of a whole database.
pub proof fn law_whole_database_counts_every_table(
    tables: Seq<TableRowsView>,
    mode: SnapshotSummaryMode,
    i: int,
)
    requires
        0 <= i < tables.len(),
        tables[i].name.len() > 0,
        tables[i].rows > 0,
    ensures
        exists|j: int| #![trigger whole_tables(tables, mode)[j]]
            0 <= j < whole_tables(tables, mode).len() && Some(whole_tables(tables, mode)[j])
                == whole_table(tables[i], mode),
    decreases tables.len(),
{
    let now = whole_tables(tables, mode);
    let was = whole_tables(tables.drop_last(), mode);
    if i == tables.len() - 1 {
        assert(Some(now[was.len() as int]) == whole_table(tables[i], mode));
    } else {
        law_whole_database_counts_every_table(tables.drop_last(), mode, i);
        let j = choose|j: int| #![trigger was[j]]
            0 <= j < was.len() && Some(was[j]) == whole_table(tables[i], mode);
        assert(now[j] == was[j]);
    }
}

/// Totals add up: those of two lists of summaries are the sums of the totals of each, and a summary
/// on its own is the total of its table alone.
pub proof fn law_totals_add_up(
    a: Seq<CommitTableSummaryView>,
    b: Seq<CommitTableSummaryView>,
    s: CommitTableSummaryView,
    name: Seq<char>,
)
    ensures
        total_of(a + b, name).inserts == total_of(a, name).inserts + total_of(b, name).inserts,
        total_of(a + b, name).deletes == total_of(a, name).deletes + total_of(b, name).deletes,
        total_of(a + b, name).updates == total_of(a, name).updates + total_of(b, name).updates,
        total_of(seq![s], s.name).inserts == s.inserts,
        total_of(seq![s], s.name).deletes == s.deletes,
        total_of(seq![s], s.name).updates == s.updates,
        name != s.name ==> total_of(seq![s], name).inserts == 0 && total_of(seq![s], name).deletes
            == 0 && total_of(seq![s], name).updates == 0,
    decreases b.len(),
{
    assert(seq![s].drop_last() =~= Seq::<CommitTableSummaryView>::empty());
    assert(seq![s].last() == s);
    assert(total_of(Seq::<CommitTableSummaryView>::empty(), name).inserts == 0);
    assert(total_of(Seq::<CommitTableSummaryView>::empty(), s.name).inserts == 0);
    if b.len() == 0 {
        assert(a + b =~= a);
    } else {
        law_totals_add_up(a, b.drop_last(), s, name);
        assert((a + b).drop_last() =~= a + b.drop_last());
        assert((a + b).last() == b.last());
    }
}

} // verus!
