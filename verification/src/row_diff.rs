//! Row differences of databases and their JSON answers.
use vstd::prelude::*;
use vstd::string::*;
use vstd::utf8::*;

use crate::bytes::{hex, law_hex_round_trip, nibble_value, to_hex};
use crate::error::{copy_option, invalid_command, str_option, text_option, CommandError};
use crate::json::{
    json_key, json_primary_key, json_value, JsonBoundedRowDiffTelemetry, JsonDiffLimitation,
    JsonDiffLimitationView, JsonOpaqueChange, JsonOpaqueChangeView, JsonRepoBoundedDiffFile,
    JsonRepoBoundedDiffFileView, JsonRepoBoundedDiffResult, JsonRepoPathDiff,
    JsonRepoPathDiffView, JsonRepoRowDiffFile, JsonRepoRowDiffFileView, JsonRepoRowDiffResult,
    JsonRowChange, JsonRowChangeView, JsonRowDiffTelemetry, JsonSchemaChange,
    JsonSchemaChangeView, JsonTableChanges, JsonTableChangesView, JsonTableSummary,
    JsonTableSummaryView, JsonValue, JsonValueView,
};
use crate::labels::{
    file_change_name, kind_json, repo_file_change_label, repo_path_storage_json_label,
    repo_tracked_path_kind_json_label, storage_json,
};
use crate::model::RepoFileChange;
use crate::number::{decimal, law_parsed_decimal, parse_usize, parsed_unsigned, show_usize};
use crate::show::views;
use crate::spec::{
    key_parts, KeyPart, KeyPartView, KeyValue, KeyValueView, RepoPathStorage,
    RepoTrackedPathKind,
};
use crate::text::{
    cat2, cat3, cat4, copy_texts, cut, has_prefix, lemma_find_from, occurs_at, same,
    split_once, strip_prefix, texts,
};

verus! {

/// A change of a table that is not shown row by row.
#[derive(Debug, Clone, PartialEq, Eq)]
pub struct OpaqueChange<S = String> {
    pub name: S,
    pub change: S,
    pub reason: S,
    pub owner: Option<S>,
}

pub type OpaqueChangeView = OpaqueChange<Seq<char>>;

impl View for OpaqueChange<String> {
    type V = OpaqueChangeView;

    open spec fn view(&self) -> OpaqueChangeView {
        OpaqueChange {
            name: self.name@,
            change: self.change@,
            reason: self.reason@,
            owner: text_option(self.owner),
        }
    }
}

/// A change of an entry of the schema.
#[derive(Debug, Clone, PartialEq, Eq)]
pub struct SchemaChange<S = String> {
    pub name: S,
    pub entry_type: S,
    pub kind: S,
    pub sql: Option<S>,
    pub old_sql: Option<S>,
}

pub type SchemaChangeView = SchemaChange<Seq<char>>;

impl View for SchemaChange<String> {
    type V = SchemaChangeView;

    open spec fn view(&self) -> SchemaChangeView {
        SchemaChange {
            name: self.name@,
            entry_type: self.entry_type@,
            kind: self.kind@,
            sql: text_option(self.sql),
            old_sql: text_option(self.old_sql),
        }
    }
}

/// What a row diff does not cover.
#[derive(Debug, Clone, PartialEq, Eq)]
pub struct RowLevelDiffLimitation<S = String> {
    pub kind: S,
    pub subject: Option<S>,
}

pub type RowLevelDiffLimitationView = RowLevelDiffLimitation<Seq<char>>;

impl View for RowLevelDiffLimitation<String> {
    type V = RowLevelDiffLimitationView;

    open spec fn view(&self) -> RowLevelDiffLimitationView {
        RowLevelDiffLimitation { kind: self.kind@, subject: text_option(self.subject) }
    }
}

/// A change of one row: by its rowid, or by its primary key.
#[derive(Debug, Clone, PartialEq, Eq)]
pub enum RowChange<V = Vec<KeyValue>, K = Vec<KeyPart>> {
    Insert { rowid: i64, row: V },
    Delete { rowid: i64, row: V },
    Update { rowid: i64, old_row: V, new_row: V },
    PrimaryKeyInsert { key: K, row: V },
    PrimaryKeyDelete { key: K, row: V },
    PrimaryKeyUpdate { key: K, old_row: V, new_row: V },
}

pub type RowChangeView = RowChange<Seq<KeyValueView>, Seq<KeyPartView>>;

impl View for RowChange<Vec<KeyValue>, Vec<KeyPart>> {
    type V = RowChangeView;

    open spec fn view(&self) -> RowChangeView {
        match self {
            RowChange::Insert { rowid, row } => RowChange::Insert {
                rowid: *rowid,
                row: views(row@),
            },
            RowChange::Delete { rowid, row } => RowChange::Delete {
                rowid: *rowid,
                row: views(row@),
            },
            RowChange::Update { rowid, old_row, new_row } => RowChange::Update {
                rowid: *rowid,
                old_row: views(old_row@),
                new_row: views(new_row@),
            },
            RowChange::PrimaryKeyInsert { key, row } => RowChange::PrimaryKeyInsert {
                key: key_parts(key@),
                row: views(row@),
            },
            RowChange::PrimaryKeyDelete { key, row } => RowChange::PrimaryKeyDelete {
                key: key_parts(key@),
                row: views(row@),
            },
            RowChange::PrimaryKeyUpdate { key, old_row, new_row } => RowChange::PrimaryKeyUpdate {
                key: key_parts(key@),
                old_row: views(old_row@),
                new_row: views(new_row@),
            },
        }
    }
}

/// The changed rows of a table.
#[derive(Debug, Clone, PartialEq, Eq)]
pub struct TableChanges<S = String, L1 = Vec<String>, L2 = Vec<String>, L3 = Vec<RowChange>> {
    pub table_name: S,
    pub columns: L1,
    pub primary_key_columns: L2,
    pub changes: L3,
}

pub type TableChangesView = TableChanges<Seq<char>, Seq<Seq<char>>, Seq<Seq<char>>, Seq<RowChangeView>>;

impl View for TableChanges<String, Vec<String>, Vec<String>, Vec<RowChange>> {
    type V = TableChangesView;

    open spec fn view(&self) -> TableChangesView {
        TableChanges {
            table_name: self.table_name@,
            columns: texts(self.columns@),
            primary_key_columns: texts(self.primary_key_columns@),
            changes: views(self.changes@),
        }
    }
}

/// How many rows of a table changed.
#[derive(Debug, Clone, PartialEq, Eq)]
pub struct TableSummary<S = String> {
    pub table_name: S,
    pub inserts: usize,
    pub deletes: usize,
    pub updates: usize,
}

pub type TableSummaryView = TableSummary<Seq<char>>;

impl View for TableSummary<String> {
    type V = TableSummaryView;

    open spec fn view(&self) -> TableSummaryView {
        TableSummary {
            table_name: self.table_name@,
            inserts: self.inserts,
            deletes: self.deletes,
            updates: self.updates,
        }
    }
}

/// What a row diff looked at.
#[derive(Debug, Clone, PartialEq, Eq)]
pub struct RowDiffTelemetry<S = String> {
    pub requested_table: Option<S>,
    pub tables_considered: usize,
    pub tables_scanned: usize,
}

pub type RowDiffTelemetryView = RowDiffTelemetry<Seq<char>>;

impl View for RowDiffTelemetry<String> {
    type V = RowDiffTelemetryView;

    open spec fn view(&self) -> RowDiffTelemetryView {
        RowDiffTelemetry {
            requested_table: text_option(self.requested_table),
            tables_considered: self.tables_considered,
            tables_scanned: self.tables_scanned,
        }
    }
}

/// What a bounded row diff looked at.
#[derive(Debug, Clone, PartialEq, Eq)]
pub struct BoundedRowDiffTelemetry<S = String> {
    pub requested_table: Option<S>,
    pub tables_considered: usize,
    pub tables_scanned: usize,
    pub rows_scanned: usize,
    pub rows_returned: usize,
    pub truncated: bool,
    pub response_scope: S,
}

pub type BoundedRowDiffTelemetryView = BoundedRowDiffTelemetry<Seq<char>>;

impl View for BoundedRowDiffTelemetry<String> {
    type V = BoundedRowDiffTelemetryView;

    open spec fn view(&self) -> BoundedRowDiffTelemetryView {
        BoundedRowDiffTelemetry {
            requested_table: text_option(self.requested_table),
            tables_considered: self.tables_considered,
            tables_scanned: self.tables_scanned,
            rows_scanned: self.rows_scanned,
            rows_returned: self.rows_returned,
            truncated: self.truncated,
            response_scope: self.response_scope@,
        }
    }
}

/// The rows that differ between two databases, with what the comparison says of itself.
#[derive(Debug, Clone, PartialEq, Eq)]
pub struct RowLevelDiff<S = String, L1 = Vec<String>, L2 = Vec<RowLevelDiffLimitation>, L3 = Vec<SchemaChange>, L4 = Vec<TableChanges>, L5 = Vec<OpaqueChange>, L6 = RowDiffTelemetry> {
    pub logical_status: S,
    pub capabilities: L1,
    pub limitations: L2,
    pub schema_changes: L3,
    pub table_changes: L4,
    pub opaque_changes: L5,
    pub telemetry: L6,
    /// The report on the rows.
    pub report_body: S,
}

pub type RowLevelDiffView = RowLevelDiff<Seq<char>, Seq<Seq<char>>, Seq<RowLevelDiffLimitationView>, Seq<SchemaChangeView>, Seq<TableChangesView>, Seq<OpaqueChangeView>, RowDiffTelemetryView>;

impl View for RowLevelDiff<String, Vec<String>, Vec<RowLevelDiffLimitation>, Vec<SchemaChange>, Vec<TableChanges>, Vec<OpaqueChange>, RowDiffTelemetry> {
    type V = RowLevelDiffView;

    open spec fn view(&self) -> RowLevelDiffView {
        RowLevelDiff {
            logical_status: self.logical_status@,
            capabilities: texts(self.capabilities@),
            limitations: views(self.limitations@),
            schema_changes: views(self.schema_changes@),
            table_changes: views(self.table_changes@),
            opaque_changes: views(self.opaque_changes@),
            telemetry: self.telemetry@,
            report_body: self.report_body@,
        }
    }
}

/// A page of the rows that differ, or how many rows of each table do.
#[derive(Debug, Clone, PartialEq, Eq)]
pub struct BoundedRowDiff<S = String, L1 = Vec<String>, L2 = Vec<RowLevelDiffLimitation>, L3 = Vec<TableSummary>, L4 = Vec<SchemaChange>, L5 = Vec<TableChanges>, L6 = Vec<OpaqueChange>, L7 = BoundedRowDiffTelemetry> {
    pub logical_status: S,
    pub capabilities: L1,
    pub limitations: L2,
    pub summaries: L3,
    pub schema_changes: L4,
    pub table_changes: L5,
    pub opaque_changes: L6,
    pub has_more: bool,
    pub next_offset: Option<usize>,
    pub telemetry: L7,
}

pub type BoundedRowDiffView = BoundedRowDiff<Seq<char>, Seq<Seq<char>>, Seq<RowLevelDiffLimitationView>, Seq<TableSummaryView>, Seq<SchemaChangeView>, Seq<TableChangesView>, Seq<OpaqueChangeView>, BoundedRowDiffTelemetryView>;

impl View for BoundedRowDiff<String, Vec<String>, Vec<RowLevelDiffLimitation>, Vec<TableSummary>, Vec<SchemaChange>, Vec<TableChanges>, Vec<OpaqueChange>, BoundedRowDiffTelemetry> {
    type V = BoundedRowDiffView;

    open spec fn view(&self) -> BoundedRowDiffView {
        BoundedRowDiff {
            logical_status: self.logical_status@,
            capabilities: texts(self.capabilities@),
            limitations: views(self.limitations@),
            summaries: views(self.summaries@),
            schema_changes: views(self.schema_changes@),
            table_changes: views(self.table_changes@),
            opaque_changes: views(self.opaque_changes@),
            has_more: self.has_more,
            next_offset: self.next_offset,
            telemetry: self.telemetry@,
        }
    }
}

/// A path of a diff, without its contents.
#[derive(Debug, Clone, PartialEq, Eq)]
pub struct RepoDiffPath<S = String> {
    pub path: S,
    pub previous_path: Option<S>,
    pub change: RepoFileChange,
    pub kind: RepoTrackedPathKind,
    pub storage: RepoPathStorage,
}

pub type RepoDiffPathView = RepoDiffPath<Seq<char>>;

impl View for RepoDiffPath<String> {
    type V = RepoDiffPathView;

    open spec fn view(&self) -> RepoDiffPathView {
        RepoDiffPath {
            path: self.path@,
            previous_path: text_option(self.previous_path),
            change: self.change,
            kind: self.kind,
            storage: self.storage,
        }
    }
}

pub open spec fn opaque_json(v: OpaqueChangeView) -> JsonOpaqueChangeView {
    JsonOpaqueChange { name: v.name, change: v.change, reason: v.reason, owner: v.owner }
}

fn one_json_opaque_changes(v: &OpaqueChange) -> (r: JsonOpaqueChange)
    ensures
        r@ == opaque_json(v@),
{
    JsonOpaqueChange {
        name: v.name.clone(),
        change: v.change.clone(),
        reason: v.reason.clone(),
        owner: copy_option(&v.owner),
    }
}

/// The opaque changes of a JSON answer.
pub open spec fn opaque_json_list(v: Seq<OpaqueChangeView>) -> Seq<JsonOpaqueChangeView> {
    Seq::new(v.len(), |i: int| opaque_json(v[i]))
}

pub fn json_opaque_changes(list: &Vec<OpaqueChange>) -> (r: Vec<JsonOpaqueChange>)
    ensures
        views(r@) == opaque_json_list(views(list@)),
{
    let mut out: Vec<JsonOpaqueChange> = Vec::new();
    let n: usize = list.len();
    let mut i: usize = 0;
    while i < n
        invariant
            n == list@.len(),
            0 <= i <= n,
            out@.len() == i,
            forall|k: int| 0 <= k < i ==> #[trigger] out@[k]@ == opaque_json(list@[k]@),
        decreases n - i,
    {
        out.push(one_json_opaque_changes(&list[i]));
        i += 1;
    }
    proof {
        assert(views(out@) =~= opaque_json_list(views(list@)));
    }
    out
}

pub open spec fn schema_json(v: SchemaChangeView) -> JsonSchemaChangeView {
    JsonSchemaChange {
        name: v.name,
        entry_type: v.entry_type,
        op: v.kind,
        sql: v.sql,
        old_sql: v.old_sql,
    }
}

fn one_json_schema_changes(v: &SchemaChange) -> (r: JsonSchemaChange)
    ensures
        r@ == schema_json(v@),
{
    JsonSchemaChange {
        name: v.name.clone(),
        entry_type: v.entry_type.clone(),
        op: v.kind.clone(),
        sql: copy_option(&v.sql),
        old_sql: copy_option(&v.old_sql),
    }
}

/// The schema changes of a JSON answer.
pub open spec fn schema_json_list(v: Seq<SchemaChangeView>) -> Seq<JsonSchemaChangeView> {
    Seq::new(v.len(), |i: int| schema_json(v[i]))
}

pub fn json_schema_changes(list: &Vec<SchemaChange>) -> (r: Vec<JsonSchemaChange>)
    ensures
        views(r@) == schema_json_list(views(list@)),
{
    let mut out: Vec<JsonSchemaChange> = Vec::new();
    let n: usize = list.len();
    let mut i: usize = 0;
    while i < n
        invariant
            n == list@.len(),
            0 <= i <= n,
            out@.len() == i,
            forall|k: int| 0 <= k < i ==> #[trigger] out@[k]@ == schema_json(list@[k]@),
        decreases n - i,
    {
        out.push(one_json_schema_changes(&list[i]));
        i += 1;
    }
    proof {
        assert(views(out@) =~= schema_json_list(views(list@)));
    }
    out
}

pub open spec fn limitation_json(v: RowLevelDiffLimitationView) -> JsonDiffLimitationView {
    JsonDiffLimitation { kind: v.kind, subject: v.subject }
}

fn one_json_limitations(v: &RowLevelDiffLimitation) -> (r: JsonDiffLimitation)
    ensures
        r@ == limitation_json(v@),
{
    JsonDiffLimitation { kind: v.kind.clone(), subject: copy_option(&v.subject) }
}

/// The limitations of a JSON answer.
pub open spec fn limitation_json_list(v: Seq<RowLevelDiffLimitationView>) -> Seq<JsonDiffLimitationView> {
    Seq::new(v.len(), |i: int| limitation_json(v[i]))
}

pub fn json_limitations(list: &Vec<RowLevelDiffLimitation>) -> (r: Vec<JsonDiffLimitation>)
    ensures
        views(r@) == limitation_json_list(views(list@)),
{
    let mut out: Vec<JsonDiffLimitation> = Vec::new();
    let n: usize = list.len();
    let mut i: usize = 0;
    while i < n
        invariant
            n == list@.len(),
            0 <= i <= n,
            out@.len() == i,
            forall|k: int| 0 <= k < i ==> #[trigger] out@[k]@ == limitation_json(list@[k]@),
        decreases n - i,
    {
        out.push(one_json_limitations(&list[i]));
        i += 1;
    }
    proof {
        assert(views(out@) =~= limitation_json_list(views(list@)));
    }
    out
}

pub open spec fn summary_json(v: TableSummaryView) -> JsonTableSummaryView {
    JsonTableSummary {
        name: v.table_name,
        inserts: v.inserts,
        deletes: v.deletes,
        updates: v.updates,
    }
}

fn one_json_table_summaries(v: &TableSummary) -> (r: JsonTableSummary)
    ensures
        r@ == summary_json(v@),
{
    JsonTableSummary {
        name: v.table_name.clone(),
        inserts: v.inserts,
        deletes: v.deletes,
        updates: v.updates,
    }
}

/// The summaries of a JSON answer.
pub open spec fn summary_json_list(v: Seq<TableSummaryView>) -> Seq<JsonTableSummaryView> {
    Seq::new(v.len(), |i: int| summary_json(v[i]))
}

pub fn json_table_summaries(list: &Vec<TableSummary>) -> (r: Vec<JsonTableSummary>)
    ensures
        views(r@) == summary_json_list(views(list@)),
{
    let mut out: Vec<JsonTableSummary> = Vec::new();
    let n: usize = list.len();
    let mut i: usize = 0;
    while i < n
        invariant
            n == list@.len(),
            0 <= i <= n,
            out@.len() == i,
            forall|k: int| 0 <= k < i ==> #[trigger] out@[k]@ == summary_json(list@[k]@),
        decreases n - i,
    {
        out.push(one_json_table_summaries(&list[i]));
        i += 1;
    }
    proof {
        assert(views(out@) =~= summary_json_list(views(list@)));
    }
    out
}

pub open spec fn path_json(v: RepoDiffPathView) -> JsonRepoPathDiffView {
    JsonRepoPathDiff {
        path: v.path,
        previous_path: v.previous_path,
        change: file_change_name(v.change),
        kind: kind_json(v.kind),
        storage: storage_json(v.storage),
    }
}

fn one_json_repo_paths(v: &RepoDiffPath) -> (r: JsonRepoPathDiff)
    ensures
        r@ == path_json(v@),
{
    JsonRepoPathDiff {
        path: v.path.clone(),
        previous_path: copy_option(&v.previous_path),
        change: repo_file_change_label(v.change).to_owned(),
        kind: repo_tracked_path_kind_json_label(v.kind).to_owned(),
        storage: repo_path_storage_json_label(v.storage).to_owned(),
    }
}

/// The paths of a JSON answer.
pub open spec fn path_json_list(v: Seq<RepoDiffPathView>) -> Seq<JsonRepoPathDiffView> {
    Seq::new(v.len(), |i: int| path_json(v[i]))
}

pub fn json_repo_paths(list: &Vec<RepoDiffPath>) -> (r: Vec<JsonRepoPathDiff>)
    ensures
        views(r@) == path_json_list(views(list@)),
{
    let mut out: Vec<JsonRepoPathDiff> = Vec::new();
    let n: usize = list.len();
    let mut i: usize = 0;
    while i < n
        invariant
            n == list@.len(),
            0 <= i <= n,
            out@.len() == i,
            forall|k: int| 0 <= k < i ==> #[trigger] out@[k]@ == path_json(list@[k]@),
        decreases n - i,
    {
        out.push(one_json_repo_paths(&list[i]));
        i += 1;
    }
    proof {
        assert(views(out@) =~= path_json_list(views(list@)));
    }
    out
}

/// The values of a row as JSON.
pub open spec fn row_json(row: Seq<KeyValueView>) -> Seq<JsonValueView> {
    Seq::new(row.len(), |i: int| json_value(row[i]))
}

pub fn json_row(row: &Vec<KeyValue>) -> (r: Vec<JsonValue>)
    ensures
        views(r@) == row_json(views(row@)),
{
    let mut out: Vec<JsonValue> = Vec::new();
    let n: usize = row.len();
    let mut i: usize = 0;
    while i < n
        invariant
            n == row@.len(),
            0 <= i <= n,
            out@.len() == i,
            forall|k: int| 0 <= k < i ==> #[trigger] out@[k]@ == json_value(row@[k]@),
        decreases n - i,
    {
        out.push(JsonRowChange::value_to_json(&row[i]));
        i += 1;
    }
    proof {
        assert(views(out@) =~= row_json(views(row@)));
    }
    out
}

/// A row change as JSON: the row is named by its rowid or by its key, and the values before are
/// there for an update.
pub open spec fn change_json(change: RowChangeView) -> JsonRowChangeView {
    match change {
        RowChange::Insert { rowid, row } => JsonRowChange {
            op: "insert"@,
            rowid: Some(rowid),
            key: None,
            values: row_json(row),
            old_values: None,
        },
        RowChange::Delete { rowid, row } => JsonRowChange {
            op: "delete"@,
            rowid: Some(rowid),
            key: None,
            values: row_json(row),
            old_values: None,
        },
        RowChange::Update { rowid, old_row, new_row } => JsonRowChange {
            op: "update"@,
            rowid: Some(rowid),
            key: None,
            values: row_json(new_row),
            old_values: Some(row_json(old_row)),
        },
        RowChange::PrimaryKeyInsert { key, row } => JsonRowChange {
            op: "insert"@,
            rowid: None,
            key: Some(json_key(key)),
            values: row_json(row),
            old_values: None,
        },
        RowChange::PrimaryKeyDelete { key, row } => JsonRowChange {
            op: "delete"@,
            rowid: None,
            key: Some(json_key(key)),
            values: row_json(row),
            old_values: None,
        },
        RowChange::PrimaryKeyUpdate { key, old_row, new_row } => JsonRowChange {
            op: "update"@,
            rowid: None,
            key: Some(json_key(key)),
            values: row_json(new_row),
            old_values: Some(row_json(old_row)),
        },
    }
}

pub fn json_row_change(change: &RowChange) -> (r: JsonRowChange)
    ensures
        r@ == change_json(change@),
        r.key matches Some(m) ==> m.wf(),
{
    match change {
        RowChange::Insert { rowid, row } => JsonRowChange {
            op: "insert".to_owned(),
            rowid: Some(*rowid),
            key: None,
            values: json_row(row),
            old_values: None,
        },
        RowChange::Delete { rowid, row } => JsonRowChange {
            op: "delete".to_owned(),
            rowid: Some(*rowid),
            key: None,
            values: json_row(row),
            old_values: None,
        },
        RowChange::Update { rowid, old_row, new_row } => JsonRowChange {
            op: "update".to_owned(),
            rowid: Some(*rowid),
            key: None,
            values: json_row(new_row),
            old_values: Some(json_row(old_row)),
        },
        RowChange::PrimaryKeyInsert { key, row } => JsonRowChange {
            op: "insert".to_owned(),
            rowid: None,
            key: Some(json_primary_key(key)),
            values: json_row(row),
            old_values: None,
        },
        RowChange::PrimaryKeyDelete { key, row } => JsonRowChange {
            op: "delete".to_owned(),
            rowid: None,
            key: Some(json_primary_key(key)),
            values: json_row(row),
            old_values: None,
        },
        RowChange::PrimaryKeyUpdate { key, old_row, new_row } => JsonRowChange {
            op: "update".to_owned(),
            rowid: None,
            key: Some(json_primary_key(key)),
            values: json_row(new_row),
            old_values: Some(json_row(old_row)),
        },
    }
}

fn one_json_row_changes(v: &RowChange) -> (r: JsonRowChange)
    ensures
        r@ == change_json(v@),
{
    json_row_change(v)
}

/// The row changes of a JSON answer.
pub open spec fn change_json_list(v: Seq<RowChangeView>) -> Seq<JsonRowChangeView> {
    Seq::new(v.len(), |i: int| change_json(v[i]))
}

pub fn json_row_changes(list: &Vec<RowChange>) -> (r: Vec<JsonRowChange>)
    ensures
        views(r@) == change_json_list(views(list@)),
{
    let mut out: Vec<JsonRowChange> = Vec::new();
    let n: usize = list.len();
    let mut i: usize = 0;
    while i < n
        invariant
            n == list@.len(),
            0 <= i <= n,
            out@.len() == i,
            forall|k: int| 0 <= k < i ==> #[trigger] out@[k]@ == change_json(list@[k]@),
        decreases n - i,
    {
        out.push(one_json_row_changes(&list[i]));
        i += 1;
    }
    proof {
        assert(views(out@) =~= change_json_list(views(list@)));
    }
    out
}

pub open spec fn table_json(v: TableChangesView) -> JsonTableChangesView {
    JsonTableChanges {
        name: v.table_name,
        columns: v.columns,
        primary_key_columns: v.primary_key_columns,
        changes: change_json_list(v.changes),
    }
}

fn one_json_table_changes(v: &TableChanges) -> (r: JsonTableChanges)
    ensures
        r@ == table_json(v@),
{
    JsonTableChanges {
        name: v.table_name.clone(),
        columns: copy_texts(&v.columns),
        primary_key_columns: copy_texts(&v.primary_key_columns),
        changes: json_row_changes(&v.changes),
    }
}

/// The tables of a JSON answer.
pub open spec fn table_json_list(v: Seq<TableChangesView>) -> Seq<JsonTableChangesView> {
    Seq::new(v.len(), |i: int| table_json(v[i]))
}

pub fn json_table_changes(list: &Vec<TableChanges>) -> (r: Vec<JsonTableChanges>)
    ensures
        views(r@) == table_json_list(views(list@)),
{
    let mut out: Vec<JsonTableChanges> = Vec::new();
    let n: usize = list.len();
    let mut i: usize = 0;
    while i < n
        invariant
            n == list@.len(),
            0 <= i <= n,
            out@.len() == i,
            forall|k: int| 0 <= k < i ==> #[trigger] out@[k]@ == table_json(list@[k]@),
        decreases n - i,
    {
        out.push(one_json_table_changes(&list[i]));
        i += 1;
    }
    proof {
        assert(views(out@) =~= table_json_list(views(list@)));
    }
    out
}

/// What came of comparing the rows of one database: the differences, nothing to compare, or an
/// error and its text.
#[derive(Debug, Clone, PartialEq, Eq)]
pub enum RowDiffResult<D, S = String> {
    Available(D),
    Absent,
    Failed(S),
}

/// The result of a comparison with its texts replaced by their characters.
pub open spec fn result_view<D: View>(r: RowDiffResult<D>) -> RowDiffResult<D::V, Seq<char>> {
    match r {
        RowDiffResult::Available(d) => RowDiffResult::Available(d@),
        RowDiffResult::Absent => RowDiffResult::Absent,
        RowDiffResult::Failed(e) => RowDiffResult::Failed(e@),
    }
}

/// The results of comparisons with their texts replaced by their characters.
pub open spec fn result_views<D: View>(v: Seq<RowDiffResult<D>>) -> Seq<RowDiffResult<D::V, Seq<char>>> {
    Seq::new(v.len(), |i: int| result_view(v[i]))
}

pub open spec fn no_row_telemetry() -> crate::json::JsonRowDiffTelemetryView {
    JsonRowDiffTelemetry { requested_table: None, tables_considered: 0, tables_scanned: 0 }
}

/// A file whose rows could not be compared.
pub open spec fn unavailable_row_file(file: RepoDiffPathView, message: Seq<char>) -> JsonRepoRowDiffFileView {
    JsonRepoRowDiffFile {
        path: file.path,
        previous_path: file.previous_path,
        change: file_change_name(file.change),
        kind: kind_json(file.kind),
        storage: storage_json(file.storage),
        row_diff_available: false,
        logical_status: "row_diff_unavailable"@,
        capabilities: Seq::empty(),
        limitations: Seq::empty(),
        message: Some(message),
        schema_changes: Seq::empty(),
        tables: Seq::empty(),
        opaque_changes: Seq::empty(),
        telemetry: no_row_telemetry(),
    }
}

/// One file of a row diff: its differences, or why there are none to show.
pub open spec fn row_file(file: RepoDiffPathView, result: RowDiffResult<RowLevelDiffView, Seq<char>>) -> JsonRepoRowDiffFileView {
    match result {
        RowDiffResult::Available(d) => JsonRepoRowDiffFile {
            path: file.path,
            previous_path: file.previous_path,
            change: file_change_name(file.change),
            kind: kind_json(file.kind),
            storage: storage_json(file.storage),
            row_diff_available: true,
            logical_status: d.logical_status,
            capabilities: d.capabilities,
            limitations: limitation_json_list(d.limitations),
            message: None,
            schema_changes: schema_json_list(d.schema_changes),
            tables: table_json_list(d.table_changes),
            opaque_changes: opaque_json_list(d.opaque_changes),
            telemetry: JsonRowDiffTelemetry {
                requested_table: d.telemetry.requested_table,
                tables_considered: d.telemetry.tables_considered,
                tables_scanned: d.telemetry.tables_scanned,
            },
        },
        RowDiffResult::Absent => unavailable_row_file(
            file,
            "row diff unavailable for "@ + file_change_name(file.change) + " database snapshots"@,
        ),
        RowDiffResult::Failed(e) => unavailable_row_file(
            file,
            "row diff unavailable for "@ + file_change_name(file.change) + " database snapshots: "@ + e,
        ),
    }
}

pub fn no_texts() -> (r: Vec<String>)
    ensures
        texts(r@) == Seq::<Seq<char>>::empty(),
{
    let r: Vec<String> = Vec::new();
    proof {
        assert(texts(r@) =~= Seq::<Seq<char>>::empty());
    }
    r
}

pub fn no_values<T: View>() -> (r: Vec<T>)
    ensures
        views(r@) == Seq::<T::V>::empty(),
{
    let r: Vec<T> = Vec::new();
    proof {
        assert(views(r@) =~= Seq::<T::V>::empty());
    }
    r
}

fn json_unavailable_row_file(file: &RepoDiffPath, message: String) -> (r: JsonRepoRowDiffFile)
    ensures
        r@ == unavailable_row_file(file@, message@),
{
    JsonRepoRowDiffFile {
        path: file.path.clone(),
        previous_path: copy_option(&file.previous_path),
        change: repo_file_change_label(file.change).to_owned(),
        kind: repo_tracked_path_kind_json_label(file.kind).to_owned(),
        storage: repo_path_storage_json_label(file.storage).to_owned(),
        row_diff_available: false,
        logical_status: "row_diff_unavailable".to_owned(),
        capabilities: no_texts(),
        limitations: no_values(),
        message: Some(message),
        schema_changes: no_values(),
        tables: no_values(),
        opaque_changes: no_values(),
        telemetry: JsonRowDiffTelemetry {
            requested_table: None,
            tables_considered: 0,
            tables_scanned: 0,
        },
    }
}

fn json_row_file(
    file: &RepoDiffPath,
    result: &RowDiffResult<RowLevelDiff>,
) -> (r: JsonRepoRowDiffFile)
    ensures
        r@ == row_file(file@, result_view(*result)),
{
    match result {
        RowDiffResult::Available(d) => JsonRepoRowDiffFile {
            path: file.path.clone(),
            previous_path: copy_option(&file.previous_path),
            change: repo_file_change_label(file.change).to_owned(),
            kind: repo_tracked_path_kind_json_label(file.kind).to_owned(),
            storage: repo_path_storage_json_label(file.storage).to_owned(),
            row_diff_available: true,
            logical_status: d.logical_status.clone(),
            capabilities: json_diff_capabilities(d),
            limitations: json_diff_limitations(d),
            message: None,
            schema_changes: json_schema_changes(&d.schema_changes),
            tables: json_table_changes(&d.table_changes),
            opaque_changes: json_opaque_changes(&d.opaque_changes),
            telemetry: JsonRowDiffTelemetry {
                requested_table: copy_option(&d.telemetry.requested_table),
                tables_considered: d.telemetry.tables_considered,
                tables_scanned: d.telemetry.tables_scanned,
            },
        },
        RowDiffResult::Absent => json_unavailable_row_file(
            file,
            cat3(
                "row diff unavailable for ",
                repo_file_change_label(file.change),
                " database snapshots",
            ),
        ),
        RowDiffResult::Failed(e) => json_unavailable_row_file(
            file,
            cat4(
                "row diff unavailable for ",
                repo_file_change_label(file.change),
                " database snapshots: ",
                e.as_str(),
            ),
        ),
    }
}

pub fn json_diff_capabilities(diff: &RowLevelDiff) -> (r: Vec<String>)
    ensures
        texts(r@) == diff@.capabilities,
{
    copy_texts(&diff.capabilities)
}

pub fn json_diff_limitations(diff: &RowLevelDiff) -> (r: Vec<JsonDiffLimitation>)
    ensures
        views(r@) == limitation_json_list(diff@.limitations),
{
    json_limitations(&diff.limitations)
}

/// The row diff of a repository: every path, and for each database what its comparison gave. A
/// comparison that failed does not fail the others.
pub fn json_repo_row_diff(
    from: &str,
    to: &str,
    paths: &Vec<RepoDiffPath>,
    files: &Vec<RepoDiffPath>,
    results: &Vec<RowDiffResult<RowLevelDiff>>,
) -> (r: JsonRepoRowDiffResult)
    requires
        files@.len() == results@.len(),
    ensures
        r@ == (JsonRepoRowDiffResult {
            from: from@,
            to: to@,
            paths: path_json_list(views(paths@)),
            files: Seq::new(
                files@.len(),
                |i: int| row_file(views(files@)[i], result_views(results@)[i]),
            ),
        }),
{
    let mut out: Vec<JsonRepoRowDiffFile> = Vec::new();
    let n: usize = files.len();
    let mut i: usize = 0;
    while i < n
        invariant
            n == files@.len(),
            n == results@.len(),
            0 <= i <= n,
            out@.len() == i,
            forall|k: int| 0 <= k < i ==> #[trigger] out@[k]@ == row_file(files@[k]@, result_view(results@[k])),
        decreases n - i,
    {
        out.push(json_row_file(&files[i], &results[i]));
        i += 1;
    }
    proof {
        assert(views(out@) =~= Seq::new(
            files@.len(),
            |i: int| row_file(views(files@)[i], result_views(results@)[i]),
        ));
    }
    JsonRepoRowDiffResult {
        from: from.to_owned(),
        to: to.to_owned(),
        paths: json_repo_paths(paths),
        files: out,
    }
}

/// Which part of a bounded diff is asked for.
#[derive(Debug, Clone, PartialEq, Eq)]
pub enum BoundedRowDiffMode<S = String> {
    Summary,
    Rows { table: S, limit: usize, offset: usize },
}

pub open spec fn mode_name(mode: BoundedRowDiffMode) -> Seq<char> {
    match mode {
        BoundedRowDiffMode::Summary => "summary"@,
        BoundedRowDiffMode::Rows { .. } => "rows"@,
    }
}

fn mode_label(mode: &BoundedRowDiffMode) -> (r: &'static str)
    ensures
        r@ == mode_name(*mode),
{
    match mode {
        BoundedRowDiffMode::Summary => "summary",
        BoundedRowDiffMode::Rows { .. } => "rows",
    }
}

/// What a cursor into the rows of a table starts with.
pub open spec fn cursor_prefix() -> Seq<char> {
    "graft-row-v1:"@
}

/// The name of a table in a cursor.
pub open spec fn cursor_table(table: Seq<char>) -> Seq<char> {
    hex(encode_utf8(table))
}

/// The cursor that stands before the row at `offset` of a table.
pub open spec fn row_cursor(table: Seq<char>, offset: nat) -> Seq<char> {
    cursor_prefix() + cursor_table(table) + ":"@ + decimal(offset)
}

fn encode_cursor_table(table: &str) -> (r: String)
    ensures
        r@ == cursor_table(table@),
{
    to_hex(table.as_bytes())
}

pub fn bounded_row_cursor(table: &str, offset: usize) -> (r: String)
    ensures
        r@ == row_cursor(table@, offset as nat),
{
    cat4("graft-row-v1:", encode_cursor_table(table).as_str(), ":", show_usize(offset).as_str())
}

/// Where the page after a cursor starts.
pub open spec fn row_offset(after: Option<Seq<char>>, table: Seq<char>) -> Result<
    nat,
    CommandError<Seq<char>>,
> {
    let bad = Err(CommandError::InvalidCommand("invalid or incompatible row diff cursor"@));
    match after {
        None => Ok(0),
        Some(cursor) => if !has_prefix(cursor, cursor_prefix()) {
            bad
        } else {
            match cut(cursor.skip(cursor_prefix().len() as int), ":"@) {
                None => bad,
                Some((named, value)) => if named != cursor_table(table) {
                    Err(
                        CommandError::InvalidCommand(
                            "row diff cursor does not match the requested table"@,
                        ),
                    )
                } else {
                    match parsed_unsigned(value, usize::MAX as nat) {
                        Some(offset) => Ok(offset),
                        None => bad,
                    }
                },
            }
        },
    }
}

pub fn bounded_row_offset(after: Option<&str>, table: &str) -> (r: Result<usize, CommandError>)
    ensures
        match r {
            Ok(offset) => row_offset(str_option(after), table@) == Ok::<_, CommandError<Seq<char>>>(
                offset as nat,
            ),
            Err(e) => row_offset(str_option(after), table@) == Err::<nat, _>(e@),
        },
{
    let cursor = match after {
        None => return Ok(0),
        Some(cursor) => cursor,
    };
    let rest = match strip_prefix(cursor, "graft-row-v1:") {
        Some(rest) => rest,
        None => return Err(invalid_command("invalid or incompatible row diff cursor")),
    };
    match split_once(rest, ":") {
        None => Err(invalid_command("invalid or incompatible row diff cursor")),
        Some((named, value)) => {
            let encoded = encode_cursor_table(table);
            if !same(named, encoded.as_str()) {
                return Err(invalid_command("row diff cursor does not match the requested table"));
            }
            match parse_usize(value) {
                Some(offset) => Ok(offset),
                None => Err(invalid_command("invalid or incompatible row diff cursor")),
            }
        },
    }
}

/// The name of a table holds no colon once it is encoded, so a cursor is cut where it was joined.
proof fn lemma_cursor_cut(table: Seq<char>, value: Seq<char>)
    ensures
        cut(cursor_table(table) + ":"@ + value, ":"@) == Some((cursor_table(table), value)),
{
    reveal_strlit(":");
    let t = cursor_table(table);
    let s = t + ":"@ + value;
    law_hex_round_trip(encode_utf8(table));
    assert forall|j: int| 0 <= j < t.len() implies !occurs_at(s, ":"@, j) by {
        assert(s.subrange(j, j + 1)[0] == t[j]);
        assert(nibble_value(t[j]) is Some);
    }
    assert(occurs_at(s, ":"@, t.len() as int)) by {
        assert(s.subrange(t.len() as int, t.len() as int + 1) =~= ":"@);
    }
    lemma_find_from(s, ":"@, 0);
    assert(s.take(t.len() as int) =~= t);
    assert(s.skip(t.len() as int + 1) =~= value);
}

/// The cursor that a page of a table ends with leads to the page that follows it.
pub proof fn law_row_cursor_round_trip(table: Seq<char>, offset: nat)
    requires
        offset <= usize::MAX,
    ensures
        row_offset(Some(row_cursor(table, offset)), table) == Ok::<nat, CommandError<Seq<char>>>(
            offset,
        ),
{
    let c = row_cursor(table, offset);
    let rest = cursor_table(table) + ":"@ + decimal(offset);
    assert(c =~= cursor_prefix() + rest);
    assert(c.take(cursor_prefix().len() as int) =~= cursor_prefix());
    assert(c.skip(cursor_prefix().len() as int) =~= rest);
    lemma_cursor_cut(table, decimal(offset));
    law_parsed_decimal(offset, usize::MAX as nat);
}

/// A cursor leads nowhere in another table.
pub proof fn law_row_cursor_keeps_to_its_table(table: Seq<char>, other: Seq<char>, offset: nat)
    requires
        table != other,
    ensures
        row_offset(Some(row_cursor(table, offset)), other) == Err::<nat, _>(
            CommandError::InvalidCommand("row diff cursor does not match the requested table"@),
        ),
{
    let c = row_cursor(table, offset);
    let rest = cursor_table(table) + ":"@ + decimal(offset);
    assert(c =~= cursor_prefix() + rest);
    assert(c.take(cursor_prefix().len() as int) =~= cursor_prefix());
    assert(c.skip(cursor_prefix().len() as int) =~= rest);
    lemma_cursor_cut(table, decimal(offset));
    law_hex_round_trip(encode_utf8(table));
    law_hex_round_trip(encode_utf8(other));
    if cursor_table(table) == cursor_table(other) {
        assert(encode_utf8(table) == encode_utf8(other));
        encode_utf8_decode_utf8(table);
        encode_utf8_decode_utf8(other);
    }
}

/// The page of rows that a diff asks for: where it starts, or why its cursor is refused.
pub fn bounded_rows_mode(table: &str, limit: usize, after: Option<&str>) -> (r: Result<
    BoundedRowDiffMode,
    CommandError,
>)
    ensures
        match r {
            Ok(
                BoundedRowDiffMode::Rows { table: t, limit: l, offset },
            ) => t@ == table@ && l == limit
                && row_offset(str_option(after), table@) == Ok::<_, CommandError<Seq<char>>>(
                offset as nat,
            ),
            Ok(_) => false,
            Err(e) => row_offset(str_option(after), table@) == Err::<nat, _>(e@),
        },
{
    match bounded_row_offset(after, table) {
        Ok(offset) => Ok(BoundedRowDiffMode::Rows { table: table.to_owned(), limit, offset }),
        Err(e) => Err(e),
    }
}

/// A file that a bounded diff could not compare.
pub open spec fn unavailable_bounded(
    file: RepoDiffPathView,
    mode: Seq<char>,
    message: Seq<char>,
) -> JsonRepoBoundedDiffFileView {
    JsonRepoBoundedDiffFile {
        path: file.path,
        previous_path: file.previous_path,
        change: file_change_name(file.change),
        kind: kind_json(file.kind),
        storage: storage_json(file.storage),
        row_diff_available: false,
        mode,
        logical_status: "row_diff_unavailable"@,
        capabilities: Seq::empty(),
        limitations: Seq::empty(),
        message: Some(message),
        summaries: Seq::empty(),
        schema_changes: Seq::empty(),
        tables: Seq::empty(),
        opaque_changes: Seq::empty(),
        has_more: false,
        next_cursor: None,
        telemetry: JsonBoundedRowDiffTelemetry {
            requested_table: None,
            tables_considered: 0,
            tables_scanned: 0,
            rows_scanned: 0,
            rows_returned: 0,
            truncated: false,
            response_scope: "unavailable"@,
        },
    }
}

/// One file of a bounded diff: a page of its differences, or why there are none to show.
pub open spec fn bounded_file(
    file: RepoDiffPathView,
    mode: Seq<char>,
    result: RowDiffResult<BoundedRowDiffView, Seq<char>>,
) -> JsonRepoBoundedDiffFileView {
    match result {
        RowDiffResult::Available(d) => JsonRepoBoundedDiffFile {
            path: file.path,
            previous_path: file.previous_path,
            change: file_change_name(file.change),
            kind: kind_json(file.kind),
            storage: storage_json(file.storage),
            row_diff_available: true,
            mode,
            logical_status: d.logical_status,
            capabilities: d.capabilities,
            limitations: limitation_json_list(d.limitations),
            message: None,
            summaries: summary_json_list(d.summaries),
            schema_changes: schema_json_list(d.schema_changes),
            tables: table_json_list(d.table_changes),
            opaque_changes: opaque_json_list(d.opaque_changes),
            has_more: d.has_more,
            next_cursor: match d.next_offset {
                Some(offset) => Some(row_cursor(d.telemetry.requested_table->0, offset as nat)),
                None => None,
            },
            telemetry: JsonBoundedRowDiffTelemetry {
                requested_table: d.telemetry.requested_table,
                tables_considered: d.telemetry.tables_considered,
                tables_scanned: d.telemetry.tables_scanned,
                rows_scanned: d.telemetry.rows_scanned,
                rows_returned: d.telemetry.rows_returned,
                truncated: d.telemetry.truncated,
                response_scope: d.telemetry.response_scope,
            },
        },
        RowDiffResult::Absent => unavailable_bounded(
            file,
            mode,
            "row diff unavailable for these database snapshots"@,
        ),
        RowDiffResult::Failed(e) => unavailable_bounded(
            file,
            mode,
            "bounded row diff unavailable: "@ + e,
        ),
    }
}

/// A page that another follows is a page of a table.
pub open spec fn names_its_table(result: RowDiffResult<BoundedRowDiff>) -> bool {
    result matches RowDiffResult::Available(d) ==> d.next_offset is Some
        ==> d.telemetry.requested_table is Some
}

fn unavailable_bounded_file(
    file: &RepoDiffPath,
    mode: &str,
    message: String,
) -> (r: JsonRepoBoundedDiffFile)
    ensures
        r@ == unavailable_bounded(file@, mode@, message@),
{
    JsonRepoBoundedDiffFile {
        path: file.path.clone(),
        previous_path: copy_option(&file.previous_path),
        change: repo_file_change_label(file.change).to_owned(),
        kind: repo_tracked_path_kind_json_label(file.kind).to_owned(),
        storage: repo_path_storage_json_label(file.storage).to_owned(),
        row_diff_available: false,
        mode: mode.to_owned(),
        logical_status: "row_diff_unavailable".to_owned(),
        capabilities: no_texts(),
        limitations: no_values(),
        message: Some(message),
        summaries: no_values(),
        schema_changes: no_values(),
        tables: no_values(),
        opaque_changes: no_values(),
        has_more: false,
        next_cursor: None,
        telemetry: JsonBoundedRowDiffTelemetry {
            requested_table: None,
            tables_considered: 0,
            tables_scanned: 0,
            rows_scanned: 0,
            rows_returned: 0,
            truncated: false,
            response_scope: "unavailable".to_owned(),
        },
    }
}

fn next_page_cursor(d: &BoundedRowDiff) -> (r: Option<String>)
    requires
        d.next_offset is Some ==> d.telemetry.requested_table is Some,
    ensures
        text_option(r) == match d.next_offset {
            Some(offset) => Some(row_cursor(d@.telemetry.requested_table->0, offset as nat)),
            None => None,
        },
{
    match (&d.next_offset, &d.telemetry.requested_table) {
        (Some(offset), Some(table)) => Some(bounded_row_cursor(table.as_str(), *offset)),
        _ => None,
    }
}

fn json_bounded_file(
    file: &RepoDiffPath,
    mode: &str,
    result: &RowDiffResult<BoundedRowDiff>,
) -> (r: JsonRepoBoundedDiffFile)
    requires
        names_its_table(*result),
    ensures
        r@ == bounded_file(file@, mode@, result_view(*result)),
{
    match result {
        RowDiffResult::Available(d) => JsonRepoBoundedDiffFile {
            path: file.path.clone(),
            previous_path: copy_option(&file.previous_path),
            change: repo_file_change_label(file.change).to_owned(),
            kind: repo_tracked_path_kind_json_label(file.kind).to_owned(),
            storage: repo_path_storage_json_label(file.storage).to_owned(),
            row_diff_available: true,
            mode: mode.to_owned(),
            logical_status: d.logical_status.clone(),
            capabilities: copy_texts(&d.capabilities),
            limitations: json_limitations(&d.limitations),
            message: None,
            summaries: json_table_summaries(&d.summaries),
            schema_changes: json_schema_changes(&d.schema_changes),
            tables: json_table_changes(&d.table_changes),
            opaque_changes: json_opaque_changes(&d.opaque_changes),
            has_more: d.has_more,
            next_cursor: next_page_cursor(d),
            telemetry: JsonBoundedRowDiffTelemetry {
                requested_table: copy_option(&d.telemetry.requested_table),
                tables_considered: d.telemetry.tables_considered,
                tables_scanned: d.telemetry.tables_scanned,
                rows_scanned: d.telemetry.rows_scanned,
                rows_returned: d.telemetry.rows_returned,
                truncated: d.telemetry.truncated,
                response_scope: d.telemetry.response_scope.clone(),
            },
        },
        RowDiffResult::Absent => unavailable_bounded_file(
            file,
            mode,
            "row diff unavailable for these database snapshots".to_owned(),
        ),
        RowDiffResult::Failed(e) => unavailable_bounded_file(
            file,
            mode,
            cat2("bounded row diff unavailable: ", e.as_str()),
        ),
    }
}

/// The bounded diff of a repository: every path, and for each database a page of what its
/// comparison gave. A comparison that failed does not fail the others.
pub fn json_repo_bounded_diff(
    from: &str,
    to: &str,
    paths: &Vec<RepoDiffPath>,
    files: &Vec<RepoDiffPath>,
    results: &Vec<RowDiffResult<BoundedRowDiff>>,
    mode: &BoundedRowDiffMode,
) -> (r: JsonRepoBoundedDiffResult)
    requires
        files@.len() == results@.len(),
        forall|i: int| 0 <= i < results@.len() ==> names_its_table(#[trigger] results@[i]),
    ensures
        r@ == (JsonRepoBoundedDiffResult {
            from: from@,
            to: to@,
            paths: path_json_list(views(paths@)),
            files: Seq::new(
                files@.len(),
                |i: int|
                    bounded_file(views(files@)[i], mode_name(*mode), result_views(results@)[i]),
            ),
        }),
{
    let label = mode_label(mode);
    let mut out: Vec<JsonRepoBoundedDiffFile> = Vec::new();
    let n: usize = files.len();
    let mut i: usize = 0;
    while i < n
        invariant
            n == files@.len(),
            n == results@.len(),
            0 <= i <= n,
            out@.len() == i,
            label@ == mode_name(*mode),
            forall|k: int| 0 <= k < results@.len() ==> names_its_table(#[trigger] results@[k]),
            forall|k: int|
                0 <= k < i ==> #[trigger] out@[k]@ == bounded_file(
                    files@[k]@,
                    mode_name(*mode),
                    result_view(results@[k]),
                ),
        decreases n - i,
    {
        out.push(json_bounded_file(&files[i], label, &results[i]));
        i += 1;
    }
    proof {
        assert(views(out@) =~= Seq::new(
            files@.len(),
            |i: int| bounded_file(views(files@)[i], mode_name(*mode), result_views(results@)[i]),
        ));
    }
    JsonRepoBoundedDiffResult {
        from: from.to_owned(),
        to: to.to_owned(),
        paths: json_repo_paths(paths),
        files: out,
    }
}

} // verus!
