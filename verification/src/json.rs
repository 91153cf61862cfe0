//! The JSON answers about differences between databases.
use vstd::prelude::*;

use crate::bytes::{hex, to_hex};
use crate::error::text_option;
use crate::order::KeyMap;
use crate::show::{view_option, views};
use crate::spec::{key_parts, KeyPart, KeyPartView, KeyValue, KeyValueView};
use crate::text::texts;

verus! {

/// How many rows of a table changed.
#[derive(Debug, Clone, PartialEq, Eq)]
pub struct JsonTableSummary<S = String> {
    pub name: S,
    pub inserts: usize,
    pub deletes: usize,
    pub updates: usize,
}

pub type JsonTableSummaryView = JsonTableSummary<Seq<char>>;

impl View for JsonTableSummary<String> {
    type V = JsonTableSummaryView;

    open spec fn view(&self) -> JsonTableSummaryView {
        JsonTableSummary {
            name: self.name@,
            inserts: self.inserts,
            deletes: self.deletes,
            updates: self.updates,
        }
    }
}

/// A table-level change that cannot be expanded into ordinary row changes.
#[derive(Debug, Clone, PartialEq, Eq)]
pub struct JsonOpaqueChange<S = String> {
    pub name: S,
    pub change: S,
    pub reason: S,
    pub owner: Option<S>,
}

pub type JsonOpaqueChangeView = JsonOpaqueChange<Seq<char>>;

impl View for JsonOpaqueChange<String> {
    type V = JsonOpaqueChangeView;

    open spec fn view(&self) -> JsonOpaqueChangeView {
        JsonOpaqueChange {
            name: self.name@,
            change: self.change@,
            reason: self.reason@,
            owner: text_option(self.owner),
        }
    }
}

/// A change of the schema.
#[derive(Debug, Clone, PartialEq, Eq)]
pub struct JsonSchemaChange<S = String> {
    pub name: S,
    pub entry_type: S,
    pub op: S,
    pub sql: Option<S>,
    pub old_sql: Option<S>,
}

pub type JsonSchemaChangeView = JsonSchemaChange<Seq<char>>;

impl View for JsonSchemaChange<String> {
    type V = JsonSchemaChangeView;

    open spec fn view(&self) -> JsonSchemaChangeView {
        JsonSchemaChange {
            name: self.name@,
            entry_type: self.entry_type@,
            op: self.op@,
            sql: text_option(self.sql),
            old_sql: text_option(self.old_sql),
        }
    }
}

/// A row-diff semantic limitation or unsupported SQLite surface.
#[derive(Debug, Clone, PartialEq, Eq)]
pub struct JsonDiffLimitation<S = String> {
    pub kind: S,
    pub subject: Option<S>,
}

pub type JsonDiffLimitationView = JsonDiffLimitation<Seq<char>>;

impl View for JsonDiffLimitation<String> {
    type V = JsonDiffLimitationView;

    open spec fn view(&self) -> JsonDiffLimitationView {
        JsonDiffLimitation { kind: self.kind@, subject: text_option(self.subject) }
    }
}

/// A value in a JSON answer; a number that is no integer is held as JSON writes it.
#[derive(Debug, Clone, PartialEq, Eq)]
pub enum JsonValue<S = String> {
    Null,
    Integer(i64),
    Number(S),
    Text(S),
    /// An object with one member, which is a text.
    Tagged { tag: S, text: S },
}

pub type JsonValueView = JsonValue<Seq<char>>;

impl View for JsonValue<String> {
    type V = JsonValueView;

    open spec fn view(&self) -> JsonValueView {
        match self {
            JsonValue::Null => JsonValue::Null,
            JsonValue::Integer(i) => JsonValue::Integer(*i),
            JsonValue::Number(s) => JsonValue::Number(s@),
            JsonValue::Text(s) => JsonValue::Text(s@),
            JsonValue::Tagged { tag, text } => JsonValue::Tagged { tag: tag@, text: text@ },
        }
    }
}

/// The members of a JSON object.
pub open spec fn json_members(m: Map<Seq<char>, JsonValue>) -> Map<Seq<char>, JsonValueView> {
    Map::new(|k: Seq<char>| m.contains_key(k), |k: Seq<char>| m[k]@)
}

/// A single row change.
#[derive(Debug, Clone)]
pub struct JsonRowChange<S = String, L1 = Vec<JsonValue>, L2 = KeyMap<JsonValue>> {
    /// `insert`, `delete` or `update`.
    pub op: S,
    pub rowid: Option<i64>,
    pub key: Option<L2>,
    pub values: L1,
    /// The values before, of an update.
    pub old_values: Option<L1>,
}

pub type JsonRowChangeView = JsonRowChange<Seq<char>, Seq<JsonValueView>, Map<Seq<char>, JsonValueView>>;

impl View for JsonRowChange<String, Vec<JsonValue>, KeyMap<JsonValue>> {
    type V = JsonRowChangeView;

    open spec fn view(&self) -> JsonRowChangeView {
        JsonRowChange {
            op: self.op@,
            rowid: self.rowid,
            key: match self.key {
                Some(m) => Some(json_members(m@)),
                None => None,
            },
            values: views(self.values@),
            old_values: match self.old_values {
                Some(v) => Some(views(v@)),
                None => None,
            },
        }
    }
}

/// Table changes with row details.
#[derive(Debug, Clone)]
pub struct JsonTableChanges<S = String, L1 = Vec<String>, L2 = Vec<String>, L3 = Vec<JsonRowChange>> {
    pub name: S,
    pub columns: L1,
    pub primary_key_columns: L2,
    pub changes: L3,
}

pub type JsonTableChangesView = JsonTableChanges<Seq<char>, Seq<Seq<char>>, Seq<Seq<char>>, Seq<JsonRowChangeView>>;

impl View for JsonTableChanges<String, Vec<String>, Vec<String>, Vec<JsonRowChange>> {
    type V = JsonTableChangesView;

    open spec fn view(&self) -> JsonTableChangesView {
        JsonTableChanges {
            name: self.name@,
            columns: texts(self.columns@),
            primary_key_columns: texts(self.primary_key_columns@),
            changes: views(self.changes@),
        }
    }
}

/// Path-level repository diff summary shared by default and row diff surfaces.
#[derive(Debug, Clone, PartialEq, Eq)]
pub struct JsonRepoPathDiff<S = String> {
    pub path: S,
    pub previous_path: Option<S>,
    pub change: S,
    pub kind: S,
    pub storage: S,
}

pub type JsonRepoPathDiffView = JsonRepoPathDiff<Seq<char>>;

impl View for JsonRepoPathDiff<String> {
    type V = JsonRepoPathDiffView;

    open spec fn view(&self) -> JsonRepoPathDiffView {
        JsonRepoPathDiff {
            path: self.path@,
            previous_path: text_option(self.previous_path),
            change: self.change@,
            kind: self.kind@,
            storage: self.storage@,
        }
    }
}

/// What a bounded row diff looked at.
#[derive(Debug, Clone, PartialEq, Eq)]
pub struct JsonBoundedRowDiffTelemetry<S = String> {
    pub requested_table: Option<S>,
    pub tables_considered: usize,
    pub tables_scanned: usize,
    pub rows_scanned: usize,
    pub rows_returned: usize,
    pub truncated: bool,
    pub response_scope: S,
}

pub type JsonBoundedRowDiffTelemetryView = JsonBoundedRowDiffTelemetry<Seq<char>>;

impl View for JsonBoundedRowDiffTelemetry<String> {
    type V = JsonBoundedRowDiffTelemetryView;

    open spec fn view(&self) -> JsonBoundedRowDiffTelemetryView {
        JsonBoundedRowDiffTelemetry {
            requested_table: text_option(self.requested_table),
            tables_considered: self.tables_considered,
            tables_scanned: self.tables_scanned,
            rows_scanned: self.rows_scanned,
            rows_returned: self.rows_returned,
            truncated: self.truncated,
            response_scope: self.response_scope@,
        }
    }
}

/// What a row diff looked at.
#[derive(Debug, Clone, PartialEq, Eq)]
pub struct JsonRowDiffTelemetry<S = String> {
    pub requested_table: Option<S>,
    pub tables_considered: usize,
    pub tables_scanned: usize,
}

pub type JsonRowDiffTelemetryView = JsonRowDiffTelemetry<Seq<char>>;

impl View for JsonRowDiffTelemetry<String> {
    type V = JsonRowDiffTelemetryView;

    open spec fn view(&self) -> JsonRowDiffTelemetryView {
        JsonRowDiffTelemetry {
            requested_table: text_option(self.requested_table),
            tables_considered: self.tables_considered,
            tables_scanned: self.tables_scanned,
        }
    }
}

/// Row-level changes for one repository file.
#[derive(Debug, Clone)]
pub struct JsonRepoRowDiffFile<S = String, L1 = Vec<String>, L2 = Vec<JsonDiffLimitation>, L3 = Vec<JsonSchemaChange>, L4 = Vec<JsonTableChanges>, L5 = Vec<JsonOpaqueChange>, L6 = JsonRowDiffTelemetry> {
    pub path: S,
    pub previous_path: Option<S>,
    pub change: S,
    pub kind: S,
    pub storage: S,
    pub row_diff_available: bool,
    pub logical_status: S,
    pub capabilities: L1,
    pub limitations: L2,
    pub message: Option<S>,
    pub schema_changes: L3,
    pub tables: L4,
    pub opaque_changes: L5,
    pub telemetry: L6,
}

pub type JsonRepoRowDiffFileView = JsonRepoRowDiffFile<Seq<char>, Seq<Seq<char>>, Seq<JsonDiffLimitationView>, Seq<JsonSchemaChangeView>, Seq<JsonTableChangesView>, Seq<JsonOpaqueChangeView>, JsonRowDiffTelemetryView>;

impl View for JsonRepoRowDiffFile<String, Vec<String>, Vec<JsonDiffLimitation>, Vec<JsonSchemaChange>, Vec<JsonTableChanges>, Vec<JsonOpaqueChange>, JsonRowDiffTelemetry> {
    type V = JsonRepoRowDiffFileView;

    open spec fn view(&self) -> JsonRepoRowDiffFileView {
        JsonRepoRowDiffFile {
            path: self.path@,
            previous_path: text_option(self.previous_path),
            change: self.change@,
            kind: self.kind@,
            storage: self.storage@,
            row_diff_available: self.row_diff_available,
            logical_status: self.logical_status@,
            capabilities: texts(self.capabilities@),
            limitations: views(self.limitations@),
            message: text_option(self.message),
            schema_changes: views(self.schema_changes@),
            tables: views(self.tables@),
            opaque_changes: views(self.opaque_changes@),
            telemetry: self.telemetry@,
        }
    }
}

/// Row-level repository diff result.
#[derive(Debug, Clone)]
pub struct JsonRepoRowDiffResult<S = String, L1 = Vec<JsonRepoPathDiff>, L2 = Vec<JsonRepoRowDiffFile>> {
    pub from: S,
    pub to: S,
    pub paths: L1,
    pub files: L2,
}

pub type JsonRepoRowDiffResultView = JsonRepoRowDiffResult<Seq<char>, Seq<JsonRepoPathDiffView>, Seq<JsonRepoRowDiffFileView>>;

impl View for JsonRepoRowDiffResult<String, Vec<JsonRepoPathDiff>, Vec<JsonRepoRowDiffFile>> {
    type V = JsonRepoRowDiffResultView;

    open spec fn view(&self) -> JsonRepoRowDiffResultView {
        JsonRepoRowDiffResult {
            from: self.from@,
            to: self.to@,
            paths: views(self.paths@),
            files: views(self.files@),
        }
    }
}

/// The bounded diff of one repository file.
#[derive(Debug, Clone)]
pub struct JsonRepoBoundedDiffFile<S = String, L1 = Vec<String>, L2 = Vec<JsonDiffLimitation>, L3 = Vec<JsonTableSummary>, L4 = Vec<JsonSchemaChange>, L5 = Vec<JsonTableChanges>, L6 = Vec<JsonOpaqueChange>, L7 = JsonBoundedRowDiffTelemetry> {
    pub path: S,
    pub previous_path: Option<S>,
    pub change: S,
    pub kind: S,
    pub storage: S,
    pub row_diff_available: bool,
    pub mode: S,
    pub logical_status: S,
    pub capabilities: L1,
    pub limitations: L2,
    pub message: Option<S>,
    pub summaries: L3,
    pub schema_changes: L4,
    pub tables: L5,
    pub opaque_changes: L6,
    pub has_more: bool,
    pub next_cursor: Option<S>,
    pub telemetry: L7,
}

pub type JsonRepoBoundedDiffFileView = JsonRepoBoundedDiffFile<Seq<char>, Seq<Seq<char>>, Seq<JsonDiffLimitationView>, Seq<JsonTableSummaryView>, Seq<JsonSchemaChangeView>, Seq<JsonTableChangesView>, Seq<JsonOpaqueChangeView>, JsonBoundedRowDiffTelemetryView>;

impl View for JsonRepoBoundedDiffFile<String, Vec<String>, Vec<JsonDiffLimitation>, Vec<JsonTableSummary>, Vec<JsonSchemaChange>, Vec<JsonTableChanges>, Vec<JsonOpaqueChange>, JsonBoundedRowDiffTelemetry> {
    type V = JsonRepoBoundedDiffFileView;

    open spec fn view(&self) -> JsonRepoBoundedDiffFileView {
        JsonRepoBoundedDiffFile {
            path: self.path@,
            previous_path: text_option(self.previous_path),
            change: self.change@,
            kind: self.kind@,
            storage: self.storage@,
            row_diff_available: self.row_diff_available,
            mode: self.mode@,
            logical_status: self.logical_status@,
            capabilities: texts(self.capabilities@),
            limitations: views(self.limitations@),
            message: text_option(self.message),
            summaries: views(self.summaries@),
            schema_changes: views(self.schema_changes@),
            tables: views(self.tables@),
            opaque_changes: views(self.opaque_changes@),
            has_more: self.has_more,
            next_cursor: text_option(self.next_cursor),
            telemetry: self.telemetry@,
        }
    }
}

/// Memory-bounded SQLite repository diff result.
#[derive(Debug, Clone)]
pub struct JsonRepoBoundedDiffResult<S = String, L1 = Vec<JsonRepoPathDiff>, L2 = Vec<JsonRepoBoundedDiffFile>> {
    pub from: S,
    pub to: S,
    pub paths: L1,
    pub files: L2,
}

pub type JsonRepoBoundedDiffResultView = JsonRepoBoundedDiffResult<Seq<char>, Seq<JsonRepoPathDiffView>, Seq<JsonRepoBoundedDiffFileView>>;

impl View for JsonRepoBoundedDiffResult<String, Vec<JsonRepoPathDiff>, Vec<JsonRepoBoundedDiffFile>> {
    type V = JsonRepoBoundedDiffResultView;

    open spec fn view(&self) -> JsonRepoBoundedDiffResultView {
        JsonRepoBoundedDiffResult {
            from: self.from@,
            to: self.to@,
            paths: views(self.paths@),
            files: views(self.files@),
        }
    }
}

/// One side of a comparison of two files.
#[derive(Debug, Clone, PartialEq, Eq)]
pub struct JsonSqliteFileDiffSide<S = String> {
    pub path: S,
    pub page_count: u32,
}

pub type JsonSqliteFileDiffSideView = JsonSqliteFileDiffSide<Seq<char>>;

impl View for JsonSqliteFileDiffSide<String> {
    type V = JsonSqliteFileDiffSideView;

    open spec fn view(&self) -> JsonSqliteFileDiffSideView {
        JsonSqliteFileDiffSide { path: self.path@, page_count: self.page_count }
    }
}

/// The rows that differ between two files.
#[derive(Debug, Clone)]
pub struct JsonSqliteFileRowDiff<S = String, L1 = Vec<String>, L2 = Vec<JsonDiffLimitation>, L3 = Vec<JsonSchemaChange>, L4 = Vec<JsonTableChanges>, L5 = Vec<JsonOpaqueChange>, L6 = JsonRowDiffTelemetry> {
    pub logical_status: S,
    pub capabilities: L1,
    pub limitations: L2,
    pub schema_changes: L3,
    pub tables: L4,
    pub opaque_changes: L5,
    pub telemetry: L6,
}

pub type JsonSqliteFileRowDiffView = JsonSqliteFileRowDiff<Seq<char>, Seq<Seq<char>>, Seq<JsonDiffLimitationView>, Seq<JsonSchemaChangeView>, Seq<JsonTableChangesView>, Seq<JsonOpaqueChangeView>, JsonRowDiffTelemetryView>;

impl View for JsonSqliteFileRowDiff<String, Vec<String>, Vec<JsonDiffLimitation>, Vec<JsonSchemaChange>, Vec<JsonTableChanges>, Vec<JsonOpaqueChange>, JsonRowDiffTelemetry> {
    type V = JsonSqliteFileRowDiffView;

    open spec fn view(&self) -> JsonSqliteFileRowDiffView {
        JsonSqliteFileRowDiff {
            logical_status: self.logical_status@,
            capabilities: texts(self.capabilities@),
            limitations: views(self.limitations@),
            schema_changes: views(self.schema_changes@),
            tables: views(self.tables@),
            opaque_changes: views(self.opaque_changes@),
            telemetry: self.telemetry@,
        }
    }
}

/// The comparison of two files.
#[derive(Debug, Clone)]
pub struct JsonSqliteFileDiffResult<S = String, L1 = JsonSqliteFileDiffSide, L2 = JsonSqliteFileDiffSide, L3 = JsonSqliteFileRowDiff> {
    pub from: L1,
    pub to: L2,
    pub changed: bool,
    pub kind: S,
    pub rows: bool,
    pub row_diff: Option<L3>,
}

pub type JsonSqliteFileDiffResultView = JsonSqliteFileDiffResult<Seq<char>, JsonSqliteFileDiffSideView, JsonSqliteFileDiffSideView, JsonSqliteFileRowDiffView>;

impl View for JsonSqliteFileDiffResult<String, JsonSqliteFileDiffSide, JsonSqliteFileDiffSide, JsonSqliteFileRowDiff> {
    type V = JsonSqliteFileDiffResultView;

    open spec fn view(&self) -> JsonSqliteFileDiffResultView {
        JsonSqliteFileDiffResult {
            from: self.from@,
            to: self.to@,
            changed: self.changed,
            kind: self.kind@,
            rows: self.rows,
            row_diff: view_option(self.row_diff),
        }
    }
}

/// Whether the bits are those of a finite number.
pub open spec fn is_finite(bits: u64) -> bool {
    (bits / 0x10_0000_0000_0000) % 0x800 != 0x7ff
}

/// A value as JSON: a blob is its hexadecimal digits, and JSON has no number that is not finite.
pub open spec fn json_value(v: KeyValueView) -> JsonValueView {
    match v {
        KeyValue::Null => JsonValue::Null,
        KeyValue::Integer(i) => JsonValue::Integer(i),
        KeyValue::Real { bits, json } => if is_finite(bits) {
            JsonValue::Number(json)
        } else {
            JsonValue::Null
        },
        KeyValue::Text(s) => JsonValue::Text(s),
        KeyValue::Blob(b) => JsonValue::Text(hex(b)),
    }
}

/// A value of a primary key as JSON.
pub open spec fn json_key_value(v: KeyValueView) -> JsonValueView {
    match v {
        KeyValue::Blob(b) => JsonValue::Tagged { tag: "$blob"@, text: hex(b) },
        _ => json_value(v),
    }
}

impl JsonRowChange<String, Vec<JsonValue>, KeyMap<JsonValue>> {
    pub fn value_to_json(v: &KeyValue) -> (r: JsonValue)
        ensures
            r@ == json_value(v@),
    {
        match v {
            KeyValue::Null => JsonValue::Null,
            KeyValue::Integer(i) => JsonValue::Integer(*i),
            KeyValue::Real { bits, json } => {
                if (*bits / 0x10_0000_0000_0000) % 0x800 != 0x7ff {
                    JsonValue::Number(json.clone())
                } else {
                    JsonValue::Null
                }
            },
            KeyValue::Text(s) => JsonValue::Text(s.clone()),
            KeyValue::Blob(b) => JsonValue::Text(to_hex(b.as_slice())),
        }
    }

    /// Encode a primary-key value in the same shape accepted by `graft resolve --row`.
    ///
    /// BLOBs need an explicit type marker because a bare JSON string represents SQLite TEXT.
    pub fn primary_key_value_to_json(value: &KeyValue) -> (r: JsonValue)
        ensures
            r@ == json_key_value(value@),
    {
        match value {
            KeyValue::Blob(b) => JsonValue::Tagged {
                tag: "$blob".to_owned(),
                text: to_hex(b.as_slice()),
            },
            _ => JsonRowChange::value_to_json(value),
        }
    }
}

/// A primary key as a JSON object: of a column that stands in it twice, the last value.
pub open spec fn json_key(parts: Seq<KeyPartView>) -> Map<Seq<char>, JsonValueView>
    decreases parts.len(),
{
    if parts.len() == 0 {
        Map::empty()
    } else {
        json_key(parts.drop_last()).insert(parts.last().column, json_key_value(parts.last().value))
    }
}

/// JSON writes no two reals alike.
pub open spec fn same_numeral_same_bits(a: KeyValueView, b: KeyValueView) -> bool {
    match (a, b) {
        (KeyValue::Real { bits: x, json: s }, KeyValue::Real { bits: y, json: t }) => s == t ==> x == y,
        _ => true,
    }
}

/// JSON tells the values of a primary key apart, as long as their numbers are finite: in
/// particular, a blob is no text.
pub proof fn law_key_values_stay_apart(a: KeyValueView, b: KeyValueView)
    requires
        a matches KeyValue::Real { bits, .. } ==> is_finite(bits),
        b matches KeyValue::Real { bits, .. } ==> is_finite(bits),
        same_numeral_same_bits(a, b),
        json_key_value(a) == json_key_value(b),
    ensures
        a == b,
{
    if let KeyValue::Blob(x) = a {
        if let KeyValue::Blob(y) = b {
            crate::bytes::law_hex_round_trip(x);
            crate::bytes::law_hex_round_trip(y);
        }
    }
}

pub fn json_primary_key(key: &Vec<KeyPart>) -> (r: KeyMap<JsonValue>)
    ensures
        r.wf(),
        json_members(r@) == json_key(key_parts(key@)),
{
    let mut out: KeyMap<JsonValue> = KeyMap::new();
    let n: usize = key.len();
    let mut i: usize = 0;
    let ghost all = key_parts(key@);
    proof {
        assert(json_members(out@) =~= json_key(all.take(0)));
    }
    while i < n
        invariant
            n == key@.len(),
            all == key_parts(key@),
            0 <= i <= n,
            out.wf(),
            json_members(out@) == json_key(all.take(i as int)),
        decreases n - i,
    {
        let ghost before_put = out@;
        let value = JsonRowChange::primary_key_value_to_json(&key[i].value);
        out.put(key[i].column.as_str(), value);
        proof {
            assert(all[i as int] == key@[i as int]@);
            assert(all.take(i + 1).drop_last() =~= all.take(i as int));
            assert(json_members(out@) =~= json_members(before_put).insert(
                key@[i as int]@.column,
                json_key_value(key@[i as int]@.value),
            ));
        }
        i += 1;
    }
    proof {
        assert(all.take(n as int) =~= all);
    }
    out
}

} // verus!
