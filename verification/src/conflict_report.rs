//! What is reported of the conflicts of a merge.
use vstd::prelude::*;
use vstd::string::*;

use crate::conflict_paths::{
    conflict_file_states, conflict_path_descriptor_from_entries, entries_descriptor, three_way,
};
use crate::conflicts::{
    cell_conflict_resolution_key, cell_key, identity_label, row_conflict_resolution_key,
    row_identity_label, row_key, RowConflictResolutionState,
};
use crate::error::{copy_option, text_option};
use crate::json::{
    json_key, json_members, json_primary_key, json_value, JsonDiffLimitation,
    JsonDiffLimitationView, JsonRowChange, JsonValue, JsonValueView,
};
use crate::labels::{
    kind_json, repo_path_storage_json_label, repo_tracked_path_kind_json_label, storage_json,
};
use crate::merge_policy::{
    apply_policy_json, row_merge_apply_policy, JsonRowMergeApplyPolicy,
    JsonRowMergeApplyPolicyView, RowMergePolicy,
};
use crate::model::{IndexEntry, IndexEntryView};
use crate::order::KeyMap;
use crate::row_diff::{
    json_limitations, json_row, limitation_json_list, no_texts, no_values, row_json,
    RowLevelDiffLimitation, RowLevelDiffLimitationView,
};
use crate::show::{view_option, views};
use crate::spec::{KeyValue, KeyValueView, RowIdentity, RowIdentityView};
use crate::text::{cat2, cat5, copy_texts, lemma_texts_push, same, texts};

verus! {

/// The texts of an optional list.
pub open spec fn texts_option(v: Option<Vec<String>>) -> Option<Seq<Seq<char>>> {
    match v {
        Some(l) => Some(texts(l@)),
        None => None,
    }
}

/// The values of an optional list.
pub open spec fn views_option<T: View>(v: Option<Vec<T>>) -> Option<Seq<T::V>> {
    match v {
        Some(l) => Some(views(l@)),
        None => None,
    }
}

/// The members of an optional JSON object.
pub open spec fn members_option(v: Option<KeyMap<JsonValue>>) -> Option<Map<Seq<char>, JsonValueView>> {
    match v {
        Some(m) => Some(json_members(m@)),
        None => None,
    }
}

/// What one side did to a row.
#[derive(Debug, Clone, Copy, PartialEq, Eq, Structural)]
pub enum RowChangeKind {
    Insert,
    Delete,
    Update,
}

/// What one side did to an entry of the schema.
#[derive(Debug, Clone, Copy, PartialEq, Eq, Structural)]
pub enum SchemaChangeKind {
    Added,
    Deleted,
    Modified,
}

/// Why a change cannot be merged row by row.
#[derive(Debug, Clone, Copy, PartialEq, Eq, Structural)]
pub enum OpaqueChangeReason {
    VirtualTable,
    FtsShadowTable,
    SqliteInternalTable,
    IndexBtree,
}

/// How the values of a semantic key are compared.
#[derive(Debug, Clone, Copy, PartialEq, Eq, Structural)]
pub enum SemanticKeyCollation {
    Binary,
    NoCase,
}

pub open spec fn row_change_name(v: RowChangeKind) -> Seq<char> {
    match v {
        RowChangeKind::Insert => "insert"@,
        RowChangeKind::Delete => "delete"@,
        RowChangeKind::Update => "update"@,
    }
}

pub fn row_change_kind_label(v: RowChangeKind) -> (r: &'static str)
    ensures
        r@ == row_change_name(v),
{
    match v {
        RowChangeKind::Insert => "insert",
        RowChangeKind::Delete => "delete",
        RowChangeKind::Update => "update",
    }
}

pub open spec fn schema_change_name(v: SchemaChangeKind) -> Seq<char> {
    match v {
        SchemaChangeKind::Added => "added"@,
        SchemaChangeKind::Deleted => "deleted"@,
        SchemaChangeKind::Modified => "modified"@,
    }
}

pub fn schema_change_kind_label(v: SchemaChangeKind) -> (r: &'static str)
    ensures
        r@ == schema_change_name(v),
{
    match v {
        SchemaChangeKind::Added => "added",
        SchemaChangeKind::Deleted => "deleted",
        SchemaChangeKind::Modified => "modified",
    }
}

/// What is said of a change that cannot be merged row by row.
pub open spec fn opaque_message(v: OpaqueChangeReason) -> Seq<char> {
    match v {
        OpaqueChangeReason::VirtualTable => "virtual table changes require application-specific resolution"@,
        OpaqueChangeReason::FtsShadowTable => "FTS shadow table changes must be rebuilt or resolved with their owner table"@,
        OpaqueChangeReason::SqliteInternalTable => "SQLite internal table changes require an explicit resolver policy"@,
        OpaqueChangeReason::IndexBtree => "SQLite index B-tree changes require an explicit resolver policy"@,
    }
}

pub fn opaque_conflict_message(v: OpaqueChangeReason) -> (r: &'static str)
    ensures
        r@ == opaque_message(v),
{
    match v {
        OpaqueChangeReason::VirtualTable => "virtual table changes require application-specific resolution",
        OpaqueChangeReason::FtsShadowTable => "FTS shadow table changes must be rebuilt or resolved with their owner table",
        OpaqueChangeReason::SqliteInternalTable => "SQLite internal table changes require an explicit resolver policy",
        OpaqueChangeReason::IndexBtree => "SQLite index B-tree changes require an explicit resolver policy",
    }
}

pub open spec fn collation_name(v: SemanticKeyCollation) -> Seq<char> {
    match v {
        SemanticKeyCollation::Binary => "binary"@,
        SemanticKeyCollation::NoCase => "nocase"@,
    }
}

pub fn collation_label(v: SemanticKeyCollation) -> (r: &'static str)
    ensures
        r@ == collation_name(v),
{
    match v {
        SemanticKeyCollation::Binary => "binary",
        SemanticKeyCollation::NoCase => "nocase",
    }
}

/// A cell that both sides changed.
#[derive(Debug, Clone, PartialEq, Eq)]
pub struct CellConflict<S = String, L1 = KeyValue, L2 = KeyValue, L3 = KeyValue> {
    pub column: S,
    pub base: L1,
    pub ours: L2,
    pub theirs: L3,
}

pub type CellConflictView = CellConflict<Seq<char>, KeyValueView, KeyValueView, KeyValueView>;

impl View for CellConflict<String, KeyValue, KeyValue, KeyValue> {
    type V = CellConflictView;

    open spec fn view(&self) -> CellConflictView {
        CellConflict {
            column: self.column@,
            base: self.base@,
            ours: self.ours@,
            theirs: self.theirs@,
        }
    }
}

/// A row that both sides changed.
#[derive(Debug, Clone, PartialEq, Eq)]
pub struct RowConflictDetail<S = String, L1 = Vec<String>, L2 = RowIdentity, L3 = RowIdentity, L4 = RowIdentity, L5 = Vec<String>, L6 = Vec<CellConflict>, L7 = Vec<KeyValue>, L8 = Vec<KeyValue>, L9 = Vec<KeyValue>> {
    pub reason: S,
    pub table: S,
    pub columns: L1,
    pub identity: L2,
    pub ours_identity: L3,
    pub theirs_identity: L4,
    pub semantic_key: Option<L5>,
    pub semantic_key_collations: Option<Vec<SemanticKeyCollation>>,
    pub cells: L6,
    pub ours: RowChangeKind,
    pub theirs: RowChangeKind,
    pub base_row: Option<L7>,
    pub ours_row: Option<L8>,
    pub theirs_row: Option<L9>,
}

pub type RowConflictDetailView = RowConflictDetail<Seq<char>, Seq<Seq<char>>, RowIdentityView, RowIdentityView, RowIdentityView, Seq<Seq<char>>, Seq<CellConflictView>, Seq<KeyValueView>, Seq<KeyValueView>, Seq<KeyValueView>>;

impl View for RowConflictDetail<String, Vec<String>, RowIdentity, RowIdentity, RowIdentity, Vec<String>, Vec<CellConflict>, Vec<KeyValue>, Vec<KeyValue>, Vec<KeyValue>> {
    type V = RowConflictDetailView;

    open spec fn view(&self) -> RowConflictDetailView {
        RowConflictDetail {
            reason: self.reason@,
            table: self.table@,
            columns: texts(self.columns@),
            identity: self.identity@,
            ours_identity: self.ours_identity@,
            theirs_identity: self.theirs_identity@,
            semantic_key: texts_option(self.semantic_key),
            semantic_key_collations: self.semantic_key_collations,
            cells: views(self.cells@),
            ours: self.ours,
            theirs: self.theirs,
            base_row: views_option(self.base_row),
            ours_row: views_option(self.ours_row),
            theirs_row: views_option(self.theirs_row),
        }
    }
}

/// A change of a column.
#[derive(Debug, Clone, PartialEq, Eq)]
pub struct SchemaColumnChange<S = String> {
    pub side: S,
    pub operation: S,
    pub from: Option<S>,
    pub to: Option<S>,
}

pub type SchemaColumnChangeView = SchemaColumnChange<Seq<char>>;

impl View for SchemaColumnChange<String> {
    type V = SchemaColumnChangeView;

    open spec fn view(&self) -> SchemaColumnChangeView {
        SchemaColumnChange {
            side: self.side@,
            operation: self.operation@,
            from: text_option(self.from),
            to: text_option(self.to),
        }
    }
}

/// An entry of the schema that both sides changed.
#[derive(Debug, Clone, PartialEq, Eq)]
pub struct SchemaConflictDetail<S = String, L1 = Vec<SchemaColumnChange>> {
    pub reason: S,
    pub name: S,
    pub entry_type: S,
    pub ours: Option<SchemaChangeKind>,
    pub theirs: Option<SchemaChangeKind>,
    pub column_changes: L1,
    pub message: S,
}

pub type SchemaConflictDetailView = SchemaConflictDetail<Seq<char>, Seq<SchemaColumnChangeView>>;

impl View for SchemaConflictDetail<String, Vec<SchemaColumnChange>> {
    type V = SchemaConflictDetailView;

    open spec fn view(&self) -> SchemaConflictDetailView {
        SchemaConflictDetail {
            reason: self.reason@,
            name: self.name@,
            entry_type: self.entry_type@,
            ours: self.ours,
            theirs: self.theirs,
            column_changes: views(self.column_changes@),
            message: self.message@,
        }
    }
}

/// A change that nothing resolves; `reason_name` is how its reason is written.
#[derive(Debug, Clone, PartialEq, Eq)]
pub struct OpaqueConflict<S = String> {
    pub name: S,
    pub change: S,
    pub reason: OpaqueChangeReason,
    pub reason_name: S,
    pub owner: Option<S>,
}

pub type OpaqueConflictView = OpaqueConflict<Seq<char>>;

impl View for OpaqueConflict<String> {
    type V = OpaqueConflictView;

    open spec fn view(&self) -> OpaqueConflictView {
        OpaqueConflict {
            name: self.name@,
            change: self.change@,
            reason: self.reason,
            reason_name: self.reason_name@,
            owner: text_option(self.owner),
        }
    }
}

/// A change that a resolver takes care of.
#[derive(Debug, Clone, PartialEq, Eq)]
pub struct ResolvedOpaqueChange<S = String> {
    pub name: S,
    pub reason: S,
    pub resolver: S,
}

pub type ResolvedOpaqueChangeView = ResolvedOpaqueChange<Seq<char>>;

impl View for ResolvedOpaqueChange<String> {
    type V = ResolvedOpaqueChangeView;

    open spec fn view(&self) -> ResolvedOpaqueChangeView {
        ResolvedOpaqueChange {
            name: self.name@,
            reason: self.reason@,
            resolver: self.resolver@,
        }
    }
}

/// A row whose managed columns must be computed again.
#[derive(Debug, Clone, PartialEq, Eq)]
pub struct PendingRecomputation<S = String, L1 = RowIdentity, L2 = Vec<String>> {
    pub table: S,
    pub identity: L1,
    pub columns: L2,
}

pub type PendingRecomputationView = PendingRecomputation<Seq<char>, RowIdentityView, Seq<Seq<char>>>;

impl View for PendingRecomputation<String, RowIdentity, Vec<String>> {
    type V = PendingRecomputationView;

    open spec fn view(&self) -> PendingRecomputationView {
        PendingRecomputation {
            table: self.table@,
            identity: self.identity@,
            columns: texts(self.columns@),
        }
    }
}

/// What the analysis of a merge of two databases found.
#[derive(Debug, Clone, PartialEq, Eq)]
pub struct RowMergePlan<L1 = Vec<RowConflictDetail>, L2 = Vec<SchemaConflictDetail>, L3 = Vec<OpaqueConflict>, L4 = Vec<ResolvedOpaqueChange>, L5 = Vec<PendingRecomputation>, L6 = Vec<RowLevelDiffLimitation>> {
    pub conflicts: L1,
    pub schema_conflicts: L2,
    pub unresolved_opaque: L3,
    pub resolved_opaque: L4,
    pub pending: L5,
    pub limitations: L6,
    pub ours_changes: usize,
    pub theirs_changes: usize,
    /// How many changes of theirs are applied to ours.
    pub apply_changes: usize,
    pub opaque_changes: usize,
    /// Ours is the result without anything applied.
    pub keeps_ours: bool,
    /// Theirs has no supported logical changes.
    pub theirs_unchanged: bool,
    pub requires_validation: bool,
}

pub type RowMergePlanView = RowMergePlan<Seq<RowConflictDetailView>, Seq<SchemaConflictDetailView>, Seq<OpaqueConflictView>, Seq<ResolvedOpaqueChangeView>, Seq<PendingRecomputationView>, Seq<RowLevelDiffLimitationView>>;

impl View for RowMergePlan<Vec<RowConflictDetail>, Vec<SchemaConflictDetail>, Vec<OpaqueConflict>, Vec<ResolvedOpaqueChange>, Vec<PendingRecomputation>, Vec<RowLevelDiffLimitation>> {
    type V = RowMergePlanView;

    open spec fn view(&self) -> RowMergePlanView {
        RowMergePlan {
            conflicts: views(self.conflicts@),
            schema_conflicts: views(self.schema_conflicts@),
            unresolved_opaque: views(self.unresolved_opaque@),
            resolved_opaque: views(self.resolved_opaque@),
            pending: views(self.pending@),
            limitations: views(self.limitations@),
            ours_changes: self.ours_changes,
            theirs_changes: self.theirs_changes,
            apply_changes: self.apply_changes,
            opaque_changes: self.opaque_changes,
            keeps_ours: self.keeps_ours,
            theirs_unchanged: self.theirs_unchanged,
            requires_validation: self.requires_validation,
        }
    }
}

/// A cell in conflict.
#[derive(Debug, Clone)]
pub struct JsonCellConflict<S = String, L1 = JsonValue, L2 = JsonValue, L3 = JsonValue> {
    pub column: S,
    pub base: L1,
    pub ours: L2,
    pub theirs: L3,
    pub resolution: Option<S>,
}

pub type JsonCellConflictView = JsonCellConflict<Seq<char>, JsonValueView, JsonValueView, JsonValueView>;

impl View for JsonCellConflict<String, JsonValue, JsonValue, JsonValue> {
    type V = JsonCellConflictView;

    open spec fn view(&self) -> JsonCellConflictView {
        JsonCellConflict {
            column: self.column@,
            base: self.base@,
            ours: self.ours@,
            theirs: self.theirs@,
            resolution: text_option(self.resolution),
        }
    }
}

/// A change of a column.
#[derive(Debug, Clone)]
pub struct JsonSchemaColumnChange<S = String> {
    pub side: S,
    pub operation: S,
    pub from: Option<S>,
    pub to: Option<S>,
}

pub type JsonSchemaColumnChangeView = JsonSchemaColumnChange<Seq<char>>;

impl View for JsonSchemaColumnChange<String> {
    type V = JsonSchemaColumnChangeView;

    open spec fn view(&self) -> JsonSchemaColumnChangeView {
        JsonSchemaColumnChange {
            side: self.side@,
            operation: self.operation@,
            from: text_option(self.from),
            to: text_option(self.to),
        }
    }
}

/// A change that a resolver takes care of.
#[derive(Debug, Clone)]
pub struct JsonResolvedOpaqueChange<S = String> {
    pub name: S,
    pub reason: S,
    pub resolver: S,
}

pub type JsonResolvedOpaqueChangeView = JsonResolvedOpaqueChange<Seq<char>>;

impl View for JsonResolvedOpaqueChange<String> {
    type V = JsonResolvedOpaqueChangeView;

    open spec fn view(&self) -> JsonResolvedOpaqueChangeView {
        JsonResolvedOpaqueChange {
            name: self.name@,
            reason: self.reason@,
            resolver: self.resolver@,
        }
    }
}

/// One conflict: of a row, of the schema, of an opaque change, of a validation, or of the whole file.
#[derive(Debug, Clone)]
pub struct JsonConflictArtifact<S = String, L1 = Vec<String>, L2 = KeyMap<JsonValue>, L3 = KeyMap<JsonValue>, L4 = KeyMap<JsonValue>, L5 = Vec<String>, L6 = Vec<String>, L7 = Vec<JsonCellConflict>, L8 = Vec<JsonSchemaColumnChange>, L9 = Vec<JsonValue>, L10 = Vec<JsonValue>, L11 = Vec<JsonValue>> {
    pub id: S,
    pub path: S,
    pub path_kind: S,
    pub storage: S,
    pub kind: S,
    pub reason: S,
    pub status: S,
    pub resolution: Option<S>,
    pub auto_resolvable: Option<bool>,
    pub recommended_result: Option<S>,
    pub recommended_action: Option<S>,
    pub table: Option<S>,
    pub columns: Option<L1>,
    pub rowid: Option<i64>,
    pub ours_rowid: Option<i64>,
    pub theirs_rowid: Option<i64>,
    pub key: Option<L2>,
    pub ours_key: Option<L3>,
    pub theirs_key: Option<L4>,
    pub semantic_key: Option<L5>,
    pub semantic_key_collations: Option<L6>,
    pub cells: L7,
    pub name: Option<S>,
    pub entry_type: Option<S>,
    pub column_changes: L8,
    pub change: Option<S>,
    pub owner: Option<S>,
    pub ours_op: Option<S>,
    pub theirs_op: Option<S>,
    pub base_row: Option<L9>,
    pub ours_row: Option<L10>,
    pub theirs_row: Option<L11>,
    pub message: Option<S>,
}

pub type JsonConflictArtifactView = JsonConflictArtifact<Seq<char>, Seq<Seq<char>>, Map<Seq<char>, JsonValueView>, Map<Seq<char>, JsonValueView>, Map<Seq<char>, JsonValueView>, Seq<Seq<char>>, Seq<Seq<char>>, Seq<JsonCellConflictView>, Seq<JsonSchemaColumnChangeView>, Seq<JsonValueView>, Seq<JsonValueView>, Seq<JsonValueView>>;

impl View for JsonConflictArtifact<String, Vec<String>, KeyMap<JsonValue>, KeyMap<JsonValue>, KeyMap<JsonValue>, Vec<String>, Vec<String>, Vec<JsonCellConflict>, Vec<JsonSchemaColumnChange>, Vec<JsonValue>, Vec<JsonValue>, Vec<JsonValue>> {
    type V = JsonConflictArtifactView;

    open spec fn view(&self) -> JsonConflictArtifactView {
        JsonConflictArtifact {
            id: self.id@,
            path: self.path@,
            path_kind: self.path_kind@,
            storage: self.storage@,
            kind: self.kind@,
            reason: self.reason@,
            status: self.status@,
            resolution: text_option(self.resolution),
            auto_resolvable: self.auto_resolvable,
            recommended_result: text_option(self.recommended_result),
            recommended_action: text_option(self.recommended_action),
            table: text_option(self.table),
            columns: texts_option(self.columns),
            rowid: self.rowid,
            ours_rowid: self.ours_rowid,
            theirs_rowid: self.theirs_rowid,
            key: members_option(self.key),
            ours_key: members_option(self.ours_key),
            theirs_key: members_option(self.theirs_key),
            semantic_key: texts_option(self.semantic_key),
            semantic_key_collations: texts_option(self.semantic_key_collations),
            cells: views(self.cells@),
            name: text_option(self.name),
            entry_type: text_option(self.entry_type),
            column_changes: views(self.column_changes@),
            change: text_option(self.change),
            owner: text_option(self.owner),
            ours_op: text_option(self.ours_op),
            theirs_op: text_option(self.theirs_op),
            base_row: views_option(self.base_row),
            ours_row: views_option(self.ours_row),
            theirs_row: views_option(self.theirs_row),
            message: text_option(self.message),
        }
    }
}

/// A row in conflict.
#[derive(Debug, Clone)]
pub struct JsonRowMergeConflict<S = String, L1 = Vec<String>, L2 = KeyMap<JsonValue>, L3 = KeyMap<JsonValue>, L4 = KeyMap<JsonValue>, L5 = Vec<String>, L6 = Vec<String>, L7 = Vec<JsonCellConflict>, L8 = Vec<JsonValue>, L9 = Vec<JsonValue>, L10 = Vec<JsonValue>> {
    pub reason: S,
    pub table: S,
    pub columns: L1,
    pub rowid: Option<i64>,
    pub key: Option<L2>,
    pub ours_rowid: Option<i64>,
    pub theirs_rowid: Option<i64>,
    pub ours_key: Option<L3>,
    pub theirs_key: Option<L4>,
    pub semantic_key: Option<L5>,
    pub semantic_key_collations: Option<L6>,
    pub cells: L7,
    pub ours: S,
    pub theirs: S,
    pub base_row: Option<L8>,
    pub ours_row: Option<L9>,
    pub theirs_row: Option<L10>,
}

pub type JsonRowMergeConflictView = JsonRowMergeConflict<Seq<char>, Seq<Seq<char>>, Map<Seq<char>, JsonValueView>, Map<Seq<char>, JsonValueView>, Map<Seq<char>, JsonValueView>, Seq<Seq<char>>, Seq<Seq<char>>, Seq<JsonCellConflictView>, Seq<JsonValueView>, Seq<JsonValueView>, Seq<JsonValueView>>;

impl View for JsonRowMergeConflict<String, Vec<String>, KeyMap<JsonValue>, KeyMap<JsonValue>, KeyMap<JsonValue>, Vec<String>, Vec<String>, Vec<JsonCellConflict>, Vec<JsonValue>, Vec<JsonValue>, Vec<JsonValue>> {
    type V = JsonRowMergeConflictView;

    open spec fn view(&self) -> JsonRowMergeConflictView {
        JsonRowMergeConflict {
            reason: self.reason@,
            table: self.table@,
            columns: texts(self.columns@),
            rowid: self.rowid,
            key: members_option(self.key),
            ours_rowid: self.ours_rowid,
            theirs_rowid: self.theirs_rowid,
            ours_key: members_option(self.ours_key),
            theirs_key: members_option(self.theirs_key),
            semantic_key: texts_option(self.semantic_key),
            semantic_key_collations: texts_option(self.semantic_key_collations),
            cells: views(self.cells@),
            ours: self.ours@,
            theirs: self.theirs@,
            base_row: views_option(self.base_row),
            ours_row: views_option(self.ours_row),
            theirs_row: views_option(self.theirs_row),
        }
    }
}

/// An entry of the schema in conflict.
#[derive(Debug, Clone)]
pub struct JsonSchemaMergeConflict<S = String, L1 = Vec<JsonSchemaColumnChange>> {
    pub reason: S,
    pub name: S,
    pub entry_type: S,
    pub ours: Option<S>,
    pub theirs: Option<S>,
    pub column_changes: L1,
    pub message: S,
}

pub type JsonSchemaMergeConflictView = JsonSchemaMergeConflict<Seq<char>, Seq<JsonSchemaColumnChangeView>>;

impl View for JsonSchemaMergeConflict<String, Vec<JsonSchemaColumnChange>> {
    type V = JsonSchemaMergeConflictView;

    open spec fn view(&self) -> JsonSchemaMergeConflictView {
        JsonSchemaMergeConflict {
            reason: self.reason@,
            name: self.name@,
            entry_type: self.entry_type@,
            ours: text_option(self.ours),
            theirs: text_option(self.theirs),
            column_changes: views(self.column_changes@),
            message: self.message@,
        }
    }
}

/// The analysis of the merge of one database.
#[derive(Debug, Clone)]
pub struct JsonRowMergeAnalysis<S = String, L1 = Vec<JsonResolvedOpaqueChange>, L2 = Vec<JsonDiffLimitation>, L3 = Vec<String>, L4 = Vec<JsonRowMergeConflict>, L5 = Vec<JsonSchemaMergeConflict>, L6 = JsonRowMergeApplyPolicy> {
    pub path: S,
    pub available: bool,
    pub can_auto_merge: bool,
    pub ours_changes: usize,
    pub theirs_changes: usize,
    pub apply_changes: usize,
    pub opaque_changes: usize,
    pub resolved_opaque_changes: usize,
    pub resolved_opaque_change_details: L1,
    pub apply_policy: L6,
    pub limitations: L2,
    pub blocked_reasons: L3,
    pub row_conflicts: L4,
    pub schema_conflicts: L5,
    pub message: Option<S>,
}

pub type JsonRowMergeAnalysisView = JsonRowMergeAnalysis<Seq<char>, Seq<JsonResolvedOpaqueChangeView>, Seq<JsonDiffLimitationView>, Seq<Seq<char>>, Seq<JsonRowMergeConflictView>, Seq<JsonSchemaMergeConflictView>, JsonRowMergeApplyPolicyView>;

impl View for JsonRowMergeAnalysis<String, Vec<JsonResolvedOpaqueChange>, Vec<JsonDiffLimitation>, Vec<String>, Vec<JsonRowMergeConflict>, Vec<JsonSchemaMergeConflict>, JsonRowMergeApplyPolicy> {
    type V = JsonRowMergeAnalysisView;

    open spec fn view(&self) -> JsonRowMergeAnalysisView {
        JsonRowMergeAnalysis {
            path: self.path@,
            available: self.available,
            can_auto_merge: self.can_auto_merge,
            ours_changes: self.ours_changes,
            theirs_changes: self.theirs_changes,
            apply_changes: self.apply_changes,
            opaque_changes: self.opaque_changes,
            resolved_opaque_changes: self.resolved_opaque_changes,
            resolved_opaque_change_details: views(self.resolved_opaque_change_details@),
            apply_policy: self.apply_policy@,
            limitations: views(self.limitations@),
            blocked_reasons: texts(self.blocked_reasons@),
            row_conflicts: views(self.row_conflicts@),
            schema_conflicts: views(self.schema_conflicts@),
            message: text_option(self.message),
        }
    }
}

/// The conflicts of one path, counted.
#[derive(Debug, Clone, PartialEq, Eq)]
pub struct JsonConflictPath<S = String> {
    pub path: S,
    pub kind: S,
    pub storage: S,
    pub status: S,
    pub total: usize,
    pub unresolved: usize,
    pub resolved: usize,
}

pub type JsonConflictPathView = JsonConflictPath<Seq<char>>;

impl View for JsonConflictPath<String> {
    type V = JsonConflictPathView;

    open spec fn view(&self) -> JsonConflictPathView {
        JsonConflictPath {
            path: self.path@,
            kind: self.kind@,
            storage: self.storage@,
            status: self.status@,
            total: self.total,
            unresolved: self.unresolved,
            resolved: self.resolved,
        }
    }
}

/// The rowid of a row that has one.
pub open spec fn rowid_of(identity: RowIdentityView) -> Option<i64> {
    match identity {
        RowIdentity::Rowid(rowid) => Some(rowid),
        RowIdentity::PrimaryKey { .. } => None,
    }
}

/// The primary key of a row that is told by it.
pub open spec fn key_of(identity: RowIdentityView) -> Option<Map<Seq<char>, JsonValueView>> {
    match identity {
        RowIdentity::Rowid(_) => None,
        RowIdentity::PrimaryKey { parts } => Some(json_key(parts)),
    }
}

pub fn json_row_identity(identity: &RowIdentity) -> (r: (Option<i64>, Option<KeyMap<JsonValue>>))
    ensures
        r.0 == rowid_of(identity@),
        members_option(r.1) == key_of(identity@),
        r.1 matches Some(m) ==> m.wf(),
{
    match identity {
        RowIdentity::Rowid(rowid) => (Some(*rowid), None),
        RowIdentity::PrimaryKey { parts } => (None, Some(json_primary_key(parts))),
    }
}

fn json_rowid(identity: &RowIdentity) -> (r: Option<i64>)
    ensures
        r == rowid_of(identity@),
{
    json_row_identity(identity).0
}

fn json_key_object(identity: &RowIdentity) -> (r: Option<KeyMap<JsonValue>>)
    ensures
        members_option(r) == key_of(identity@),
{
    json_row_identity(identity).1
}

/// The values of a record, where there is one.
pub open spec fn record_json(record: Option<Seq<KeyValueView>>) -> Option<Seq<JsonValueView>> {
    match record {
        Some(row) => Some(row_json(row)),
        None => None,
    }
}

pub fn json_record_values_opt(record: &Option<Vec<KeyValue>>) -> (r: Option<Vec<JsonValue>>)
    ensures
        views_option(r) == record_json(views_option(*record)),
{
    match record {
        Some(row) => Some(json_row(row)),
        None => None,
    }
}

/// The names of collations, where there are any.
pub open spec fn collations_json(c: Option<Vec<SemanticKeyCollation>>) -> Option<Seq<Seq<char>>> {
    match c {
        Some(list) => Some(Seq::new(list@.len(), |i: int| collation_name(list@[i]))),
        None => None,
    }
}

pub fn json_semantic_key_collations(collations: &Option<Vec<SemanticKeyCollation>>) -> (r: Option<
    Vec<String>,
>)
    ensures
        texts_option(r) == collations_json(*collations),
{
    match collations {
        None => None,
        Some(list) => {
            let mut out: Vec<String> = Vec::new();
            let n: usize = list.len();
            let mut i: usize = 0;
            while i < n
                invariant
                    n == list@.len(),
                    i <= n,
                    out@.len() == i,
                    forall|k: int| 0 <= k < i ==> (#[trigger] out@[k])@ == collation_name(list@[k]),
                decreases n - i,
            {
                out.push(collation_label(list[i]).to_owned());
                i += 1;
            }
            proof {
                assert(texts(out@) =~= Seq::new(
                    list@.len(),
                    |i: int| collation_name(list@[i]),
                ));
            }
            Some(out)
        },
    }
}

fn copy_texts_option(v: &Option<Vec<String>>) -> (r: Option<Vec<String>>)
    ensures
        texts_option(r) == texts_option(*v),
{
    match v {
        Some(l) => Some(copy_texts(l)),
        None => None,
    }
}

pub open spec fn schema_change_name_option(k: Option<SchemaChangeKind>) -> Option<Seq<char>> {
    match k {
        Some(k) => Some(schema_change_name(k)),
        None => None,
    }
}

fn schema_change_label_option(k: Option<SchemaChangeKind>) -> (r: Option<String>)
    ensures
        text_option(r) == schema_change_name_option(k),
{
    match k {
        Some(k) => Some(schema_change_kind_label(k).to_owned()),
        None => None,
    }
}

pub open spec fn column_change_json(v: SchemaColumnChangeView) -> JsonSchemaColumnChangeView {
    JsonSchemaColumnChange {
        side: v.side,
        operation: v.operation,
        from: v.from,
        to: v.to,
    }
}

fn one_json_schema_column_changes(v: &SchemaColumnChange) -> (r: JsonSchemaColumnChange)
    ensures
        r@ == column_change_json(v@),
{
    JsonSchemaColumnChange {
        side: v.side.clone(),
        operation: v.operation.clone(),
        from: copy_option(&v.from),
        to: copy_option(&v.to),
    }
}

/// The column changes of a JSON answer.
pub open spec fn column_change_json_list(v: Seq<SchemaColumnChangeView>) -> Seq<JsonSchemaColumnChangeView> {
    Seq::new(v.len(), |i: int| column_change_json(v[i]))
}

pub fn json_schema_column_changes(list: &Vec<SchemaColumnChange>) -> (r: Vec<JsonSchemaColumnChange>)
    ensures
        views(r@) == column_change_json_list(views(list@)),
{
    let mut out: Vec<JsonSchemaColumnChange> = Vec::new();
    let n: usize = list.len();
    let mut i: usize = 0;
    while i < n
        invariant
            n == list@.len(),
            0 <= i <= n,
            out@.len() == i,
            forall|k: int| 0 <= k < i ==> #[trigger] out@[k]@ == column_change_json(list@[k]@),
        decreases n - i,
    {
        out.push(one_json_schema_column_changes(&list[i]));
        i += 1;
    }
    proof {
        assert(views(out@) =~= column_change_json_list(views(list@)));
    }
    out
}

pub open spec fn resolved_opaque_json(v: ResolvedOpaqueChangeView) -> JsonResolvedOpaqueChangeView {
    JsonResolvedOpaqueChange {
        name: v.name,
        reason: v.reason,
        resolver: v.resolver,
    }
}

fn one_json_resolved_opaque_changes(v: &ResolvedOpaqueChange) -> (r: JsonResolvedOpaqueChange)
    ensures
        r@ == resolved_opaque_json(v@),
{
    JsonResolvedOpaqueChange {
        name: v.name.clone(),
        reason: v.reason.clone(),
        resolver: v.resolver.clone(),
    }
}

/// The resolved changes of a JSON answer.
pub open spec fn resolved_opaque_json_list(v: Seq<ResolvedOpaqueChangeView>) -> Seq<JsonResolvedOpaqueChangeView> {
    Seq::new(v.len(), |i: int| resolved_opaque_json(v[i]))
}

pub fn json_resolved_opaque_changes(list: &Vec<ResolvedOpaqueChange>) -> (r: Vec<JsonResolvedOpaqueChange>)
    ensures
        views(r@) == resolved_opaque_json_list(views(list@)),
{
    let mut out: Vec<JsonResolvedOpaqueChange> = Vec::new();
    let n: usize = list.len();
    let mut i: usize = 0;
    while i < n
        invariant
            n == list@.len(),
            0 <= i <= n,
            out@.len() == i,
            forall|k: int| 0 <= k < i ==> #[trigger] out@[k]@ == resolved_opaque_json(list@[k]@),
        decreases n - i,
    {
        out.push(one_json_resolved_opaque_changes(&list[i]));
        i += 1;
    }
    proof {
        assert(views(out@) =~= resolved_opaque_json_list(views(list@)));
    }
    out
}

pub open spec fn cell_json(v: CellConflictView) -> JsonCellConflictView {
    JsonCellConflict {
        column: v.column,
        base: json_value(v.base),
        ours: json_value(v.ours),
        theirs: json_value(v.theirs),
        resolution: None,
    }
}

fn one_json_cell_conflicts(v: &CellConflict) -> (r: JsonCellConflict)
    ensures
        r@ == cell_json(v@),
{
    JsonCellConflict {
        column: v.column.clone(),
        base: JsonRowChange::value_to_json(&v.base),
        ours: JsonRowChange::value_to_json(&v.ours),
        theirs: JsonRowChange::value_to_json(&v.theirs),
        resolution: None,
    }
}

/// The cells of a JSON answer, without what they are resolved to.
pub open spec fn cell_json_list(v: Seq<CellConflictView>) -> Seq<JsonCellConflictView> {
    Seq::new(v.len(), |i: int| cell_json(v[i]))
}

pub fn json_cell_conflicts(list: &Vec<CellConflict>) -> (r: Vec<JsonCellConflict>)
    ensures
        views(r@) == cell_json_list(views(list@)),
{
    let mut out: Vec<JsonCellConflict> = Vec::new();
    let n: usize = list.len();
    let mut i: usize = 0;
    while i < n
        invariant
            n == list@.len(),
            0 <= i <= n,
            out@.len() == i,
            forall|k: int| 0 <= k < i ==> #[trigger] out@[k]@ == cell_json(list@[k]@),
        decreases n - i,
    {
        out.push(one_json_cell_conflicts(&list[i]));
        i += 1;
    }
    proof {
        assert(views(out@) =~= cell_json_list(views(list@)));
    }
    out
}

pub open spec fn row_conflict_json(v: RowConflictDetailView) -> JsonRowMergeConflictView {
    JsonRowMergeConflict {
        reason: v.reason,
        table: v.table,
        columns: v.columns,
        rowid: rowid_of(v.identity),
        key: key_of(v.identity),
        ours_rowid: rowid_of(v.ours_identity),
        theirs_rowid: rowid_of(v.theirs_identity),
        ours_key: key_of(v.ours_identity),
        theirs_key: key_of(v.theirs_identity),
        semantic_key: v.semantic_key,
        semantic_key_collations: collations_json(v.semantic_key_collations),
        cells: cell_json_list(v.cells),
        ours: row_change_name(v.ours),
        theirs: row_change_name(v.theirs),
        base_row: record_json(v.base_row),
        ours_row: record_json(v.ours_row),
        theirs_row: record_json(v.theirs_row),
    }
}

fn one_json_row_merge_conflicts(v: &RowConflictDetail) -> (r: JsonRowMergeConflict)
    ensures
        r@ == row_conflict_json(v@),
{
    JsonRowMergeConflict {
        reason: v.reason.clone(),
        table: v.table.clone(),
        columns: copy_texts(&v.columns),
        rowid: json_rowid(&v.identity),
        key: json_key_object(&v.identity),
        ours_rowid: json_rowid(&v.ours_identity),
        theirs_rowid: json_rowid(&v.theirs_identity),
        ours_key: json_key_object(&v.ours_identity),
        theirs_key: json_key_object(&v.theirs_identity),
        semantic_key: copy_texts_option(&v.semantic_key),
        semantic_key_collations: json_semantic_key_collations(&v.semantic_key_collations),
        cells: json_cell_conflicts(&v.cells),
        ours: row_change_kind_label(v.ours).to_owned(),
        theirs: row_change_kind_label(v.theirs).to_owned(),
        base_row: json_record_values_opt(&v.base_row),
        ours_row: json_record_values_opt(&v.ours_row),
        theirs_row: json_record_values_opt(&v.theirs_row),
    }
}

/// The rows in conflict of a JSON answer.
pub open spec fn row_conflict_json_list(v: Seq<RowConflictDetailView>) -> Seq<JsonRowMergeConflictView> {
    Seq::new(v.len(), |i: int| row_conflict_json(v[i]))
}

pub fn json_row_merge_conflicts(list: &Vec<RowConflictDetail>) -> (r: Vec<JsonRowMergeConflict>)
    ensures
        views(r@) == row_conflict_json_list(views(list@)),
{
    let mut out: Vec<JsonRowMergeConflict> = Vec::new();
    let n: usize = list.len();
    let mut i: usize = 0;
    while i < n
        invariant
            n == list@.len(),
            0 <= i <= n,
            out@.len() == i,
            forall|k: int| 0 <= k < i ==> #[trigger] out@[k]@ == row_conflict_json(list@[k]@),
        decreases n - i,
    {
        out.push(one_json_row_merge_conflicts(&list[i]));
        i += 1;
    }
    proof {
        assert(views(out@) =~= row_conflict_json_list(views(list@)));
    }
    out
}

pub open spec fn schema_conflict_json(v: SchemaConflictDetailView) -> JsonSchemaMergeConflictView {
    JsonSchemaMergeConflict {
        reason: v.reason,
        name: v.name,
        entry_type: v.entry_type,
        ours: schema_change_name_option(v.ours),
        theirs: schema_change_name_option(v.theirs),
        column_changes: column_change_json_list(v.column_changes),
        message: v.message,
    }
}

fn one_json_schema_merge_conflicts(v: &SchemaConflictDetail) -> (r: JsonSchemaMergeConflict)
    ensures
        r@ == schema_conflict_json(v@),
{
    JsonSchemaMergeConflict {
        reason: v.reason.clone(),
        name: v.name.clone(),
        entry_type: v.entry_type.clone(),
        ours: schema_change_label_option(v.ours),
        theirs: schema_change_label_option(v.theirs),
        column_changes: json_schema_column_changes(&v.column_changes),
        message: v.message.clone(),
    }
}

/// The schema conflicts of a JSON answer.
pub open spec fn schema_conflict_json_list(v: Seq<SchemaConflictDetailView>) -> Seq<JsonSchemaMergeConflictView> {
    Seq::new(v.len(), |i: int| schema_conflict_json(v[i]))
}

pub fn json_schema_merge_conflicts(list: &Vec<SchemaConflictDetail>) -> (r: Vec<JsonSchemaMergeConflict>)
    ensures
        views(r@) == schema_conflict_json_list(views(list@)),
{
    let mut out: Vec<JsonSchemaMergeConflict> = Vec::new();
    let n: usize = list.len();
    let mut i: usize = 0;
    while i < n
        invariant
            n == list@.len(),
            0 <= i <= n,
            out@.len() == i,
            forall|k: int| 0 <= k < i ==> #[trigger] out@[k]@ == schema_conflict_json(list@[k]@),
        decreases n - i,
    {
        out.push(one_json_schema_merge_conflicts(&list[i]));
        i += 1;
    }
    proof {
        assert(views(out@) =~= schema_conflict_json_list(views(list@)));
    }
    out
}

/// Why a merge is not made automatically.
pub open spec fn blocked(plan: RowMergePlanView) -> Seq<Seq<char>> {
    let none = Seq::<Seq<char>>::empty();
    let a = if plan.conflicts.len() > 0 {
        none.push("row_conflicts"@)
    } else {
        none
    };
    let b = if plan.schema_conflicts.len() > 0 {
        a.push("schema_conflicts"@)
    } else {
        a
    };
    let c = if plan.opaque_changes > 0 {
        b.push("opaque_changes"@)
    } else {
        b
    };
    let d = if plan.limitations.len() > 0 {
        c.push("analysis_limitations"@)
    } else {
        c
    };
    if plan.apply_changes == 0 && !plan.keeps_ours {
        d.push("no_applicable_changes"@)
    } else {
        d
    }
}

fn push_reason(out: &mut Vec<String>, reason: &str)
    ensures
        texts(final(out)@) == texts(old(out)@).push(reason@),
{
    let text = reason.to_owned();
    proof {
        lemma_texts_push(out@, text);
    }
    out.push(text);
}

fn blocked_reasons(plan: &RowMergePlan) -> (r: Vec<String>)
    ensures
        texts(r@) == blocked(plan@),
{
    let mut out = no_texts();
    if plan.conflicts.len() > 0 {
        push_reason(&mut out, "row_conflicts");
    }
    if plan.schema_conflicts.len() > 0 {
        push_reason(&mut out, "schema_conflicts");
    }
    if plan.opaque_changes > 0 {
        push_reason(&mut out, "opaque_changes");
    }
    if plan.limitations.len() > 0 {
        push_reason(&mut out, "analysis_limitations");
    }
    if plan.apply_changes == 0 && !plan.keeps_ours {
        push_reason(&mut out, "no_applicable_changes");
    }
    out
}

/// A merge is made automatically exactly where no row, no entry of the schema and no opaque change
/// is in conflict, the analysis covers everything, and there is something to apply or ours is the
/// result as it stands.
pub proof fn law_auto_merge_needs_all_clear(plan: RowMergePlanView)
    ensures
        blocked(plan).len() == 0 <==> {
            &&& plan.conflicts.len() == 0
            &&& plan.schema_conflicts.len() == 0
            &&& plan.opaque_changes == 0
            &&& plan.limitations.len() == 0
            &&& plan.apply_changes > 0 || plan.keeps_ours
        },
{
}

/// An analysis that could not be made.
pub open spec fn unavailable_analysis(
    path: Seq<char>,
    reason: Seq<char>,
    message: Seq<char>,
    default: JsonRowMergeApplyPolicyView,
) -> JsonRowMergeAnalysisView {
    JsonRowMergeAnalysis {
        path,
        available: false,
        can_auto_merge: false,
        ours_changes: 0,
        theirs_changes: 0,
        apply_changes: 0,
        opaque_changes: 0,
        resolved_opaque_changes: 0,
        resolved_opaque_change_details: Seq::empty(),
        apply_policy: default,
        limitations: Seq::empty(),
        blocked_reasons: seq![reason],
        row_conflicts: Seq::empty(),
        schema_conflicts: Seq::empty(),
        message: Some(message),
    }
}

/// The analysis of a merge as JSON.
pub open spec fn analysis_json(
    path: Seq<char>,
    plan: RowMergePlanView,
    policy: JsonRowMergeApplyPolicyView,
) -> JsonRowMergeAnalysisView {
    JsonRowMergeAnalysis {
        path,
        available: true,
        can_auto_merge: blocked(plan).len() == 0,
        ours_changes: plan.ours_changes,
        theirs_changes: plan.theirs_changes,
        apply_changes: plan.apply_changes,
        opaque_changes: plan.opaque_changes,
        resolved_opaque_changes: plan.resolved_opaque.len() as usize,
        resolved_opaque_change_details: resolved_opaque_json_list(plan.resolved_opaque),
        apply_policy: policy,
        limitations: limitation_json_list(plan.limitations),
        blocked_reasons: blocked(plan),
        row_conflicts: row_conflict_json_list(plan.conflicts),
        schema_conflicts: schema_conflict_json_list(plan.schema_conflicts),
        message: None,
    }
}

fn json_unavailable_analysis(path: &str, reason: &str, message: String, default: &RowMergePolicy) -> (r:
    JsonRowMergeAnalysis)
    requires
        default.wf(),
    ensures
        r@ == unavailable_analysis(path@, reason@, message@, apply_policy_json(*default)),
{
    let mut reasons = no_texts();
    push_reason(&mut reasons, reason);
    proof {
        assert(texts(reasons@) =~= seq![reason@]);
    }
    JsonRowMergeAnalysis {
        path: path.to_owned(),
        available: false,
        can_auto_merge: false,
        ours_changes: 0,
        theirs_changes: 0,
        apply_changes: 0,
        opaque_changes: 0,
        resolved_opaque_changes: 0,
        resolved_opaque_change_details: no_values(),
        apply_policy: row_merge_apply_policy(default),
        limitations: no_values(),
        blocked_reasons: reasons,
        row_conflicts: no_values(),
        schema_conflicts: no_values(),
        message: Some(message),
    }
}

fn json_analysis(path: &str, plan: &RowMergePlan, policy: &RowMergePolicy) -> (r: JsonRowMergeAnalysis)
    requires
        policy.wf(),
    ensures
        r@ == analysis_json(path@, plan@, apply_policy_json(*policy)),
{
    let reasons = blocked_reasons(plan);
    let clear: bool = reasons.len() == 0;
    JsonRowMergeAnalysis {
        path: path.to_owned(),
        available: true,
        can_auto_merge: clear,
        ours_changes: plan.ours_changes,
        theirs_changes: plan.theirs_changes,
        apply_changes: plan.apply_changes,
        opaque_changes: plan.opaque_changes,
        resolved_opaque_changes: plan.resolved_opaque.len(),
        resolved_opaque_change_details: json_resolved_opaque_changes(&plan.resolved_opaque),
        apply_policy: row_merge_apply_policy(policy),
        limitations: json_limitations(&plan.limitations),
        blocked_reasons: reasons,
        row_conflicts: json_row_merge_conflicts(&plan.conflicts),
        schema_conflicts: json_schema_merge_conflicts(&plan.schema_conflicts),
        message: None,
    }
}

/// What came of analysing a merge: a plan, or an error and its text.
#[derive(Debug, Clone, PartialEq, Eq)]
pub enum PlanResult<P = RowMergePlan, S = String> {
    Planned(P),
    Failed(S),
}

pub type PlanResultView = PlanResult<RowMergePlanView, Seq<char>>;

impl View for PlanResult<RowMergePlan, String> {
    type V = PlanResultView;

    open spec fn view(&self) -> PlanResultView {
        match self {
            PlanResult::Planned(plan) => PlanResult::Planned(plan@),
            PlanResult::Failed(e) => PlanResult::Failed(e@),
        }
    }
}

/// The analysis of the merge of a path as it is reported: none of a path that is not in conflict;
/// of one that a side added or deleted, only that. An error of the analysis is reported in its
/// place. A plan reports the policy that it was made under, everything else the default one.
pub open spec fn reported_analysis(
    key: Seq<char>,
    unmerged: bool,
    three_states: bool,
    result: PlanResultView,
    policy: JsonRowMergeApplyPolicyView,
    default: JsonRowMergeApplyPolicyView,
) -> Option<JsonRowMergeAnalysisView> {
    if !unmerged {
        None
    } else if !three_states {
        Some(
            unavailable_analysis(
                key,
                "add_delete_conflict"@,
                "merge involves add/delete of this tracked path"@,
                default,
            ),
        )
    } else {
        match result {
            PlanResult::Planned(plan) => Some(analysis_json(key, plan, policy)),
            PlanResult::Failed(e) => Some(
                unavailable_analysis(
                    key,
                    "analysis_error"@,
                    "row-level analysis unavailable: "@ + e,
                    default,
                ),
            ),
        }
    }
}

pub fn current_file_row_merge_analysis(
    key: &str,
    unmerged: bool,
    three_states: bool,
    result: &PlanResult,
    policy: &RowMergePolicy,
    default: &RowMergePolicy,
) -> (r: Option<JsonRowMergeAnalysis>)
    requires
        policy.wf(),
        default.wf(),
    ensures
        view_option(r) == reported_analysis(
            key@,
            unmerged,
            three_states,
            result@,
            apply_policy_json(*policy),
            apply_policy_json(*default),
        ),
{
    if !unmerged {
        None
    } else if !three_states {
        Some(
            json_unavailable_analysis(
                key,
                "add_delete_conflict",
                "merge involves add/delete of this tracked path".to_owned(),
                default,
            ),
        )
    } else {
        match result {
            PlanResult::Planned(plan) => Some(json_analysis(key, plan, policy)),
            PlanResult::Failed(e) => Some(
                json_unavailable_analysis(
                    key,
                    "analysis_error",
                    cat2("row-level analysis unavailable: ", e.as_str()),
                    default,
                ),
            ),
        }
    }
}

/// The analysis that is reported where not even the path could be told.
pub fn lost_row_merge_analysis(path: &Option<String>, error: &str, default: &RowMergePolicy) -> (r:
    JsonRowMergeAnalysis)
    requires
        default.wf(),
    ensures
        r@ == unavailable_analysis(
            match text_option(*path) {
                Some(p) => p,
                None => "db.sqlite3"@,
            },
            "analysis_error"@,
            "row-level analysis unavailable: "@ + error@,
            apply_policy_json(*default),
        ),
{
    let name = match path {
        Some(p) => p.as_str(),
        None => "db.sqlite3",
    };
    json_unavailable_analysis(
        name,
        "analysis_error",
        cat2("row-level analysis unavailable: ", error),
        default,
    )
}

/// A label of a resolution that is reported; any other is not.
pub open spec fn reported_label(label: Seq<char>) -> Option<Seq<char>> {
    if label == "ours"@ || label == "theirs"@ || label == "manual"@ || label == "edited"@ || label
        == "cells"@ {
        Some(label)
    } else {
        None
    }
}

fn merge_resolution_label(label: &str) -> (r: Option<String>)
    ensures
        text_option(r) == reported_label(label@),
{
    if same(label, "ours") || same(label, "theirs") || same(label, "manual") || same(label, "edited")
        || same(label, "cells") {
        Some(label.to_owned())
    } else {
        None
    }
}

/// A conflict that names nothing inside the file.
pub open spec fn file_artifact(
    key: Seq<char>,
    path_kind: Seq<char>,
    storage: Seq<char>,
    kind: Seq<char>,
    reason: Seq<char>,
    message: Seq<char>,
) -> JsonConflictArtifactView {
    JsonConflictArtifact {
        id: key + ":"@ + kind + ":"@ + reason,
        path: key,
        path_kind,
        storage,
        kind,
        reason,
        status: "unresolved"@,
        resolution: None,
        auto_resolvable: None,
        recommended_result: None,
        recommended_action: None,
        table: None,
        columns: None,
        rowid: None,
        ours_rowid: None,
        theirs_rowid: None,
        key: None,
        ours_key: None,
        theirs_key: None,
        semantic_key: None,
        semantic_key_collations: None,
        cells: Seq::empty(),
        name: None,
        entry_type: None,
        column_changes: Seq::empty(),
        change: None,
        owner: None,
        ours_op: None,
        theirs_op: None,
        base_row: None,
        ours_row: None,
        theirs_row: None,
        message: Some(message),
    }
}

pub fn file_conflict_artifact(
    key: &str,
    path_kind: &str,
    storage: &str,
    kind: &str,
    reason: &str,
    message: &str,
) -> (r: JsonConflictArtifact)
    ensures
        r@ == file_artifact(key@, path_kind@, storage@, kind@, reason@, message@),
{
    JsonConflictArtifact {
        id: cat5(key, ":", kind, ":", reason),
        path: key.to_owned(),
        path_kind: path_kind.to_owned(),
        storage: storage.to_owned(),
        kind: kind.to_owned(),
        reason: reason.to_owned(),
        status: "unresolved".to_owned(),
        resolution: None,
        auto_resolvable: None,
        recommended_result: None,
        recommended_action: None,
        table: None,
        columns: None,
        rowid: None,
        ours_rowid: None,
        theirs_rowid: None,
        key: None,
        ours_key: None,
        theirs_key: None,
        semantic_key: None,
        semantic_key_collations: None,
        cells: no_values(),
        name: None,
        entry_type: None,
        column_changes: no_values(),
        change: None,
        owner: None,
        ours_op: None,
        theirs_op: None,
        base_row: None,
        ours_row: None,
        theirs_row: None,
        message: Some(message.to_owned()),
    }
}

/// A conflict of a path that is resolved as a whole is resolved with it.
pub open spec fn with_resolution(a: JsonConflictArtifactView, resolution: Option<Seq<char>>) -> JsonConflictArtifactView {
    if resolution is Some {
        JsonConflictArtifact { status: "resolved"@, resolution, ..a }
    } else {
        a
    }
}

fn apply_path_resolution(artifact: &mut JsonConflictArtifact, resolution: &Option<String>)
    ensures
        final(artifact)@ == with_resolution(old(artifact)@, text_option(*resolution)),
{
    if let Some(label) = resolution {
        artifact.status = "resolved".to_owned();
        artifact.resolution = Some(label.clone());
    }
}

pub open spec fn status_name(resolved: bool) -> Seq<char> {
    if resolved {
        "resolved"@
    } else {
        "unresolved"@
    }
}

/// What a cell is resolved to.
pub open spec fn cell_resolution(
    cells: Map<Seq<char>, Seq<char>>,
    key: Seq<char>,
    c: RowConflictDetailView,
    column: Seq<char>,
) -> Option<Seq<char>> {
    let k = cell_key(key, c.table, c.identity, column);
    if cells.contains_key(k) {
        reported_label(cells[k])
    } else {
        None
    }
}

/// The cells of a conflict, with what they are resolved to.
pub open spec fn resolved_cells(
    cells: Map<Seq<char>, Seq<char>>,
    key: Seq<char>,
    c: RowConflictDetailView,
) -> Seq<JsonCellConflictView> {
    Seq::new(
        c.cells.len(),
        |i: int|
            JsonCellConflict {
                resolution: cell_resolution(cells, key, c, c.cells[i].column),
                ..cell_json(c.cells[i])
            },
    )
}

/// The side that was selected for a row.
pub open spec fn row_choice(
    rows: Map<Seq<char>, Seq<char>>,
    key: Seq<char>,
    c: RowConflictDetailView,
) -> Option<Seq<char>> {
    let k = row_key(key, c.table, c.identity);
    if rows.contains_key(k) && (rows[k] == "ours"@ || rows[k] == "theirs"@) {
        Some(rows[k])
    } else {
        None
    }
}

/// What a row is resolved to: with its path, by its own selection, or by the selections of all of
/// its cells.
pub open spec fn row_resolution(
    path_resolution: Option<Seq<char>>,
    rows: Map<Seq<char>, Seq<char>>,
    cells: Map<Seq<char>, Seq<char>>,
    key: Seq<char>,
    c: RowConflictDetailView,
) -> Option<Seq<char>> {
    if path_resolution is Some {
        path_resolution
    } else if row_choice(rows, key, c) is Some {
        row_choice(rows, key, c)
    } else if c.cells.len() > 0 && forall|i: int|
        0 <= i < c.cells.len() ==> (#[trigger] resolved_cells(cells, key, c)[i]).resolution is Some {
        Some("cells"@)
    } else {
        None
    }
}

/// The conflict of a row.
pub open spec fn row_artifact(
    key: Seq<char>,
    storage: Seq<char>,
    path_resolution: Option<Seq<char>>,
    rows: Map<Seq<char>, Seq<char>>,
    cells: Map<Seq<char>, Seq<char>>,
    c: RowConflictDetailView,
) -> JsonConflictArtifactView {
    let resolution = row_resolution(path_resolution, rows, cells, key, c);
    JsonConflictArtifact {
        id: key + ":row:"@ + c.table + ":"@ + identity_label(c.identity),
        path: key,
        path_kind: "sqlite_database"@,
        storage,
        kind: "row"@,
        reason: c.reason,
        status: status_name(resolution is Some),
        resolution,
        auto_resolvable: None,
        recommended_result: None,
        recommended_action: None,
        table: Some(c.table),
        columns: if c.columns.len() > 0 {
            Some(c.columns)
        } else {
            None
        },
        rowid: rowid_of(c.identity),
        ours_rowid: rowid_of(c.ours_identity),
        theirs_rowid: rowid_of(c.theirs_identity),
        key: key_of(c.identity),
        ours_key: key_of(c.ours_identity),
        theirs_key: key_of(c.theirs_identity),
        semantic_key: c.semantic_key,
        semantic_key_collations: collations_json(c.semantic_key_collations),
        cells: resolved_cells(cells, key, c),
        name: None,
        entry_type: None,
        column_changes: Seq::empty(),
        change: None,
        owner: None,
        ours_op: Some(row_change_name(c.ours)),
        theirs_op: Some(row_change_name(c.theirs)),
        base_row: record_json(c.base_row),
        ours_row: record_json(c.ours_row),
        theirs_row: record_json(c.theirs_row),
        message: None,
    }
}

/// The conflict of an entry of the schema.
pub open spec fn schema_artifact(
    key: Seq<char>,
    storage: Seq<char>,
    path_resolution: Option<Seq<char>>,
    c: SchemaConflictDetailView,
) -> JsonConflictArtifactView {
    with_resolution(
        JsonConflictArtifact {
            id: key + ":schema:"@ + c.entry_type + ":"@ + c.name,
            name: Some(c.name),
            entry_type: Some(c.entry_type),
            column_changes: column_change_json_list(c.column_changes),
            ours_op: schema_change_name_option(c.ours),
            theirs_op: schema_change_name_option(c.theirs),
            ..file_artifact(key, "sqlite_database"@, storage, "schema"@, c.reason, c.message)
        },
        path_resolution,
    )
}

/// The conflict of an opaque change.
pub open spec fn opaque_artifact(
    key: Seq<char>,
    storage: Seq<char>,
    path_resolution: Option<Seq<char>>,
    c: OpaqueConflictView,
) -> JsonConflictArtifactView {
    with_resolution(
        JsonConflictArtifact {
            id: key + ":opaque:"@ + c.reason_name + ":"@ + c.name,
            name: Some(c.name),
            change: Some(c.change),
            owner: c.owner,
            ..file_artifact(
                key,
                "sqlite_database"@,
                storage,
                "opaque"@,
                c.reason_name,
                opaque_message(c.reason),
            )
        },
        path_resolution,
    )
}

/// A row whose managed columns must be computed again.
pub open spec fn pending_artifact(
    key: Seq<char>,
    path_kind: Seq<char>,
    storage: Seq<char>,
    path_resolution: Option<Seq<char>>,
    p: PendingRecomputationView,
) -> JsonConflictArtifactView {
    with_resolution(
        JsonConflictArtifact {
            id: key + ":validation:"@ + p.table + ":"@ + identity_label(p.identity),
            table: Some(p.table),
            columns: Some(p.columns),
            rowid: rowid_of(p.identity),
            key: key_of(p.identity),
            recommended_action: Some("stage_worktree_result"@),
            ..file_artifact(
                key,
                path_kind,
                storage,
                "validation"@,
                "recompute_required"@,
                "the merge candidate is materialized but these managed columns must be recomputed and the worktree SQLite result staged explicitly"@,
            )
        },
        path_resolution,
    )
}

fn row_conflict_cells(
    key: &str,
    c: &RowConflictDetail,
    state: &RowConflictResolutionState,
) -> (r: (Vec<JsonCellConflict>, bool))
    requires
        state.wf(),
    ensures
        views(r.0@) == resolved_cells(state.cell_labels(), key@, c@),
        r.1 == forall|i: int|
            0 <= i < c@.cells.len() ==> (#[trigger] resolved_cells(
                state.cell_labels(),
                key@,
                c@,
            )[i]).resolution is Some,
{
    let ghost want = resolved_cells(state.cell_labels(), key@, c@);
    let mut out: Vec<JsonCellConflict> = Vec::new();
    let mut all = true;
    let n: usize = c.cells.len();
    let mut i: usize = 0;
    while i < n
        invariant
            n == c.cells@.len(),
            i <= n,
            state.wf(),
            want == resolved_cells(state.cell_labels(), key@, c@),
            out@.len() == i,
            forall|k: int| 0 <= k < i ==> (#[trigger] out@[k])@ == want[k],
            all == forall|k: int| 0 <= k < i ==> (#[trigger] want[k]).resolution is Some,
        decreases n - i,
    {
        let cell = &c.cells[i];
        let k = cell_conflict_resolution_key(
            key,
            c.table.as_str(),
            &c.identity,
            cell.column.as_str(),
        );
        let resolution = match state.cells.get(k.as_str()) {
            Some(label) => merge_resolution_label(label.as_str()),
            None => None,
        };
        if resolution.is_none() {
            all = false;
        }
        let shown = one_json_cell_conflicts(cell);
        out.push(
            JsonCellConflict {
                column: shown.column,
                base: shown.base,
                ours: shown.ours,
                theirs: shown.theirs,
                resolution,
            },
        );
        proof {
            assert(c@.cells[i as int] == c.cells@[i as int]@);
            assert(out@[i as int]@ == want[i as int]);
        }
        i += 1;
    }
    proof {
        assert(views(out@) =~= want);
    }
    (out, all)
}

/// `all_resolved` tells that every cell of the row is resolved.
fn resolution_of_row(
    key: &str,
    path_resolution: &Option<String>,
    state: &RowConflictResolutionState,
    c: &RowConflictDetail,
    all_resolved: bool,
) -> (r: Option<String>)
    requires
        state.wf(),
        all_resolved == forall|i: int|
            0 <= i < c@.cells.len() ==> (#[trigger] resolved_cells(
                state.cell_labels(),
                key@,
                c@,
            )[i]).resolution is Some,
    ensures
        text_option(r) == row_resolution(
            text_option(*path_resolution),
            state.row_labels(),
            state.cell_labels(),
            key@,
            c@,
        ),
{
    let own = match path_resolution {
        Some(label) => Some(label.clone()),
        None => {
            let k = row_conflict_resolution_key(key, c.table.as_str(), &c.identity);
            match state.rows.get(k.as_str()) {
                Some(label) => {
                    if same(label.as_str(), "ours") || same(label.as_str(), "theirs") {
                        Some(label.clone())
                    } else {
                        None
                    }
                },
                None => None,
            }
        },
    };
    match own {
        Some(label) => Some(label),
        None => {
            if c.cells.len() > 0 && all_resolved {
                Some("cells".to_owned())
            } else {
                None
            }
        },
    }
}

fn row_conflict_artifact(
    key: &str,
    storage: &str,
    path_resolution: &Option<String>,
    state: &RowConflictResolutionState,
    c: &RowConflictDetail,
) -> (r: JsonConflictArtifact)
    requires
        state.wf(),
    ensures
        r@ == row_artifact(
            key@,
            storage@,
            text_option(*path_resolution),
            state.row_labels(),
            state.cell_labels(),
            c@,
        ),
{
    let (cells, all_resolved) = row_conflict_cells(key, c, state);
    let resolution = resolution_of_row(key, path_resolution, state, c, all_resolved);
    let status = if resolution.is_some() {
        "resolved"
    } else {
        "unresolved"
    };
    let columns = if c.columns.len() > 0 {
        Some(copy_texts(&c.columns))
    } else {
        None
    };
    let label = row_identity_label(&c.identity);
    JsonConflictArtifact {
        id: cat5(key, ":row:", c.table.as_str(), ":", label.as_str()),
        path: key.to_owned(),
        path_kind: "sqlite_database".to_owned(),
        storage: storage.to_owned(),
        kind: "row".to_owned(),
        reason: c.reason.clone(),
        status: status.to_owned(),
        resolution,
        auto_resolvable: None,
        recommended_result: None,
        recommended_action: None,
        table: Some(c.table.clone()),
        columns,
        rowid: json_rowid(&c.identity),
        ours_rowid: json_rowid(&c.ours_identity),
        theirs_rowid: json_rowid(&c.theirs_identity),
        key: json_key_object(&c.identity),
        ours_key: json_key_object(&c.ours_identity),
        theirs_key: json_key_object(&c.theirs_identity),
        semantic_key: copy_texts_option(&c.semantic_key),
        semantic_key_collations: json_semantic_key_collations(&c.semantic_key_collations),
        cells,
        name: None,
        entry_type: None,
        column_changes: no_values(),
        change: None,
        owner: None,
        ours_op: Some(row_change_kind_label(c.ours).to_owned()),
        theirs_op: Some(row_change_kind_label(c.theirs).to_owned()),
        base_row: json_record_values_opt(&c.base_row),
        ours_row: json_record_values_opt(&c.ours_row),
        theirs_row: json_record_values_opt(&c.theirs_row),
        message: None,
    }
}

fn schema_conflict_artifact(
    key: &str,
    storage: &str,
    path_resolution: &Option<String>,
    c: &SchemaConflictDetail,
) -> (r: JsonConflictArtifact)
    ensures
        r@ == schema_artifact(key@, storage@, text_option(*path_resolution), c@),
{
    let mut a = file_conflict_artifact(
        key,
        "sqlite_database",
        storage,
        "schema",
        c.reason.as_str(),
        c.message.as_str(),
    );
    a.id = cat5(key, ":schema:", c.entry_type.as_str(), ":", c.name.as_str());
    a.name = Some(c.name.clone());
    a.entry_type = Some(c.entry_type.clone());
    a.column_changes = json_schema_column_changes(&c.column_changes);
    a.ours_op = schema_change_label_option(c.ours);
    a.theirs_op = schema_change_label_option(c.theirs);
    apply_path_resolution(&mut a, path_resolution);
    a
}

fn opaque_conflict_artifact(
    key: &str,
    storage: &str,
    path_resolution: &Option<String>,
    c: &OpaqueConflict,
) -> (r: JsonConflictArtifact)
    ensures
        r@ == opaque_artifact(key@, storage@, text_option(*path_resolution), c@),
{
    let mut a = file_conflict_artifact(
        key,
        "sqlite_database",
        storage,
        "opaque",
        c.reason_name.as_str(),
        opaque_conflict_message(c.reason),
    );
    a.id = cat5(key, ":opaque:", c.reason_name.as_str(), ":", c.name.as_str());
    a.name = Some(c.name.clone());
    a.change = Some(c.change.clone());
    a.owner = copy_option(&c.owner);
    apply_path_resolution(&mut a, path_resolution);
    a
}

fn pending_recomputation_artifact(
    key: &str,
    path_kind: &str,
    storage: &str,
    path_resolution: &Option<String>,
    p: &PendingRecomputation,
) -> (r: JsonConflictArtifact)
    ensures
        r@ == pending_artifact(key@, path_kind@, storage@, text_option(*path_resolution), p@),
{
    let mut a = file_conflict_artifact(
        key,
        path_kind,
        storage,
        "validation",
        "recompute_required",
        "the merge candidate is materialized but these managed columns must be recomputed and the worktree SQLite result staged explicitly",
    );
    let label = row_identity_label(&p.identity);
    a.id = cat5(key, ":validation:", p.table.as_str(), ":", label.as_str());
    a.table = Some(p.table.clone());
    a.columns = Some(copy_texts(&p.columns));
    a.rowid = json_rowid(&p.identity);
    a.key = json_key_object(&p.identity);
    a.recommended_action = Some("stage_worktree_result".to_owned());
    apply_path_resolution(&mut a, path_resolution);
    a
}

/// What the conflicts of a path are told by.
pub struct ConflictContext {
    pub key: Seq<char>,
    pub path_kind: Seq<char>,
    pub storage: Seq<char>,
    pub path_resolution: Option<Seq<char>>,
    pub unmerged: bool,
    pub rows: Map<Seq<char>, Seq<char>>,
    pub cells: Map<Seq<char>, Seq<char>>,
}

/// The conflicts of rows, of the schema, of opaque changes and of validations, in this order.
pub open spec fn inner_artifacts(x: ConflictContext, plan: RowMergePlanView) -> Seq<JsonConflictArtifactView> {
    Seq::new(
        plan.conflicts.len(),
        |i: int|
            row_artifact(x.key, x.storage, x.path_resolution, x.rows, x.cells, plan.conflicts[i]),
    ) + Seq::new(
        plan.schema_conflicts.len(),
        |i: int| schema_artifact(x.key, x.storage, x.path_resolution, plan.schema_conflicts[i]),
    ) + Seq::new(
        plan.unresolved_opaque.len(),
        |i: int| opaque_artifact(x.key, x.storage, x.path_resolution, plan.unresolved_opaque[i]),
    ) + Seq::new(
        plan.pending.len(),
        |i: int|
            pending_artifact(x.key, x.path_kind, x.storage, x.path_resolution, plan.pending[i]),
    )
}

/// A conflict of the whole file.
pub open spec fn whole_artifact(x: ConflictContext, reason: Seq<char>, message: Seq<char>) -> JsonConflictArtifactView {
    file_artifact(x.key, x.path_kind, x.storage, "file"@, reason, message)
}

/// What is reported of a path whose merge has no conflict inside the file: that ours is the result,
/// that the merge can be applied, or that nothing can be.
pub open spec fn outer_artifacts(x: ConflictContext, plan: RowMergePlanView) -> Seq<JsonConflictArtifactView> {
    if plan.keeps_ours {
        if x.unmerged || x.path_resolution is Some {
            let a = if plan.theirs_unchanged {
                whole_artifact(
                    x,
                    "theirs_logically_equivalent_to_base"@,
                    "theirs has no supported logical SQLite changes relative to base; keeping ours preserves the complete supported merge result"@,
                )
            } else {
                whole_artifact(
                    x,
                    "merge_result_matches_ours"@,
                    "all supported changes from theirs are already represented by ours; no SQLite changes need to be applied"@,
                )
            };
            seq![
                with_resolution(
                    JsonConflictArtifact {
                        auto_resolvable: Some(true),
                        recommended_result: Some("ours"@),
                        recommended_action: Some("apply_merge"@),
                        ..a
                    },
                    x.path_resolution,
                ),
            ]
        } else {
            Seq::empty()
        }
    } else if plan.apply_changes > 0 && x.unmerged {
        seq![
            JsonConflictArtifact {
                auto_resolvable: Some(true),
                recommended_result: Some("merged"@),
                recommended_action: Some("apply_merge"@),
                ..whole_artifact(
                    x,
                    "automatic_merge_available"@,
                    "a validated SQLite candidate can be materialized by applyMerge or continueMerge"@,
                )
            },
        ]
    } else {
        seq![
            with_resolution(
                whole_artifact(
                    x,
                    "no_applicable_changes"@,
                    "no row or schema conflict details were produced"@,
                ),
                x.path_resolution,
            ),
        ]
    }
}

/// The conflicts that an analysis tells of.
pub open spec fn planned_artifacts(x: ConflictContext, plan: RowMergePlanView) -> Seq<JsonConflictArtifactView> {
    let inner = inner_artifacts(x, plan);
    if inner.len() > 0 {
        inner
    } else {
        outer_artifacts(x, plan)
    }
}

/// The conflicts of a path.
pub open spec fn path_artifacts(
    x: ConflictContext,
    analysis_error: Option<Seq<char>>,
    three_states: bool,
    result: PlanResultView,
) -> Seq<JsonConflictArtifactView> {
    if x.unmerged && analysis_error is Some {
        seq![
            JsonConflictArtifact {
                auto_resolvable: Some(false),
                recommended_action: Some("inspect_candidate_constraints"@),
                ..file_artifact(
                    x.key,
                    x.path_kind,
                    x.storage,
                    "validation"@,
                    "candidate_validation_failed"@,
                    analysis_error->0,
                )
            },
        ]
    } else if !three_states {
        seq![
            with_resolution(
                whole_artifact(
                    x,
                    "add_delete_conflict"@,
                    "merge involves add/delete of this tracked path"@,
                ),
                x.path_resolution,
            ),
        ]
    } else {
        match result {
            PlanResult::Planned(plan) => planned_artifacts(x, plan),
            PlanResult::Failed(e) => seq![
                with_resolution(
                    whole_artifact(
                        x,
                        "analysis_error"@,
                        "row-level conflict analysis unavailable: "@ + e,
                    ),
                    x.path_resolution,
                ),
            ],
        }
    }
}

/// The resolution of a path as a whole.
pub open spec fn path_resolution_of(state: RowConflictResolutionState, key: Seq<char>) -> Option<Seq<char>> {
    if state.paths@.contains_key(key) {
        match text_option(state.paths@[key].resolution) {
            Some(label) => reported_label(label),
            None => None,
        }
    } else {
        None
    }
}

fn path_resolution(state: &RowConflictResolutionState, key: &str) -> (r: Option<String>)
    requires
        state.wf(),
    ensures
        text_option(r) == path_resolution_of(*state, key@),
{
    match state.paths.get(key) {
        Some(path) => match &path.resolution {
            Some(label) => merge_resolution_label(label.as_str()),
            None => None,
        },
        None => None,
    }
}

/// The entries of a path that were in conflict when the merge began: those that are on record, or
/// those of the index.
pub open spec fn original_entries_of(
    state: RowConflictResolutionState,
    from_index: Vec<IndexEntry>,
    key: Seq<char>,
) -> Vec<IndexEntry> {
    if state.paths@.contains_key(key) {
        state.paths@[key].original_entries
    } else {
        from_index
    }
}

pub fn original_conflict_entries<'a>(
    state: &'a RowConflictResolutionState,
    from_index: &'a Vec<IndexEntry>,
    key: &str,
) -> (r: &'a Vec<IndexEntry>)
    requires
        state.wf(),
    ensures
        *r == original_entries_of(*state, *from_index, key@),
{
    match state.paths.get(key) {
        Some(path) => &path.original_entries,
        None => from_index,
    }
}

/// The context of the conflicts of a path.
pub open spec fn context_of(
    state: RowConflictResolutionState,
    entries: Seq<IndexEntryView>,
    key: Seq<char>,
    unmerged: bool,
) -> ConflictContext {
    ConflictContext {
        key,
        path_kind: kind_json(entries_descriptor(entries, 0).0),
        storage: storage_json(entries_descriptor(entries, 0).1),
        path_resolution: path_resolution_of(state, key),
        unmerged,
        rows: state.row_labels(),
        cells: state.cell_labels(),
    }
}

/// Why the merge of a path could not be made, as it is on record.
pub open spec fn recorded_error(state: RowConflictResolutionState, key: Seq<char>) -> Option<Seq<char>> {
    if state.analysis_errors@.contains_key(key) {
        Some(state.analysis_errors@[key]@)
    } else {
        None
    }
}

fn add_row_artifacts(
    out: &mut Vec<JsonConflictArtifact>,
    key: &str,
    path_kind: &str,
    storage: &str,
    resolution: &Option<String>,
    state: &RowConflictResolutionState,
    plan: &RowMergePlan,
    x: Ghost<ConflictContext>,
)
    requires
        state.wf(),
        x@.key == key@,
        x@.path_kind == path_kind@,
        x@.storage == storage@,
        x@.path_resolution == text_option(*resolution),
        x@.rows == state.row_labels(),
        x@.cells == state.cell_labels(),
    ensures
        views(final(out)@) == views(old(out)@) + Seq::new(
            plan@.conflicts.len(),
            |i: int| row_artifact(
                x.key,
                x.storage,
                x.path_resolution,
                x.rows,
                x.cells,
                plan@.conflicts[i],
            ),
        ),
{
    let ghost x = x@;
    let ghost was = views(out@);
    let n: usize = plan.conflicts.len();
    let mut i: usize = 0;
    proof {
        assert(was =~= was + Seq::new(0, |i: int| row_artifact(x.key, x.storage, x.path_resolution, x.rows, x.cells, plan@.conflicts[i])));
    }
    while i < n
        invariant
            state.wf(),
            x.key == key@,
            x.path_kind == path_kind@,
            x.storage == storage@,
            x.path_resolution == text_option(*resolution),
            x.rows == state.row_labels(),
            x.cells == state.cell_labels(),
            n == plan.conflicts@.len(),
            i <= n,
            views(out@) == was + Seq::new(i as nat, |i: int| row_artifact(x.key, x.storage, x.path_resolution, x.rows, x.cells, plan@.conflicts[i])),
        decreases n - i,
    {
        let a = row_conflict_artifact(key, storage, resolution, state, &plan.conflicts[i]);
        proof {
            assert(plan@.conflicts[i as int] == plan.conflicts@[i as int]@);
            assert(views(out@.push(a)) =~= views(out@).push(a@));
            assert(views(out@.push(a)) =~= was + Seq::new((i + 1) as nat, |i: int| row_artifact(x.key, x.storage, x.path_resolution, x.rows, x.cells, plan@.conflicts[i])));
        }
        out.push(a);
        i += 1;
    }
}

fn add_schema_artifacts(
    out: &mut Vec<JsonConflictArtifact>,
    key: &str,
    path_kind: &str,
    storage: &str,
    resolution: &Option<String>,
    state: &RowConflictResolutionState,
    plan: &RowMergePlan,
    x: Ghost<ConflictContext>,
)
    requires
        state.wf(),
        x@.key == key@,
        x@.path_kind == path_kind@,
        x@.storage == storage@,
        x@.path_resolution == text_option(*resolution),
        x@.rows == state.row_labels(),
        x@.cells == state.cell_labels(),
    ensures
        views(final(out)@) == views(old(out)@) + Seq::new(
            plan@.schema_conflicts.len(),
            |i: int| schema_artifact(
                x.key,
                x.storage,
                x.path_resolution,
                plan@.schema_conflicts[i],
            ),
        ),
{
    let ghost x = x@;
    let ghost was = views(out@);
    let n: usize = plan.schema_conflicts.len();
    let mut i: usize = 0;
    proof {
        assert(was =~= was + Seq::new(0, |i: int| schema_artifact(x.key, x.storage, x.path_resolution, plan@.schema_conflicts[i])));
    }
    while i < n
        invariant
            state.wf(),
            x.key == key@,
            x.path_kind == path_kind@,
            x.storage == storage@,
            x.path_resolution == text_option(*resolution),
            x.rows == state.row_labels(),
            x.cells == state.cell_labels(),
            n == plan.schema_conflicts@.len(),
            i <= n,
            views(out@) == was + Seq::new(i as nat, |i: int| schema_artifact(x.key, x.storage, x.path_resolution, plan@.schema_conflicts[i])),
        decreases n - i,
    {
        let a = schema_conflict_artifact(key, storage, resolution, &plan.schema_conflicts[i]);
        proof {
            assert(plan@.schema_conflicts[i as int] == plan.schema_conflicts@[i as int]@);
            assert(views(out@.push(a)) =~= views(out@).push(a@));
            assert(views(out@.push(a)) =~= was + Seq::new((i + 1) as nat, |i: int| schema_artifact(x.key, x.storage, x.path_resolution, plan@.schema_conflicts[i])));
        }
        out.push(a);
        i += 1;
    }
}

fn add_opaque_artifacts(
    out: &mut Vec<JsonConflictArtifact>,
    key: &str,
    path_kind: &str,
    storage: &str,
    resolution: &Option<String>,
    state: &RowConflictResolutionState,
    plan: &RowMergePlan,
    x: Ghost<ConflictContext>,
)
    requires
        state.wf(),
        x@.key == key@,
        x@.path_kind == path_kind@,
        x@.storage == storage@,
        x@.path_resolution == text_option(*resolution),
        x@.rows == state.row_labels(),
        x@.cells == state.cell_labels(),
    ensures
        views(final(out)@) == views(old(out)@) + Seq::new(
            plan@.unresolved_opaque.len(),
            |i: int| opaque_artifact(
                x.key,
                x.storage,
                x.path_resolution,
                plan@.unresolved_opaque[i],
            ),
        ),
{
    let ghost x = x@;
    let ghost was = views(out@);
    let n: usize = plan.unresolved_opaque.len();
    let mut i: usize = 0;
    proof {
        assert(was =~= was + Seq::new(0, |i: int| opaque_artifact(x.key, x.storage, x.path_resolution, plan@.unresolved_opaque[i])));
    }
    while i < n
        invariant
            state.wf(),
            x.key == key@,
            x.path_kind == path_kind@,
            x.storage == storage@,
            x.path_resolution == text_option(*resolution),
            x.rows == state.row_labels(),
            x.cells == state.cell_labels(),
            n == plan.unresolved_opaque@.len(),
            i <= n,
            views(out@) == was + Seq::new(i as nat, |i: int| opaque_artifact(x.key, x.storage, x.path_resolution, plan@.unresolved_opaque[i])),
        decreases n - i,
    {
        let a = opaque_conflict_artifact(key, storage, resolution, &plan.unresolved_opaque[i]);
        proof {
            assert(plan@.unresolved_opaque[i as int] == plan.unresolved_opaque@[i as int]@);
            assert(views(out@.push(a)) =~= views(out@).push(a@));
            assert(views(out@.push(a)) =~= was + Seq::new((i + 1) as nat, |i: int| opaque_artifact(x.key, x.storage, x.path_resolution, plan@.unresolved_opaque[i])));
        }
        out.push(a);
        i += 1;
    }
}

fn add_pending_artifacts(
    out: &mut Vec<JsonConflictArtifact>,
    key: &str,
    path_kind: &str,
    storage: &str,
    resolution: &Option<String>,
    state: &RowConflictResolutionState,
    plan: &RowMergePlan,
    x: Ghost<ConflictContext>,
)
    requires
        state.wf(),
        x@.key == key@,
        x@.path_kind == path_kind@,
        x@.storage == storage@,
        x@.path_resolution == text_option(*resolution),
        x@.rows == state.row_labels(),
        x@.cells == state.cell_labels(),
    ensures
        views(final(out)@) == views(old(out)@) + Seq::new(
            plan@.pending.len(),
            |i: int| pending_artifact(
                x.key,
                x.path_kind,
                x.storage,
                x.path_resolution,
                plan@.pending[i],
            ),
        ),
{
    let ghost x = x@;
    let ghost was = views(out@);
    let n: usize = plan.pending.len();
    let mut i: usize = 0;
    proof {
        assert(was =~= was + Seq::new(0, |i: int| pending_artifact(x.key, x.path_kind, x.storage, x.path_resolution, plan@.pending[i])));
    }
    while i < n
        invariant
            state.wf(),
            x.key == key@,
            x.path_kind == path_kind@,
            x.storage == storage@,
            x.path_resolution == text_option(*resolution),
            x.rows == state.row_labels(),
            x.cells == state.cell_labels(),
            n == plan.pending@.len(),
            i <= n,
            views(out@) == was + Seq::new(i as nat, |i: int| pending_artifact(x.key, x.path_kind, x.storage, x.path_resolution, plan@.pending[i])),
        decreases n - i,
    {
        let a = pending_recomputation_artifact(
            key,
            path_kind,
            storage,
            resolution,
            &plan.pending[i],
        );
        proof {
            assert(plan@.pending[i as int] == plan.pending@[i as int]@);
            assert(views(out@.push(a)) =~= views(out@).push(a@));
            assert(views(out@.push(a)) =~= was + Seq::new((i + 1) as nat, |i: int| pending_artifact(x.key, x.path_kind, x.storage, x.path_resolution, plan@.pending[i])));
        }
        out.push(a);
        i += 1;
    }
}

fn outer_conflict_artifacts(
    key: &str,
    path_kind: &str,
    storage: &str,
    resolution: &Option<String>,
    unmerged: bool,
    plan: &RowMergePlan,
    x: Ghost<ConflictContext>,
) -> (r: Vec<JsonConflictArtifact>)
    requires
        x@.key == key@,
        x@.path_kind == path_kind@,
        x@.storage == storage@,
        x@.path_resolution == text_option(*resolution),
        x@.unmerged == unmerged,
    ensures
        views(r@) == outer_artifacts(x@, plan@),
{
    if plan.keeps_ours {
        if !(unmerged || resolution.is_some()) {
            return no_values();
        }
        let mut a = if plan.theirs_unchanged {
            file_conflict_artifact(
                key,
                path_kind,
                storage,
                "file",
                "theirs_logically_equivalent_to_base",
                "theirs has no supported logical SQLite changes relative to base; keeping ours preserves the complete supported merge result",
            )
        } else {
            file_conflict_artifact(
                key,
                path_kind,
                storage,
                "file",
                "merge_result_matches_ours",
                "all supported changes from theirs are already represented by ours; no SQLite changes need to be applied",
            )
        };
        a.auto_resolvable = Some(true);
        a.recommended_result = Some("ours".to_owned());
        a.recommended_action = Some("apply_merge".to_owned());
        apply_path_resolution(&mut a, resolution);
        only(a)
    } else if plan.apply_changes > 0 && unmerged {
        let mut a = file_conflict_artifact(
            key,
            path_kind,
            storage,
            "file",
            "automatic_merge_available",
            "a validated SQLite candidate can be materialized by applyMerge or continueMerge",
        );
        a.auto_resolvable = Some(true);
        a.recommended_result = Some("merged".to_owned());
        a.recommended_action = Some("apply_merge".to_owned());
        only(a)
    } else {
        let mut a = file_conflict_artifact(
            key,
            path_kind,
            storage,
            "file",
            "no_applicable_changes",
            "no row or schema conflict details were produced",
        );
        apply_path_resolution(&mut a, resolution);
        only(a)
    }
}

fn only(a: JsonConflictArtifact) -> (r: Vec<JsonConflictArtifact>)
    ensures
        views(r@) == seq![a@],
{
    let r = vec![a];
    proof {
        assert(views(r@) =~= seq![a@]);
    }
    r
}

/// The conflicts of a path: a recorded failure of its merge, what the analysis of its rows tells,
/// or that there is no such analysis.
///
/// `entries` are the entries that were in conflict when the merge began, and `unmerged` tells that
/// the index still has them.
pub fn repo_path_conflict_artifacts(
    key: &str,
    entries: &Vec<IndexEntry>,
    unmerged: bool,
    result: &PlanResult,
    state: &RowConflictResolutionState,
) -> (r: Vec<JsonConflictArtifact>)
    requires
        state.wf(),
    ensures
        views(r@) == path_artifacts(
            context_of(*state, views(entries@), key@, unmerged),
            recorded_error(*state, key@),
            three_way(views(entries@)) is Some,
            result@,
        ),
{
    let ghost x = context_of(*state, views(entries@), key@, unmerged);
    let (kind, place) = conflict_path_descriptor_from_entries(entries);
    let path_kind = repo_tracked_path_kind_json_label(kind);
    let storage = repo_path_storage_json_label(place);
    let resolution = path_resolution(state, key);
    if unmerged {
        if let Some(error) = state.analysis_errors.get(key) {
            let mut a = file_conflict_artifact(
                key,
                path_kind,
                storage,
                "validation",
                "candidate_validation_failed",
                error.as_str(),
            );
            a.auto_resolvable = Some(false);
            a.recommended_action = Some("inspect_candidate_constraints".to_owned());
            return only(a);
        }
    }
    if conflict_file_states(entries).is_none() {
        let mut a = file_conflict_artifact(
            key,
            path_kind,
            storage,
            "file",
            "add_delete_conflict",
            "merge involves add/delete of this tracked path",
        );
        apply_path_resolution(&mut a, &resolution);
        return only(a);
    }
    match result {
        PlanResult::Failed(e) => {
            let message = cat2("row-level conflict analysis unavailable: ", e.as_str());
            let mut a = file_conflict_artifact(
                key,
                path_kind,
                storage,
                "file",
                "analysis_error",
                message.as_str(),
            );
            apply_path_resolution(&mut a, &resolution);
            only(a)
        },
        PlanResult::Planned(plan) => {
            let mut out: Vec<JsonConflictArtifact> = Vec::new();
            add_row_artifacts(
                &mut out,
                key,
                path_kind,
                storage,
                &resolution,
                state,
                plan,
                Ghost(x),
            );
            add_schema_artifacts(
                &mut out,
                key,
                path_kind,
                storage,
                &resolution,
                state,
                plan,
                Ghost(x),
            );
            add_opaque_artifacts(
                &mut out,
                key,
                path_kind,
                storage,
                &resolution,
                state,
                plan,
                Ghost(x),
            );
            add_pending_artifacts(
                &mut out,
                key,
                path_kind,
                storage,
                &resolution,
                state,
                plan,
                Ghost(x),
            );
            proof {
                assert(views(out@) =~= inner_artifacts(x, plan@));
            }
            if out.len() > 0 {
                out
            } else {
                outer_conflict_artifacts(
                    key,
                    path_kind,
                    storage,
                    &resolution,
                    unmerged,
                    plan,
                    Ghost(x),
                )
            }
        },
    }
}

} // verus!
