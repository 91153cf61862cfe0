//! Conflicts of a merge, and how they are resolved.
use vstd::prelude::*;
use vstd::string::*;

use crate::document::{
    json_document, json_document_of, object_text, print_object, printable, put_member,
    with_member, JsonField, JsonFieldView, JsonMember, JsonMemberView,
};
use crate::error::{invalid, invalid_command, seen, CommandError};
use crate::json::{json_key_value, JsonRowChange, JsonValue};
use crate::model::IndexEntry;
use crate::number::{decimal_int, show_i64};
use crate::order::KeyMap;
use crate::show::views;
use crate::spec::{
    key_parts, KeyPart, KeyPartView, KeyValue, KeyValueView, RepoResolveCellSpec,
    RepoResolveRowSpec, ResolveSide, RowIdentity, RowIdentityView, RowSpecView,
};
use crate::text::{cat2, cat3, cat4, cat5, chars_of, join, joined, lemma_texts_push, same, texts};

verus! {

/// Why a row could not be merged.
#[derive(Debug, Clone, Copy, PartialEq, Eq, Structural)]
pub enum RowMergeConflictReason {
    /// Both sides changed the row.
    Row,
    /// Both sides changed some of the same cells.
    Cell,
    /// Both sides made rows with the same semantic key.
    SemanticKey,
}

/// A row that both sides changed; `cell_columns` are the columns whose cells both changed.
#[derive(Debug, Clone, PartialEq, Eq)]
pub struct RowMergeConflict<S = String, L1 = RowIdentity, L2 = Vec<String>> {
    pub table: S,
    pub identity: L1,
    pub reason: RowMergeConflictReason,
    pub cell_columns: L2,
}

pub type RowMergeConflictView = RowMergeConflict<Seq<char>, RowIdentityView, Seq<Seq<char>>>;

impl View for RowMergeConflict<String, RowIdentity, Vec<String>> {
    type V = RowMergeConflictView;

    open spec fn view(&self) -> RowMergeConflictView {
        RowMergeConflict {
            table: self.table@,
            identity: self.identity@,
            reason: self.reason,
            cell_columns: texts(self.cell_columns@),
        }
    }
}

/// What stands between the parts of a selection key.
pub open spec fn unit() -> Seq<char> {
    "\u{1f}"@
}

/// A value of a primary key as a member of a JSON object.
pub open spec fn key_field(v: KeyValueView) -> JsonFieldView {
    match json_key_value(v) {
        JsonValue::Null => JsonField::Null,
        JsonValue::Integer(i) => JsonField::Integer(i),
        JsonValue::Number(s) => if json_document_of(s) is Some {
            JsonField::Document(s)
        } else {
            JsonField::Null
        },
        JsonValue::Text(s) => JsonField::Text(s),
        JsonValue::Tagged { tag, text } => JsonField::Tagged { tag, text },
    }
}

/// A primary key as the members of a JSON object: of a column that stands in it twice, the last
/// value.
pub open spec fn key_members(parts: Seq<KeyPartView>) -> Seq<JsonMemberView>
    decreases parts.len(),
{
    if parts.len() == 0 {
        Seq::empty()
    } else {
        with_member(
            key_members(parts.drop_last()),
            JsonMember { name: parts.last().column, value: key_field(parts.last().value) },
        )
    }
}

fn key_field_of(v: &KeyValue) -> (r: JsonField)
    ensures
        r@ == key_field(v@),
{
    match JsonRowChange::primary_key_value_to_json(v) {
        JsonValue::Null => JsonField::Null,
        JsonValue::Integer(i) => JsonField::Integer(i),
        JsonValue::Number(s) => match json_document(s.as_str()) {
            Some(_) => JsonField::Document(s),
            None => JsonField::Null,
        },
        JsonValue::Text(s) => JsonField::Text(s),
        JsonValue::Tagged { tag, text } => JsonField::Tagged { tag, text },
    }
}

fn list_key_members(parts: &Vec<KeyPart>) -> (r: Vec<JsonMember>)
    ensures
        views(r@) == key_members(key_parts(parts@)),
        printable(views(r@)),
{
    let ghost all = key_parts(parts@);
    let mut out: Vec<JsonMember> = Vec::new();
    let n: usize = parts.len();
    let mut i: usize = 0;
    proof {
        assert(all.take(0) =~= Seq::empty());
        assert(views(out@) =~= Seq::empty());
    }
    while i < n
        invariant
            n == parts@.len(),
            i <= n,
            all == key_parts(parts@),
            views(out@) == key_members(all.take(i as int)),
            printable(views(out@)),
        decreases n - i,
    {
        proof {
            assert(all.take(i + 1).drop_last() =~= all.take(i as int));
            assert(all.take(i + 1).last() == parts@[i as int]@);
        }
        let value = key_field_of(&parts[i].value);
        put_member(&mut out, JsonMember { name: parts[i].column.clone(), value });
        i += 1;
    }
    proof {
        assert(all.take(n as int) =~= all);
    }
    out
}

/// What a row is known by in selection keys.
pub open spec fn identity_token(identity: RowIdentityView) -> Seq<char> {
    match identity {
        RowIdentity::Rowid(rowid) => "rowid:"@ + decimal_int(rowid as int),
        RowIdentity::PrimaryKey { parts } => "key:"@ + object_text(key_members(parts)),
    }
}

/// The key of a selection for a row.
pub open spec fn row_key(path: Seq<char>, table: Seq<char>, identity: RowIdentityView) -> Seq<char> {
    path + unit() + table + unit() + identity_token(identity)
}

/// The key of a selection for a cell.
pub open spec fn cell_key(
    path: Seq<char>,
    table: Seq<char>,
    identity: RowIdentityView,
    column: Seq<char>,
) -> Seq<char> {
    row_key(path, table, identity) + unit() + column
}

fn row_identity_token(identity: &RowIdentity) -> (r: String)
    ensures
        r@ == identity_token(identity@),
{
    match identity {
        RowIdentity::Rowid(rowid) => cat2("rowid:", show_i64(*rowid).as_str()),
        RowIdentity::PrimaryKey { parts } => {
            let members = list_key_members(parts);
            cat2("key:", print_object(&members).as_str())
        },
    }
}

pub fn row_conflict_resolution_key(path: &str, table: &str, identity: &RowIdentity) -> (r: String)
    ensures
        r@ == row_key(path@, table@, identity@),
{
    let token = row_identity_token(identity);
    cat5(path, "\u{1f}", table, "\u{1f}", token.as_str())
}

pub fn cell_conflict_resolution_key(
    path: &str,
    table: &str,
    identity: &RowIdentity,
    column: &str,
) -> (r: String)
    ensures
        r@ == cell_key(path@, table@, identity@, column@),
{
    let row = row_conflict_resolution_key(path, table, identity);
    cat3(row.as_str(), "\u{1f}", column)
}

/// One part of a primary key as it is shown.
pub open spec fn part_label(part: KeyPartView) -> Seq<char> {
    part.column + "="@ + part.shown
}

pub open spec fn part_labels(parts: Seq<KeyPartView>) -> Seq<Seq<char>> {
    Seq::new(parts.len(), |i: int| part_label(parts[i]))
}

/// A row as it is shown.
pub open spec fn identity_label(identity: RowIdentityView) -> Seq<char> {
    match identity {
        RowIdentity::Rowid(rowid) => "rowid="@ + decimal_int(rowid as int),
        RowIdentity::PrimaryKey { parts } => "key=("@ + joined(part_labels(parts), ", "@)
            + ")"@,
    }
}

pub fn row_identity_label(identity: &RowIdentity) -> (r: String)
    ensures
        r@ == identity_label(identity@),
{
    match identity {
        RowIdentity::Rowid(rowid) => cat2("rowid=", show_i64(*rowid).as_str()),
        RowIdentity::PrimaryKey { parts } => {
            let ghost all = part_labels(key_parts(parts@));
            let mut labels: Vec<String> = Vec::new();
            let mut i: usize = 0;
            proof {
                assert(texts(labels@) =~= all.take(0));
            }
            while i < parts.len()
                invariant
                    i <= parts@.len(),
                    all == part_labels(key_parts(parts@)),
                    texts(labels@) == all.take(i as int),
                decreases parts@.len() - i,
            {
                let label = cat3(parts[i].column.as_str(), "=", parts[i].shown.as_str());
                proof {
                    lemma_texts_push(labels@, label);
                    assert(all[i as int] == label@);
                    assert(all.take(i + 1) =~= all.take(i as int).push(label@));
                }
                labels.push(label);
                i += 1;
            }
            proof {
                assert(all.take(i as int) =~= all);
            }
            let list = join(&labels, ", ");
            cat3("key=(", list.as_str(), ")")
        },
    }
}

/// Two values are equal; reals are where their bits are.
pub open spec fn same_value(a: KeyValueView, b: KeyValueView) -> bool {
    match (a, b) {
        (KeyValue::Real { bits: x, .. }, KeyValue::Real { bits: y, .. }) => x == y,
        _ => a == b,
    }
}

/// Two keys name the same row: each part of the one is among those of the other.
pub open spec fn parts_match(left: Seq<KeyPartView>, right: Seq<KeyPartView>) -> bool {
    left.len() == right.len() && forall|i: int|
        0 <= i < left.len() ==> part_among(#[trigger] left[i], right)
}

pub open spec fn part_among(part: KeyPartView, parts: Seq<KeyPartView>) -> bool {
    exists|j: int|
        0 <= j < parts.len() && part.column == (#[trigger] parts[j]).column && same_value(
            part.value,
            parts[j].value,
        )
}

pub open spec fn identities_match(left: RowIdentityView, right: RowIdentityView) -> bool {
    match (left, right) {
        (RowIdentity::Rowid(a), RowIdentity::Rowid(b)) => a == b,
        (
            RowIdentity::PrimaryKey { parts: a },
            RowIdentity::PrimaryKey { parts: b },
        ) => parts_match(a, b),
        _ => false,
    }
}

fn same_bytes(a: &Vec<u8>, b: &Vec<u8>) -> (r: bool)
    ensures
        r == (a@ == b@),
{
    if a.len() != b.len() {
        return false;
    }
    let mut i: usize = 0;
    while i < a.len()
        invariant
            i <= a@.len(),
            a@.len() == b@.len(),
            forall|j: int| 0 <= j < i ==> a@[j] == b@[j],
        decreases a@.len() - i,
    {
        if a[i] != b[i] {
            return false;
        }
        i += 1;
    }
    proof {
        assert(a@ =~= b@);
    }
    true
}

fn is_same_value(a: &KeyValue, b: &KeyValue) -> (r: bool)
    ensures
        r == same_value(a@, b@),
{
    match (a, b) {
        (KeyValue::Null, KeyValue::Null) => true,
        (KeyValue::Integer(x), KeyValue::Integer(y)) => *x == *y,
        (KeyValue::Real { bits: x, .. }, KeyValue::Real { bits: y, .. }) => *x == *y,
        (KeyValue::Text(x), KeyValue::Text(y)) => same(x.as_str(), y.as_str()),
        (KeyValue::Blob(x), KeyValue::Blob(y)) => same_bytes(x, y),
        _ => false,
    }
}

fn is_part_among(part: &KeyPart, parts: &Vec<KeyPart>) -> (r: bool)
    ensures
        r == part_among(part@, key_parts(parts@)),
{
    let mut j: usize = 0;
    while j < parts.len()
        invariant
            j <= parts@.len(),
            forall|k: int|
                0 <= k < j ==> !(part@.column == (#[trigger] key_parts(parts@)[k]).column
                    && same_value(part@.value, key_parts(parts@)[k].value)),
        decreases parts@.len() - j,
    {
        if same(part.column.as_str(), parts[j].column.as_str()) && is_same_value(
            &part.value,
            &parts[j].value,
        ) {
            proof {
                assert(key_parts(parts@)[j as int].column == part@.column);
            }
            return true;
        }
        j += 1;
    }
    false
}

#[verifier::loop_isolation(false)]
pub fn row_identities_match(left: &RowIdentity, right: &RowIdentity) -> (r: bool)
    ensures
        r == identities_match(left@, right@),
{
    match (left, right) {
        (RowIdentity::Rowid(a), RowIdentity::Rowid(b)) => *a == *b,
        (
            RowIdentity::PrimaryKey { parts: a },
            RowIdentity::PrimaryKey { parts: b },
        ) => {
            if a.len() != b.len() {
                return false;
            }
            let mut i: usize = 0;
            while i < a.len()
                invariant
                    i <= a@.len(),
                    forall|k: int|
                        0 <= k < i ==> part_among(#[trigger] key_parts(a@)[k], key_parts(b@)),
                decreases a@.len() - i,
            {
                if !is_part_among(&a[i], b) {
                    proof {
                        assert(!part_among(key_parts(a@)[i as int], key_parts(b@)));
                    }
                    return false;
                }
                i += 1;
            }
            true
        },
        _ => false,
    }
}

/// What is known of one path of the merge: the entries that made up its conflict, and how the path
/// was resolved as a whole.
#[derive(Debug, Clone)]
pub struct MergeResolutionPathState {
    pub original_entries: Vec<IndexEntry>,
    pub resolution: Option<String>,
}

/// How far the conflicts of a merge are resolved.
#[derive(Debug, Clone)]
pub struct RowConflictResolutionState {
    pub paths: KeyMap<MergeResolutionPathState>,
    /// The side that was selected for a row.
    pub rows: KeyMap<String>,
    /// The side that was selected for a cell.
    pub cells: KeyMap<String>,
    /// Why the merge of a path could not be analysed.
    pub analysis_errors: KeyMap<String>,
}

/// Selections with the characters of their labels.
pub open spec fn labels_of(m: Map<Seq<char>, String>) -> Map<Seq<char>, Seq<char>> {
    m.map_values(|s: String| s@)
}

impl RowConflictResolutionState {
    pub open spec fn wf(&self) -> bool {
        self.paths.wf() && self.rows.wf() && self.cells.wf() && self.analysis_errors.wf()
    }

    pub open spec fn row_labels(&self) -> Map<Seq<char>, Seq<char>> {
        labels_of(self.rows@)
    }

    pub open spec fn cell_labels(&self) -> Map<Seq<char>, Seq<char>> {
        labels_of(self.cells@)
    }
}

/// A conflict without a selection for its row, and, where only cells are in conflict, without one
/// for each of them.
pub open spec fn is_unresolved(
    key: Seq<char>,
    conflict: RowMergeConflictView,
    rows: Map<Seq<char>, Seq<char>>,
    cells: Map<Seq<char>, Seq<char>>,
) -> bool {
    &&& !rows.contains_key(row_key(key, conflict.table, conflict.identity))
    &&& conflict.reason != RowMergeConflictReason::Cell || exists|c: int|
        0 <= c < conflict.cell_columns.len() && !cells.contains_key(
            cell_key(
                key,
                conflict.table,
                conflict.identity,
                #[trigger] conflict.cell_columns[c],
            ),
        )
}

/// The unresolved ones among the first `n` conflicts.
pub open spec fn unresolved_count(
    key: Seq<char>,
    conflicts: Seq<RowMergeConflictView>,
    rows: Map<Seq<char>, Seq<char>>,
    cells: Map<Seq<char>, Seq<char>>,
    n: int,
) -> nat
    decreases n,
{
    if n <= 0 {
        0
    } else {
        unresolved_count(key, conflicts, rows, cells, n - 1) + if is_unresolved(
            key,
            conflicts[n - 1],
            rows,
            cells,
        ) {
            1nat
        } else {
            0nat
        }
    }
}

#[verifier::loop_isolation(false)]
fn is_row_unresolved(key: &str, conflict: &RowMergeConflict, state: &RowConflictResolutionState) -> (r:
    bool)
    requires
        state.wf(),
    ensures
        r == is_unresolved(key@, conflict@, state.row_labels(), state.cell_labels()),
{
    let row = row_conflict_resolution_key(key, conflict.table.as_str(), &conflict.identity);
    if state.rows.contains(row.as_str()) {
        return false;
    }
    if conflict.reason != RowMergeConflictReason::Cell {
        return true;
    }
    let mut c: usize = 0;
    while c < conflict.cell_columns.len()
        invariant
            c <= conflict.cell_columns@.len(),
            state.wf(),
            forall|j: int|
                0 <= j < c ==> state.cell_labels().contains_key(
                    cell_key(
                        key@,
                        conflict@.table,
                        conflict@.identity,
                        #[trigger] conflict@.cell_columns[j],
                    ),
                ),
        decreases conflict.cell_columns@.len() - c,
    {
        let cell = cell_conflict_resolution_key(
            key,
            conflict.table.as_str(),
            &conflict.identity,
            conflict.cell_columns[c].as_str(),
        );
        proof {
            assert(conflict@.cell_columns[c as int] == conflict.cell_columns@[c as int]@);
        }
        if !state.cells.contains(cell.as_str()) {
            return true;
        }
        c += 1;
    }
    false
}

pub fn unresolved_row_conflict_count(
    key: &str,
    conflicts: &Vec<RowMergeConflict>,
    state: &RowConflictResolutionState,
) -> (r: usize)
    requires
        state.wf(),
    ensures
        r == unresolved_count(
            key@,
            views(conflicts@),
            state.row_labels(),
            state.cell_labels(),
            conflicts@.len() as int,
        ),
{
    let ghost all = views(conflicts@);
    let mut count: usize = 0;
    let mut i: usize = 0;
    while i < conflicts.len()
        invariant
            i <= conflicts@.len(),
            state.wf(),
            all == views(conflicts@),
            count <= i,
            count == unresolved_count(
                key@,
                all,
                state.row_labels(),
                state.cell_labels(),
                i as int,
            ),
        decreases conflicts@.len() - i,
    {
        proof {
            assert(all[i as int] == conflicts@[i as int]@);
        }
        if is_row_unresolved(key, &conflicts[i], state) {
            count += 1;
        }
        i += 1;
    }
    count
}

/// What the analysis of a merge says as a whole.
#[derive(Debug, Clone, Copy, PartialEq, Eq, Structural)]
pub struct MergePlanFlags {
    pub schema_conflicts: bool,
    pub opaque_changes: bool,
}

/// The first conflict from `i` on of the given row.
pub open spec fn row_conflict_at(
    conflicts: Seq<RowMergeConflictView>,
    row: RowSpecView,
    i: int,
) -> Option<int>
    decreases conflicts.len() - i,
{
    if i >= conflicts.len() {
        None
    } else if conflicts[i].table == row.table && identities_match(
        conflicts[i].identity,
        row.identity,
    ) {
        Some(i)
    } else {
        row_conflict_at(conflicts, row, i + 1)
    }
}

/// Why a side cannot be selected for a row, or the place of its conflict.
pub open spec fn row_selection(
    key: Seq<char>,
    side: ResolveSide,
    row: RowSpecView,
    flags: MergePlanFlags,
    conflicts: Seq<RowMergeConflictView>,
) -> Result<int, CommandError<Seq<char>>> {
    if side == ResolveSide::Manual {
        invalid("row conflict resolution requires `--ours` or `--theirs`"@)
    } else if flags.schema_conflicts || flags.opaque_changes {
        invalid("row conflict resolution is not available with schema or opaque conflicts"@)
    } else {
        match row_conflict_at(conflicts, row, 0) {
            None => invalid(
                "path `"@ + key + "` has no row conflict for "@ + row.table + " "@
                    + identity_label(row.identity),
            ),
            Some(i) => if conflicts[i].reason == RowMergeConflictReason::SemanticKey {
                invalid(
                    "semantic key conflict for "@ + row.table + " "@ + identity_label(
                        row.identity,
                    ) + " requires manual file resolution"@,
                )
            } else {
                Ok(i)
            },
        }
    }
}

/// What of a database a side is selected for.
#[derive(Debug, Clone, Copy, PartialEq, Eq, Structural)]
pub enum SelectedPart {
    Row,
    Cell,
    Table,
}

/// A selection takes a side, and needs the three states that the merge began with.
pub open spec fn selection_guard(
    part: SelectedPart,
    side: ResolveSide,
    three_states: bool,
    key: Seq<char>,
) -> Result<(), CommandError<Seq<char>>> {
    if side == ResolveSide::Manual {
        match part {
            SelectedPart::Row => invalid("row conflict resolution requires `--ours` or `--theirs`"@),
            SelectedPart::Cell => invalid("cell conflict resolution requires `ours` or `theirs`"@),
            SelectedPart::Table => invalid("table conflict resolution requires `ours` or `theirs`"@),
        }
    } else if three_states {
        Ok(())
    } else if part == SelectedPart::Row {
        invalid("path `"@ + key + "` has no row conflict stages"@)
    } else {
        invalid("path `"@ + key + "` has no SQLite row conflict stages"@)
    }
}

/// Refuses a selection before the merge is planned.
pub fn guard_selection(part: SelectedPart, side: ResolveSide, three_states: bool, key: &str) -> (r: Result<
    (),
    CommandError,
>)
    ensures
        seen(r) == selection_guard(part, side, three_states, key@),
{
    if side == ResolveSide::Manual {
        return Err(
            invalid_command(
                match part {
                    SelectedPart::Row => "row conflict resolution requires `--ours` or `--theirs`",
                    SelectedPart::Cell => "cell conflict resolution requires `ours` or `theirs`",
                    SelectedPart::Table => "table conflict resolution requires `ours` or `theirs`",
                },
            ),
        );
    }
    if three_states {
        Ok(())
    } else if part == SelectedPart::Row {
        Err(invalid_command(cat3("path `", key, "` has no row conflict stages").as_str()))
    } else {
        Err(invalid_command(cat3("path `", key, "` has no SQLite row conflict stages").as_str()))
    }
}

/// What is done with the database that the selections for its rows give.
#[derive(Debug, Clone, Copy, PartialEq, Eq, Structural)]
pub struct SelectionFollowUp {
    /// It takes the place of the one in the worktree.
    pub materialized: bool,
    /// It is staged as the resolution of its path.
    pub staged: bool,
}

/// Decides what is done once every row in conflict has a selection: ours is in the worktree
/// already, and a database that has to be validated first is not staged. Nothing is done before.
pub fn selection_follow_up(unresolved: usize, same_as_ours: bool, requires_validation: bool) -> (r:
    SelectionFollowUp)
    ensures
        r == (SelectionFollowUp {
            materialized: unresolved == 0 && !same_as_ours,
            staged: unresolved == 0 && !requires_validation,
        }),
        unresolved > 0 ==> !r.materialized && !r.staged,
        same_as_ours ==> !r.materialized,
        requires_validation ==> !r.staged,
        unresolved == 0 && !same_as_ours ==> r.materialized,
        unresolved == 0 && !requires_validation ==> r.staged,
{
    SelectionFollowUp {
        materialized: unresolved == 0 && !same_as_ours,
        staged: unresolved == 0 && !requires_validation,
    }
}

/// The paths with the resolution of `key` as a whole taken back.
pub open spec fn path_reopened(
    paths: Map<Seq<char>, MergeResolutionPathState>,
    key: Seq<char>,
) -> Map<Seq<char>, MergeResolutionPathState> {
    if paths.contains_key(key) {
        paths.insert(
            key,
            MergeResolutionPathState {
                original_entries: paths[key].original_entries,
                resolution: None,
            },
        )
    } else {
        paths
    }
}

fn reopen_path(state: &mut RowConflictResolutionState, key: &str)
    requires
        old(state).wf(),
    ensures
        final(state).wf(),
        final(state).paths@ == path_reopened(old(state).paths@, key@),
        final(state).rows == old(state).rows,
        final(state).cells == old(state).cells,
        final(state).analysis_errors == old(state).analysis_errors,
{
    let ghost before = state.paths@;
    match state.paths.take(key) {
        Some(path) => {
            state.paths.put(
                key,
                MergeResolutionPathState {
                    original_entries: path.original_entries,
                    resolution: None,
                },
            );
            proof {
                assert(state.paths@ =~= path_reopened(before, key@));
            }
        },
        None => {
            proof {
                assert(state.paths@ =~= before);
            }
        },
    }
}

fn find_row_conflict(conflicts: &Vec<RowMergeConflict>, row: &RepoResolveRowSpec) -> (r: Option<
    usize,
>)
    ensures
        match r {
            Some(i) => row_conflict_at(views(conflicts@), row@, 0) == Some(i as int) && i
                < conflicts@.len(),
            None => row_conflict_at(views(conflicts@), row@, 0) is None,
        },
{
    let ghost all = views(conflicts@);
    let mut i: usize = 0;
    while i < conflicts.len()
        invariant
            i <= conflicts@.len(),
            all == views(conflicts@),
            row_conflict_at(all, row@, 0) == row_conflict_at(all, row@, i as int),
        decreases conflicts@.len() - i,
    {
        proof {
            assert(all[i as int] == conflicts@[i as int]@);
        }
        if same(conflicts[i].table.as_str(), row.table.as_str()) && row_identities_match(
            &conflicts[i].identity,
            &row.identity,
        ) {
            return Some(i);
        }
        i += 1;
    }
    None
}

proof fn lemma_labels_insert(m: Map<Seq<char>, String>, k: Seq<char>, v: String)
    ensures
        labels_of(m.insert(k, v)) == labels_of(m).insert(k, v@),
{
    assert(labels_of(m.insert(k, v)) =~= labels_of(m).insert(k, v@));
}

proof fn lemma_labels_remove(m: Map<Seq<char>, String>, k: Seq<char>)
    ensures
        labels_of(m.remove(k)) == labels_of(m).remove(k),
{
    assert(labels_of(m.remove(k)) =~= labels_of(m).remove(k));
}

/// Selects a side for one row, and says how many conflicts of the path are unresolved after it.
pub fn resolve_repo_row_conflict(
    state: &mut RowConflictResolutionState,
    key: &str,
    side: ResolveSide,
    row: &RepoResolveRowSpec,
    flags: MergePlanFlags,
    conflicts: &Vec<RowMergeConflict>,
) -> (r: Result<usize, CommandError>)
    requires
        old(state).wf(),
    ensures
        final(state).wf(),
        final(state).cells == old(state).cells,
        final(state).analysis_errors == old(state).analysis_errors,
        match r {
            Err(e) => row_selection(key@, side, row@, flags, views(conflicts@)) == Err::<int, _>(e@)
                && *final(state) == *old(state),
            Ok(unresolved) => {
                let found = row_selection(key@, side, row@, flags, views(conflicts@));
                &&& found is Ok
                &&& final(state).row_labels() == old(state).row_labels().insert(
                    row_key(key@, row@.table, views(conflicts@)[found->Ok_0].identity),
                    side.name(),
                )
                &&& final(state).paths@ == path_reopened(old(state).paths@, key@)
                &&& unresolved == unresolved_count(
                    key@,
                    views(conflicts@),
                    final(state).row_labels(),
                    final(state).cell_labels(),
                    conflicts@.len() as int,
                )
            },
        },
{
    if side == ResolveSide::Manual {
        return Err(invalid_command("row conflict resolution requires `--ours` or `--theirs`"));
    }
    if flags.schema_conflicts || flags.opaque_changes {
        return Err(
            invalid_command(
                "row conflict resolution is not available with schema or opaque conflicts",
            ),
        );
    }
    let at: usize = match find_row_conflict(conflicts, row) {
        Some(at) => at,
        None => {
            let label = row_identity_label(&row.identity);
            let head = cat4(
                "path `",
                key,
                "` has no row conflict for ",
                row.table.as_str(),
            );
            return Err(
                CommandError::InvalidCommand(cat3(head.as_str(), " ", label.as_str())),
            );
        },
    };
    proof {
        assert(views(conflicts@)[at as int] == conflicts@[at as int]@);
    }
    if conflicts[at].reason == RowMergeConflictReason::SemanticKey {
        let label = row_identity_label(&row.identity);
        return Err(
            CommandError::InvalidCommand(
                cat5(
                    "semantic key conflict for ",
                    row.table.as_str(),
                    " ",
                    label.as_str(),
                    " requires manual file resolution",
                ),
            ),
        );
    }
    let selection = row_conflict_resolution_key(
        key,
        row.table.as_str(),
        &conflicts[at].identity,
    );
    let label = side.label().to_owned();
    proof {
        lemma_labels_insert(state.rows@, selection@, label);
    }
    state.rows.put(selection.as_str(), label);
    reopen_path(state, key);
    let unresolved: usize = unresolved_row_conflict_count(key, conflicts, state);
    Ok(unresolved)
}

/// The lower case of an ASCII letter; any other character is itself.
pub open spec fn lower(c: char) -> char {
    if 'A' <= c <= 'Z' {
        (c as u8 + 32) as u8 as char
    } else {
        c
    }
}

/// Two texts that differ at most in the case of ASCII letters.
pub open spec fn same_but_case(a: Seq<char>, b: Seq<char>) -> bool {
    a.len() == b.len() && forall|i: int| 0 <= i < a.len() ==> lower(#[trigger] a[i]) == lower(b[i])
}

fn to_lower(c: char) -> (r: char)
    ensures
        r == lower(c),
{
    if 'A' <= c && c <= 'Z' {
        (c as u8 + 32) as char
    } else {
        c
    }
}

fn same_ignoring_case(a: &str, b: &str) -> (r: bool)
    ensures
        r == same_but_case(a@, b@),
{
    let x = chars_of(a);
    let y = chars_of(b);
    if x.len() != y.len() {
        return false;
    }
    let mut i: usize = 0;
    while i < x.len()
        invariant
            i <= x@.len(),
            x@ == a@,
            y@ == b@,
            x@.len() == y@.len(),
            forall|j: int| 0 <= j < i ==> lower(#[trigger] a@[j]) == lower(b@[j]),
        decreases x@.len() - i,
    {
        if to_lower(x[i]) != to_lower(y[i]) {
            proof {
                assert(lower(a@[i as int]) != lower(b@[i as int]));
            }
            return false;
        }
        i += 1;
    }
    true
}

/// The first column from `i` on with the given name, whatever its case.
pub open spec fn column_at(columns: Seq<Seq<char>>, name: Seq<char>, i: int) -> Option<int>
    decreases columns.len() - i,
{
    if i >= columns.len() {
        None
    } else if same_but_case(columns[i], name) {
        Some(i)
    } else {
        column_at(columns, name, i + 1)
    }
}

/// The first conflict from `i` on of the given cell.
pub open spec fn cell_conflict_at(
    conflicts: Seq<RowMergeConflictView>,
    cell: RepoResolveCellSpec<Seq<char>, RowIdentityView>,
    i: int,
) -> Option<int>
    decreases conflicts.len() - i,
{
    if i >= conflicts.len() {
        None
    } else if conflicts[i].reason == RowMergeConflictReason::Cell && conflicts[i].table
        == cell.table && identities_match(conflicts[i].identity, cell.identity) && column_at(
        conflicts[i].cell_columns,
        cell.column,
        0,
    ) is Some {
        Some(i)
    } else {
        cell_conflict_at(conflicts, cell, i + 1)
    }
}

/// Why a side cannot be selected for a cell, or the place of its conflict.
pub open spec fn cell_selection(
    key: Seq<char>,
    side: ResolveSide,
    cell: RepoResolveCellSpec<Seq<char>, RowIdentityView>,
    conflicts: Seq<RowMergeConflictView>,
) -> Result<int, CommandError<Seq<char>>> {
    if side == ResolveSide::Manual {
        invalid("cell conflict resolution requires `ours` or `theirs`"@)
    } else {
        match cell_conflict_at(conflicts, cell, 0) {
            None => invalid(
                "path `"@ + key + "` has no cell conflict for "@ + cell.table + " "@
                    + identity_label(cell.identity) + " column `"@ + cell.column + "`"@,
            ),
            Some(i) => Ok(i),
        }
    }
}

/// The key of the selection that a cell resolution makes; the column is named as the table names
/// it.
pub open spec fn selected_cell_key(
    key: Seq<char>,
    cell: RepoResolveCellSpec<Seq<char>, RowIdentityView>,
    conflict: RowMergeConflictView,
) -> Seq<char> {
    cell_key(
        key,
        cell.table,
        conflict.identity,
        conflict.cell_columns[column_at(conflict.cell_columns, cell.column, 0)->0],
    )
}

fn find_column(columns: &Vec<String>, name: &str) -> (r: Option<usize>)
    ensures
        match r {
            Some(i) => column_at(texts(columns@), name@, 0) == Some(i as int) && i < columns@.len(),
            None => column_at(texts(columns@), name@, 0) is None,
        },
{
    let ghost all = texts(columns@);
    let mut i: usize = 0;
    while i < columns.len()
        invariant
            i <= columns@.len(),
            all == texts(columns@),
            column_at(all, name@, 0) == column_at(all, name@, i as int),
        decreases columns@.len() - i,
    {
        proof {
            assert(all[i as int] == columns@[i as int]@);
        }
        if same_ignoring_case(columns[i].as_str(), name) {
            return Some(i);
        }
        i += 1;
    }
    None
}

fn find_cell_conflict(conflicts: &Vec<RowMergeConflict>, cell: &RepoResolveCellSpec) -> (r: Option<
    (usize, usize),
>)
    ensures
        match r {
            Some((i, c)) => {
                &&& cell_conflict_at(views(conflicts@), cell@, 0) == Some(i as int)
                &&& i < conflicts@.len()
                &&& column_at(views(conflicts@)[i as int].cell_columns, cell@.column, 0) == Some(
                    c as int,
                )
                &&& c < conflicts@[i as int].cell_columns@.len()
            },
            None => cell_conflict_at(views(conflicts@), cell@, 0) is None,
        },
{
    let ghost all = views(conflicts@);
    let mut i: usize = 0;
    while i < conflicts.len()
        invariant
            i <= conflicts@.len(),
            all == views(conflicts@),
            cell_conflict_at(all, cell@, 0) == cell_conflict_at(all, cell@, i as int),
        decreases conflicts@.len() - i,
    {
        proof {
            assert(all[i as int] == conflicts@[i as int]@);
        }
        if conflicts[i].reason == RowMergeConflictReason::Cell && same(
            conflicts[i].table.as_str(),
            cell.table.as_str(),
        ) && row_identities_match(&conflicts[i].identity, &cell.identity) {
            if let Some(c) = find_column(&conflicts[i].cell_columns, cell.column.as_str()) {
                return Some((i, c));
            }
        }
        i += 1;
    }
    None
}

/// Selects a side for one cell, and says how many conflicts of the path are unresolved after it;
/// `None` where that side was selected already.
pub fn resolve_repo_cell_conflict(
    state: &mut RowConflictResolutionState,
    key: &str,
    side: ResolveSide,
    cell: &RepoResolveCellSpec,
    conflicts: &Vec<RowMergeConflict>,
) -> (r: Result<Option<usize>, CommandError>)
    requires
        old(state).wf(),
    ensures
        final(state).wf(),
        final(state).analysis_errors == old(state).analysis_errors,
        ({
            let found = cell_selection(key@, side, cell@, views(conflicts@));
            let conflict = views(conflicts@)[found->Ok_0];
            let selection = selected_cell_key(key@, cell@, conflict);
            let repeated = old(state).cell_labels().contains_key(selection)
                && old(state).cell_labels()[selection] == side.name();
            match r {
                Err(e) => found == Err::<int, _>(e@) && *final(state) == *old(state),
                Ok(None) => found is Ok && repeated && *final(state) == *old(state),
                Ok(Some(unresolved)) => {
                    &&& found is Ok
                    &&& !repeated
                    &&& final(state).row_labels() == old(state).row_labels().remove(
                        row_key(key@, cell@.table, conflict.identity),
                    )
                    &&& final(state).cell_labels() == old(state).cell_labels().insert(
                        selection,
                        side.name(),
                    )
                    &&& final(state).paths@ == path_reopened(old(state).paths@, key@)
                    &&& unresolved == unresolved_count(
                        key@,
                        views(conflicts@),
                        final(state).row_labels(),
                        final(state).cell_labels(),
                        conflicts@.len() as int,
                    )
                },
            }
        }),
{
    if side == ResolveSide::Manual {
        return Err(invalid_command("cell conflict resolution requires `ours` or `theirs`"));
    }
    let (at, column): (usize, usize) = match find_cell_conflict(conflicts, cell) {
        Some(found) => found,
        None => {
            let label = row_identity_label(&cell.identity);
            let head = cat4(
                "path `",
                key,
                "` has no cell conflict for ",
                cell.table.as_str(),
            );
            let middle = cat3(head.as_str(), " ", label.as_str());
            return Err(
                CommandError::InvalidCommand(
                    cat4(middle.as_str(), " column `", cell.column.as_str(), "`"),
                ),
            );
        },
    };
    let conflict = &conflicts[at];
    proof {
        assert(views(conflicts@)[at as int] == conflict@);
        assert(conflict@.cell_columns[column as int] == conflict.cell_columns@[column as int]@);
    }
    let selection = cell_conflict_resolution_key(
        key,
        cell.table.as_str(),
        &conflict.identity,
        conflict.cell_columns[column].as_str(),
    );
    if let Some(label) = state.cells.get(selection.as_str()) {
        if same(label.as_str(), side.label()) {
            return Ok(None);
        }
    }
    let row = row_conflict_resolution_key(key, cell.table.as_str(), &conflict.identity);
    let label = side.label().to_owned();
    proof {
        lemma_labels_remove(state.rows@, row@);
        lemma_labels_insert(state.cells@, selection@, label);
    }
    let _earlier = state.rows.take(row.as_str());
    state.cells.put(selection.as_str(), label);
    reopen_path(state, key);
    let unresolved: usize = unresolved_row_conflict_count(key, conflicts, state);
    Ok(Some(unresolved))
}

/// The first conflict from `i` on of a table that only a person can resolve.
pub open spec fn semantic_conflict_at(
    conflicts: Seq<RowMergeConflictView>,
    table: Seq<char>,
    i: int,
) -> Option<int>
    decreases conflicts.len() - i,
{
    if i >= conflicts.len() {
        None
    } else if conflicts[i].table == table && conflicts[i].reason
        == RowMergeConflictReason::SemanticKey {
        Some(i)
    } else {
        semantic_conflict_at(conflicts, table, i + 1)
    }
}

/// Some conflict lies in the table.
pub open spec fn table_has_conflict(conflicts: Seq<RowMergeConflictView>, table: Seq<char>) -> bool {
    exists|i: int| 0 <= i < conflicts.len() && (#[trigger] conflicts[i]).table == table
}

/// Why a side cannot be selected for a whole table.
pub open spec fn table_selection(
    key: Seq<char>,
    side: ResolveSide,
    table: Seq<char>,
    flags: MergePlanFlags,
    conflicts: Seq<RowMergeConflictView>,
) -> Result<(), CommandError<Seq<char>>> {
    let cannot = "cannot resolve table `"@ + table + "` for `"@ + key;
    if side == ResolveSide::Manual {
        invalid("table conflict resolution requires `ours` or `theirs`"@)
    } else if flags.schema_conflicts {
        invalid(cannot + "`: the SQLite merge has schema conflicts"@)
    } else if flags.opaque_changes {
        invalid(cannot + "`: the SQLite merge has opaque conflicts"@)
    } else if !table_has_conflict(conflicts, table) {
        invalid("path `"@ + key + "` has no row conflicts in table `"@ + table + "`"@)
    } else {
        match semantic_conflict_at(conflicts, table, 0) {
            Some(i) => invalid(
                cannot + "`: semantic key conflict "@ + identity_label(conflicts[i].identity)
                    + " requires manual file resolution"@,
            ),
            None => Ok(()),
        }
    }
}

/// The selections for rows once a side was selected for every conflict of a table among the first
/// `n`.
pub open spec fn rows_with_table(
    rows: Map<Seq<char>, Seq<char>>,
    key: Seq<char>,
    side: ResolveSide,
    table: Seq<char>,
    conflicts: Seq<RowMergeConflictView>,
    n: int,
) -> Map<Seq<char>, Seq<char>>
    decreases n,
{
    if n <= 0 {
        rows
    } else if conflicts[n - 1].table == table {
        rows_with_table(rows, key, side, table, conflicts, n - 1).insert(
            row_key(key, table, conflicts[n - 1].identity),
            side.name(),
        )
    } else {
        rows_with_table(rows, key, side, table, conflicts, n - 1)
    }
}

fn check_table(
    key: &str,
    side: ResolveSide,
    table: &str,
    flags: MergePlanFlags,
    conflicts: &Vec<RowMergeConflict>,
) -> (r: Result<(), CommandError>)
    ensures
        match r {
            Ok(()) => table_selection(key@, side, table@, flags, views(conflicts@)) is Ok,
            Err(e) => table_selection(key@, side, table@, flags, views(conflicts@)) == Err::<
                (),
                _,
            >(e@),
        },
{
    let ghost all = views(conflicts@);
    if side == ResolveSide::Manual {
        return Err(invalid_command("table conflict resolution requires `ours` or `theirs`"));
    }
    let cannot = cat4("cannot resolve table `", table, "` for `", key);
    if flags.schema_conflicts {
        return Err(
            CommandError::InvalidCommand(
                cat2(cannot.as_str(), "`: the SQLite merge has schema conflicts"),
            ),
        );
    }
    if flags.opaque_changes {
        return Err(
            CommandError::InvalidCommand(
                cat2(cannot.as_str(), "`: the SQLite merge has opaque conflicts"),
            ),
        );
    }
    let mut any: bool = false;
    let mut semantic: Option<usize> = None;
    let mut i: usize = 0;
    while i < conflicts.len()
        invariant
            i <= conflicts@.len(),
            all == views(conflicts@),
            any == exists|j: int| 0 <= j < i && (#[trigger] all[j]).table == table@,
            match semantic {
                Some(s) => semantic_conflict_at(all, table@, 0) == Some(s as int) && s
                    < conflicts@.len(),
                None => semantic_conflict_at(all, table@, 0) == semantic_conflict_at(
                    all,
                    table@,
                    i as int,
                ),
            },
        decreases conflicts@.len() - i,
    {
        proof {
            assert(all[i as int] == conflicts@[i as int]@);
        }
        if same(conflicts[i].table.as_str(), table) {
            any = true;
            if conflicts[i].reason == RowMergeConflictReason::SemanticKey && semantic.is_none() {
                semantic = Some(i);
            }
        }
        i += 1;
    }
    if !any {
        return Err(
            CommandError::InvalidCommand(
                cat5("path `", key, "` has no row conflicts in table `", table, "`"),
            ),
        );
    }
    match semantic {
        Some(s) => {
            let label = row_identity_label(&conflicts[s].identity);
            proof {
                assert(all[s as int] == conflicts@[s as int]@);
            }
            Err(
                CommandError::InvalidCommand(
                    cat4(
                        cannot.as_str(),
                        "`: semantic key conflict ",
                        label.as_str(),
                        " requires manual file resolution",
                    ),
                ),
            )
        },
        None => Ok(()),
    }
}

/// Selects a side for every row conflict of a table, and says how many conflicts of the path are
/// unresolved after it.
pub fn resolve_repo_table_conflicts(
    state: &mut RowConflictResolutionState,
    key: &str,
    table: &str,
    side: ResolveSide,
    flags: MergePlanFlags,
    conflicts: &Vec<RowMergeConflict>,
) -> (r: Result<usize, CommandError>)
    requires
        old(state).wf(),
    ensures
        final(state).wf(),
        final(state).cells == old(state).cells,
        final(state).analysis_errors == old(state).analysis_errors,
        match r {
            Err(e) => table_selection(key@, side, table@, flags, views(conflicts@)) == Err::<
                (),
                _,
            >(e@) && *final(state) == *old(state),
            Ok(unresolved) => {
                &&& table_selection(key@, side, table@, flags, views(conflicts@)) is Ok
                &&& final(state).row_labels() == rows_with_table(
                    old(state).row_labels(),
                    key@,
                    side,
                    table@,
                    views(conflicts@),
                    conflicts@.len() as int,
                )
                &&& final(state).paths@ == path_reopened(old(state).paths@, key@)
                &&& unresolved == unresolved_count(
                    key@,
                    views(conflicts@),
                    final(state).row_labels(),
                    final(state).cell_labels(),
                    conflicts@.len() as int,
                )
            },
        },
{
    match check_table(key, side, table, flags, conflicts) {
        Ok(()) => {},
        Err(e) => return Err(e),
    }
    let ghost all = views(conflicts@);
    let ghost before = *state;
    let mut i: usize = 0;
    while i < conflicts.len()
        invariant
            i <= conflicts@.len(),
            all == views(conflicts@),
            state.wf(),
            before == *old(state),
            state.cells == before.cells,
            state.paths == before.paths,
            state.analysis_errors == before.analysis_errors,
            state.row_labels() == rows_with_table(
                before.row_labels(),
                key@,
                side,
                table@,
                all,
                i as int,
            ),
        decreases conflicts@.len() - i,
    {
        proof {
            assert(all[i as int] == conflicts@[i as int]@);
        }
        if same(conflicts[i].table.as_str(), table) {
            let selection = row_conflict_resolution_key(key, table, &conflicts[i].identity);
            let label = side.label().to_owned();
            proof {
                lemma_labels_insert(state.rows@, selection@, label);
            }
            state.rows.put(selection.as_str(), label);
        }
        i += 1;
    }
    reopen_path(state, key);
    let unresolved: usize = unresolved_row_conflict_count(key, conflicts, state);
    Ok(unresolved)
}

} // verus!
