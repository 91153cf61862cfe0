//! The paths of a merge: their entries, their resolutions, and what is done to resolve them.
use vstd::prelude::*;
use vstd::string::*;

use crate::conflict_report::original_entries_of;
use crate::conflicts::{
    cell_conflict_resolution_key, cell_key, is_unresolved, key_members, labels_of,
    path_reopened, row_conflict_resolution_key, row_key, unit, MergeResolutionPathState,
    RowConflictResolutionState, RowMergeConflict, RowMergeConflictReason, RowMergeConflictView,
};
use crate::diff::PathState;
use crate::document::object_text;
use crate::document_laws::{all_plain, law_objects_are_told_apart, lemma_integer_is_told};
use crate::error::{invalid, invalid_command, str_option, text_option, CommandError, RepoErr};
use crate::model::{
    CommitArtifactState, CommitArtifactStateView, CommitFileState, CommitFileStateView,
    IndexEntry, IndexEntryView,
};
use crate::number::decimal_int;
use crate::order::KeyMap;
use crate::show::views;
use crate::spec::{
    IndexStage, RepoPathStorage, RepoTrackedPathKind, ResolveSide, RowIdentity, RowIdentityView,
};
use crate::text::{
    cat2, cat3, has_prefix, lacks, lemma_cut_found, lemma_texts_push, same, starts_with, texts,
};

verus! {

/// The entries of a map whose keys do not start with `prefix`.
pub open spec fn without_prefix<V>(m: Map<Seq<char>, V>, prefix: Seq<char>) -> Map<Seq<char>, V> {
    Map::new(|k: Seq<char>| m.contains_key(k) && !has_prefix(k, prefix), |k: Seq<char>| m[k])
}

fn drop_prefix(map: &mut KeyMap<String>, prefix: &str)
    requires
        old(map).wf(),
    ensures
        final(map).wf(),
        final(map)@ == without_prefix(old(map)@, prefix@),
{
    let ghost start = map@;
    let ghost all = map.names();
    let mut names: Vec<String> = Vec::new();
    let mut n: usize = 0;
    proof {
        assert(texts(names@) =~= all.take(0));
    }
    while n < map.keys.len()
        invariant
            n <= map.keys@.len(),
            all == map.names(),
            texts(names@) == all.take(n as int),
        decreases map.keys@.len() - n,
    {
        let name = map.keys[n].clone();
        proof {
            lemma_texts_push(names@, name);
            assert(all.take(n + 1) =~= all.take(n as int).push(name@));
        }
        names.push(name);
        n += 1;
    }
    proof {
        assert(all.take(n as int) =~= all);
    }
    let mut i: usize = 0;
    while i < names.len()
        invariant
            i <= names@.len(),
            map.wf(),
            texts(names@) == all,
            forall|k: Seq<char>| #[trigger]
                map@.contains_key(k) <==> start.contains_key(k) && !(has_prefix(k, prefix@)
                    && all.take(i as int).contains(k)),
            forall|k: Seq<char>| map@.contains_key(k) ==> #[trigger] map@[k] == start[k],
        decreases names@.len() - i,
    {
        let name = names[i].as_str();
        proof {
            let now = all.take(i as int);
            let next = all.take(i + 1);
            assert(next =~= now.push(name@));
            assert forall|k: Seq<char>| #[trigger] next.contains(k) == (now.contains(k) || k
                == name@) by {
                if now.contains(k) {
                    assert(next[now.index_of(k)] == k);
                }
                assert(next[i as int] == name@);
                if next.contains(k) && k != name@ {
                    assert(now[next.index_of(k)] == k);
                }
            }
        }
        if starts_with(name, prefix) {
            let _dropped = map.take(name);
        }
        i += 1;
    }
    proof {
        assert(all.take(i as int) =~= all);
        assert(map@ =~= without_prefix(start, prefix@));
    }
}

/// What the selections for the rows and cells of a path start with.
pub open spec fn path_prefix(key: Seq<char>) -> Seq<char> {
    key + unit()
}

proof fn lemma_labels_without_prefix(m: Map<Seq<char>, String>, prefix: Seq<char>)
    ensures
        labels_of(without_prefix(m, prefix)) == without_prefix(labels_of(m), prefix),
{
    assert(labels_of(without_prefix(m, prefix)) =~= without_prefix(labels_of(m), prefix));
}

/// Takes back every selection for the rows and cells of a path, and what is known of its analysis.
pub fn clear_path_row_resolutions(state: &mut RowConflictResolutionState, key: &str)
    requires
        old(state).wf(),
    ensures
        final(state).wf(),
        selections_taken_back(*old(state), *final(state), key@),
        final(state).paths == old(state).paths,
{
    let prefix = cat2(key, "\u{1f}");
    proof {
        lemma_labels_without_prefix(state.rows@, prefix@);
        lemma_labels_without_prefix(state.cells@, prefix@);
    }
    drop_prefix(&mut state.rows, prefix.as_str());
    drop_prefix(&mut state.cells, prefix.as_str());
    let _error = state.analysis_errors.take(key);
}

/// The paths with the resolution of `key` as a whole set.
pub open spec fn path_resolved(
    paths: Map<Seq<char>, MergeResolutionPathState>,
    key: Seq<char>,
    path: MergeResolutionPathState,
    resolution: Option<Seq<char>>,
) -> bool {
    &&& path.original_entries == paths[key].original_entries
    &&& text_option(path.resolution) == resolution
}

/// The record of a merge with the resolution of a path as a whole set; a resolution takes back the
/// selections for its rows and cells, and the error that is known of it.
pub open spec fn resolution_recorded(
    before: RowConflictResolutionState,
    after: RowConflictResolutionState,
    key: Seq<char>,
    resolution: Option<Seq<char>>,
) -> bool {
    &&& before.paths@.contains_key(key)
    &&& after.paths@.contains_key(key)
    &&& after.paths@.remove(key) == before.paths@.remove(key)
    &&& path_resolved(before.paths@, key, after.paths@[key], resolution)
    &&& resolution is Some ==> selections_taken_back(before, after, key)
    &&& resolution is None ==> after.rows == before.rows && after.cells == before.cells
        && after.analysis_errors == before.analysis_errors
}

/// The record of a merge without the selections for the rows and cells of a path, and without the
/// error that is known of it.
pub open spec fn selections_taken_back(
    before: RowConflictResolutionState,
    after: RowConflictResolutionState,
    key: Seq<char>,
) -> bool {
    &&& after.row_labels() == without_prefix(before.row_labels(), path_prefix(key))
    &&& after.cell_labels() == without_prefix(before.cell_labels(), path_prefix(key))
    &&& after.analysis_errors@ == before.analysis_errors@.remove(key)
}

/// Records how a path was resolved as a whole; a resolution takes back the selections for its rows
/// and cells.
pub fn set_merge_path_resolution(
    state: &mut RowConflictResolutionState,
    key: &str,
    resolution: Option<&str>,
) -> (r: Result<(), CommandError>)
    requires
        old(state).wf(),
    ensures
        final(state).wf(),
        match r {
            Err(e) => !old(state).paths@.contains_key(key@) && *final(state) == *old(state) && e@
                == CommandError::Repo(RepoErr::PathNotConflicted(key@)),
            Ok(()) => resolution_recorded(*old(state), *final(state), key@, str_option(resolution)),
        },
{
    let ghost before = state.paths@;
    if !state.paths.contains(key) {
        return Err(CommandError::Repo(RepoErr::PathNotConflicted(key.to_owned())));
    }
    if let Some(path) = state.paths.take(key) {
        let updated = MergeResolutionPathState {
            original_entries: path.original_entries,
            resolution: match resolution {
                Some(label) => Some(label.to_owned()),
                None => None,
            },
        };
        state.paths.put(key, updated);
    }
    proof {
        assert(state.paths@.remove(key@) =~= before.remove(key@));
    }
    if resolution.is_some() {
        clear_path_row_resolutions(state, key);
    }
    Ok(())
}

/// The parts of a row key can be told apart.
pub proof fn law_row_keys_tell_rows_apart(
    path1: Seq<char>,
    table1: Seq<char>,
    identity1: RowIdentityView,
    path2: Seq<char>,
    table2: Seq<char>,
    identity2: RowIdentityView,
)
    requires
        lacks(path1, '\u{1f}'),
        lacks(table1, '\u{1f}'),
        lacks(path2, '\u{1f}'),
        lacks(table2, '\u{1f}'),
        row_key(path1, table1, identity1) == row_key(path2, table2, identity2),
    ensures
        path1 == path2,
        table1 == table2,
        crate::conflicts::identity_token(identity1) == crate::conflicts::identity_token(identity2),
{
    reveal_strlit("\u{1f}");
    assert(unit() =~= seq!['\u{1f}']);
    let t1 = crate::conflicts::identity_token(identity1);
    let t2 = crate::conflicts::identity_token(identity2);
    let rest1 = table1 + unit() + t1;
    let rest2 = table2 + unit() + t2;
    assert(row_key(path1, table1, identity1) =~= path1 + seq!['\u{1f}'] + rest1);
    assert(row_key(path2, table2, identity2) =~= path2 + seq!['\u{1f}'] + rest2);
    lemma_cut_found(path1, '\u{1f}', rest1);
    lemma_cut_found(path2, '\u{1f}', rest2);
    assert(rest1 == rest2);
    assert(rest1 =~= table1 + seq!['\u{1f}'] + t1);
    assert(rest2 =~= table2 + seq!['\u{1f}'] + t2);
    lemma_cut_found(table1, '\u{1f}', t1);
    lemma_cut_found(table2, '\u{1f}', t2);
}

/// Rows of a table with the same selection key are the same row: by their rowids, or by the columns
/// and values of their primary keys, as long as no value of a key is a real.
pub proof fn law_selection_keys_name_one_row(
    path: Seq<char>,
    table: Seq<char>,
    identity1: RowIdentityView,
    identity2: RowIdentityView,
)
    requires
        lacks(path, '\u{1f}'),
        lacks(table, '\u{1f}'),
        identity1 matches RowIdentity::PrimaryKey { parts } ==> all_plain(key_members(parts)),
        identity2 matches RowIdentity::PrimaryKey { parts } ==> all_plain(key_members(parts)),
        row_key(path, table, identity1) == row_key(path, table, identity2),
    ensures
        match (identity1, identity2) {
            (RowIdentity::Rowid(a), RowIdentity::Rowid(b)) => a == b,
            (
                RowIdentity::PrimaryKey { parts: a },
                RowIdentity::PrimaryKey { parts: b },
            ) => key_members(a) == key_members(b),
            _ => false,
        },
{
    law_row_keys_tell_rows_apart(path, table, identity1, path, table, identity2);
    reveal_strlit("rowid:");
    reveal_strlit("key:");
    let t1 = crate::conflicts::identity_token(identity1);
    let t2 = crate::conflicts::identity_token(identity2);
    assert(t1[0] == t2[0]);
    match (identity1, identity2) {
        (RowIdentity::Rowid(a), RowIdentity::Rowid(b)) => {
            assert(t1.skip(6) =~= decimal_int(a as int));
            assert(t2.skip(6) =~= decimal_int(b as int));
            lemma_integer_is_told(a as int, b as int, seq![','], seq![',']);
        },
        (RowIdentity::PrimaryKey { parts: a }, RowIdentity::PrimaryKey { parts: b }) => {
            assert(t1.skip(4) =~= object_text(key_members(a)));
            assert(t2.skip(4) =~= object_text(key_members(b)));
            law_objects_are_told_apart(key_members(a), key_members(b));
        },
        (RowIdentity::Rowid(_), RowIdentity::PrimaryKey { .. }) => {
            assert(t1[0] == 'r' && t2[0] == 'k');
        },
        (RowIdentity::PrimaryKey { .. }, RowIdentity::Rowid(_)) => {
            assert(t1[0] == 'k' && t2[0] == 'r');
        },
    }
}

/// Taking back the selections of a path takes back each for one of its rows and cells, and none for
/// those of another path.
pub proof fn law_clearing_a_path(
    rows: Map<Seq<char>, Seq<char>>,
    key: Seq<char>,
    other: Seq<char>,
    table: Seq<char>,
    identity: RowIdentityView,
    column: Seq<char>,
)
    requires
        lacks(key, '\u{1f}'),
        lacks(other, '\u{1f}'),
        key != other,
    ensures
        !without_prefix(rows, path_prefix(key)).contains_key(row_key(key, table, identity)),
        !without_prefix(rows, path_prefix(key)).contains_key(
            cell_key(key, table, identity, column),
        ),
        without_prefix(rows, path_prefix(key)).contains_key(row_key(other, table, identity))
            == rows.contains_key(row_key(other, table, identity)),
{
    reveal_strlit("\u{1f}");
    assert(unit() =~= seq!['\u{1f}']);
    let token = crate::conflicts::identity_token(identity);
    let mine = row_key(key, table, identity);
    let cell = cell_key(key, table, identity, column);
    let p = path_prefix(key);
    assert(mine.take(p.len() as int) =~= p);
    assert(cell.take(p.len() as int) =~= p);
    let theirs = row_key(other, table, identity);
    let rest = table + unit() + token;
    assert(theirs =~= other + seq!['\u{1f}'] + rest);
    if has_prefix(theirs, p) {
        let tail = theirs.skip(p.len() as int);
        assert(theirs =~= key + seq!['\u{1f}'] + tail);
        lemma_cut_found(key, '\u{1f}', tail);
        lemma_cut_found(other, '\u{1f}', rest);
    }
}

/// A conflict is resolved once a side is selected for its row.
pub proof fn law_selected_row_is_resolved(
    key: Seq<char>,
    conflict: RowMergeConflictView,
    rows: Map<Seq<char>, Seq<char>>,
    cells: Map<Seq<char>, Seq<char>>,
    label: Seq<char>,
)
    ensures
        !is_unresolved(
            key,
            conflict,
            rows.insert(row_key(key, conflict.table, conflict.identity), label),
            cells,
        ),
{
}

/// An entry of the index that belongs to the conflict of a path.
pub open spec fn in_conflict(entry: IndexEntryView, key: Seq<char>) -> bool {
    entry.path == key && entry.stage != IndexStage::Normal
}

/// The entries of the index that belong to the conflict of a path.
pub fn index_conflict_entries(list: Vec<IndexEntry>, key: &str) -> (r: Vec<IndexEntry>)
    ensures
        views(r@) == views(list@).filter(|e: IndexEntryView| in_conflict(e, key@)),
{
    let ghost all = views(list@);
    let ghost keep = |e: IndexEntryView| in_conflict(e, key@);
    let mut out: Vec<IndexEntry> = Vec::new();
    proof {
        reveal(Seq::filter);
        assert(all.take(0) =~= Seq::empty());
        assert(views(out@) =~= Seq::empty());
    }
    for e in it: list
        invariant
            all == views(it.seq()),
            keep == (|e: IndexEntryView| in_conflict(e, key@)),
            views(out@) == all.take(it.index() as int).filter(keep),
    {
        proof {
            reveal(Seq::filter);
            let i = it.index() as int;
            assert(all.take(i + 1).drop_last() =~= all.take(i));
            assert(all.take(i + 1).last() == e@);
            assert(views(out@.push(e)) =~= views(out@).push(e@));
        }
        if same(e.path.as_str(), key) && e.stage != IndexStage::Normal {
            out.push(e);
        }
    }
    proof {
        assert(all.take(all.len() as int) =~= all);
    }
    out
}

/// The entry that a stage holds last.
pub open spec fn last_of_stage(entries: Seq<IndexEntryView>, stage: IndexStage) -> Option<int>
    decreases entries.len(),
{
    if entries.len() == 0 {
        None
    } else if entries.last().stage == stage {
        Some(entries.len() - 1)
    } else {
        last_of_stage(entries.drop_last(), stage)
    }
}

/// The database that a stage of a conflict holds.
pub open spec fn stage_file(entries: Seq<IndexEntryView>, stage: IndexStage) -> Option<
    CommitFileStateView,
> {
    match last_of_stage(entries, stage) {
        Some(i) => entries[i].file,
        None => None,
    }
}

/// The databases of the three stages, where each holds one.
pub open spec fn three_way(entries: Seq<IndexEntryView>) -> Option<
    (CommitFileStateView, CommitFileStateView, CommitFileStateView),
> {
    match (
        stage_file(entries, IndexStage::Base),
        stage_file(entries, IndexStage::Ours),
        stage_file(entries, IndexStage::Theirs),
    ) {
        (Some(base), Some(ours), Some(theirs)) => Some((base, ours, theirs)),
        _ => None,
    }
}

fn find_last_of_stage(entries: &Vec<IndexEntry>, stage: IndexStage) -> (r: Option<usize>)
    ensures
        match r {
            Some(i) => last_of_stage(
                views(entries@),
                stage,
            ) == Some(i as int) && i < entries@.len(),
            None => last_of_stage(views(entries@), stage) is None,
        },
{
    let ghost all = views(entries@);
    let mut n: usize = entries.len();
    proof {
        assert(all.take(n as int) =~= all);
    }
    while n > 0
        invariant
            n <= entries@.len(),
            all == views(entries@),
            last_of_stage(all, stage) == last_of_stage(all.take(n as int), stage),
        decreases n,
    {
        proof {
            assert(all.take(n as int).last() == entries@[n - 1]@);
            assert(all.take(n as int).drop_last() =~= all.take(n - 1));
        }
        if entries[n - 1].stage == stage {
            return Some(n - 1);
        }
        n -= 1;
    }
    None
}

fn file_of_stage(entries: &Vec<IndexEntry>, stage: IndexStage) -> (r: Option<&CommitFileState>)
    ensures
        match r {
            Some(f) => stage_file(views(entries@), stage) == Some(f@),
            None => stage_file(views(entries@), stage) is None,
        },
{
    match find_last_of_stage(entries, stage) {
        Some(i) => {
            proof {
                assert(views(entries@)[i as int] == entries@[i as int]@);
            }
            match &entries[i].file {
                Some(f) => Some(f),
                None => None,
            }
        },
        None => None,
    }
}

/// The base, ours and theirs of a conflict between databases.
pub fn conflict_file_states(entries: &Vec<IndexEntry>) -> (r: Option<
    (&CommitFileState, &CommitFileState, &CommitFileState),
>)
    ensures
        match r {
            Some((base, ours, theirs)) => three_way(views(entries@)) == Some(
                (base@, ours@, theirs@),
            ),
            None => three_way(views(entries@)) is None,
        },
{
    let base = match file_of_stage(entries, IndexStage::Base) {
        Some(f) => f,
        None => return None,
    };
    let ours = match file_of_stage(entries, IndexStage::Ours) {
        Some(f) => f,
        None => return None,
    };
    match file_of_stage(entries, IndexStage::Theirs) {
        Some(theirs) => Some((base, ours, theirs)),
        None => None,
    }
}

/// The kind and the storage of an ordinary file.
pub open spec fn artifact_descriptor(state: CommitArtifactStateView) -> (
    RepoTrackedPathKind,
    RepoPathStorage,
) {
    (
        state.kind,
        if state.large {
            RepoPathStorage::External
        } else {
            RepoPathStorage::Inline
        },
    )
}

pub fn artifact_checkout_path_kind(state: &CommitArtifactState) -> (r: RepoTrackedPathKind)
    ensures
        r == artifact_descriptor(state@).0,
{
    state.kind
}

pub fn artifact_checkout_path_storage(state: &CommitArtifactState) -> (r: RepoPathStorage)
    ensures
        r == artifact_descriptor(state@).1,
{
    if state.large {
        RepoPathStorage::External
    } else {
        RepoPathStorage::Inline
    }
}

pub open spec fn sqlite_descriptor() -> (RepoTrackedPathKind, RepoPathStorage) {
    (RepoTrackedPathKind::SqliteDatabase, RepoPathStorage::SqliteSnapshot)
}

pub open spec fn unknown_descriptor() -> (RepoTrackedPathKind, RepoPathStorage) {
    (RepoTrackedPathKind::BinaryFile, RepoPathStorage::Inline)
}

/// The kind and the storage of the first entry from `i` on that holds anything.
pub open spec fn entries_descriptor(entries: Seq<IndexEntryView>, i: int) -> (
    RepoTrackedPathKind,
    RepoPathStorage,
)
    decreases entries.len() - i,
{
    if i >= entries.len() {
        unknown_descriptor()
    } else if entries[i].file is Some {
        sqlite_descriptor()
    } else {
        match entries[i].artifact {
            Some(a) => artifact_descriptor(a),
            None => entries_descriptor(entries, i + 1),
        }
    }
}

pub fn conflict_path_descriptor_from_entries(entries: &Vec<IndexEntry>) -> (r: (
    RepoTrackedPathKind,
    RepoPathStorage,
))
    ensures
        r == entries_descriptor(views(entries@), 0),
{
    let ghost all = views(entries@);
    let mut i: usize = 0;
    while i < entries.len()
        invariant
            i <= entries@.len(),
            all == views(entries@),
            entries_descriptor(all, 0) == entries_descriptor(all, i as int),
        decreases entries@.len() - i,
    {
        proof {
            assert(all[i as int] == entries@[i as int]@);
        }
        if entries[i].file.is_some() {
            return (RepoTrackedPathKind::SqliteDatabase, RepoPathStorage::SqliteSnapshot);
        }
        if let Some(a) = &entries[i].artifact {
            return (artifact_checkout_path_kind(a), artifact_checkout_path_storage(a));
        }
        i += 1;
    }
    (RepoTrackedPathKind::BinaryFile, RepoPathStorage::Inline)
}

/// The place from `i` on of the entry that a stage of a path holds.
pub open spec fn stage_entry_at(
    entries: Seq<IndexEntryView>,
    key: Seq<char>,
    stage: IndexStage,
    i: int,
) -> Option<int>
    decreases entries.len() - i,
{
    if i >= entries.len() {
        None
    } else if entries[i].path == key && entries[i].stage == stage {
        Some(i)
    } else {
        stage_entry_at(entries, key, stage, i + 1)
    }
}

/// What one side of a conflict holds.
#[derive(Debug)]
pub enum RepoConflictSideState<F = CommitFileState, A = CommitArtifactState> {
    SqliteDatabase(F),
    Artifact(A),
    Deleted,
}

pub type SideStateView = RepoConflictSideState<CommitFileStateView, CommitArtifactStateView>;

/// What a side of the conflict of a path holds.
pub open spec fn side_state(
    entries: Seq<IndexEntryView>,
    key: Seq<char>,
    side: ResolveSide,
) -> Result<SideStateView, CommandError<Seq<char>>> {
    match side.stage() {
        None => invalid("manual resolution does not have an index conflict stage"@),
        Some(stage) => if entries.len() == 0 {
            Err(CommandError::Repo(RepoErr::PathNotConflicted(key)))
        } else {
            match stage_entry_at(entries, key, stage, 0) {
                None => Ok(RepoConflictSideState::Deleted),
                Some(i) => match entries[i].file {
                    Some(f) => Ok(RepoConflictSideState::SqliteDatabase(f)),
                    None => match entries[i].artifact {
                        Some(a) => Ok(RepoConflictSideState::Artifact(a)),
                        None => Ok(RepoConflictSideState::Deleted),
                    },
                },
            }
        },
    }
}

pub open spec fn side_view(s: RepoConflictSideState<&CommitFileState, &CommitArtifactState>) -> SideStateView {
    match s {
        RepoConflictSideState::SqliteDatabase(f) => RepoConflictSideState::SqliteDatabase(f@),
        RepoConflictSideState::Artifact(a) => RepoConflictSideState::Artifact(a@),
        RepoConflictSideState::Deleted => RepoConflictSideState::Deleted,
    }
}

pub fn conflict_side_state<'a>(entries: &'a Vec<IndexEntry>, key: &str, side: ResolveSide) -> (r:
    Result<RepoConflictSideState<&'a CommitFileState, &'a CommitArtifactState>, CommandError>)
    ensures
        match r {
            Ok(s) => side_state(views(entries@), key@, side) == Ok::<_, CommandError<Seq<char>>>(
                side_view(s),
            ),
            Err(e) => side_state(views(entries@), key@, side) == Err::<SideStateView, _>(e@),
        },
{
    let ghost all = views(entries@);
    let stage = match side.index_stage() {
        Some(stage) => stage,
        None => {
            return Err(
                invalid_command("manual resolution does not have an index conflict stage"),
            );
        },
    };
    if entries.len() == 0 {
        return Err(CommandError::Repo(RepoErr::PathNotConflicted(key.to_owned())));
    }
    let mut i: usize = 0;
    while i < entries.len()
        invariant
            i <= entries@.len(),
            entries@.len() > 0,
            all == views(entries@),
            side.stage() == Some(stage),
            stage_entry_at(all, key@, stage, 0) == stage_entry_at(all, key@, stage, i as int),
        decreases entries@.len() - i,
    {
        proof {
            assert(all[i as int] == entries@[i as int]@);
        }
        if same(entries[i].path.as_str(), key) && entries[i].stage == stage {
            if let Some(f) = &entries[i].file {
                return Ok(RepoConflictSideState::SqliteDatabase(f));
            }
            if let Some(a) = &entries[i].artifact {
                return Ok(RepoConflictSideState::Artifact(a));
            }
            return Ok(RepoConflictSideState::Deleted);
        }
        i += 1;
    }
    Ok(RepoConflictSideState::Deleted)
}

/// What is done to resolve a path. `current` tells that the path is the open database.
#[derive(Debug, Clone, Copy, PartialEq, Eq, Structural)]
pub enum ResolveStep {
    /// Selects a side for the one row that was named.
    SelectRow,
    /// Merges row by row where that is possible, and otherwise takes the side.
    MergeRows,
    /// Takes the database of the side.
    TakeDatabase { current: bool },
    /// Takes the ordinary file of the side.
    TakeArtifact { current: bool },
    /// Takes the deletion of the side.
    TakeDeletion { current: bool },
    /// Stages what the open database holds.
    StageCurrent,
    /// Stages the ordinary file that stands there.
    StageArtifact,
    /// Stages the database that stands there.
    StageDatabase,
    StageDeletion,
}

/// What resolving a path starts with; only paths of the merge can be resolved.
pub open spec fn resolve_start(
    known: bool,
    key: Seq<char>,
    side: ResolveSide,
    names_row: bool,
    current: bool,
    standing: PathState,
) -> Result<ResolveStep, CommandError<Seq<char>>> {
    if !known {
        Err(CommandError::Repo(RepoErr::PathNotConflicted(key)))
    } else if names_row {
        Ok(ResolveStep::SelectRow)
    } else if side != ResolveSide::Manual {
        Ok(ResolveStep::MergeRows)
    } else if current {
        Ok(ResolveStep::StageCurrent)
    } else {
        match standing {
            PathState::Missing => Ok(ResolveStep::StageDeletion),
            PathState::SqliteFile => Ok(ResolveStep::StageDatabase),
            _ => Ok(ResolveStep::StageArtifact),
        }
    }
}

/// Decides what resolving a path starts with; `standing` is what stands at the path.
pub fn resolve_repo_conflict_for_file(
    state: &RowConflictResolutionState,
    key: &str,
    current_key: &str,
    side: ResolveSide,
    names_row: bool,
    standing: PathState,
) -> (r: Result<ResolveStep, CommandError>)
    requires
        state.wf(),
    ensures
        match r {
            Ok(step) => resolve_start(
                state.paths@.contains_key(key@),
                key@,
                side,
                names_row,
                key@ == current_key@,
                standing,
            ) == Ok::<_, CommandError<Seq<char>>>(step),
            Err(e) => resolve_start(
                state.paths@.contains_key(key@),
                key@,
                side,
                names_row,
                key@ == current_key@,
                standing,
            ) == Err::<ResolveStep, _>(e@),
        },
{
    if !state.paths.contains(key) {
        return Err(CommandError::Repo(RepoErr::PathNotConflicted(key.to_owned())));
    }
    if names_row {
        return Ok(ResolveStep::SelectRow);
    }
    if side != ResolveSide::Manual {
        return Ok(ResolveStep::MergeRows);
    }
    if same(key, current_key) {
        return Ok(ResolveStep::StageCurrent);
    }
    match standing {
        PathState::Missing => Ok(ResolveStep::StageDeletion),
        PathState::SqliteFile => Ok(ResolveStep::StageDatabase),
        _ => Ok(ResolveStep::StageArtifact),
    }
}

/// What is done with the side that was taken as a whole.
pub open spec fn take_side(state: SideStateView, current: bool) -> ResolveStep {
    match state {
        RepoConflictSideState::SqliteDatabase(_) => ResolveStep::TakeDatabase { current },
        RepoConflictSideState::Artifact(_) => ResolveStep::TakeArtifact { current },
        RepoConflictSideState::Deleted => ResolveStep::TakeDeletion { current },
    }
}

/// Decides what is done where a side is taken as a whole.
pub fn resolve_with_side(entries: &Vec<IndexEntry>, key: &str, current_key: &str, side: ResolveSide) -> (r:
    Result<ResolveStep, CommandError>)
    ensures
        match r {
            Ok(step) => side_state(views(entries@), key@, side) is Ok && step == take_side(
                side_state(views(entries@), key@, side)->Ok_0,
                key@ == current_key@,
            ),
            Err(e) => side_state(views(entries@), key@, side) == Err::<SideStateView, _>(e@),
        },
{
    let current: bool = same(key, current_key);
    match conflict_side_state(entries, key, side) {
        Ok(RepoConflictSideState::SqliteDatabase(_)) => Ok(ResolveStep::TakeDatabase { current }),
        Ok(RepoConflictSideState::Artifact(_)) => Ok(ResolveStep::TakeArtifact { current }),
        Ok(RepoConflictSideState::Deleted) => Ok(ResolveStep::TakeDeletion { current }),
        Err(e) => Err(e),
    }
}

/// A row-level merge takes the place of a side: the analysis found row conflicts and nothing that
/// rows cannot express.
pub open spec fn rows_resolve(
    has_conflicts: bool,
    schema_conflicts: bool,
    opaque_changes: bool,
    side: ResolveSide,
) -> bool {
    has_conflicts && !schema_conflicts && !opaque_changes && side != ResolveSide::Manual
}

pub fn row_resolution_applies(
    has_conflicts: bool,
    schema_conflicts: bool,
    opaque_changes: bool,
    side: ResolveSide,
) -> (r: bool)
    ensures
        r == rows_resolve(has_conflicts, schema_conflicts, opaque_changes, side),
{
    has_conflicts && !schema_conflicts && !opaque_changes && side != ResolveSide::Manual
}

/// What is done to put a path back into conflict.
#[derive(Debug, Clone, Copy, PartialEq, Eq, Structural)]
pub enum UnresolveStep {
    /// Restores the database: the row-level merge, or else that of our side.
    RestoreDatabase { current: bool },
    /// Empties the open database.
    EmptyCurrent,
    /// Removes the file.
    RemoveFile,
    /// Restores the ordinary file of our side.
    RestoreArtifact { current: bool },
}

/// What putting a path back into conflict does: `merged` tells that its rows could be merged.
pub open spec fn unresolve_step(
    entries: Seq<IndexEntryView>,
    key: Seq<char>,
    current: bool,
    merged: bool,
) -> Result<UnresolveStep, CommandError<Seq<char>>> {
    let ours = first_of_stage(entries, IndexStage::Ours, 0);
    let gone = if current {
        UnresolveStep::EmptyCurrent
    } else {
        UnresolveStep::RemoveFile
    };
    if entries.len() == 0 {
        invalid("path `"@ + key + "` has no resolve-undo record in the active merge"@)
    } else if some_file(entries) {
        if merged || (ours is Some && entries[ours->0].file is Some) {
            Ok(UnresolveStep::RestoreDatabase { current })
        } else {
            Ok(gone)
        }
    } else if ours is Some && entries[ours->0].artifact is Some {
        Ok(UnresolveStep::RestoreArtifact { current })
    } else {
        Ok(gone)
    }
}

/// The first entry from `i` on of a stage.
pub open spec fn first_of_stage(entries: Seq<IndexEntryView>, stage: IndexStage, i: int) -> Option<
    int,
>
    decreases entries.len() - i,
{
    if i >= entries.len() {
        None
    } else if entries[i].stage == stage {
        Some(i)
    } else {
        first_of_stage(entries, stage, i + 1)
    }
}

/// Some entry holds a database.
pub open spec fn some_file(entries: Seq<IndexEntryView>) -> bool {
    exists|i: int| 0 <= i < entries.len() && (#[trigger] entries[i]).file is Some
}

pub fn has_file_entry(entries: &Vec<IndexEntry>) -> (r: bool)
    ensures
        r == some_file(views(entries@)),
{
    let mut i: usize = 0;
    while i < entries.len()
        invariant
            i <= entries@.len(),
            forall|j: int| 0 <= j < i ==> (#[trigger] views(entries@)[j]).file is None,
        decreases entries@.len() - i,
    {
        if entries[i].file.is_some() {
            proof {
                assert(views(entries@)[i as int].file is Some);
            }
            return true;
        }
        i += 1;
    }
    false
}

fn find_first_of_stage(entries: &Vec<IndexEntry>, stage: IndexStage) -> (r: Option<usize>)
    ensures
        match r {
            Some(i) => first_of_stage(views(entries@), stage, 0) == Some(i as int) && i
                < entries@.len(),
            None => first_of_stage(views(entries@), stage, 0) is None,
        },
{
    let ghost all = views(entries@);
    let mut i: usize = 0;
    while i < entries.len()
        invariant
            i <= entries@.len(),
            all == views(entries@),
            first_of_stage(all, stage, 0) == first_of_stage(all, stage, i as int),
        decreases entries@.len() - i,
    {
        proof {
            assert(all[i as int] == entries@[i as int]@);
        }
        if entries[i].stage == stage {
            return Some(i);
        }
        i += 1;
    }
    None
}

/// Decides how a path is put back into conflict.
pub fn unresolve_repo_conflict_for_file(
    entries: &Vec<IndexEntry>,
    key: &str,
    current_key: &str,
    merged: bool,
) -> (r: Result<UnresolveStep, CommandError>)
    ensures
        match r {
            Ok(step) => unresolve_step(views(entries@), key@, key@ == current_key@, merged) == Ok::<
                _,
                CommandError<Seq<char>>,
            >(step),
            Err(e) => unresolve_step(views(entries@), key@, key@ == current_key@, merged) == Err::<
                UnresolveStep,
                _,
            >(e@),
        },
{
    if entries.len() == 0 {
        return Err(
            CommandError::InvalidCommand(
                cat3("path `", key, "` has no resolve-undo record in the active merge"),
            ),
        );
    }
    let current: bool = same(key, current_key);
    let ours: Option<usize> = find_first_of_stage(entries, IndexStage::Ours);
    let mut our_file: bool = false;
    let mut our_artifact: bool = false;
    if let Some(i) = ours {
        proof {
            assert(views(entries@)[i as int] == entries@[i as int]@);
        }
        our_file = entries[i].file.is_some();
        our_artifact = entries[i].artifact.is_some();
    }
    if has_file_entry(entries) {
        if merged || our_file {
            return Ok(UnresolveStep::RestoreDatabase { current });
        }
    } else if our_artifact {
        return Ok(UnresolveStep::RestoreArtifact { current });
    }
    if current {
        Ok(UnresolveStep::EmptyCurrent)
    } else {
        Ok(UnresolveStep::RemoveFile)
    }
}

/// Takes the selections and the resolution of a path back.
pub fn reopen_unresolved_path(state: &mut RowConflictResolutionState, key: &str)
    requires
        old(state).wf(),
    ensures
        final(state).wf(),
        selections_taken_back(*old(state), *final(state), key@),
        final(state).paths@ == path_reopened(old(state).paths@, key@),
{
    clear_path_row_resolutions(state, key);
    let ghost before = state.paths@;
    if let Some(path) = state.paths.take(key) {
        state.paths.put(
            key,
            MergeResolutionPathState {
                original_entries: path.original_entries,
                resolution: None,
            },
        );
    }
    proof {
        assert(state.paths@ =~= path_reopened(before, key@));
    }
}

/// Reopening a path undoes its resolution: the path can be put back from the entries that the merge
/// began with, it is unresolved again, and no selection and no error of it is left. Everything else
/// on record is as it was before the path was resolved.
pub proof fn law_reopening_undoes_a_resolution(
    start: RowConflictResolutionState,
    resolved: RowConflictResolutionState,
    reopened: RowConflictResolutionState,
    key: Seq<char>,
    label: Seq<char>,
    from_index: Vec<IndexEntry>,
    current: bool,
    merged: bool,
)
    requires
        resolution_recorded(start, resolved, key, Some(label)),
        start.paths@[key].original_entries@.len() > 0,
        selections_taken_back(resolved, reopened, key),
        reopened.paths@ == path_reopened(resolved.paths@, key),
    ensures
        original_entries_of(resolved, from_index, key) == start.paths@[key].original_entries,
        unresolve_step(
            views(original_entries_of(resolved, from_index, key)@),
            key,
            current,
            merged,
        ) is Ok,
        reopened.paths@ == path_reopened(start.paths@, key),
        start.paths@[key].resolution is None ==> reopened.paths@ == start.paths@,
        selections_taken_back(start, reopened, key),
        forall|k: Seq<char>| #[trigger]
            reopened.row_labels().contains_key(k) ==> !has_prefix(k, path_prefix(key)),
        forall|k: Seq<char>| #[trigger]
            reopened.cell_labels().contains_key(k) ==> !has_prefix(k, path_prefix(key)),
        !reopened.analysis_errors@.contains_key(key),
{
    let p = path_prefix(key);
    assert(without_prefix(without_prefix(start.row_labels(), p), p) =~= without_prefix(
        start.row_labels(),
        p,
    ));
    assert(without_prefix(without_prefix(start.cell_labels(), p), p) =~= without_prefix(
        start.cell_labels(),
        p,
    ));
    assert(start.analysis_errors@.remove(key).remove(key) =~= start.analysis_errors@.remove(key));
    let (before, after) = (start.paths@, resolved.paths@);
    assert forall|k: Seq<char>| #[trigger]
        reopened.paths@.contains_key(k) == path_reopened(before, key).contains_key(k) && (
        reopened.paths@.contains_key(k) ==> reopened.paths@[k] == path_reopened(before, key)[k]) by {
        if k != key {
            assert(after.remove(key).contains_key(k) == before.remove(key).contains_key(k));
            assert(after.remove(key)[k] == before.remove(key)[k]);
        }
    }
    assert(reopened.paths@ =~= path_reopened(start.paths@, key));
    if start.paths@[key].resolution is None {
        assert(reopened.paths@ =~= start.paths@);
    }
}

/// The side whose rows are taken.
#[derive(Debug, Clone, Copy, PartialEq, Eq, Structural)]
pub enum RowMergeSide {
    Ours,
    Theirs,
}

pub open spec fn side_of_label(label: Seq<char>) -> Option<RowMergeSide> {
    if label == "ours"@ {
        Some(RowMergeSide::Ours)
    } else if label == "theirs"@ {
        Some(RowMergeSide::Theirs)
    } else {
        None
    }
}

pub fn row_merge_side_from_label(label: &str) -> (r: Option<RowMergeSide>)
    ensures
        r == side_of_label(label@),
{
    if same(label, "ours") {
        Some(RowMergeSide::Ours)
    } else if same(label, "theirs") {
        Some(RowMergeSide::Theirs)
    } else {
        None
    }
}

/// The change that a resolved conflict adds to those that do not conflict.
#[derive(Debug, Clone, PartialEq, Eq)]
pub enum RowDirective<L = Vec<(String, RowMergeSide)>> {
    /// The row of theirs.
    TakeTheirs,
    /// The cells of the sides that were selected.
    TakeCells(L),
}

/// The side that was selected for a cell.
pub open spec fn cell_choice(
    key: Seq<char>,
    conflict: RowMergeConflictView,
    cells: Map<Seq<char>, Seq<char>>,
    c: int,
) -> Option<(Seq<char>, RowMergeSide)> {
    let column = conflict.cell_columns[c];
    let k = cell_key(key, conflict.table, conflict.identity, column);
    if cells.contains_key(k) {
        match side_of_label(cells[k]) {
            Some(side) => Some((column, side)),
            None => None,
        }
    } else {
        None
    }
}

/// The sides that were selected for the first `n` cells.
pub open spec fn cell_choices(
    key: Seq<char>,
    conflict: RowMergeConflictView,
    cells: Map<Seq<char>, Seq<char>>,
    n: int,
) -> Seq<(Seq<char>, RowMergeSide)>
    decreases n,
{
    if n <= 0 {
        Seq::empty()
    } else {
        match cell_choice(key, conflict, cells, n - 1) {
            Some(choice) => cell_choices(key, conflict, cells, n - 1).push(choice),
            None => cell_choices(key, conflict, cells, n - 1),
        }
    }
}

/// Some cell is taken from theirs.
pub open spec fn takes_theirs(choices: Seq<(Seq<char>, RowMergeSide)>) -> bool {
    exists|i: int| 0 <= i < choices.len() && (#[trigger] choices[i]).1 != RowMergeSide::Ours
}

/// The change that the resolution of a conflict adds: none where our row stays as it is.
pub open spec fn directive(
    key: Seq<char>,
    conflict: RowMergeConflictView,
    rows: Map<Seq<char>, Seq<char>>,
    cells: Map<Seq<char>, Seq<char>>,
) -> Option<RowDirective<Seq<(Seq<char>, RowMergeSide)>>> {
    let k = row_key(key, conflict.table, conflict.identity);
    if rows.contains_key(k) {
        if side_of_label(rows[k]) == Some(RowMergeSide::Theirs) {
            Some(RowDirective::TakeTheirs)
        } else {
            None
        }
    } else if conflict.reason == RowMergeConflictReason::Cell {
        let choices = cell_choices(key, conflict, cells, conflict.cell_columns.len() as int);
        if takes_theirs(choices) {
            Some(RowDirective::TakeCells(choices))
        } else {
            None
        }
    } else {
        None
    }
}

pub open spec fn choice_views(list: Seq<(String, RowMergeSide)>) -> Seq<(Seq<char>, RowMergeSide)> {
    Seq::new(list.len(), |i: int| (list[i].0@, list[i].1))
}

pub open spec fn directive_view(d: Option<RowDirective>) -> Option<
    RowDirective<Seq<(Seq<char>, RowMergeSide)>>,
> {
    match d {
        Some(RowDirective::TakeTheirs) => Some(RowDirective::TakeTheirs),
        Some(RowDirective::TakeCells(list)) => Some(RowDirective::TakeCells(choice_views(list@))),
        None => None,
    }
}

/// The change that the resolution of a conflict adds to those that do not conflict.
#[verifier::loop_isolation(false)]
pub fn row_resolution_directive(
    key: &str,
    conflict: &RowMergeConflict,
    state: &RowConflictResolutionState,
) -> (r: Option<RowDirective>)
    requires
        state.wf(),
    ensures
        directive_view(r) == directive(
            key@,
            conflict@,
            state.row_labels(),
            state.cell_labels(),
        ),
{
    let row = row_conflict_resolution_key(key, conflict.table.as_str(), &conflict.identity);
    if let Some(label) = state.rows.get(row.as_str()) {
        return match row_merge_side_from_label(label.as_str()) {
            Some(RowMergeSide::Theirs) => Some(RowDirective::TakeTheirs),
            _ => None,
        };
    }
    if conflict.reason != RowMergeConflictReason::Cell {
        return None;
    }
    let ghost cells = state.cell_labels();
    let mut list: Vec<(String, RowMergeSide)> = Vec::new();
    let mut theirs: bool = false;
    let mut c: usize = 0;
    proof {
        assert(choice_views(list@) =~= Seq::empty());
    }
    while c < conflict.cell_columns.len()
        invariant
            c <= conflict.cell_columns@.len(),
            choice_views(list@) == cell_choices(key@, conflict@, cells, c as int),
            theirs == takes_theirs(choice_views(list@)),
        decreases conflict.cell_columns@.len() - c,
    {
        let column = &conflict.cell_columns[c];
        proof {
            assert(conflict@.cell_columns[c as int] == column@);
        }
        let cell = cell_conflict_resolution_key(
            key,
            conflict.table.as_str(),
            &conflict.identity,
            column.as_str(),
        );
        if let Some(label) = state.cells.get(cell.as_str()) {
            if let Some(side) = row_merge_side_from_label(label.as_str()) {
                let choice = (column.clone(), side);
                proof {
                    let now = choice_views(list@);
                    let next = now.push((choice.0@, side));
                    assert(choice_views(list@.push(choice)) =~= next);
                    if takes_theirs(now) {
                        let i = choose|i: int|
                            0 <= i < now.len() && (#[trigger] now[i]).1 != RowMergeSide::Ours;
                        assert(next[i].1 != RowMergeSide::Ours);
                    }
                    if side != RowMergeSide::Ours {
                        assert(next[now.len() as int].1 != RowMergeSide::Ours);
                    }
                    if takes_theirs(next) && side == RowMergeSide::Ours {
                        let i = choose|i: int|
                            0 <= i < next.len() && (#[trigger] next[i]).1 != RowMergeSide::Ours;
                        assert(now[i].1 != RowMergeSide::Ours);
                    }
                }
                list.push(choice);
                if side != RowMergeSide::Ours {
                    theirs = true;
                }
            }
        }
        c += 1;
    }
    if theirs {
        Some(RowDirective::TakeCells(list))
    } else {
        None
    }
}

/// What becomes of the recorded state of a merge when it is read.
#[derive(Debug, Clone, Copy, PartialEq, Eq, Structural)]
pub enum ResolutionStateStep {
    /// It belongs to another merge: it is made anew from the index.
    Rebuild,
    /// It was written before the merge policy was recorded with it.
    Upgrade,
    Use,
}

/// What becomes of a recorded state: `same_merge` tells that its heads are those of the merge in
/// progress, and `policy_matches` that its policy is the supported version and has its token.
pub open spec fn state_step(same_merge: bool, schema_version: u32, policy_matches: bool) -> Result<
    ResolutionStateStep,
    CommandError<Seq<char>>,
> {
    if !same_merge {
        Ok(ResolutionStateStep::Rebuild)
    } else if schema_version == 1 {
        Ok(ResolutionStateStep::Upgrade)
    } else if schema_version != 2 || !policy_matches {
        invalid("active merge has an invalid or unsupported frozen merge policy"@)
    } else {
        Ok(ResolutionStateStep::Use)
    }
}

fn same_option(a: &Option<String>, b: &Option<String>) -> (r: bool)
    ensures
        r == (text_option(*a) == text_option(*b)),
{
    match (a, b) {
        (Some(x), Some(y)) => same(x.as_str(), y.as_str()),
        (None, None) => true,
        _ => false,
    }
}

/// Decides what becomes of the recorded state of a merge when it is read.
pub fn resolution_state_step(
    recorded_orig_head: &Option<String>,
    recorded_merge_head: &Option<String>,
    orig_head: &Option<String>,
    merge_head: &Option<String>,
    schema_version: u32,
    policy_matches: bool,
) -> (r: Result<ResolutionStateStep, CommandError>)
    ensures
        ({
            let same_merge = text_option(*recorded_orig_head) == text_option(*orig_head)
                && text_option(*recorded_merge_head) == text_option(*merge_head);
            match r {
                Ok(step) => state_step(same_merge, schema_version, policy_matches) == Ok::<
                    _,
                    CommandError<Seq<char>>,
                >(step),
                Err(e) => state_step(same_merge, schema_version, policy_matches) == Err::<
                    ResolutionStateStep,
                    _,
                >(e@),
            }
        }),
{
    if !same_option(recorded_orig_head, orig_head) || !same_option(
        recorded_merge_head,
        merge_head,
    ) {
        return Ok(ResolutionStateStep::Rebuild);
    }
    if schema_version == 1 {
        return Ok(ResolutionStateStep::Upgrade);
    }
    if schema_version != 2 || !policy_matches {
        return Err(
            invalid_command("active merge has an invalid or unsupported frozen merge policy"),
        );
    }
    Ok(ResolutionStateStep::Use)
}

/// A way in which changes of SQLite's own tables are resolved.
#[derive(Debug, Clone, Copy, PartialEq, Eq, Structural)]
pub enum RowMergeInternalResolver {
    SequenceMax,
    Rebuild,
    Reindex,
}

/// The subject is one that the resolver is made for.
pub open spec fn resolver_allowed(subject: Seq<char>, resolver: RowMergeInternalResolver) -> bool {
    if subject == "sqlite_sequence"@ {
        resolver == RowMergeInternalResolver::SequenceMax
    } else if subject == "sqlite_stat1"@ || subject == "sqlite_stat2"@ || subject
        == "sqlite_stat3"@ || subject == "sqlite_stat4"@ {
        resolver == RowMergeInternalResolver::Rebuild
    } else {
        subject == "index_btree"@ && resolver == RowMergeInternalResolver::Reindex
    }
}

pub fn internal_resolver_allowed_for_subject(
    subject: &str,
    resolver: RowMergeInternalResolver,
) -> (r: bool)
    ensures
        r == resolver_allowed(subject@, resolver),
{
    if same(subject, "sqlite_sequence") {
        resolver == RowMergeInternalResolver::SequenceMax
    } else if same(subject, "sqlite_stat1") || same(subject, "sqlite_stat2") || same(
        subject,
        "sqlite_stat3",
    ) || same(subject, "sqlite_stat4") {
        resolver == RowMergeInternalResolver::Rebuild
    } else {
        same(subject, "index_btree") && resolver == RowMergeInternalResolver::Reindex
    }
}

} // verus!
