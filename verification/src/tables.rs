//! How many rows of each table a commit changes.
use vstd::prelude::*;

use crate::order::{ascending, KeyMap};
use crate::row_diff::{RowChange, RowChangeView, TableChanges, TableChangesView};
use crate::show::views;

verus! {

/// The rows of a table that a commit inserts, deletes and updates.
#[derive(Debug, Clone, PartialEq, Eq)]
pub struct CommitTableSummary<S = String> {
    pub name: S,
    pub inserts: usize,
    pub deletes: usize,
    pub updates: usize,
}

pub type CommitTableSummaryView = CommitTableSummary<Seq<char>>;

impl View for CommitTableSummary<String> {
    type V = CommitTableSummaryView;

    open spec fn view(&self) -> CommitTableSummaryView {
        CommitTableSummary {
            name: self.name@,
            inserts: self.inserts,
            deletes: self.deletes,
            updates: self.updates,
        }
    }
}

/// Numbers of inserted, deleted and updated rows.
#[derive(Debug, Clone, Copy, PartialEq, Eq, Structural)]
pub struct RowCounts {
    pub inserts: usize,
    pub deletes: usize,
    pub updates: usize,
}

pub open spec fn is_insert(c: RowChangeView) -> bool {
    c is Insert || c is PrimaryKeyInsert
}

pub open spec fn is_delete(c: RowChangeView) -> bool {
    c is Delete || c is PrimaryKeyDelete
}

pub open spec fn is_update(c: RowChangeView) -> bool {
    c is Update || c is PrimaryKeyUpdate
}

/// How many changes are of a sort.
pub open spec fn counted_as(changes: Seq<RowChangeView>, p: spec_fn(RowChangeView) -> bool) -> nat
    decreases changes.len(),
{
    if changes.len() == 0 {
        0
    } else {
        counted_as(changes.drop_last(), p) + if p(changes.last()) {
            1nat
        } else {
            0nat
        }
    }
}

/// The counts of a list of changes.
pub open spec fn counts_are(changes: Seq<RowChangeView>, c: RowCounts) -> bool {
    &&& c.inserts == counted_as(changes, |x: RowChangeView| is_insert(x))
    &&& c.deletes == counted_as(changes, |x: RowChangeView| is_delete(x))
    &&& c.updates == counted_as(changes, |x: RowChangeView| is_update(x))
}

/// Every change is counted once.
pub proof fn law_counts_add_up(changes: Seq<RowChangeView>, c: RowCounts)
    requires
        counts_are(changes, c),
    ensures
        c.inserts + c.deletes + c.updates == changes.len(),
{
    lemma_counts(changes);
}

proof fn lemma_counts(changes: Seq<RowChangeView>)
    ensures
        counted_as(changes, |x: RowChangeView| is_insert(x)) + counted_as(
            changes,
            |x: RowChangeView| is_delete(x),
        ) + counted_as(changes, |x: RowChangeView| is_update(x)) == changes.len(),
    decreases changes.len(),
{
    if changes.len() > 0 {
        lemma_counts(changes.drop_last());
    }
}

pub fn count_changes(changes: &Vec<RowChange>) -> (r: RowCounts)
    ensures
        counts_are(views(changes@), r),
{
    let ghost all = views(changes@);
    let mut r = RowCounts { inserts: 0, deletes: 0, updates: 0 };
    let n: usize = changes.len();
    let mut i: usize = 0;
    proof {
        assert(all.take(0) =~= Seq::empty());
    }
    while i < n
        invariant
            n == changes@.len(),
            i <= n,
            all == views(changes@),
            counts_are(all.take(i as int), r),
            r.inserts + r.deletes + r.updates == i,
        decreases n - i,
    {
        proof {
            assert(all.take(i + 1).drop_last() =~= all.take(i as int));
            assert(all.take(i + 1).last() == changes@[i as int]@);
        }
        match &changes[i] {
            RowChange::Insert { .. } | RowChange::PrimaryKeyInsert { .. } => {
                r.inserts = r.inserts + 1;
            },
            RowChange::Delete { .. } | RowChange::PrimaryKeyDelete { .. } => {
                r.deletes = r.deletes + 1;
            },
            RowChange::Update { .. } | RowChange::PrimaryKeyUpdate { .. } => {
                r.updates = r.updates + 1;
            },
        }
        i += 1;
    }
    proof {
        assert(all.take(n as int) =~= all);
    }
    r
}

/// The summary of a table: none where it has no name or nothing changed.
pub open spec fn summary_of(name: Seq<char>, c: RowCounts) -> Option<CommitTableSummaryView> {
    if name.len() == 0 || (c.inserts == 0 && c.deletes == 0 && c.updates == 0) {
        None
    } else {
        Some(
            CommitTableSummary {
                name,
                inserts: c.inserts,
                deletes: c.deletes,
                updates: c.updates,
            },
        )
    }
}

pub fn table_summary(name: String, counts: RowCounts) -> (r: Option<CommitTableSummary>)
    ensures
        crate::show::view_option(r) == summary_of(name@, counts),
{
    if name.as_str().is_empty() || (counts.inserts == 0 && counts.deletes == 0 && counts.updates == 0) {
        None
    } else {
        Some(
            CommitTableSummary {
                name,
                inserts: counts.inserts,
                deletes: counts.deletes,
                updates: counts.updates,
            },
        )
    }
}

/// How the tables of a changed database are summarised.
#[derive(Debug, Clone, Copy, PartialEq, Eq, Structural)]
pub enum SummaryRoute {
    /// Every row of the new state is inserted.
    Inserted,
    /// Every row of the former state is deleted.
    Deleted,
    /// The rows of the two states are compared.
    Compared,
    /// There is nothing to look at.
    Nothing,
}

/// `from` and `to` tell of each state that is there whether it is empty.
pub open spec fn summary_route(from: Option<bool>, to: Option<bool>) -> SummaryRoute {
    let had = from == Some(false);
    let has = to == Some(false);
    if had && has {
        SummaryRoute::Compared
    } else if has {
        SummaryRoute::Inserted
    } else if had {
        SummaryRoute::Deleted
    } else {
        SummaryRoute::Nothing
    }
}

pub fn repo_file_table_summary(
    from_empty: Option<bool>,
    to_empty: Option<bool>,
) -> (r: SummaryRoute)
    ensures
        r == summary_route(from_empty, to_empty),
{
    let had: bool = match from_empty {
        Some(empty) => !empty,
        None => false,
    };
    let has: bool = match to_empty {
        Some(empty) => !empty,
        None => false,
    };
    if had && has {
        SummaryRoute::Compared
    } else if has {
        SummaryRoute::Inserted
    } else if had {
        SummaryRoute::Deleted
    } else {
        SummaryRoute::Nothing
    }
}

/// The summaries of the tables that a comparison found changed.
pub open spec fn changed_tables(tables: Seq<TableChangesView>) -> Seq<CommitTableSummaryView>
    decreases tables.len(),
{
    if tables.len() == 0 {
        Seq::empty()
    } else {
        let t = tables.last();
        let before = changed_tables(tables.drop_last());
        if t.table_name.len() == 0 || t.changes.len() == 0 {
            before
        } else {
            before.push(
                CommitTableSummary {
                    name: t.table_name,
                    inserts: counted_as(t.changes, |x: RowChangeView| is_insert(x)) as usize,
                    deletes: counted_as(t.changes, |x: RowChangeView| is_delete(x)) as usize,
                    updates: counted_as(t.changes, |x: RowChangeView| is_update(x)) as usize,
                },
            )
        }
    }
}

pub fn table_changes_summary(tables: &Vec<TableChanges>) -> (r: Vec<CommitTableSummary>)
    ensures
        views(r@) == changed_tables(views(tables@)),
{
    let ghost all = views(tables@);
    let mut out: Vec<CommitTableSummary> = Vec::new();
    let n: usize = tables.len();
    let mut i: usize = 0;
    proof {
        assert(all.take(0) =~= Seq::empty());
        assert(views(out@) =~= Seq::empty());
    }
    while i < n
        invariant
            n == tables@.len(),
            i <= n,
            all == views(tables@),
            views(out@) == changed_tables(all.take(i as int)),
        decreases n - i,
    {
        let counts = count_changes(&tables[i].changes);
        proof {
            assert(all.take(i + 1).drop_last() =~= all.take(i as int));
            assert(all.take(i + 1).last() == tables@[i as int]@);
            law_counts_add_up(views(tables@[i as int].changes@), counts);
        }
        if let Some(summary) = table_summary(tables[i].table_name.clone(), counts) {
            proof {
                assert(views(out@.push(summary)) =~= views(out@).push(summary@));
            }
            out.push(summary);
        }
        i += 1;
    }
    proof {
        assert(all.take(n as int) =~= all);
    }
    out
}

/// A table and the number of its rows.
#[derive(Debug, Clone, PartialEq, Eq)]
pub struct TableRows<S = String> {
    pub name: S,
    pub rows: usize,
}

pub type TableRowsView = TableRows<Seq<char>>;

impl View for TableRows<String> {
    type V = TableRowsView;

    open spec fn view(&self) -> TableRowsView {
        TableRows { name: self.name@, rows: self.rows }
    }
}

/// Whether a whole database is inserted or deleted.
#[derive(Debug, Clone, Copy, PartialEq, Eq, Structural)]
pub enum SnapshotSummaryMode {
    Inserted,
    Deleted,
}

pub open spec fn whole_table(t: TableRowsView, mode: SnapshotSummaryMode) -> Option<CommitTableSummaryView> {
    summary_of(
        t.name,
        match mode {
            SnapshotSummaryMode::Inserted => RowCounts { inserts: t.rows, deletes: 0, updates: 0 },
            SnapshotSummaryMode::Deleted => RowCounts { inserts: 0, deletes: t.rows, updates: 0 },
        },
    )
}

/// The summaries of the tables of a database that is inserted or deleted as a whole.
pub open spec fn whole_tables(tables: Seq<TableRowsView>, mode: SnapshotSummaryMode) -> Seq<
    CommitTableSummaryView,
>
    decreases tables.len(),
{
    if tables.len() == 0 {
        Seq::empty()
    } else {
        let before = whole_tables(tables.drop_last(), mode);
        match whole_table(tables.last(), mode) {
            Some(s) => before.push(s),
            None => before,
        }
    }
}

pub fn snapshot_table_summary(tables: &Vec<TableRows>, mode: SnapshotSummaryMode) -> (r: Vec<
    CommitTableSummary,
>)
    ensures
        views(r@) == whole_tables(views(tables@), mode),
{
    let ghost all = views(tables@);
    let mut out: Vec<CommitTableSummary> = Vec::new();
    let n: usize = tables.len();
    let mut i: usize = 0;
    proof {
        assert(all.take(0) =~= Seq::empty());
        assert(views(out@) =~= Seq::empty());
    }
    while i < n
        invariant
            n == tables@.len(),
            i <= n,
            all == views(tables@),
            views(out@) == whole_tables(all.take(i as int), mode),
        decreases n - i,
    {
        let counts = match mode {
            SnapshotSummaryMode::Inserted => RowCounts {
                inserts: tables[i].rows,
                deletes: 0,
                updates: 0,
            },
            SnapshotSummaryMode::Deleted => RowCounts {
                inserts: 0,
                deletes: tables[i].rows,
                updates: 0,
            },
        };
        proof {
            assert(all.take(i + 1).drop_last() =~= all.take(i as int));
            assert(all.take(i + 1).last() == tables@[i as int]@);
        }
        if let Some(summary) = table_summary(tables[i].name.clone(), counts) {
            proof {
                assert(views(out@.push(summary)) =~= views(out@).push(summary@));
            }
            out.push(summary);
        }
        i += 1;
    }
    proof {
        assert(all.take(n as int) =~= all);
    }
    out
}

/// Rows of a table, added up.
pub struct TableTotal {
    pub inserts: nat,
    pub deletes: nat,
    pub updates: nat,
}

pub open spec fn no_rows() -> TableTotal {
    TableTotal { inserts: 0, deletes: 0, updates: 0 }
}

pub open spec fn plus(t: TableTotal, s: CommitTableSummaryView) -> TableTotal {
    TableTotal {
        inserts: t.inserts + s.inserts as nat,
        deletes: t.deletes + s.deletes as nat,
        updates: t.updates + s.updates as nat,
    }
}

/// What the summaries of the table `name` add up to.
pub open spec fn total_of(all: Seq<CommitTableSummaryView>, name: Seq<char>) -> TableTotal
    decreases all.len(),
{
    if all.len() == 0 {
        no_rows()
    } else {
        let before = total_of(all.drop_last(), name);
        if all.last().name == name {
            plus(before, all.last())
        } else {
            before
        }
    }
}

pub open spec fn fits(t: TableTotal) -> bool {
    t.inserts <= usize::MAX && t.deletes <= usize::MAX && t.updates <= usize::MAX
}

/// Some summary is of the table `name`.
pub open spec fn names_table(all: Seq<CommitTableSummaryView>, name: Seq<char>) -> bool {
    exists|i: int| 0 <= i < all.len() && (#[trigger] all[i]).name == name
}

/// A summary holds what the summaries of its table add up to.
pub open spec fn is_total(s: CommitTableSummaryView, all: Seq<CommitTableSummaryView>) -> bool {
    let t = total_of(all, s.name);
    s.inserts == t.inserts && s.deletes == t.deletes && s.updates == t.updates
}

/// The totals of all tables fit.
pub open spec fn all_fit(all: Seq<CommitTableSummaryView>) -> bool {
    forall|name: Seq<char>| fits(#[trigger] total_of(all, name))
}

proof fn lemma_total_grows(all: Seq<CommitTableSummaryView>, n: int, name: Seq<char>)
    requires
        0 <= n <= all.len(),
    ensures
        total_of(all.take(n), name).inserts <= total_of(all, name).inserts,
        total_of(all.take(n), name).deletes <= total_of(all, name).deletes,
        total_of(all.take(n), name).updates <= total_of(all, name).updates,
    decreases all.len() - n,
{
    if n < all.len() {
        lemma_total_grows(all, n + 1, name);
        assert(all.take(n + 1).drop_last() =~= all.take(n));
    } else {
        assert(all.take(n) =~= all);
    }
}

/// What is known of tables, by their names: their totals.
pub open spec fn holds_totals(m: KeyMap<RowCounts>, all: Seq<CommitTableSummaryView>) -> bool {
    &&& m.wf()
    &&& forall|k: Seq<char>| #[trigger] m@.contains_key(k) == names_table(all, k)
    &&& forall|k: Seq<char>| #[trigger]
        m@.contains_key(k) ==> {
            &&& m@[k].inserts == total_of(all, k).inserts
            &&& m@[k].deletes == total_of(all, k).deletes
            &&& m@[k].updates == total_of(all, k).updates
        }
}

/// Adds a summary to what is known of its table.
fn merge_table_summary(
    by_name: &mut KeyMap<RowCounts>,
    summary: &CommitTableSummary,
    before: Ghost<Seq<CommitTableSummaryView>>,
)
    requires
        holds_totals(*old(by_name), before@),
        fits(total_of(before@.push(summary@), summary@.name)),
    ensures
        holds_totals(*final(by_name), before@.push(summary@)),
{
    let ghost all = before@.push(summary@);
    proof {
        assert(all.drop_last() =~= before@);
        assert forall|k: Seq<char>| names_table(all, k) == (names_table(before@, k) || k
            == summary@.name) by {
            if names_table(before@, k) {
                let i = choose|i: int| 0 <= i < before@.len() && (#[trigger] before@[i]).name == k;
                assert(all[i].name == k);
            }
            if k == summary@.name {
                assert(all[before@.len() as int].name == k);
            }
            if names_table(all, k) && k != summary@.name {
                let i = choose|i: int| 0 <= i < all.len() && (#[trigger] all[i]).name == k;
                assert(before@[i].name == k);
            }
        }
        if !names_table(before@, summary@.name) {
            lemma_no_total(before@, summary@.name);
        }
    }
    let so_far = match by_name.get(summary.name.as_str()) {
        Some(c) => *c,
        None => RowCounts { inserts: 0, deletes: 0, updates: 0 },
    };
    let counts = RowCounts {
        inserts: so_far.inserts + summary.inserts,
        deletes: so_far.deletes + summary.deletes,
        updates: so_far.updates + summary.updates,
    };
    by_name.put(summary.name.as_str(), counts);
}

proof fn lemma_no_total(all: Seq<CommitTableSummaryView>, name: Seq<char>)
    requires
        !names_table(all, name),
    ensures
        total_of(all, name) == no_rows(),
    decreases all.len(),
{
    if all.len() > 0 {
        assert(all[all.len() - 1].name != name);
        assert(!names_table(all.drop_last(), name)) by {
            if names_table(all.drop_last(), name) {
                let i = choose|i: int|
                    0 <= i < all.drop_last().len() && (#[trigger] all.drop_last()[i]).name == name;
                assert(all[i].name == name);
            }
        }
        lemma_no_total(all.drop_last(), name);
    }
}

/// The names of summaries.
pub open spec fn summary_names(s: Seq<CommitTableSummaryView>) -> Seq<Seq<char>> {
    Seq::new(s.len(), |i: int| s[i].name)
}

/// The summaries of all databases of a commit, added up by table, in ascending order of the names.
pub fn staged_commit_table_summary(summaries: &Vec<CommitTableSummary>) -> (r: Vec<CommitTableSummary>)
    requires
        all_fit(views(summaries@)),
    ensures
        ascending(summary_names(views(r@))),
        forall|k: Seq<char>| #[trigger]
            summary_names(views(r@)).contains(k) == names_table(views(summaries@), k),
        forall|i: int| 0 <= i < r@.len() ==> is_total((#[trigger] r@[i])@, views(summaries@)),
{
    let ghost all = views(summaries@);
    let mut by_name: KeyMap<RowCounts> = KeyMap::new();
    let n: usize = summaries.len();
    let mut i: usize = 0;
    while i < n
        invariant
            n == summaries@.len(),
            i <= n,
            all == views(summaries@),
            all_fit(all),
            holds_totals(by_name, all.take(i as int)),
        decreases n - i,
    {
        proof {
            assert(all[i as int] == summaries@[i as int]@);
            assert(all.take(i + 1) =~= all.take(i as int).push(all[i as int]));
            lemma_total_grows(all, i + 1, all[i as int].name);
            assert(fits(total_of(all, all[i as int].name)));
        }
        merge_table_summary(&mut by_name, &summaries[i], Ghost(all.take(i as int)));
        i += 1;
    }
    proof {
        assert(all.take(n as int) =~= all);
    }
    let mut out: Vec<CommitTableSummary> = Vec::new();
    let m: usize = by_name.keys.len();
    let mut j: usize = 0;
    while j < m
        invariant
            m == by_name.keys@.len(),
            j <= m,
            holds_totals(by_name, all),
            out@.len() == j,
            forall|k: int| 0 <= k < j ==> (#[trigger] out@[k])@.name == by_name.names()[k],
            forall|k: int| 0 <= k < j ==> is_total((#[trigger] out@[k])@, all),
        decreases m - j,
    {
        let counts = by_name.values[j];
        proof {
            by_name.lemma_at(j as int);
        }
        out.push(
            CommitTableSummary {
                name: by_name.keys[j].clone(),
                inserts: counts.inserts,
                deletes: counts.deletes,
                updates: counts.updates,
            },
        );
        j += 1;
    }
    proof {
        assert(summary_names(views(out@)) =~= by_name.names());
        assert forall|k: Seq<char>| #[trigger] summary_names(views(out@)).contains(k)
            == names_table(all, k) by {
            assert(by_name@.contains_key(k) == names_table(all, k));
        }
    }
    out
}

} // verus!
