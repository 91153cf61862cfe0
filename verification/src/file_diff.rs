//! The comparison of two ordinary database files.
use vstd::prelude::*;
use vstd::string::*;

use crate::error::{copy_option, CommandError};
use crate::image::{pages_of, SqliteImage};
use crate::json::{
    JsonRowDiffTelemetry, JsonSqliteFileDiffResult, JsonSqliteFileDiffResultView,
    JsonSqliteFileDiffSide, JsonSqliteFileRowDiff, JsonSqliteFileRowDiffView,
};
use crate::number::{decimal, show_u64};
use crate::report::{indented_lines, write_indented};
use crate::row_diff::{
    json_diff_capabilities, json_diff_limitations, json_opaque_changes, json_schema_changes,
    json_table_changes, limitation_json_list, opaque_json_list, schema_json_list,
    table_json_list, RowLevelDiff, RowLevelDiffView,
};
use crate::show::{lines, view_option};

verus! {

/// Options for comparing two ordinary physical SQLite database files.
#[derive(Debug, Clone, Copy, PartialEq, Eq, Structural)]
pub struct SqliteFileDiffOptions {
    /// Expand a changed file pair into schema, table, and row changes.
    pub rows: bool,
}

impl Default for SqliteFileDiffOptions {
    fn default() -> (r: SqliteFileDiffOptions)
        ensures
            !r.rows,
    {
        SqliteFileDiffOptions { rows: false }
    }
}

/// Read-only comparison of two ordinary physical SQLite database files.
#[derive(Debug, Clone, PartialEq, Eq)]
pub struct SqliteFileDiff<S = String, D = RowLevelDiff> {
    pub from: S,
    pub to: S,
    pub from_page_count: u32,
    pub to_page_count: u32,
    pub changed: bool,
    pub rows: bool,
    pub row_diff: Option<D>,
}

pub type SqliteFileDiffView = SqliteFileDiff<Seq<char>, RowLevelDiffView>;

impl View for SqliteFileDiff<String, RowLevelDiff> {
    type V = SqliteFileDiffView;

    open spec fn view(&self) -> SqliteFileDiffView {
        SqliteFileDiff {
            from: self.from@,
            to: self.to@,
            from_page_count: self.from_page_count,
            to_page_count: self.to_page_count,
            changed: self.changed,
            rows: self.rows,
            row_diff: view_option(self.row_diff),
        }
    }
}

/// The bytes of the database header that change without the contents: the counters by which
/// caches are dropped, and the version of the library that wrote last.
pub open spec fn is_volatile(i: int) -> bool {
    24 <= i < 28 || 92 <= i < 100
}

/// Two images hold the same database.
pub open spec fn same_contents(a: Seq<u8>, b: Seq<u8>) -> bool {
    &&& a.len() == b.len()
    &&& forall|i: int| 0 <= i < a.len() && !is_volatile(i) ==> #[trigger] a[i] == b[i]
}

/// To hold the same database is an equivalence of images.
pub proof fn law_same_contents_is_an_equivalence(a: Seq<u8>, b: Seq<u8>, c: Seq<u8>)
    ensures
        same_contents(a, a),
        same_contents(a, b) ==> same_contents(b, a),
        same_contents(a, b) && same_contents(b, c) ==> same_contents(a, c),
{
    if same_contents(a, b) {
        assert forall|i: int| 0 <= i < b.len() && !is_volatile(i) implies #[trigger] b[i]
            == a[i] by {
            assert(a[i] == b[i]);
        }
        if same_contents(b, c) {
            assert forall|i: int| 0 <= i < a.len() && !is_volatile(i) implies #[trigger] a[i]
                == c[i] by {
                assert(a[i] == b[i]);
                assert(b[i] == c[i]);
            }
        }
    }
}

/// Whether two images hold the same database.
pub fn matches_reader(a: &SqliteImage, b: &SqliteImage) -> (r: bool)
    ensures
        r == same_contents(a.data(), b.data()),
{
    let x = a.as_bytes();
    let y = b.as_bytes();
    let n: usize = x.len();
    if n != y.len() {
        return false;
    }
    let mut i: usize = 0;
    while i < n
        invariant
            x@ == a.data(),
            y@ == b.data(),
            n == x@.len(),
            n == y@.len(),
            i <= n,
            forall|k: int| 0 <= k < i && !is_volatile(k) ==> #[trigger] x@[k] == y@[k],
        decreases n - i,
    {
        let skipped: bool = (24 <= i && i < 28) || (92 <= i && i < 100);
        if !skipped && x[i] != y[i] {
            return false;
        }
        i += 1;
    }
    true
}

/// What a comparison of two files finds; rows are looked at only where that is asked for and the
/// files differ.
pub open spec fn file_diff(
    from: Seq<char>,
    from_data: Seq<u8>,
    to: Seq<char>,
    to_data: Seq<u8>,
    options: SqliteFileDiffOptions,
    row_diff: Option<RowLevelDiffView>,
) -> SqliteFileDiffView {
    let changed = !same_contents(from_data, to_data);
    SqliteFileDiff {
        from,
        to,
        from_page_count: pages_of(from_data) as u32,
        to_page_count: pages_of(to_data) as u32,
        changed,
        rows: options.rows,
        row_diff: if options.rows && changed {
            row_diff
        } else {
            None
        },
    }
}

/// Whether the rows of two files are compared.
pub fn compares_rows(
    from: &SqliteImage,
    to: &SqliteImage,
    options: SqliteFileDiffOptions,
) -> (r: bool)
    ensures
        r == (options.rows && !same_contents(from.data(), to.data())),
{
    options.rows && !matches_reader(from, to)
}

/// Compare two physical SQLite files without discovering or modifying a repository.
///
/// File-level equality ignores volatile page-1 cache-invalidation counters plus the last-writer
/// library version. `row_diff` is what the comparison of the rows gave, where it was made.
pub fn diff_sqlite_files(
    from: &str,
    from_image: &SqliteImage,
    to: &str,
    to_image: &SqliteImage,
    options: SqliteFileDiffOptions,
    row_diff: Option<RowLevelDiff>,
) -> (r: SqliteFileDiff)
    ensures
        r@ == file_diff(
            from@,
            from_image.data(),
            to@,
            to_image.data(),
            options,
            view_option(row_diff),
        ),
{
    let changed = !matches_reader(from_image, to_image);
    SqliteFileDiff {
        from: from.to_owned(),
        to: to.to_owned(),
        from_page_count: from_image.page_count(),
        to_page_count: to_image.page_count(),
        changed,
        rows: options.rows,
        row_diff: if options.rows && changed {
            row_diff
        } else {
            None
        },
    }
}

/// The report on a comparison of two files.
pub open spec fn file_diff_report(d: SqliteFileDiffView) -> Seq<char> {
    (if d.rows {
        "Row Diff"@
    } else {
        "Diff"@
    }) + " --no-index "@ + d.from + ".."@ + d.to + "\n"@ + (if d.changed {
        changed_text(d)
    } else {
        "No changes.\n"@
    })
}

/// What two files that differ hold, and the rows that differ where they were compared.
pub open spec fn changed_text(d: SqliteFileDiffView) -> Seq<char> {
    "modified: "@ + d.from + " -> "@ + d.to + "\n  from: "@ + decimal(d.from_page_count as nat)
        + " page(s), physical file\n  to:   "@ + decimal(d.to_page_count as nat)
        + " page(s), physical file\n"@ + (match d.row_diff {
        Some(rows) => indented_lines(lines(rows.report_body), "  "@),
        None => Seq::empty(),
    })
}

/// The rows of a comparison as JSON.
pub open spec fn file_rows_json(d: RowLevelDiffView) -> JsonSqliteFileRowDiffView {
    JsonSqliteFileRowDiff {
        logical_status: d.logical_status,
        capabilities: d.capabilities,
        limitations: limitation_json_list(d.limitations),
        schema_changes: schema_json_list(d.schema_changes),
        tables: table_json_list(d.table_changes),
        opaque_changes: opaque_json_list(d.opaque_changes),
        telemetry: JsonRowDiffTelemetry {
            requested_table: d.telemetry.requested_table,
            tables_considered: d.telemetry.tables_considered,
            tables_scanned: d.telemetry.tables_scanned,
        },
    }
}

/// A comparison of two files as JSON.
pub open spec fn file_diff_json(d: SqliteFileDiffView) -> JsonSqliteFileDiffResultView {
    JsonSqliteFileDiffResult {
        from: JsonSqliteFileDiffSide { path: d.from, page_count: d.from_page_count },
        to: JsonSqliteFileDiffSide { path: d.to, page_count: d.to_page_count },
        changed: d.changed,
        kind: "sqlite_database"@,
        rows: d.rows,
        row_diff: match d.row_diff {
            Some(rows) => Some(file_rows_json(rows)),
            None => None,
        },
    }
}

fn json_file_rows(d: &RowLevelDiff) -> (r: JsonSqliteFileRowDiff)
    ensures
        r@ == file_rows_json(d@),
{
    JsonSqliteFileRowDiff {
        logical_status: d.logical_status.clone(),
        capabilities: json_diff_capabilities(d),
        limitations: json_diff_limitations(d),
        schema_changes: json_schema_changes(&d.schema_changes),
        tables: json_table_changes(&d.table_changes),
        opaque_changes: json_opaque_changes(&d.opaque_changes),
        telemetry: JsonRowDiffTelemetry {
            requested_table: copy_option(&d.telemetry.requested_table),
            tables_considered: d.telemetry.tables_considered,
            tables_scanned: d.telemetry.tables_scanned,
        },
    }
}

impl SqliteFileDiff<String, RowLevelDiff> {
    /// Format the same human-oriented shape used by the CLI.
    pub fn to_report(&self) -> (r: Result<String, CommandError>)
        ensures
            r matches Ok(text) && text@ == file_diff_report(self@),
    {
        let mut report = (if self.rows {
            "Row Diff"
        } else {
            "Diff"
        }).to_owned();
        report.append(" --no-index ");
        report.append(self.from.as_str());
        report.append("..");
        report.append(self.to.as_str());
        report.append("\n");
        if !self.changed {
            report.append("No changes.\n");
            return Ok(report);
        }
        let ghost head = report@;
        report.append("modified: ");
        report.append(self.from.as_str());
        report.append(" -> ");
        report.append(self.to.as_str());
        report.append("\n  from: ");
        report.append(show_u64(self.from_page_count as u64).as_str());
        report.append(" page(s), physical file\n  to:   ");
        report.append(show_u64(self.to_page_count as u64).as_str());
        report.append(" page(s), physical file\n");
        if let Some(rows) = &self.row_diff {
            write_indented(&mut report, rows.report_body.as_str(), "  ");
        }
        proof {
            assert(report@ =~= head + changed_text(self@));
        }
        Ok(report)
    }

    /// Convert the comparison into the stable JSON CLI contract.
    pub fn to_json(&self) -> (r: JsonSqliteFileDiffResult)
        ensures
            r@ == file_diff_json(self@),
    {
        let row_diff = match &self.row_diff {
            Some(rows) => Some(json_file_rows(rows)),
            None => None,
        };
        JsonSqliteFileDiffResult {
            from: JsonSqliteFileDiffSide {
                path: self.from.clone(),
                page_count: self.from_page_count,
            },
            to: JsonSqliteFileDiffSide { path: self.to.clone(), page_count: self.to_page_count },
            changed: self.changed,
            kind: "sqlite_database".to_owned(),
            rows: self.rows,
            row_diff,
        }
    }
}

/// Files whose only differences are volatile are reported as unchanged, with or without rows.
pub proof fn law_volatile_bytes_are_no_change(
    from: Seq<char>,
    from_data: Seq<u8>,
    to: Seq<char>,
    to_data: Seq<u8>,
    options: SqliteFileDiffOptions,
    row_diff: Option<RowLevelDiffView>,
)
    requires
        same_contents(from_data, to_data),
    ensures
        !file_diff(from, from_data, to, to_data, options, row_diff).changed,
        file_diff(from, from_data, to, to_data, options, row_diff).row_diff is None,
{
}

} // verus!
