//! What holds of the order of texts, of walks over commits, of database images and of keys.
use vstd::prelude::*;
use vstd::string::*;

use crate::answers::{record_resolution_members, resolve_table_members, unresolve_members};
use crate::conflicts::{identity_label, part_labels};
use crate::document::{with_member, JsonField, JsonMemberView};
use crate::error::{CommandError, RepoErr};
use crate::image::{
    header_page_size, opened_image, page_of, pages_of, starts_as_sqlite, whole_pages,
};
use crate::number::{decimal, decimal_int, law_parsed_decimal, parsed_i64};
use crate::order::{before, lemma_before_irreflexive, lemma_before_transitive};
use crate::paths::{forward, missing_key, names_entry, whole_path};
use crate::session_laws::tells;
use crate::spec::{KeyPartView, RepoPathStorage, RepoTrackedPathKind, ResolveSide, RowIdentity};
use crate::text::joined;
use crate::time::{day_number, days_before_month, is_leap, month_len, Date};
use crate::walk::next_of;

verus! {

/// Texts are ordered by the first character in which they differ, and a text comes before whatever it
/// begins.
pub proof fn law_order_of_texts(common: Seq<char>, a: Seq<char>, b: Seq<char>)
    ensures
        a.len() > 0 && b.len() > 0 && a[0] < b[0] ==> before(common + a, common + b),
        b.len() > 0 ==> before(common, common + b),
        before(a, b) ==> !before(b, a),
    decreases common.len(),
{
    if common.len() == 0 {
        assert(common + a =~= a);
        assert(common + b =~= b);
    } else {
        let rest = common.drop_first();
        law_order_of_texts(rest, a, b);
        assert((common + a).drop_first() =~= rest + a);
        assert((common + b).drop_first() =~= rest + b);
        assert((common + a)[0] == common[0] && (common + b)[0] == common[0]);
    }
    if before(a, b) && before(b, a) {
        lemma_before_transitive(a, b, a);
        lemma_before_irreflexive(a);
    }
}

/// A walk visits the topmost commit that was neither visited nor is where the walk stops. Whatever
/// lies above it was either, and what lies below it is left for later.
pub proof fn law_walk_takes_the_topmost(
    stack: Seq<Seq<char>>,
    seen: Set<Seq<char>>,
    stop: Set<Seq<char>>,
)
    ensures
        ({
            let (id, rest, after) = next_of(stack, seen, stop);
            &&& rest.len() <= stack.len()
            &&& rest == stack.take(rest.len() as int)
            &&& id matches Some(k) ==> {
                &&& rest.len() < stack.len()
                &&& stack[rest.len() as int] == k
                &&& forall|i: int| #![trigger stack[i]]
                    rest.len() < i < stack.len() ==> seen.contains(stack[i]) || stop.contains(
                        stack[i],
                    )
            }
            &&& id is None ==> forall|i: int| #![trigger stack[i]]
                0 <= i < stack.len() ==> seen.contains(stack[i]) || stop.contains(stack[i])
            &&& forall|k: Seq<char>| #[trigger]
                after.contains(k) ==> seen.contains(k) || stop.contains(k) || id == Some(k)
            &&& forall|k: Seq<char>| seen.contains(k) ==> #[trigger] after.contains(k)
            &&& id matches Some(k) ==> after.contains(k)
        }),
    decreases stack.len(),
{
    if stack.len() == 0 {
        assert(stack.take(0) =~= stack);
    } else {
        let less = stack.drop_last();
        let top = stack.last();
        let (id, rest, after) = next_of(stack, seen, stop);
        if seen.contains(top) {
            law_walk_takes_the_topmost(less, seen, stop);
        } else if stop.contains(top) {
            law_walk_takes_the_topmost(less, seen.insert(top), stop);
        }
        if rest.len() <= less.len() {
            assert(less.take(rest.len() as int) =~= stack.take(rest.len() as int));
        }
        assert forall|i: int| #![trigger stack[i]] 0 <= i < less.len() implies stack[i] == less[i] by {}
        assert(stack[stack.len() - 1] == top);
    }
}

/// A file is opened as a database exactly where it begins as one, says that its pages have 4096 bytes,
/// and consists of whole pages that can be numbered; and then it is opened as it is.
pub proof fn law_databases_that_open(name: Seq<char>, bytes: Seq<u8>)
    ensures
        opened_image(name, bytes) is Ok <==> {
            &&& bytes.len() >= 100
            &&& starts_as_sqlite(bytes)
            &&& bytes[16] == 16 && bytes[17] == 0
            &&& bytes.len() % 4096 == 0
            &&& bytes.len() / 4096 <= u32::MAX
        },
        opened_image(name, bytes) matches Ok(data) ==> data == bytes && whole_pages(bytes),
{
}

/// The size of a page stands in two bytes, the higher one first; the largest size is written as one.
pub proof fn law_page_sizes(header: Seq<u8>)
    requires
        header.len() >= 18,
    ensures
        header[16] == 0 && header[17] == 1 ==> header_page_size(header) == 65536,
        !(header[16] == 0 && header[17] == 1) ==> header_page_size(header) == header[16] * 256
            + header[17],
{
}

/// The pages of an image follow each other and make it up: a byte of a page is the byte of the image at
/// the same distance from where the page begins.
pub proof fn law_pages_of_an_image(bytes: Seq<u8>, p: int, i: int)
    requires
        whole_pages(bytes),
        1 <= p <= pages_of(bytes),
        0 <= i < 4096,
    ensures
        pages_of(bytes) * 4096 == bytes.len(),
        page_of(bytes, p).len() == 4096,
        page_of(bytes, p)[i] == bytes[(p - 1) * 4096 + i],
{
}

/// A key is written with forward slashes, and is otherwise the path as it is.
pub proof fn law_forward_slashes(s: Seq<char>, i: int)
    ensures
        forward(s).len() == s.len(),
        0 <= i < s.len() ==> forward(s)[i] != '\\',
        0 <= i < s.len() && s[i] != '\\' ==> forward(s)[i] == s[i],
        0 <= i < s.len() && s[i] == '\\' ==> forward(s)[i] == '/',
{
}

/// The key of a path whose directories are missing goes from the directory that is there, through the
/// missing ones from the outermost inwards, to the file. There is none where a part of it does not
/// name an entry of a directory.
pub proof fn law_keys_with_missing_directories(
    parent: Seq<Seq<char>>,
    missing: Seq<Seq<char>>,
    name: Seq<char>,
    shown: Seq<char>,
    worktree: Seq<char>,
)
    ensures
        missing_key(Some(parent), missing, Some(name), shown, worktree) is Ok <==> {
            &&& names_entry(name)
            &&& forall|i: int| 0 <= i < parent.len() ==> names_entry(#[trigger] parent[i])
            &&& forall|i: int| 0 <= i < missing.len() ==> names_entry(#[trigger] missing[i])
        },
        missing_key(Some(parent), missing, Some(name), shown, worktree) matches Err(e) ==> e
            == CommandError::Repo(RepoErr::PathOutsideWorktree { path: shown, worktree }),
        missing_key(None, missing, Some(name), shown, worktree) is Err,
        missing_key(Some(parent), missing, None, shown, worktree) is Err,
        names_entry(name) && missing.len() == 0 && parent.len() == 0 ==> missing_key(
            Some(parent),
            missing,
            Some(name),
            shown,
            worktree,
        ) == Ok::<_, CommandError<Seq<char>>>(forward(name)),
        whole_path(parent, missing, name).len() == parent.len() + missing.len() + 1,
        forall|i: int|
            0 <= i < parent.len() ==> #[trigger] whole_path(parent, missing, name)[i] == parent[i],
        forall|i: int|
            0 <= i < missing.len() ==> whole_path(parent, missing, name)[parent.len() + i]
                == #[trigger] missing[missing.len() - 1 - i],
        whole_path(parent, missing, name).last() == name,
{
    let all = whole_path(parent, missing, name);
    if forall|i: int| 0 <= i < all.len() ==> names_entry(#[trigger] all[i]) {
        assert(names_entry(all[all.len() - 1]));
        assert forall|i: int| 0 <= i < parent.len() implies names_entry(#[trigger] parent[i]) by {
            assert(all[i] == parent[i]);
        }
        assert forall|i: int| 0 <= i < missing.len() implies names_entry(#[trigger] missing[i]) by {
            assert(all[parent.len() + missing.len() - 1 - i] == missing[i]);
        }
    }
    if names_entry(name) && (forall|i: int|
        0 <= i < parent.len() ==> names_entry(#[trigger] parent[i])) && (forall|i: int|
        0 <= i < missing.len() ==> names_entry(#[trigger] missing[i])) {
        assert forall|i: int| 0 <= i < all.len() implies names_entry(#[trigger] all[i]) by {
            if i < parent.len() {
                assert(all[i] == parent[i]);
            } else if i < parent.len() + missing.len() {
                assert(all[i] == missing[missing.len() - 1 - (i - parent.len())]);
            }
        }
    }
    if missing.len() == 0 && parent.len() == 0 {
        assert(all =~= seq![name]);
        assert(joined(all, "/"@) == name);
    }
}

/// A part of a path names an entry of a directory unless it is empty, the directory itself or the one
/// above.
pub proof fn law_names_of_entries(part: Seq<char>)
    ensures
        !names_entry(Seq::empty()),
        !names_entry("."@),
        !names_entry(".."@),
        part.len() > 0 && part != "."@ && part != ".."@ ==> names_entry(part),
{
}

/// The answer to a selection for a table tells the path, the table, the side and what is left.
pub proof fn law_answer_to_a_table_selection(
    head: Option<Seq<char>>,
    branch: Option<Seq<char>>,
    path: Seq<char>,
    kind: RepoTrackedPathKind,
    storage: RepoPathStorage,
    table: Seq<char>,
    side: ResolveSide,
    materialized: bool,
    remaining: u64,
)
    ensures
        ({
            let m = resolve_table_members(
                head,
                branch,
                path,
                kind,
                storage,
                table,
                side,
                materialized,
                remaining,
            );
            &&& tells(m, "path"@, JsonField::Text(path))
            &&& tells(m, "table"@, JsonField::Text(table))
            &&& tells(m, "resolution"@, JsonField::Text(side.name()))
            &&& tells(m, "materialized"@, JsonField::Bool(materialized))
            &&& tells(m, "remaining_conflicts"@, JsonField::Count(remaining))
            &&& head is Some ==> tells(m, "current_head"@, JsonField::Text(head->0))
            &&& branch is Some ==> tells(m, "current_branch"@, JsonField::Text(branch->0))
            &&& head is None ==> tells(m, "current_head"@, JsonField::Null)
            &&& branch is None ==> tells(m, "current_branch"@, JsonField::Null)
        }),
{
    let m = resolve_table_members(
        head,
        branch,
        path,
        kind,
        storage,
        table,
        side,
        materialized,
        remaining,
    );
    assert(m[0].name == "current_branch"@ && m[1].name == "current_head"@);
    assert(m[2].name == "materialized"@ && m[4].name == "path"@);
    assert(m[6].name == "remaining_conflicts"@ && m[7].name == "resolution"@);
    assert(m[9].name == "table"@);
}

/// The answers to putting a path back into conflict and to recording its resolution tell the path.
pub proof fn law_answers_about_a_path(
    head: Option<Seq<char>>,
    branch: Option<Seq<char>>,
    path: Seq<char>,
    kind: RepoTrackedPathKind,
    storage: RepoPathStorage,
    materialized: bool,
    resolution: Seq<char>,
)
    ensures
        ({
            let m = unresolve_members(head, branch, path, kind, storage, materialized);
            &&& tells(m, "path"@, JsonField::Text(path))
            &&& tells(m, "resolution"@, JsonField::Text("unresolved"@))
            &&& tells(m, "materialized"@, JsonField::Bool(materialized))
            &&& head is Some ==> tells(m, "current_head"@, JsonField::Text(head->0))
            &&& branch is Some ==> tells(m, "current_branch"@, JsonField::Text(branch->0))
        }),
        tells(record_resolution_members(path, resolution), "path"@, JsonField::Text(path)),
        tells(record_resolution_members(path, resolution), "resolution"@, JsonField::Text(resolution)),
{
    let m = unresolve_members(head, branch, path, kind, storage, materialized);
    assert(m[0].name == "current_branch"@ && m[1].name == "current_head"@);
    assert(m[2].name == "materialized"@ && m[4].name == "path"@ && m[6].name == "resolution"@);
    let r = record_resolution_members(path, resolution);
    assert(r[1].name == "path"@ && r[2].name == "resolution"@);
}

/// Whole numbers are read as they are written.
pub proof fn law_integers_are_read_as_written(n: i64)
    ensures
        parsed_i64(decimal_int(n as int)) == Some(n as int),
{
    if n < 0 {
        let m = (-(n as int)) as nat;
        law_parsed_decimal(m, 0x8000_0000_0000_0000);
        let s = decimal_int(n as int);
        assert(s[0] == '-');
        assert(s.skip(1) =~= decimal(m));
        lemma_no_sign(m);
    } else {
        law_parsed_decimal(n as nat, 0x7fff_ffff_ffff_ffff);
        lemma_no_sign(n as nat);
    }
}

/// A decimal begins with a digit.
proof fn lemma_no_sign(n: nat)
    ensures
        decimal(n).len() > 0,
        decimal(n)[0] != '-',
        decimal(n)[0] != '+',
    decreases n,
{
    if n >= 10 {
        lemma_no_sign(n / 10);
    }
}

/// The calendar: a year is a leap year every four years, but not in a century unless every four
/// centuries; only its February is longer; and each day follows the one before it, over the ends of
/// months and years, from the first of 1970 on.
pub proof fn law_calendar(y: int, m: int, d: int)
    requires
        1 <= m <= 12,
    ensures
        y % 400 == 0 ==> is_leap(y),
        y % 100 == 0 && y % 400 != 0 ==> !is_leap(y),
        y % 4 == 0 && y % 100 != 0 ==> is_leap(y),
        y % 4 != 0 ==> !is_leap(y),
        month_len(y, 2) == (if is_leap(y) {
            29int
        } else {
            28int
        }),
        m == 1 || m == 3 || m == 5 || m == 7 || m == 8 || m == 10 || m == 12 ==> month_len(y, m)
            == 31,
        m == 4 || m == 6 || m == 9 || m == 11 ==> month_len(y, m) == 30,
        day_number(Date { year: 1970, month: 1, day: 1 }) == 0,
        day_number(Date { year: y, month: m, day: d + 1 }) == day_number(
            Date { year: y, month: m, day: d },
        ) + 1,
        m < 12 ==> day_number(Date { year: y, month: m + 1, day: 1 }) == day_number(
            Date { year: y, month: m, day: month_len(y, m) },
        ) + 1,
        y > 0 ==> day_number(Date { year: y + 1, month: 1, day: 1 }) == day_number(
            Date { year: y, month: 12, day: 31 },
        ) + 1,
{
    reveal_with_fuel(days_before_month, 13);
    if y > 0 {
        assert(days_before_month(y, 12) == (if is_leap(y) {
            335int
        } else {
            334int
        }));
    }
}

/// A member of an object that is set has the value it was set to, and every other member is as before.
pub proof fn law_members_are_set(members: Seq<JsonMemberView>, m: JsonMemberView, i: int)
    ensures
        with_member(members, m).contains(m),
        0 <= i < members.len() && members[i].name != m.name ==> with_member(members, m).contains(
            members[i],
        ),
        forall|x: JsonMemberView| #[trigger]
            with_member(members, m).contains(x) ==> x == m || members.contains(x),
    decreases members.len(),
{
    let now = with_member(members, m);
    if members.len() == 0 {
        assert(now[0] == m);
    } else if members[0].name == m.name {
        assert(now[0] == m);
        if 0 < i < members.len() {
            assert(now[i] == members[i]);
        }
        assert forall|x: JsonMemberView| #[trigger] now.contains(x) implies x == m
            || members.contains(x) by {
            let at = now.index_of(x);
            if at > 0 {
                assert(members[at] == x);
            }
        }
    } else if before(m.name, members[0].name) {
        assert(now[0] == m);
        if 0 <= i < members.len() {
            assert(now[i + 1] == members[i]);
        }
        assert forall|x: JsonMemberView| #[trigger] now.contains(x) implies x == m
            || members.contains(x) by {
            let at = now.index_of(x);
            if at > 0 {
                assert(members[at - 1] == x);
            }
        }
    } else {
        let rest = members.skip(1);
        let more = with_member(rest, m);
        law_members_are_set(rest, m, i - 1);
        assert(now =~= seq![members[0]] + more);
        let at = more.index_of(m);
        assert(now[at + 1] == m);
        if i == 0 {
            assert(now[0] == members[0]);
        } else if 0 < i < members.len() {
            assert(rest[i - 1] == members[i]);
            if members[i].name != m.name {
                let k = more.index_of(members[i]);
                assert(now[k + 1] == members[i]);
            }
        }
        assert forall|x: JsonMemberView| #[trigger] now.contains(x) implies x == m
            || members.contains(x) by {
            let k = now.index_of(x);
            if k > 0 {
                assert(more[k - 1] == x);
                assert(more.contains(x));
                if rest.contains(x) {
                    assert(members[rest.index_of(x) + 1] == x);
                }
            } else {
                assert(members[0] == x);
            }
        }
    }
}

/// A row is shown by its rowid, or by the columns and values of its key in their order.
pub proof fn law_rows_are_shown(rowid: i64, part: KeyPartView, parts: Seq<KeyPartView>)
    ensures
        identity_label(RowIdentity::Rowid(rowid)) == "rowid="@ + decimal_int(rowid as int),
        identity_label(RowIdentity::PrimaryKey { parts: seq![part] }) == "key=("@ + (part.column + "="@
            + part.shown) + ")"@,
        parts.len() > 0 ==> identity_label(RowIdentity::PrimaryKey { parts: parts.push(part) })
            == "key=("@ + (joined(part_labels(parts), ", "@) + ", "@ + (part.column + "="@
            + part.shown)) + ")"@,
{
    assert(part_labels(seq![part]) =~= seq![part.column + "="@ + part.shown]);
    let more = part_labels(parts.push(part));
    assert(more.drop_last() =~= part_labels(parts));
    assert(more.last() == part.column + "="@ + part.shown);
}

} // verus!
