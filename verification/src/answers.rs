//! JSON answers made of plain members.
use vstd::prelude::*;
use vstd::string::*;

use crate::document::{
    member_names, object_text, print_object, JsonField, JsonMember, JsonMemberView,
};
use crate::error::text_option;
use crate::jobs::{field_of, member, text_field};
use crate::labels::{
    kind_json, repo_path_storage_json_label, repo_tracked_path_kind_json_label, storage_json,
};
use crate::order::{ascending, before, lemma_before_transitive};
use crate::show::views;
use crate::spec::{RepoPathStorage, RepoTrackedPathKind, ResolveSide};

verus! {

/// Texts of which each stands before the next ascend.
proof fn lemma_steps_ascend(s: Seq<Seq<char>>)
    requires
        forall|i: int| 0 < i < s.len() ==> before(s[i - 1], #[trigger] s[i]),
    ensures
        ascending(s),
    decreases s.len(),
{
    if s.len() > 0 {
        let rest = s.drop_last();
        lemma_steps_ascend(rest);
        assert forall|i: int, j: int| 0 <= i < j < s.len() implies before(
            #[trigger] s[i],
            #[trigger] s[j],
        ) by {
            if j < rest.len() {
                assert(before(rest[i], rest[j]));
            } else if i < j - 1 {
                assert(before(rest[i], rest[j - 1]));
                lemma_before_transitive(s[i], s[j - 1], s[j]);
            }
        }
    }
}

/// Two texts that agree before place `k` stand in the order of what follows.
proof fn lemma_before_after(a: Seq<char>, b: Seq<char>, k: int)
    requires
        0 <= k <= a.len(),
        k < b.len(),
        forall|i: int| 0 <= i < k ==> a[i] == b[i],
        k == a.len() || a[k] < b[k],
    ensures
        before(a, b),
    decreases k,
{
    if k > 0 {
        lemma_before_after(a.skip(1), b.skip(1), k - 1);
    }
}

/// The names of the members, each with those that may follow it.
proof fn lemma_names_in_order()
    ensures
        before("current_branch"@, "current_head"@),
        before("current_head"@, "materialized"@),
        before("materialized"@, "operation"@),
        before("operation"@, "path"@),
        before("path"@, "path_kind"@),
        before("path"@, "resolution"@),
        before("path_kind"@, "remaining_conflicts"@),
        before("path_kind"@, "resolution"@),
        before("remaining_conflicts"@, "resolution"@),
        before("resolution"@, "storage"@),
        before("storage"@, "table"@),
{
    reveal_strlit("current_branch");
    reveal_strlit("current_head");
    reveal_strlit("materialized");
    reveal_strlit("operation");
    reveal_strlit("path");
    reveal_strlit("path_kind");
    reveal_strlit("resolution");
    reveal_strlit("remaining_conflicts");
    reveal_strlit("storage");
    reveal_strlit("table");
    lemma_before_after("current_branch"@, "current_head"@, 8);
    lemma_before_after("current_head"@, "materialized"@, 0);
    lemma_before_after("materialized"@, "operation"@, 0);
    lemma_before_after("operation"@, "path"@, 0);
    lemma_before_after("path"@, "path_kind"@, 4);
    lemma_before_after("path"@, "resolution"@, 0);
    lemma_before_after("path_kind"@, "remaining_conflicts"@, 0);
    lemma_before_after("path_kind"@, "resolution"@, 0);
    lemma_before_after("remaining_conflicts"@, "resolution"@, 2);
    lemma_before_after("resolution"@, "storage"@, 0);
    lemma_before_after("storage"@, "table"@, 0);
}

/// What is answered when the conflicts of a table are resolved.
pub open spec fn resolve_table_members(head: Option<Seq<char>>, branch: Option<Seq<char>>, path: Seq<char>, kind: RepoTrackedPathKind, storage: RepoPathStorage, table: Seq<char>, side: ResolveSide, materialized: bool, remaining: u64) -> Seq<JsonMemberView> {
    seq![
        JsonMember { name: "current_branch"@, value: text_field(branch) },
        JsonMember { name: "current_head"@, value: text_field(head) },
        JsonMember { name: "materialized"@, value: JsonField::Bool(materialized) },
        JsonMember { name: "operation"@, value: JsonField::Text("resolve_merge_table"@) },
        JsonMember { name: "path"@, value: JsonField::Text(path) },
        JsonMember { name: "path_kind"@, value: JsonField::Text(kind_json(kind)) },
        JsonMember { name: "remaining_conflicts"@, value: JsonField::Count(remaining) },
        JsonMember { name: "resolution"@, value: JsonField::Text(side.name()) },
        JsonMember { name: "storage"@, value: JsonField::Text(storage_json(storage)) },
        JsonMember { name: "table"@, value: JsonField::Text(table) },
    ]
}

pub fn resolve_table_answer(
    head: &Option<String>,
    branch: &Option<String>,
    path: &str,
    kind: RepoTrackedPathKind,
    storage: RepoPathStorage,
    table: &str,
    side: ResolveSide,
    materialized: bool,
    remaining: u64,
) -> (r: String)
    ensures
        r@ == object_text(
            resolve_table_members(
                text_option(*head),
                text_option(*branch),
                path@,
                kind,
                storage,
                table@,
                side,
                materialized,
                remaining,
            ),
        ),
{
    let members = vec![
        member("current_branch", field_of(branch)),
        member("current_head", field_of(head)),
        member("materialized", JsonField::Bool(materialized)),
        member("operation", JsonField::Text("resolve_merge_table".to_owned())),
        member("path", JsonField::Text(path.to_owned())),
        member("path_kind", JsonField::Text(repo_tracked_path_kind_json_label(kind).to_owned())),
        member("remaining_conflicts", JsonField::Count(remaining)),
        member("resolution", JsonField::Text(side.label().to_owned())),
        member("storage", JsonField::Text(repo_path_storage_json_label(storage).to_owned())),
        member("table", JsonField::Text(table.to_owned())),
    ];
    proof {
        assert(views(members@) =~= resolve_table_members(text_option(*head), text_option(*branch), path@, kind, storage, table@, side, materialized, remaining));
        assert(member_names(views(members@)) =~= seq!["current_branch"@, "current_head"@, "materialized"@, "operation"@, "path"@, "path_kind"@, "remaining_conflicts"@, "resolution"@, "storage"@, "table"@]);
        lemma_names_in_order();
        lemma_steps_ascend(member_names(views(members@)));
    }
    print_object(&members)
}

/// What is answered when a resolution is taken back.
pub open spec fn unresolve_members(head: Option<Seq<char>>, branch: Option<Seq<char>>, path: Seq<char>, kind: RepoTrackedPathKind, storage: RepoPathStorage, materialized: bool) -> Seq<JsonMemberView> {
    seq![
        JsonMember { name: "current_branch"@, value: text_field(branch) },
        JsonMember { name: "current_head"@, value: text_field(head) },
        JsonMember { name: "materialized"@, value: JsonField::Bool(materialized) },
        JsonMember { name: "operation"@, value: JsonField::Text("unresolve_merge_path"@) },
        JsonMember { name: "path"@, value: JsonField::Text(path) },
        JsonMember { name: "path_kind"@, value: JsonField::Text(kind_json(kind)) },
        JsonMember { name: "resolution"@, value: JsonField::Text("unresolved"@) },
        JsonMember { name: "storage"@, value: JsonField::Text(storage_json(storage)) },
    ]
}

pub fn unresolve_answer(
    head: &Option<String>,
    branch: &Option<String>,
    path: &str,
    kind: RepoTrackedPathKind,
    storage: RepoPathStorage,
    materialized: bool,
) -> (r: String)
    ensures
        r@ == object_text(
            unresolve_members(
                text_option(*head),
                text_option(*branch),
                path@,
                kind,
                storage,
                materialized,
            ),
        ),
{
    let members = vec![
        member("current_branch", field_of(branch)),
        member("current_head", field_of(head)),
        member("materialized", JsonField::Bool(materialized)),
        member("operation", JsonField::Text("unresolve_merge_path".to_owned())),
        member("path", JsonField::Text(path.to_owned())),
        member("path_kind", JsonField::Text(repo_tracked_path_kind_json_label(kind).to_owned())),
        member("resolution", JsonField::Text("unresolved".to_owned())),
        member("storage", JsonField::Text(repo_path_storage_json_label(storage).to_owned())),
    ];
    proof {
        assert(views(members@) =~= unresolve_members(text_option(*head), text_option(*branch), path@, kind, storage, materialized));
        assert(member_names(views(members@)) =~= seq!["current_branch"@, "current_head"@, "materialized"@, "operation"@, "path"@, "path_kind"@, "resolution"@, "storage"@]);
        lemma_names_in_order();
        lemma_steps_ascend(member_names(views(members@)));
    }
    print_object(&members)
}

/// What is answered when a resolution is recorded.
pub open spec fn record_resolution_members(path: Seq<char>, resolution: Seq<char>) -> Seq<JsonMemberView> {
    seq![
        JsonMember { name: "operation"@, value: JsonField::Text("record_merge_path_resolution"@) },
        JsonMember { name: "path"@, value: JsonField::Text(path) },
        JsonMember { name: "resolution"@, value: JsonField::Text(resolution) },
    ]
}

pub fn record_resolution_answer(
    path: &str,
    resolution: &str,
) -> (r: String)
    ensures
        r@ == object_text(record_resolution_members(path@, resolution@)),
{
    let members = vec![
        member("operation", JsonField::Text("record_merge_path_resolution".to_owned())),
        member("path", JsonField::Text(path.to_owned())),
        member("resolution", JsonField::Text(resolution.to_owned())),
    ];
    proof {
        assert(views(members@) =~= record_resolution_members(path@, resolution@));
        assert(member_names(views(members@)) =~= seq!["operation"@, "path"@, "resolution"@]);
        lemma_names_in_order();
        lemma_steps_ascend(member_names(views(members@)));
    }
    print_object(&members)
}

} // verus!
