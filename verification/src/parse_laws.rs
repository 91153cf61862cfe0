//! What holds of arguments that are read: each word is taken as what it stands for.
use vstd::prelude::*;
use vstd::string::*;

use crate::error::PragmaErr;
use crate::labels::kind_json;
use crate::number::{decimal, law_parsed_decimal};
use crate::parse_paths::{
    add_arg, add_forced, add_trimmed, diff_arg, diff_flags, diff_spec, diff_target, is_add_all,
    kind_arg, names_one_path, no_diff_flags, DiffFlags,
};
use crate::parse_refs::{
    annotated_tag, audit_arg, audit_words, branch_create_arg, branch_delete_arg,
    branch_list_mode, branch_rename_arg, branch_upstream_arg, config_parts, debug_diff_arg,
    json_log_nothing, json_log_words, mode_words, remote_branch_ref, reset_arg,
    switch_branch_arg, switch_create_arg, tag_create_arg, volume_diff_arg, with_status_arg,
    ModeWords,
};
use crate::parse_worktree::{
    checkout_arg, export_words, ls_files_arg, ls_files_checked, ls_files_nothing,
    ls_files_words, remove_arg, remove_words, resolve_arg, resolve_words, restore_arg,
    restore_checked, restore_nothing, restore_words, side_flag, status_arg, status_words,
    ExportFlags, ResolveFlags,
};
use crate::remote::{
    clone_words, http_remote, http_words, path_and_query, positional, query_value,
    refspec_like, remote_add_arg, remote_branch_arg, remote_of_uri, remote_rename_arg, uri_of,
};
use crate::spec::{
    BranchListMode, DiffMode, JsonLogMode, JsonLogSpec, LsFilesSpec, RemoteConfig,
    RepoCheckoutSpec, RepoDiffTarget, RepoRestoreSpec, RepoTrackedPathKind, ResetMode,
    ResolveSide,
};
use crate::text::{
    dashed, find_from, has_prefix, joined, lacks, lemma_cut_absent, lemma_find_from,
    lemma_has_prefix, lemma_parts_single, occurs_at, trimmed, white_at, white_space, words,
};
use crate::text_laws::{law_parts_of_both_sides, law_words, no_white};
use crate::words::{ambiguous_escape, law_plain_words, plain, Host};

verus! {

/// A word stands by itself.
pub open spec fn is_word(w: Seq<char>) -> bool {
    w.len() > 0 && no_white(w)
}

/// A word that is no flag.
pub open spec fn is_plain(w: Seq<char>) -> bool {
    is_word(w) && !dashed(w)
}

proof fn lemma_two_words(a: Seq<char>, b: Seq<char>)
    requires
        is_word(a),
        is_word(b),
    ensures
        words(a) == seq![a],
        words(a + " "@ + b) == seq![a, b],
{
    reveal_strlit(" ");
    assert(" "@ =~= seq![' ']);
    law_words(a, a, ' ', b);
    law_words(b, a, ' ', b);
    assert(seq![a] + seq![b] =~= seq![a, b]);
}

proof fn lemma_three_words(a: Seq<char>, b: Seq<char>, c: Seq<char>)
    requires
        is_word(a),
        is_word(b),
        is_word(c),
    ensures
        words(a + " "@ + b + " "@ + c) == seq![a, b, c],
{
    reveal_strlit(" ");
    assert(" "@ =~= seq![' ']);
    lemma_two_words(a, b);
    law_words(c, a + " "@ + b, ' ', c);
    assert(seq![a, b] + seq![c] =~= seq![a, b, c]);
}

/// The flags are words, and each begins with a dash.
proof fn lemma_flags()
    ensures
        is_word("--force"@) && dashed("--force"@),
        is_word("-f"@) && dashed("-f"@),
        is_word("-D"@) && dashed("-D"@),
        is_word("-M"@) && dashed("-M"@),
        is_word("--soft"@) && dashed("--soft"@),
        is_word("--mixed"@) && dashed("--mixed"@),
        is_word("--hard"@) && dashed("--hard"@),
        is_word("--"@) && dashed("--"@),
        is_word("--all"@) && dashed("--all"@),
        is_word("-A"@) && dashed("-A"@),
        is_word("--ours"@) && dashed("--ours"@),
        is_word("--theirs"@) && dashed("--theirs"@),
        is_word("--manual"@) && dashed("--manual"@),
        is_word("--row"@) && dashed("--row"@),
        is_word("--path"@) && dashed("--path"@),
        is_word("--branch"@) && dashed("--branch"@),
        is_word("-b"@) && dashed("-b"@),
        is_word("--worktree"@) && dashed("--worktree"@),
{
    reveal_strlit("--force");
    reveal_strlit("-f");
    reveal_strlit("-D");
    reveal_strlit("-M");
    reveal_strlit("--soft");
    reveal_strlit("--mixed");
    reveal_strlit("--hard");
    reveal_strlit("--");
    reveal_strlit("--all");
    reveal_strlit("-A");
    reveal_strlit("--ours");
    reveal_strlit("--theirs");
    reveal_strlit("--manual");
    reveal_strlit("--row");
    reveal_strlit("--path");
    reveal_strlit("--branch");
    reveal_strlit("-b");
    reveal_strlit("--worktree");
}

/// A branch is deleted by its name, and forced only where that is said.
pub proof fn law_branch_deletions(name: Seq<char>)
    requires
        is_word(name),
    ensures
        branch_delete_arg(name) == Ok::<_, PragmaErr<Seq<char>>>((name, false)),
        branch_delete_arg("--force"@ + " "@ + name) == Ok::<_, PragmaErr<Seq<char>>>((name, true)),
        branch_delete_arg("-D"@ + " "@ + name) == Ok::<_, PragmaErr<Seq<char>>>((name, true)),
        branch_delete_arg("-f"@ + " "@ + name) == Ok::<_, PragmaErr<Seq<char>>>((name, true)),
{
    lemma_flags();
    lemma_two_words(name, name);
    lemma_two_words("--force"@, name);
    lemma_two_words("-D"@, name);
    lemma_two_words("-f"@, name);
}

/// A branch is renamed from the first name to the second, or the one that is checked out to the only
/// name.
pub proof fn law_branch_renames(old_name: Seq<char>, new_name: Seq<char>)
    requires
        is_plain(old_name),
        is_plain(new_name),
    ensures
        branch_rename_arg(new_name) == Ok::<_, PragmaErr<Seq<char>>>(
            (None::<Seq<char>>, new_name, false),
        ),
        branch_rename_arg(old_name + " "@ + new_name) == Ok::<_, PragmaErr<Seq<char>>>(
            (Some(old_name), new_name, false),
        ),
        branch_rename_arg("--force"@ + " "@ + new_name) == Ok::<_, PragmaErr<Seq<char>>>(
            (None::<Seq<char>>, new_name, true),
        ),
        branch_rename_arg("--force"@ + " "@ + old_name + " "@ + new_name) == Ok::<
            _,
            PragmaErr<Seq<char>>,
        >((Some(old_name), new_name, true)),
        branch_rename_arg("-M"@ + " "@ + old_name + " "@ + new_name) == Ok::<
            _,
            PragmaErr<Seq<char>>,
        >((Some(old_name), new_name, true)),
{
    lemma_flags();
    lemma_two_words(new_name, new_name);
    lemma_two_words(old_name, new_name);
    lemma_two_words("--force"@, new_name);
    lemma_three_words("--force"@, old_name, new_name);
    lemma_three_words("-M"@, old_name, new_name);
}

/// A branch starts where that is said, and is switched to by force only where that is said.
pub proof fn law_new_branches(name: Seq<char>, start: Seq<char>)
    requires
        is_plain(name),
        is_plain(start),
    ensures
        branch_create_arg(name) == Ok::<_, PragmaErr<Seq<char>>>((name, None::<Seq<char>>)),
        branch_create_arg(name + " "@ + start) == Ok::<_, PragmaErr<Seq<char>>>((name, Some(start))),
        switch_create_arg(name) == Ok::<_, PragmaErr<Seq<char>>>((name, None::<Seq<char>>, false)),
        switch_create_arg(name + " "@ + start) == Ok::<_, PragmaErr<Seq<char>>>(
            (name, Some(start), false),
        ),
        switch_create_arg("--force"@ + " "@ + name) == Ok::<_, PragmaErr<Seq<char>>>(
            (name, None::<Seq<char>>, true),
        ),
        switch_create_arg("--force"@ + " "@ + name + " "@ + start) == Ok::<_, PragmaErr<Seq<char>>>(
            (name, Some(start), true),
        ),
        switch_branch_arg(name) == Ok::<_, PragmaErr<Seq<char>>>((name, false)),
        switch_branch_arg("--force"@ + " "@ + name) == Ok::<_, PragmaErr<Seq<char>>>((name, true)),
        switch_branch_arg("-f"@ + " "@ + name) == Ok::<_, PragmaErr<Seq<char>>>((name, true)),
{
    lemma_flags();
    lemma_two_words(name, start);
    lemma_two_words("--force"@, name);
    lemma_two_words("-f"@, name);
    lemma_three_words("--force"@, name, start);
}

/// The upstream of a branch is the branch behind the slash of the remote before it.
pub proof fn law_upstreams(branch: Seq<char>, remote: Seq<char>, remote_branch: Seq<char>)
    requires
        is_word(branch),
        is_word(remote),
        is_word(remote_branch),
        lacks(remote, '/'),
    ensures
        remote_branch_ref(remote + "/"@ + remote_branch) == Ok::<_, PragmaErr<Seq<char>>>(
            (remote, remote_branch),
        ),
        branch_upstream_arg(remote + "/"@ + remote_branch) == Ok::<_, PragmaErr<Seq<char>>>(
            (None::<Seq<char>>, remote, remote_branch),
        ),
        branch_upstream_arg(branch + " "@ + (remote + "/"@ + remote_branch)) == Ok::<
            _,
            PragmaErr<Seq<char>>,
        >((Some(branch), remote, remote_branch)),
{
    reveal_strlit("/");
    assert("/"@ =~= seq!['/']);
    let upstream = remote + "/"@ + remote_branch;
    crate::text::lemma_cut_found(remote, '/', remote_branch);
    assert forall|i: int| 0 <= i < upstream.len() implies !crate::text::white_space(
        #[trigger] upstream[i],
    ) by {
        if i < remote.len() {
            assert(upstream[i] == remote[i]);
        } else if i > remote.len() {
            assert(upstream[i] == remote_branch[i - remote.len() - 1]);
        }
    }
    lemma_two_words(upstream, upstream);
    lemma_two_words(branch, upstream);
}

/// A reset goes to the revision, and as far as it is told; without being told it is mixed.
pub proof fn law_reset_modes(rev: Seq<char>)
    requires
        is_word(rev),
    ensures
        reset_arg(rev) == Ok::<_, PragmaErr<Seq<char>>>((ResetMode::Mixed, rev)),
        reset_arg("--soft"@ + " "@ + rev) == Ok::<_, PragmaErr<Seq<char>>>((ResetMode::Soft, rev)),
        reset_arg("--mixed"@ + " "@ + rev) == Ok::<_, PragmaErr<Seq<char>>>((ResetMode::Mixed, rev)),
        reset_arg("--hard"@ + " "@ + rev) == Ok::<_, PragmaErr<Seq<char>>>((ResetMode::Hard, rev)),
{
    lemma_flags();
    lemma_two_words(rev, rev);
    lemma_two_words("--soft"@, rev);
    lemma_two_words("--mixed"@, rev);
    lemma_two_words("--hard"@, rev);
    reveal_strlit("--soft");
    reveal_strlit("--mixed");
    reveal_strlit("--hard");
    assert("--soft"@.len() == 6 && "--mixed"@.len() == 7 && "--hard"@.len() == 6);
    assert("--soft"@[2] == 's' && "--hard"@[2] == 'h');
}

/// Names that go together keep their order.
pub proof fn law_pairs_keep_their_order(a: Seq<char>, b: Seq<char>)
    requires
        is_word(a),
        is_word(b),
    ensures
        remote_rename_arg(a + " "@ + b) == Ok::<_, PragmaErr<Seq<char>>>((a, b)),
        debug_diff_arg(a + " "@ + b) == Ok::<_, PragmaErr<Seq<char>>>((a, b)),
        lacks(a, ',') && lacks(b, ',') ==> volume_diff_arg(a + ","@ + b) == Ok::<
            _,
            PragmaErr<Seq<char>>,
        >((a, b, DiffMode::Default)),
{
    lemma_two_words(a, b);
    if lacks(a, ',') && lacks(b, ',') {
        reveal_strlit(",");
        assert(","@ =~= seq![',']);
        law_parts_of_both_sides(a, ',', b);
        lemma_parts_single(a, ',', Seq::empty());
        lemma_parts_single(b, ',', Seq::empty());
        assert(Seq::<char>::empty() + a =~= a);
        assert(Seq::<char>::empty() + b =~= b);
        assert(seq![a] + seq![b] =~= seq![a, b]);
    }
}

/// A checkout names a revision, by force where that is said, or a path of a revision.
pub proof fn law_checkouts(rev: Seq<char>, path: Seq<char>)
    requires
        is_plain(rev),
        is_plain(path),
    ensures
        checkout_arg(rev) == Ok::<_, PragmaErr<Seq<char>>>(
            RepoCheckoutSpec::Detach { rev, force: false },
        ),
        checkout_arg("--force"@ + " "@ + rev) == Ok::<_, PragmaErr<Seq<char>>>(
            RepoCheckoutSpec::Detach { rev, force: true },
        ),
        checkout_arg(rev + " "@ + "--"@ + " "@ + path) == Ok::<_, PragmaErr<Seq<char>>>(
            RepoCheckoutSpec::Path { rev, path },
        ),
{
    lemma_flags();
    lemma_two_words(rev, rev);
    lemma_two_words("--force"@, rev);
    lemma_three_words(rev, "--"@, path);
    assert(seq![rev, "--"@, path].skip(2) =~= seq![path]);
    assert(joined(seq![path], " "@) == path);
}

/// A side is named by its label behind two dashes, and only so.
pub proof fn law_side_flags(side: ResolveSide, w: Seq<char>)
    ensures
        side_flag("--"@ + side.name()) == Some(side),
        side_flag(w) matches Some(s) ==> w == "--"@ + s.name(),
{
    reveal_strlit("--ours");
    reveal_strlit("--theirs");
    reveal_strlit("--manual");
    reveal_strlit("ours");
    reveal_strlit("theirs");
    reveal_strlit("manual");
    reveal_strlit("--");
    assert("--"@ + "ours"@ =~= "--ours"@);
    assert("--"@ + "theirs"@ =~= "--theirs"@);
    assert("--"@ + "manual"@ =~= "--manual"@);
    assert("--ours"@.len() == 6 && "--theirs"@.len() == 8 && "--manual"@.len() == 8);
    assert("--theirs"@[2] == 't' && "--manual"@[2] == 'm');
}

proof fn lemma_resolve_words(flag: Seq<char>, path: Seq<char>, side: ResolveSide)
    requires
        side_flag(flag) == Some(side),
        side_flag(path) is None,
        path != "--row"@,
        path != "--path"@,
    ensures
        resolve_words(
            seq![flag, path],
            0,
            ResolveFlags { side: None, row: None, path: Seq::empty() },
        ) == Ok::<_, PragmaErr<Seq<char>>>(
            ResolveFlags { side: Some(side), row: None, path: seq![path] },
        ),
        resolve_words(seq![path], 0, ResolveFlags { side: None, row: None, path: Seq::empty() })
            == Ok::<_, PragmaErr<Seq<char>>>(
            ResolveFlags { side: None, row: None, path: seq![path] },
        ),
{
    let w = seq![flag, path];
    let none = ResolveFlags { side: None, row: None, path: Seq::empty() };
    let one = ResolveFlags { side: Some(side), ..none };
    let two = ResolveFlags { path: seq![path], ..one };
    assert(Seq::<Seq<char>>::empty().push(path) =~= seq![path]);
    assert(resolve_words(w, 2, two) == Ok::<_, PragmaErr<Seq<char>>>(two));
    assert(w[1] == path);
    assert(resolve_words(w, 1, one) == resolve_words(w, 2, two));
    assert(w[0] == flag);
    assert(resolve_words(w, 0, none) == resolve_words(w, 1, one));
    let alone = ResolveFlags { path: seq![path], ..none };
    assert(resolve_words(seq![path], 1, alone) == Ok::<_, PragmaErr<Seq<char>>>(alone));
    assert(seq![path][0] == path);
    assert(resolve_words(seq![path], 0, none) == resolve_words(seq![path], 1, alone));
}

/// A resolution takes the side that is named, of the path that is named, and there is none without a
/// side.
pub proof fn law_resolutions(side: ResolveSide, path: Seq<char>)
    requires
        is_plain(path),
    ensures
        resolve_arg("--"@ + side.name() + " "@ + path) matches Ok(spec) && spec.side == side
            && spec.path == Some(path) && spec.row is None,
        resolve_arg(path) is Err,
{
    lemma_flags();
    let flag = "--"@ + side.name();
    law_side_flags(side, flag);
    assert(is_word(flag) && dashed(flag)) by {
        assert(side_flag(flag) == Some(side));
    }
    assert(side_flag(path) is None);
    lemma_two_words(flag, path);
    lemma_two_words(path, path);
    lemma_resolve_words(flag, path, side);
    assert(joined(seq![path], " "@) == path);
}

/// The name that JSON gives a kind of path names that kind.
pub proof fn law_kinds_are_read_as_they_are_told(kind: RepoTrackedPathKind)
    ensures
        kind_arg(kind_json(kind)) == Ok::<_, PragmaErr<Seq<char>>>(kind),
{
    reveal_strlit("sqlite");
    reveal_strlit("sqlite_database");
    reveal_strlit("sqlite-database");
    reveal_strlit("database");
    reveal_strlit("db");
    reveal_strlit("text");
    reveal_strlit("text_file");
    reveal_strlit("text-file");
    reveal_strlit("binary_file");
    assert("sqlite"@.len() == 6 && "sqlite_database"@.len() == 15 && "sqlite-database"@.len() == 15);
    assert("database"@.len() == 8 && "db"@.len() == 2 && "text"@.len() == 4);
    assert("text_file"@.len() == 9 && "text-file"@.len() == 9 && "binary_file"@.len() == 11);
}

/// Nothing is deleted unless that is said: a run is only shown wherever it is not forced.
pub proof fn law_runs_are_only_shown(
    w: Seq<Seq<char>>,
    i: int,
    known: Option<bool>,
    say: ModeWords<Seq<char>>,
)
    requires
        0 <= i <= w.len(),
    ensures
        mode_words(w, i, known, say) matches Ok(shown) ==> (!shown <==> known == Some(false)
            || exists|j: int| i <= j < w.len() && #[trigger] w[j] == "--force"@),
    decreases w.len() - i,
{
    reveal_strlit("--force");
    reveal_strlit("--dry-run");
    assert("--force"@.len() == 7 && "--dry-run"@.len() == 9);
    if i < w.len() {
        if w[i] == "--dry-run"@ || w[i] == "--force"@ {
            law_runs_are_only_shown(w, i + 1, Some(w[i] == "--dry-run"@), say);
            if known is None {
                if exists|j: int| i <= j < w.len() && #[trigger] w[j] == "--force"@ {
                    let j = choose|j: int| i <= j < w.len() && #[trigger] w[j] == "--force"@;
                    assert(w[j] == "--force"@);
                }
            }
        }
    }
}

/// An audit repairs only where that is said, and uses a remote only to repair.
pub proof fn law_audits(w: Seq<Seq<char>>, i: int, repair: bool, remote: Option<Seq<char>>)
    requires
        0 <= i <= w.len(),
    ensures
        audit_words(w, i, repair, remote) matches Ok(spec) ==> {
            &&& spec.repair <==> repair || exists|j: int|
                i <= j < w.len() && #[trigger] w[j] == "--repair"@
            &&& spec.remote is Some ==> spec.repair
            &&& spec.remote matches Some(r) ==> remote == Some(r) || exists|j: int|
                i <= j < w.len() && #[trigger] w[j] == r
        },
    decreases w.len() - i,
{
    reveal_strlit("--repair");
    assert("--repair"@[0] == '-');
    if i < w.len() {
        if w[i] == "--repair"@ {
            law_audits(w, i + 1, true, remote);
        } else {
            law_audits(w, i + 1, repair, Some(w[i]));
        }
    }
}

/// The words of a clone: where it comes from, and the branch and the place that are named with it, in
/// any of the orders that are allowed.
pub proof fn law_clones(uri: Seq<char>, branch: Seq<char>, place: Seq<char>)
    requires
        !dashed(uri),
        !dashed(branch),
        !dashed(place),
    ensures
        clone_words(seq![uri]) == Some((None::<Seq<char>>, uri, None::<Seq<char>>)),
        clone_words(seq![uri, branch]) == Some((None::<Seq<char>>, uri, Some(branch))),
        clone_words(seq!["--branch"@, branch, uri]) == Some((None::<Seq<char>>, uri, Some(branch))),
        clone_words(seq!["-b"@, branch, uri]) == Some((None::<Seq<char>>, uri, Some(branch))),
        clone_words(seq!["--worktree"@, place, uri]) == Some((Some(place), uri, None::<Seq<char>>)),
        clone_words(seq!["--worktree"@, place, uri, branch]) == Some(
            (Some(place), uri, Some(branch)),
        ),
        clone_words(seq!["--worktree"@, place, "--branch"@, branch, uri]) == Some(
            (Some(place), uri, Some(branch)),
        ),
        clone_words(seq!["--branch"@, branch, "--worktree"@, place, uri]) == Some(
            (Some(place), uri, Some(branch)),
        ),
{
    lemma_flags();
    reveal_strlit("--branch");
    reveal_strlit("-b");
    reveal_strlit("--worktree");
    assert("--branch"@.len() == 8 && "-b"@.len() == 2 && "--worktree"@.len() == 10);
}

proof fn lemma_positional(w: Seq<Seq<char>>)
    requires
        forall|i: int| 0 <= i < w.len() ==> !dashed(#[trigger] w[i]),
    ensures
        positional(w) == w,
        !crate::remote::any_all(w),
        !crate::remote::any_force(w),
        positional(seq!["--force"@] + w) == w,
        crate::remote::any_force(seq!["--force"@] + w),
        !crate::remote::any_all(seq!["--force"@] + w),
        positional(seq!["--all"@] + w) == w,
        crate::remote::any_all(seq!["--all"@] + w),
        !crate::remote::any_force(seq!["--all"@] + w),
    decreases w.len(),
{
    reveal(Seq::filter);
    lemma_flags();
    reveal_strlit("--force");
    reveal_strlit("--all");
    reveal_strlit("-f");
    assert("--force"@.len() == 7 && "--all"@.len() == 5 && "-f"@.len() == 2);
    let forced = seq!["--force"@] + w;
    let all = seq!["--all"@] + w;
    assert(forced[0] == "--force"@);
    assert(all[0] == "--all"@);
    if w.len() == 0 {
        assert(forced =~= seq!["--force"@]);
        assert(all =~= seq!["--all"@]);
        assert(forced.drop_last() =~= w);
        assert(all.drop_last() =~= w);
        assert(positional(forced) =~= w);
        assert(positional(all) =~= w);
    } else {
        let rest = w.drop_last();
        assert forall|i: int| 0 <= i < rest.len() implies !dashed(#[trigger] rest[i]) by {
            assert(rest[i] == w[i]);
        }
        lemma_positional(rest);
        assert(!dashed(w[w.len() - 1]));
        assert(forced.drop_last() =~= seq!["--force"@] + rest);
        assert(all.drop_last() =~= seq!["--all"@] + rest);
        assert(rest.push(w.last()) =~= w);
    }
}

/// A fetch, pull or push names its remote and then its branch, or a refspec where the branch would be.
/// It is forced, or takes every branch, only where that is said.
pub proof fn law_remotes_and_branches(remote: Seq<char>, branch: Seq<char>)
    requires
        is_plain(remote),
        is_plain(branch),
        !refspec_like(remote),
    ensures
        remote_branch_arg(None) matches Ok(r) && r.remote is None && r.branch is None && r.refspec
            is None && !r.all && !r.force,
        remote_branch_arg(Some(remote)) matches Ok(r) && r.remote == Some(remote) && r.branch is None
            && r.refspec is None && !r.all && !r.force,
        remote_branch_arg(Some(remote + " "@ + branch)) matches Ok(r) && r.remote == Some(remote)
            && !r.all && !r.force && (if refspec_like(branch) {
            r.refspec == Some(branch) && r.branch is None
        } else {
            r.branch == Some(branch) && r.refspec is None
        }),
        remote_branch_arg(Some("--force"@ + " "@ + remote + " "@ + branch)) matches Ok(r) && r.remote
            == Some(remote) && !r.all && r.force && (if refspec_like(branch) {
            r.refspec == Some(branch) && r.branch is None
        } else {
            r.branch == Some(branch) && r.refspec is None
        }),
        remote_branch_arg(Some("--all"@ + " "@ + remote)) matches Ok(r) && r.remote == Some(remote)
            && r.branch is None && r.refspec is None && r.all && !r.force,
        remote_branch_arg(Some("--all"@ + " "@ + remote + " "@ + branch)) is Err,
{
    lemma_flags();
    lemma_two_words(remote, branch);
    lemma_two_words("--all"@, remote);
    lemma_three_words("--force"@, remote, branch);
    lemma_three_words("--all"@, remote, branch);
    lemma_positional(seq![remote]);
    lemma_positional(seq![remote, branch]);
    assert(seq!["--all"@] + seq![remote] =~= seq!["--all"@, remote]);
    assert(seq!["--all"@] + seq![remote, branch] =~= seq!["--all"@, remote, branch]);
    assert(seq!["--force"@] + seq![remote, branch] =~= seq!["--force"@, remote, branch]);
}

/// A diff goes from the first revision to the second, from the only one to the worktree, or from the
/// index to the worktree without any; of the staged changes where that is said; and of one path where
/// one is named behind two dashes.
pub proof fn law_targets_of_a_diff(from: Seq<char>, to: Seq<char>, path: Seq<char>)
    requires
        !dashed(from),
        !dashed(to),
        !dashed(path),
    ensures
        diff_target(None, Seq::empty()) == Ok::<_, PragmaErr<Seq<char>>>(
            RepoDiffTarget::Worktree { path: None::<Seq<char>> },
        ),
        diff_target(None, seq!["--"@, path]) == Ok::<_, PragmaErr<Seq<char>>>(
            RepoDiffTarget::Worktree { path: Some(path) },
        ),
        diff_target(None, seq!["--staged"@]) == Ok::<_, PragmaErr<Seq<char>>>(
            RepoDiffTarget::Staged { path: None::<Seq<char>> },
        ),
        diff_target(None, seq!["--cached"@, "--"@, path]) == Ok::<_, PragmaErr<Seq<char>>>(
            RepoDiffTarget::Staged { path: Some(path) },
        ),
        diff_target(None, seq![from]) == Ok::<_, PragmaErr<Seq<char>>>(
            RepoDiffTarget::RevisionToWorktree { rev: from, path: None::<Seq<char>> },
        ),
        diff_target(None, seq![from, "--"@, path]) == Ok::<_, PragmaErr<Seq<char>>>(
            RepoDiffTarget::RevisionToWorktree { rev: from, path: Some(path) },
        ),
        diff_target(None, seq![from, to]) == Ok::<_, PragmaErr<Seq<char>>>(
            RepoDiffTarget::Revisions { from, to, path: None::<Seq<char>> },
        ),
        diff_target(None, seq![from, to, "--"@, path]) == Ok::<_, PragmaErr<Seq<char>>>(
            RepoDiffTarget::Revisions { from, to, path: Some(path) },
        ),
        diff_target(Some(to), Seq::empty()) == Ok::<_, PragmaErr<Seq<char>>>(
            RepoDiffTarget::Root { to, path: None::<Seq<char>> },
        ),
        diff_target(Some(to), seq!["--"@, path]) == Ok::<_, PragmaErr<Seq<char>>>(
            RepoDiffTarget::Root { to, path: Some(path) },
        ),
{
    lemma_flags();
    reveal_strlit("--");
    reveal_strlit("--staged");
    reveal_strlit("--cached");
    assert("--"@.len() == 2 && "--staged"@.len() == 8 && "--cached"@.len() == 8);
    assert("--staged"@[0] == '-' && "--cached"@[0] == '-');
    assert(joined(seq![path], " "@) == path);
    assert(seq!["--"@, path].skip(1) =~= seq![path]);
    assert(seq!["--cached"@, "--"@, path].skip(2) =~= seq![path]);
    assert(seq![from, "--"@, path].skip(2) =~= seq![path]);
    assert(seq![from, to, "--"@, path].skip(3) =~= seq![path]);
}

/// A diff of contents is one of text between revisions and of a single path, and is not one of rows;
/// its limit is that of the contents. Every diff keeps its target and its kind.
pub proof fn law_options_of_a_diff(f: DiffFlags, target: RepoDiffTarget<Seq<char>>)
    ensures
        diff_spec(f, target) is Ok <==> {
            &&& f.max is Some ==> f.content
            &&& f.content ==> !f.rows && (f.kind is None || f.kind == Some(
                RepoTrackedPathKind::TextFile,
            )) && names_one_path(target)
        },
        diff_spec(f, target) matches Ok(spec) ==> {
            &&& spec.target == target
            &&& spec.kind == f.kind
            &&& spec.mode == DiffMode::Rows <==> f.rows
            &&& spec.mode == DiffMode::Default <==> !f.rows
            &&& spec.content is Some <==> f.content
            &&& spec.content matches Some(c) ==> c.max_bytes == f.max
            &&& spec.table is None
            &&& spec.row_page is None
        },
{
}

/// A path is removed from the index alone exactly where that is said before it.
pub proof fn law_removals(path: Seq<char>)
    requires
        !dashed(path),
    ensures
        remove_words(seq![path], 0, false) matches Ok(spec) && spec.path == Some(path)
            && !spec.cached,
        remove_words(seq!["--cached"@, path], 0, false) matches Ok(spec) && spec.path == Some(path)
            && spec.cached,
        remove_words(seq!["--"@, path], 0, false) matches Ok(spec) && spec.path == Some(path)
            && !spec.cached,
{
    lemma_flags();
    reveal_strlit("--cached");
    assert("--cached"@[0] == '-' && "--cached"@.len() == 8);
    reveal_strlit("--");
    assert("--"@.len() == 2);
    assert(joined(seq![path], " "@) == path);
    assert(seq![path].skip(0) =~= seq![path]);
    assert(seq!["--cached"@, path].skip(1) =~= seq![path]);
    assert(seq!["--"@, path].skip(1) =~= seq![path]);
    assert(seq![path][0] == path);
    let w = seq!["--cached"@, path];
    assert(w[0] == "--cached"@ && w[1] == path);
    assert(remove_words(w, 0, false) == remove_words(w, 1, true));
}

/// Restores of a path, of everything staged, and of neither: what the options must say together.
pub proof fn law_options_of_a_restore(f: RepoRestoreSpec<Seq<char>>)
    ensures
        restore_checked(f) is Ok <==> {
            ||| f.all && f.staged && f.path is None
            ||| !f.all && f.kind is None && f.path is Some
        },
        restore_checked(f) matches Ok(spec) ==> spec == f,
{
}

/// Each option of a restore sets what it says and nothing else, and the words behind them are the
/// path.
pub proof fn law_words_of_a_restore(value: Seq<char>, path: Seq<char>)
    requires
        !dashed(value),
        !dashed(path),
    ensures
        restore_words(seq![path], 0, restore_nothing()) == Ok::<_, PragmaErr<Seq<char>>>(
            RepoRestoreSpec { path: Some(path), ..restore_nothing() },
        ),
        restore_words(seq!["--staged"@, path], 0, restore_nothing()) == Ok::<_, PragmaErr<Seq<char>>>(
            RepoRestoreSpec { path: Some(path), staged: true, ..restore_nothing() },
        ),
        restore_words(seq!["--source"@, value, path], 0, restore_nothing()) == Ok::<
            _,
            PragmaErr<Seq<char>>,
        >(RepoRestoreSpec { path: Some(path), source: Some(value), ..restore_nothing() }),
        restore_words(seq!["--expected-head"@, value, path], 0, restore_nothing()) == Ok::<
            _,
            PragmaErr<Seq<char>>,
        >(RepoRestoreSpec { path: Some(path), expected_head: Some(value), ..restore_nothing() }),
        restore_words(seq!["--require-clean"@, path], 0, restore_nothing()) == Ok::<
            _,
            PragmaErr<Seq<char>>,
        >(RepoRestoreSpec { path: Some(path), require_clean: true, ..restore_nothing() }),
        restore_nothing().source is None && restore_nothing().expected_head is None
            && !restore_nothing().require_clean && !restore_nothing().staged && !restore_nothing().all
            && restore_nothing().kind is None,
{
    lemma_flags();
    lemma_restore_flags();
    let none = restore_nothing();
    assert(joined(seq![path], " "@) == path);
    assert(seq![path].skip(0) =~= seq![path]);
    assert(seq![path][0] == path);
    let a = seq!["--staged"@, path];
    assert(a[0] == "--staged"@ && a[1] == path && a.skip(1) =~= seq![path]);
    assert(restore_words(a, 0, none) == restore_words(a, 1, RepoRestoreSpec { staged: true, ..none }));
    let b = seq!["--source"@, value, path];
    assert(b[0] == "--source"@ && b[1] == value && b[2] == path && b.skip(2) =~= seq![path]);
    assert(restore_words(b, 0, none) == restore_words(
        b,
        2,
        RepoRestoreSpec { source: Some(value), ..none },
    ));
    let c = seq!["--expected-head"@, value, path];
    assert(c[0] == "--expected-head"@ && c[1] == value && c[2] == path && c.skip(2) =~= seq![path]);
    assert(restore_words(c, 0, none) == restore_words(
        c,
        2,
        RepoRestoreSpec { expected_head: Some(value), ..none },
    ));
    let d = seq!["--require-clean"@, path];
    assert(d[0] == "--require-clean"@ && d[1] == path && d.skip(1) =~= seq![path]);
    assert(restore_words(d, 0, none) == restore_words(
        d,
        1,
        RepoRestoreSpec { require_clean: true, ..none },
    ));
}

/// The options of a restore begin with a dash and differ.
proof fn lemma_restore_flags()
    ensures
        dashed("--staged"@) && "--staged"@.len() == 8,
        dashed("--cached"@) && "--cached"@.len() == 8,
        dashed("--source"@) && "--source"@.len() == 8,
        "--source"@[3] == 'o' && "--staged"@[3] == 't',
        dashed("-s"@) && "-s"@.len() == 2,
        dashed("--"@) && "--"@.len() == 2,
        dashed("--expected-head"@) && "--expected-head"@.len() == 15,
        dashed("--require-clean"@) && "--require-clean"@.len() == 15,
        "--expected-head"@[2] == 'e' && "--require-clean"@[2] == 'r' && "--cached"@[2] == 'c',
        "--source"@[2] == 's' && "--staged"@[2] == 's',
        dashed("--all"@) && "--all"@.len() == 5,
        dashed("-A"@) && "-A"@.len() == 2,
        dashed("--kind"@) && "--kind"@.len() == 6,
        dashed("--output"@) && "--output"@.len() == 8 && "--output"@[2] == 'o',
        dashed("-o"@) && "-o"@.len() == 2 && "-o"@[1] == 'o' && "--"@[1] == '-',
{
    reveal_strlit("--staged");
    reveal_strlit("--cached");
    reveal_strlit("--source");
    reveal_strlit("-s");
    reveal_strlit("--");
    reveal_strlit("--expected-head");
    reveal_strlit("--require-clean");
    reveal_strlit("--all");
    reveal_strlit("-A");
    reveal_strlit("--kind");
    reveal_strlit("--output");
    reveal_strlit("-o");
}

/// An export goes from the revision that is named as its source to the file that is named as its
/// output, of the path in between or behind.
pub proof fn law_words_of_an_export(rev: Seq<char>, output: Seq<char>, path: Seq<char>)
    requires
        !dashed(path),
    ensures
        export_words(
            seq!["--source"@, rev, "--output"@, output, path],
            0,
            ExportFlags { source: None, output: None, path: Seq::empty() },
        ) == Ok::<_, PragmaErr<Seq<char>>>(
            ExportFlags { source: Some(rev), output: Some(output), path: seq![path] },
        ),
{
    lemma_restore_flags();
    let w = seq!["--source"@, rev, "--output"@, output, path];
    let none = ExportFlags { source: None, output: None, path: Seq::empty() };
    let one = ExportFlags { source: Some(rev), ..none };
    let two = ExportFlags { output: Some(output), ..one };
    let three = ExportFlags { path: seq![path], ..two };
    assert(Seq::<Seq<char>>::empty().push(path) =~= seq![path]);
    assert(w[0] == "--source"@ && w[1] == rev && w[2] == "--output"@ && w[3] == output && w[4] == path);
    assert(export_words(w, 0, none) == export_words(w, 2, one));
    assert(export_words(w, 2, one) == export_words(w, 4, two));
    assert(export_words(w, 4, two) == export_words(w, 5, three));
    assert(export_words(w, 5, three) == Ok::<_, PragmaErr<Seq<char>>>(three));
}

/// A listing is of stages, of details or of untracked paths, and of no two of them.
pub proof fn law_options_of_a_listing(f: LsFilesSpec)
    ensures
        ls_files_checked(f) is Ok <==> !(f.stage && f.details) && !(f.others && f.stage) && !(f.others
            && f.details),
        ls_files_checked(f) matches Ok(spec) ==> spec == f,
{
}

/// Each option of a listing and of a status sets what it says.
pub proof fn law_words_of_a_listing(kind: RepoTrackedPathKind)
    ensures
        ls_files_words(seq!["--stage"@], 0, ls_files_nothing()) == Ok::<_, PragmaErr<Seq<char>>>(
            LsFilesSpec { stage: true, details: false, others: false, kind: None },
        ),
        ls_files_words(seq!["--details"@], 0, ls_files_nothing()) == Ok::<_, PragmaErr<Seq<char>>>(
            LsFilesSpec { stage: false, details: true, others: false, kind: None },
        ),
        ls_files_words(seq!["--others"@], 0, ls_files_nothing()) == Ok::<_, PragmaErr<Seq<char>>>(
            LsFilesSpec { stage: false, details: false, others: true, kind: None },
        ),
        ls_files_words(seq!["--kind"@, kind_json(kind)], 0, ls_files_nothing()) == Ok::<
            _,
            PragmaErr<Seq<char>>,
        >(LsFilesSpec { stage: false, details: false, others: false, kind: Some(kind) }),
        status_words(seq!["--kind"@, kind_json(kind)], 0, None) matches Ok(spec) && spec.kind == Some(
            kind,
        ),
        status_words(Seq::empty(), 0, None) matches Ok(spec) && spec.kind is None,
{
    law_kinds_are_read_as_they_are_told(kind);
    reveal_strlit("--stage");
    reveal_strlit("-s");
    reveal_strlit("--details");
    reveal_strlit("--others");
    reveal_strlit("--kind");
    assert("--stage"@.len() == 7 && "-s"@.len() == 2 && "--details"@.len() == 9);
    assert("--others"@.len() == 8 && "--kind"@.len() == 6);
    let none = ls_files_nothing();
    let a = seq!["--stage"@];
    assert(a[0] == "--stage"@);
    assert(ls_files_words(a, 0, none) == ls_files_words(a, 1, LsFilesSpec { stage: true, ..none }));
    let b = seq!["--details"@];
    assert(b[0] == "--details"@);
    assert(ls_files_words(b, 0, none) == ls_files_words(b, 1, LsFilesSpec { details: true, ..none }));
    let c = seq!["--others"@];
    assert(c[0] == "--others"@);
    assert(ls_files_words(c, 0, none) == ls_files_words(c, 1, LsFilesSpec { others: true, ..none }));
    let d = seq!["--kind"@, kind_json(kind)];
    assert(d[0] == "--kind"@ && d[1] == kind_json(kind));
    assert(ls_files_words(d, 0, none) == ls_files_words(
        d,
        2,
        LsFilesSpec { kind: Some(kind), ..none },
    ));
    assert(status_words(d, 0, None) == status_words(d, 2, Some(kind)));
}

/// A setting is read as the key and the value that are written, without the white space around them.
pub proof fn law_settings(key: Seq<char>, value: Seq<char>)
    requires
        is_word(key),
        is_word(value),
    ensures
        config_parts(key, value) == Ok::<_, PragmaErr<Seq<char>>>((key, value)),
        config_parts(key, Seq::empty()) is Err,
        config_parts(Seq::empty(), value) is Err,
{
    assert(crate::text::trim_start(key) == key);
    assert(crate::text::trim_end(key) == key);
    assert(crate::text::trim_start(value) == value);
    assert(crate::text::trim_end(value) == value);
}

/// Each option of a diff sets what it says, and the other words name what is compared. Behind two
/// dashes every word belongs to the path, whatever it looks like.
pub proof fn law_words_of_a_diff(rev: Seq<char>, path: Seq<char>, kind: RepoTrackedPathKind)
    requires
        !dashed(rev),
    ensures
        diff_flags(seq!["--rows"@, rev], 0, no_diff_flags()) == Ok::<_, PragmaErr<Seq<char>>>(
            DiffFlags { rows: true, rest: seq![rev], ..no_diff_flags() },
        ),
        diff_flags(seq!["--kind"@, kind_json(kind), rev], 0, no_diff_flags()) == Ok::<
            _,
            PragmaErr<Seq<char>>,
        >(DiffFlags { kind: Some(kind), rest: seq![rev], ..no_diff_flags() }),
        diff_flags(seq!["--content"@, rev], 0, no_diff_flags()) == Ok::<_, PragmaErr<Seq<char>>>(
            DiffFlags { content: true, rest: seq![rev], ..no_diff_flags() },
        ),
        diff_flags(seq!["--root"@, rev], 0, no_diff_flags()) == Ok::<_, PragmaErr<Seq<char>>>(
            DiffFlags { root: Some(rev), ..no_diff_flags() },
        ),
        diff_flags(seq!["--"@, path], 0, no_diff_flags()) == Ok::<_, PragmaErr<Seq<char>>>(
            DiffFlags { rest: seq!["--"@, path], in_path: true, ..no_diff_flags() },
        ),
        !no_diff_flags().rows && !no_diff_flags().content && no_diff_flags().kind is None
            && no_diff_flags().max is None && no_diff_flags().root is None
            && no_diff_flags().rest.len() == 0 && !no_diff_flags().in_path,
{
    law_kinds_are_read_as_they_are_told(kind);
    lemma_flags();
    reveal_strlit("--");
    reveal_strlit("--rows");
    reveal_strlit("--kind");
    reveal_strlit("--content");
    reveal_strlit("--max-content-bytes");
    reveal_strlit("--root");
    assert("--"@.len() == 2 && "--rows"@.len() == 6 && "--kind"@.len() == 6 && "--root"@.len() == 6);
    assert("--content"@.len() == 9 && "--max-content-bytes"@.len() == 19);
    assert("--rows"@[3] == 'o' && "--root"@[5] == 't' && "--rows"@[5] == 's' && "--kind"@[2] == 'k');
    assert("--rows"@[2] == 'r' && "--root"@[2] == 'r');
    assert("--rows"@[0] == '-' && "--kind"@[0] == '-' && "--content"@[0] == '-' && "--root"@[0] == '-'
        && "--max-content-bytes"@[0] == '-');
    let none = no_diff_flags();
    assert(Seq::<Seq<char>>::empty().push(rev) =~= seq![rev]);
    assert(Seq::<Seq<char>>::empty().push("--"@).push(path) =~= seq!["--"@, path]);
    let a = seq!["--rows"@, rev];
    let a1 = DiffFlags { rows: true, ..none };
    let a2 = DiffFlags { rest: seq![rev], ..a1 };
    assert(a[0] == "--rows"@ && a[1] == rev);
    assert(diff_flags(a, 0, none) == diff_flags(a, 1, a1));
    assert(diff_flags(a, 1, a1) == diff_flags(a, 2, a2));
    assert(diff_flags(a, 2, a2) == Ok::<_, PragmaErr<Seq<char>>>(a2));
    let b = seq!["--kind"@, kind_json(kind), rev];
    let b1 = DiffFlags { kind: Some(kind), ..none };
    let b2 = DiffFlags { rest: seq![rev], ..b1 };
    assert(b[0] == "--kind"@ && b[1] == kind_json(kind) && b[2] == rev);
    assert(diff_flags(b, 0, none) == diff_flags(b, 2, b1));
    assert(diff_flags(b, 2, b1) == diff_flags(b, 3, b2));
    assert(diff_flags(b, 3, b2) == Ok::<_, PragmaErr<Seq<char>>>(b2));
    let c = seq!["--content"@, rev];
    let c1 = DiffFlags { content: true, ..none };
    let c2 = DiffFlags { rest: seq![rev], ..c1 };
    assert(c[0] == "--content"@ && c[1] == rev);
    assert(diff_flags(c, 0, none) == diff_flags(c, 1, c1));
    assert(diff_flags(c, 1, c1) == diff_flags(c, 2, c2));
    assert(diff_flags(c, 2, c2) == Ok::<_, PragmaErr<Seq<char>>>(c2));
    let d = seq!["--root"@, rev];
    let d1 = DiffFlags { root: Some(rev), ..none };
    assert(d[0] == "--root"@ && d[1] == rev);
    assert(diff_flags(d, 0, none) == diff_flags(d, 2, d1));
    assert(diff_flags(d, 2, d1) == Ok::<_, PragmaErr<Seq<char>>>(d1));
    let e = seq!["--"@, path];
    let e1 = DiffFlags { rest: Seq::<Seq<char>>::empty().push("--"@), in_path: true, ..none };
    let e2 = DiffFlags { rest: seq!["--"@, path], ..e1 };
    assert(e[0] == "--"@ && e[1] == path);
    assert(diff_flags(e, 0, none) == diff_flags(e, 1, e1));
    assert(diff_flags(e, 1, e1) == diff_flags(e, 2, e2));
    assert(diff_flags(e, 2, e2) == Ok::<_, PragmaErr<Seq<char>>>(e2));
}

/// A page of the log has the limit and starts behind the commit that are named; it can only start
/// somewhere where it has a limit.
pub proof fn law_words_of_a_log(limit: nat, after: Seq<char>)
    requires
        0 < limit <= usize::MAX,
        !dashed(after),
    ensures
        json_log_words(seq!["--limit"@, decimal(limit), "--after"@, after], 0, json_log_nothing())
            matches Ok(spec) && spec.limit == Some(limit as usize) && spec.after == Some(after)
            && spec.mode == JsonLogMode::LegacyArray,
        json_log_words(seq!["--after"@, after], 0, json_log_nothing()) is Err,
        json_log_words(seq!["--with-status"@], 0, json_log_nothing()) matches Ok(spec)
            && spec.limit is None && spec.after is None && spec.mode == JsonLogMode::WithStatus,
        json_log_nothing().limit is None && json_log_nothing().after is None
            && json_log_nothing().mode == JsonLogMode::LegacyArray,
{
    law_parsed_decimal(limit, usize::MAX as nat);
    reveal_strlit("--limit");
    reveal_strlit("--after");
    reveal_strlit("--with-status");
    reveal_strlit("--");
    assert("--limit"@.len() == 7 && "--after"@.len() == 7 && "--with-status"@.len() == 13);
    assert("--limit"@[2] == 'l' && "--after"@[2] == 'a');
    let none = json_log_nothing();
    assert(!has_prefix(after, "--"@)) by {
        if has_prefix(after, "--"@) {
            assert(after.take(2)[0] == '-');
        }
    }
    let a = seq!["--limit"@, decimal(limit), "--after"@, after];
    let a1 = JsonLogSpec { limit: Some(limit as usize), ..none };
    let a2 = JsonLogSpec { after: Some(after), ..a1 };
    assert(a[0] == "--limit"@ && a[1] == decimal(limit) && a[2] == "--after"@ && a[3] == after);
    assert(json_log_words(a, 0, none) == json_log_words(a, 2, a1));
    assert(json_log_words(a, 2, a1) == json_log_words(a, 4, a2));
    assert(json_log_words(a, 4, a2) == Ok::<_, PragmaErr<Seq<char>>>(a2));
    let b = seq!["--after"@, after];
    let b1 = JsonLogSpec { after: Some(after), ..none };
    assert(b[0] == "--after"@ && b[1] == after);
    assert(json_log_words(b, 0, none) == json_log_words(b, 2, b1));
    assert(json_log_words(b, 2, b1) is Err);
    let c = seq!["--with-status"@];
    let c1 = JsonLogSpec { mode: JsonLogMode::WithStatus, ..none };
    assert(c[0] == "--with-status"@);
    assert(json_log_words(c, 0, none) == json_log_words(c, 1, c1));
    assert(json_log_words(c, 1, c1) == Ok::<_, PragmaErr<Seq<char>>>(c1));
}

/// A list of branches is of the local ones unless the remote ones, or all, are asked for.
pub proof fn law_lists_of_branches()
    ensures
        branch_list_mode(None) == Ok::<_, PragmaErr<Seq<char>>>(BranchListMode::Local),
        branch_list_mode(Some(Seq::empty())) == Ok::<_, PragmaErr<Seq<char>>>(BranchListMode::Local),
        branch_list_mode(Some("--remote"@)) == Ok::<_, PragmaErr<Seq<char>>>(BranchListMode::Remote),
        branch_list_mode(Some("-r"@)) == Ok::<_, PragmaErr<Seq<char>>>(BranchListMode::Remote),
        branch_list_mode(Some("--all"@)) == Ok::<_, PragmaErr<Seq<char>>>(BranchListMode::All),
        branch_list_mode(Some("-a"@)) == Ok::<_, PragmaErr<Seq<char>>>(BranchListMode::All),
        BranchListMode::All.with_remote(),
        BranchListMode::Remote.with_remote(),
        !BranchListMode::Local.with_remote(),
{
    reveal_strlit("--remote");
    reveal_strlit("--remotes");
    reveal_strlit("-r");
    reveal_strlit("--all");
    reveal_strlit("-a");
    assert("--remote"@.len() == 8 && "--remotes"@.len() == 9 && "-r"@.len() == 2 && "--all"@.len() == 5
        && "-a"@.len() == 2);
    assert("-r"@[1] == 'r' && "-a"@[1] == 'a');
    lemma_trimmed_word("--remote"@);
    lemma_trimmed_word("-r"@);
    lemma_trimmed_word("--all"@);
    lemma_trimmed_word("-a"@);
}

/// A text without white space at its ends is trimmed.
proof fn lemma_trimmed_word(w: Seq<char>)
    requires
        w.len() > 0,
        !white_space(w[0]),
        !white_space(w.last()),
    ensures
        trimmed(w) == w,
{
}

/// A plain path is added as it is, by force where that is said before it; everything is added where
/// that is said.
pub proof fn law_words_of_an_add(path: Seq<char>, host: Host)
    requires
        is_plain(path),
    ensures
        add_trimmed(path, host) matches Ok(spec) && spec.path == Some(path) && !spec.force && !spec.all
            && spec.kind is None,
        add_trimmed("--force"@ + " "@ + path, host) matches Ok(spec) && spec.path == Some(path)
            && spec.force && !spec.all && spec.kind is None,
        add_trimmed("--all"@, host) matches Ok(spec) && spec.path is None && spec.all && !spec.force
            && spec.kind is None,
        add_trimmed(Seq::empty(), host) matches Ok(spec) && spec.path is None && !spec.all
            && !spec.force,
{
    lemma_flags();
    reveal_strlit("--kind");
    reveal_strlit("--all");
    reveal_strlit("-A");
    reveal_strlit("--force");
    reveal_strlit("-f");
    reveal_strlit(" ");
    reveal_strlit(" -- ");
    reveal_strlit("-- ");
    assert("--kind"@.len() == 6 && "--all"@.len() == 5 && "-A"@.len() == 2 && "--force"@.len() == 7
        && "-f"@.len() == 2);
    assert("--kind"@[0] == '-' && "--force"@[0] == '-' && "-f"@[0] == '-');
    lemma_two_words(path, path);
    lemma_two_words("--force"@, path);
    lemma_two_words("--all"@, path);
    assert(!seq![path].contains("--kind"@));
    assert(!seq!["--all"@].contains("--kind"@));
    assert("--force"@[2] == 'f' && "--kind"@[2] == 'k');
    assert(!seq!["--force"@, path].contains("--kind"@));
    lemma_not_forced(path, "--force"@, host);
    lemma_not_forced(path, "-f"@, host);
    lemma_not_forced("--all"@, "--force"@, host);
    assert(!has_prefix(path, "-- "@)) by {
        if has_prefix(path, "-- "@) {
            assert(path.take(3)[0] == '-');
        }
    }
    let forced = "--force"@ + " "@ + path;
    assert(forced.len() > 7);
    assert(!is_add_all(forced));
    assert(has_prefix(forced, "--force"@ + " "@)) by {
        assert(forced.take(8) =~= "--force"@ + " "@);
    }
    assert(forced.skip(8) =~= path);
    assert(!has_prefix(forced, "--force"@ + " -- "@)) by {
        if has_prefix(forced, "--force"@ + " -- "@) {
            assert(forced.take(11)[8] == '-');
            assert(forced[8] == path[0]);
        }
    }
}

/// A text that does not begin with a flag is not forced by it.
proof fn lemma_not_forced(a: Seq<char>, flag: Seq<char>, host: Host)
    requires
        a.len() > 0,
        flag.len() >= 2,
        a[0] != flag[0] || (a.len() < flag.len()),
    ensures
        add_forced(a, flag, host) is None,
{
    if has_prefix(a, flag + " -- "@) {
        assert(a.take((flag + " -- "@).len() as int)[0] == flag[0]);
    }
    if has_prefix(a, flag + " "@) {
        assert(a.take((flag + " "@).len() as int)[0] == flag[0]);
    }
}

proof fn lemma_white_at(a: Seq<char>, w: char, b: Seq<char>)
    requires
        no_white(a),
        white_space(w),
    ensures
        white_at(a + seq![w] + b) == a.len(),
    decreases a.len(),
{
    let s = a + seq![w] + b;
    if a.len() > 0 {
        assert(s[0] == a[0]);
        assert(s.drop_first() =~= a.drop_first() + seq![w] + b);
        lemma_white_at(a.drop_first(), w, b);
    } else {
        assert(s[0] == w);
    }
}

/// A remote is added under the first word, at the address that the second one is.
pub proof fn law_remotes_are_added(name: Seq<char>, uri: Seq<char>)
    requires
        is_word(name),
        is_word(uri),
    ensures
        remote_of_uri(uri) matches Ok(config) ==> remote_add_arg(name + " "@ + uri) == Ok::<
            _,
            PragmaErr<Seq<char>>,
        >((name, config)),
        remote_of_uri(uri) matches Err(e) ==> remote_add_arg(name + " "@ + uri) == Err::<
            (Seq<char>, RemoteConfig<Seq<char>>),
            _,
        >(e),
{
    reveal_strlit(" ");
    assert(" "@ =~= seq![' ']);
    lemma_white_at(name, ' ', uri);
    let s = name + " "@ + uri;
    assert(s.take(name.len() as int) =~= name);
    assert(s.skip((name.len() + 1) as int) =~= uri);
    lemma_trimmed_word(name);
    lemma_trimmed_word(uri);
}

/// The address of a remote names what the remote is, and where.
pub proof fn law_addresses(
    a: Seq<char>,
    b: Seq<char>,
    c: Seq<char>,
)
    ensures
        uri_of(RemoteConfig::Memory) == "memory"@,
        uri_of(RemoteConfig::Fs { root: a }) == "fs://"@ + a,
        uri_of(RemoteConfig::S3Compatible { bucket: a, prefix: None, endpoint: None }) == "s3://"@ + a,
        uri_of(RemoteConfig::S3Compatible { bucket: a, prefix: Some(b), endpoint: None }) == "s3://"@
            + a + "/"@ + b,
        uri_of(RemoteConfig::S3Compatible { bucket: a, prefix: Some(b), endpoint: Some(c) })
            == "s3://"@ + a + "/"@ + b + "?endpoint="@ + c,
        uri_of(RemoteConfig::S3Compatible { bucket: a, prefix: None, endpoint: Some(c) }) == "s3://"@
            + a + "?endpoint="@ + c,
        uri_of(RemoteConfig::Http { url: "https://"@ + a, token_env: None }) == "graft+https://"@ + a,
        uri_of(RemoteConfig::Http { url: "http://"@ + a, token_env: None }) == "graft+http://"@ + a,
        uri_of(RemoteConfig::Http { url: "https://"@ + a, token_env: Some(b) }) == "graft+https://"@
            + a + "?token_env="@ + b,
        remote_of_uri("memory"@) == Ok::<_, PragmaErr<Seq<char>>>(RemoteConfig::<Seq<char>>::Memory),
        remote_of_uri("fs://"@ + a) == Ok::<_, PragmaErr<Seq<char>>>(RemoteConfig::Fs { root: a }),
        remote_of_uri(Seq::empty()) is Err,
{
    reveal_strlit("https://");
    reveal_strlit("http://");
    reveal_strlit("memory");
    reveal_strlit("fs://");
    lemma_has_prefix("https://"@, a);
    lemma_has_prefix("http://"@, a);
    lemma_has_prefix("fs://"@, a);
    assert(!has_prefix("http://"@ + a, "https://"@)) by {
        if has_prefix("http://"@ + a, "https://"@) {
            assert(("http://"@ + a).take(8)[4] == 's');
            assert(("http://"@ + a)[4] == ':');
        }
    }
    assert("memory"@.len() == 6 && ("fs://"@ + a)[0] == 'f' && "memory"@[0] == 'm');
    assert(("fs://"@ + a).skip(5) =~= a);
}

/// A tag is made under the first word, for the revision that the second one is.
pub proof fn law_new_tags(name: Seq<char>, rev: Seq<char>)
    requires
        is_plain(name),
        is_plain(rev),
    ensures
        tag_create_arg(name) == Ok::<_, PragmaErr<Seq<char>>>(
            (name, None::<Seq<char>>, None::<Seq<char>>),
        ),
        tag_create_arg(name + " "@ + rev) == Ok::<_, PragmaErr<Seq<char>>>(
            (name, Some(rev), None::<Seq<char>>),
        ),
{
    reveal_strlit("--annotated ");
    reveal_strlit("-a ");
    reveal_strlit(" ");
    lemma_two_words(name, rev);
    lemma_trimmed_word(name);
    let both = name + " "@ + rev;
    assert(both[0] == name[0]);
    assert(both.last() == rev.last());
    lemma_trimmed_word(both);
    lemma_no_flag(name, "--annotated "@);
    lemma_no_flag(name, "-a "@);
    lemma_no_flag(both, "--annotated "@);
    lemma_no_flag(both, "-a "@);
}

proof fn lemma_no_flag(s: Seq<char>, flag: Seq<char>)
    requires
        s.len() > 0,
        flag.len() > 0,
        s[0] != flag[0],
    ensures
        !has_prefix(s, flag),
{
    if has_prefix(s, flag) {
        assert(s.take(flag.len() as int)[0] == flag[0]);
    }
}

/// An annotated tag has the message that stands behind two dashes.
pub proof fn law_annotated_tags(name: Seq<char>, message: Seq<char>)
    requires
        is_word(name),
        message.len() > 0,
        !white_space(message[0]),
        !white_space(message.last()),
    ensures
        annotated_tag(name + " -- "@ + message) == Ok::<_, PragmaErr<Seq<char>>>(
            (name, None::<Seq<char>>, Some(message)),
        ),
{
    reveal_strlit(" -- ");
    let s = name + " -- "@ + message;
    let p = " -- "@;
    lemma_find_from(s, p, 0);
    let n = name.len() as int;
    assert(s.subrange(n, n + 4) =~= p);
    assert(occurs_at(s, p, n));
    assert forall|j: int| 0 <= j < n implies !occurs_at(s, p, j) by {
        if occurs_at(s, p, j) {
            assert(s.subrange(j, j + 4)[0] == ' ');
            assert(s[j] == name[j]);
        }
    }
    assert(find_from(s, p, 0) == Some(n));
    assert(s.take(n) =~= name);
    assert(s.skip(n + 4) =~= message);
    lemma_trimmed_word(message);
    lemma_two_words(name, name);
}

/// A command line without quotes and backslashes is read by its words: the options of a remove, of a
/// listing, of a status and of a diff are what stands there.
pub proof fn law_plain_command_lines(path: Seq<char>, host: Host)
    requires
        is_plain(path),
        plain(path),
    ensures
        remove_arg(Some(path), host) matches Ok(spec) && spec.path == Some(path) && !spec.cached,
        remove_arg(None, host) matches Ok(spec) && spec.path is None && !spec.cached,
        restore_arg(path, host) matches Ok(spec) && spec.path == Some(path) && !spec.staged
            && !spec.all && spec.source is None,
        diff_arg(Some(path), host) matches Ok(spec) && spec.target == (
        RepoDiffTarget::RevisionToWorktree { rev: path, path: None::<Seq<char>> }) && spec.mode
            == DiffMode::Default && spec.content is None,
        diff_arg(None, host) matches Ok(spec) && spec.target == (RepoDiffTarget::Worktree {
            path: None::<Seq<char>>,
        }) && spec.mode == DiffMode::Default,
        with_status_arg(Some("--with-status"@), host) == Ok::<_, PragmaErr<Seq<char>>>(true),
        with_status_arg(None, host) == Ok::<_, PragmaErr<Seq<char>>>(false),
        with_status_arg(Some(path), host) is Err,
        status_arg(None, host) matches Ok(spec) && spec.kind is None,
        status_arg(Some(path), host) is Err,
        ls_files_arg(None, host) matches Ok(spec) && !spec.stage && !spec.details && !spec.others,
        ls_files_arg(Some("--stage"@), host) matches Ok(spec) && spec.stage && !spec.details
            && !spec.others && spec.kind is None,
        add_arg(None, host) matches Ok(spec) && spec.path is None && !spec.all && !spec.force
            && !spec.with_status,
        add_arg(Some(path), host) matches Ok(spec) && spec.path == Some(path) && !spec.force
            && !spec.with_status,
        add_arg(Some("--with-status"@), host) matches Ok(spec) && spec.path is None
            && spec.with_status,
        audit_arg(None, host) matches Ok(spec) && !spec.repair && spec.remote is None,
        audit_arg(Some(path), host) is Err,
{
    lemma_flags();
    law_plain_words(path, host);
    lemma_two_words(path, path);
    lemma_trimmed_word(path);
    assert(!ambiguous_escape(path, host));
    assert(seq![path][0] == path);
    law_removals(path);
    law_words_of_a_restore(path, path);
    law_targets_of_a_diff(path, path, path);
    reveal_strlit("--with-status");
    reveal_strlit("--with-status ");
    reveal_strlit("--stage");
    reveal_strlit("--repair");
    assert("--with-status"@[0] == '-' && "--with-status"@.len() == 13 && "--with-status "@.len() == 14);
    assert("--with-status "@[0] == '-' && "--stage"@[0] == '-' && "--repair"@[0] == '-');
    let s = "--with-status"@;
    assert(is_word(s) && plain(s));
    law_plain_words(s, host);
    lemma_two_words(s, s);
    lemma_trimmed_word(s);
    let t = "--stage"@;
    assert(is_word(t) && plain(t));
    law_plain_words(t, host);
    lemma_two_words(t, t);
    law_words_of_a_listing(RepoTrackedPathKind::TextFile);
    law_words_of_an_add(path, host);
    lemma_no_flag(path, "--with-status "@);
    lemma_diff_word(path);
    let w = seq![path];
    assert(audit_words(w, 0, false, None) == audit_words(w, 1, false, Some(path)));
    assert(audit_words(w, 1, false, Some(path)) is Err);
    assert(audit_words(Seq::empty(), 0, false, None) is Ok);
    reveal_strlit("--kind");
    assert("--kind"@[0] == '-');
    assert(status_words(w, 0, None) is Err);
}

/// A plain word of a diff names a revision.
proof fn lemma_diff_word(path: Seq<char>)
    requires
        is_plain(path),
    ensures
        diff_flags(seq![path], 0, no_diff_flags()) == Ok::<_, PragmaErr<Seq<char>>>(
            DiffFlags { rest: seq![path], ..no_diff_flags() },
        ),
{
    reveal_strlit("--");
    reveal_strlit("--rows");
    reveal_strlit("--kind");
    reveal_strlit("--content");
    reveal_strlit("--max-content-bytes");
    reveal_strlit("--root");
    assert("--rows"@[0] == '-' && "--kind"@[0] == '-' && "--content"@[0] == '-' && "--root"@[0] == '-'
        && "--max-content-bytes"@[0] == '-' && "--"@[0] == '-');
    let w = seq![path];
    let one = DiffFlags { rest: seq![path], ..no_diff_flags() };
    assert(Seq::<Seq<char>>::empty().push(path) =~= seq![path]);
    assert(w[0] == path);
    assert(diff_flags(w, 0, no_diff_flags()) == diff_flags(w, 1, one));
    assert(diff_flags(w, 1, one) == Ok::<_, PragmaErr<Seq<char>>>(one));
}

/// Arguments with words too many, or without any, are refused, and so is a first word that is none of
/// the flags that may stand there.
pub proof fn law_words_that_are_refused(arg: Seq<char>, a: Seq<char>, b: Seq<char>)
    requires
        is_plain(a),
        is_plain(b),
    ensures
        words(arg).len() == 0 || words(arg).len() > 2 ==> branch_delete_arg(arg) is Err
            && switch_branch_arg(arg) is Err && reset_arg(arg) is Err && branch_create_arg(arg) is Err
            && branch_upstream_arg(arg) is Err,
        words(arg).len() != 2 ==> remote_rename_arg(arg) is Err && debug_diff_arg(arg) is Err,
        words(arg).len() == 0 || words(arg).len() > 3 ==> branch_rename_arg(arg) is Err
            && switch_create_arg(arg) is Err,
        words(arg).len() == 0 ==> checkout_arg(arg) is Err,
        branch_delete_arg(a + " "@ + b) is Err,
        switch_branch_arg(a + " "@ + b) is Err,
        reset_arg(a + " "@ + b) is Err,
        checkout_arg(a + " "@ + b) is Err,
        branch_rename_arg(a + " "@ + b + " "@ + b) is Err,
        switch_create_arg(a + " "@ + b + " "@ + b) is Err,
        checkout_arg(a + " "@ + b + " "@ + b) is Err,
{
    lemma_flags();
    lemma_two_words(a, b);
    lemma_three_words(a, b, b);
}

/// What is meant as a refspec has a colon or a star, or begins as a full name does; a plus before it
/// makes no difference.
pub proof fn law_refspecs(a: Seq<char>, b: Seq<char>)
    ensures
        refspec_like(a + ":"@ + b) || (a.len() == 0 && b.len() == 0),
        refspec_like("refs/"@ + a),
        !has_prefix(a, "+"@) ==> refspec_like("+"@ + a) == refspec_like(a),
        lacks(a, ':') && lacks(a, '*') && !has_prefix(a, "refs/"@) && !has_prefix(a, "+"@)
            ==> !refspec_like(a),
{
    reveal_strlit(":");
    reveal_strlit("*");
    reveal_strlit("+");
    reveal_strlit("refs/");
    assert(":"@ =~= seq![':'] && "*"@ =~= seq!['*'] && "+"@ =~= seq!['+']);
    lemma_has_prefix("refs/"@, a);
    lemma_no_flag("refs/"@ + a, "+"@);
    lemma_has_prefix("+"@, a);
    let with_colon = a + ":"@ + b;
    let v = if has_prefix(with_colon, "+"@) {
        with_colon.skip(1)
    } else {
        with_colon
    };
    if has_prefix(with_colon, "+"@) {
        assert(with_colon.take(1)[0] == '+');
        assert(with_colon[0] == '+');
        assert(a.len() > 0);
        assert(v =~= a.skip(1) + ":"@ + b);
        lemma_find_from(v, ":"@, 0);
        assert(v.subrange(a.len() - 1, a.len() as int) =~= ":"@);
        assert(occurs_at(v, ":"@, a.len() - 1));
    } else {
        lemma_find_from(v, ":"@, 0);
        assert(v.subrange(a.len() as int, (a.len() + 1) as int) =~= ":"@);
        assert(occurs_at(v, ":"@, a.len() as int));
    }
    if lacks(a, ':') && lacks(a, '*') {
        lemma_find_from(a, ":"@, 0);
        lemma_find_from(a, "*"@, 0);
        if find_from(a, ":"@, 0) is Some {
            let k = find_from(a, ":"@, 0)->0;
            assert(a.subrange(k, k + 1)[0] == ':');
        }
        if find_from(a, "*"@, 0) is Some {
            let k = find_from(a, "*"@, 0)->0;
            assert(a.subrange(k, k + 1)[0] == '*');
        }
    }
}

/// The address of a web remote names the page behind its scheme, and that of a bucket the bucket.
pub proof fn law_addresses_are_read(rest: Seq<char>)
    requires
        rest.len() > 0,
        lacks(rest, '?'),
    ensures
        remote_of_uri("graft+https://"@ + rest) == Ok::<_, PragmaErr<Seq<char>>>(
            RemoteConfig::Http { url: "https://"@ + rest, token_env: None },
        ),
        remote_of_uri("graft+http://"@ + rest) == Ok::<_, PragmaErr<Seq<char>>>(
            RemoteConfig::Http { url: "http://"@ + rest, token_env: None },
        ),
        lacks(rest, '/') ==> remote_of_uri("s3://"@ + rest) == Ok::<_, PragmaErr<Seq<char>>>(
            RemoteConfig::S3Compatible { bucket: rest, prefix: None, endpoint: None },
        ),
{
    reveal_strlit("?");
    reveal_strlit("/");
    reveal_strlit("memory");
    reveal_strlit("fs://");
    reveal_strlit("s3://");
    reveal_strlit("s3_compatible://");
    reveal_strlit("graft+https://");
    reveal_strlit("graft+http://");
    assert("?"@ =~= seq!['?'] && "/"@ =~= seq!['/']);
    lemma_cut_absent(rest, '?');
    let a = "graft+https://"@ + rest;
    let b = "graft+http://"@ + rest;
    let c = "s3://"@ + rest;
    lemma_has_prefix("graft+https://"@, rest);
    lemma_has_prefix("graft+http://"@, rest);
    lemma_has_prefix("s3://"@, rest);
    assert(a[0] == 'g' && b[0] == 'g' && c[0] == 's');
    lemma_no_flag(a, "fs://"@);
    lemma_no_flag(a, "s3://"@);
    lemma_no_flag(a, "s3_compatible://"@);
    lemma_no_flag(b, "fs://"@);
    lemma_no_flag(b, "s3://"@);
    lemma_no_flag(b, "s3_compatible://"@);
    lemma_no_flag(c, "fs://"@);
    assert("memory"@[0] == 'm');
    assert(!has_prefix(b, "graft+https://"@)) by {
        if has_prefix(b, "graft+https://"@) {
            assert(b.take(14)[10] == 's');
            assert(b[10] == ':');
        }
    }
    reveal_strlit("");
    assert(path_and_query(rest) == (rest, ""@));
    assert(query_value(""@, http_words()) == Ok::<_, PragmaErr<Seq<char>>>(None::<Seq<char>>));
    assert(a.skip("graft+https://"@.len() as int) == rest);
    assert(b.skip("graft+http://"@.len() as int) == rest);
    assert(http_remote("https://"@, rest) == Ok::<_, PragmaErr<Seq<char>>>(
        RemoteConfig::Http { url: "https://"@ + rest, token_env: None },
    ));
    assert(http_remote("http://"@, rest) == Ok::<_, PragmaErr<Seq<char>>>(
        RemoteConfig::Http { url: "http://"@ + rest, token_env: None },
    ));
    assert(a != "memory"@ && b != "memory"@);
    if lacks(rest, '/') {
        lemma_cut_absent(rest, '/');
    }
}

} // verus!
