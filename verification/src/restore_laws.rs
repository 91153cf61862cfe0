//! What holds of restores: which paths they write and delete, in which order, and what they refuse.
use vstd::prelude::*;
use vstd::string::*;

use crate::checkout::{artifact_of, current_descriptor, listed, listing_option, PathListingView};
use crate::diff::{key_matches, PathState};
use crate::error::{CommandError, RepoErr};
use crate::model::{IndexEntryView, PathChangeView};
use crate::restore::{
    applied_before, below_at, can_delete, collides, component_step, depth, dirty_mark,
    is_below, is_component, is_order, names_file, normal_filter, parent_at, path_conflicts,
    plan_keys, restore_route, restored_by, restored_kind, with_slashes, without_dots,
    without_slashes, ComponentStep, DirtyMark, RestorePlanEntryView, RestoreRoute,
    RestoreSources, RestoredKind,
};
use crate::restore_checks::{
    deletes_key, in_the_way, key_components, key_prefix, planned_step, restored_mark_of,
    restores_below,
};
use crate::restore_steps::{
    checks_out, export_source, is_merged, key_checkout, merged_paths, restore_overwrites,
    restore_step, staged_to_restore, ExportSource, RestoreStep,
};
use crate::spec::{IndexStage, RepoRestoreSpec, RepoTrackedPathKind};
use crate::status::staged_change_paths;
use crate::status_laws::lemma_filters_keep;
use crate::text::{has_prefix, lacks, lemma_parts_single, parts, texts};
use crate::text_laws::{law_parts_make_up_the_text, law_parts_of_both_sides};
use crate::words::Host;
use crate::workspace::{backup_entries, checkout_move, place_of, CheckoutMove, CheckoutStep};

verus! {

/// A restore goes ahead exactly where the head is the one that was expected, the worktree is clean
/// where that is asked for, nothing is in conflict, and it is told what to restore.
pub proof fn law_restores_that_go_ahead(
    spec: RepoRestoreSpec<Seq<char>>,
    head: Seq<char>,
    work_in_progress: bool,
    conflicts: bool,
)
    ensures
        restore_route(spec, head, work_in_progress, conflicts) is Ok <==> {
            &&& spec.expected_head is None || spec.expected_head->0 == head
            &&& !(spec.require_clean && work_in_progress)
            &&& !conflicts
            &&& spec.all || spec.path is Some
        },
        restore_route(spec, head, work_in_progress, conflicts) matches Ok(route) ==> (route
            == RestoreRoute::AllStaged <==> spec.all),
{
}

/// What a path is restored as is what the source has it as.
pub proof fn law_restored_as_in_the_source(source: PathListingView, key: Seq<char>)
    ensures
        restored_kind(source, key) is Some <==> listed(source, key) is Some,
        restored_kind(source, key) == Some(RestoredKind::File) <==> source.files.contains(key),
        restored_kind(source, key) == Some(RestoredKind::Artifact) <==> !source.files.contains(key)
            && artifact_of(source, key) is Some,
{
}

/// A path that the source does not have is deleted where the index holds it by itself; a path of the
/// index or of the last commit only where a source was named; and an unknown path never.
pub proof fn law_deletions_of_a_restore(
    has_source: bool,
    index: PathListingView,
    index_keys: Seq<Seq<char>>,
    head: Option<PathListingView>,
    key: Seq<char>,
)
    ensures
        index_keys.contains(key) ==> can_delete(has_source, index, index_keys, head, key),
        !index_keys.contains(key) ==> !can_delete(false, index, index_keys, head, key),
        listed(index, key) is Some ==> can_delete(true, index, index_keys, head, key),
        head is Some && listed(head->0, key) is Some ==> can_delete(
            true,
            index,
            index_keys,
            head,
            key,
        ),
        !index_keys.contains(key) && listed(index, key) is None && (head is None || listed(
            head->0,
            key,
        ) is None) ==> !can_delete(has_source, index, index_keys, head, key),
{
}

proof fn lemma_below_at(keys: Seq<Seq<char>>, parent: Seq<char>, i: int)
    requires
        0 <= i <= keys.len(),
    ensures
        match below_at(keys, parent, i) {
            Some(j) => i <= j < keys.len() && is_below(keys[j], parent),
            None => forall|j: int| i <= j < keys.len() ==> !is_below(#[trigger] keys[j], parent),
        },
    decreases keys.len() - i,
{
    if i < keys.len() {
        lemma_below_at(keys, parent, i + 1);
    }
}

proof fn lemma_parent_at(keys: Seq<Seq<char>>, i: int)
    requires
        0 <= i <= keys.len(),
    ensures
        match parent_at(keys, i) {
            Some(j) => i <= j < keys.len() && below_at(keys, keys[j], 0) is Some,
            None => forall|j: int|
                i <= j < keys.len() ==> below_at(keys, #[trigger] keys[j], 0) is None,
        },
    decreases keys.len() - i,
{
    if i < keys.len() {
        lemma_parent_at(keys, i + 1);
    }
}

/// Files can be restored together exactly where none lies below another.
pub proof fn law_files_restored_together(keys: Seq<Seq<char>>)
    ensures
        path_conflicts(keys) is Ok <==> forall|i: int, j: int| #![trigger keys[i], keys[j]]
            0 <= i < keys.len() && 0 <= j < keys.len() ==> keys[i] == keys[j] || !key_matches(
                keys[j],
                keys[i],
            ),
{
    lemma_parent_at(keys, 0);
    if path_conflicts(keys) is Ok {
        assert forall|i: int, j: int| #![trigger keys[i], keys[j]]
            0 <= i < keys.len() && 0 <= j < keys.len() implies keys[i] == keys[j] || !key_matches(
            keys[j],
            keys[i],
        ) by {
            lemma_below_at(keys, keys[i], 0);
            assert(below_at(keys, keys[i], 0) is None);
            assert(!is_below(keys[j], keys[i]));
        }
    } else {
        let i = parent_at(keys, 0)->0;
        lemma_below_at(keys, keys[i], 0);
        let j = below_at(keys, keys[i], 0)->0;
        assert(is_below(keys[j], keys[i]));
    }
}

/// A plan of a restore has one entry for each path, in their order: it writes what the source has, as
/// the source has it, and deletes the rest. There is a plan exactly where each path is in the source
/// or can be deleted.
pub proof fn law_plan_of_a_restore(s: RestoreSources, keys: Seq<Seq<char>>, n: int)
    requires
        0 <= n <= keys.len(),
    ensures
        plan_keys(s, keys, n) is Ok <==> forall|i: int| #![trigger keys[i]]
            0 <= i < n ==> listed(s.source@, keys[i]) is Some || can_delete(
                s.has_source,
                s.index@,
                texts(s.index_keys@),
                listing_option(s.head),
                keys[i],
            ),
        plan_keys(s, keys, n) matches Ok(plan) ==> {
            &&& plan.len() == n
            &&& forall|i: int| #![trigger plan[i]]
                0 <= i < n ==> {
                    &&& plan[i].key == keys[i]
                    &&& plan[i].restored is Some <==> listed(s.source@, keys[i]) is Some
                    &&& plan[i].restored == Some(RestoredKind::File) <==> s.source@.files.contains(
                        keys[i],
                    )
                    &&& plan[i].restored is Some ==> listed(s.source@, keys[i]) == Some(
                        (plan[i].kind, plan[i].storage),
                    )
                    &&& plan[i].restored is None ==> current_descriptor(
                        s.index@,
                        listing_option(s.head),
                        keys[i],
                    ) == (plan[i].kind, plan[i].storage)
                }
        },
    decreases n,
{
    if n > 0 {
        law_plan_of_a_restore(s, keys, n - 1);
        assert(keys[n - 1] == keys[n - 1]);
        if let Ok(plan) = plan_keys(s, keys, n) {
            let was = plan_keys(s, keys, n - 1)->Ok_0;
            assert(plan.drop_last() =~= was);
            assert forall|i: int| #![trigger plan[i]] 0 <= i < n - 1 implies plan[i] == was[i] by {}
        }
    }
}

/// A path lies one level deeper than its directory.
pub proof fn law_depth_grows_with_each_name(directory: Seq<char>, name: Seq<char>)
    requires
        directory.len() > 0,
        directory != "."@,
        lacks(name, '/'),
        name.len() > 0,
        name != "."@,
    ensures
        depth(directory + "/"@ + name) == depth(directory) + 1,
{
    reveal_strlit("/");
    reveal_strlit(".");
    reveal_strlit("./");
    let key = directory + "/"@ + name;
    assert("/"@ =~= seq!['/']);
    assert("."@ =~= seq!['.']);
    assert("./"@ =~= seq!['.', '/']);
    law_parts_of_both_sides(directory, '/', name);
    lemma_parts_single(name, '/', Seq::empty());
    assert(Seq::<char>::empty() + name =~= name);
    let p = parts(directory, '/');
    let keep = |q: Seq<char>| is_component(q);
    assert(parts(key, '/') =~= p.push(name));
    reveal(Seq::filter);
    assert(p.push(name).drop_last() =~= p);
    assert(p.push(name).filter(keep) == p.filter(keep).push(name));
    assert(has_prefix(key, "/"@) == has_prefix(directory, "/"@)) by {
        assert(key[0] == directory[0]);
        assert(key.take(1) =~= seq![key[0]]);
        assert(directory.take(1) =~= seq![directory[0]]);
        assert(seq!['/'][0] == '/');
        if has_prefix(key, "/"@) {
            assert(key.take(1)[0] == '/');
        }
        if has_prefix(directory, "/"@) {
            assert(directory.take(1)[0] == '/');
        }
    }
    assert(key != "."@) by {
        assert(key.len() > 1);
    }
    assert(has_prefix(key, "./"@) == has_prefix(directory, "./"@)) by {
        if directory.len() == 1 {
            if has_prefix(key, "./"@) {
                assert(key.take(2)[0] == '.');
                assert(directory =~= seq!['.']);
            }
        } else {
            assert(key.take(2) =~= directory.take(2));
        }
    }
}

/// Files are deleted from the deepest path up, so that what lies in a directory is gone before it,
/// and written from the top down.
pub proof fn law_order_of_a_restore(directory: Seq<char>, name: Seq<char>)
    requires
        directory.len() > 0,
        directory != "."@,
        lacks(name, '/'),
        name.len() > 0,
        name != "."@,
    ensures
        applied_before(directory + "/"@ + name, directory, true),
        !applied_before(directory, directory + "/"@ + name, true),
        applied_before(directory, directory + "/"@ + name, false),
        !applied_before(directory + "/"@ + name, directory, false),
{
    law_depth_grows_with_each_name(directory, name);
}

/// Something stands in the way of a restore unless it is a file that the restore deletes and that the
/// index knows, or the open database.
pub proof fn law_collisions(is_file: bool, deleted: bool, known: bool, current: bool)
    ensures
        !collides(is_file, deleted, known, current) <==> is_file && deleted && (known || current),
{
}

/// A check of a path stops where nothing stands. On the way to it there must be directories, or a
/// file that the restore deletes; at the path itself a regular file, or a directory that the restore
/// replaces or fills.
pub proof fn law_checked_components(
    standing: PathState,
    target: bool,
    restored: bool,
    below: bool,
    deleted_above: bool,
)
    ensures
        ({
            let step = component_step(standing, target, restored, below, deleted_above);
            let file = standing == PathState::SqliteFile || standing == PathState::PlainFile;
            &&& standing == PathState::Missing ==> step == ComponentStep::Done
            &&& step == ComponentStep::NotRegularFile <==> target && (standing == PathState::Special
                || (standing == PathState::Directory && !restored && !below))
            &&& step == ComponentStep::NotDirectory <==> !target && (standing == PathState::Special
                || (file && !deleted_above))
            &&& step == ComponentStep::Done <==> standing == PathState::Missing || (!target && file
                && deleted_above)
        }),
{
}

/// A key names a file only where it does not lead out of the worktree.
pub proof fn law_keys_that_name_files(key: Seq<char>)
    ensures
        names_file(key) ==> forall|i: int|
            0 <= i < parts(key, '/').len() ==> #[trigger] parts(key, '/')[i] != ".."@,
        names_file(key) ==> key.len() > 0 && !has_prefix(key, "/"@),
        key.len() > 0 && lacks(key, '/') && key != "."@ && key != ".."@ ==> names_file(key),
{
    reveal_strlit("/");
    let p = parts(key, '/');
    law_parts_make_up_the_text(key, '/');
    if key.len() == 0 || has_prefix(key, "/"@) {
        if has_prefix(key, "/"@) {
            assert(key.take(1)[0] == '/');
            assert(key[0] == '/');
            assert(p[0] =~= Seq::<char>::empty());
        } else {
            assert(p[0].len() == 0);
        }
    }
    if lacks(key, '/') {
        lemma_parts_single(key, '/', Seq::empty());
        assert(Seq::<char>::empty() + key =~= key);
    }
}

/// A path counts as clean after a restore exactly where the index holds the same there: the same
/// database and no file, the same file and no database, or nothing where it was deleted.
pub proof fn law_marks_of_a_restore(
    restored: Option<RestoredKind>,
    index_file: bool,
    index_artifact: bool,
    same: bool,
)
    ensures
        dirty_mark(restored, index_file, index_artifact, same) == DirtyMark::Clean <==> {
            ||| restored == Some(RestoredKind::File) && index_file && !index_artifact && same
            ||| restored == Some(RestoredKind::Artifact) && !index_file && index_artifact && same
            ||| restored is None && !index_file && !index_artifact
        },
        dirty_mark(restored, index_file, index_artifact, same) == DirtyMark::Deleted ==> restored
            is None,
        dirty_mark(restored, index_file, index_artifact, same) == DirtyMark::Dirty ==> restored
            is Some,
{
}

/// The mark of a restored path goes by what the index holds of it.
pub proof fn law_marks_go_by_the_index(
    entry: RestorePlanEntryView,
    source: PathListingView,
    index: PathListingView,
    same_database: bool,
)
    ensures
        restored_mark_of(entry, source, index, same_database) == DirtyMark::Clean ==> {
            ||| entry.restored == Some(RestoredKind::File) && index.files.contains(entry.key)
                && same_database
            ||| entry.restored == Some(RestoredKind::Artifact) && artifact_of(source, entry.key)
                is Some && artifact_of(index, entry.key) == artifact_of(source, entry.key)
            ||| entry.restored is None && listed(index, entry.key) is None
        },
        entry.restored == Some(RestoredKind::File) && index.files.contains(entry.key) && artifact_of(
            index,
            entry.key,
        ) is None && same_database ==> restored_mark_of(entry, source, index, same_database)
            == DirtyMark::Clean,
        entry.restored == Some(RestoredKind::Artifact) && !index.files.contains(entry.key)
            && artifact_of(index, entry.key) is Some && artifact_of(index, entry.key) == artifact_of(
            source,
            entry.key,
        ) ==> restored_mark_of(entry, source, index, same_database) == DirtyMark::Clean,
        entry.restored is None && listed(index, entry.key) is None ==> restored_mark_of(
            entry,
            source,
            index,
            same_database,
        ) == DirtyMark::Clean,
        entry.restored is None && listed(index, entry.key) is Some ==> restored_mark_of(
            entry,
            source,
            index,
            same_database,
        ) == DirtyMark::Deleted,
        entry.restored == Some(RestoredKind::File) && !same_database ==> restored_mark_of(
            entry,
            source,
            index,
            same_database,
        ) == DirtyMark::Dirty,
{
}

/// A filter for paths is the same with a leading `./` and with a slash at its end; it never ends in
/// one, and the worktree itself is the empty filter.
pub proof fn law_filters_for_paths(path: Seq<char>, host: Host)
    ensures
        normal_filter("./"@ + path, host) == normal_filter(path, host),
        normal_filter("."@, host).len() == 0,
        normal_filter(path, host).len() > 0 ==> normal_filter(path, host).last() != '/',
        host != Host::Windows && !has_prefix(path, "./"@) && path.len() > 0 && path.last() != '/' && path
            != "."@ ==> normal_filter(path, host) == path,
{
    reveal_strlit("./");
    reveal_strlit(".");
    let dotted = "./"@ + path;
    assert(dotted[0] == '.' && dotted[1] == '/');
    assert(dotted.skip(2) =~= path);
    lemma_no_slash_at_the_end(with_slashes(without_dots(path), host));
    assert("."@ =~= seq!['.']);
    assert(without_dots("."@) == "."@);
    assert(with_slashes("."@, host) =~= "."@);
    if !has_prefix(path, "./"@) && path.len() > 1 && path[0] == '.' && path[1] == '/' {
        assert(path.take(2) =~= "./"@);
    }
}

proof fn lemma_no_slash_at_the_end(s: Seq<char>)
    ensures
        without_slashes(s).len() > 0 ==> without_slashes(s).last() != '/',
    decreases s.len(),
{
    if s.len() > 0 && s.last() == '/' {
        lemma_no_slash_at_the_end(s.drop_last());
    }
}

/// Where paths are written with backslashes, a filter has none left.
pub proof fn law_filters_on_windows(path: Seq<char>, i: int)
    requires
        0 <= i < normal_filter(path, Host::Windows).len(),
    ensures
        normal_filter(path, Host::Windows)[i] != '\\',
{
    let s = with_slashes(without_dots(path), Host::Windows);
    lemma_without_slashes(s);
    assert(s[i] != '\\');
}

/// What is left without the slashes at the end is what stands before them.
proof fn lemma_without_slashes(s: Seq<char>)
    ensures
        without_slashes(s).len() <= s.len(),
        without_slashes(s) == s.take(without_slashes(s).len() as int),
    decreases s.len(),
{
    if s.len() > 0 && s.last() == '/' {
        lemma_without_slashes(s.drop_last());
        let n = without_slashes(s).len() as int;
        assert(s.drop_last().take(n) =~= s.take(n));
    } else {
        assert(s.take(s.len() as int) =~= s);
    }
}

/// A slash at the end of a filter makes no difference.
pub proof fn law_filters_for_directories(path: Seq<char>)
    ensures
        normal_filter(path.push('/'), Host::Posix) == normal_filter(path, Host::Posix),
{
    lemma_dots_and_slash(path);
}

proof fn lemma_dots_and_slash(path: Seq<char>)
    ensures
        ({
            let a = without_slashes(without_dots(path.push('/')));
            let b = without_slashes(without_dots(path));
            a == b || (a == Seq::<char>::empty() && b == "."@)
        }),
    decreases path.len(),
{
    reveal_strlit(".");
    let more = path.push('/');
    if path.len() == 0 {
        assert(more.drop_last() =~= path);
    } else if path.len() == 1 {
        if path[0] == '.' {
            assert(path =~= "."@);
            assert(more.skip(2) =~= Seq::<char>::empty());
            assert(without_dots(Seq::<char>::empty()) == Seq::<char>::empty());
        } else {
            assert(more.drop_last() =~= path);
        }
    } else if path[0] == '.' && path[1] == '/' {
        let rest = path.skip(2);
        assert(more[0] == path[0] && more[1] == path[1]);
        assert(more.skip(2) =~= rest.push('/'));
        lemma_dots_and_slash(rest);
    } else {
        assert(more[0] == path[0] && more[1] == path[1]);
        assert(more.drop_last() =~= path);
    }
}

/// The first components of a path, as many as its directory has, are its directory.
pub proof fn law_prefixes_of_a_path(directory: Seq<char>, name: Seq<char>)
    ensures
        key_prefix(directory + "/"@ + name, parts(directory, '/').len() as int) == directory,
        key_prefix(directory, parts(directory, '/').len() as int) == directory,
{
    reveal_strlit("/");
    assert("/"@ =~= seq!['/']);
    law_parts_of_both_sides(directory, '/', name);
    law_parts_make_up_the_text(directory, '/');
    law_parts_make_up_the_text(name, '/');
    let p = parts(directory, '/');
    assert((p + parts(name, '/')).take(p.len() as int) =~= p);
    assert(p.take(p.len() as int) =~= p);
}

/// The names on the way to a path are its parts that name something, in their order.
pub proof fn law_names_on_the_way(key: Seq<char>, part: Seq<char>)
    ensures
        key_components(key).contains(part) <==> parts(key, '/').contains(part) && part.len() > 0
            && part != "."@,
{
    lemma_filters_keep(parts(key, '/'));
}

/// What stands in the way of a restore: anything but a file that the plan deletes and that is known.
pub proof fn law_what_stands_in_the_way(
    plan: Seq<RestorePlanEntryView>,
    index: PathListingView,
    current_key: Seq<char>,
    key: Seq<char>,
    standing: PathState,
)
    ensures
        in_the_way(plan, index, current_key, key, standing) <==> {
            ||| standing != PathState::SqliteFile && standing != PathState::PlainFile
            ||| forall|i: int| #![trigger plan[i]]
                0 <= i < plan.len() && plan[i].key == key ==> plan[i].restored is Some
            ||| listed(index, key) is None && key != current_key
        },
{
    if deletes_key(plan, key) {
        let i = choose|i: int|
            0 <= i < plan.len() && (#[trigger] plan[i]).restored is None && plan[i].key == key;
        assert(plan[i].key == key);
    }
}

/// The check of a path passes what the rest of the plan makes room for.
pub proof fn law_plan_makes_room(
    plan: Seq<RestorePlanEntryView>,
    at: int,
    place: int,
    standing: PathState,
)
    requires
        0 <= at < plan.len(),
    ensures
        standing == PathState::Missing ==> planned_step(plan, at, place, standing)
            == ComponentStep::Done,
        place + 1 == key_components(plan[at].key).len() ==> {
            &&& standing == PathState::SqliteFile || standing == PathState::PlainFile ==> planned_step(
                plan,
                at,
                place,
                standing,
            ) == ComponentStep::Continue
            &&& standing == PathState::Directory && plan[at].restored is Some ==> planned_step(
                plan,
                at,
                place,
                standing,
            ) == ComponentStep::Continue
            &&& standing == PathState::Special ==> planned_step(plan, at, place, standing)
                == ComponentStep::NotRegularFile
            &&& standing == PathState::Directory && plan[at].restored is None ==> (planned_step(
                plan,
                at,
                place,
                standing,
            ) == ComponentStep::Continue <==> exists|i: int| #![trigger plan[i]]
                0 <= i < plan.len() && plan[i].restored is Some && key_matches(
                    plan[i].key,
                    plan[at].key,
                ))
        },
        place + 1 != key_components(plan[at].key).len() ==> {
            &&& standing == PathState::Directory ==> planned_step(plan, at, place, standing)
                == ComponentStep::Continue
            &&& standing == PathState::SqliteFile || standing == PathState::PlainFile ==> (
            planned_step(plan, at, place, standing) == ComponentStep::Done <==> exists|i: int|
                #![trigger plan[i]]
                0 <= i < plan.len() && plan[i].restored is None && plan[i].key == key_prefix(
                    plan[at].key,
                    place + 1,
                ))
        },
{
    let prefix = key_prefix(plan[at].key, place + 1);
    if exists|i: int| #![trigger plan[i]]
        0 <= i < plan.len() && plan[i].restored is Some && key_matches(plan[i].key, plan[at].key) {
        let i = choose|i: int| #![trigger plan[i]]
            0 <= i < plan.len() && plan[i].restored is Some && key_matches(
                plan[i].key,
                plan[at].key,
            );
        assert(plan[i].restored is Some);
        assert(restores_below(plan, plan[at].key));
    }
    if exists|i: int| #![trigger plan[i]]
        0 <= i < plan.len() && plan[i].restored is None && plan[i].key == prefix {
        let i = choose|i: int| #![trigger plan[i]]
            0 <= i < plan.len() && plan[i].restored is None && plan[i].key == prefix;
        assert(plan[i].restored is None);
        assert(deletes_key(plan, prefix));
    }
}

/// A restore of everything staged takes every staged path, or every one of a kind.
pub proof fn law_staged_paths_to_restore(
    staged: Seq<PathChangeView>,
    kind: RepoTrackedPathKind,
    path: Seq<char>,
)
    ensures
        staged_to_restore(staged, None).contains(path) <==> exists|i: int| #![trigger staged[i]]
            0 <= i < staged.len() && staged[i].path == path,
        staged_to_restore(staged, Some(kind)).contains(path) <==> exists|i: int|
            #![trigger staged[i]]
            0 <= i < staged.len() && staged[i].path == path && staged[i].kind == kind,
{
    lemma_filters_keep(staged);
    let keep = |e: PathChangeView| e.kind == kind;
    let kept = staged.filter(keep);
    let all = staged_change_paths(staged);
    let some = staged_to_restore(staged, Some(kind));
    if all.contains(path) {
        assert(staged[all.index_of(path)].path == path);
    }
    if exists|i: int| #![trigger staged[i]] 0 <= i < staged.len() && staged[i].path == path {
        let i = choose|i: int| #![trigger staged[i]] 0 <= i < staged.len() && staged[i].path == path;
        assert(all[i] == path);
    }
    if some.contains(path) {
        let j = some.index_of(path);
        assert(kept.contains(kept[j]));
        let i = staged.index_of(kept[j]);
        assert(staged[i].path == path);
    }
    if exists|i: int| #![trigger staged[i]]
        0 <= i < staged.len() && staged[i].path == path && staged[i].kind == kind {
        let i = choose|i: int| #![trigger staged[i]]
            0 <= i < staged.len() && staged[i].path == path && staged[i].kind == kind;
        assert(staged.contains(staged[i]));
        assert(kept.contains(staged[i]));
        assert(some[kept.index_of(staged[i])] == path);
    }
}

/// A path that is checked out from a revision is written as the revision has it, and deleted exactly
/// where the revision does not have it.
pub proof fn law_paths_from_a_revision(
    source: PathListingView,
    index: PathListingView,
    head: Option<PathListingView>,
    key: Seq<char>,
)
    ensures
        key_checkout(source, index, head, key).key == key,
        key_checkout(source, index, head, key).deleted <==> listed(source, key) is None,
        listed(source, key) is Some ==> listed(source, key) == Some(
            (key_checkout(source, index, head, key).kind, key_checkout(source, index, head, key).storage),
        ),
        listed(source, key) is None && listed(index, key) is Some ==> listed(index, key) == Some(
            (key_checkout(source, index, head, key).kind, key_checkout(source, index, head, key).storage),
        ),
{
}

/// The session follows the open database alone: it goes on with what is restored, or with an empty
/// database where none is. Any other path is written, removed, or left where a directory stands.
pub proof fn law_restored_paths_and_the_session(
    current: bool,
    restored: Option<RestoredKind>,
    directory: bool,
)
    ensures
        ({
            let step = restore_step(current, restored, directory);
            &&& step == RestoreStep::SwitchSession <==> current && restored == Some(
                RestoredKind::File,
            )
            &&& step == RestoreStep::EmptySession <==> current && restored is None
            &&& step == RestoreStep::EmptySessionAndArtifact <==> current && restored == Some(
                RestoredKind::Artifact,
            )
            &&& step == RestoreStep::WriteDatabase <==> !current && restored == Some(
                RestoredKind::File,
            )
            &&& step == RestoreStep::WriteArtifact <==> !current && restored == Some(
                RestoredKind::Artifact,
            )
            &&& step == RestoreStep::RemoveFile <==> !current && restored is None && !directory
            &&& step == RestoreStep::Leave <==> !current && restored is None && directory
        }),
{
}

/// An export takes the revision that is named, and only the open database without one.
pub proof fn law_exports(in_revision: bool, key: Seq<char>, current_key: Seq<char>)
    ensures
        export_source(true, in_revision, key, current_key) == Ok::<_, CommandError<Seq<char>>>(
            ExportSource::Revision,
        ) <==> in_revision,
        export_source(true, in_revision, key, current_key) is Ok <==> in_revision,
        !in_revision ==> export_source(true, in_revision, key, current_key) == Err::<ExportSource, _>(
            CommandError::Repo(RepoErr::PathNotTracked(key)),
        ),
        export_source(false, in_revision, key, current_key) == Ok::<_, CommandError<Seq<char>>>(
            ExportSource::Session,
        ) <==> key == current_key,
        export_source(false, in_revision, key, current_key) is Ok <==> key == current_key,
{
}

/// The paths of a merge are the staged ones outside any conflict: the databases and the files among
/// them, each as the index holds it.
pub proof fn law_paths_of_a_merge(
    entries: Seq<IndexEntryView>,
    staged: Seq<Seq<char>>,
    n: int,
    path: Seq<char>,
)
    requires
        0 <= n <= entries.len(),
    ensures
        merged_paths(entries, staged, n).files.contains(path) <==> staged.contains(path) && exists|
            i: int,
        | #![trigger entries[i]]
            0 <= i < n && entries[i].path == path && entries[i].stage == IndexStage::Normal
                && entries[i].file is Some,
        forall|j: int| #![trigger merged_paths(entries, staged, n).artifacts[j]]
            0 <= j < merged_paths(entries, staged, n).artifacts.len() ==> {
                let a = merged_paths(entries, staged, n).artifacts[j];
                staged.contains(a.path) && exists|i: int| #![trigger entries[i]]
                    0 <= i < n && entries[i].path == a.path && entries[i].stage == IndexStage::Normal
                        && entries[i].file is None && entries[i].artifact == Some(a.state)
            },
        (staged.contains(path) && exists|i: int| #![trigger entries[i]]
            0 <= i < n && entries[i].path == path && entries[i].stage == IndexStage::Normal
                && entries[i].file is None && entries[i].artifact is Some) ==> exists|j: int|
            #![trigger merged_paths(entries, staged, n).artifacts[j]]
            0 <= j < merged_paths(entries, staged, n).artifacts.len() && merged_paths(
                entries,
                staged,
                n,
            ).artifacts[j].path == path,
    decreases n,
{
    if n > 0 {
        law_paths_of_a_merge(entries, staged, n - 1, path);
        let was = merged_paths(entries, staged, n - 1);
        let now = merged_paths(entries, staged, n);
        let e = entries[n - 1];
        if is_merged(e, staged) && e.file is Some {
            assert(now.files[was.files.len() as int] == e.path);
            if was.files.contains(path) {
                assert(now.files[was.files.index_of(path)] == path);
            }
            if now.files.contains(path) && path != e.path {
                let at = now.files.index_of(path);
                assert(was.files[at] == path);
            }
        }
        if is_merged(e, staged) && e.file is None && e.artifact is Some {
            assert(now.artifacts[was.artifacts.len() as int].path == e.path);
        }
        assert forall|j: int| #![trigger now.artifacts[j]] 0 <= j < now.artifacts.len() implies ({
            let a = now.artifacts[j];
            staged.contains(a.path) && exists|i: int| #![trigger entries[i]]
                0 <= i < n && entries[i].path == a.path && entries[i].stage == IndexStage::Normal
                    && entries[i].file is None && entries[i].artifact == Some(a.state)
        }) by {
            let a = now.artifacts[j];
            if j < was.artifacts.len() {
                assert(was.artifacts[j] == a);
                let i = choose|i: int| #![trigger entries[i]]
                    0 <= i < n - 1 && entries[i].path == a.path && entries[i].stage
                        == IndexStage::Normal && entries[i].file is None && entries[i].artifact
                        == Some(a.state);
                assert(entries[i].path == a.path);
            } else {
                assert(entries[n - 1].path == a.path);
            }
        }
        if exists|j: int| #![trigger was.artifacts[j]]
            0 <= j < was.artifacts.len() && was.artifacts[j].path == path {
            let j = choose|j: int| #![trigger was.artifacts[j]]
                0 <= j < was.artifacts.len() && was.artifacts[j].path == path;
            assert(now.artifacts[j] == was.artifacts[j]);
        }
    }
}

/// A restore would overwrite a path that is in its way, and an untracked file that it plans to write
/// other than the open database.
pub proof fn law_untracked_files_of_a_restore(
    plan: Seq<RestorePlanEntryView>,
    index: PathListingView,
    current_key: Seq<char>,
    is_file: Seq<bool>,
    collisions: Seq<Seq<char>>,
    i: int,
)
    requires
        0 <= i < plan.len(),
    ensures
        is_file[i] && listed(index, plan[i].key) is None && plan[i].key != current_key
            ==> restore_overwrites(plan, index, current_key, is_file, collisions, plan[i].key),
        collisions.contains(plan[i].key) ==> restore_overwrites(
            plan,
            index,
            current_key,
            is_file,
            collisions,
            plan[i].key,
        ),
        !collisions.contains(plan[i].key) && (listed(index, plan[i].key) is Some || plan[i].key
            == current_key) ==> !restore_overwrites(
            plan,
            index,
            current_key,
            is_file,
            collisions,
            plan[i].key,
        ),
{
}

/// Each step of a checkout that goes well leads to the next, and the last to its end; one that fails
/// leads to what has to be undone.
pub proof fn law_steps_of_a_checkout(step: CheckoutStep)
    ensures
        checkout_move(step, true) == CheckoutMove::Finished <==> step == CheckoutStep::DiscardBackups,
        checkout_move(step, true) matches CheckoutMove::Do(next) ==> place_of(next) == place_of(step)
            + 1,
        !(checkout_move(step, true) is Undo),
        checkout_move(step, false) is Undo,
{
}

/// The backup of a path is the one in its place, and there is one exactly where the path was there.
pub proof fn law_backups_stand_in_their_places(keys: Seq<Seq<char>>, present: Seq<bool>, i: int)
    requires
        0 <= i < keys.len() <= usize::MAX,
    ensures
        backup_entries(keys, present).len() == keys.len(),
        backup_entries(keys, present)[i].path == keys[i],
        backup_entries(keys, present)[i].backup is Some <==> present[i],
        present[i] ==> backup_entries(keys, present)[i].backup->0 == i,
{
}

/// The order of a restore has every deletion, or every file that is written, and nothing else. What lies
/// in a directory is deleted before a file of the directory's name, and written after it.
pub proof fn law_order_of_a_plan(
    plan: Seq<RestorePlanEntryView>,
    deletions: bool,
    order: Seq<usize>,
    directory: Seq<char>,
    name: Seq<char>,
    a: int,
    b: int,
)
    requires
        is_order(plan, deletions, order),
        plan.len() <= usize::MAX,
        0 <= a < order.len(),
        0 <= b < order.len(),
    ensures
        deletions ==> plan[order[a] as int].restored is None,
        !deletions ==> plan[order[a] as int].restored is Some,
        forall|i: int| #![trigger plan[i]]
            0 <= i < plan.len() && (plan[i].restored is None <==> deletions) ==> order.contains(
                i as usize,
            ),
        a != b ==> order[a] != order[b],
        plan[order[a] as int].key == directory + "/"@ + name && plan[order[b] as int].key == directory
            && directory.len() > 0 && directory != "."@ && lacks(name, '/') && name.len() > 0 && name
            != "."@ ==> if deletions {
            a < b
        } else {
            b < a
        },
{
    if plan[order[a] as int].key == directory + "/"@ + name && plan[order[b] as int].key == directory
        && directory.len() > 0 && directory != "."@ && lacks(name, '/') && name.len() > 0 && name
        != "."@ {
        law_order_of_a_restore(directory, name);
        assert((directory + "/"@ + name).len() > directory.len());
        if deletions {
            if b < a {
                assert(!applied_before(
                    plan[order[a] as int].key,
                    plan[order[b] as int].key,
                    deletions,
                ));
            }
        } else {
            if a < b {
                assert(!applied_before(
                    plan[order[b] as int].key,
                    plan[order[a] as int].key,
                    deletions,
                ));
            }
        }
    }
}

/// A restore takes a path that its source or the index has and that the filter takes; a checkout from a
/// revision one that the revision or the index has.
pub proof fn law_paths_to_restore(
    place: PathListingView,
    index: PathListingView,
    index_keys: Seq<Seq<char>>,
    filter: Seq<char>,
    key: Seq<char>,
)
    ensures
        restored_by(Some(place), index, index_keys, filter, key) ==> key_matches(key, filter),
        key_matches(key, filter) && listed(place, key) is Some ==> restored_by(
            Some(place),
            index,
            index_keys,
            filter,
            key,
        ) && checks_out(place, index, filter, key),
        key_matches(key, filter) && listed(index, key) is Some ==> restored_by(
            Some(place),
            index,
            index_keys,
            filter,
            key,
        ) && checks_out(place, index, filter, key),
        key_matches(key, filter) && index_keys.contains(key) ==> restored_by(
            None,
            index,
            index_keys,
            filter,
            key,
        ),
        listed(place, key) is None && listed(index, key) is None ==> !checks_out(
            place,
            index,
            filter,
            key,
        ),
        listed(place, key) is None && listed(index, key) is None && !index_keys.contains(key)
            ==> !restored_by(Some(place), index, index_keys, filter, key),
        !key_matches(key, filter) ==> !checks_out(place, index, filter, key),
{
}

/// A name by itself lies one level deep, and below the root two.
pub proof fn law_depth_of_a_name(name: Seq<char>)
    requires
        lacks(name, '/'),
        name.len() > 0,
        name != "."@,
    ensures
        depth(name) == 1,
        depth("/"@ + name) == 2,
{
    reveal_strlit("/");
    reveal_strlit(".");
    reveal_strlit("./");
    assert("/"@ =~= seq!['/']);
    lemma_parts_single(name, '/', Seq::empty());
    assert(Seq::<char>::empty() + name =~= name);
    let keep = |q: Seq<char>| is_component(q);
    reveal(Seq::filter);
    assert(seq![name].drop_last() =~= Seq::<Seq<char>>::empty());
    assert(seq![name].filter(keep) =~= seq![name]);
    assert(!has_prefix(name, "/"@)) by {
        if has_prefix(name, "/"@) {
            assert(name.take(1)[0] == '/');
        }
    }
    assert(!has_prefix(name, "./"@)) by {
        if has_prefix(name, "./"@) {
            assert(name.take(2)[1] == '/');
        }
    }
    let rooted = "/"@ + name;
    law_parts_of_both_sides(Seq::empty(), '/', name);
    assert(Seq::<char>::empty() + seq!['/'] + name =~= rooted);
    lemma_parts_single(Seq::empty(), '/', Seq::empty());
    assert(Seq::<char>::empty() + Seq::<char>::empty() =~= Seq::<char>::empty());
    let two = seq![Seq::<char>::empty(), name];
    assert(parts(rooted, '/') =~= two);
    assert(two.drop_last() =~= seq![Seq::<char>::empty()]);
    assert(seq![Seq::<char>::empty()].drop_last() =~= Seq::<Seq<char>>::empty());
    assert(seq![Seq::<char>::empty()].filter(keep) =~= Seq::<Seq<char>>::empty());
    assert(two.filter(keep) =~= seq![name]);
    assert(has_prefix(rooted, "/"@)) by {
        assert(rooted.take(1) =~= seq!['/']);
    }
}

} // verus!
