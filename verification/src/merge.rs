//! Merges: what their outcome becomes after row-level merges, and which remote they read from.
use vstd::prelude::*;

use crate::error::{text_option, CommandError};
use crate::model::{MergeOutcome, MergeOutcomeView, RemoteBranchRef, RemoteBranchRefView};
use crate::order::{lists, sort_texts, sorted};
use crate::report_sync::{RowAutoMergeResult, RowAutoMergeResultView};
use crate::show::views;
use crate::text::{cat3, has_prefix, lemma_texts_push, same, strip_prefix, texts};

verus! {

/// The staged paths after `key` was merged: with `key`, in order where it was not there before.
pub open spec fn staged_with(before: Seq<Seq<char>>, key: Seq<char>, after: Seq<Seq<char>>) -> bool {
    if before.contains(key) {
        after == before
    } else {
        sorted(after) && after.to_multiset() == before.push(key).to_multiset()
    }
}

/// The paths other than `key`.
pub open spec fn without(paths: Seq<Seq<char>>, key: Seq<char>) -> Seq<Seq<char>> {
    paths.filter(|p: Seq<char>| p != key)
}

/// `after` is the outcome `before` once the conflict of `key` was merged row by row.
pub open spec fn merged_by_rows(
    before: MergeOutcomeView,
    key: Seq<char>,
    after: MergeOutcomeView,
) -> bool {
    match before {
        MergeOutcome::Merged { head, target, merge_base, staged, conflicted } => {
            match after {
                MergeOutcome::Merged {
                    head: head2,
                    target: target2,
                    merge_base: merge_base2,
                    staged: staged2,
                    conflicted: conflicted2,
                } => {
                    &&& head2 == head
                    &&& target2 == target
                    &&& merge_base2 == merge_base
                    &&& staged_with(staged, key, staged2)
                    &&& conflicted2 == without(conflicted, key)
                },
                _ => false,
            }
        },
        _ => after == before,
    }
}

fn without_path(list: Vec<String>, key: &str) -> (r: Vec<String>)
    ensures
        texts(r@) == without(texts(list@), key@),
{
    let ghost all = texts(list@);
    let ghost keep = |p: Seq<char>| p != key@;
    let mut out: Vec<String> = Vec::new();
    proof {
        reveal(Seq::filter);
        assert(all.take(0) =~= Seq::empty());
        assert(texts(out@) =~= Seq::empty());
    }
    for e in it: list
        invariant
            all == texts(it.seq()),
            keep == (|p: Seq<char>| p != key@),
            texts(out@) == all.take(it.index() as int).filter(keep),
    {
        proof {
            reveal(Seq::filter);
            let i = it.index() as int;
            assert(all.take(i + 1).drop_last() =~= all.take(i));
            assert(all.take(i + 1).last() == e@);
            lemma_texts_push(out@, e);
        }
        if !same(e.as_str(), key) {
            out.push(e);
        }
    }
    proof {
        assert(all.take(all.len() as int) =~= all);
    }
    out
}

/// The outcome of a merge once the conflict of `key` was merged row by row.
pub fn merge_outcome_with_row_auto_merge(outcome: MergeOutcome, key: &str) -> (r: MergeOutcome)
    ensures
        merged_by_rows(outcome@, key@, r@),
{
    match outcome {
        MergeOutcome::Merged { head, target, merge_base, staged, conflicted } => {
            let mut staged = staged;
            if !lists(&staged, key) {
                let text = key.to_owned();
                proof {
                    lemma_texts_push(staged@, text);
                }
                staged.push(text);
                staged = sort_texts(&staged);
            }
            MergeOutcome::Merged {
                head,
                target,
                merge_base,
                staged,
                conflicted: without_path(conflicted, key),
            }
        },
        other => other,
    }
}

/// After a row-level merge of `key` the path is staged and has no conflict, and every other path
/// is as before.
pub proof fn law_row_merge_resolves_the_path(
    before: MergeOutcomeView,
    key: Seq<char>,
    after: MergeOutcomeView,
)
    requires
        merged_by_rows(before, key, after),
        before is Merged,
    ensures
        after is Merged,
        after->staged.contains(key),
        !after->conflicted.contains(key),
        forall|p: Seq<char>|
            p != key ==> #[trigger] after->staged.contains(p) == before->staged.contains(p)
                && #[trigger] after->conflicted.contains(p) == before->conflicted.contains(p),
{
    let staged = before->staged;
    let staged2 = after->staged;
    let conflicted = before->conflicted;
    lemma_without(conflicted, key);
    assert(staged_with(staged, key, staged2));
    assert(after->conflicted == without(conflicted, key));
    if !staged.contains(key) {
        staged.push(key).to_multiset_ensures();
        staged2.to_multiset_ensures();
        let pushed = staged.push(key);
        assert(pushed[staged.len() as int] == key);
        assert forall|p: Seq<char>| #[trigger] staged2.contains(p) == pushed.contains(p) by {
            assert(staged2.to_multiset().count(p) == pushed.to_multiset().count(p));
        }
        assert forall|p: Seq<char>| p != key implies #[trigger] pushed.contains(p) == staged.contains(p) by {
            if staged.contains(p) {
                assert(pushed[staged.index_of(p)] == p);
            }
            if pushed.contains(p) {
                assert(staged[pushed.index_of(p)] == p);
            }
        }
    }
    assert forall|p: Seq<char>| p != key implies after->staged.contains(p)
        == before->staged.contains(p) && after->conflicted.contains(p)
        == before->conflicted.contains(p) by {
        assert(after->conflicted.contains(p) == conflicted.contains(p));
        if !staged.contains(key) {
            let pushed = staged.push(key);
            assert(staged2.contains(p) == pushed.contains(p));
            assert(pushed.contains(p) == staged.contains(p));
        }
    }
}

proof fn lemma_without(s: Seq<Seq<char>>, key: Seq<char>)
    ensures
        forall|p: Seq<char>| #[trigger] without(s, key).contains(p) == (s.contains(p) && p != key),
    decreases s.len(),
{
    reveal(Seq::filter);
    if s.len() > 0 {
        let rest = s.drop_last();
        lemma_without(rest, key);
        let f = without(rest, key);
        assert forall|p: Seq<char>| #[trigger] without(s, key).contains(p) == (s.contains(p) && p
            != key) by {
            assert(s.contains(p) == (rest.contains(p) || p == s.last())) by {
                if rest.contains(p) {
                    assert(s[rest.index_of(p)] == p);
                }
                if p == s.last() {
                    assert(s[s.len() - 1] == p);
                }
                if s.contains(p) && p != s.last() {
                    assert(rest[s.index_of(p)] == p);
                }
            }
            assert(f.contains(p) == (rest.contains(p) && p != key));
            if s.last() != key {
                let t = f.push(s.last());
                assert(without(s, key) == t);
                if f.contains(p) {
                    assert(t[f.index_of(p)] == p);
                }
                if p == s.last() {
                    assert(t[f.len() as int] == p);
                }
                if t.contains(p) && p != s.last() {
                    assert(f[t.index_of(p)] == p);
                }
            }
        }
    } else {
        assert(without(s, key) =~= Seq::empty());
    }
}

/// One row-level merge: it changes the outcome where it resolved its conflict.
pub open spec fn result_step(
    before: MergeOutcomeView,
    result: RowAutoMergeResultView,
    after: MergeOutcomeView,
) -> bool {
    if result.resolved {
        merged_by_rows(before, result.key, after)
    } else {
        after == before
    }
}

/// `states` are the outcomes before and after each row-level merge.
pub open spec fn result_run(
    results: Seq<RowAutoMergeResultView>,
    states: Seq<MergeOutcomeView>,
) -> bool {
    &&& states.len() == results.len() + 1
    &&& forall|i: int|
        0 <= i < results.len() ==> result_step(states[i], #[trigger] results[i], states[i + 1])
}

/// The outcome after each row-level merge that resolved its conflict.
pub open spec fn merged_by_results(
    before: MergeOutcomeView,
    results: Seq<RowAutoMergeResultView>,
    after: MergeOutcomeView,
) -> bool {
    exists|states: Seq<MergeOutcomeView>| #[trigger]
        result_run(results, states) && states[0] == before && states.last() == after
}

/// The outcome of a merge after a number of row-level merges.
pub fn merge_outcome_after(outcome: MergeOutcome, results: &Vec<RowAutoMergeResult>) -> (r:
    MergeOutcome)
    ensures
        merged_by_results(outcome@, views(results@), r@),
{
    let ghost start = outcome@;
    let ghost all = views(results@);
    let mut outcome = outcome;
    let ghost mut states: Seq<MergeOutcomeView> = seq![start];
    let mut i: usize = 0;
    while i < results.len()
        invariant
            i <= results@.len(),
            all == views(results@),
            result_run(all.take(i as int), states),
            states[0] == start,
            states.last() == outcome@,
        decreases results@.len() - i,
    {
        proof {
            assert(all[i as int] == results@[i as int]@);
        }
        if results[i].resolved {
            outcome = merge_outcome_with_row_auto_merge(outcome, results[i].key.as_str());
        }
        proof {
            let now = all.take(i as int);
            let next = all.take(i + 1);
            let longer = states.push(outcome@);
            assert forall|j: int| 0 <= j < next.len() implies result_step(
                longer[j],
                #[trigger] next[j],
                longer[j + 1],
            ) by {
                if j < i {
                    assert(next[j] == now[j]);
                    assert(result_step(states[j], now[j], states[j + 1]));
                }
            }
            states = longer;
        }
        i += 1;
    }
    proof {
        assert(all.take(i as int) =~= all);
        assert(result_run(all, states));
    }
    outcome
}

/// The head that a fast-forward moved to.
pub open spec fn fast_forward_head(outcome: MergeOutcomeView) -> Option<Seq<char>> {
    match outcome {
        MergeOutcome::FastForward { to, .. } => Some(to),
        _ => None,
    }
}

pub fn merge_fast_forward_head(outcome: &MergeOutcome) -> (r: Option<String>)
    ensures
        text_option(r) == fast_forward_head(outcome@),
{
    match outcome {
        MergeOutcome::FastForward { to, .. } => Some(to.clone()),
        MergeOutcome::AlreadyUpToDate { .. } => None,
        MergeOutcome::Merged { .. } => None,
    }
}

/// The first remote-tracking branch from `i` on with the given name.
pub open spec fn named_remote(
    branches: Seq<RemoteBranchRefView>,
    name: Seq<char>,
    i: int,
) -> Option<
    Seq<char>,
>
    decreases branches.len() - i,
{
    if i >= branches.len() {
        None
    } else if branches[i].remote + "/"@ + branches[i].branch == name {
        Some(branches[i].remote)
    } else {
        named_remote(branches, name, i + 1)
    }
}

/// The first remote from `i` on with a branch at the target.
pub open spec fn target_remote(
    branches: Seq<RemoteBranchRefView>,
    target: Seq<char>,
    i: int,
) -> Option<Seq<char>>
    decreases branches.len() - i,
{
    if i >= branches.len() {
        None
    } else if branches[i].head == target {
        Some(branches[i].remote)
    } else {
        target_remote(branches, target, i + 1)
    }
}

/// Every branch at the target is one of the given remote.
pub open spec fn only_remote(
    branches: Seq<RemoteBranchRefView>,
    target: Seq<char>,
    remote: Seq<char>,
) -> bool {
    forall|i: int|
        0 <= i < branches.len() && (#[trigger] branches[i]).head == target ==> branches[i].remote
            == remote
}

/// The name of a remote-tracking revision without its prefix.
pub open spec fn tracking_name(rev: Seq<char>) -> Seq<char> {
    if has_prefix(rev, "refs/remotes/"@) {
        rev.skip("refs/remotes/"@.len() as int)
    } else {
        rev
    }
}

/// The remote that the commits of a merged revision are read from: the one whose branch was named,
/// or the only one that has a branch at the target. Without it the default remote is used.
pub open spec fn merge_remote(
    rev: Seq<char>,
    target: Seq<char>,
    branches: Seq<RemoteBranchRefView>,
) -> Option<Seq<char>> {
    match named_remote(branches, tracking_name(rev), 0) {
        Some(remote) => Some(remote),
        None => match target_remote(branches, target, 0) {
            Some(remote) => if only_remote(branches, target, remote) {
                Some(remote)
            } else {
                None
            },
            None => None,
        },
    }
}

/// The remote that the commits of a merged revision are read from, where it is not the default.
pub fn repo_merge_remote(rev: &str, target: &str, branches: &Vec<RemoteBranchRef>) -> (r: Option<
    String,
>)
    ensures
        text_option(r) == merge_remote(rev@, target@, views(branches@)),
{
    let ghost all = views(branches@);
    let name = match strip_prefix(rev, "refs/remotes/") {
        Some(rest) => rest,
        None => rev,
    };
    let mut i: usize = 0;
    while i < branches.len()
        invariant
            i <= branches@.len(),
            all == views(branches@),
            name@ == tracking_name(rev@),
            named_remote(all, name@, 0) == named_remote(all, name@, i as int),
        decreases branches@.len() - i,
    {
        proof {
            assert(all[i as int] == branches@[i as int]@);
        }
        let shown = cat3(branches[i].remote.as_str(), "/", branches[i].branch.as_str());
        if same(shown.as_str(), name) {
            return Some(branches[i].remote.clone());
        }
        i += 1;
    }
    let mut found: Option<String> = None;
    let mut only: bool = true;
    let mut k: usize = 0;
    while k < branches.len()
        invariant
            k <= branches@.len(),
            all == views(branches@),
            match found {
                None => target_remote(all, target@, 0) == target_remote(all, target@, k as int)
                    && only && forall|j: int|
                    0 <= j < k ==> (#[trigger] all[j]).head != target@,
                Some(remote) => target_remote(all, target@, 0) == Some(remote@) && only == forall|
                    j: int,
                |
                    0 <= j < k && (#[trigger] all[j]).head == target@ ==> all[j].remote == remote@,
            },
        decreases branches@.len() - k,
    {
        proof {
            assert(all[k as int] == branches@[k as int]@);
        }
        if same(branches[k].head.as_str(), target) {
            match &found {
                None => {
                    found = Some(branches[k].remote.clone());
                },
                Some(remote) => {
                    if !same(branches[k].remote.as_str(), remote.as_str()) {
                        only = false;
                    }
                },
            }
        }
        k += 1;
    }
    if only {
        found
    } else {
        None
    }
}

/// The named branch, or the current one; `action` cannot be done without either.
pub open spec fn branch_or_current(
    branch: Option<Seq<char>>,
    current: Option<Seq<char>>,
    action: Seq<char>,
) -> Result<Seq<char>, CommandError<Seq<char>>> {
    match branch {
        Some(branch) => Ok(branch),
        None => match current {
            Some(branch) => Ok(branch),
            None => Err(
                CommandError::InvalidCommand("cannot "@ + action + " in detached HEAD"@),
            ),
        },
    }
}

pub fn current_or_named_branch(
    branch: Option<String>,
    current: Option<String>,
    action: &str,
) -> (r: Result<String, CommandError>)
    ensures
        crate::error::seen(r) == branch_or_current(
            text_option(branch),
            text_option(current),
            action@,
        ),
{
    match branch {
        Some(branch) => Ok(branch),
        None => match current {
            Some(branch) => Ok(branch),
            None => Err(
                CommandError::InvalidCommand(cat3("cannot ", action, " in detached HEAD")),
            ),
        },
    }
}

} // verus!
