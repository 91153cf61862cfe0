//! Which commits of the storage logs a file adds to those of its parents.
use vstd::prelude::*;

use crate::model::{
    CommitFileState, CommitFileStateView, RepoLogRange, RepoLogRangeView, RepoSnapshot,
    StorageCommit, StorageCommitView,
};
use crate::show::views;
use crate::text::same;

verus! {

/// The numbers `start..=end`.
pub type Interval = (u64, u64);

pub open spec fn within(iv: Interval, x: int) -> bool {
    iv.0 <= x <= iv.1
}

/// `x` lies in one of the intervals.
pub open spec fn in_any(list: Seq<Interval>, x: int) -> bool {
    exists|i: int| 0 <= i < list.len() && within(#[trigger] list[i], x)
}

/// The starts of the intervals do not descend.
pub open spec fn starts_ascend(list: Seq<Interval>) -> bool {
    forall|i: int, j: int| 0 <= i < j < list.len() ==> (#[trigger] list[i]).0 <= (#[trigger] list[j]).0
}

/// Every interval ends at least two before a later one starts.
pub open spec fn apart(list: Seq<Interval>) -> bool {
    forall|i: int, j: int|
        0 <= i < j < list.len() ==> (#[trigger] list[i]).1 + 1 < (#[trigger] list[j]).0
}

/// An interval behind the last one that does not start after it.
pub open spec fn placed(list: Seq<Interval>, e: Interval) -> Seq<Interval>
    decreases list.len(),
{
    if list.len() == 0 || list.last().0 <= e.0 {
        list.push(e)
    } else {
        placed(list.drop_last(), e).push(list.last())
    }
}

/// The intervals in the order of their starts.
pub open spec fn by_start(list: Seq<Interval>) -> Seq<Interval>
    decreases list.len(),
{
    if list.len() == 0 {
        list
    } else {
        placed(by_start(list.drop_last()), list.last())
    }
}

/// One more interval: it lengthens the last one where it touches it.
pub open spec fn absorbed(list: Seq<Interval>, e: Interval) -> Seq<Interval> {
    if list.len() > 0 && e.0 <= list.last().1 + 1 {
        list.drop_last().push(
            (
                list.last().0,
                if e.1 > list.last().1 {
                    e.1
                } else {
                    list.last().1
                },
            ),
        )
    } else {
        list.push(e)
    }
}

/// Intervals in the order of their starts, with those that touch put together.
pub open spec fn merged(list: Seq<Interval>) -> Seq<Interval>
    decreases list.len(),
{
    if list.len() == 0 {
        list
    } else {
        absorbed(merged(list.drop_last()), list.last())
    }
}

proof fn lemma_in_push(list: Seq<Interval>, e: Interval, x: int)
    ensures
        in_any(list.push(e), x) == (in_any(list, x) || within(e, x)),
{
    let t = list.push(e);
    if in_any(list, x) {
        let i = choose|i: int| 0 <= i < list.len() && within(#[trigger] list[i], x);
        assert(within(t[i], x));
    }
    if within(e, x) {
        assert(within(t[list.len() as int], x));
    }
    if in_any(t, x) {
        let i = choose|i: int| 0 <= i < t.len() && within(#[trigger] t[i], x);
        if i < list.len() {
            assert(within(list[i], x));
        }
    }
}

proof fn lemma_placed(list: Seq<Interval>, e: Interval, x: int)
    requires
        starts_ascend(list),
    ensures
        starts_ascend(placed(list, e)),
        in_any(placed(list, e), x) == (in_any(list, x) || within(e, x)),
        placed(list, e).len() == list.len() + 1,
        forall|j: int|
            0 <= j <= list.len() ==> (#[trigger] placed(list, e)[j]).0 <= (if list.len() > 0
                && list.last().0 > e.0 {
                list.last().0
            } else {
                e.0
            }),
    decreases list.len(),
{
    let t = placed(list, e);
    lemma_in_push(list, e, x);
    if list.len() == 0 {
    } else if list.last().0 <= e.0 {
        assert forall|j: int| 0 <= j <= list.len() implies (#[trigger] t[j]).0 <= e.0 by {
            if j < list.len() - 1 {
                assert(list[j].0 <= list[list.len() - 1].0);
            }
        }
    } else {
        let rest = list.drop_last();
        lemma_placed(rest, e, x);
        let u = placed(rest, e);
        lemma_in_push(u, list.last(), x);
        lemma_in_push(rest, list.last(), x);
        assert(list =~= rest.push(list.last()));
        assert forall|j: int| 0 <= j <= list.len() implies (#[trigger] t[j]).0 <= list.last().0 by {
            if j < list.len() {
                assert(t[j] == u[j]);
                if rest.len() > 0 {
                    assert(rest.last() == list[list.len() - 2]);
                    assert(list[list.len() - 2].0 <= list[list.len() - 1].0);
                }
            }
        }
    }
}

proof fn lemma_by_start(list: Seq<Interval>, x: int)
    ensures
        starts_ascend(by_start(list)),
        in_any(by_start(list), x) == in_any(list, x),
        by_start(list).len() == list.len(),
    decreases list.len(),
{
    if list.len() > 0 {
        lemma_by_start(list.drop_last(), x);
        lemma_placed(by_start(list.drop_last()), list.last(), x);
        lemma_in_push(list.drop_last(), list.last(), x);
        assert(list =~= list.drop_last().push(list.last()));
    }
}

/// Putting intervals together keeps what they hold, and leaves them apart and in order.
pub proof fn law_merged_holds_the_same(list: Seq<Interval>, x: int)
    requires
        starts_ascend(list),
    ensures
        in_any(merged(list), x) == in_any(list, x),
        starts_ascend(merged(list)),
        apart(merged(list)),
        list.len() > 0 ==> merged(list).len() > 0 && merged(list).last().0 <= list.last().0,
    decreases list.len(),
{
    if list.len() > 0 {
        let rest = list.drop_last();
        let e = list.last();
        law_merged_holds_the_same(rest, x);
        let m = merged(rest);
        lemma_in_push(rest, e, x);
        assert(list =~= rest.push(e));
        if rest.len() > 0 {
            assert(list[rest.len() - 1].0 <= list[rest.len() as int].0);
            assert(rest.last().0 <= e.0);
        }
        if m.len() > 0 && e.0 <= m.last().1 + 1 {
            let longer = (
                m.last().0,
                if e.1 > m.last().1 {
                    e.1
                } else {
                    m.last().1
                },
            );
            let head = m.drop_last();
            lemma_in_push(head, m.last(), x);
            lemma_in_push(head, longer, x);
            assert(m =~= head.push(m.last()));
            assert(m.last().0 <= e.0);
            let t = head.push(longer);
            assert(merged(list) == t);
            assert(apart(t)) by {
                assert forall|i: int, j: int| 0 <= i < j < t.len() implies (#[trigger] t[i]).1 + 1
                    < (#[trigger] t[j]).0 by {
                    assert(m[i].1 + 1 < m[j].0);
                }
            }
            assert(starts_ascend(t)) by {
                assert forall|i: int, j: int| 0 <= i < j < t.len() implies (#[trigger] t[i]).0 <= (
                #[trigger] t[j]).0 by {
                    assert(m[i].0 <= m[j].0);
                }
            }
        } else {
            lemma_in_push(m, e, x);
            let t = m.push(e);
            assert(merged(list) == t);
            assert(starts_ascend(t)) by {
                assert forall|i: int, j: int| 0 <= i < j < t.len() implies (#[trigger] t[i]).0 <= (
                #[trigger] t[j]).0 by {
                    if j == m.len() {
                        if i < m.len() - 1 {
                            assert(m[i].0 <= m[m.len() - 1].0);
                        }
                    } else {
                        assert(m[i].0 <= m[j].0);
                    }
                }
            }
            assert(apart(t)) by {
                assert forall|i: int, j: int| 0 <= i < j < t.len() implies (#[trigger] t[i]).1 + 1
                    < (#[trigger] t[j]).0 by {
                    if j < m.len() {
                        assert(m[i].1 + 1 < m[j].0);
                    } else if i < m.len() - 1 {
                        assert(m[i].1 + 1 < m[m.len() - 1].0);
                    }
                }
            }
        }
    }
}

fn sort_by_start(list: &Vec<Interval>) -> (r: Vec<Interval>)
    ensures
        r@ == by_start(list@),
{
    let ghost all = list@;
    let mut out: Vec<Interval> = Vec::new();
    let mut n: usize = 0;
    proof {
        assert(all.take(0) =~= Seq::empty());
    }
    while n < list.len()
        invariant
            n <= list@.len(),
            all == list@,
            out@ == by_start(all.take(n as int)),
        decreases list@.len() - n,
    {
        let e: Interval = list[n];
        let mut at: usize = out.len();
        while at > 0 && out[at - 1].0 > e.0
            invariant
                at <= out@.len(),
                forall|j: int| at <= j < out@.len() ==> (#[trigger] out@[j]).0 > e.0,
            decreases at,
        {
            at -= 1;
        }
        proof {
            assert(all.take(n + 1).drop_last() =~= all.take(n as int));
            lemma_placed_at(out@, e, at as int);
        }
        out.insert(at, e);
        n += 1;
    }
    proof {
        assert(all.take(n as int) =~= all);
    }
    out
}

proof fn lemma_placed_at(s: Seq<Interval>, e: Interval, at: int)
    requires
        0 <= at <= s.len(),
        forall|j: int| at <= j < s.len() ==> (#[trigger] s[j]).0 > e.0,
        at > 0 ==> s[at - 1].0 <= e.0,
    ensures
        placed(s, e) == s.insert(at, e),
    decreases s.len(),
{
    if at == s.len() {
        assert(s.insert(at, e) =~= s.push(e));
    } else {
        lemma_placed_at(s.drop_last(), e, at);
        assert(s.drop_last().insert(at, e).push(s.last()) =~= s.insert(at, e));
    }
}

/// Puts intervals that touch together.
pub fn merge_intervals(list: &Vec<Interval>) -> (r: Vec<Interval>)
    ensures
        r@ == merged(by_start(list@)),
{
    let sorted = sort_by_start(list);
    let ghost all = sorted@;
    let mut out: Vec<Interval> = Vec::new();
    let mut n: usize = 0;
    proof {
        assert(all.take(0) =~= Seq::empty());
    }
    while n < sorted.len()
        invariant
            n <= sorted@.len(),
            all == sorted@,
            out@ == merged(all.take(n as int)),
        decreases sorted@.len() - n,
    {
        let e: Interval = sorted[n];
        let size: usize = out.len();
        proof {
            assert(all.take(n + 1).drop_last() =~= all.take(n as int));
        }
        if size > 0 && (out[size - 1].1 == u64::MAX || e.0 <= out[size - 1].1 + 1) {
            let last: Interval = out[size - 1];
            if e.1 > last.1 {
                out.set(size - 1, (last.0, e.1));
            }
            proof {
                assert(out@ =~= absorbed(merged(all.take(n as int)), e));
            }
        } else {
            out.push(e);
        }
        n += 1;
    }
    proof {
        assert(all.take(n as int) =~= all);
    }
    out
}

/// The intervals of the first `n` ranges of a log.
pub open spec fn range_intervals(ranges: Seq<RepoLogRangeView>, log: Seq<char>, n: int) -> Seq<
    Interval,
>
    decreases n,
{
    if n <= 0 {
        Seq::empty()
    } else if ranges[n - 1].log == log {
        range_intervals(ranges, log, n - 1).push((ranges[n - 1].start, ranges[n - 1].end))
    } else {
        range_intervals(ranges, log, n - 1)
    }
}

/// The intervals of a log that the first `n` parents hold in the volume of the file.
pub open spec fn parent_intervals(
    state: CommitFileStateView,
    parents: Seq<CommitFileStateView>,
    log: Seq<char>,
    n: int,
) -> Seq<Interval>
    decreases n,
{
    if n <= 0 {
        Seq::empty()
    } else if parents[n - 1].volume == state.volume {
        parent_intervals(state, parents, log, n - 1) + range_intervals(
            parents[n - 1].snapshot.ranges,
            log,
            parents[n - 1].snapshot.ranges.len() as int,
        )
    } else {
        parent_intervals(state, parents, log, n - 1)
    }
}

/// What the parents cover of a log, in order and with touching intervals put together.
pub open spec fn coverage(
    state: CommitFileStateView,
    parents: Seq<CommitFileStateView>,
    log: Seq<char>,
) -> Seq<Interval> {
    merged(by_start(parent_intervals(state, parents, log, parents.len() as int)))
}

/// Some parent holds the commit `x` of the log in the volume of the file.
pub open spec fn covered(
    state: CommitFileStateView,
    parents: Seq<CommitFileStateView>,
    log: Seq<char>,
    x: int,
) -> bool {
    exists|p: int, r: int| #[trigger] covers(state, parents, log, x, p, r)
}

/// Range `r` of parent `p` holds the commit `x` of the log in the volume of the file.
pub open spec fn covers(
    state: CommitFileStateView,
    parents: Seq<CommitFileStateView>,
    log: Seq<char>,
    x: int,
    p: int,
    r: int,
) -> bool {
    &&& 0 <= p < parents.len()
    &&& parents[p].volume == state.volume
    &&& 0 <= r < parents[p].snapshot.ranges.len()
    &&& parents[p].snapshot.ranges[r].log == log
    &&& parents[p].snapshot.ranges[r].start <= x <= parents[p].snapshot.ranges[r].end
}

proof fn lemma_in_append(a: Seq<Interval>, b: Seq<Interval>, x: int)
    ensures
        in_any(a + b, x) == (in_any(a, x) || in_any(b, x)),
{
    let t = a + b;
    if in_any(a, x) {
        let i = choose|i: int| 0 <= i < a.len() && within(#[trigger] a[i], x);
        assert(within(t[i], x));
    }
    if in_any(b, x) {
        let i = choose|i: int| 0 <= i < b.len() && within(#[trigger] b[i], x);
        assert(within(t[a.len() + i], x));
    }
    if in_any(t, x) {
        let i = choose|i: int| 0 <= i < t.len() && within(#[trigger] t[i], x);
        if i < a.len() {
            assert(within(a[i], x));
        } else {
            assert(within(b[i - a.len()], x));
        }
    }
}

proof fn lemma_range_intervals(ranges: Seq<RepoLogRangeView>, log: Seq<char>, n: int, x: int)
    requires
        0 <= n <= ranges.len(),
    ensures
        in_any(range_intervals(ranges, log, n), x) == exists|r: int|
            0 <= r < n && (#[trigger] ranges[r]).log == log && ranges[r].start <= x
                <= ranges[r].end,
    decreases n,
{
    if n > 0 {
        lemma_range_intervals(ranges, log, n - 1, x);
        let last = ranges[n - 1];
        lemma_in_push(range_intervals(ranges, log, n - 1), (last.start, last.end), x);
        let some = exists|r: int|
            0 <= r < n && (#[trigger] ranges[r]).log == log && ranges[r].start <= x
                <= ranges[r].end;
        if in_any(range_intervals(ranges, log, n), x) {
            if last.log == log && within((last.start, last.end), x) {
                assert(ranges[n - 1].log == log);
            }
            assert(some);
        }
        if some {
            let r = choose|r: int|
                0 <= r < n && (#[trigger] ranges[r]).log == log && ranges[r].start <= x
                    <= ranges[r].end;
            if r < n - 1 {
                assert(in_any(range_intervals(ranges, log, n - 1), x));
            }
        }
    }
}

proof fn lemma_parent_intervals(
    state: CommitFileStateView,
    parents: Seq<CommitFileStateView>,
    log: Seq<char>,
    n: int,
    x: int,
)
    requires
        0 <= n <= parents.len(),
    ensures
        in_any(parent_intervals(state, parents, log, n), x) == exists|p: int, r: int|
            p < n && #[trigger] covers(state, parents, log, x, p, r),
    decreases n,
{
    if n > 0 {
        lemma_parent_intervals(state, parents, log, n - 1, x);
        let ranges = parents[n - 1].snapshot.ranges;
        lemma_range_intervals(ranges, log, ranges.len() as int, x);
        lemma_in_append(
            parent_intervals(state, parents, log, n - 1),
            range_intervals(ranges, log, ranges.len() as int),
            x,
        );
        let some = exists|p: int, r: int|
            p < n && #[trigger] covers(state, parents, log, x, p, r);
        if in_any(parent_intervals(state, parents, log, n), x) {
            if in_any(parent_intervals(state, parents, log, n - 1), x) {
                assert(some);
            } else {
                let r = choose|r: int|
                    0 <= r < ranges.len() && (#[trigger] ranges[r]).log == log && ranges[r].start
                        <= x <= ranges[r].end;
                assert(covers(state, parents, log, x, n - 1, r));
            }
        }
        if some {
            let (p, r) = choose|p: int, r: int|
                p < n && #[trigger] covers(state, parents, log, x, p, r);
            if p < n - 1 {
                assert(in_any(parent_intervals(state, parents, log, n - 1), x));
            } else {
                assert(ranges[r].log == log);
                assert(in_any(range_intervals(ranges, log, ranges.len() as int), x));
            }
        }
    }
}

/// The coverage holds just the commits that some parent holds.
pub proof fn law_coverage(
    state: CommitFileStateView,
    parents: Seq<CommitFileStateView>,
    log: Seq<char>,
    x: int,
)
    ensures
        in_any(coverage(state, parents, log), x) == covered(state, parents, log, x),
        starts_ascend(coverage(state, parents, log)),
        apart(coverage(state, parents, log)),
{
    let list = parent_intervals(state, parents, log, parents.len() as int);
    lemma_by_start(list, x);
    law_merged_holds_the_same(by_start(list), x);
    lemma_parent_intervals(state, parents, log, parents.len() as int, x);
}

/// What the parents cover of a log.
pub fn repo_file_parent_coverage(
    state: &CommitFileState,
    parent_states: &Vec<CommitFileState>,
    log: &str,
) -> (r: Vec<Interval>)
    ensures
        r@ == coverage(state@, views(parent_states@), log@),
{
    let ghost parents = views(parent_states@);
    let mut list: Vec<Interval> = Vec::new();
    let mut p: usize = 0;
    while p < parent_states.len()
        invariant
            p <= parent_states@.len(),
            parents == views(parent_states@),
            list@ == parent_intervals(state@, parents, log@, p as int),
        decreases parent_states@.len() - p,
    {
        let parent = &parent_states[p];
        proof {
            assert(parents[p as int] == parent@);
        }
        if same(parent.volume.as_str(), state.volume.as_str()) {
            let ranges = &parent.snapshot.ranges;
            let ghost before = list@;
            let mut r: usize = 0;
            proof {
                assert(before + range_intervals(views(ranges@), log@, 0) =~= before);
            }
            while r < ranges.len()
                invariant
                    r <= ranges@.len(),
                    list@ == before + range_intervals(views(ranges@), log@, r as int),
                decreases ranges@.len() - r,
            {
                let range = &ranges[r];
                proof {
                    assert(views(ranges@)[r as int] == range@);
                    let now = range_intervals(views(ranges@), log@, r as int);
                    assert((before + now).push((range.start, range.end)) =~= before + now.push(
                        (range.start, range.end),
                    ));
                }
                if same(range.log.as_str(), log) {
                    list.push((range.start, range.end));
                }
                r += 1;
            }
        }
        p += 1;
    }
    merge_intervals(&list)
}

/// The parts of `cursor..=end` that the intervals from `i` on leave free.
pub open spec fn gaps(list: Seq<Interval>, i: int, cursor: u64, end: u64) -> Seq<Interval>
    decreases list.len() - i,
{
    if i >= list.len() || list[i].0 > end && list[i].1 >= cursor {
        if cursor <= end {
            seq![(cursor, end)]
        } else {
            Seq::empty()
        }
    } else if list[i].1 < cursor {
        gaps(list, i + 1, cursor, end)
    } else {
        let head: Seq<Interval> = if list[i].0 > cursor {
            seq![(cursor, (list[i].0 - 1) as u64)]
        } else {
            Seq::empty()
        };
        if list[i].1 >= end {
            head
        } else {
            head + gaps(list, i + 1, (list[i].1 + 1) as u64, end)
        }
    }
}

/// The gaps hold what no interval holds.
pub proof fn law_gaps(list: Seq<Interval>, i: int, cursor: u64, end: u64, x: int)
    requires
        0 <= i,
        starts_ascend(list),
    ensures
        in_any(gaps(list, i, cursor, end), x) <==> (cursor <= x <= end && !exists|j: int|
            i <= j < list.len() && within(#[trigger] list[j], x)),
    decreases list.len() - i,
{
    let free = cursor <= x <= end && !exists|j: int|
        i <= j < list.len() && within(#[trigger] list[j], x);
    let g = gaps(list, i, cursor, end);
    if i >= list.len() || list[i].0 > end && list[i].1 >= cursor {
        if cursor <= end {
            assert(g =~= seq![(cursor, end)]);
            lemma_in_push(Seq::empty(), (cursor, end), x);
            assert(Seq::<Interval>::empty().push((cursor, end)) =~= g);
        }
        if cursor <= x <= end && i < list.len() {
            assert forall|j: int| i <= j < list.len() implies !within(#[trigger] list[j], x) by {
                if j > i {
                    assert(list[i].0 <= list[j].0);
                }
            }
        }
    } else if list[i].1 < cursor {
        law_gaps(list, i + 1, cursor, end, x);
        if free {
            assert forall|j: int| i + 1 <= j < list.len() implies !within(#[trigger] list[j], x) by {
            }
        }
        if cursor <= x <= end && exists|j: int| i <= j < list.len() && within(#[trigger] list[j], x) {
            let j = choose|j: int| i <= j < list.len() && within(#[trigger] list[j], x);
            assert(j != i);
            assert(i + 1 <= j < list.len() && within(list[j], x));
        }
    } else {
        let head: Seq<Interval> = if list[i].0 > cursor {
            seq![(cursor, (list[i].0 - 1) as u64)]
        } else {
            Seq::empty()
        };
        if list[i].0 > cursor {
            lemma_in_push(Seq::empty(), (cursor, (list[i].0 - 1) as u64), x);
            assert(Seq::<Interval>::empty().push((cursor, (list[i].0 - 1) as u64)) =~= head);
        }
        assert(in_any(head, x) == (cursor <= x < list[i].0));
        assert(cursor <= x < list[i].0 ==> x <= end);
        assert(x < list[i].0 ==> forall|j: int|
            i <= j < list.len() ==> !within(#[trigger] list[j], x)) by {
            if x < list[i].0 {
                assert forall|j: int| i <= j < list.len() implies !within(
                    #[trigger] list[j],
                    x,
                ) by {
                    if j > i {
                        assert(list[i].0 <= list[j].0);
                    }
                }
            }
        }
        if list[i].1 >= end {
            if cursor <= x <= end && x >= list[i].0 {
                assert(within(list[i], x));
            }
        } else {
            let next = (list[i].1 + 1) as u64;
            law_gaps(list, i + 1, next, end, x);
            lemma_in_append(head, gaps(list, i + 1, next, end), x);
            if list[i].0 <= x <= list[i].1 {
                assert(within(list[i], x));
            }
            if x > list[i].1 {
                if exists|j: int| i <= j < list.len() && within(#[trigger] list[j], x) {
                    let j = choose|j: int| i <= j < list.len() && within(#[trigger] list[j], x);
                    assert(j != i);
                    assert(i + 1 <= j < list.len() && within(list[j], x));
                }
            }
        }
    }
}

/// The commits of a range between `start` and `end`.
pub open spec fn commits_between(commits: Seq<StorageCommitView>, start: u64, end: u64) -> Seq<
    StorageCommitView,
> {
    commits.filter(|c: StorageCommitView| c.lsn >= start && c.lsn <= end)
}

/// The part `start..=end` of a range.
pub open spec fn sub_range(range: RepoLogRangeView, iv: Interval) -> RepoLogRangeView {
    RepoLogRange {
        log: range.log,
        start: iv.0,
        end: iv.1,
        commits: commits_between(range.commits, iv.0, iv.1),
    }
}

pub open spec fn sub_ranges(range: RepoLogRangeView, list: Seq<Interval>) -> Seq<RepoLogRangeView> {
    Seq::new(list.len(), |i: int| sub_range(range, list[i]))
}

/// Adds the part `start..=end` of a range with its commits.
pub fn push_repo_log_range(
    ranges: &mut Vec<RepoLogRange>,
    source: &RepoLogRange,
    start: u64,
    end: u64,
)
    ensures
        views(final(ranges)@) == views(old(ranges)@).push(sub_range(source@, (start, end))),
{
    let ghost all = views(source.commits@);
    let ghost keep = |c: StorageCommitView| c.lsn >= start && c.lsn <= end;
    let mut commits: Vec<StorageCommit> = Vec::new();
    let mut i: usize = 0;
    proof {
        reveal(Seq::filter);
        assert(all.take(0) =~= Seq::empty());
        assert(views(commits@) =~= Seq::empty());
    }
    while i < source.commits.len()
        invariant
            i <= source.commits@.len(),
            all == views(source.commits@),
            keep == (|c: StorageCommitView| c.lsn >= start && c.lsn <= end),
            views(commits@) == all.take(i as int).filter(keep),
        decreases source.commits@.len() - i,
    {
        let c = StorageCommit {
            lsn: source.commits[i].lsn,
            commit_hash: source.commits[i].commit_hash.clone(),
        };
        proof {
            reveal(Seq::filter);
            assert(all.take(i + 1).drop_last() =~= all.take(i as int));
            assert(all.take(i + 1).last() == c@);
            assert(views(commits@.push(c)) =~= views(commits@).push(c@));
        }
        if c.lsn >= start && c.lsn <= end {
            commits.push(c);
        }
        i += 1;
    }
    let range = RepoLogRange { log: source.log.clone(), start, end, commits };
    proof {
        assert(all.take(i as int) =~= all);
        assert(range@ == sub_range(source@, (start, end)));
        assert(views(ranges@.push(range)) =~= views(ranges@).push(range@));
    }
    ranges.push(range);
}

/// Adds the parts of a range that the intervals leave free.
pub fn append_uncovered_repo_log_ranges(
    ranges: &mut Vec<RepoLogRange>,
    range: &RepoLogRange,
    intervals: &Vec<Interval>,
)
    ensures
        views(final(ranges)@) == views(old(ranges)@) + sub_ranges(
            range@,
            gaps(intervals@, 0, range.start, range.end),
        ),
{
    let ghost before = views(old(ranges)@);
    let ghost list = intervals@;
    let end: u64 = range.end;
    let ghost all = gaps(list, 0, range.start, end);
    let ghost mut found: Seq<Interval> = Seq::empty();
    let mut cursor: u64 = range.start;
    let mut i: usize = 0;
    let mut closed: bool = false;
    proof {
        assert(found + gaps(list, 0, cursor, end) =~= all);
        assert(views(ranges@) =~= before + sub_ranges(range@, found));
    }
    while i < intervals.len() && !closed && !(intervals[i].0 > end && intervals[i].1 >= cursor)
        invariant
            i <= intervals@.len(),
            list == intervals@,
            end == range.end,
            before == views(old(ranges)@),
            all == gaps(list, 0, range.start, end),
            views(ranges@) == before + sub_ranges(range@, found),
            all == if closed {
                found
            } else {
                found + gaps(list, i as int, cursor, end)
            },
        decreases intervals@.len() - i,
    {
        let (covered_start, covered_end): (u64, u64) = intervals[i];
        if covered_end >= cursor {
            let ghost earlier = found;
            if covered_start > cursor {
                push_repo_log_range(ranges, range, cursor, covered_start - 1);
                proof {
                    let iv = (cursor, (covered_start - 1) as u64);
                    found = earlier.push(iv);
                    assert(before + sub_ranges(range@, found) =~= (before + sub_ranges(
                        range@,
                        earlier,
                    )).push(sub_range(range@, iv)));
                    assert(earlier + seq![iv] =~= found);
                }
            }
            if covered_end >= end {
                closed = true;
                proof {
                    if covered_start <= cursor {
                        assert(earlier + Seq::<Interval>::empty() =~= found);
                    }
                }
            } else {
                proof {
                    let rest = gaps(list, i + 1, (covered_end + 1) as u64, end);
                    if covered_start > cursor {
                        let iv = (cursor, (covered_start - 1) as u64);
                        assert(earlier + (seq![iv] + rest) =~= found + rest);
                    } else {
                        assert(earlier + (Seq::<Interval>::empty() + rest) =~= found + rest);
                    }
                }
                cursor = covered_end + 1;
            }
        }
        i += 1;
    }
    if !closed && cursor <= end {
        push_repo_log_range(ranges, range, cursor, end);
        proof {
            let iv = (cursor, end);
            assert(found + seq![iv] =~= found.push(iv));
            assert(before + sub_ranges(range@, found.push(iv)) =~= (before + sub_ranges(
                range@,
                found,
            )).push(sub_range(range@, iv)));
        }
    } else {
        proof {
            if !closed {
                assert(found + Seq::<Interval>::empty() =~= found);
            }
        }
    }
}

/// What the first `n` ranges of a file add to those of its parents.
pub open spec fn delta_ranges(
    state: CommitFileStateView,
    parents: Seq<CommitFileStateView>,
    n: int,
) -> Seq<RepoLogRangeView>
    decreases n,
{
    if n <= 0 {
        Seq::empty()
    } else {
        let range = state.snapshot.ranges[n - 1];
        delta_ranges(state, parents, n - 1) + sub_ranges(
            range,
            gaps(coverage(state, parents, range.log), 0, range.start, range.end),
        )
    }
}

/// The snapshot of what a file adds to those of its parents.
pub fn repo_file_delta_snapshot(
    state: &CommitFileState,
    parent_states: &Vec<CommitFileState>,
) -> (r: RepoSnapshot)
    ensures
        r@.page_count == state@.snapshot.page_count,
        r@.ranges == delta_ranges(
            state@,
            views(parent_states@),
            state.snapshot.ranges@.len() as int,
        ),
{
    let ghost parents = views(parent_states@);
    let mut ranges: Vec<RepoLogRange> = Vec::new();
    let mut i: usize = 0;
    proof {
        assert(views(ranges@) =~= Seq::empty());
    }
    while i < state.snapshot.ranges.len()
        invariant
            i <= state.snapshot.ranges@.len(),
            parents == views(parent_states@),
            views(ranges@) == delta_ranges(state@, parents, i as int),
        decreases state.snapshot.ranges@.len() - i,
    {
        let range = &state.snapshot.ranges[i];
        proof {
            assert(state@.snapshot.ranges[i as int] == range@);
        }
        let intervals = repo_file_parent_coverage(state, parent_states, range.log.as_str());
        append_uncovered_repo_log_ranges(&mut ranges, range, &intervals);
        i += 1;
    }
    RepoSnapshot { page_count: state.snapshot.page_count, ranges }
}

/// The delta of a range holds a commit of the range just when no parent holds it.
pub proof fn law_delta_is_what_parents_lack(
    state: CommitFileStateView,
    parents: Seq<CommitFileStateView>,
    range: RepoLogRangeView,
    x: int,
)
    ensures
        in_any(gaps(coverage(state, parents, range.log), 0, range.start, range.end), x) <==> (
        range.start <= x <= range.end && !covered(state, parents, range.log, x)),
{
    let list = coverage(state, parents, range.log);
    law_coverage(state, parents, range.log, x);
    law_gaps(list, 0, range.start, range.end, x);
    if in_any(list, x) {
        let j = choose|j: int| 0 <= j < list.len() && within(#[trigger] list[j], x);
        assert(0 <= j < list.len() && within(list[j], x));
    }
}

} // verus!
