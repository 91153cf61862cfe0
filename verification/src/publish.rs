//! Snapshots on their way in and out: where they come from, how they are made, and which of them a
//! push takes along.
use vstd::prelude::*;
use vstd::string::*;

use crate::error::{invalid, invalid_command, text_option, CommandError};
use crate::model::{
    BranchInfo, BranchInfoView, CommitFileState, CommitFileStateView, PathFile, PathFileView,
    RepoLogRange, RepoLogRangeView, RepoSnapshot, StorageCommit, StorageCommitView,
};
use crate::order::KeyMap;
use crate::show::views;
use crate::snapshot::{
    hash_lists, hash_views, hashes_check, place, range_check, show_place, span,
    RepoSnapshotResolveSource, SnapshotHashPolicy,
};
use crate::text::{cat2, lemma_texts_push, texts};

verus! {

/// How the commits of a snapshot get into the local storage.
#[derive(Debug, Clone, Copy, PartialEq, Eq, Structural)]
pub enum HydrateStep {
    /// An empty snapshot needs none.
    Nothing,
    /// The logs are fetched up to the end of each range.
    FetchLogs,
    FromRemote,
}

pub open spec fn hydrate_step(
    empty: bool,
    source: RepoSnapshotResolveSource,
    has_remote: bool,
) -> Result<
    HydrateStep,
    CommandError<Seq<char>>,
> {
    if empty {
        Ok(HydrateStep::Nothing)
    } else {
        match source {
            RepoSnapshotResolveSource::Local => Ok(HydrateStep::FetchLogs),
            RepoSnapshotResolveSource::Remote => if has_remote {
                Ok(HydrateStep::FromRemote)
            } else {
                invalid("snapshot resolver remote source requires a remote"@)
            },
        }
    }
}

pub fn resolve_snapshot_once(empty: bool, source: RepoSnapshotResolveSource, has_remote: bool) -> (r: Result<
    HydrateStep,
    CommandError,
>)
    ensures
        match r {
            Ok(step) => hydrate_step(empty, source, has_remote) == Ok::<_, CommandError<Seq<char>>>(
                step,
            ),
            Err(e) => hydrate_step(empty, source, has_remote) == Err::<HydrateStep, _>(e@),
        },
{
    if empty {
        return Ok(HydrateStep::Nothing);
    }
    match source {
        RepoSnapshotResolveSource::Local => Ok(HydrateStep::FetchLogs),
        RepoSnapshotResolveSource::Remote => {
            if has_remote {
                Ok(HydrateStep::FromRemote)
            } else {
                Err(invalid_command("snapshot resolver remote source requires a remote"))
            }
        },
    }
}

/// The first `n` commits of a range with the hashes that the storage holds.
pub open spec fn stored_commits(
    start: u64,
    log: Seq<char>,
    stored: Seq<Option<Seq<char>>>,
    n: int,
) -> Result<Seq<StorageCommitView>, CommandError<Seq<char>>>
    decreases n,
{
    if n <= 0 {
        Ok(Seq::empty())
    } else {
        match stored_commits(start, log, stored, n - 1) {
            Err(e) => Err(e),
            Ok(commits) => match stored[n - 1] {
                None => invalid(
                    "snapshot references missing storage commit "@ + place(log, start + n - 1),
                ),
                Some(hash) => Ok(
                    commits.push(
                        StorageCommit { lsn: (start + n - 1) as u64, commit_hash: hash },
                    ),
                ),
            },
        }
    }
}

/// The first `n` ranges of a snapshot with the hashes that the storage holds.
pub open spec fn stored_ranges(
    ranges: Seq<RepoLogRangeView>,
    logs: Seq<Seq<char>>,
    stored: Seq<Seq<Option<Seq<char>>>>,
    n: int,
) -> Result<Seq<RepoLogRangeView>, CommandError<Seq<char>>>
    decreases n,
{
    if n <= 0 {
        Ok(Seq::empty())
    } else {
        match stored_ranges(ranges, logs, stored, n - 1) {
            Err(e) => Err(e),
            Ok(done) => match stored_commits(
                ranges[n - 1].start,
                logs[n - 1],
                stored[n - 1],
                span(ranges[n - 1]),
            ) {
                Err(e) => Err(e),
                Ok(commits) => Ok(
                    done.push(
                        RepoLogRange {
                            log: ranges[n - 1].log,
                            start: ranges[n - 1].start,
                            end: ranges[n - 1].end,
                            commits,
                        },
                    ),
                ),
            },
        }
    }
}

fn list_stored_commits(range: &RepoLogRange, log: &str, stored: &Vec<Option<String>>) -> (r: Result<
    Vec<StorageCommit>,
    CommandError,
>)
    requires
        stored@.len() == span(range@),
    ensures
        match r {
            Ok(commits) => stored_commits(
                range.start,
                log@,
                hash_views(stored@),
                span(range@),
            ) == Ok::<
                _,
                CommandError<Seq<char>>,
            >(views(commits@)),
            Err(e) => stored_commits(range.start, log@, hash_views(stored@), span(range@)) == Err::<
                Seq<StorageCommitView>,
                _,
            >(e@),
        },
{
    let ghost hs = hash_views(stored@);
    let mut out: Vec<StorageCommit> = Vec::new();
    let n: usize = stored.len();
    let mut i: usize = 0;
    proof {
        assert(views(out@) =~= Seq::empty());
    }
    while i < n
        invariant
            n == stored@.len(),
            n == span(range@),
            i <= n,
            hs == hash_views(stored@),
            stored_commits(range.start, log@, hs, i as int) == Ok::<_, CommandError<Seq<char>>>(
                views(out@),
            ),
        decreases n - i,
    {
        let lsn: u64 = range.start + i as u64;
        proof {
            assert(hs[i as int] == text_option(stored@[i as int]));
        }
        match &stored[i] {
            None => {
                let shown = show_place(log, lsn);
                proof {
                    lemma_failed_commits(range.start, log@, hs, i + 1, n as int);
                }
                return Err(
                    CommandError::InvalidCommand(
                        cat2("snapshot references missing storage commit ", shown.as_str()),
                    ),
                );
            },
            Some(hash) => {
                let c = StorageCommit { lsn, commit_hash: hash.clone() };
                proof {
                    assert(views(out@.push(c)) =~= views(out@).push(c@));
                }
                out.push(c);
            },
        }
        i += 1;
    }
    Ok(out)
}

proof fn lemma_failed_commits(
    start: u64,
    log: Seq<char>,
    stored: Seq<Option<Seq<char>>>,
    k: int,
    n: int,
)
    requires
        0 <= k <= n,
        stored_commits(start, log, stored, k) is Err,
    ensures
        stored_commits(start, log, stored, n) == stored_commits(start, log, stored, k),
    decreases n - k,
{
    if k < n {
        lemma_failed_commits(start, log, stored, k, n - 1);
    }
}

proof fn lemma_failed_ranges(
    ranges: Seq<RepoLogRangeView>,
    logs: Seq<Seq<char>>,
    stored: Seq<Seq<Option<Seq<char>>>>,
    k: int,
    n: int,
)
    requires
        0 <= k <= n,
        stored_ranges(ranges, logs, stored, k) is Err,
    ensures
        stored_ranges(ranges, logs, stored, n) == stored_ranges(ranges, logs, stored, k),
    decreases n - k,
{
    if k < n {
        lemma_failed_ranges(ranges, logs, stored, k, n - 1);
    }
}

/// A snapshot with the hashes that the storage holds for the commits of its ranges; `logs` are the
/// logs of the ranges as they are shown.
pub fn repo_snapshot_with_commit_hashes(
    page_count: u32,
    ranges: &Vec<RepoLogRange>,
    logs: &Vec<String>,
    stored: &Vec<Vec<Option<String>>>,
) -> (r: Result<RepoSnapshot, CommandError>)
    requires
        logs@.len() == ranges@.len(),
        stored@.len() == ranges@.len(),
        forall|i: int|
            0 <= i < ranges@.len() ==> (#[trigger] stored@[i])@.len() == span(ranges@[i]@),
    ensures
        match r {
            Ok(s) => s.page_count == page_count && stored_ranges(
                views(ranges@),
                texts(logs@),
                hash_lists(stored@),
                ranges@.len() as int,
            ) == Ok::<_, CommandError<Seq<char>>>(s@.ranges),
            Err(e) => stored_ranges(
                views(ranges@),
                texts(logs@),
                hash_lists(stored@),
                ranges@.len() as int,
            ) == Err::<Seq<RepoLogRangeView>, _>(e@),
        },
{
    let ghost rs = views(ranges@);
    let ghost ls = texts(logs@);
    let ghost hs = hash_lists(stored@);
    let mut out: Vec<RepoLogRange> = Vec::new();
    let n: usize = ranges.len();
    let mut i: usize = 0;
    proof {
        assert(views(out@) =~= Seq::empty());
    }
    while i < n
        invariant
            n == ranges@.len(),
            n == logs@.len(),
            n == stored@.len(),
            i <= n,
            rs == views(ranges@),
            ls == texts(logs@),
            hs == hash_lists(stored@),
            forall|i: int|
                0 <= i < ranges@.len() ==> (#[trigger] stored@[i])@.len() == span(ranges@[i]@),
            stored_ranges(rs, ls, hs, i as int) == Ok::<_, CommandError<Seq<char>>>(views(out@)),
        decreases n - i,
    {
        proof {
            assert(rs[i as int] == ranges@[i as int]@);
            assert(ls[i as int] == logs@[i as int]@);
            assert(hs[i as int] == hash_views(stored@[i as int]@));
        }
        match list_stored_commits(&ranges[i], logs[i].as_str(), &stored[i]) {
            Err(e) => {
                proof {
                    lemma_failed_ranges(rs, ls, hs, i + 1, n as int);
                }
                return Err(e);
            },
            Ok(commits) => {
                let range = RepoLogRange {
                    log: ranges[i].log.clone(),
                    start: ranges[i].start,
                    end: ranges[i].end,
                    commits,
                };
                proof {
                    assert(views(out@.push(range)) =~= views(out@).push(range@));
                }
                out.push(range);
            },
        }
        i += 1;
    }
    Ok(RepoSnapshot { page_count, ranges: out })
}

proof fn lemma_stored_commits(start: u64, log: Seq<char>, stored: Seq<Option<Seq<char>>>, n: int)
    requires
        0 <= n,
        start + n - 1 <= u64::MAX,
        stored_commits(start, log, stored, n) is Ok,
    ensures
        ({
            let commits = stored_commits(start, log, stored, n)->Ok_0;
            &&& commits.len() == n
            &&& forall|k: int|
                0 <= k < n ==> (#[trigger] commits[k]).lsn == start + k && stored[k] == Some(
                    commits[k].commit_hash,
                )
        }),
    decreases n,
{
    if n > 0 {
        lemma_stored_commits(start, log, stored, n - 1);
    }
}

proof fn lemma_fresh_range(
    range: RepoLogRangeView,
    log: Seq<char>,
    stored: Seq<Option<Seq<char>>>,
    policy: SnapshotHashPolicy,
    n: int,
)
    requires
        0 <= n <= range.commits.len(),
        forall|k: int|
            0 <= k < n ==> (#[trigger] range.commits[k]).lsn == range.start + k && stored[k] == Some(
                range.commits[k].commit_hash,
            ),
    ensures
        range_check(range, log, stored, policy, n) == Ok::<nat, CommandError<Seq<char>>>(0),
    decreases n,
{
    if n > 0 {
        lemma_fresh_range(range, log, stored, policy, n - 1);
        assert(range.commits[n - 1].lsn == range.start + (n - 1));
    }
}

/// A snapshot that was made with the hashes of the storage is found right there, without a single
/// hash that differs.
pub proof fn law_stored_snapshot_verifies(
    ranges: Seq<RepoLogRangeView>,
    logs: Seq<Seq<char>>,
    stored: Seq<Seq<Option<Seq<char>>>>,
    policy: SnapshotHashPolicy,
    n: int,
)
    requires
        0 <= n <= ranges.len(),
        stored_ranges(ranges, logs, stored, n) is Ok,
    ensures
        hashes_check(stored_ranges(ranges, logs, stored, n)->Ok_0, logs, stored, policy, n) == Ok::<
            nat,
            CommandError<Seq<char>>,
        >(0),
        stored_ranges(ranges, logs, stored, n)->Ok_0.len() == n,
    decreases n,
{
    if n > 0 {
        law_stored_snapshot_verifies(ranges, logs, stored, policy, n - 1);
        let before = stored_ranges(ranges, logs, stored, n - 1)->Ok_0;
        let all = stored_ranges(ranges, logs, stored, n)->Ok_0;
        let range = all[n - 1];
        lemma_stored_commits(
            ranges[n - 1].start,
            logs[n - 1],
            stored[n - 1],
            span(ranges[n - 1]),
        );
        lemma_fresh_range(range, logs[n - 1], stored[n - 1], policy, span(range));
        lemma_check_prefix(before, all, logs, stored, policy, n - 1);
    }
}

proof fn lemma_check_prefix(
    a: Seq<RepoLogRangeView>,
    b: Seq<RepoLogRangeView>,
    logs: Seq<Seq<char>>,
    stored: Seq<Seq<Option<Seq<char>>>>,
    policy: SnapshotHashPolicy,
    n: int,
)
    requires
        n <= a.len(),
        n <= b.len(),
        forall|i: int| 0 <= i < n ==> #[trigger] a[i] == b[i],
    ensures
        hashes_check(a, logs, stored, policy, n) == hashes_check(b, logs, stored, policy, n),
    decreases n,
{
    if n > 0 {
        lemma_check_prefix(a, b, logs, stored, policy, n - 1);
        assert(a[n - 1] == b[n - 1]);
    }
}

/// The states of a path in the parents of a commit, in the order of the parents.
pub open spec fn states_of(files: Seq<PathFileView>, path: Seq<char>) -> Seq<CommitFileStateView>
    decreases files.len(),
{
    if files.len() == 0 {
        Seq::empty()
    } else {
        let before = states_of(files.drop_last(), path);
        if files.last().path == path {
            before.push(files.last().state)
        } else {
            before
        }
    }
}

/// The states of every path, by the path.
pub open spec fn holds_states(m: KeyMap<Vec<CommitFileState>>, files: Seq<PathFileView>) -> bool {
    &&& m.wf()
    &&& forall|k: Seq<char>| #[trigger] m@.contains_key(k) == (states_of(files, k).len() > 0)
    &&& forall|k: Seq<char>| #[trigger]
        m@.contains_key(k) ==> views(m@[k]@) == states_of(files, k)
}

/// Groups the databases of the parents of a commit, one parent after the other, by their paths.
pub fn repo_commit_parent_file_states(files: Vec<PathFile>) -> (r: KeyMap<Vec<CommitFileState>>)
    ensures
        holds_states(r, views(files@)),
{
    let ghost all = views(files@);
    let mut m: KeyMap<Vec<CommitFileState>> = KeyMap::new();
    proof {
        assert(all.take(0) =~= Seq::empty());
    }
    for e in it: files
        invariant
            all == views(it.seq()),
            holds_states(m, all.take(it.index() as int)),
    {
        let ghost i = it.index() as int;
        proof {
            assert(all.take(i + 1).drop_last() =~= all.take(i));
            assert(all.take(i + 1).last() == e@);
        }
        let ghost was = m@;
        let path = e.path;
        let mut states: Vec<CommitFileState> = match m.take(path.as_str()) {
            Some(states) => states,
            None => {
                let states: Vec<CommitFileState> = Vec::new();
                proof {
                    assert(!was.contains_key(path@));
                    assert(states_of(all.take(i), path@).len() == 0);
                    assert(views(states@) =~= states_of(all.take(i), path@));
                }
                states
            },
        };
        let ghost before_push = states@;
        states.push(e.state);
        proof {
            assert(views(states@) =~= views(before_push).push(e@.state));
        }
        m.put(path.as_str(), states);
        proof {
            assert(m@ =~= was.insert(path@, states));
        }
    }
    proof {
        assert(all.take(all.len() as int) =~= all);
    }
    m
}

/// The commits that a push of a branch stops at: the one that the remote is known to have, or all
/// that are reachable from its branches.
pub fn publish_stops(stop_at: Option<String>, reachable: Vec<String>) -> (r: Vec<String>)
    ensures
        texts(r@) == match text_option(stop_at) {
            Some(id) => seq![id],
            None => texts(reachable@),
        },
{
    match stop_at {
        Some(id) => {
            let v = vec![id];
            proof {
                assert(texts(v@) =~= seq![id@]);
            }
            v
        },
        None => reachable,
    }
}

/// The names of the branches that have a commit.
pub open spec fn born_branches(branches: Seq<BranchInfoView>) -> Seq<Seq<char>>
    decreases branches.len(),
{
    if branches.len() == 0 {
        Seq::empty()
    } else {
        let before = born_branches(branches.drop_last());
        if branches.last().target is Some {
            before.push(branches.last().name)
        } else {
            before
        }
    }
}

/// The branches that a push of everything takes along.
pub fn publish_repo_all_branches(branches: &Vec<BranchInfo>) -> (r: Vec<String>)
    ensures
        texts(r@) == born_branches(views(branches@)),
{
    let ghost all = views(branches@);
    let mut out: Vec<String> = Vec::new();
    let n: usize = branches.len();
    let mut i: usize = 0;
    proof {
        assert(all.take(0) =~= Seq::empty());
        assert(texts(out@) =~= Seq::empty());
    }
    while i < n
        invariant
            n == branches@.len(),
            i <= n,
            all == views(branches@),
            texts(out@) == born_branches(all.take(i as int)),
        decreases n - i,
    {
        proof {
            assert(all.take(i + 1).drop_last() =~= all.take(i as int));
            assert(all.take(i + 1).last() == branches@[i as int]@);
        }
        if branches[i].target.is_some() {
            let name = branches[i].name.clone();
            proof {
                lemma_texts_push(out@, name);
            }
            out.push(name);
        }
        i += 1;
    }
    proof {
        assert(all.take(n as int) =~= all);
    }
    out
}

} // verus!
