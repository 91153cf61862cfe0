//! Snapshots: which commits of the storage logs they need, and whether those are the right ones.
use vstd::prelude::*;

use crate::error::{invalid, seen, CommandError};
use crate::model::{CommitObject, CommitObjectView, RepoLogRange, RepoLogRangeView, RepoSnapshot};
use crate::number::{decimal, show_u64};
use crate::text::{cat2, cat4, cat5, copy_texts, same, texts};

verus! {

/// What happens where a stored commit has another hash than the snapshot names.
#[derive(Debug, Clone, Copy, PartialEq, Eq, Structural)]
pub enum SnapshotHashPolicy {
    Strict,
    AllowHydratedMismatch,
}

#[derive(Debug, Clone, Copy, PartialEq, Eq, Structural)]
pub enum RepoSnapshotPurpose {
    Checkout,
    Diff,
    Export,
    Merge,
    Push,
    Reset,
}

#[derive(Debug, Clone, Copy, PartialEq, Eq, Structural)]
pub enum RepoSnapshotRemoteMode {
    LocalOnly,
    Remote,
    LocalThenRemote,
}

#[derive(Debug, Clone, Copy, PartialEq, Eq, Structural)]
pub enum RepoSnapshotResolveSource {
    Local,
    Remote,
}

#[derive(Debug, Clone, Copy, PartialEq, Eq, Structural)]
pub struct RepoSnapshotResolvePolicy {
    pub purpose: RepoSnapshotPurpose,
    pub remote_mode: RepoSnapshotRemoteMode,
    pub hash_policy: SnapshotHashPolicy,
    /// The snapshot is rewritten with the hashes that the storage holds.
    pub normalize: bool,
}

/// A given remote is used; without one nothing but the local storage is.
pub open spec fn mode_for(has_remote: bool) -> RepoSnapshotRemoteMode {
    if has_remote {
        RepoSnapshotRemoteMode::Remote
    } else {
        RepoSnapshotRemoteMode::LocalOnly
    }
}

impl RepoSnapshotResolvePolicy {
    /// Every hash must match, and the snapshot stays as it is.
    pub fn strict(has_remote: bool, purpose: RepoSnapshotPurpose) -> (r: RepoSnapshotResolvePolicy)
        ensures
            r == (RepoSnapshotResolvePolicy {
                purpose,
                remote_mode: mode_for(has_remote),
                hash_policy: SnapshotHashPolicy::Strict,
                normalize: false,
            }),
    {
        RepoSnapshotResolvePolicy {
            purpose,
            remote_mode: if has_remote {
                RepoSnapshotRemoteMode::Remote
            } else {
                RepoSnapshotRemoteMode::LocalOnly
            },
            hash_policy: SnapshotHashPolicy::Strict,
            normalize: false,
        }
    }

    /// The snapshot is rewritten unless every hash must match.
    pub fn normalizing(
        has_remote: bool,
        purpose: RepoSnapshotPurpose,
        hash_policy: SnapshotHashPolicy,
    ) -> (r: RepoSnapshotResolvePolicy)
        ensures
            r == (RepoSnapshotResolvePolicy {
                purpose,
                remote_mode: mode_for(has_remote),
                hash_policy,
                normalize: hash_policy != SnapshotHashPolicy::Strict,
            }),
    {
        RepoSnapshotResolvePolicy {
            purpose,
            remote_mode: if has_remote {
                RepoSnapshotRemoteMode::Remote
            } else {
                RepoSnapshotRemoteMode::LocalOnly
            },
            hash_policy,
            normalize: hash_policy != SnapshotHashPolicy::Strict,
        }
    }

    /// The local storage is tried first, then the remote.
    pub fn local_then_remote(purpose: RepoSnapshotPurpose, hash_policy: SnapshotHashPolicy) -> (r:
        RepoSnapshotResolvePolicy)
        ensures
            r == (RepoSnapshotResolvePolicy {
                purpose,
                remote_mode: RepoSnapshotRemoteMode::LocalThenRemote,
                hash_policy,
                normalize: false,
            }),
    {
        RepoSnapshotResolvePolicy {
            purpose,
            remote_mode: RepoSnapshotRemoteMode::LocalThenRemote,
            hash_policy,
            normalize: false,
        }
    }

    /// Where the snapshot is looked for first.
    pub open spec fn first(self) -> RepoSnapshotResolveSource {
        if self.remote_mode == RepoSnapshotRemoteMode::Remote {
            RepoSnapshotResolveSource::Remote
        } else {
            RepoSnapshotResolveSource::Local
        }
    }

    pub fn first_source(&self) -> (r: RepoSnapshotResolveSource)
        ensures
            r == self.first(),
    {
        if self.remote_mode == RepoSnapshotRemoteMode::Remote {
            RepoSnapshotResolveSource::Remote
        } else {
            RepoSnapshotResolveSource::Local
        }
    }

    /// Whether the remote is tried after the first place failed.
    pub fn tries_remote_next(&self, has_remote: bool) -> (r: bool)
        ensures
            r == (self.remote_mode == RepoSnapshotRemoteMode::LocalThenRemote && has_remote),
    {
        self.remote_mode == RepoSnapshotRemoteMode::LocalThenRemote && has_remote
    }

    /// Whether the snapshot is rewritten with the hashes that the storage holds.
    pub fn rewrites(&self) -> (r: bool)
        ensures
            r == (self.normalize && self.hash_policy != SnapshotHashPolicy::Strict),
    {
        self.normalize && self.hash_policy != SnapshotHashPolicy::Strict
    }
}

/// The policy that a given remote calls for: what comes from it may have other hashes.
pub fn hash_policy_for(has_remote: bool) -> (r: SnapshotHashPolicy)
    ensures
        r == if has_remote {
            SnapshotHashPolicy::AllowHydratedMismatch
        } else {
            SnapshotHashPolicy::Strict
        },
{
    if has_remote {
        SnapshotHashPolicy::AllowHydratedMismatch
    } else {
        SnapshotHashPolicy::Strict
    }
}

/// What is said where neither the local storage nor the remote could give a snapshot.
pub fn both_failed(local_err: &str, remote_err: &str) -> (r: CommandError)
    ensures
        r@ == CommandError::InvalidCommand(
            "local snapshot hydrate failed: "@ + local_err@
                + "; remote snapshot hydrate failed: "@ + remote_err@,
        ),
{
    CommandError::InvalidCommand(
        cat4(
            "local snapshot hydrate failed: ",
            local_err,
            "; remote snapshot hydrate failed: ",
            remote_err,
        ),
    )
}

/// How a place in a log is shown.
pub open spec fn place(log: Seq<char>, lsn: int) -> Seq<char> {
    log + "/"@ + decimal(lsn as nat)
}

pub fn show_place(log: &str, lsn: u64) -> (r: String)
    ensures
        r@ == place(log@, lsn as int),
{
    let n = show_u64(lsn);
    let mut out = cat2(log, "/");
    out = cat2(out.as_str(), n.as_str());
    out
}

/// Whether the hash of one commit differs, or why the snapshot is refused: `k` is the place of the
/// commit in its range, `stored` the hash that the storage holds, and `log` how the log is shown.
pub open spec fn commit_check(
    range: RepoLogRangeView,
    log: Seq<char>,
    k: int,
    stored: Option<Seq<char>>,
    policy: SnapshotHashPolicy,
) -> Result<bool, CommandError<Seq<char>>> {
    let lsn = range.start + k;
    if k >= range.commits.len() || range.commits[k].lsn > lsn {
        invalid("snapshot references missing storage commit hash for "@ + place(log, lsn))
    } else if range.commits[k].lsn < lsn {
        invalid(
            "snapshot storage commit hash out of order for "@ + log + ": expected LSN "@ + decimal(
                lsn as nat,
            ) + ", got "@ + decimal(range.commits[k].lsn as nat),
        )
    } else {
        let expected = range.commits[k].commit_hash;
        match stored {
            None => invalid("snapshot references missing storage commit "@ + place(log, lsn)),
            Some(actual) => if actual == expected {
                Ok(false)
            } else if policy == SnapshotHashPolicy::Strict {
                invalid(
                    "snapshot storage commit hash mismatch for "@ + place(log, lsn)
                        + ": expected "@ + expected + ", got "@ + actual,
                )
            } else {
                Ok(true)
            },
        }
    }
}

/// The hashes that differ among the first `n` commits of a range.
pub open spec fn range_check(
    range: RepoLogRangeView,
    log: Seq<char>,
    stored: Seq<Option<Seq<char>>>,
    policy: SnapshotHashPolicy,
    n: int,
) -> Result<nat, CommandError<Seq<char>>>
    decreases n,
{
    if n <= 0 {
        Ok(0)
    } else {
        match range_check(range, log, stored, policy, n - 1) {
            Err(e) => Err(e),
            Ok(count) => match commit_check(range, log, n - 1, stored[n - 1], policy) {
                Err(e) => Err(e),
                Ok(differs) => Ok(
                    if differs {
                        count + 1
                    } else {
                        count
                    },
                ),
            },
        }
    }
}

/// The number of commits that a range spans.
pub open spec fn span(range: RepoLogRangeView) -> int {
    if range.start <= range.end {
        range.end - range.start + 1
    } else {
        0
    }
}

/// The hashes of a whole range that differ; a range names no commit beyond its end.
pub open spec fn whole_range_check(
    range: RepoLogRangeView,
    log: Seq<char>,
    stored: Seq<Option<Seq<char>>>,
    policy: SnapshotHashPolicy,
) -> Result<nat, CommandError<Seq<char>>> {
    match range_check(range, log, stored, policy, span(range)) {
        Err(e) => Err(e),
        Ok(count) => if range.commits.len() > span(range) {
            invalid(
                "snapshot references extra storage commit hash for "@ + place(
                    log,
                    range.commits[span(range)].lsn as int,
                ) + " outside "@ + decimal(range.start as nat) + "..="@ + decimal(
                    range.end as nat,
                ),
            )
        } else {
            Ok(count)
        },
    }
}

/// The hashes of the first `n` ranges of a snapshot that differ.
pub open spec fn hashes_check(
    ranges: Seq<RepoLogRangeView>,
    logs: Seq<Seq<char>>,
    stored: Seq<Seq<Option<Seq<char>>>>,
    policy: SnapshotHashPolicy,
    n: int,
) -> Result<nat, CommandError<Seq<char>>>
    decreases n,
{
    if n <= 0 {
        Ok(0)
    } else {
        match hashes_check(ranges, logs, stored, policy, n - 1) {
            Err(e) => Err(e),
            Ok(count) => match whole_range_check(
                ranges[n - 1],
                logs[n - 1],
                stored[n - 1],
                policy,
            ) {
                Err(e) => Err(e),
                Ok(more) => Ok(count + more),
            },
        }
    }
}

/// The hashes of optional texts.
pub open spec fn hash_views(v: Seq<Option<String>>) -> Seq<Option<Seq<char>>> {
    Seq::new(v.len(), |i: int| crate::error::text_option(v[i]))
}

pub open spec fn hash_lists(v: Seq<Vec<Option<String>>>) -> Seq<Seq<Option<Seq<char>>>> {
    Seq::new(v.len(), |i: int| hash_views(v[i]@))
}

fn check_commit(
    range: &RepoLogRange,
    log: &str,
    k: usize,
    stored: &Option<String>,
    policy: SnapshotHashPolicy,
) -> (r: Result<bool, CommandError>)
    requires
        range.start + k <= range.end,
    ensures
        seen(r) == commit_check(
            range@,
            log@,
            k as int,
            crate::error::text_option(*stored),
            policy,
        ),
{
    let lsn: u64 = range.start + k as u64;
    if k >= range.commits.len() || range.commits[k].lsn > lsn {
        let at = show_place(log, lsn);
        return Err(
            CommandError::InvalidCommand(
                cat2("snapshot references missing storage commit hash for ", at.as_str()),
            ),
        );
    }
    let commit = &range.commits[k];
    proof {
        assert(range@.commits[k as int] == commit@);
    }
    if commit.lsn < lsn {
        let wanted = show_u64(lsn);
        let found = show_u64(commit.lsn);
        let head = cat4(
            "snapshot storage commit hash out of order for ",
            log,
            ": expected LSN ",
            wanted.as_str(),
        );
        let tail = cat2(", got ", found.as_str());
        let message = cat2(head.as_str(), tail.as_str());
        proof {
            assert(message@ =~= "snapshot storage commit hash out of order for "@ + log@
                + ": expected LSN "@ + decimal(lsn as nat) + ", got "@ + decimal(
                commit.lsn as nat,
            ));
        }
        return Err(CommandError::InvalidCommand(message));
    }
    match stored {
        None => {
            let at = show_place(log, lsn);
            Err(
                CommandError::InvalidCommand(
                    cat2("snapshot references missing storage commit ", at.as_str()),
                ),
            )
        },
        Some(actual) => {
            if same(actual.as_str(), commit.commit_hash.as_str()) {
                Ok(false)
            } else if policy == SnapshotHashPolicy::Strict {
                let at = show_place(log, lsn);
                let head = cat2("snapshot storage commit hash mismatch for ", at.as_str());
                Err(
                    CommandError::InvalidCommand(
                        cat5(
                            head.as_str(),
                            ": expected ",
                            commit.commit_hash.as_str(),
                            ", got ",
                            actual.as_str(),
                        ),
                    ),
                )
            } else {
                Ok(true)
            }
        },
    }
}

proof fn lemma_range_check_err(
    range: RepoLogRangeView,
    log: Seq<char>,
    stored: Seq<Option<Seq<char>>>,
    policy: SnapshotHashPolicy,
    k: int,
    n: int,
)
    requires
        0 <= k <= n,
        range_check(range, log, stored, policy, k) is Err,
    ensures
        range_check(range, log, stored, policy, n) == range_check(range, log, stored, policy, k),
    decreases n - k,
{
    if k < n {
        lemma_range_check_err(range, log, stored, policy, k, n - 1);
    }
}

fn check_range(
    range: &RepoLogRange,
    log: &str,
    stored: &Vec<Option<String>>,
    policy: SnapshotHashPolicy,
) -> (r: Result<usize, CommandError>)
    requires
        stored@.len() == span(range@),
    ensures
        match r {
            Ok(count) => whole_range_check(range@, log@, hash_views(stored@), policy) == Ok::<
                _,
                CommandError<Seq<char>>,
            >(count as nat) && count <= stored@.len(),
            Err(e) => whole_range_check(range@, log@, hash_views(stored@), policy) == Err::<
                nat,
                _,
            >(e@),
        },
{
    let ghost hashes = hash_views(stored@);
    let n: usize = stored.len();
    let mut count: usize = 0;
    let mut k: usize = 0;
    while k < n
        invariant
            k <= n,
            n == stored@.len(),
            n == span(range@),
            hashes == hash_views(stored@),
            range_check(range@, log@, hashes, policy, k as int) == Ok::<
                _,
                CommandError<Seq<char>>,
            >(count as nat),
            count <= k,
        decreases n - k,
    {
        proof {
            assert(hashes[k as int] == crate::error::text_option(stored@[k as int]));
        }
        match check_commit(range, log, k, &stored[k], policy) {
            Ok(differs) => {
                if differs {
                    count += 1;
                }
            },
            Err(e) => {
                proof {
                    lemma_range_check_err(range@, log@, hashes, policy, k + 1, n as int);
                }
                return Err(e);
            },
        }
        k += 1;
    }
    if range.commits.len() > n {
        proof {
            assert(range@.commits[n as int] == range.commits@[n as int]@);
        }
        let at = show_place(log, range.commits[n].lsn);
        let from = show_u64(range.start);
        let to = show_u64(range.end);
        let head = cat2("snapshot references extra storage commit hash for ", at.as_str());
        return Err(
            CommandError::InvalidCommand(
                cat5(head.as_str(), " outside ", from.as_str(), "..=", to.as_str()),
            ),
        );
    }
    Ok(count)
}

proof fn lemma_hashes_check_err(
    ranges: Seq<RepoLogRangeView>,
    logs: Seq<Seq<char>>,
    stored: Seq<Seq<Option<Seq<char>>>>,
    policy: SnapshotHashPolicy,
    k: int,
    n: int,
)
    requires
        0 <= k <= n,
        hashes_check(ranges, logs, stored, policy, k) is Err,
    ensures
        hashes_check(ranges, logs, stored, policy, n) == hashes_check(
            ranges,
            logs,
            stored,
            policy,
            k,
        ),
    decreases n - k,
{
    if k < n {
        lemma_hashes_check_err(ranges, logs, stored, policy, k, n - 1);
    }
}

/// The commits that the first `n` ranges span together.
pub open spec fn spans(ranges: Seq<RepoLogRangeView>, n: int) -> int
    decreases n,
{
    if n <= 0 {
        0
    } else {
        spans(ranges, n - 1) + span(ranges[n - 1])
    }
}

proof fn lemma_spans_grow(ranges: Seq<RepoLogRangeView>, k: int, n: int)
    requires
        0 <= k <= n,
    ensures
        spans(ranges, k) <= spans(ranges, n),
    decreases n - k,
{
    if k < n {
        lemma_spans_grow(ranges, k, n - 1);
    }
}

/// Holds the commits that a snapshot names against those of the storage, and counts the hashes that
/// differ where that is allowed. `logs` are the logs of the ranges as they are shown, and `stored`
/// are the hashes that the storage holds for every commit that the ranges span.
pub fn verify_repo_snapshot_commit_hashes(
    snapshot: &RepoSnapshot,
    logs: &Vec<String>,
    stored: &Vec<Vec<Option<String>>>,
    policy: SnapshotHashPolicy,
) -> (r: Result<usize, CommandError>)
    requires
        logs@.len() == snapshot.ranges@.len(),
        stored@.len() == snapshot.ranges@.len(),
        forall|i: int|
            0 <= i < stored@.len() ==> (#[trigger] stored@[i])@.len() == span(snapshot.ranges@[i]@),
        spans(snapshot@.ranges, snapshot.ranges@.len() as int) <= usize::MAX,
    ensures
        match r {
            Ok(count) => hashes_check(
                snapshot@.ranges,
                texts(logs@),
                hash_lists(stored@),
                policy,
                snapshot.ranges@.len() as int,
            ) == Ok::<_, CommandError<Seq<char>>>(count as nat),
            Err(e) => hashes_check(
                snapshot@.ranges,
                texts(logs@),
                hash_lists(stored@),
                policy,
                snapshot.ranges@.len() as int,
            ) == Err::<nat, _>(e@),
        },
{
    let ghost ranges = snapshot@.ranges;
    let ghost names = texts(logs@);
    let ghost hashes = hash_lists(stored@);
    let n: usize = snapshot.ranges.len();
    let mut count: usize = 0;
    let mut i: usize = 0;
    while i < n
        invariant
            i <= n,
            n == snapshot.ranges@.len(),
            n == logs@.len(),
            n == stored@.len(),
            ranges == snapshot@.ranges,
            names == texts(logs@),
            hashes == hash_lists(stored@),
            forall|i: int|
                0 <= i < stored@.len() ==> (#[trigger] stored@[i])@.len() == span(
                    snapshot.ranges@[i]@,
                ),
            spans(ranges, n as int) <= usize::MAX,
            count <= spans(ranges, i as int),
            hashes_check(ranges, names, hashes, policy, i as int) == Ok::<
                _,
                CommandError<Seq<char>>,
            >(count as nat),
        decreases n - i,
    {
        proof {
            assert(ranges[i as int] == snapshot.ranges@[i as int]@);
            assert(names[i as int] == logs@[i as int]@);
            assert(hashes[i as int] == hash_views(stored@[i as int]@));
            assert(stored@[i as int]@.len() == span(snapshot.ranges@[i as int]@));
            lemma_spans_grow(ranges, i + 1, n as int);
        }
        match check_range(&snapshot.ranges[i], logs[i].as_str(), &stored[i], policy) {
            Ok(more) => {
                count += more;
            },
            Err(e) => {
                proof {
                    lemma_hashes_check_err(ranges, names, hashes, policy, i + 1, n as int);
                }
                return Err(e);
            },
        }
        i += 1;
    }
    Ok(count)
}

/// Under the strict policy a snapshot that is accepted has no hash that differs.
pub proof fn law_strict_allows_no_mismatch(
    ranges: Seq<RepoLogRangeView>,
    logs: Seq<Seq<char>>,
    stored: Seq<Seq<Option<Seq<char>>>>,
    n: int,
)
    ensures
        hashes_check(ranges, logs, stored, SnapshotHashPolicy::Strict, n) matches Ok(count)
            ==> count == 0,
    decreases n,
{
    if n > 0 {
        law_strict_allows_no_mismatch(ranges, logs, stored, n - 1);
        lemma_strict_range(ranges[n - 1], logs[n - 1], stored[n - 1], span(ranges[n - 1]));
    }
}

proof fn lemma_strict_range(
    range: RepoLogRangeView,
    log: Seq<char>,
    stored: Seq<Option<Seq<char>>>,
    n: int,
)
    ensures
        range_check(range, log, stored, SnapshotHashPolicy::Strict, n) matches Ok(count) ==> count
            == 0,
    decreases n,
{
    if n > 0 {
        lemma_strict_range(range, log, stored, n - 1);
    }
}

/// The parents of a commit: the list, or else the one parent.
pub open spec fn parent_ids(commit: CommitObjectView) -> Seq<Seq<char>> {
    if commit.parents.len() > 0 {
        commit.parents
    } else {
        match commit.parent {
            Some(parent) => seq![parent],
            None => Seq::empty(),
        }
    }
}

pub fn repo_commit_parent_ids(commit: &CommitObject) -> (r: Vec<String>)
    ensures
        texts(r@) == parent_ids(commit@),
{
    if commit.parents.len() > 0 {
        return copy_texts(&commit.parents);
    }
    let mut out: Vec<String> = Vec::new();
    if let Some(parent) = &commit.parent {
        let p = parent.clone();
        out.push(p);
        proof {
            assert(texts(out@) =~= seq![p@]);
        }
    } else {
        proof {
            assert(texts(out@) =~= Seq::<Seq<char>>::empty());
        }
    }
    out
}

} // verus!
