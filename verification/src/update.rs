//! The order of the steps of a command that replaces the worktree.
use vstd::prelude::*;

verus! {

/// A command that replaces the worktree.
#[derive(Debug, Clone, Copy, PartialEq, Eq, Structural)]
pub enum UpdateKind {
    Checkout,
    Switch,
    Merge,
    Pull,
    MergeAbort,
}

/// A step of such a command. A step that fails ends the command.
#[derive(Debug, Clone, Copy, PartialEq, Eq, Structural)]
pub enum UpdateStep {
    /// No other write transaction may be open.
    LockWorktree,
    OpenRepository,
    /// What the worktree becomes, and the commit that it comes from.
    MakePlan,
    /// Staged and unstaged changes stop the update, or are discarded where that is asked for.
    CheckWorkInProgress,
    /// No path that the repository does not know is overwritten.
    CheckUntracked,
    /// The stored databases of the plan are there.
    ResolveSnapshots,
    /// What was recorded of the conflicts of an earlier merge is forgotten.
    ClearResolutions,
    /// Every path of the plan can be replaced.
    Preflight,
    /// The branch and the index take the new state.
    Apply,
    /// The worktree takes the new state.
    WriteWorktree,
    /// The conflicts are put on record.
    RecordConflicts,
    /// The rows of the databases in conflict are merged.
    MergeRows,
}

/// The steps of a command in their order; with force, paths that the repository does not know may be
/// overwritten by a checkout or a switch.
pub open spec fn update_order(kind: UpdateKind, force: bool) -> Seq<UpdateStep> {
    match kind {
        UpdateKind::Checkout => if force {
            seq![
                UpdateStep::LockWorktree,
                UpdateStep::OpenRepository,
                UpdateStep::MakePlan,
                UpdateStep::CheckWorkInProgress,
                UpdateStep::ResolveSnapshots,
                UpdateStep::Preflight,
                UpdateStep::Apply,
                UpdateStep::WriteWorktree,
            ]
        } else {
            seq![
                UpdateStep::LockWorktree,
                UpdateStep::OpenRepository,
                UpdateStep::MakePlan,
                UpdateStep::CheckWorkInProgress,
                UpdateStep::CheckUntracked,
                UpdateStep::ResolveSnapshots,
                UpdateStep::Preflight,
                UpdateStep::Apply,
                UpdateStep::WriteWorktree,
            ]
        },
        UpdateKind::Switch => if force {
            seq![
                UpdateStep::LockWorktree,
                UpdateStep::OpenRepository,
                UpdateStep::MakePlan,
                UpdateStep::CheckWorkInProgress,
                UpdateStep::ResolveSnapshots,
                UpdateStep::Preflight,
                UpdateStep::Apply,
                UpdateStep::WriteWorktree,
            ]
        } else {
            seq![
                UpdateStep::LockWorktree,
                UpdateStep::OpenRepository,
                UpdateStep::MakePlan,
                UpdateStep::CheckWorkInProgress,
                UpdateStep::CheckUntracked,
                UpdateStep::ResolveSnapshots,
                UpdateStep::Preflight,
                UpdateStep::Apply,
                UpdateStep::WriteWorktree,
            ]
        },
        UpdateKind::Merge => seq![
            UpdateStep::OpenRepository,
            UpdateStep::CheckWorkInProgress,
            UpdateStep::ClearResolutions,
            UpdateStep::MakePlan,
            UpdateStep::ResolveSnapshots,
            UpdateStep::CheckUntracked,
            UpdateStep::Preflight,
            UpdateStep::Apply,
            UpdateStep::WriteWorktree,
            UpdateStep::RecordConflicts,
            UpdateStep::MergeRows,
        ],
        UpdateKind::Pull => seq![
            UpdateStep::OpenRepository,
            UpdateStep::LockWorktree,
            UpdateStep::CheckWorkInProgress,
            UpdateStep::MakePlan,
            UpdateStep::ResolveSnapshots,
            UpdateStep::CheckUntracked,
            UpdateStep::Preflight,
            UpdateStep::ClearResolutions,
            UpdateStep::Apply,
            UpdateStep::WriteWorktree,
            UpdateStep::MergeRows,
        ],
        UpdateKind::MergeAbort => seq![
            UpdateStep::OpenRepository,
            UpdateStep::MakePlan,
            UpdateStep::Preflight,
            UpdateStep::Apply,
            UpdateStep::WriteWorktree,
            UpdateStep::ClearResolutions,
        ],
    }
}

pub fn update_steps(kind: UpdateKind, force: bool) -> (r: Vec<UpdateStep>)
    ensures
        r@ == update_order(kind, force),
{
    let r: Vec<UpdateStep> = match kind {
        UpdateKind::Checkout => {
            if force {
                vec![
                    UpdateStep::LockWorktree,
                    UpdateStep::OpenRepository,
                    UpdateStep::MakePlan,
                    UpdateStep::CheckWorkInProgress,
                    UpdateStep::ResolveSnapshots,
                    UpdateStep::Preflight,
                    UpdateStep::Apply,
                    UpdateStep::WriteWorktree,
                ]
            } else {
                vec![
                    UpdateStep::LockWorktree,
                    UpdateStep::OpenRepository,
                    UpdateStep::MakePlan,
                    UpdateStep::CheckWorkInProgress,
                    UpdateStep::CheckUntracked,
                    UpdateStep::ResolveSnapshots,
                    UpdateStep::Preflight,
                    UpdateStep::Apply,
                    UpdateStep::WriteWorktree,
                ]
            }
        },
        UpdateKind::Switch => {
            if force {
                vec![
                    UpdateStep::LockWorktree,
                    UpdateStep::OpenRepository,
                    UpdateStep::MakePlan,
                    UpdateStep::CheckWorkInProgress,
                    UpdateStep::ResolveSnapshots,
                    UpdateStep::Preflight,
                    UpdateStep::Apply,
                    UpdateStep::WriteWorktree,
                ]
            } else {
                vec![
                    UpdateStep::LockWorktree,
                    UpdateStep::OpenRepository,
                    UpdateStep::MakePlan,
                    UpdateStep::CheckWorkInProgress,
                    UpdateStep::CheckUntracked,
                    UpdateStep::ResolveSnapshots,
                    UpdateStep::Preflight,
                    UpdateStep::Apply,
                    UpdateStep::WriteWorktree,
                ]
            }
        },
        UpdateKind::Merge => vec![
            UpdateStep::OpenRepository,
            UpdateStep::CheckWorkInProgress,
            UpdateStep::ClearResolutions,
            UpdateStep::MakePlan,
            UpdateStep::ResolveSnapshots,
            UpdateStep::CheckUntracked,
            UpdateStep::Preflight,
            UpdateStep::Apply,
            UpdateStep::WriteWorktree,
            UpdateStep::RecordConflicts,
            UpdateStep::MergeRows,
        ],
        UpdateKind::Pull => vec![
            UpdateStep::OpenRepository,
            UpdateStep::LockWorktree,
            UpdateStep::CheckWorkInProgress,
            UpdateStep::MakePlan,
            UpdateStep::ResolveSnapshots,
            UpdateStep::CheckUntracked,
            UpdateStep::Preflight,
            UpdateStep::ClearResolutions,
            UpdateStep::Apply,
            UpdateStep::WriteWorktree,
            UpdateStep::MergeRows,
        ],
        UpdateKind::MergeAbort => vec![
            UpdateStep::OpenRepository,
            UpdateStep::MakePlan,
            UpdateStep::Preflight,
            UpdateStep::Apply,
            UpdateStep::WriteWorktree,
            UpdateStep::ClearResolutions,
        ],
    };
    proof {
        assert(r@ =~= update_order(kind, force));
    }
    r
}

/// `a`, where it is done at all, is done before `b`.
pub open spec fn done_before(order: Seq<UpdateStep>, a: UpdateStep, b: UpdateStep) -> bool {
    forall|i: int, j: int|
        0 <= i < order.len() && 0 <= j < order.len() && #[trigger] order[i] == a && #[trigger] order[j] == b
            ==> i < j
}

/// The repository and the worktree change only after everything that can stop a command has been
/// looked at: changes at work, paths that are not known, the stored databases, and every path that
/// is replaced.
pub proof fn law_checks_come_before_changes(kind: UpdateKind, force: bool)
    ensures
        done_before(update_order(kind, force), UpdateStep::CheckWorkInProgress, UpdateStep::Apply),
        done_before(update_order(kind, force), UpdateStep::CheckUntracked, UpdateStep::Apply),
        done_before(update_order(kind, force), UpdateStep::ResolveSnapshots, UpdateStep::Apply),
        done_before(update_order(kind, force), UpdateStep::Preflight, UpdateStep::Apply),
        done_before(update_order(kind, force), UpdateStep::Apply, UpdateStep::WriteWorktree),
        done_before(update_order(kind, force), UpdateStep::WriteWorktree, UpdateStep::MergeRows),
        update_order(kind, force).contains(UpdateStep::Preflight),
        kind != UpdateKind::MergeAbort ==> update_order(kind, force).contains(
            UpdateStep::CheckWorkInProgress,
        ),
        !force && kind != UpdateKind::MergeAbort ==> update_order(kind, force).contains(
            UpdateStep::CheckUntracked,
        ),
{
    let order = update_order(kind, force);
    match kind {
        UpdateKind::Checkout => {
            if force {
                assert(order[5] == UpdateStep::Preflight);
                assert(order[3] == UpdateStep::CheckWorkInProgress);
            } else {
                assert(order[6] == UpdateStep::Preflight);
                assert(order[3] == UpdateStep::CheckWorkInProgress);
                assert(order[4] == UpdateStep::CheckUntracked);
            }
        },
        UpdateKind::Switch => {
            if force {
                assert(order[5] == UpdateStep::Preflight);
                assert(order[3] == UpdateStep::CheckWorkInProgress);
            } else {
                assert(order[6] == UpdateStep::Preflight);
                assert(order[3] == UpdateStep::CheckWorkInProgress);
                assert(order[4] == UpdateStep::CheckUntracked);
            }
        },
        UpdateKind::Merge => {
            assert(order[6] == UpdateStep::Preflight);
            assert(order[1] == UpdateStep::CheckWorkInProgress);
            assert(order[5] == UpdateStep::CheckUntracked);
        },
        UpdateKind::Pull => {
            assert(order[6] == UpdateStep::Preflight);
            assert(order[2] == UpdateStep::CheckWorkInProgress);
            assert(order[5] == UpdateStep::CheckUntracked);
        },
        UpdateKind::MergeAbort => {
            assert(order[2] == UpdateStep::Preflight);
        },
    }
}

} // verus!
