//! Replacing the worktree as one step: what is done in which order, and how it is undone.
use vstd::prelude::*;
use vstd::string::*;

use crate::error::{seen, CommandError};
use crate::model::{MergeOutcome, MergeOutcomeView};
use crate::number::{decimal, show_u64};
use crate::show::views;
use crate::text::{cat2, cat3, cat4, same, texts};

verus! {

/// The steps of a checkout, in their order.
#[derive(Debug, Clone, Copy, PartialEq, Eq, Structural)]
pub enum CheckoutStep {
    Preflight,
    PrepareBindings,
    RecordBindings,
    StageBackups,
    MaterializeSqlite,
    MaterializeArtifacts,
    ApplyBindings,
    DiscardBackups,
}

/// What follows a step of a checkout.
#[derive(Debug, Clone, Copy, PartialEq, Eq, Structural)]
pub enum CheckoutMove {
    Do(CheckoutStep),
    /// The checkout failed: every part that it changed is put back, in this order.
    Undo(UndoParts),
    Finished,
}

/// The parts that are put back: the ordinary files first, then the bindings, then the database
/// files.
#[derive(Debug, Clone, Copy, PartialEq, Eq, Structural)]
pub struct UndoParts {
    pub artifacts: bool,
    pub bindings: bool,
    pub backups: bool,
}

/// The step that follows a step.
pub open spec fn step_after(step: CheckoutStep) -> Option<CheckoutStep> {
    match step {
        CheckoutStep::Preflight => Some(CheckoutStep::PrepareBindings),
        CheckoutStep::PrepareBindings => Some(CheckoutStep::RecordBindings),
        CheckoutStep::RecordBindings => Some(CheckoutStep::StageBackups),
        CheckoutStep::StageBackups => Some(CheckoutStep::MaterializeSqlite),
        CheckoutStep::MaterializeSqlite => Some(CheckoutStep::MaterializeArtifacts),
        CheckoutStep::MaterializeArtifacts => Some(CheckoutStep::ApplyBindings),
        CheckoutStep::ApplyBindings => Some(CheckoutStep::DiscardBackups),
        CheckoutStep::DiscardBackups => None,
    }
}

/// The parts that a failed step makes it necessary to put back.
pub open spec fn undo_parts(failed: CheckoutStep) -> UndoParts {
    let moved = failed == CheckoutStep::MaterializeSqlite || failed
        == CheckoutStep::MaterializeArtifacts || failed == CheckoutStep::ApplyBindings;
    UndoParts {
        artifacts: failed == CheckoutStep::ApplyBindings,
        bindings: failed == CheckoutStep::ApplyBindings,
        backups: moved,
    }
}

/// What follows a step that did or did not succeed.
pub open spec fn checkout_move(step: CheckoutStep, ok: bool) -> CheckoutMove {
    if !ok {
        CheckoutMove::Undo(undo_parts(step))
    } else {
        match step_after(step) {
            Some(next) => CheckoutMove::Do(next),
            None => CheckoutMove::Finished,
        }
    }
}

pub fn next_checkout_move(step: CheckoutStep, ok: bool) -> (r: CheckoutMove)
    ensures
        r == checkout_move(step, ok),
{
    if !ok {
        let bindings: bool = step == CheckoutStep::ApplyBindings;
        let moved: bool = bindings || step == CheckoutStep::MaterializeSqlite || step
            == CheckoutStep::MaterializeArtifacts;
        return CheckoutMove::Undo(UndoParts { artifacts: bindings, bindings, backups: moved });
    }
    match step {
        CheckoutStep::Preflight => CheckoutMove::Do(CheckoutStep::PrepareBindings),
        CheckoutStep::PrepareBindings => CheckoutMove::Do(CheckoutStep::RecordBindings),
        CheckoutStep::RecordBindings => CheckoutMove::Do(CheckoutStep::StageBackups),
        CheckoutStep::StageBackups => CheckoutMove::Do(CheckoutStep::MaterializeSqlite),
        CheckoutStep::MaterializeSqlite => CheckoutMove::Do(CheckoutStep::MaterializeArtifacts),
        CheckoutStep::MaterializeArtifacts => CheckoutMove::Do(CheckoutStep::ApplyBindings),
        CheckoutStep::ApplyBindings => CheckoutMove::Do(CheckoutStep::DiscardBackups),
        CheckoutStep::DiscardBackups => CheckoutMove::Finished,
    }
}

/// `a` is done before `b`.
pub open spec fn step_comes_before(a: CheckoutStep, b: CheckoutStep) -> bool {
    place_of(a) < place_of(b)
}

pub open spec fn place_of(step: CheckoutStep) -> int {
    match step {
        CheckoutStep::Preflight => 0,
        CheckoutStep::PrepareBindings => 1,
        CheckoutStep::RecordBindings => 2,
        CheckoutStep::StageBackups => 3,
        CheckoutStep::MaterializeSqlite => 4,
        CheckoutStep::MaterializeArtifacts => 5,
        CheckoutStep::ApplyBindings => 6,
        CheckoutStep::DiscardBackups => 7,
    }
}

/// A step that fails leaves nothing of the steps before it: the database files that were moved
/// away, the ordinary files that were written, and the bindings are put back. Nothing is put back
/// that was not touched.
pub proof fn law_failed_checkout_is_undone(failed: CheckoutStep)
    requires
        failed != CheckoutStep::DiscardBackups,
    ensures
        checkout_move(failed, false) matches CheckoutMove::Undo(parts) && {
            &&& parts.backups == step_comes_before(CheckoutStep::StageBackups, failed)
            &&& parts.artifacts == step_comes_before(CheckoutStep::MaterializeArtifacts, failed)
            &&& parts.bindings == (failed == CheckoutStep::ApplyBindings)
        },
{
}

/// A database file that is moved away before a checkout; without a backup there was no file.
#[derive(Debug, Clone, PartialEq, Eq)]
pub struct BackupEntry<S = String> {
    pub path: S,
    pub backup: Option<usize>,
}

pub type BackupEntryView = BackupEntry<Seq<char>>;

impl View for BackupEntry<String> {
    type V = BackupEntryView;

    open spec fn view(&self) -> BackupEntryView {
        BackupEntry { path: self.path@, backup: self.backup }
    }
}

/// The backups of the database files at `keys`, of which those are there that `present` tells.
pub open spec fn backup_entries(keys: Seq<Seq<char>>, present: Seq<bool>) -> Seq<BackupEntryView> {
    Seq::new(
        keys.len(),
        |i: int|
            BackupEntry {
                path: keys[i],
                backup: if present[i] {
                    Some(i as usize)
                } else {
                    None
                },
            },
    )
}

pub fn plan_backups(keys: &Vec<String>, present: &Vec<bool>) -> (r: Vec<BackupEntry>)
    requires
        keys@.len() == present@.len(),
    ensures
        views(r@) == backup_entries(texts(keys@), present@),
{
    let mut out: Vec<BackupEntry> = Vec::new();
    let n: usize = keys.len();
    let mut i: usize = 0;
    while i < n
        invariant
            n == keys@.len(),
            n == present@.len(),
            i <= n,
            out@.len() == i,
            forall|k: int|
                0 <= k < i ==> #[trigger] out@[k]@ == backup_entries(texts(keys@), present@)[k],
        decreases n - i,
    {
        let backup: Option<usize> = if present[i] {
            Some(i)
        } else {
            None
        };
        out.push(BackupEntry { path: keys[i].clone(), backup });
        i += 1;
    }
    proof {
        assert(views(out@) =~= backup_entries(texts(keys@), present@));
    }
    out
}

/// What puts one database file back.
#[derive(Debug, Clone, PartialEq, Eq)]
#[allow(inconsistent_fields)]
pub enum BackupMove<S = String> {
    PutBack { backup: usize, path: S },
    Remove { path: S },
}

pub type BackupMoveView = BackupMove<Seq<char>>;

impl View for BackupMove<String> {
    type V = BackupMoveView;

    open spec fn view(&self) -> BackupMoveView {
        match self {
            BackupMove::PutBack { backup, path } => BackupMove::PutBack {
                backup: *backup,
                path: path@,
            },
            BackupMove::Remove { path } => BackupMove::Remove { path: path@ },
        }
    }
}

pub open spec fn move_of(e: BackupEntryView) -> BackupMoveView {
    match e.backup {
        Some(backup) => BackupMove::PutBack { backup, path: e.path },
        None => BackupMove::Remove { path: e.path },
    }
}

/// The files are put back in the reverse of the order in which they were moved away.
pub open spec fn moves_of(entries: Seq<BackupEntryView>) -> Seq<BackupMoveView> {
    Seq::new(entries.len(), |j: int| move_of(entries[entries.len() - 1 - j]))
}

pub fn restore_moves(entries: &Vec<BackupEntry>) -> (r: Vec<BackupMove>)
    ensures
        views(r@) == moves_of(views(entries@)),
{
    let mut out: Vec<BackupMove> = Vec::new();
    let n: usize = entries.len();
    let mut i: usize = 0;
    while i < n
        invariant
            n == entries@.len(),
            i <= n,
            out@.len() == i,
            forall|k: int| 0 <= k < i ==> #[trigger] out@[k]@ == moves_of(views(entries@))[k],
        decreases n - i,
    {
        let e = &entries[n - 1 - i];
        let m = match e.backup {
            Some(backup) => BackupMove::PutBack { backup, path: e.path.clone() },
            None => BackupMove::Remove { path: e.path.clone() },
        };
        out.push(m);
        i += 1;
    }
    proof {
        assert(views(out@) =~= moves_of(views(entries@)));
    }
    out
}

/// The database files of the worktree and the backups.
pub struct FileState {
    pub worktree: Map<Seq<char>, Seq<u8>>,
    pub backups: Map<usize, Seq<u8>>,
}

/// The files after the first `n` entries have been moved away.
pub open spec fn moved_away(f: FileState, entries: Seq<BackupEntryView>, n: int) -> FileState
    decreases n,
{
    if n <= 0 {
        f
    } else {
        let g = moved_away(f, entries, n - 1);
        match entries[n - 1].backup {
            Some(b) => FileState {
                worktree: g.worktree.remove(entries[n - 1].path),
                backups: g.backups.insert(b, g.worktree[entries[n - 1].path]),
            },
            None => g,
        }
    }
}

/// The files after one of them has been put back.
pub open spec fn put_back(f: FileState, m: BackupMoveView) -> FileState {
    match m {
        BackupMove::PutBack { backup, path } => FileState {
            worktree: f.worktree.insert(path, f.backups[backup]),
            backups: f.backups.remove(backup),
        },
        BackupMove::Remove { path } => FileState {
            worktree: f.worktree.remove(path),
            backups: f.backups,
        },
    }
}

/// The files after those from move `j` on have been put back.
pub open spec fn all_put_back(f: FileState, moves: Seq<BackupMoveView>, j: int) -> FileState
    decreases moves.len() - j,
{
    if j >= moves.len() {
        f
    } else {
        all_put_back(put_back(f, moves[j]), moves, j + 1)
    }
}

/// Two worktrees have the same file at `k`, or none.
pub open spec fn same_file(a: Map<Seq<char>, Seq<u8>>, b: Map<Seq<char>, Seq<u8>>, k: Seq<char>) -> bool {
    &&& a.contains_key(k) == b.contains_key(k)
    &&& a.contains_key(k) ==> a[k] == b[k]
}

/// No two keys are equal.
pub open spec fn all_differ(keys: Seq<Seq<char>>) -> bool {
    forall|i: int, j: int| 0 <= i < j < keys.len() ==> #[trigger] keys[i] != #[trigger] keys[j]
}

/// `present` tells which keys have a file.
pub open spec fn tells_files(f: FileState, keys: Seq<Seq<char>>, present: Seq<bool>) -> bool {
    &&& keys.len() == present.len()
    &&& forall|i: int| 0 <= i < keys.len() ==> #[trigger] present[i] == f.worktree.contains_key(keys[i])
}

proof fn lemma_moved_away(f: FileState, keys: Seq<Seq<char>>, present: Seq<bool>, n: int)
    requires
        all_differ(keys),
        tells_files(f, keys, present),
        0 <= n <= keys.len() <= usize::MAX,
    ensures
        ({
            let g = moved_away(f, backup_entries(keys, present), n);
            &&& forall|i: int| #![trigger keys[i]]
                0 <= i < n && present[i] ==> g.backups.contains_key(i as usize)
                    && g.backups[i as usize] == f.worktree[keys[i]]
            &&& forall|i: int| n <= i < keys.len() ==> same_file(f.worktree, g.worktree, #[trigger] keys[i])
        }),
    decreases n,
{
    if n > 0 {
        lemma_moved_away(f, keys, present, n - 1);
        let g = moved_away(f, backup_entries(keys, present), n - 1);
        assert(same_file(f.worktree, g.worktree, keys[n - 1]));
        assert(backup_entries(keys, present)[n - 1].path == keys[n - 1]);
        assert forall|i: int| n <= i < keys.len() implies same_file(
            f.worktree,
            moved_away(f, backup_entries(keys, present), n).worktree,
            #[trigger] keys[i],
        ) by {
            assert(keys[n - 1] != keys[i]);
        }
    }
}

proof fn lemma_put_back(
    f: FileState,
    g: FileState,
    keys: Seq<Seq<char>>,
    present: Seq<bool>,
    j: int,
)
    requires
        all_differ(keys),
        tells_files(f, keys, present),
        0 <= j <= keys.len() <= usize::MAX,
        forall|i: int| #![trigger keys[i]]
            0 <= i < keys.len() - j && present[i] ==> g.backups.contains_key(i as usize)
                && g.backups[i as usize] == f.worktree[keys[i]],
        forall|k: Seq<char>| #![trigger g.worktree.contains_key(k)]
            !keys.take(keys.len() - j).contains(k) ==> same_file(f.worktree, g.worktree, k),
    ensures
        all_put_back(g, moves_of(backup_entries(keys, present)), j).worktree == f.worktree,
    decreases keys.len() - j,
{
    let moves = moves_of(backup_entries(keys, present));
    if j == keys.len() {
        assert(keys.take(0) =~= Seq::empty());
        assert(g.worktree =~= f.worktree);
    } else {
        let last = keys.len() - 1 - j;
        let m = moves[j];
        let next = put_back(g, m);
        assert(m == move_of(backup_entries(keys, present)[last]));
        assert(keys[last] == backup_entries(keys, present)[last].path);
        assert(present[last] == f.worktree.contains_key(keys[last]));
        assert forall|k: Seq<char>| #![trigger next.worktree.contains_key(k)]
            !keys.take(last).contains(k) implies same_file(f.worktree, next.worktree, k) by {
            if k != keys[last] {
                assert(!keys.take(last + 1).contains(k)) by {
                    if keys.take(last + 1).contains(k) {
                        let i = keys.take(last + 1).index_of(k);
                        assert(keys.take(last)[i] == k);
                    }
                }
                assert(g.worktree.contains_key(k) == f.worktree.contains_key(k));
            }
        }
        lemma_put_back(f, next, keys, present, j + 1);
    }
}

/// A checkout that is given up after the database files were moved away leaves the worktree as it
/// was, whatever it wrote at the paths of those files in the meantime.
pub proof fn law_backups_restore_the_worktree(
    f: FileState,
    keys: Seq<Seq<char>>,
    present: Seq<bool>,
    written: Map<Seq<char>, Seq<u8>>,
)
    requires
        all_differ(keys),
        tells_files(f, keys, present),
        keys.len() <= usize::MAX,
        forall|k: Seq<char>| #![trigger written.contains_key(k)]
            !keys.contains(k) ==> same_file(f.worktree, written, k),
    ensures
        ({
            let entries = backup_entries(keys, present);
            let away = moved_away(f, entries, keys.len() as int);
            let changed = FileState { worktree: written, backups: away.backups };
            all_put_back(changed, moves_of(entries), 0).worktree == f.worktree
        }),
{
    let away = moved_away(f, backup_entries(keys, present), keys.len() as int);
    let changed = FileState { worktree: written, backups: away.backups };
    lemma_moved_away(f, keys, present, keys.len() as int);
    assert(keys.take(keys.len() as int) =~= keys);
    lemma_put_back(f, changed, keys, present, 0);
}

/// How the binding of a path to a stored database changes.
#[derive(Debug, Clone, Copy, PartialEq, Eq, Structural)]
pub enum BindingMove {
    SwitchSession,
    ClearSession,
    ReplaceTag,
    DeleteTag,
}

/// The database of the session is switched; the binding of another path is its tag. A path that
/// is bound to nothing loses its binding.
pub open spec fn binding_move(current: bool, bound: bool) -> BindingMove {
    match (current, bound) {
        (true, true) => BindingMove::SwitchSession,
        (true, false) => BindingMove::ClearSession,
        (false, true) => BindingMove::ReplaceTag,
        (false, false) => BindingMove::DeleteTag,
    }
}

pub fn apply_binding(key: &str, current_key: &str, bound: bool) -> (r: BindingMove)
    ensures
        r == binding_move(key@ == current_key@, bound),
{
    if same(key, current_key) {
        if bound {
            BindingMove::SwitchSession
        } else {
            BindingMove::ClearSession
        }
    } else if bound {
        BindingMove::ReplaceTag
    } else {
        BindingMove::DeleteTag
    }
}

/// The directory that holds the backups of a checkout.
pub fn backup_root_name(process: u64, id: u64) -> (r: String)
    ensures
        r@ == "workspace-checkout-"@ + decimal(process as nat) + "-"@ + decimal(id as nat),
{
    cat4("workspace-checkout-", show_u64(process).as_str(), "-", show_u64(id).as_str())
}

/// The stored database that a state is checked out as.
#[derive(Debug, Clone, Copy, PartialEq, Eq, Structural)]
pub enum VolumeChoice {
    /// The volume that the state names, which still holds it.
    Named,
    Empty,
    FromSnapshot,
}

/// Decides which volume holds a state: `page_count` and `same_ranges` compare the named volume with
/// it, where that can be read.
pub fn repo_file_state_volume(
    named_page_count: Option<u32>,
    page_count: u32,
    same_ranges: bool,
    empty: bool,
) -> (r: VolumeChoice)
    ensures
        r == if named_page_count == Some(page_count) && same_ranges {
            VolumeChoice::Named
        } else if empty {
            VolumeChoice::Empty
        } else {
            VolumeChoice::FromSnapshot
        },
{
    let unchanged: bool = match named_page_count {
        Some(count) => count == page_count && same_ranges,
        None => false,
    };
    if unchanged {
        VolumeChoice::Named
    } else if empty {
        VolumeChoice::Empty
    } else {
        VolumeChoice::FromSnapshot
    }
}

/// What is written to the worktree after a merge.
#[derive(Debug, Clone, Copy, PartialEq, Eq, Structural)]
pub enum MergeCheckout {
    /// Everything of the commit that the branch moved to.
    Plan,
    /// The database of the session.
    Head,
    /// The paths that the merge staged.
    StagedPaths,
    Nothing,
}

/// A merge with conflicts writes nothing.
pub open spec fn merge_checkout(outcome: MergeOutcomeView, has_plan: bool) -> MergeCheckout {
    match outcome {
        MergeOutcome::FastForward { .. } => if has_plan {
            MergeCheckout::Plan
        } else {
            MergeCheckout::Head
        },
        MergeOutcome::Merged { conflicted, .. } => if conflicted.len() == 0 {
            MergeCheckout::StagedPaths
        } else {
            MergeCheckout::Nothing
        },
        MergeOutcome::AlreadyUpToDate { .. } => MergeCheckout::Nothing,
    }
}

pub fn checkout_merge_outcome(outcome: &MergeOutcome, has_plan: bool) -> (r: MergeCheckout)
    ensures
        r == merge_checkout(outcome@, has_plan),
{
    match outcome {
        MergeOutcome::FastForward { .. } => {
            if has_plan {
                MergeCheckout::Plan
            } else {
                MergeCheckout::Head
            }
        },
        MergeOutcome::Merged { conflicted, .. } => {
            if conflicted.len() == 0 {
                MergeCheckout::StagedPaths
            } else {
                MergeCheckout::Nothing
            }
        },
        MergeOutcome::AlreadyUpToDate { .. } => MergeCheckout::Nothing,
    }
}

/// How often a temporary file is tried to be made.
pub open spec fn temporary_attempts() -> int {
    100
}

/// The name of a temporary file of a checkout.
pub open spec fn temporary_name(process: nat, started_ms: nat, attempt: nat) -> Seq<char> {
    ".graft-checkout-"@ + decimal(process) + "-"@ + decimal(started_ms) + ("-"@ + decimal(attempt))
}

/// The next temporary file that is tried, from attempt `attempt` on, or the error after the last.
pub fn temporary_checkout_file(process: u64, started_ms: u64, attempt: u64, shown: &str) -> (r: Result<
    String,
    CommandError,
>)
    ensures
        seen(r) == if attempt < temporary_attempts() {
            Ok(temporary_name(process as nat, started_ms as nat, attempt as nat))
        } else {
            Err(
                CommandError::InvalidCommand(
                    "could not create temporary checkout file for `"@ + shown@ + "`"@,
                ),
            )
        },
{
    if attempt < 100 {
        let last = cat2("-", show_u64(attempt).as_str());
        let mut name = cat4(
            ".graft-checkout-",
            show_u64(process).as_str(),
            "-",
            show_u64(started_ms).as_str(),
        );
        name.append(last.as_str());
        Ok(name)
    } else {
        Err(
            CommandError::InvalidCommand(
                cat3("could not create temporary checkout file for `", shown, "`"),
            ),
        )
    }
}

} // verus!
