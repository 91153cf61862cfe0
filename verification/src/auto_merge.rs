//! Merging databases by their rows without asking: which are merged, and what is checked before.
use vstd::prelude::*;
use vstd::string::*;

use crate::conflict_paths::{has_file_entry, in_conflict, some_file};
use crate::conflict_report::{blocked, RowMergePlan, RowMergePlanView};
use crate::conflicts::{labels_of, MergeResolutionPathState, RowConflictResolutionState};
use crate::error::{invalid_command, seen, text_option, CommandError, RepoErr};
use crate::model::{IndexEntry, IndexEntryView};
use crate::number::{decimal, decimal_int, show_i64, show_u64};
use crate::order::{ascending, has_key, insert_key, KeyMap};
use crate::report_sync::{RowAutoMergeResult, RowAutoMergeResultView};
use crate::show::{view_option, views};
use crate::spec::IndexStage;
use crate::text::{cat2, cat3, chars_of, join, joined, same, texts, trim, trimmed};

verus! {

/// What a merge does with the rows of a database.
#[derive(Debug, Clone, Copy, PartialEq, Eq, Structural)]
pub enum RowMergeChoice {
    Skip,
    /// Ours is the result as it stands.
    KeepOurs,
    /// The changes of theirs are applied to ours.
    Apply,
}

/// A database is merged where nothing of it is in conflict.
pub open spec fn candidate_choice(plan: RowMergePlanView) -> RowMergeChoice {
    if plan.conflicts.len() > 0 || plan.schema_conflicts.len() > 0 || plan.opaque_changes > 0
        || plan.limitations.len() > 0 {
        RowMergeChoice::Skip
    } else if plan.keeps_ours {
        RowMergeChoice::KeepOurs
    } else if plan.apply_changes > 0 {
        RowMergeChoice::Apply
    } else {
        RowMergeChoice::Skip
    }
}

pub fn row_merge_candidate(plan: &RowMergePlan) -> (r: RowMergeChoice)
    ensures
        r == candidate_choice(plan@),
{
    if plan.conflicts.len() > 0 || plan.schema_conflicts.len() > 0 || plan.opaque_changes > 0
        || plan.limitations.len() > 0 {
        RowMergeChoice::Skip
    } else if plan.keeps_ours {
        RowMergeChoice::KeepOurs
    } else if plan.apply_changes > 0 {
        RowMergeChoice::Apply
    } else {
        RowMergeChoice::Skip
    }
}

/// The databases that are merged are those of which the analysis says that they can be.
pub proof fn law_candidates_are_those_reported(plan: RowMergePlanView)
    ensures
        candidate_choice(plan) != RowMergeChoice::Skip <==> blocked(plan).len() == 0,
{
    crate::conflict_report::law_auto_merge_needs_all_clear(plan);
}

/// The open database is also merged in part, where that is allowed: rows in conflict are left out.
pub open spec fn session_choice(plan: RowMergePlanView, allow_partial: bool) -> RowMergeChoice {
    if plan.opaque_changes > 0 || plan.schema_conflicts.len() > 0 || plan.limitations.len() > 0 {
        RowMergeChoice::Skip
    } else if plan.conflicts.len() > 0 && !allow_partial {
        RowMergeChoice::Skip
    } else if plan.keeps_ours {
        RowMergeChoice::KeepOurs
    } else if plan.apply_changes == 0 {
        RowMergeChoice::Skip
    } else {
        RowMergeChoice::Apply
    }
}

pub fn row_merge_session_choice(plan: &RowMergePlan, allow_partial: bool) -> (r: RowMergeChoice)
    ensures
        r == session_choice(plan@, allow_partial),
{
    if plan.opaque_changes > 0 || plan.schema_conflicts.len() > 0 || plan.limitations.len() > 0 {
        return RowMergeChoice::Skip;
    }
    if plan.conflicts.len() > 0 && !allow_partial {
        return RowMergeChoice::Skip;
    }
    if plan.keeps_ours {
        RowMergeChoice::KeepOurs
    } else if plan.apply_changes == 0 {
        RowMergeChoice::Skip
    } else {
        RowMergeChoice::Apply
    }
}

/// The open database is merged under the rule of the others, but for rows in conflict: without
/// any the two choices are the same, and where they may be left out they do not count.
pub proof fn law_open_database_is_merged_like_the_others(plan: RowMergePlanView, allow_partial: bool)
    ensures
        plan.conflicts.len() == 0 ==> session_choice(plan, allow_partial) == candidate_choice(plan),
        session_choice(plan, true) == candidate_choice(
            RowMergePlan { conflicts: Seq::empty(), ..plan },
        ),
        plan.conflicts.len() > 0 ==> session_choice(plan, false) == RowMergeChoice::Skip,
        session_choice(plan, allow_partial) == RowMergeChoice::Skip || session_choice(
            plan,
            allow_partial,
        ) == session_choice(plan, true),
{
}

/// Ours is kept only where the plan says so, changes are applied only where there are some and
/// ours is not kept, and either takes place wherever nothing stands in its way.
pub proof fn law_merge_follows_the_plan(plan: RowMergePlanView, allow_partial: bool)
    ensures
        candidate_choice(plan) == RowMergeChoice::KeepOurs ==> plan.keeps_ours,
        candidate_choice(plan) == RowMergeChoice::Apply ==> !plan.keeps_ours && plan.apply_changes
            > 0,
        session_choice(plan, allow_partial) == RowMergeChoice::KeepOurs ==> plan.keeps_ours,
        session_choice(plan, allow_partial) == RowMergeChoice::Apply ==> !plan.keeps_ours
            && plan.apply_changes > 0,
        plan.schema_conflicts.len() + plan.limitations.len() + plan.opaque_changes > 0 ==> {
            &&& candidate_choice(plan) == RowMergeChoice::Skip
            &&& session_choice(plan, allow_partial) == RowMergeChoice::Skip
        },
        plan.schema_conflicts.len() + plan.limitations.len() + plan.opaque_changes == 0 && (
        plan.conflicts.len() == 0 || allow_partial) ==> {
            &&& plan.keeps_ours ==> session_choice(plan, allow_partial) == RowMergeChoice::KeepOurs
            &&& !plan.keeps_ours && plan.apply_changes > 0 ==> session_choice(plan, allow_partial)
                == RowMergeChoice::Apply
            &&& !plan.keeps_ours && plan.apply_changes == 0 ==> session_choice(plan, allow_partial)
                == RowMergeChoice::Skip
        },
        plan.schema_conflicts.len() + plan.limitations.len() + plan.opaque_changes == 0
            && plan.conflicts.len() == 0 ==> {
            &&& plan.keeps_ours ==> candidate_choice(plan) == RowMergeChoice::KeepOurs
            &&& !plan.keeps_ours && plan.apply_changes > 0 ==> candidate_choice(plan)
                == RowMergeChoice::Apply
            &&& !plan.keeps_ours && plan.apply_changes == 0 ==> candidate_choice(plan)
                == RowMergeChoice::Skip
        },
        plan.conflicts.len() > 0 ==> candidate_choice(plan) == RowMergeChoice::Skip,
{
}

/// What a merge of the rows of a database is reported as. Nothing is reported of one that was
/// skipped, nor of one that left rows in conflict. A result that must be validated is not resolved.
pub open spec fn merge_result(
    key: Seq<char>,
    plan: RowMergePlanView,
    choice: RowMergeChoice,
) -> Option<
    RowAutoMergeResultView,
> {
    match choice {
        RowMergeChoice::Skip => None,
        RowMergeChoice::KeepOurs => Some(
            RowAutoMergeResult {
                key,
                applied_changes: plan.apply_changes,
                ours_changes: plan.ours_changes,
                theirs_changes: plan.theirs_changes,
                resolved: true,
                requires_validation: false,
            },
        ),
        RowMergeChoice::Apply => if plan.conflicts.len() > 0 {
            None
        } else {
            Some(
                RowAutoMergeResult {
                    key,
                    applied_changes: plan.apply_changes,
                    ours_changes: plan.ours_changes,
                    theirs_changes: plan.theirs_changes,
                    resolved: !plan.requires_validation,
                    requires_validation: plan.requires_validation,
                },
            )
        },
    }
}

pub fn row_merge_result(key: &str, plan: &RowMergePlan, choice: RowMergeChoice) -> (r: Option<
    RowAutoMergeResult,
>)
    ensures
        view_option(r) == merge_result(key@, plan@, choice),
{
    match choice {
        RowMergeChoice::Skip => None,
        RowMergeChoice::KeepOurs => Some(
            RowAutoMergeResult {
                key: key.to_owned(),
                applied_changes: plan.apply_changes,
                ours_changes: plan.ours_changes,
                theirs_changes: plan.theirs_changes,
                resolved: true,
                requires_validation: false,
            },
        ),
        RowMergeChoice::Apply => {
            if plan.conflicts.len() > 0 {
                None
            } else {
                Some(
                    RowAutoMergeResult {
                        key: key.to_owned(),
                        applied_changes: plan.apply_changes,
                        ours_changes: plan.ours_changes,
                        theirs_changes: plan.theirs_changes,
                        resolved: !plan.requires_validation,
                        requires_validation: plan.requires_validation,
                    },
                )
            }
        },
    }
}

/// What a merge of one of several databases is reported as.
pub open spec fn candidate_result(key: Seq<char>, plan: RowMergePlanView) -> Option<RowAutoMergeResultView> {
    if candidate_choice(plan) == RowMergeChoice::Skip {
        None
    } else {
        Some(
            RowAutoMergeResult {
                key,
                applied_changes: plan.apply_changes,
                ours_changes: plan.ours_changes,
                theirs_changes: plan.theirs_changes,
                resolved: !plan.requires_validation,
                requires_validation: plan.requires_validation,
            },
        )
    }
}

pub fn row_merge_candidate_result(key: &str, plan: &RowMergePlan) -> (r: Option<RowAutoMergeResult>)
    ensures
        view_option(r) == candidate_result(key@, plan@),
{
    match row_merge_candidate(plan) {
        RowMergeChoice::Skip => None,
        _ => Some(
            RowAutoMergeResult {
                key: key.to_owned(),
                applied_changes: plan.apply_changes,
                ours_changes: plan.ours_changes,
                theirs_changes: plan.theirs_changes,
                resolved: !plan.requires_validation,
                requires_validation: plan.requires_validation,
            },
        ),
    }
}

/// A merge that is reported as resolved left no row in conflict.
pub proof fn law_resolved_merges_leave_no_conflict(
    key: Seq<char>,
    plan: RowMergePlanView,
    allow_partial: bool,
)
    requires
        plan.keeps_ours ==> plan.conflicts.len() == 0,
    ensures
        merge_result(key, plan, session_choice(plan, allow_partial)) is Some ==> plan.conflicts.len()
            == 0,
        candidate_result(key, plan) is Some ==> plan.conflicts.len() == 0,
{
}

/// What is reported of a merge is what its plan counted. It is reported for every merge that took
/// place and left no row in conflict, and a merge is resolved unless it has yet to be validated.
pub proof fn law_merge_reports_its_plan(
    key: Seq<char>,
    plan: RowMergePlanView,
    choice: RowMergeChoice,
)
    ensures
        merge_result(key, plan, choice) is Some <==> choice == RowMergeChoice::KeepOurs || (choice
            == RowMergeChoice::Apply && plan.conflicts.len() == 0),
        merge_result(key, plan, choice) matches Some(r) ==> {
            &&& r.key == key
            &&& r.applied_changes == plan.apply_changes
            &&& r.ours_changes == plan.ours_changes
            &&& r.theirs_changes == plan.theirs_changes
            &&& r.resolved != r.requires_validation
            &&& r.requires_validation == (plan.requires_validation && choice
                == RowMergeChoice::Apply)
        },
        candidate_result(key, plan) is Some <==> candidate_choice(plan) != RowMergeChoice::Skip,
        candidate_result(key, plan) matches Some(r) ==> {
            &&& r.key == key
            &&& r.applied_changes == plan.apply_changes
            &&& r.ours_changes == plan.ours_changes
            &&& r.theirs_changes == plan.theirs_changes
            &&& r.resolved != r.requires_validation
            &&& r.requires_validation == plan.requires_validation
        },
        !plan.requires_validation && plan.conflicts.len() == 0 ==> candidate_result(key, plan)
            == merge_result(key, plan, candidate_choice(plan)),
{
}

/// How a merged database gets into the worktree.
#[derive(Debug, Clone, Copy, PartialEq, Eq, Structural)]
pub enum InstallStep {
    /// The file that was merged takes the place of the one in the worktree.
    InstallFile,
    SwitchSession,
    CheckoutPrepared,
    Checkout,
}

pub open spec fn install_step(materialized: bool, current: bool, prepared: bool) -> InstallStep {
    if materialized && !current {
        InstallStep::InstallFile
    } else if current {
        InstallStep::SwitchSession
    } else if prepared {
        InstallStep::CheckoutPrepared
    } else {
        InstallStep::Checkout
    }
}

/// The open database is never replaced under its session, and a file that was merged in the
/// worktree is put in place wherever its database is not open. What was prepared is checked out.
pub proof fn law_merged_database_is_installed(materialized: bool, current: bool, prepared: bool)
    ensures
        install_step(materialized, current, prepared) == InstallStep::SwitchSession <==> current,
        install_step(materialized, current, prepared) == InstallStep::InstallFile <==> materialized
            && !current,
        install_step(materialized, current, prepared) == InstallStep::CheckoutPrepared ==> prepared,
        install_step(materialized, current, prepared) == InstallStep::Checkout ==> !prepared,
{
}

/// After the errors of an analysis are recorded, a path that could be analysed has none left, a
/// path that failed has its last error, and the errors of all others are as before.
pub proof fn law_analysis_errors(
    m: Map<Seq<char>, Seq<char>>,
    analyzed: Seq<Seq<char>>,
    failed: Seq<Seq<char>>,
    errors: Seq<Seq<char>>,
    key: Seq<char>,
)
    requires
        failed.len() == errors.len(),
    ensures
        ({
            let after = errors_with(
                errors_without(m, analyzed, analyzed.len() as int),
                failed,
                errors,
                failed.len() as int,
            );
            &&& !failed.contains(key) && analyzed.contains(key) ==> !after.contains_key(key)
            &&& !failed.contains(key) && !analyzed.contains(key) ==> after.contains_key(key)
                == m.contains_key(key) && (m.contains_key(key) ==> after[key] == m[key])
            &&& failed.contains(key) ==> after.contains_key(key) && exists|i: int|
                0 <= i < failed.len() && failed[i] == key && #[trigger] errors[i] == after[key]
                    && forall|j: int| i < j < failed.len() ==> #[trigger] failed[j] != key
        }),
{
    let n = analyzed.len() as int;
    lemma_errors_without(m, analyzed, n, key);
    lemma_errors_left(m, analyzed, n, key);
    let rest = errors_without(m, analyzed, n);
    lemma_errors_with(rest, failed, errors, failed.len() as int, key);
    if analyzed.contains(key) {
        assert(analyzed[analyzed.index_of(key)] == key);
    }
    if failed.contains(key) {
        assert(failed[failed.index_of(key)] == key);
    }
}

proof fn lemma_errors_left(m: Map<Seq<char>, Seq<char>>, keys: Seq<Seq<char>>, n: int, key: Seq<char>)
    requires
        0 <= n <= keys.len(),
    ensures
        errors_without(m, keys, n).contains_key(key) ==> errors_without(m, keys, n)[key] == m[key],
    decreases n,
{
    if n > 0 {
        lemma_errors_left(m, keys, n - 1, key);
    }
}

proof fn lemma_errors_with(
    m: Map<Seq<char>, Seq<char>>,
    keys: Seq<Seq<char>>,
    errors: Seq<Seq<char>>,
    n: int,
    key: Seq<char>,
)
    requires
        0 <= n <= keys.len(),
        keys.len() == errors.len(),
    ensures
        ({
            let after = errors_with(m, keys, errors, n);
            &&& (forall|j: int| 0 <= j < n ==> #[trigger] keys[j] != key) ==> {
                &&& after.contains_key(key) == m.contains_key(key)
                &&& m.contains_key(key) ==> after[key] == m[key]
            }
            &&& (exists|j: int| 0 <= j < n && #[trigger] keys[j] == key) ==> {
                &&& after.contains_key(key)
                &&& exists|i: int|
                    0 <= i < n && keys[i] == key && #[trigger] errors[i] == after[key] && forall|
                        j: int,
                    |
                        i < j < n ==> #[trigger] keys[j] != key
            }
        }),
    decreases n,
{
    if n > 0 {
        lemma_errors_with(m, keys, errors, n - 1, key);
        let after = errors_with(m, keys, errors, n);
        if keys[n - 1] == key {
            assert(errors[n - 1] == after[key]);
        } else if exists|j: int| 0 <= j < n && #[trigger] keys[j] == key {
            let before = errors_with(m, keys, errors, n - 1);
            let i = choose|i: int|
                0 <= i < n - 1 && keys[i] == key && #[trigger] errors[i] == before[key] && forall|
                    j: int,
                |
                    i < j < n - 1 ==> #[trigger] keys[j] != key;
            assert(errors[i] == after[key]);
        }
    }
}

pub fn install_merged_database(key: &str, current_key: &str, materialized: bool, prepared: bool) -> (r:
    InstallStep)
    ensures
        r == install_step(materialized, key@ == current_key@, prepared),
{
    let current: bool = same(key, current_key);
    if materialized && !current {
        InstallStep::InstallFile
    } else if current {
        InstallStep::SwitchSession
    } else if prepared {
        InstallStep::CheckoutPrepared
    } else {
        InstallStep::Checkout
    }
}

/// The recorded errors without those of the first `n` keys.
pub open spec fn errors_without(m: Map<Seq<char>, Seq<char>>, keys: Seq<Seq<char>>, n: int) -> Map<
    Seq<char>,
    Seq<char>,
>
    decreases n,
{
    if n <= 0 {
        m
    } else {
        errors_without(m, keys, n - 1).remove(keys[n - 1])
    }
}

/// The recorded errors with the first `n` new ones.
pub open spec fn errors_with(
    m: Map<Seq<char>, Seq<char>>,
    keys: Seq<Seq<char>>,
    errors: Seq<Seq<char>>,
    n: int,
) -> Map<Seq<char>, Seq<char>>
    decreases n,
{
    if n <= 0 {
        m
    } else {
        errors_with(m, keys, errors, n - 1).insert(keys[n - 1], errors[n - 1])
    }
}

/// The key at a place had an error on record.
pub open spec fn had_error(m: Map<Seq<char>, Seq<char>>, keys: Seq<Seq<char>>, i: int) -> bool {
    m.contains_key(keys[i])
}

/// The error of the key at a place is not the one on record when it is its turn.
pub open spec fn error_is_new(
    m: Map<Seq<char>, Seq<char>>,
    keys: Seq<Seq<char>>,
    errors: Seq<Seq<char>>,
    i: int,
) -> bool {
    let known = errors_with(m, keys, errors, i);
    !(known.contains_key(keys[i]) && known[keys[i]] == errors[i])
}

/// What is recorded has to be written again: an error is cleared, or one is new.
pub open spec fn analysis_changes(
    m: Map<Seq<char>, Seq<char>>,
    analyzed: Seq<Seq<char>>,
    failed: Seq<Seq<char>>,
    errors: Seq<Seq<char>>,
) -> bool {
    let rest = errors_without(m, analyzed, analyzed.len() as int);
    ||| exists|i: int| 0 <= i < analyzed.len() && #[trigger] had_error(m, analyzed, i)
    ||| exists|j: int| 0 <= j < failed.len() && #[trigger] error_is_new(rest, failed, errors, j)
}

proof fn lemma_errors_without(m: Map<Seq<char>, Seq<char>>, keys: Seq<Seq<char>>, n: int, key: Seq<char>)
    requires
        0 <= n <= keys.len(),
    ensures
        errors_without(m, keys, n).contains_key(key) == (m.contains_key(key) && !exists|j: int|
            0 <= j < n && #[trigger] keys[j] == key),
    decreases n,
{
    if n > 0 {
        lemma_errors_without(m, keys, n - 1, key);
        assert(keys[n - 1] == key || keys[n - 1] != key);
    }
}

/// Records what came of the merges of paths: the errors of those that failed, and none of those
/// that did not. Tells whether what is recorded has to be written again.
pub fn record_merge_analysis(
    state: &mut RowConflictResolutionState,
    analyzed: &Vec<String>,
    failed: &Vec<String>,
    errors: &Vec<String>,
) -> (r: bool)
    requires
        old(state).wf(),
        failed@.len() == errors@.len(),
    ensures
        final(state).wf(),
        final(state).paths == old(state).paths,
        final(state).rows == old(state).rows,
        final(state).cells == old(state).cells,
        labels_of(final(state).analysis_errors@) == errors_with(
            errors_without(
                labels_of(old(state).analysis_errors@),
                texts(analyzed@),
                analyzed@.len() as int,
            ),
            texts(failed@),
            texts(errors@),
            failed@.len() as int,
        ),
        r == analysis_changes(
            labels_of(old(state).analysis_errors@),
            texts(analyzed@),
            texts(failed@),
            texts(errors@),
        ),
{
    let ghost start = labels_of(state.analysis_errors@);
    let mut changed = false;
    let n: usize = analyzed.len();
    let mut i: usize = 0;
    while i < n
        invariant
            n == analyzed@.len(),
            i <= n,
            state.wf(),
            state.paths == old(state).paths,
            state.rows == old(state).rows,
            state.cells == old(state).cells,
            start == labels_of(old(state).analysis_errors@),
            labels_of(state.analysis_errors@) == errors_without(start, texts(analyzed@), i as int),
            changed == exists|k: int| 0 <= k < i && #[trigger] had_error(start, texts(analyzed@), k),
        decreases n - i,
    {
        let ghost was = state.analysis_errors@;
        let taken = state.analysis_errors.take(analyzed[i].as_str());
        proof {
            assert(labels_of(state.analysis_errors@) =~= labels_of(was).remove(analyzed@[i as int]@));
            let keys = texts(analyzed@);
            lemma_errors_without(start, keys, i as int, keys[i as int]);
            assert(taken is Some == labels_of(was).contains_key(keys[i as int]));
            if taken is Some {
                assert(had_error(start, keys, i as int));
            } else if had_error(start, keys, i as int) {
                let k = choose|k: int| 0 <= k < i && #[trigger] keys[k] == keys[i as int];
                assert(had_error(start, keys, k));
            }
        }
        if taken.is_some() {
            changed = true;
        }
        i += 1;
    }
    let ghost middle = labels_of(state.analysis_errors@);
    let ghost cleared = changed;
    let m: usize = failed.len();
    let mut j: usize = 0;
    while j < m
        invariant
            m == failed@.len(),
            m == errors@.len(),
            j <= m,
            state.wf(),
            state.paths == old(state).paths,
            state.rows == old(state).rows,
            state.cells == old(state).cells,
            labels_of(state.analysis_errors@) == errors_with(
                middle,
                texts(failed@),
                texts(errors@),
                j as int,
            ),
            changed == (cleared || exists|k: int|
                0 <= k < j && #[trigger] error_is_new(middle, texts(failed@), texts(errors@), k)),
        decreases m - j,
    {
        let ghost was = state.analysis_errors@;
        let known: bool = match state.analysis_errors.get(failed[j].as_str()) {
            Some(e) => same(e.as_str(), errors[j].as_str()),
            None => false,
        };
        state.analysis_errors.put(failed[j].as_str(), errors[j].clone());
        proof {
            assert(labels_of(state.analysis_errors@) =~= labels_of(was).insert(
                failed@[j as int]@,
                errors@[j as int]@,
            ));
            assert(known != error_is_new(middle, texts(failed@), texts(errors@), j as int));
        }
        if !known {
            changed = true;
        }
        j += 1;
    }
    proof {
        let (a, f, e) = (texts(analyzed@), texts(failed@), texts(errors@));
        assert(middle == errors_without(start, a, a.len() as int));
        assert(cleared == exists|k: int| 0 <= k < a.len() && #[trigger] had_error(start, a, k));
        assert(changed == (cleared || exists|k: int|
            0 <= k < f.len() && #[trigger] error_is_new(middle, f, e, k)));
    }
    changed
}

/// What came of preparing the merge of a path, before any path is changed.
#[derive(Debug, Clone, PartialEq, Eq)]
pub enum Preparation<R = RowAutoMergeResult, S = String> {
    /// The merged database lies ready.
    Candidate(R),
    /// The path is not merged by its rows.
    Nothing,
    Failed(S),
}

pub type PreparationView = Preparation<RowAutoMergeResultView, Seq<char>>;

impl View for Preparation<RowAutoMergeResult, String> {
    type V = PreparationView;

    open spec fn view(&self) -> PreparationView {
        match self {
            Preparation::Candidate(result) => Preparation::Candidate(result@),
            Preparation::Nothing => Preparation::Nothing,
            Preparation::Failed(error) => Preparation::Failed(error@),
        }
    }
}

/// A pass over the paths in conflict that merges the databases among them by their rows.
#[derive(Debug, Clone)]
pub struct MergePass {
    pub keys: Vec<String>,
    /// How many paths are prepared.
    pub prepared: usize,
    /// The paths of which the merge could be analysed.
    pub analyzed: Vec<String>,
    /// The paths of which it could not, and why.
    pub failures: KeyMap<String>,
    /// The merged databases that lie ready.
    pub candidates: Vec<RowAutoMergeResult>,
    /// What came of the analysis is on record.
    pub recorded: bool,
    /// How many of the candidates are in place.
    pub installed: usize,
}

/// What a pass does next.
#[derive(Debug, Clone, Copy, PartialEq, Eq, Structural)]
pub enum MergePassTask {
    /// Prepares the path at this place, without changing any.
    Prepare(usize),
    /// Records what came of the analysis.
    Record,
    /// Puts the candidate at this place into the worktree and the index.
    Install(usize),
    Finished,
}

impl MergePass {
    pub open spec fn wf(&self) -> bool {
        &&& self.failures.wf()
        &&& self.prepared <= self.keys@.len()
        &&& self.installed <= self.candidates@.len()
        &&& self.recorded ==> self.prepared == self.keys@.len()
        &&& self.installed > 0 ==> self.recorded
        &&& forall|i: int|
            0 <= i < self.prepared ==> self.is_decided(#[trigger] texts(self.keys@)[i])
        &&& forall|c: int|
            0 <= c < self.candidates@.len() ==> texts(self.analyzed@).contains(
                (#[trigger] self.candidates@[c])@.key,
            )
    }

    /// The merge of a path is analysed, or it is known why it cannot be.
    pub open spec fn is_decided(&self, key: Seq<char>) -> bool {
        texts(self.analyzed@).contains(key) || self.failures@.contains_key(key)
    }

    pub open spec fn next_task(&self) -> MergePassTask {
        if self.prepared < self.keys@.len() {
            MergePassTask::Prepare(self.prepared)
        } else if !self.recorded {
            MergePassTask::Record
        } else if self.installed < self.candidates@.len() {
            MergePassTask::Install(self.installed)
        } else {
            MergePassTask::Finished
        }
    }

    /// Begins a pass over the paths in conflict.
    pub fn start(keys: Vec<String>) -> (r: MergePass)
        ensures
            r.wf(),
            r.keys == keys,
            r.prepared == 0,
            r.analyzed@.len() == 0,
            r.failures@ == Map::<Seq<char>, String>::empty(),
            r.candidates@.len() == 0,
            !r.recorded,
            r.installed == 0,
    {
        MergePass {
            keys,
            prepared: 0,
            analyzed: Vec::new(),
            failures: KeyMap::new(),
            candidates: Vec::new(),
            recorded: false,
            installed: 0,
        }
    }

    pub fn task(&self) -> (r: MergePassTask)
        ensures
            r == self.next_task(),
    {
        if self.prepared < self.keys.len() {
            MergePassTask::Prepare(self.prepared)
        } else if !self.recorded {
            MergePassTask::Record
        } else if self.installed < self.candidates.len() {
            MergePassTask::Install(self.installed)
        } else {
            MergePassTask::Finished
        }
    }

    /// Takes what came of preparing the next path.
    pub fn take_preparation(&mut self, preparation: Preparation)
        requires
            old(self).wf(),
            old(self).next_task() is Prepare,
            preparation@ matches Preparation::Candidate(result) ==> result.key == texts(
                old(self).keys@,
            )[old(self).prepared as int],
        ensures
            final(self).wf(),
            final(self).keys == old(self).keys,
            final(self).prepared == old(self).prepared + 1,
            final(self).recorded == old(self).recorded,
            final(self).installed == old(self).installed,
            ({
                let key = texts(old(self).keys@)[old(self).prepared as int];
                &&& texts(final(self).analyzed@) == if preparation@ is Failed {
                    texts(old(self).analyzed@)
                } else {
                    texts(old(self).analyzed@).push(key)
                }
                &&& labels_of(final(self).failures@) == match preparation@ {
                    Preparation::Failed(error) => labels_of(old(self).failures@).insert(key, error),
                    _ => labels_of(old(self).failures@),
                }
                &&& views(final(self).candidates@) == match preparation@ {
                    Preparation::Candidate(result) => views(old(self).candidates@).push(result),
                    _ => views(old(self).candidates@),
                }
            }),
    {
        let count: usize = self.keys.len();
        assert(self.prepared < count);
        let key = self.keys[self.prepared].clone();
        let ghost before = *self;
        match preparation {
            Preparation::Candidate(result) => {
                self.analyzed.push(key);
                self.candidates.push(result);
                proof {
                    assert(texts(self.analyzed@) =~= texts(before.analyzed@).push(key@));
                    assert(views(self.candidates@) =~= views(before.candidates@).push(result@));
                }
            },
            Preparation::Nothing => {
                self.analyzed.push(key);
                proof {
                    assert(texts(self.analyzed@) =~= texts(before.analyzed@).push(key@));
                }
            },
            Preparation::Failed(error) => {
                self.failures.put(key.as_str(), error);
                proof {
                    assert(labels_of(self.failures@) =~= labels_of(before.failures@).insert(
                        key@,
                        error@,
                    ));
                }
            },
        }
        self.prepared = self.prepared + 1;
        proof {
            let (was, now) = (texts(before.analyzed@), texts(self.analyzed@));
            assert forall|k: Seq<char>| was.contains(k) implies #[trigger] now.contains(k) by {
                let i = choose|i: int| 0 <= i < was.len() && was[i] == k;
                assert(now[i] == k);
            }
            if !(preparation@ is Failed) {
                assert(now[was.len() as int] == key@);
            }
            assert forall|i: int| 0 <= i < self.prepared implies self.is_decided(
                #[trigger] texts(self.keys@)[i],
            ) by {
                if i < before.prepared {
                    assert(before.is_decided(texts(before.keys@)[i]));
                }
            }
            assert forall|c: int| 0 <= c < self.candidates@.len() implies now.contains(
                (#[trigger] self.candidates@[c])@.key,
            ) by {
                if c < before.candidates@.len() {
                    assert(self.candidates@[c] == before.candidates@[c]);
                }
            }
        }
    }

    /// What came of the analysis is on record.
    pub fn take_record(&mut self)
        requires
            old(self).wf(),
            old(self).next_task() is Record,
        ensures
            final(self).wf(),
            *final(self) == (MergePass { recorded: true, ..*old(self) }),
    {
        self.recorded = true;
    }

    /// The next candidate is in place.
    pub fn take_installation(&mut self)
        requires
            old(self).wf(),
            old(self).next_task() is Install,
        ensures
            final(self).wf(),
            *final(self) == (MergePass {
                installed: (old(self).installed + 1) as usize,
                ..*old(self)
            }),
    {
        let count: usize = self.candidates.len();
        assert(self.installed < count);
        self.installed = self.installed + 1;
    }
}

/// Every path is prepared, and what came of it is on record, before the first path is changed: no
/// analysis can fail any more. Once a path is changed, only installations follow.
pub proof fn law_all_is_prepared_before_a_change(pass: MergePass)
    requires
        pass.wf(),
    ensures
        pass.next_task() is Install || pass.installed > 0 ==> {
            &&& pass.recorded
            &&& pass.prepared == pass.keys@.len()
            &&& forall|i: int|
                0 <= i < pass.keys@.len() ==> pass.is_decided(#[trigger] texts(pass.keys@)[i])
        },
        pass.installed > 0 ==> pass.next_task() is Install || pass.next_task() is Finished,
        pass.next_task() is Finished ==> pass.installed == pass.candidates@.len(),
{
}

/// The result of an integrity check of a database: one row that says `ok`, or what is wrong.
pub open spec fn is_sound(rows: Seq<Seq<char>>) -> bool {
    rows.len() > 0 && forall|i: int| 0 <= i < rows.len() ==> #[trigger] rows[i] == "ok"@
}

pub fn validate_row_merge_integrity(rows: &Vec<String>) -> (r: Result<(), CommandError>)
    ensures
        seen(r) == if is_sound(texts(rows@)) {
            Ok(())
        } else {
            Err(
                CommandError::InvalidCommand(
                    "row-level auto-merge failed integrity_check: "@ + joined(texts(rows@), "; "@),
                ),
            )
        },
{
    let n: usize = rows.len();
    let mut sound: bool = n > 0;
    let mut i: usize = 0;
    while i < n
        invariant
            n == rows@.len(),
            i <= n,
            sound == (n > 0 && forall|k: int| 0 <= k < i ==> #[trigger] texts(rows@)[k] == "ok"@),
        decreases n - i,
    {
        if !same(rows[i].as_str(), "ok") {
            proof {
                assert(texts(rows@)[i as int] != "ok"@);
            }
            sound = false;
        }
        i += 1;
    }
    if sound {
        return Ok(());
    }
    Err(
        CommandError::InvalidCommand(
            cat2("row-level auto-merge failed integrity_check: ", join(rows, "; ").as_str()),
        ),
    )
}

/// A row that refers to a row that is not there.
#[derive(Debug, Clone, PartialEq, Eq)]
pub struct ForeignKeyViolation<S = String> {
    pub table: Option<S>,
    pub rowid: Option<i64>,
    pub parent: Option<S>,
    pub fkid: Option<i64>,
}

pub type ForeignKeyViolationView = ForeignKeyViolation<Seq<char>>;

impl View for ForeignKeyViolation<String> {
    type V = ForeignKeyViolationView;

    open spec fn view(&self) -> ForeignKeyViolationView {
        ForeignKeyViolation {
            table: text_option(self.table),
            rowid: self.rowid,
            parent: text_option(self.parent),
            fkid: self.fkid,
        }
    }
}

pub open spec fn or_unknown(s: Option<Seq<char>>) -> Seq<char> {
    match s {
        Some(t) => t,
        None => "<unknown>"@,
    }
}

/// What is said of a row that refers to a row that is not there.
pub open spec fn violation_message(v: ForeignKeyViolationView) -> Seq<char> {
    "row-level auto-merge failed foreign_key_check: table="@ + or_unknown(v.table) + ", rowid="@
        + match v.rowid {
        Some(id) => decimal_int(id as int),
        None => "NULL"@,
    } + ", parent="@ + or_unknown(v.parent) + ", fkid="@ + decimal_int(
        match v.fkid {
            Some(id) => id as int,
            None => 0,
        },
    )
}

/// The first violation, where there is one, fails a merge.
pub fn validate_row_merge_foreign_keys(violation: &Option<ForeignKeyViolation>) -> (r: Result<
    (),
    CommandError,
>)
    ensures
        seen(r) == match view_option(*violation) {
            Some(v) => Err(CommandError::InvalidCommand(violation_message(v))),
            None => Ok(()),
        },
{
    let v = match violation {
        Some(v) => v,
        None => return Ok(()),
    };
    let mut message = "row-level auto-merge failed foreign_key_check: table=".to_owned();
    message.append(
        match &v.table {
            Some(t) => t.as_str(),
            None => "<unknown>",
        },
    );
    message.append(", rowid=");
    match v.rowid {
        Some(id) => {
            message.append(show_i64(id).as_str());
        },
        None => {
            message.append("NULL");
        },
    }
    message.append(", parent=");
    message.append(
        match &v.parent {
            Some(t) => t.as_str(),
            None => "<unknown>",
        },
    );
    message.append(", fkid=");
    let fkid: i64 = match v.fkid {
        Some(id) => id,
        None => 0,
    };
    message.append(show_i64(fkid).as_str());
    Err(CommandError::InvalidCommand(message))
}

/// What SQLite's error in a step of a merge is reported as.
pub fn row_auto_merge_sqlite_err(action: &str, error: &str) -> (r: CommandError)
    ensures
        r@ == CommandError::InvalidCommand(
            "could not "@ + action@ + (" for row-level auto-merge: "@ + error@),
        ),
{
    let tail = cat2(" for row-level auto-merge: ", error);
    CommandError::InvalidCommand(cat3("could not ", action, tail.as_str()))
}

/// A character of a file name in place of one of a key.
pub open spec fn name_char(c: char) -> char {
    if ('a' <= c <= 'z') || ('A' <= c <= 'Z') || ('0' <= c <= '9') || c == '-' || c == '_' || c == '.' {
        c
    } else {
        '_'
    }
}

/// The name of the file in which the database at `key` is merged.
pub open spec fn merge_file_name(process: nat, id: nat, key: Seq<char>) -> Seq<char> {
    "row-merge-"@ + decimal(process) + "-"@ + decimal(id) + "-"@ + Seq::new(
        key.len(),
        |i: int| name_char(key[i]),
    ) + ".db"@
}

pub fn row_auto_merge_temp_name(process: u64, id: u64, key: &str) -> (r: String)
    ensures
        r@ == merge_file_name(process as nat, id as nat, key@),
{
    let cs = chars_of(key);
    let n: usize = cs.len();
    let mut name = String::new();
    let mut i: usize = 0;
    while i < n
        invariant
            n == cs@.len(),
            cs@ == key@,
            i <= n,
            name@ == Seq::new(i as nat, |k: int| name_char(key@[k])),
        decreases n - i,
    {
        let c = cs[i];
        let plain: bool = ('a' <= c && c <= 'z') || ('A' <= c && c <= 'Z') || ('0' <= c && c <= '9') || c
            == '-' || c == '_' || c == '.';
        name.push(
            if plain {
                c
            } else {
                '_'
            },
        );
        proof {
            assert(name@ =~= Seq::new((i + 1) as nat, |k: int| name_char(key@[k])));
        }
        i += 1;
    }
    proof {
        assert(name@ =~= Seq::new(key@.len(), |i: int| name_char(key@[i])));
    }
    let mut out = "row-merge-".to_owned();
    out.append(show_u64(process).as_str());
    out.append("-");
    out.append(show_u64(id).as_str());
    out.append("-");
    out.append(name.as_str());
    out.append(".db");
    out
}

/// How many states can be on record as checked.
pub open spec fn max_proofs() -> nat {
    256
}

/// The states of databases whose integrity was checked, each told by a text. When the record is full
/// it starts anew, which only makes checks be done again.
#[derive(Debug)]
pub struct IntegrityProofs {
    pub states: Vec<String>,
}

impl IntegrityProofs {
    pub open spec fn wf(&self) -> bool {
        ascending(texts(self.states@)) && self.states@.len() <= max_proofs()
    }

    pub fn new() -> (r: IntegrityProofs)
        ensures
            r.wf(),
            r.states@.len() == 0,
    {
        IntegrityProofs { states: Vec::new() }
    }

    pub fn is_proven(&self, state: &str) -> (r: bool)
        requires
            self.wf(),
        ensures
            r == texts(self.states@).contains(state@),
    {
        has_key(&self.states, state)
    }

    /// Records that a state was checked.
    pub fn record(&mut self, state: &str)
        requires
            old(self).wf(),
        ensures
            final(self).wf(),
            forall|k: Seq<char>| #[trigger]
                texts(final(self).states@).contains(k) == (k == state@ || (old(self).states@.len()
                    < max_proofs() && texts(old(self).states@).contains(k))),
    {
        if self.states.len() >= 256 {
            self.states = Vec::new();
            proof {
                assert(texts(self.states@) =~= Seq::empty());
            }
        }
        let ghost was = texts(self.states@);
        insert_key(&mut self.states, state);
        proof {
            assert forall|k: Seq<char>| #[trigger] texts(self.states@).contains(k) == (k == state@ || (
            old(self).states@.len() < max_proofs() && texts(old(self).states@).contains(k))) by {
                assert(was.contains(k) == (old(self).states@.len() < max_proofs() && texts(
                    old(self).states@,
                ).contains(k)));
            }
        }
    }
}

/// Whether there is anything to run in a text of SQL.
pub fn has_sql(sql: &str) -> (r: bool)
    ensures
        r == (trimmed(sql@).len() > 0),
{
    !trim(sql).is_empty()
}

/// A merge that has nothing to run makes no candidate.
pub fn guard_merge_candidate(sql: &str) -> (r: Result<(), CommandError>)
    ensures
        seen(r) == if trimmed(sql@).len() > 0 {
            Ok(())
        } else {
            Err(CommandError::InvalidCommand("cannot materialize an empty row merge candidate"@))
        },
{
    if has_sql(sql) {
        Ok(())
    } else {
        Err(invalid_command("cannot materialize an empty row merge candidate"))
    }
}

/// The statements that merge the rows of a database: those that need no selection, and after them
/// those of the selections, each on a line of its own.
pub open spec fn selection_sql(sql: Seq<char>, rows: Seq<Option<Seq<char>>>, n: int) -> Seq<char>
    decreases n,
{
    if n <= 0 {
        sql
    } else {
        let before = selection_sql(sql, rows, n - 1);
        match rows[n - 1] {
            Some(row) => before.push('\n') + row,
            None => before,
        }
    }
}

pub fn row_resolution_sql(sql: String, rows: &Vec<Option<String>>) -> (r: String)
    ensures
        r@ == selection_sql(
            sql@,
            crate::conflict_list::text_options(rows@),
            rows@.len() as int,
        ),
{
    let ghost start = sql@;
    let ghost rs = crate::conflict_list::text_options(rows@);
    let mut out = sql;
    let n: usize = rows.len();
    let mut i: usize = 0;
    while i < n
        invariant
            n == rows@.len(),
            i <= n,
            rs == crate::conflict_list::text_options(rows@),
            out@ == selection_sql(start, rs, i as int),
        decreases n - i,
    {
        proof {
            assert(rs[i as int] == text_option(rows@[i as int]));
        }
        if let Some(row) = &rows[i] {
            out.push('\n');
            out.append(row.as_str());
        }
        i += 1;
    }
    out
}

/// What a merge that an application resolves is built on, or why it cannot be: changes that are not
/// plain rows, conflicts in tables that the application does not manage, or a result that is there
/// already.
pub open spec fn seed_error(
    plan: RowMergePlanView,
    schema_additions: bool,
    unmanaged_conflicts: nat,
    result_exists: bool,
) -> Option<Seq<char>> {
    if plan.schema_conflicts.len() > 0 || schema_additions || plan.opaque_changes > 0
        || plan.limitations.len() > 0 || plan.requires_validation {
        Some(
            "semantic provider seed is blocked by schema, opaque, limited, or recomputation-required SQLite changes"@,
        )
    } else if unmanaged_conflicts > 0 {
        Some(
            "semantic provider seed has "@ + decimal(unmanaged_conflicts)
                + " unresolved conflict(s) outside provider-managed tables"@,
        )
    } else if result_exists {
        Some("semantic provider result path already exists before seed construction"@)
    } else {
        None
    }
}

pub fn guard_semantic_merge_seed(
    plan: &RowMergePlan,
    schema_additions: bool,
    unmanaged_conflicts: u64,
    result_exists: bool,
) -> (r: Result<(), CommandError>)
    ensures
        seen(r) == match seed_error(plan@, schema_additions, unmanaged_conflicts as nat, result_exists) {
            Some(m) => Err(CommandError::InvalidCommand(m)),
            None => Ok(()),
        },
{
    if plan.schema_conflicts.len() > 0 || schema_additions || plan.opaque_changes > 0
        || plan.limitations.len() > 0 || plan.requires_validation {
        return Err(
            invalid_command(
                "semantic provider seed is blocked by schema, opaque, limited, or recomputation-required SQLite changes",
            ),
        );
    }
    if unmanaged_conflicts > 0 {
        return Err(
            CommandError::InvalidCommand(
                cat3(
                    "semantic provider seed has ",
                    show_u64(unmanaged_conflicts).as_str(),
                    " unresolved conflict(s) outside provider-managed tables",
                ),
            ),
        );
    }
    if result_exists {
        return Err(
            invalid_command(
                "semantic provider result path already exists before seed construction",
            ),
        );
    }
    Ok(())
}

/// Where the result of a merge that was made outside comes from.
#[derive(Debug, Clone, Copy, PartialEq, Eq, Structural)]
pub enum ResultPlace {
    Worktree,
    External,
}

/// Why the result of a merge that was made outside is not staged.
pub open spec fn result_error(
    known: bool,
    database: bool,
    readable: bool,
    place: ResultPlace,
    key: Seq<char>,
    shown: Seq<char>,
) -> Option<CommandError<Seq<char>>> {
    if !known {
        Some(CommandError::Repo(RepoErr::PathNotConflicted(key)))
    } else if !database {
        Some(
            CommandError::InvalidCommand("path `"@ + key + "` is not a tracked SQLite merge path"@),
        )
    } else if !readable {
        Some(
            match place {
                ResultPlace::Worktree => CommandError::InvalidCommand(
                    "path `"@ + key + "` is not a readable SQLite worktree result"@,
                ),
                ResultPlace::External => CommandError::InvalidCommand(
                    "semantic merge result `"@ + shown + "` is not a readable SQLite database"@,
                ),
            },
        )
    } else {
        None
    }
}

/// The result of a merge that was made outside is staged for a database path of the merge, where it
/// can be read as a database.
pub fn guard_merge_result(
    state: &RowConflictResolutionState,
    entries: &Vec<IndexEntry>,
    readable: bool,
    place: ResultPlace,
    key: &str,
    shown: &str,
) -> (r: Result<(), CommandError>)
    requires
        state.wf(),
    ensures
        seen(r) == match result_error(
            state.paths@.contains_key(key@),
            some_file(views(entries@)),
            readable,
            place,
            key@,
            shown@,
        ) {
            Some(e) => Err(e),
            None => Ok(()),
        },
{
    if !state.paths.contains(key) {
        return Err(CommandError::Repo(RepoErr::PathNotConflicted(key.to_owned())));
    }
    if !has_file_entry(entries) {
        return Err(
            CommandError::InvalidCommand(
                cat3("path `", key, "` is not a tracked SQLite merge path"),
            ),
        );
    }
    if !readable {
        return match place {
            ResultPlace::Worktree => Err(
                CommandError::InvalidCommand(
                    cat3("path `", key, "` is not a readable SQLite worktree result"),
                ),
            ),
            ResultPlace::External => Err(
                CommandError::InvalidCommand(
                    cat3(
                        "semantic merge result `",
                        shown,
                        "` is not a readable SQLite database",
                    ),
                ),
            ),
        };
    }
    Ok(())
}

/// The entries of a path that are in conflict.
pub open spec fn conflict_entries_of(
    all: Seq<IndexEntryView>,
    path: Seq<char>,
) -> Seq<IndexEntryView>
    decreases all.len(),
{
    if all.len() == 0 {
        Seq::empty()
    } else {
        let before = conflict_entries_of(all.drop_last(), path);
        if in_conflict(all.last(), path) {
            before.push(all.last())
        } else {
            before
        }
    }
}

/// What is recorded of the paths when a merge begins: the entries of each that are in conflict, and
/// no resolution.
pub open spec fn records_conflicts(m: KeyMap<MergeResolutionPathState>, all: Seq<IndexEntryView>) -> bool {
    &&& m.wf()
    &&& forall|k: Seq<char>| #[trigger]
        m@.contains_key(k) == (conflict_entries_of(all, k).len() > 0)
    &&& forall|k: Seq<char>| #[trigger]
        m@.contains_key(k) ==> views(m@[k].original_entries@) == conflict_entries_of(all, k)
            && m@[k].resolution is None
}

pub fn merge_resolution_paths(entries: Vec<IndexEntry>) -> (r: KeyMap<MergeResolutionPathState>)
    ensures
        records_conflicts(r, views(entries@)),
{
    let ghost all = views(entries@);
    let mut m: KeyMap<MergeResolutionPathState> = KeyMap::new();
    proof {
        assert(all.take(0) =~= Seq::empty());
    }
    for e in it: entries
        invariant
            all == views(it.seq()),
            records_conflicts(m, all.take(it.index() as int)),
    {
        let ghost i = it.index() as int;
        proof {
            assert(all.take(i + 1).drop_last() =~= all.take(i));
            assert(all.take(i + 1).last() == e@);
        }
        if e.stage != IndexStage::Normal {
            let ghost was = m@;
            let path = e.path.clone();
            let mut state = match m.take(path.as_str()) {
                Some(state) => state,
                None => {
                    let state = MergeResolutionPathState {
                        original_entries: Vec::new(),
                        resolution: None,
                    };
                    proof {
                        assert(views(state.original_entries@) =~= Seq::empty());
                        assert(!was.contains_key(path@));
                        assert(conflict_entries_of(all.take(i), path@).len() == 0);
                        assert(conflict_entries_of(all.take(i), path@) =~= Seq::empty());
                    }
                    state
                },
            };
            let ghost before_push = state.original_entries@;
            proof {
                assert(views(before_push) == conflict_entries_of(all.take(i), path@));
            }
            state.original_entries.push(e);
            proof {
                assert(views(state.original_entries@) =~= views(before_push).push(e@));
            }
            m.put(path.as_str(), state);
            proof {
                assert(m@ =~= was.insert(path@, state));
            }
        }
    }
    proof {
        assert(all.take(all.len() as int) =~= all);
    }
    m
}

} // verus!
