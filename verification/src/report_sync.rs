//! Reports on merges, remotes, payloads and storage.
use vstd::prelude::*;
use vstd::string::*;

use crate::error::text_option;
use crate::model::{MergeOutcome, MergeOutcomeView, RemoteBranchRef, RemoteBranchRefView};
use crate::number::{decimal, show_u64};
use crate::remote::{remote_config_uri, uri_of};
use crate::report::{has_twelve, short_if_some};
use crate::show::{has_short, plural, plural_word, short, short_id, views};
use crate::spec::RemoteConfig;
use crate::text::{chars_of, join, joined, same, texts};

verus! {

/// A branch that was fetched.
#[derive(Debug, Clone, PartialEq, Eq)]
pub struct FetchOutcome<S = String> {
    pub remote: S,
    pub branch: S,
    pub head: S,
    pub commits: usize,
}

pub type FetchOutcomeView = FetchOutcome<Seq<char>>;

impl View for FetchOutcome<String> {
    type V = FetchOutcomeView;

    open spec fn view(&self) -> FetchOutcomeView {
        FetchOutcome {
            remote: self.remote@,
            branch: self.branch@,
            head: self.head@,
            commits: self.commits,
        }
    }
}

/// The branches that were fetched from a remote.
#[derive(Debug, Clone, PartialEq, Eq)]
pub struct FetchAllOutcome<S = String, L1 = Vec<FetchOutcome>> {
    pub remote: S,
    pub branches: L1,
}

pub type FetchAllOutcomeView = FetchAllOutcome<Seq<char>, Seq<FetchOutcomeView>>;

impl View for FetchAllOutcome<String, Vec<FetchOutcome>> {
    type V = FetchAllOutcomeView;

    open spec fn view(&self) -> FetchAllOutcomeView {
        FetchAllOutcome { remote: self.remote@, branches: views(self.branches@) }
    }
}

/// A branch that was pushed.
#[derive(Debug, Clone, PartialEq, Eq)]
pub struct PushOutcome<S = String> {
    pub remote: S,
    pub remote_branch: S,
    pub head: S,
    pub commits: usize,
    pub forced: bool,
    pub deleted: bool,
}

pub type PushOutcomeView = PushOutcome<Seq<char>>;

impl View for PushOutcome<String> {
    type V = PushOutcomeView;

    open spec fn view(&self) -> PushOutcomeView {
        PushOutcome {
            remote: self.remote@,
            remote_branch: self.remote_branch@,
            head: self.head@,
            commits: self.commits,
            forced: self.forced,
            deleted: self.deleted,
        }
    }
}

/// The branches that were pushed to a remote.
#[derive(Debug, Clone, PartialEq, Eq)]
pub struct PushAllOutcome<S = String, L1 = Vec<PushOutcome>> {
    pub remote: S,
    pub branches: L1,
}

pub type PushAllOutcomeView = PushAllOutcome<Seq<char>, Seq<PushOutcomeView>>;

impl View for PushAllOutcome<String, Vec<PushOutcome>> {
    type V = PushAllOutcomeView;

    open spec fn view(&self) -> PushAllOutcomeView {
        PushAllOutcome { remote: self.remote@, branches: views(self.branches@) }
    }
}

/// The commits of all branches together.
pub open spec fn fetch_commits(branches: Seq<FetchOutcomeView>) -> nat
    decreases branches.len(),
{
    if branches.len() == 0 {
        0
    } else {
        fetch_commits(branches.drop_last()) + branches.last().commits as nat
    }
}

fn count_fetch_commits(branches: &Vec<FetchOutcome>) -> (r: usize)
    requires
        fetch_commits(views(branches@)) <= usize::MAX,
    ensures
        r == fetch_commits(views(branches@)),
{
    let ghost all = views(branches@);
    let mut sum: usize = 0;
    let mut i: usize = 0;
    proof {
        assert(all.take(0) =~= Seq::empty());
    }
    while i < branches.len()
        invariant
            i <= branches@.len(),
            all == views(branches@),
            fetch_commits(all) <= usize::MAX,
            sum == fetch_commits(all.take(i as int)),
        decreases branches@.len() - i,
    {
        proof {
            assert(all.take(i + 1).drop_last() =~= all.take(i as int));
            assert(all.take(i + 1).last() == branches@[i as int]@);
            lemma_fetch_commits_grow(all, i + 1);
        }
        sum += branches[i].commits;
        i += 1;
    }
    proof {
        assert(all.take(i as int) =~= all);
    }
    sum
}

proof fn lemma_fetch_commits_grow(branches: Seq<FetchOutcomeView>, n: int)
    requires
        0 <= n <= branches.len(),
    ensures
        fetch_commits(branches.take(n)) <= fetch_commits(branches),
    decreases branches.len() - n,
{
    if n == branches.len() {
        assert(branches.take(n) =~= branches);
    } else {
        lemma_fetch_commits_grow(branches, n + 1);
        assert(branches.take(n + 1).drop_last() =~= branches.take(n));
    }
}

/// The commits of all branches together.
pub open spec fn push_commits(branches: Seq<PushOutcomeView>) -> nat
    decreases branches.len(),
{
    if branches.len() == 0 {
        0
    } else {
        push_commits(branches.drop_last()) + branches.last().commits as nat
    }
}

fn count_push_commits(branches: &Vec<PushOutcome>) -> (r: usize)
    requires
        push_commits(views(branches@)) <= usize::MAX,
    ensures
        r == push_commits(views(branches@)),
{
    let ghost all = views(branches@);
    let mut sum: usize = 0;
    let mut i: usize = 0;
    proof {
        assert(all.take(0) =~= Seq::empty());
    }
    while i < branches.len()
        invariant
            i <= branches@.len(),
            all == views(branches@),
            push_commits(all) <= usize::MAX,
            sum == push_commits(all.take(i as int)),
        decreases branches@.len() - i,
    {
        proof {
            assert(all.take(i + 1).drop_last() =~= all.take(i as int));
            assert(all.take(i + 1).last() == branches@[i as int]@);
            lemma_push_commits_grow(all, i + 1);
        }
        sum += branches[i].commits;
        i += 1;
    }
    proof {
        assert(all.take(i as int) =~= all);
    }
    sum
}

proof fn lemma_push_commits_grow(branches: Seq<PushOutcomeView>, n: int)
    requires
        0 <= n <= branches.len(),
    ensures
        push_commits(branches.take(n)) <= push_commits(branches),
    decreases branches.len() - n,
{
    if n == branches.len() {
        assert(branches.take(n) =~= branches);
    } else {
        lemma_push_commits_grow(branches, n + 1);
        assert(branches.take(n + 1).drop_last() =~= branches.take(n));
    }
}

/// A fetched branch in a report.
pub open spec fn fetched_branch_text(e: FetchOutcomeView) -> Seq<char> {
    "  "@ + e.remote + "/"@ + e.branch + " at "@ + short(e.head) + " ("@ + decimal(e.commits as nat)
        + " new "@ + plural(e.commits as nat, "commit"@, "commits"@) + ")\n"@
}

fn add_fetched_branch(out: &mut String, e: &FetchOutcome)
    requires
        has_twelve(e@.head),
    ensures
        final(out)@ == old(out)@ + fetched_branch_text(e@),
{
    out.append("  ");
    out.append(e.remote.as_str());
    out.append("/");
    out.append(e.branch.as_str());
    out.append(" at ");
    out.append(short_id(e.head.as_str()));
    out.append(" (");
    out.append(show_u64(e.commits as u64).as_str());
    out.append(" new ");
    out.append(plural_word(e.commits as u64, "commit", "commits"));
    out.append(")\n");
    proof {
        assert(out@ =~= old(out)@ + fetched_branch_text(e@));
    }
}

pub open spec fn fetched_branch_texts(es: Seq<FetchOutcomeView>) -> Seq<char>
    decreases es.len(),
{
    if es.len() == 0 {
        Seq::empty()
    } else {
        fetched_branch_texts(es.drop_last()) + fetched_branch_text(es.last())
    }
}

fn add_fetched_branch_list(out: &mut String, es: &Vec<FetchOutcome>)
    requires
        forall|i: int| 0 <= i < es@.len() ==> has_twelve(#[trigger] es@[i]@.head),
    ensures
        final(out)@ == old(out)@ + fetched_branch_texts(views(es@)),
{
    let ghost list = views(es@);
    let mut i: usize = 0;
    proof {
        assert(list.take(0) =~= Seq::empty());
        assert(old(out)@ + Seq::<char>::empty() =~= old(out)@);
    }
    while i < es.len()
        invariant
            i <= es@.len(),
            list == views(es@),
            forall|i: int| 0 <= i < es@.len() ==> has_twelve(#[trigger] es@[i]@.head),
            out@ == old(out)@ + fetched_branch_texts(list.take(i as int)),
        decreases es@.len() - i,
    {
        proof {
            assert(list.take(i + 1).drop_last() =~= list.take(i as int));
            assert(list.take(i + 1).last() == es@[i as int]@);
        }
        add_fetched_branch(out, &es[i]);
        proof {
            assert(out@ =~= old(out)@ + fetched_branch_texts(list.take(i + 1)));
        }
        i += 1;
    }
    proof {
        assert(list.take(i as int) =~= list);
    }
}

/// The report on fetched branches.
pub open spec fn fetch_all_report(outcome: FetchAllOutcomeView) -> Seq<char> {
    let commits = fetch_commits(outcome.branches);
    "Fetched "@ + outcome.remote + " ("@ + decimal(outcome.branches.len()) + " "@ + plural(
            outcome.branches.len(),
            "branch"@,
            "branchs"@,
        ) + ", "@ + decimal(commits) + " new "@ + plural(commits, "commit"@, "commits"@) + ")\n"@ + fetched_branch_texts(outcome.branches)
}

pub fn format_fetch_all_outcome(outcome: &FetchAllOutcome) -> (r: String)
    requires
        fetch_commits(outcome@.branches) <= usize::MAX,
        forall|i: int|
            0 <= i < outcome.branches@.len() ==> has_twelve(#[trigger] outcome.branches@[i]@.head),
    ensures
        r@ == fetch_all_report(outcome@),
{
    let commits: usize = count_fetch_commits(&outcome.branches);
    let mut out = "Fetched ".to_owned();
    out.append(outcome.remote.as_str());
    out.append(" (");
    out.append(show_u64(outcome.branches.len() as u64).as_str());
    out.append(" ");
    out.append(plural_word(outcome.branches.len() as u64, "branch", "branchs"));
    out.append(", ");
    out.append(show_u64(commits as u64).as_str());
    out.append(" new ");
    out.append(plural_word(commits as u64, "commit", "commits"));
    out.append(")\n");
    add_fetched_branch_list(&mut out, &outcome.branches);
    out
}

/// A pushed branch in a report.
pub open spec fn pushed_branch_text(e: PushOutcomeView) -> Seq<char> {
    if e.deleted {
        "  Deleted "@ + e.remote + "/"@ + e.remote_branch + " (was "@ + short(e.head) + ")\n"@
    } else {
        "  "@ + (if e.forced { "+"@ } else { ""@ }) + e.remote + "/"@ + e.remote_branch + " at "@
            + short(e.head) + " ("@ + decimal(e.commits as nat) + " "@
            + plural(e.commits as nat, "commit"@, "commits"@) + ")\n"@
    }
}

fn add_pushed_branch(out: &mut String, e: &PushOutcome)
    requires
        short_push(e@),
    ensures
        final(out)@ == old(out)@ + pushed_branch_text(e@),
{
    if e.deleted {
        out.append("  Deleted ");
        out.append(e.remote.as_str());
        out.append("/");
        out.append(e.remote_branch.as_str());
        out.append(" (was ");
        out.append(short_id(e.head.as_str()));
        out.append(")\n");
    } else {
        out.append("  ");
        out.append(if e.forced { "+" } else { "" });
        out.append(e.remote.as_str());
        out.append("/");
        out.append(e.remote_branch.as_str());
        out.append(" at ");
        out.append(short_id(e.head.as_str()));
        out.append(" (");
        out.append(show_u64(e.commits as u64).as_str());
        out.append(" ");
        out.append(plural_word(e.commits as u64, "commit", "commits"));
        out.append(")\n");
    }
    proof {
        assert(out@ =~= old(out)@ + pushed_branch_text(e@));
    }
}

pub open spec fn pushed_branch_texts(es: Seq<PushOutcomeView>) -> Seq<char>
    decreases es.len(),
{
    if es.len() == 0 {
        Seq::empty()
    } else {
        pushed_branch_texts(es.drop_last()) + pushed_branch_text(es.last())
    }
}

fn add_pushed_branch_list(out: &mut String, es: &Vec<PushOutcome>)
    requires
        forall|i: int| 0 <= i < es@.len() ==> short_push(#[trigger] es@[i]@),
    ensures
        final(out)@ == old(out)@ + pushed_branch_texts(views(es@)),
{
    let ghost list = views(es@);
    let mut i: usize = 0;
    proof {
        assert(list.take(0) =~= Seq::empty());
        assert(old(out)@ + Seq::<char>::empty() =~= old(out)@);
    }
    while i < es.len()
        invariant
            i <= es@.len(),
            list == views(es@),
            forall|i: int| 0 <= i < es@.len() ==> short_push(#[trigger] es@[i]@),
            out@ == old(out)@ + pushed_branch_texts(list.take(i as int)),
        decreases es@.len() - i,
    {
        proof {
            assert(list.take(i + 1).drop_last() =~= list.take(i as int));
            assert(list.take(i + 1).last() == es@[i as int]@);
        }
        add_pushed_branch(out, &es[i]);
        proof {
            assert(out@ =~= old(out)@ + pushed_branch_texts(list.take(i + 1)));
        }
        i += 1;
    }
    proof {
        assert(list.take(i as int) =~= list);
    }
}

/// The head of a pushed branch can be shortened; that of one that was not deleted is long enough.
pub open spec fn short_push(branch: PushOutcomeView) -> bool {
    if branch.deleted {
        has_short(branch.head)
    } else {
        has_twelve(branch.head)
    }
}

/// Some branch was pushed by force.
pub open spec fn any_forced(branches: Seq<PushOutcomeView>) -> bool {
    exists|i: int| 0 <= i < branches.len() && (#[trigger] branches[i]).forced
}

fn is_any_forced(branches: &Vec<PushOutcome>) -> (r: bool)
    ensures
        r == any_forced(views(branches@)),
{
    let mut i: usize = 0;
    while i < branches.len()
        invariant
            i <= branches@.len(),
            forall|j: int| 0 <= j < i ==> !(#[trigger] views(branches@)[j]).forced,
        decreases branches@.len() - i,
    {
        if branches[i].forced {
            proof {
                assert(views(branches@)[i as int].forced);
            }
            return true;
        }
        i += 1;
    }
    false
}

/// The report on pushed branches.
pub open spec fn push_all_report(outcome: PushAllOutcomeView) -> Seq<char> {
    let commits = push_commits(outcome.branches);
    (if any_forced(outcome.branches) {
            "Force-pushed"@
        } else {
            "Pushed"@
        }) + " "@ + outcome.remote + " ("@ + decimal(outcome.branches.len()) + " "@ + plural(
            outcome.branches.len(),
            "branch"@,
            "branchs"@,
        ) + ", "@ + decimal(commits) + " "@ + plural(commits, "commit"@, "commits"@) + ")\n"@ + pushed_branch_texts(outcome.branches)
}

pub fn format_push_all_outcome(outcome: &PushAllOutcome) -> (r: String)
    requires
        push_commits(outcome@.branches) <= usize::MAX,
        forall|i: int|
            0 <= i < outcome.branches@.len() ==> short_push(#[trigger] outcome.branches@[i]@),
    ensures
        r@ == push_all_report(outcome@),
{
    let commits: usize = count_push_commits(&outcome.branches);
    let forced: bool = is_any_forced(&outcome.branches);
    let mut out = if forced {
        "Force-pushed".to_owned()
    } else {
        "Pushed".to_owned()
    };
    out.append(" ");
    out.append(outcome.remote.as_str());
    out.append(" (");
    out.append(show_u64(outcome.branches.len() as u64).as_str());
    out.append(" ");
    out.append(plural_word(outcome.branches.len() as u64, "branch", "branchs"));
    out.append(", ");
    out.append(show_u64(commits as u64).as_str());
    out.append(" ");
    out.append(plural_word(commits as u64, "commit", "commits"));
    out.append(")\n");
    add_pushed_branch_list(&mut out, &outcome.branches);
    out
}

/// One branch, or all that were asked for.
#[derive(Debug, Clone, PartialEq, Eq)]
pub enum FetchCommandOutcome<O = FetchOutcome, A = FetchAllOutcome> {
    One(O),
    Many(A),
}

pub type FetchCommandOutcomeView = FetchCommandOutcome<FetchOutcomeView, FetchAllOutcomeView>;

impl View for FetchCommandOutcome<FetchOutcome, FetchAllOutcome> {
    type V = FetchCommandOutcomeView;

    open spec fn view(&self) -> FetchCommandOutcomeView {
        match self {
            FetchCommandOutcome::One(o) => FetchCommandOutcome::One(o@),
            FetchCommandOutcome::Many(all) => FetchCommandOutcome::Many(all@),
        }
    }
}

/// The remote of a command's outcome.
pub open spec fn fetch_remote(outcome: FetchCommandOutcomeView) -> Seq<char> {
    match outcome {
        FetchCommandOutcome::One(o) => o.remote,
        FetchCommandOutcome::Many(all) => all.remote,
    }
}

/// The branches of a command's outcome.
pub open spec fn fetch_branches(outcome: FetchCommandOutcomeView) -> Seq<FetchOutcomeView> {
    match outcome {
        FetchCommandOutcome::One(o) => seq![o],
        FetchCommandOutcome::Many(all) => all.branches,
    }
}

/// The report on a command's outcome.
pub open spec fn fetch_report(outcome: FetchCommandOutcomeView) -> Seq<char> {
    match outcome {
        FetchCommandOutcome::One(o) => "Fetched "@ + o.remote + "/"@ + o.branch + " at "@ + short(o.head) + " ("@ + decimal(o.commits as nat) + " new commits)"@,
        FetchCommandOutcome::Many(all) => fetch_all_report(all),
    }
}

/// The ids of a command's outcome can be shortened, and its commits counted.
pub open spec fn fetch_reportable(outcome: FetchCommandOutcomeView) -> bool {
    match outcome {
        FetchCommandOutcome::One(o) => has_twelve(o.head),
        FetchCommandOutcome::Many(all) => fetch_commits(all.branches) <= usize::MAX && forall|i: int|
            0 <= i < all.branches.len() ==> has_twelve(#[trigger] all.branches[i].head),
    }
}

pub fn format_fetch_command_outcome(outcome: &FetchCommandOutcome) -> (r: String)
    requires
        fetch_reportable(outcome@),
    ensures
        r@ == fetch_report(outcome@),
{
    match outcome {
        FetchCommandOutcome::One(o) => {
            let mut out = "Fetched ".to_owned();
            out.append(o.remote.as_str());
            out.append("/");
            out.append(o.branch.as_str());
            out.append(" at ");
            out.append(short_id(o.head.as_str()));
            out.append(" (");
            out.append(show_u64(o.commits as u64).as_str());
            out.append(" new commits)");
            out
        },
        FetchCommandOutcome::Many(all) => {
            proof {
                assert forall|i: int| 0 <= i < all.branches@.len() implies has_twelve(#[trigger] all.branches@[i]@.head) by {
                    assert(all@.branches[i] == all.branches@[i]@);
                }
            }
            format_fetch_all_outcome(all)
        },
    }
}

impl FetchCommandOutcome<FetchOutcome, FetchAllOutcome> {
    pub fn remote(&self) -> (r: String)
        ensures
            r@ == fetch_remote(self@),
    {
        match self {
            FetchCommandOutcome::One(o) => o.remote.clone(),
            FetchCommandOutcome::Many(all) => all.remote.clone(),
        }
    }

    /// The commits of all branches together.
    pub fn commits(&self) -> (r: usize)
        requires
            fetch_commits(fetch_branches(self@)) <= usize::MAX,
        ensures
            r == fetch_commits(fetch_branches(self@)),
    {
        match self {
            FetchCommandOutcome::One(o) => {
                proof {
                    reveal_with_fuel(fetch_commits, 2);
                    assert(fetch_branches(self@).drop_last() =~= Seq::empty());
                }
                o.commits
            },
            FetchCommandOutcome::Many(all) => count_fetch_commits(&all.branches),
        }
    }
}

/// One branch, or all that were asked for.
#[derive(Debug, Clone, PartialEq, Eq)]
pub enum PushCommandOutcome<O = PushOutcome, A = PushAllOutcome> {
    One(O),
    Many(A),
}

pub type PushCommandOutcomeView = PushCommandOutcome<PushOutcomeView, PushAllOutcomeView>;

impl View for PushCommandOutcome<PushOutcome, PushAllOutcome> {
    type V = PushCommandOutcomeView;

    open spec fn view(&self) -> PushCommandOutcomeView {
        match self {
            PushCommandOutcome::One(o) => PushCommandOutcome::One(o@),
            PushCommandOutcome::Many(all) => PushCommandOutcome::Many(all@),
        }
    }
}

/// The remote of a command's outcome.
pub open spec fn push_remote(outcome: PushCommandOutcomeView) -> Seq<char> {
    match outcome {
        PushCommandOutcome::One(o) => o.remote,
        PushCommandOutcome::Many(all) => all.remote,
    }
}

/// The branches of a command's outcome.
pub open spec fn push_branches(outcome: PushCommandOutcomeView) -> Seq<PushOutcomeView> {
    match outcome {
        PushCommandOutcome::One(o) => seq![o],
        PushCommandOutcome::Many(all) => all.branches,
    }
}

/// The report on a command's outcome.
pub open spec fn push_report(outcome: PushCommandOutcomeView) -> Seq<char> {
    match outcome {
        PushCommandOutcome::One(o) => (if o.forced { "Force-pushed"@ } else { "Pushed"@ }) + " "@ + o.remote + "/"@ + o.remote_branch + " to "@ + short(o.head) + " ("@ + decimal(o.commits as nat) + " commits)"@,
        PushCommandOutcome::Many(all) => push_all_report(all),
    }
}

/// The ids of a command's outcome can be shortened, and its commits counted.
pub open spec fn push_reportable(outcome: PushCommandOutcomeView) -> bool {
    match outcome {
        PushCommandOutcome::One(o) => has_twelve(o.head),
        PushCommandOutcome::Many(all) => push_commits(all.branches) <= usize::MAX && forall|i: int|
            0 <= i < all.branches.len() ==> short_push(#[trigger] all.branches[i]),
    }
}

pub fn format_push_command_outcome(outcome: &PushCommandOutcome) -> (r: String)
    requires
        push_reportable(outcome@),
    ensures
        r@ == push_report(outcome@),
{
    match outcome {
        PushCommandOutcome::One(o) => {
            let mut out = if o.forced {
                "Force-pushed".to_owned()
            } else {
                "Pushed".to_owned()
            };
            out.append(" ");
            out.append(o.remote.as_str());
            out.append("/");
            out.append(o.remote_branch.as_str());
            out.append(" to ");
            out.append(short_id(o.head.as_str()));
            out.append(" (");
            out.append(show_u64(o.commits as u64).as_str());
            out.append(" commits)");
            out
        },
        PushCommandOutcome::Many(all) => {
            proof {
                assert forall|i: int| 0 <= i < all.branches@.len() implies short_push(#[trigger] all.branches@[i]@) by {
                    assert(all@.branches[i] == all.branches@[i]@);
                }
            }
            format_push_all_outcome(all)
        },
    }
}

impl PushCommandOutcome<PushOutcome, PushAllOutcome> {
    pub fn remote(&self) -> (r: String)
        ensures
            r@ == push_remote(self@),
    {
        match self {
            PushCommandOutcome::One(o) => o.remote.clone(),
            PushCommandOutcome::Many(all) => all.remote.clone(),
        }
    }

    /// The commits of all branches together.
    pub fn commits(&self) -> (r: usize)
        requires
            push_commits(push_branches(self@)) <= usize::MAX,
        ensures
            r == push_commits(push_branches(self@)),
    {
        match self {
            PushCommandOutcome::One(o) => {
                proof {
                    reveal_with_fuel(push_commits, 2);
                    assert(push_branches(self@).drop_last() =~= Seq::empty());
                }
                o.commits
            },
            PushCommandOutcome::Many(all) => count_push_commits(&all.branches),
        }
    }
}

impl PushCommandOutcome<PushOutcome, PushAllOutcome> {
    /// Whether some branch was pushed by force.
    pub fn forced(&self) -> (r: bool)
        ensures
            r == any_forced(push_branches(self@)),
    {
        match self {
            PushCommandOutcome::One(o) => {
                proof {
                    assert(push_branches(self@)[0] == o@);
                }
                o.forced
            },
            PushCommandOutcome::Many(all) => is_any_forced(&all.branches),
        }
    }
}

/// An indented path.
pub open spec fn merge_path_text(e: Seq<char>) -> Seq<char> {
    "  "@ + e + "\n"@
}

fn add_merge_path(out: &mut String, e: &String)
    ensures
        final(out)@ == old(out)@ + merge_path_text(e@),
{
    out.append("  ");
    out.append(e.as_str());
    out.append("\n");
    proof {
        assert(out@ =~= old(out)@ + merge_path_text(e@));
    }
}

pub open spec fn merge_path_texts(es: Seq<Seq<char>>) -> Seq<char>
    decreases es.len(),
{
    if es.len() == 0 {
        Seq::empty()
    } else {
        merge_path_texts(es.drop_last()) + merge_path_text(es.last())
    }
}

fn add_merge_path_list(out: &mut String, es: &Vec<String>)
    ensures
        final(out)@ == old(out)@ + merge_path_texts(texts(es@)),
{
    let ghost list = texts(es@);
    let mut i: usize = 0;
    proof {
        assert(list.take(0) =~= Seq::empty());
        assert(old(out)@ + Seq::<char>::empty() =~= old(out)@);
    }
    while i < es.len()
        invariant
            i <= es@.len(),
            list == texts(es@),
            out@ == old(out)@ + merge_path_texts(list.take(i as int)),
        decreases es@.len() - i,
    {
        proof {
            assert(list.take(i + 1).drop_last() =~= list.take(i as int));
            assert(list.take(i + 1).last() == es@[i as int]@);
        }
        add_merge_path(out, &es[i]);
        proof {
            assert(out@ =~= old(out)@ + merge_path_texts(list.take(i + 1)));
        }
        i += 1;
    }
    proof {
        assert(list.take(i as int) =~= list);
    }
}

/// The ids of a merge can be shortened.
pub open spec fn short_merge(outcome: MergeOutcomeView) -> bool {
    match outcome {
        MergeOutcome::FastForward { from, to } => short_if_some(from) && has_short(to),
        MergeOutcome::AlreadyUpToDate { head } => has_short(head),
        MergeOutcome::Merged { target, merge_base, .. } => has_short(target) && short_if_some(
            merge_base,
        ),
    }
}

/// The commit that both sides of a merge come from, where there is one.
pub open spec fn merge_base_text(base: Option<Seq<char>>) -> Seq<char> {
    match base {
        Some(id) => "Merge base "@ + short(id) + "\n"@,
        None => Seq::empty(),
    }
}

fn add_merge_base(out: &mut String, base: &Option<String>)
    requires
        short_if_some(text_option(*base)),
    ensures
        final(out)@ == old(out)@ + merge_base_text(text_option(*base)),
{
    if let Some(id) = base {
        out.append("Merge base ");
        out.append(short_id(id.as_str()));
        out.append("\n");
    }
    proof {
        assert(out@ =~= old(out)@ + merge_base_text(text_option(*base)));
    }
}

/// Paths of a merge under a title, where there are any.
pub open spec fn merge_section(title: Seq<char>, paths: Seq<Seq<char>>) -> Seq<char> {
    if paths.len() == 0 {
        Seq::empty()
    } else {
        title + merge_path_texts(paths)
    }
}

fn add_merge_section(out: &mut String, title: &str, paths: &Vec<String>)
    ensures
        final(out)@ == old(out)@ + merge_section(title@, texts(paths@)),
{
    if paths.len() != 0 {
        out.append(title);
        add_merge_path_list(out, paths);
    }
    proof {
        assert(out@ =~= old(out)@ + merge_section(title@, texts(paths@)));
    }
}

/// The report on a merge.
pub open spec fn merge_report(outcome: MergeOutcomeView) -> Seq<char> {
    match outcome {
        MergeOutcome::FastForward { from: Some(id), to } => "Fast-forward "@ + short(id) + ".."@
            + short(to) + "\n"@,
        MergeOutcome::FastForward { from: None, to } => "Fast-forward to "@ + short(to) + "\n"@,
        MergeOutcome::AlreadyUpToDate { head } => "Already up to date at "@ + short(head) + "\n"@,
        MergeOutcome::Merged { target, merge_base, staged, conflicted, .. } => "Merged "@ + short(
            target,
        ) + "\n"@ + merge_base_text(merge_base) + merge_section("Staged paths:\n"@, staged)
            + merge_section("Unmerged paths:\n"@, conflicted) + (if staged.len() == 0
            && conflicted.len() == 0 {
            "No changes.\n"@
        } else {
            Seq::empty()
        }),
    }
}

pub fn format_merge_outcome(outcome: &MergeOutcome) -> (r: String)
    requires
        short_merge(outcome@),
    ensures
        r@ == merge_report(outcome@),
{
    let mut out = String::new();
    match outcome {
        MergeOutcome::FastForward { from, to } => {
            match from {
                Some(id) => {
                    out.append("Fast-forward ");
                    out.append(short_id(id.as_str()));
                    out.append("..");
                },
                None => out.append("Fast-forward to "),
            }
            out.append(short_id(to.as_str()));
            out.append("\n");
        },
        MergeOutcome::AlreadyUpToDate { head } => {
            out.append("Already up to date at ");
            out.append(short_id(head.as_str()));
            out.append("\n");
        },
        MergeOutcome::Merged { target, merge_base, staged, conflicted, .. } => {
            out.append("Merged ");
            out.append(short_id(target.as_str()));
            out.append("\n");
            add_merge_base(&mut out, merge_base);
            add_merge_section(&mut out, "Staged paths:\n", staged);
            add_merge_section(&mut out, "Unmerged paths:\n", conflicted);
            if staged.len() == 0 && conflicted.len() == 0 {
                out.append("No changes.\n");
            }
        },
    }
    proof {
        assert(out@ =~= merge_report(outcome@));
    }
    out
}

/// What a pull fetched and how it merged it.
#[derive(Debug, Clone, PartialEq, Eq)]
pub struct PullOutcome<S = String, L1 = MergeOutcome> {
    pub remote: S,
    pub remote_branch: S,
    pub local_branch: S,
    pub head: S,
    pub commits: usize,
    pub merge: L1,
}

pub type PullOutcomeView = PullOutcome<Seq<char>, MergeOutcomeView>;

impl View for PullOutcome<String, MergeOutcome> {
    type V = PullOutcomeView;

    open spec fn view(&self) -> PullOutcomeView {
        PullOutcome {
            remote: self.remote@,
            remote_branch: self.remote_branch@,
            local_branch: self.local_branch@,
            head: self.head@,
            commits: self.commits,
            merge: self.merge@,
        }
    }
}

/// How a pull brought the local branch up to what was fetched.
pub open spec fn pulled_text(outcome: PullOutcomeView) -> Seq<char> {
    match outcome.merge {
        MergeOutcome::FastForward { from: Some(id), to } => "Fast-forwarded "@ + outcome.local_branch
            + " "@ + short(id) + ".."@ + short(to) + "\n"@,
        MergeOutcome::FastForward { from: None, to } => "Fast-forwarded "@ + outcome.local_branch
            + " to "@ + short(to) + "\n"@,
        MergeOutcome::AlreadyUpToDate { head } => outcome.local_branch + " already up to date at "@
            + short(head) + "\n"@,
        MergeOutcome::Merged { target, merge_base, staged, conflicted, .. } => "Merged "@
            + outcome.remote + "/"@ + outcome.remote_branch + " ("@ + short(target) + ") into "@
            + outcome.local_branch + "\n"@ + merge_base_text(merge_base) + merge_section(
            "Staged paths:\n"@,
            staged,
        ) + merge_section("Unmerged paths:\n"@, conflicted) + (if conflicted.len() == 0 {
            "Commit to complete the merge.\n"@
        } else {
            Seq::empty()
        }),
    }
}

fn add_pulled(out: &mut String, outcome: &PullOutcome)
    requires
        short_merge(outcome@.merge),
    ensures
        final(out)@ == old(out)@ + pulled_text(outcome@),
{
    let ghost b = out@;
    match &outcome.merge {
        MergeOutcome::FastForward { from, to } => {
            out.append("Fast-forwarded ");
            out.append(outcome.local_branch.as_str());
            match from {
                Some(id) => {
                    out.append(" ");
                    out.append(short_id(id.as_str()));
                    out.append("..");
                },
                None => out.append(" to "),
            }
            out.append(short_id(to.as_str()));
            out.append("\n");
            proof {
                assert(out@ =~= b + pulled_text(outcome@));
            }
        },
        MergeOutcome::AlreadyUpToDate { head } => {
            out.append(outcome.local_branch.as_str());
            out.append(" already up to date at ");
            out.append(short_id(head.as_str()));
            out.append("\n");
            proof {
                assert(out@ =~= b + pulled_text(outcome@));
            }
        },
        MergeOutcome::Merged { target, merge_base, staged, conflicted, .. } => {
            out.append("Merged ");
            out.append(outcome.remote.as_str());
            out.append("/");
            out.append(outcome.remote_branch.as_str());
            out.append(" (");
            out.append(short_id(target.as_str()));
            out.append(") into ");
            out.append(outcome.local_branch.as_str());
            out.append("\n");
            add_merge_base(out, merge_base);
            add_merge_section(out, "Staged paths:\n", staged);
            add_merge_section(out, "Unmerged paths:\n", conflicted);
            if conflicted.len() == 0 {
                out.append("Commit to complete the merge.\n");
            }
            proof {
                assert(out@ =~= b + pulled_text(outcome@));
            }
        },
    }
}

/// The report on a pull.
pub open spec fn pull_report(outcome: PullOutcomeView) -> Seq<char> {
    "Fetched "@ + outcome.remote + "/"@ + outcome.remote_branch + " at "@ + short(outcome.head) + " ("@
        + decimal(outcome.commits as nat) + " new commits)\n"@ + pulled_text(outcome)
}

pub fn format_pull_outcome(outcome: &PullOutcome) -> (r: String)
    requires
        has_short(outcome@.head),
        short_merge(outcome@.merge),
    ensures
        r@ == pull_report(outcome@),
{
    let mut out = "Fetched ".to_owned();
    out.append(outcome.remote.as_str());
    out.append("/");
    out.append(outcome.remote_branch.as_str());
    out.append(" at ");
    out.append(short_id(outcome.head.as_str()));
    out.append(" (");
    out.append(show_u64(outcome.commits as u64).as_str());
    out.append(" new commits)\n");
    add_pulled(&mut out, outcome);
    out
}

/// What a row-level merge of one database did.
#[derive(Debug, Clone, PartialEq, Eq)]
pub struct RowAutoMergeResult<S = String> {
    pub key: S,
    pub applied_changes: usize,
    pub ours_changes: usize,
    pub theirs_changes: usize,
    pub resolved: bool,
    pub requires_validation: bool,
}

pub type RowAutoMergeResultView = RowAutoMergeResult<Seq<char>>;

impl View for RowAutoMergeResult<String> {
    type V = RowAutoMergeResultView;

    open spec fn view(&self) -> RowAutoMergeResultView {
        RowAutoMergeResult {
            key: self.key@,
            applied_changes: self.applied_changes,
            ours_changes: self.ours_changes,
            theirs_changes: self.theirs_changes,
            resolved: self.resolved,
            requires_validation: self.requires_validation,
        }
    }
}

/// `s` with a line feed at its end where it has none.
pub open spec fn on_new_line(s: Seq<char>) -> Seq<char> {
    if s.len() > 0 && s.last() == '\n' {
        s
    } else {
        s.push('\n')
    }
}

/// Starts a new line where the report has not ended its last one.
pub fn start_line(output: &mut String)
    ensures
        final(output)@ == on_new_line(old(output)@),
{
    let cs = chars_of(output.as_str());
    let n: usize = cs.len();
    if !(n > 0 && cs[n - 1] == '\n') {
        output.push('\n');
    }
}

/// The report on a row-level merge.
pub open spec fn row_auto_merge_text(e: RowAutoMergeResultView) -> Seq<char> {
    "Row-level auto-merged "@ + e.key + ":\n  applied "@ + decimal(e.applied_changes as nat)
        + " row change(s) from theirs\n  ours: "@ + decimal(e.ours_changes as nat)
        + " row change(s)\n  theirs: "@ + decimal(e.theirs_changes as nat) + " row change(s)\n"@
}

fn add_row_auto_merge(out: &mut String, e: &RowAutoMergeResult)
    ensures
        final(out)@ == old(out)@ + row_auto_merge_text(e@),
{
    out.append("Row-level auto-merged ");
    out.append(e.key.as_str());
    out.append(":\n  applied ");
    out.append(show_u64(e.applied_changes as u64).as_str());
    out.append(" row change(s) from theirs\n  ours: ");
    out.append(show_u64(e.ours_changes as u64).as_str());
    out.append(" row change(s)\n  theirs: ");
    out.append(show_u64(e.theirs_changes as u64).as_str());
    out.append(" row change(s)\n");
    proof {
        assert(out@ =~= old(out)@ + row_auto_merge_text(e@));
    }
}

/// Adds the report on a row-level merge on lines of its own.
pub fn append_row_auto_merge_result(output: &mut String, result: &RowAutoMergeResult)
    ensures
        final(output)@ == on_new_line(old(output)@) + row_auto_merge_text(result@),
{
    start_line(output);
    add_row_auto_merge(output, result);
}

/// A configured remote.
#[derive(Debug, Clone, PartialEq, Eq)]
pub struct RemoteInfo<S = String, L1 = RemoteConfig> {
    pub name: S,
    pub config: L1,
}

pub type RemoteInfoView = RemoteInfo<Seq<char>, RemoteConfigView>;

impl View for RemoteInfo<String, RemoteConfig> {
    type V = RemoteInfoView;

    open spec fn view(&self) -> RemoteInfoView {
        RemoteInfo { name: self.name@, config: self.config@ }
    }
}

pub type RemoteConfigView = RemoteConfig<Seq<char>>;

/// The report on a new remote.
pub open spec fn remote_added_report(remote: RemoteInfoView) -> Seq<char> {
    "Added remote '"@ + remote.name + "': "@ + uri_of(remote.config)
}

pub fn format_remote(remote: &RemoteInfo) -> (r: String)
    ensures
        r@ == remote_added_report(remote@),
{
    let mut out = String::new();
    out.append("Added remote '");
    out.append(remote.name.as_str());
    out.append("': ");
    out.append(remote_config_uri(&remote.config).as_str());
    proof {
        assert(out@ =~= remote_added_report(remote@));
    }
    out
}

/// A remote in a listing.
pub open spec fn remote_line_text(e: RemoteInfoView) -> Seq<char> {
    e.name + "\t"@ + uri_of(e.config) + "\n"@
}

fn add_remote_line(out: &mut String, e: &RemoteInfo)
    ensures
        final(out)@ == old(out)@ + remote_line_text(e@),
{
    out.append(e.name.as_str());
    out.append("\t");
    out.append(remote_config_uri(&e.config).as_str());
    out.append("\n");
    proof {
        assert(out@ =~= old(out)@ + remote_line_text(e@));
    }
}

pub open spec fn remote_line_texts(es: Seq<RemoteInfoView>) -> Seq<char>
    decreases es.len(),
{
    if es.len() == 0 {
        Seq::empty()
    } else {
        remote_line_texts(es.drop_last()) + remote_line_text(es.last())
    }
}

fn add_remote_line_list(out: &mut String, es: &Vec<RemoteInfo>)
    ensures
        final(out)@ == old(out)@ + remote_line_texts(views(es@)),
{
    let ghost list = views(es@);
    let mut i: usize = 0;
    proof {
        assert(list.take(0) =~= Seq::empty());
        assert(old(out)@ + Seq::<char>::empty() =~= old(out)@);
    }
    while i < es.len()
        invariant
            i <= es@.len(),
            list == views(es@),
            out@ == old(out)@ + remote_line_texts(list.take(i as int)),
        decreases es@.len() - i,
    {
        proof {
            assert(list.take(i + 1).drop_last() =~= list.take(i as int));
            assert(list.take(i + 1).last() == es@[i as int]@);
        }
        add_remote_line(out, &es[i]);
        proof {
            assert(out@ =~= old(out)@ + remote_line_texts(list.take(i + 1)));
        }
        i += 1;
    }
    proof {
        assert(list.take(i as int) =~= list);
    }
}

/// The listing of remotes.
pub open spec fn remotes_report(all: Seq<RemoteInfoView>) -> Seq<char> {
    if all.len() == 0 {
        "No remotes configured."@
    } else {
        remote_line_texts(all)
    }
}

pub fn format_remotes(all: &Vec<RemoteInfo>) -> (r: String)
    ensures
        r@ == remotes_report(views(all@)),
{
    if all.len() == 0 {
        return "No remotes configured.".to_owned();
    }
    let mut out = String::new();
    add_remote_line_list(&mut out, all);
    out
}

/// The remote-tracking branches that were pruned.
#[derive(Debug, Clone, PartialEq, Eq)]
pub struct RemotePruneOutcome<S = String, L1 = Vec<String>> {
    pub remote: S,
    pub branches: L1,
}

pub type RemotePruneOutcomeView = RemotePruneOutcome<Seq<char>, Seq<Seq<char>>>;

impl View for RemotePruneOutcome<String, Vec<String>> {
    type V = RemotePruneOutcomeView;

    open spec fn view(&self) -> RemotePruneOutcomeView {
        RemotePruneOutcome { remote: self.remote@, branches: texts(self.branches@) }
    }
}

/// A pruned branch.
pub open spec fn pruned_branch_text(e: Seq<char>, remote: Seq<char>) -> Seq<char> {
    "  "@ + remote + "/"@ + e + "\n"@
}

fn add_pruned_branch(out: &mut String, e: &String, remote: &str)
    ensures
        final(out)@ == old(out)@ + pruned_branch_text(e@, remote@),
{
    out.append("  ");
    out.append(remote);
    out.append("/");
    out.append(e.as_str());
    out.append("\n");
    proof {
        assert(out@ =~= old(out)@ + pruned_branch_text(e@, remote@));
    }
}

pub open spec fn pruned_branch_texts(es: Seq<Seq<char>>, remote: Seq<char>) -> Seq<char>
    decreases es.len(),
{
    if es.len() == 0 {
        Seq::empty()
    } else {
        pruned_branch_texts(es.drop_last(), remote) + pruned_branch_text(es.last(), remote)
    }
}

fn add_pruned_branch_list(out: &mut String, es: &Vec<String>, remote: &str)
    ensures
        final(out)@ == old(out)@ + pruned_branch_texts(texts(es@), remote@),
{
    let ghost list = texts(es@);
    let mut i: usize = 0;
    proof {
        assert(list.take(0) =~= Seq::empty());
        assert(old(out)@ + Seq::<char>::empty() =~= old(out)@);
    }
    while i < es.len()
        invariant
            i <= es@.len(),
            list == texts(es@),
            out@ == old(out)@ + pruned_branch_texts(list.take(i as int), remote@),
        decreases es@.len() - i,
    {
        proof {
            assert(list.take(i + 1).drop_last() =~= list.take(i as int));
            assert(list.take(i + 1).last() == es@[i as int]@);
        }
        add_pruned_branch(out, &es[i], remote);
        proof {
            assert(out@ =~= old(out)@ + pruned_branch_texts(list.take(i + 1), remote@));
        }
        i += 1;
    }
    proof {
        assert(list.take(i as int) =~= list);
    }
}

/// The report on pruned branches.
pub open spec fn prune_report(outcome: RemotePruneOutcomeView) -> Seq<char> {
    if outcome.branches.len() == 0 {
        "Pruned "@ + outcome.remote + " (no stale remote-tracking branches)"@
    } else {
        "Pruned "@ + outcome.remote + " ("@ + decimal(outcome.branches.len() as nat) + " "@
            + plural(outcome.branches.len() as nat, "branch"@, "branchs"@) + ")\n"@
            + pruned_branch_texts(outcome.branches, outcome.remote)
    }
}

pub fn format_remote_prune_outcome(outcome: &RemotePruneOutcome) -> (r: String)
    ensures
        r@ == prune_report(outcome@),
{
    let mut out = String::new();
    if outcome.branches.len() == 0 {
        out.append("Pruned ");
        out.append(outcome.remote.as_str());
        out.append(" (no stale remote-tracking branches)");
    } else {
        out.append("Pruned ");
        out.append(outcome.remote.as_str());
        out.append(" (");
        out.append(show_u64(outcome.branches.len() as u64).as_str());
        out.append(" ");
        out.append(plural_word(outcome.branches.len() as u64, "branch", "branchs"));
        out.append(")\n");
        add_pruned_branch_list(&mut out, &outcome.branches, outcome.remote.as_str());
    }
    proof {
        assert(out@ =~= prune_report(outcome@));
    }
    out
}

/// A branch of a remote.
pub open spec fn remote_ref_text(e: RemoteBranchRefView) -> Seq<char> {
    e.head + "\trefs/heads/"@ + e.branch + "\n"@
}

fn add_remote_ref(out: &mut String, e: &RemoteBranchRef)
    ensures
        final(out)@ == old(out)@ + remote_ref_text(e@),
{
    out.append(e.head.as_str());
    out.append("\trefs/heads/");
    out.append(e.branch.as_str());
    out.append("\n");
    proof {
        assert(out@ =~= old(out)@ + remote_ref_text(e@));
    }
}

pub open spec fn remote_ref_texts(es: Seq<RemoteBranchRefView>) -> Seq<char>
    decreases es.len(),
{
    if es.len() == 0 {
        Seq::empty()
    } else {
        remote_ref_texts(es.drop_last()) + remote_ref_text(es.last())
    }
}

fn add_remote_ref_list(out: &mut String, es: &Vec<RemoteBranchRef>)
    ensures
        final(out)@ == old(out)@ + remote_ref_texts(views(es@)),
{
    let ghost list = views(es@);
    let mut i: usize = 0;
    proof {
        assert(list.take(0) =~= Seq::empty());
        assert(old(out)@ + Seq::<char>::empty() =~= old(out)@);
    }
    while i < es.len()
        invariant
            i <= es@.len(),
            list == views(es@),
            out@ == old(out)@ + remote_ref_texts(list.take(i as int)),
        decreases es@.len() - i,
    {
        proof {
            assert(list.take(i + 1).drop_last() =~= list.take(i as int));
            assert(list.take(i + 1).last() == es@[i as int]@);
        }
        add_remote_ref(out, &es[i]);
        proof {
            assert(out@ =~= old(out)@ + remote_ref_texts(list.take(i + 1)));
        }
        i += 1;
    }
    proof {
        assert(list.take(i as int) =~= list);
    }
}

/// The first reference to a branch of the given name among those from `i` on.
pub open spec fn ref_of(refs: Seq<RemoteBranchRefView>, branch: Seq<char>, i: int) -> Option<
    RemoteBranchRefView,
>
    decreases refs.len() - i,
{
    if i >= refs.len() {
        None
    } else if refs[i].branch == branch {
        Some(refs[i])
    } else {
        ref_of(refs, branch, i + 1)
    }
}

/// The listing of the references of a remote; the default branch is shown as HEAD first.
pub open spec fn ls_remote_report(
    remote: Seq<char>,
    default_branch: Option<Seq<char>>,
    refs: Seq<RemoteBranchRefView>,
) -> Seq<char> {
    if refs.len() == 0 {
        "No refs found for "@ + remote + "."@
    } else {
        let head = match default_branch {
            Some(branch) => match ref_of(refs, branch, 0) {
                Some(reference) => Seq::empty() + reference.head + "\tHEAD\n"@,
                None => Seq::empty(),
            },
            None => Seq::empty(),
        };
        head + remote_ref_texts(refs)
    }
}

pub fn format_ls_remote(
    remote: &str,
    default_branch: Option<&str>,
    refs: &Vec<RemoteBranchRef>,
) -> (r: String)
    ensures
        r@ == ls_remote_report(
            remote@,
            crate::error::str_option(default_branch),
            views(refs@),
        ),
{
    let mut out = String::new();
    if refs.len() == 0 {
        out = "No refs found for ".to_owned();
        out.append(remote);
        out.append(".");
        return out;
    }
    let ghost all = views(refs@);
    if let Some(branch) = default_branch {
        let mut i: usize = 0;
        let mut found: bool = false;
        while i < refs.len() && !found
            invariant
                i <= refs@.len(),
                all == views(refs@),
                !found ==> ref_of(all, branch@, 0) == ref_of(all, branch@, i as int) && out@
                    == Seq::<char>::empty(),
                found ==> ref_of(all, branch@, 0) is Some && out@ == Seq::<char>::empty() + ref_of(
                    all,
                    branch@,
                    0,
                )->0.head + "\tHEAD\n"@,
            decreases refs@.len() - i,
        {
            proof {
                assert(all[i as int] == refs@[i as int]@);
            }
            if same(refs[i].branch.as_str(), branch) {
                out.append(refs[i].head.as_str());
                out.append("\tHEAD\n");
                found = true;
            }
            i += 1;
        }
    }
    add_remote_ref_list(&mut out, refs);
    out
}

/// What is wrong with the payload of an ordinary file.
#[derive(Debug, Clone, Copy, PartialEq, Eq, Structural)]
pub enum RepoArtifactAuditIssueKind {
    MissingObject,
    InvalidObject,
    MissingExternalPayload,
    InvalidExternalPayload,
}

pub open spec fn issue_name(v: RepoArtifactAuditIssueKind) -> Seq<char> {
    match v {
        RepoArtifactAuditIssueKind::MissingObject => "missing object"@,
        RepoArtifactAuditIssueKind::InvalidObject => "invalid object"@,
        RepoArtifactAuditIssueKind::MissingExternalPayload => "missing external payload"@,
        RepoArtifactAuditIssueKind::InvalidExternalPayload => "invalid external payload"@,
    }
}

pub fn repo_artifact_audit_issue_label(v: RepoArtifactAuditIssueKind) -> (r: &'static str)
    ensures
        r@ == issue_name(v),
{
    match v {
        RepoArtifactAuditIssueKind::MissingObject => "missing object",
        RepoArtifactAuditIssueKind::InvalidObject => "invalid object",
        RepoArtifactAuditIssueKind::MissingExternalPayload => "missing external payload",
        RepoArtifactAuditIssueKind::InvalidExternalPayload => "invalid external payload",
    }
}

/// A payload that is missing or damaged.
#[derive(Debug, Clone, PartialEq, Eq)]
pub struct RepoArtifactAuditIssue<S = String> {
    pub kind: RepoArtifactAuditIssueKind,
    pub path: S,
    pub message: S,
}

pub type RepoArtifactAuditIssueView = RepoArtifactAuditIssue<Seq<char>>;

impl View for RepoArtifactAuditIssue<String> {
    type V = RepoArtifactAuditIssueView;

    open spec fn view(&self) -> RepoArtifactAuditIssueView {
        RepoArtifactAuditIssue { kind: self.kind, path: self.path@, message: self.message@ }
    }
}

/// What an audit of the payloads found.
#[derive(Debug, Clone, PartialEq, Eq)]
pub struct RepoArtifactAudit<L1 = Vec<RepoArtifactAuditIssue>> {
    pub artifacts: u64,
    pub external_payloads: u64,
    pub issues: L1,
}

pub type RepoArtifactAuditView = RepoArtifactAudit<Seq<RepoArtifactAuditIssueView>>;

impl View for RepoArtifactAudit<Vec<RepoArtifactAuditIssue>> {
    type V = RepoArtifactAuditView;

    open spec fn view(&self) -> RepoArtifactAuditView {
        RepoArtifactAudit {
            artifacts: self.artifacts,
            external_payloads: self.external_payloads,
            issues: views(self.issues@),
        }
    }
}

/// A payload issue.
pub open spec fn issue_line_text(e: RepoArtifactAuditIssueView) -> Seq<char> {
    "  "@ + issue_name(e.kind) + ": "@ + e.path + " ("@ + e.message + ")\n"@
}

fn add_issue_line(out: &mut String, e: &RepoArtifactAuditIssue)
    ensures
        final(out)@ == old(out)@ + issue_line_text(e@),
{
    out.append("  ");
    out.append(repo_artifact_audit_issue_label(e.kind));
    out.append(": ");
    out.append(e.path.as_str());
    out.append(" (");
    out.append(e.message.as_str());
    out.append(")\n");
    proof {
        assert(out@ =~= old(out)@ + issue_line_text(e@));
    }
}

pub open spec fn issue_line_texts(es: Seq<RepoArtifactAuditIssueView>) -> Seq<char>
    decreases es.len(),
{
    if es.len() == 0 {
        Seq::empty()
    } else {
        issue_line_texts(es.drop_last()) + issue_line_text(es.last())
    }
}

fn add_issue_line_list(out: &mut String, es: &Vec<RepoArtifactAuditIssue>)
    ensures
        final(out)@ == old(out)@ + issue_line_texts(views(es@)),
{
    let ghost list = views(es@);
    let mut i: usize = 0;
    proof {
        assert(list.take(0) =~= Seq::empty());
        assert(old(out)@ + Seq::<char>::empty() =~= old(out)@);
    }
    while i < es.len()
        invariant
            i <= es@.len(),
            list == views(es@),
            out@ == old(out)@ + issue_line_texts(list.take(i as int)),
        decreases es@.len() - i,
    {
        proof {
            assert(list.take(i + 1).drop_last() =~= list.take(i as int));
            assert(list.take(i + 1).last() == es@[i as int]@);
        }
        add_issue_line(out, &es[i]);
        proof {
            assert(out@ =~= old(out)@ + issue_line_texts(list.take(i + 1)));
        }
        i += 1;
    }
    proof {
        assert(list.take(i as int) =~= list);
    }
}

/// The report on an audit.
pub open spec fn audit_report(audit: RepoArtifactAuditView) -> Seq<char> {
    (if audit.issues.len() == 0 {
            "Repository artifact payloads OK.\n"@
        } else {
            "Repository artifact payload issues:\n"@ + issue_line_texts(audit.issues)
        })
        + "Artifacts: "@ + decimal(audit.artifacts as nat) + "\nExternal payloads: "@
        + decimal(audit.external_payloads as nat) + "\n"@
}

pub fn format_repo_artifact_audit(audit: &RepoArtifactAudit) -> (r: String)
    ensures
        r@ == audit_report(audit@),
{
    let mut out = String::new();
    if audit.issues.len() == 0 {
        out.append("Repository artifact payloads OK.\n");
    } else {
        out.append("Repository artifact payload issues:\n");
        add_issue_line_list(&mut out, &audit.issues);
    }
    out.append("Artifacts: ");
    out.append(show_u64(audit.artifacts as u64).as_str());
    out.append("\nExternal payloads: ");
    out.append(show_u64(audit.external_payloads as u64).as_str());
    out.append("\n");
    proof {
        assert(out@ =~= audit_report(audit@));
    }
    out
}

/// What a repair of the payloads fetched.
#[derive(Debug, Clone, PartialEq, Eq)]
pub struct RepoArtifactRepairOutcome<S = String, L1 = RepoArtifactAudit, L2 = RepoArtifactAudit> {
    pub remote: S,
    pub fetched_objects: u64,
    pub fetched_external_payloads: u64,
    pub before: L1,
    pub after: L2,
}

pub type RepoArtifactRepairOutcomeView = RepoArtifactRepairOutcome<Seq<char>, RepoArtifactAuditView, RepoArtifactAuditView>;

impl View for RepoArtifactRepairOutcome<String, RepoArtifactAudit, RepoArtifactAudit> {
    type V = RepoArtifactRepairOutcomeView;

    open spec fn view(&self) -> RepoArtifactRepairOutcomeView {
        RepoArtifactRepairOutcome {
            remote: self.remote@,
            fetched_objects: self.fetched_objects,
            fetched_external_payloads: self.fetched_external_payloads,
            before: self.before@,
            after: self.after@,
        }
    }
}

/// The report on a repair.
pub open spec fn repair_report(outcome: RepoArtifactRepairOutcomeView) -> Seq<char> {
    "Repaired repository artifact payloads from "@ + outcome.remote + ".\nFetched objects: "@
        + decimal(outcome.fetched_objects as nat) + "\nFetched external payloads: "@
        + decimal(outcome.fetched_external_payloads as nat) + "\nIssues before: "@
        + decimal(outcome.before.issues.len() as nat) + "\nIssues after: "@
        + decimal(outcome.after.issues.len() as nat) + "\n"@
        + (if outcome.after.issues.len() != 0 {
            "Remaining repository artifact payload issues:\n"@
                + issue_line_texts(outcome.after.issues)
        } else {
            Seq::empty()
        })
        + "Artifacts: "@ + decimal(outcome.after.artifacts as nat) + "\nExternal payloads: "@
        + decimal(outcome.after.external_payloads as nat) + "\n"@
}

pub fn format_repo_artifact_repair(outcome: &RepoArtifactRepairOutcome) -> (r: String)
    ensures
        r@ == repair_report(outcome@),
{
    let mut out = String::new();
    out.append("Repaired repository artifact payloads from ");
    out.append(outcome.remote.as_str());
    out.append(".\nFetched objects: ");
    out.append(show_u64(outcome.fetched_objects as u64).as_str());
    out.append("\nFetched external payloads: ");
    out.append(show_u64(outcome.fetched_external_payloads as u64).as_str());
    out.append("\nIssues before: ");
    out.append(show_u64(outcome.before.issues.len() as u64).as_str());
    out.append("\nIssues after: ");
    out.append(show_u64(outcome.after.issues.len() as u64).as_str());
    out.append("\n");
    if outcome.after.issues.len() != 0 {
        out.append("Remaining repository artifact payload issues:\n");
        add_issue_line_list(&mut out, &outcome.after.issues);
    }
    out.append("Artifacts: ");
    out.append(show_u64(outcome.after.artifacts as u64).as_str());
    out.append("\nExternal payloads: ");
    out.append(show_u64(outcome.after.external_payloads as u64).as_str());
    out.append("\n");
    proof {
        assert(out@ =~= repair_report(outcome@));
    }
    out
}

#[derive(Debug, Clone, Copy, PartialEq, Eq, Structural)]
pub enum RepoLargeFileFetchStatus {
    Present,
    Fetched,
}

#[derive(Debug, Clone, Copy, PartialEq, Eq, Structural)]
pub enum RepoLargeFileStatusState {
    Present,
    Missing,
    Invalid,
}

pub open spec fn fetch_status_name(v: RepoLargeFileFetchStatus) -> Seq<char> {
    match v {
        RepoLargeFileFetchStatus::Present => "present"@,
        RepoLargeFileFetchStatus::Fetched => "fetched"@,
    }
}

pub fn large_file_fetch_status_label(v: RepoLargeFileFetchStatus) -> (r: &'static str)
    ensures
        r@ == fetch_status_name(v),
{
    match v {
        RepoLargeFileFetchStatus::Present => "present",
        RepoLargeFileFetchStatus::Fetched => "fetched",
    }
}

pub open spec fn payload_state_name(v: RepoLargeFileStatusState) -> Seq<char> {
    match v {
        RepoLargeFileStatusState::Present => "present"@,
        RepoLargeFileStatusState::Missing => "missing"@,
        RepoLargeFileStatusState::Invalid => "invalid"@,
    }
}

pub fn large_file_status_state_label(v: RepoLargeFileStatusState) -> (r: &'static str)
    ensures
        r@ == payload_state_name(v),
{
    match v {
        RepoLargeFileStatusState::Present => "present",
        RepoLargeFileStatusState::Missing => "missing",
        RepoLargeFileStatusState::Invalid => "invalid",
    }
}

/// A payload that a fetch looked at.
#[derive(Debug, Clone, PartialEq, Eq)]
pub struct LargeFileFetched<S = String, L1 = Vec<String>> {
    pub content_hash: S,
    pub status: RepoLargeFileFetchStatus,
    pub size: u64,
    pub store_path: S,
    pub paths: L1,
}

pub type LargeFileFetchedView = LargeFileFetched<Seq<char>, Seq<Seq<char>>>;

impl View for LargeFileFetched<String, Vec<String>> {
    type V = LargeFileFetchedView;

    open spec fn view(&self) -> LargeFileFetchedView {
        LargeFileFetched {
            content_hash: self.content_hash@,
            status: self.status,
            size: self.size,
            store_path: self.store_path@,
            paths: texts(self.paths@),
        }
    }
}

/// What a payload fetch did.
#[derive(Debug, Clone, PartialEq, Eq)]
pub struct RepoLargeFileFetchOutcome<S = String, L1 = Vec<LargeFileFetched>> {
    pub remote: S,
    pub target: S,
    pub external_payloads: u64,
    pub fetched_payloads: u64,
    pub fetched_bytes: u64,
    pub already_present_payloads: u64,
    pub files: L1,
}

pub type RepoLargeFileFetchOutcomeView = RepoLargeFileFetchOutcome<Seq<char>, Seq<LargeFileFetchedView>>;

impl View for RepoLargeFileFetchOutcome<String, Vec<LargeFileFetched>> {
    type V = RepoLargeFileFetchOutcomeView;

    open spec fn view(&self) -> RepoLargeFileFetchOutcomeView {
        RepoLargeFileFetchOutcome {
            remote: self.remote@,
            target: self.target@,
            external_payloads: self.external_payloads,
            fetched_payloads: self.fetched_payloads,
            fetched_bytes: self.fetched_bytes,
            already_present_payloads: self.already_present_payloads,
            files: views(self.files@),
        }
    }
}

/// A payload that a fetch looked at.
pub open spec fn fetched_file_text(e: LargeFileFetchedView) -> Seq<char> {
    "  "@ + e.content_hash + " ("@ + fetch_status_name(e.status) + ", "@ + decimal(e.size as nat)
        + " byte(s), "@ + e.store_path + ", paths: "@ + joined(e.paths, ", "@) + ")\n"@
}

fn add_fetched_file(out: &mut String, e: &LargeFileFetched)
    ensures
        final(out)@ == old(out)@ + fetched_file_text(e@),
{
    out.append("  ");
    out.append(e.content_hash.as_str());
    out.append(" (");
    out.append(large_file_fetch_status_label(e.status));
    out.append(", ");
    out.append(show_u64(e.size as u64).as_str());
    out.append(" byte(s), ");
    out.append(e.store_path.as_str());
    out.append(", paths: ");
    out.append(join(&e.paths, ", ").as_str());
    out.append(")\n");
    proof {
        assert(out@ =~= old(out)@ + fetched_file_text(e@));
    }
}

pub open spec fn fetched_file_texts(es: Seq<LargeFileFetchedView>) -> Seq<char>
    decreases es.len(),
{
    if es.len() == 0 {
        Seq::empty()
    } else {
        fetched_file_texts(es.drop_last()) + fetched_file_text(es.last())
    }
}

fn add_fetched_file_list(out: &mut String, es: &Vec<LargeFileFetched>)
    ensures
        final(out)@ == old(out)@ + fetched_file_texts(views(es@)),
{
    let ghost list = views(es@);
    let mut i: usize = 0;
    proof {
        assert(list.take(0) =~= Seq::empty());
        assert(old(out)@ + Seq::<char>::empty() =~= old(out)@);
    }
    while i < es.len()
        invariant
            i <= es@.len(),
            list == views(es@),
            out@ == old(out)@ + fetched_file_texts(list.take(i as int)),
        decreases es@.len() - i,
    {
        proof {
            assert(list.take(i + 1).drop_last() =~= list.take(i as int));
            assert(list.take(i + 1).last() == es@[i as int]@);
        }
        add_fetched_file(out, &es[i]);
        proof {
            assert(out@ =~= old(out)@ + fetched_file_texts(list.take(i + 1)));
        }
        i += 1;
    }
    proof {
        assert(list.take(i as int) =~= list);
    }
}

/// The report on a payload fetch.
pub open spec fn large_file_fetch_report(outcome: RepoLargeFileFetchOutcomeView) -> Seq<char> {
    (if outcome.external_payloads == 0 {
            "No external payloads referenced by "@ + outcome.target + ".\n"@
        } else if outcome.fetched_payloads == 0 {
            "External payloads already present for "@ + outcome.target + ".\n"@
        } else {
            "Fetched "@ + decimal(outcome.fetched_payloads as nat) + " external payload(s), "@
                + decimal(outcome.fetched_bytes as nat) + " byte(s), from "@ + outcome.remote + ".\n"@
        })
        + "Remote: "@ + outcome.remote + "\nTarget: "@ + outcome.target + "\nExternal payloads: "@
        + decimal(outcome.external_payloads as nat) + "\nAlready present: "@
        + decimal(outcome.already_present_payloads as nat) + "\n"@ + fetched_file_texts(outcome.files)
}

pub fn format_large_file_fetch_outcome(outcome: &RepoLargeFileFetchOutcome) -> (r: String)
    ensures
        r@ == large_file_fetch_report(outcome@),
{
    let mut out = String::new();
    if outcome.external_payloads == 0 {
        out.append("No external payloads referenced by ");
        out.append(outcome.target.as_str());
        out.append(".\n");
    } else {
        if outcome.fetched_payloads == 0 {
            out.append("External payloads already present for ");
            out.append(outcome.target.as_str());
            out.append(".\n");
        } else {
            out.append("Fetched ");
            out.append(show_u64(outcome.fetched_payloads as u64).as_str());
            out.append(" external payload(s), ");
            out.append(show_u64(outcome.fetched_bytes as u64).as_str());
            out.append(" byte(s), from ");
            out.append(outcome.remote.as_str());
            out.append(".\n");
        }
    }
    out.append("Remote: ");
    out.append(outcome.remote.as_str());
    out.append("\nTarget: ");
    out.append(outcome.target.as_str());
    out.append("\nExternal payloads: ");
    out.append(show_u64(outcome.external_payloads as u64).as_str());
    out.append("\nAlready present: ");
    out.append(show_u64(outcome.already_present_payloads as u64).as_str());
    out.append("\n");
    add_fetched_file_list(&mut out, &outcome.files);
    proof {
        assert(out@ =~= large_file_fetch_report(outcome@));
    }
    out
}

/// A payload and whether it is there.
#[derive(Debug, Clone, PartialEq, Eq)]
pub struct LargeFileState<S = String, L1 = Vec<String>> {
    pub content_hash: S,
    pub status: RepoLargeFileStatusState,
    pub size: u64,
    pub store_path: S,
    pub paths: L1,
    pub message: Option<S>,
}

pub type LargeFileStateView = LargeFileState<Seq<char>, Seq<Seq<char>>>;

impl View for LargeFileState<String, Vec<String>> {
    type V = LargeFileStateView;

    open spec fn view(&self) -> LargeFileStateView {
        LargeFileState {
            content_hash: self.content_hash@,
            status: self.status,
            size: self.size,
            store_path: self.store_path@,
            paths: texts(self.paths@),
            message: text_option(self.message),
        }
    }
}

/// Which payloads are there.
#[derive(Debug, Clone, PartialEq, Eq)]
pub struct RepoLargeFileStatusOutcome<S = String, L1 = Vec<LargeFileState>> {
    pub target: S,
    pub external_payloads: u64,
    pub present_payloads: u64,
    pub missing_payloads: u64,
    pub invalid_payloads: u64,
    pub present_bytes: u64,
    pub missing_bytes: u64,
    pub invalid_bytes: u64,
    pub files: L1,
}

pub type RepoLargeFileStatusOutcomeView = RepoLargeFileStatusOutcome<Seq<char>, Seq<LargeFileStateView>>;

impl View for RepoLargeFileStatusOutcome<String, Vec<LargeFileState>> {
    type V = RepoLargeFileStatusOutcomeView;

    open spec fn view(&self) -> RepoLargeFileStatusOutcomeView {
        RepoLargeFileStatusOutcome {
            target: self.target@,
            external_payloads: self.external_payloads,
            present_payloads: self.present_payloads,
            missing_payloads: self.missing_payloads,
            invalid_payloads: self.invalid_payloads,
            present_bytes: self.present_bytes,
            missing_bytes: self.missing_bytes,
            invalid_bytes: self.invalid_bytes,
            files: views(self.files@),
        }
    }
}

/// A payload and whether it is there.
pub open spec fn payload_state_text(e: LargeFileStateView) -> Seq<char> {
    "  "@ + e.content_hash + " ("@ + payload_state_name(e.status) + ", "@ + decimal(e.size as nat)
        + " byte(s), "@ + e.store_path + ", paths: "@ + joined(e.paths, ", "@)
        + (match e.message {
            Some(message) => ", "@ + message,
            None => Seq::empty(),
        })
        + ")\n"@
}

fn add_payload_state(out: &mut String, e: &LargeFileState)
    ensures
        final(out)@ == old(out)@ + payload_state_text(e@),
{
    out.append("  ");
    out.append(e.content_hash.as_str());
    out.append(" (");
    out.append(large_file_status_state_label(e.status));
    out.append(", ");
    out.append(show_u64(e.size as u64).as_str());
    out.append(" byte(s), ");
    out.append(e.store_path.as_str());
    out.append(", paths: ");
    out.append(join(&e.paths, ", ").as_str());
    match &e.message {
        Some(message) => {
            out.append(", ");
            out.append(message.as_str());
        },
        None => {

        },
    }
    out.append(")\n");
    proof {
        assert(out@ =~= old(out)@ + payload_state_text(e@));
    }
}

pub open spec fn payload_state_texts(es: Seq<LargeFileStateView>) -> Seq<char>
    decreases es.len(),
{
    if es.len() == 0 {
        Seq::empty()
    } else {
        payload_state_texts(es.drop_last()) + payload_state_text(es.last())
    }
}

fn add_payload_state_list(out: &mut String, es: &Vec<LargeFileState>)
    ensures
        final(out)@ == old(out)@ + payload_state_texts(views(es@)),
{
    let ghost list = views(es@);
    let mut i: usize = 0;
    proof {
        assert(list.take(0) =~= Seq::empty());
        assert(old(out)@ + Seq::<char>::empty() =~= old(out)@);
    }
    while i < es.len()
        invariant
            i <= es@.len(),
            list == views(es@),
            out@ == old(out)@ + payload_state_texts(list.take(i as int)),
        decreases es@.len() - i,
    {
        proof {
            assert(list.take(i + 1).drop_last() =~= list.take(i as int));
            assert(list.take(i + 1).last() == es@[i as int]@);
        }
        add_payload_state(out, &es[i]);
        proof {
            assert(out@ =~= old(out)@ + payload_state_texts(list.take(i + 1)));
        }
        i += 1;
    }
    proof {
        assert(list.take(i as int) =~= list);
    }
}

/// The report on the state of payloads.
pub open spec fn large_file_status_report(outcome: RepoLargeFileStatusOutcomeView) -> Seq<char> {
    (if outcome.external_payloads == 0 {
            "No external payloads referenced by "@ + outcome.target + ".\n"@
        } else {
            "External payloads for "@ + outcome.target + ": "@
                + decimal(outcome.present_payloads as nat) + " present, "@
                + decimal(outcome.missing_payloads as nat) + " missing, "@
                + decimal(outcome.invalid_payloads as nat) + " invalid.\n"@
        })
        + "External payloads: "@ + decimal(outcome.external_payloads as nat) + "\nPresent bytes: "@
        + decimal(outcome.present_bytes as nat) + "\nMissing bytes: "@
        + decimal(outcome.missing_bytes as nat) + "\nInvalid bytes: "@
        + decimal(outcome.invalid_bytes as nat) + "\n"@ + payload_state_texts(outcome.files)
}

pub fn format_large_file_status_outcome(outcome: &RepoLargeFileStatusOutcome) -> (r: String)
    ensures
        r@ == large_file_status_report(outcome@),
{
    let mut out = String::new();
    if outcome.external_payloads == 0 {
        out.append("No external payloads referenced by ");
        out.append(outcome.target.as_str());
        out.append(".\n");
    } else {
        out.append("External payloads for ");
        out.append(outcome.target.as_str());
        out.append(": ");
        out.append(show_u64(outcome.present_payloads as u64).as_str());
        out.append(" present, ");
        out.append(show_u64(outcome.missing_payloads as u64).as_str());
        out.append(" missing, ");
        out.append(show_u64(outcome.invalid_payloads as u64).as_str());
        out.append(" invalid.\n");
    }
    out.append("External payloads: ");
    out.append(show_u64(outcome.external_payloads as u64).as_str());
    out.append("\nPresent bytes: ");
    out.append(show_u64(outcome.present_bytes as u64).as_str());
    out.append("\nMissing bytes: ");
    out.append(show_u64(outcome.missing_bytes as u64).as_str());
    out.append("\nInvalid bytes: ");
    out.append(show_u64(outcome.invalid_bytes as u64).as_str());
    out.append("\n");
    add_payload_state_list(&mut out, &outcome.files);
    proof {
        assert(out@ =~= large_file_status_report(outcome@));
    }
    out
}

/// A payload that nothing refers to.
#[derive(Debug, Clone, PartialEq, Eq)]
pub struct LargeFilePruned<S = String> {
    pub content_hash: S,
    pub size: u64,
    pub path: S,
}

pub type LargeFilePrunedView = LargeFilePruned<Seq<char>>;

impl View for LargeFilePruned<String> {
    type V = LargeFilePrunedView;

    open spec fn view(&self) -> LargeFilePrunedView {
        LargeFilePruned { content_hash: self.content_hash@, size: self.size, path: self.path@ }
    }
}

/// Which payloads were pruned, or would be.
#[derive(Debug, Clone, PartialEq, Eq)]
pub struct RepoLargeFilePruneOutcome<L1 = Vec<LargeFilePruned>> {
    pub dry_run: bool,
    pub referenced_payloads: u64,
    pub candidate_payloads: u64,
    pub candidate_bytes: u64,
    pub pruned_payloads: u64,
    pub pruned_bytes: u64,
    pub files: L1,
}

pub type RepoLargeFilePruneOutcomeView = RepoLargeFilePruneOutcome<Seq<LargeFilePrunedView>>;

impl View for RepoLargeFilePruneOutcome<Vec<LargeFilePruned>> {
    type V = RepoLargeFilePruneOutcomeView;

    open spec fn view(&self) -> RepoLargeFilePruneOutcomeView {
        RepoLargeFilePruneOutcome {
            dry_run: self.dry_run,
            referenced_payloads: self.referenced_payloads,
            candidate_payloads: self.candidate_payloads,
            candidate_bytes: self.candidate_bytes,
            pruned_payloads: self.pruned_payloads,
            pruned_bytes: self.pruned_bytes,
            files: views(self.files@),
        }
    }
}

/// A payload that nothing refers to.
pub open spec fn pruned_file_text(e: LargeFilePrunedView) -> Seq<char> {
    "  "@ + e.content_hash + " ("@ + decimal(e.size as nat) + " byte(s), "@ + e.path + ")\n"@
}

fn add_pruned_file(out: &mut String, e: &LargeFilePruned)
    ensures
        final(out)@ == old(out)@ + pruned_file_text(e@),
{
    out.append("  ");
    out.append(e.content_hash.as_str());
    out.append(" (");
    out.append(show_u64(e.size as u64).as_str());
    out.append(" byte(s), ");
    out.append(e.path.as_str());
    out.append(")\n");
    proof {
        assert(out@ =~= old(out)@ + pruned_file_text(e@));
    }
}

pub open spec fn pruned_file_texts(es: Seq<LargeFilePrunedView>) -> Seq<char>
    decreases es.len(),
{
    if es.len() == 0 {
        Seq::empty()
    } else {
        pruned_file_texts(es.drop_last()) + pruned_file_text(es.last())
    }
}

fn add_pruned_file_list(out: &mut String, es: &Vec<LargeFilePruned>)
    ensures
        final(out)@ == old(out)@ + pruned_file_texts(views(es@)),
{
    let ghost list = views(es@);
    let mut i: usize = 0;
    proof {
        assert(list.take(0) =~= Seq::empty());
        assert(old(out)@ + Seq::<char>::empty() =~= old(out)@);
    }
    while i < es.len()
        invariant
            i <= es@.len(),
            list == views(es@),
            out@ == old(out)@ + pruned_file_texts(list.take(i as int)),
        decreases es@.len() - i,
    {
        proof {
            assert(list.take(i + 1).drop_last() =~= list.take(i as int));
            assert(list.take(i + 1).last() == es@[i as int]@);
        }
        add_pruned_file(out, &es[i]);
        proof {
            assert(out@ =~= old(out)@ + pruned_file_texts(list.take(i + 1)));
        }
        i += 1;
    }
    proof {
        assert(list.take(i as int) =~= list);
    }
}

/// The report on pruned payloads.
pub open spec fn large_file_prune_report(outcome: RepoLargeFilePruneOutcomeView) -> Seq<char> {
    (if outcome.candidate_payloads == 0 {
            "No unreferenced external payloads.\n"@
        } else if outcome.dry_run {
            "Would prune "@ + decimal(outcome.candidate_payloads as nat) + " external payload(s), "@
                + decimal(outcome.candidate_bytes as nat) + " byte(s).\n"@
        } else {
            "Pruned "@ + decimal(outcome.pruned_payloads as nat) + " external payload(s), "@
                + decimal(outcome.pruned_bytes as nat) + " byte(s).\n"@
        })
        + "Referenced external payloads: "@ + decimal(outcome.referenced_payloads as nat) + "\n"@
        + pruned_file_texts(outcome.files)
}

pub fn format_large_file_prune_outcome(outcome: &RepoLargeFilePruneOutcome) -> (r: String)
    ensures
        r@ == large_file_prune_report(outcome@),
{
    let mut out = String::new();
    if outcome.candidate_payloads == 0 {
        out.append("No unreferenced external payloads.\n");
    } else {
        if outcome.dry_run {
            out.append("Would prune ");
            out.append(show_u64(outcome.candidate_payloads as u64).as_str());
            out.append(" external payload(s), ");
            out.append(show_u64(outcome.candidate_bytes as u64).as_str());
            out.append(" byte(s).\n");
        } else {
            out.append("Pruned ");
            out.append(show_u64(outcome.pruned_payloads as u64).as_str());
            out.append(" external payload(s), ");
            out.append(show_u64(outcome.pruned_bytes as u64).as_str());
            out.append(" byte(s).\n");
        }
    }
    out.append("Referenced external payloads: ");
    out.append(show_u64(outcome.referenced_payloads as u64).as_str());
    out.append("\n");
    add_pruned_file_list(&mut out, &outcome.files);
    proof {
        assert(out@ =~= large_file_prune_report(outcome@));
    }
    out
}

/// The records of the storage engine that a collection found, dropped and kept.
#[derive(Debug, Clone, Copy, PartialEq, Eq, Structural)]
pub struct StorageGcOutcome {
    pub dry_run: bool,
    pub candidate_volumes: u64,
    pub candidate_commits: u64,
    pub candidate_segments: u64,
    pub candidate_pages: u64,
    pub candidate_page_bytes: u64,
    pub pruned_volumes: u64,
    pub pruned_commits: u64,
    pub pruned_segments: u64,
    pub pruned_pages: u64,
    pub pruned_page_bytes: u64,
    pub retained_volumes: u64,
    pub retained_commits: u64,
    pub retained_segments: u64,
    pub retained_pages: u64,
}

/// The report on a storage collection.
pub open spec fn storage_gc_report(outcome: StorageGcOutcome) -> Seq<char> {
    (if outcome.candidate_volumes == 0 && outcome.candidate_commits == 0 && outcome.candidate_segments == 0 && outcome.candidate_pages == 0 {
            "No unreachable SQLite storage records.\n"@
        } else if outcome.dry_run {
            "Would prune "@ + decimal(outcome.candidate_volumes as nat) + " volume(s), "@
                + decimal(outcome.candidate_commits as nat) + " commit(s), "@
                + decimal(outcome.candidate_segments as nat) + " segment(s), and "@
                + decimal(outcome.candidate_pages as nat) + " page(s)"@ + " ("@
                + decimal(outcome.candidate_page_bytes as nat) + " byte(s)).\n"@
        } else {
            "Pruned "@ + decimal(outcome.pruned_volumes as nat) + " volume(s), "@
                + decimal(outcome.pruned_commits as nat) + " commit(s), "@
                + decimal(outcome.pruned_segments as nat) + " segment(s), and "@
                + decimal(outcome.pruned_pages as nat) + " page(s)"@ + " ("@
                + decimal(outcome.pruned_page_bytes as nat) + " byte(s)).\n"@
        })
        + "Retained "@ + decimal(outcome.retained_volumes as nat) + " volume(s), "@
        + decimal(outcome.retained_commits as nat) + " commit(s), "@
        + decimal(outcome.retained_segments as nat) + " segment(s), and "@
        + decimal(outcome.retained_pages as nat) + " page(s)"@ + ".\n"@
}

pub fn format_storage_gc_outcome(outcome: &StorageGcOutcome) -> (r: String)
    ensures
        r@ == storage_gc_report(*outcome),
{
    let mut out = String::new();
    if outcome.candidate_volumes == 0 && outcome.candidate_commits == 0 && outcome.candidate_segments == 0 && outcome.candidate_pages == 0 {
        out.append("No unreachable SQLite storage records.\n");
    } else {
        if outcome.dry_run {
            out.append("Would prune ");
            out.append(show_u64(outcome.candidate_volumes as u64).as_str());
            out.append(" volume(s), ");
            out.append(show_u64(outcome.candidate_commits as u64).as_str());
            out.append(" commit(s), ");
            out.append(show_u64(outcome.candidate_segments as u64).as_str());
            out.append(" segment(s), and ");
            out.append(show_u64(outcome.candidate_pages as u64).as_str());
            out.append(" page(s)");
            out.append(" (");
            out.append(show_u64(outcome.candidate_page_bytes as u64).as_str());
            out.append(" byte(s)).\n");
        } else {
            out.append("Pruned ");
            out.append(show_u64(outcome.pruned_volumes as u64).as_str());
            out.append(" volume(s), ");
            out.append(show_u64(outcome.pruned_commits as u64).as_str());
            out.append(" commit(s), ");
            out.append(show_u64(outcome.pruned_segments as u64).as_str());
            out.append(" segment(s), and ");
            out.append(show_u64(outcome.pruned_pages as u64).as_str());
            out.append(" page(s)");
            out.append(" (");
            out.append(show_u64(outcome.pruned_page_bytes as u64).as_str());
            out.append(" byte(s)).\n");
        }
    }
    out.append("Retained ");
    out.append(show_u64(outcome.retained_volumes as u64).as_str());
    out.append(" volume(s), ");
    out.append(show_u64(outcome.retained_commits as u64).as_str());
    out.append(" commit(s), ");
    out.append(show_u64(outcome.retained_segments as u64).as_str());
    out.append(" segment(s), and ");
    out.append(show_u64(outcome.retained_pages as u64).as_str());
    out.append(" page(s)");
    out.append(".\n");
    proof {
        assert(out@ =~= storage_gc_report(*outcome));
    }
    out
}

} // verus!
