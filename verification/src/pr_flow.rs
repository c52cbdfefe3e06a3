//! The order of the steps of one pull request build, as a state machine: the program performs
//! the action that a step names and reports what came of it as the next event.
use vstd::prelude::*;

use crate::pr_build::CherryPick;
use crate::state::Admission;

verus! {

/// Where a pull request build stands.
#[derive(Debug, Clone, Copy, PartialEq, Eq, Structural)]
pub enum Stage {
    /// The base branch of the pull request is to be checked.
    CheckBase,
    /// A build slot is to be requested.
    Admit,
    /// The worktree is being prepared and the commits listed.
    Prepare,
    /// The commits are being cherry-picked, oldest first.
    CherryPick,
    /// The package list is being made and recorded.
    Collect,
    /// The packages to build are being announced.
    Announce,
    /// The packages are being built.
    Build,
    /// The worktree is being removed.
    Cleanup,
    /// Nothing is left to do.
    Finished,
}

/// A pull request build in progress.
#[derive(Debug, Clone, Copy, PartialEq, Eq, Structural)]
pub struct PrRun {
    pub stage: Stage,
    /// The number of commits to cherry-pick.
    pub commits: usize,
    /// The index of the next commit to cherry-pick.
    pub next: usize,
    /// A merge commit was skipped.
    pub warn_merge: bool,
    /// No cherry-pick has failed, so the packages are to be built.
    pub doit: bool,
}

/// Why a request is turned down.
#[derive(Debug, Clone, Copy, PartialEq, Eq, Structural)]
pub enum Refusal {
    UnsupportedBase,
    TooManyRunning,
    AlreadyRunning,
}

/// What came of the last action.
#[derive(Debug, Clone, Copy, PartialEq, Eq, Structural)]
pub enum PrEvent {
    /// The build is requested.
    Start,
    /// The base branch was looked up: whether it is master, staging or staging-next.
    Base(bool),
    /// The answer to the request for a build slot.
    Admission(Admission),
    /// The worktree is ready and the pull request has this many commits.
    Commits(usize),
    /// The cherry-pick of the next commit came to this.
    Picked(CherryPick),
    /// The action was carried out.
    Done,
}

/// What the program is to do next.
#[derive(Debug, Clone, Copy, PartialEq, Eq, Structural)]
pub enum PrAction {
    /// Look up the base branch of the pull request.
    FetchBase,
    /// Turn the request down with this notice; nothing follows.
    Refuse(Refusal),
    /// Ask for a build slot.
    RequestAdmission,
    /// Announce the build, prepare the worktree and list the pull request's commits.
    Prepare,
    /// Show the list of commits.
    ShowChanges,
    /// Cherry-pick the commit with this index.
    Pick(usize),
    /// Report the conflict of the commit with this index.
    ReportConflict(usize),
    /// Make and record the list of packages.
    CollectPackages,
    /// Show the packages to build.
    ShowBuilding,
    /// Build the packages and report the result (with a merge warning if this is true).
    RunBuild(bool),
    /// Remove the worktree.
    RemoveWorktree,
    /// The build is over.
    Finish,
}

/// The action after the cherry-picks that have been done: the next commit while there is one
/// and no conflict occurred, else the package list.
pub open spec fn after_picks(s: PrRun) -> (PrRun, PrAction) {
    if s.doit && s.next < s.commits {
        (s, PrAction::Pick(s.next))
    } else {
        (PrRun { stage: Stage::Collect, ..s }, PrAction::CollectPackages)
    }
}

/// One step of a pull request build: the state after event `e` and the action to perform. An
/// event that the stage does not expect ends the run where it stands.
pub open spec fn pr_transition(s: PrRun, e: PrEvent) -> (PrRun, PrAction) {
    match (s.stage, e) {
        (Stage::CheckBase, PrEvent::Start) => (s, PrAction::FetchBase),
        (Stage::CheckBase, PrEvent::Base(supported)) => if supported {
            (PrRun { stage: Stage::Admit, ..s }, PrAction::RequestAdmission)
        } else {
            (PrRun { stage: Stage::Finished, ..s }, PrAction::Refuse(Refusal::UnsupportedBase))
        },
        (Stage::Admit, PrEvent::Admission(a)) => match a {
            Admission::TooManyRunning => (
                PrRun { stage: Stage::Finished, ..s },
                PrAction::Refuse(Refusal::TooManyRunning),
            ),
            Admission::AlreadyRunning => (
                PrRun { stage: Stage::Finished, ..s },
                PrAction::Refuse(Refusal::AlreadyRunning),
            ),
            Admission::Admitted => (PrRun { stage: Stage::Prepare, ..s }, PrAction::Prepare),
        },
        (Stage::Prepare, PrEvent::Commits(n)) => (
            PrRun { stage: Stage::CherryPick, commits: n, next: 0, ..s },
            PrAction::ShowChanges,
        ),
        (Stage::CherryPick, PrEvent::Done) => after_picks(s),
        (Stage::CherryPick, PrEvent::Picked(outcome)) => if s.doit && s.next < s.commits {
            match outcome {
                CherryPick::Applied => after_picks(PrRun { next: (s.next + 1) as usize, ..s }),
                CherryPick::MergeCommit => after_picks(
                    PrRun { next: (s.next + 1) as usize, warn_merge: true, ..s },
                ),
                CherryPick::Conflict => (PrRun { doit: false, ..s }, PrAction::ReportConflict(s.next)),
            }
        } else {
            (s, PrAction::Finish)
        },
        (Stage::Collect, PrEvent::Done) => if s.doit {
            (PrRun { stage: Stage::Announce, ..s }, PrAction::ShowBuilding)
        } else {
            (PrRun { stage: Stage::Cleanup, ..s }, PrAction::RemoveWorktree)
        },
        (Stage::Announce, PrEvent::Done) => (
            PrRun { stage: Stage::Build, ..s },
            PrAction::RunBuild(s.warn_merge),
        ),
        (Stage::Build, PrEvent::Done) => (PrRun { stage: Stage::Cleanup, ..s }, PrAction::RemoveWorktree),
        (Stage::Cleanup, PrEvent::Done) => (PrRun { stage: Stage::Finished, ..s }, PrAction::Finish),
        _ => (s, PrAction::Finish),
    }
}

impl PrRun {
    /// A build that has just been requested.
    pub fn new() -> (r: PrRun)
        ensures
            r == (PrRun { stage: Stage::CheckBase, commits: 0, next: 0, warn_merge: false, doit: true }),
    {
        PrRun { stage: Stage::CheckBase, commits: 0, next: 0, warn_merge: false, doit: true }
    }
}

/// The action after the cherry-picks that have been done.
fn after_picks_exec(s: PrRun) -> (r: (PrRun, PrAction))
    ensures
        r == after_picks(s),
{
    if s.doit && s.next < s.commits {
        (s, PrAction::Pick(s.next))
    } else {
        (PrRun { stage: Stage::Collect, ..s }, PrAction::CollectPackages)
    }
}

/// One step of a pull request build.
pub fn pr_step(s: PrRun, e: PrEvent) -> (r: (PrRun, PrAction))
    ensures
        r == pr_transition(s, e),
{
    match (s.stage, e) {
        (Stage::CheckBase, PrEvent::Start) => (s, PrAction::FetchBase),
        (Stage::CheckBase, PrEvent::Base(supported)) => if supported {
            (PrRun { stage: Stage::Admit, ..s }, PrAction::RequestAdmission)
        } else {
            (PrRun { stage: Stage::Finished, ..s }, PrAction::Refuse(Refusal::UnsupportedBase))
        },
        (Stage::Admit, PrEvent::Admission(a)) => match a {
            Admission::TooManyRunning => (
                PrRun { stage: Stage::Finished, ..s },
                PrAction::Refuse(Refusal::TooManyRunning),
            ),
            Admission::AlreadyRunning => (
                PrRun { stage: Stage::Finished, ..s },
                PrAction::Refuse(Refusal::AlreadyRunning),
            ),
            Admission::Admitted => (PrRun { stage: Stage::Prepare, ..s }, PrAction::Prepare),
        },
        (Stage::Prepare, PrEvent::Commits(n)) => (
            PrRun { stage: Stage::CherryPick, commits: n, next: 0, ..s },
            PrAction::ShowChanges,
        ),
        (Stage::CherryPick, PrEvent::Done) => after_picks_exec(s),
        (Stage::CherryPick, PrEvent::Picked(outcome)) => if s.doit && s.next < s.commits {
            match outcome {
                CherryPick::Applied => after_picks_exec(PrRun { next: s.next + 1, ..s }),
                CherryPick::MergeCommit => after_picks_exec(
                    PrRun { next: s.next + 1, warn_merge: true, ..s },
                ),
                CherryPick::Conflict => (PrRun { doit: false, ..s }, PrAction::ReportConflict(s.next)),
            }
        } else {
            (s, PrAction::Finish)
        },
        (Stage::Collect, PrEvent::Done) => if s.doit {
            (PrRun { stage: Stage::Announce, ..s }, PrAction::ShowBuilding)
        } else {
            (PrRun { stage: Stage::Cleanup, ..s }, PrAction::RemoveWorktree)
        },
        (Stage::Announce, PrEvent::Done) => (
            PrRun { stage: Stage::Build, ..s },
            PrAction::RunBuild(s.warn_merge),
        ),
        (Stage::Build, PrEvent::Done) => (PrRun { stage: Stage::Cleanup, ..s }, PrAction::RemoveWorktree),
        (Stage::Cleanup, PrEvent::Done) => (PrRun { stage: Stage::Finished, ..s }, PrAction::Finish),
        _ => (s, PrAction::Finish),
    }
}

// ---------------------------------------------------------------------------------------------
// Laws
// ---------------------------------------------------------------------------------------------

/// What holds of every state a build reaches: the packages are announced and built only while
/// no cherry-pick failed, and the next commit index stays within the commits.
pub open spec fn consistent(s: PrRun) -> bool {
    &&& (s.stage == Stage::Announce || s.stage == Stage::Build) ==> s.doit
    &&& s.next <= s.commits
}

/// A new build is consistent, and every step keeps it so.
pub proof fn law_steps_keep_consistent(s: PrRun, e: PrEvent)
    requires
        consistent(s),
    ensures
        consistent(PrRun { stage: Stage::CheckBase, commits: 0, next: 0, warn_merge: false, doit: true }),
        consistent(pr_transition(s, e).0),
{
}

/// After a cherry-pick conflict nothing is cherry-picked or built any more: once `doit` is
/// false it stays false, and no step asks for a pick, the build announcement or the build.
pub proof fn law_conflict_stops_build(s: PrRun, e: PrEvent)
    requires
        consistent(s),
        !s.doit,
    ensures
        !pr_transition(s, e).0.doit,
        !(pr_transition(s, e).1 is Pick),
        pr_transition(s, e).1 != PrAction::ShowBuilding,
        !(pr_transition(s, e).1 is RunBuild),
{
}

/// The commits are cherry-picked oldest first, each once: a pick names the next commit, which
/// exists, and the index of the next commit never goes down.
pub proof fn law_picks_in_order(s: PrRun, e: PrEvent)
    requires
        s.stage != Stage::Prepare,
    ensures
        pr_transition(s, e).1 matches PrAction::Pick(i) ==> i == pr_transition(s, e).0.next && i
            < pr_transition(s, e).0.commits,
        pr_transition(s, e).0.commits == s.commits,
        pr_transition(s, e).0.next >= s.next,
{
}

/// A request that is turned down ends there, without a build slot: the step after a refusal
/// only finishes.
pub proof fn law_refusal_ends(s: PrRun, e: PrEvent, e2: PrEvent)
    requires
        pr_transition(s, e).1 is Refuse,
    ensures
        pr_transition(s, e).0.stage == Stage::Finished,
        pr_transition(pr_transition(s, e).0, e2).1 == PrAction::Finish,
{
}

/// The state after a run of events, one step after another.
pub open spec fn run_steps(s: PrRun, es: Seq<PrEvent>) -> PrRun
    decreases es.len(),
{
    if es.len() == 0 {
        s
    } else {
        pr_transition(run_steps(s, es.drop_last()), es.last()).0
    }
}

/// The merge warning: a cherry-pick that skipped a merge commit turns it on, nothing turns it
/// off, and no other event turns it on (an applied commit leaves it as it was); the build is
/// asked to warn exactly when it is on.
pub proof fn law_merge_warning(s: PrRun, e: PrEvent)
    ensures
        pr_transition(s, e).0.warn_merge == (s.warn_merge || (e == PrEvent::Picked(
            CherryPick::MergeCommit,
        ) && s.stage == Stage::CherryPick && s.doit && s.next < s.commits)),
        pr_transition(s, PrEvent::Picked(CherryPick::Applied)).0.warn_merge == s.warn_merge,
        pr_transition(s, e).1 matches PrAction::RunBuild(w) ==> w == s.warn_merge,
{
}

/// A build none of whose cherry-picks skipped a merge commit is never asked to warn about
/// merge commits.
pub proof fn law_no_merge_no_warning(es: Seq<PrEvent>, k: int)
    requires
        0 <= k < es.len(),
        forall|j: int| 0 <= j < es.len() ==> es[j] != PrEvent::Picked(CherryPick::MergeCommit),
    ensures
        !run_steps(PrRun { stage: Stage::CheckBase, commits: 0, next: 0, warn_merge: false, doit: true }, es).warn_merge,
        pr_transition(
            run_steps(PrRun { stage: Stage::CheckBase, commits: 0, next: 0, warn_merge: false, doit: true }, es.take(k)),
            es[k],
        ).1 != PrAction::RunBuild(true),
    decreases es.len(),
{
    let s0 = PrRun { stage: Stage::CheckBase, commits: 0, next: 0, warn_merge: false, doit: true };
    lemma_no_merge_run(s0, es);
    lemma_no_merge_run(s0, es.take(k));
    law_merge_warning(run_steps(s0, es.take(k)), es[k]);
}

/// Without a merge-commit event the warning stays off.
proof fn lemma_no_merge_run(s: PrRun, es: Seq<PrEvent>)
    requires
        !s.warn_merge,
        forall|j: int| 0 <= j < es.len() ==> es[j] != PrEvent::Picked(CherryPick::MergeCommit),
    ensures
        !run_steps(s, es).warn_merge,
    decreases es.len(),
{
    if es.len() > 0 {
        lemma_no_merge_run(s, es.drop_last());
        law_merge_warning(run_steps(s, es.drop_last()), es.last());
    }
}

} // verus!
