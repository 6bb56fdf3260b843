//! Gates: the checks a branch requires and the runs that are meant to
//! satisfy them.
//!
//! The only way into [`GateState::Green`] is that every required check ran and
//! passed. No operation of this module reaches it by dropping a required
//! context, by renaming a check away or by an override, and [`green_is_earned`]
//! proves as much.
use vstd::prelude::*;

verus! {

/// The result of a single check run on the head commit.
#[derive(Debug, Clone, Copy, PartialEq, Eq, Structural)]
pub enum CheckRun {
    /// The check has not reported on the head commit.
    Missing,
    /// The check is queued or in progress.
    Pending,
    /// The check ran to completion and failed.
    Failed,
    /// The check ran to completion and passed: the only state that bears green.
    Passed,
}

/// Why a required context is [`CheckRun::Missing`].
#[derive(Debug, Clone, Copy, PartialEq, Eq, Structural)]
pub enum MissingCause {
    /// No job anywhere emits this exact name.
    NoSuchJob,
    /// The action repository that would emit it is gone; an unresolvable `uses:`
    /// reference produces no check run at all.
    DeadActionPin,
    /// The repository's Actions settings refuse the workflow's actions, so the
    /// run dies with zero jobs.
    ActionsPolicyRefusal,
    /// The workflow's `jobs:` map is present but empty.
    EmptyJobsMap,
    /// The producing job exists, but never runs on `pull_request`.
    NotTriggeredOnPullRequest,
    /// Not yet diagnosed.
    Unknown,
}

/// The remedy for each cause, as a text.
pub open spec fn remedy_text(cause: MissingCause) -> Seq<char> {
    match cause {
        MissingCause::NoSuchJob =>
            "Remove the context, or rename it to match a real job exactly (names are case-sensitive)."@,
        MissingCause::DeadActionPin =>
            "The action repo is gone. Repoint `uses:` at its live location; do NOT vendor it per-consumer."@,
        MissingCause::ActionsPolicyRefusal =>
            "Repository settings: populate `patterns_allowed`, or set allowed_actions to `all`. No workflow edit can fix this."@,
        MissingCause::EmptyJobsMap =>
            "The workflow has no uncommented jobs. Instantiate one, or delete the workflow."@,
        MissingCause::NotTriggeredOnPullRequest =>
            "Add `pull_request` to the producing workflow's triggers, or stop requiring it on PRs."@,
        MissingCause::Unknown =>
            "Diagnose by sampling PR-head check-runs AND commit statuses, not the default branch."@,
    }
}

impl MissingCause {
    /// One line that says what to do about the cause.
    pub fn remedy(&self) -> (r: &'static str)
        ensures
            r@ == remedy_text(*self),
    {
        match self {
            MissingCause::NoSuchJob =>
                "Remove the context, or rename it to match a real job exactly (names are case-sensitive).",
            MissingCause::DeadActionPin =>
                "The action repo is gone. Repoint `uses:` at its live location; do NOT vendor it per-consumer.",
            MissingCause::ActionsPolicyRefusal =>
                "Repository settings: populate `patterns_allowed`, or set allowed_actions to `all`. No workflow edit can fix this.",
            MissingCause::EmptyJobsMap =>
                "The workflow has no uncommented jobs. Instantiate one, or delete the workflow.",
            MissingCause::NotTriggeredOnPullRequest =>
                "Add `pull_request` to the producing workflow's triggers, or stop requiring it on PRs.",
            MissingCause::Unknown =>
                "Diagnose by sampling PR-head check-runs AND commit statuses, not the default branch.",
        }
    }
}

/// A context that the branch requires, with the run bound to it.
#[derive(Debug, PartialEq, Eq)]
pub struct RequiredCheck {
    /// The exact context name that is required.
    pub required_context: String,
    /// The run bound to that context.
    pub run: CheckRun,
    /// Why `run` is missing, where that is known.
    pub missing_cause: Option<MissingCause>,
}

/// A [`RequiredCheck`] as a mathematical value.
pub struct CheckModel {
    pub context: Seq<char>,
    pub run: CheckRun,
    pub missing_cause: Option<MissingCause>,
}

impl CheckModel {
    /// A requirement is satisfied by a run that passed, and by nothing else.
    pub open spec fn satisfied(self) -> bool {
        self.run == CheckRun::Passed
    }
}

impl DeepView for RequiredCheck {
    type V = CheckModel;

    open spec fn deep_view(&self) -> CheckModel {
        CheckModel {
            context: self.required_context@,
            run: self.run,
            missing_cause: self.missing_cause,
        }
    }
}

impl Clone for RequiredCheck {
    fn clone(&self) -> (r: Self)
        ensures
            r.deep_view() == self.deep_view(),
    {
        RequiredCheck {
            required_context: self.required_context.clone(),
            run: self.run,
            missing_cause: self.missing_cause,
        }
    }
}

impl RequiredCheck {
    /// A requirement with the run bound to it and no diagnosis.
    pub fn new(required_context: &str, run: CheckRun) -> (r: Self)
        ensures
            r.deep_view() == (CheckModel { context: required_context@, run, missing_cause: None }),
    {
        RequiredCheck { required_context: required_context.to_owned(), run, missing_cause: None }
    }

    /// The same requirement with `cause` as its diagnosis.
    pub fn with_cause(self, cause: MissingCause) -> (r: Self)
        ensures
            r.deep_view() == (CheckModel { missing_cause: Some(cause), ..self.deep_view() }),
    {
        RequiredCheck {
            required_context: self.required_context,
            run: self.run,
            missing_cause: Some(cause),
        }
    }

    /// The remedy, where the requirement is missing and diagnosed.
    pub fn remedy(&self) -> (r: Option<&'static str>)
        ensures
            r is Some <==> self.run == CheckRun::Missing && self.missing_cause is Some,
            r matches Some(t) ==> t@ == remedy_text(self.missing_cause->Some_0),
    {
        match (self.run, self.missing_cause) {
            (CheckRun::Missing, Some(c)) => Some(c.remedy()),
            _ => None,
        }
    }

    /// Did a run that is bound to this requirement pass?
    pub fn is_satisfied(&self) -> (r: bool)
        ensures
            r == self.deep_view().satisfied(),
    {
        matches!(self.run, CheckRun::Passed)
    }
}

/// Where a gate stands. It is computed, never asserted.
#[derive(Debug, Clone, Copy, PartialEq, Eq, Structural)]
pub enum GateState {
    /// Some required check is missing or pending, or nothing is required at all.
    Blocked,
    /// Every required check completed, and at least one of them failed.
    Red,
    /// Every required check ran and passed.
    Green,
}

/// The required checks and the runs bound to them.
#[derive(Debug, PartialEq, Eq)]
pub struct Gate {
    pub checks: Vec<RequiredCheck>,
}

impl DeepView for Gate {
    type V = Seq<CheckModel>;

    open spec fn deep_view(&self) -> Seq<CheckModel> {
        self.checks.deep_view()
    }
}

impl Clone for Gate {
    fn clone(&self) -> (r: Self)
        ensures
            r.deep_view() == self.deep_view(),
    {
        let checks = self.checks.clone();
        assert(checks.deep_view() =~= self.checks.deep_view());
        Gate { checks }
    }
}

/// Has the run neither completed nor been found?
pub open spec fn unfinished(run: CheckRun) -> bool {
    run == CheckRun::Missing || run == CheckRun::Pending
}

/// The state of a gate.
///
/// A gate that requires nothing is unprotected, not won: it is blocked.
pub open spec fn state_of(checks: Seq<CheckModel>) -> GateState {
    if checks.len() > 0 && (forall|i: int|
        0 <= i < checks.len() ==> (#[trigger] checks[i]).satisfied()) {
        GateState::Green
    } else if (exists|i: int| 0 <= i < checks.len() && (#[trigger] checks[i]).run == CheckRun::Failed)
        && (forall|i: int| 0 <= i < checks.len() ==> !unfinished((#[trigger] checks[i]).run)) {
        GateState::Red
    } else {
        GateState::Blocked
    }
}

/// The requirements that are not satisfied, in the order of declaration.
pub open spec fn unsatisfied_of(checks: Seq<CheckModel>) -> Seq<CheckModel> {
    checks.filter(|c: CheckModel| !c.satisfied())
}

impl Gate {
    /// A gate that requires `checks`.
    pub fn new(checks: Vec<RequiredCheck>) -> (r: Self)
        ensures
            r.checks == checks,
            r.deep_view() == checks.deep_view(),
    {
        Gate { checks }
    }

    /// The state of this gate, as its runs make it.
    pub fn evaluate(&self) -> (r: GateState)
        ensures
            r == state_of(self.deep_view()),
    {
        let ghost m = self.deep_view();
        let mut all_passed: bool = true;
        let mut failed: bool = false;
        let mut waiting: bool = false;
        let mut i: usize = 0;
        while i < self.checks.len()
            invariant
                i <= self.checks@.len(),
                m == self.deep_view(),
                all_passed == (forall|k: int| 0 <= k < i ==> (#[trigger] m[k]).satisfied()),
                failed == (exists|k: int|
                    0 <= k < i && (#[trigger] m[k]).run == CheckRun::Failed),
                waiting == !(forall|k: int| 0 <= k < i ==> !unfinished((#[trigger] m[k]).run)),
            decreases self.checks@.len() - i,
        {
            assert(m[i as int].run == self.checks@[i as int].run);
            match self.checks[i].run {
                CheckRun::Passed => {},
                CheckRun::Failed => {
                    all_passed = false;
                    failed = true;
                },
                _ => {
                    all_passed = false;
                    waiting = true;
                },
            }
            i += 1;
        }
        if all_passed && self.checks.len() > 0 {
            GateState::Green
        } else if failed && !waiting {
            GateState::Red
        } else {
            GateState::Blocked
        }
    }

    /// The requirements that are not satisfied, in the order of declaration.
    pub fn unsatisfied(&self) -> (r: Vec<&RequiredCheck>)
        ensures
            r.deep_view() == unsatisfied_of(self.deep_view()),
    {
        let ghost m = self.deep_view();
        let mut r: Vec<&RequiredCheck> = Vec::new();
        let mut i: usize = 0;
        assert(m.take(0).filter(|c: CheckModel| !c.satisfied()) =~= Seq::empty()) by {
            reveal(Seq::filter);
        }
        while i < self.checks.len()
            invariant
                i <= self.checks@.len(),
                m == self.deep_view(),
                r.deep_view() == unsatisfied_of(m.take(i as int)),
            decreases self.checks@.len() - i,
        {
            let check: &RequiredCheck = &self.checks[i];
            let ghost before = r.deep_view();
            proof {
                reveal(Seq::filter);
                assert(m.take(i + 1).drop_last() =~= m.take(i as int));
                assert(m.take(i + 1).last() == check.deep_view());
            }
            if !check.is_satisfied() {
                r.push(check);
                assert(r.deep_view() =~= before.push(check.deep_view()));
            }
            i += 1;
        }
        assert(m.take(m.len() as int) =~= m);
        r
    }
}

/// Green is earned: a gate is green exactly when it requires something and every
/// check that it requires ran and passed.
pub proof fn green_is_earned(checks: Seq<CheckModel>)
    ensures
        state_of(checks) == GateState::Green <==> checks.len() > 0 && (forall|i: int|
            0 <= i < checks.len() ==> (#[trigger] checks[i]).run == CheckRun::Passed),
{
    assert(forall|i: int|
        0 <= i < checks.len() ==> (#[trigger] checks[i]).satisfied() == (checks[i].run
            == CheckRun::Passed));
}

/// A gate is red exactly when every check completed and some check failed.
pub proof fn red_is_a_completed_failure(checks: Seq<CheckModel>)
    ensures
        state_of(checks) == GateState::Red <==> (exists|i: int|
            0 <= i < checks.len() && (#[trigger] checks[i]).run == CheckRun::Failed) && (forall|
            i: int,
        |
            0 <= i < checks.len() ==> !unfinished((#[trigger] checks[i]).run)),
{
}

/// Every check that is missing or pending blocks a gate.
pub proof fn a_missing_or_pending_check_blocks(checks: Seq<CheckModel>, i: int)
    requires
        0 <= i < checks.len(),
        unfinished(checks[i].run),
    ensures
        state_of(checks) == GateState::Blocked,
{
    assert(!checks[i].satisfied());
}

/// To require nothing is no way to green.
pub proof fn an_empty_gate_is_blocked()
    ensures
        state_of(Seq::empty()) == GateState::Blocked,
{
}

/// The state is a property of the runs: neither the names of the contexts nor any
/// diagnosis moves it.
pub proof fn only_runs_move_the_gate(a: Seq<CheckModel>, b: Seq<CheckModel>)
    requires
        a.len() == b.len(),
        forall|i: int| 0 <= i < a.len() ==> (#[trigger] a[i]).run == b[i].run,
    ensures
        state_of(a) == state_of(b),
{
    assert(forall|i: int| 0 <= i < a.len() ==> (#[trigger] b[i]).run == a[i].run);
    assert forall|i: int| 0 <= i < a.len() implies (#[trigger] a[i]).satisfied()
        == b[i].satisfied() by {}
    if state_of(b) == GateState::Green {
        assert forall|i: int| 0 <= i < a.len() implies (#[trigger] a[i]).satisfied() by {
            assert(b[i].satisfied());
        }
    }
    if exists|i: int| 0 <= i < b.len() && (#[trigger] b[i]).run == CheckRun::Failed {
        let i = choose|i: int| 0 <= i < b.len() && (#[trigger] b[i]).run == CheckRun::Failed;
        assert(a[i].run == CheckRun::Failed);
    }
    if state_of(b) == GateState::Red {
        assert forall|i: int| 0 <= i < a.len() implies !unfinished((#[trigger] a[i]).run) by {
            assert(!unfinished(b[i].run));
        }
    }
    if state_of(a) == GateState::Red {
        assert forall|i: int| 0 <= i < a.len() implies !unfinished((#[trigger] b[i]).run) by {
            assert(!unfinished(a[i].run));
        }
    }
}

/// What [`unsatisfied_of`] lists: requirements of a gate, all of them, and
/// none that is satisfied.
pub proof fn the_work_list_is_exact(checks: Seq<CheckModel>)
    ensures
        forall|c: CheckModel| #[trigger]
            unsatisfied_of(checks).contains(c) <==> checks.contains(c) && !c.satisfied(),
{
    broadcast use vstd::seq_lib::group_filter_ensures;

    let list = unsatisfied_of(checks);
    assert forall|c: CheckModel| checks.contains(c) && !c.satisfied() implies list.contains(c) by {}
    assert forall|c: CheckModel| list.contains(c) implies checks.contains(c) && !c.satisfied() by {
        let open = |c: CheckModel| !c.satisfied();
        checks.lemma_filter_contains_rev(open, c);
        let i = choose|i: int| 0 <= i < list.len() && list[i] == c;
        checks.lemma_filter_pred(open, i);
    }
}

/// A gate that requires something is green exactly when its work list is empty.
pub proof fn green_leaves_no_work(checks: Seq<CheckModel>)
    requires
        checks.len() > 0,
    ensures
        state_of(checks) == GateState::Green <==> unsatisfied_of(checks).len() == 0,
{
    the_work_list_is_exact(checks);
    let list = unsatisfied_of(checks);
    if list.len() > 0 {
        assert(list.contains(list[0]));
        let i = choose|i: int| 0 <= i < checks.len() && checks[i] == list[0];
        assert(!checks[i].satisfied());
    } else {
        assert forall|i: int| 0 <= i < checks.len() implies (#[trigger] checks[i]).satisfied() by {
            assert(checks.contains(checks[i]));
            assert(!list.contains(checks[i]));
        }
    }
}

/// The state of a gate by the runs themselves: red where all completed and one failed, blocked
/// where nothing is required or some check is missing or pending.
pub proof fn each_state_by_its_runs(checks: Seq<CheckModel>)
    ensures
        state_of(checks) == GateState::Red <==> (exists|i: int|
            0 <= i < checks.len() && (#[trigger] checks[i]).run == CheckRun::Failed) && (forall|
            i: int,
        |
            0 <= i < checks.len() ==> (#[trigger] checks[i]).run == CheckRun::Failed
                || checks[i].run == CheckRun::Passed),
        state_of(checks) == GateState::Blocked <==> checks.len() == 0 || exists|i: int|
            0 <= i < checks.len() && ((#[trigger] checks[i]).run == CheckRun::Missing
                || checks[i].run == CheckRun::Pending),
{
    green_is_earned(checks);
    if exists|i: int|
        0 <= i < checks.len() && ((#[trigger] checks[i]).run == CheckRun::Missing || checks[i].run
            == CheckRun::Pending) {
        let i = choose|i: int|
            0 <= i < checks.len() && ((#[trigger] checks[i]).run == CheckRun::Missing
                || checks[i].run == CheckRun::Pending);
        a_missing_or_pending_check_blocks(checks, i);
    } else if checks.len() > 0 {
        assert forall|i: int| 0 <= i < checks.len() implies !unfinished((#[trigger] checks[i]).run)
            && (checks[i].run == CheckRun::Failed || checks[i].run == CheckRun::Passed) by {}
        if !(exists|i: int| 0 <= i < checks.len() && (#[trigger] checks[i]).run == CheckRun::Failed) {
            assert forall|i: int| 0 <= i < checks.len() implies (#[trigger] checks[i]).run
                == CheckRun::Passed by {}
        } else {
            let k = choose|k: int|
                0 <= k < checks.len() && (#[trigger] checks[k]).run == CheckRun::Failed;
            assert(checks[k].run != CheckRun::Passed);
        }
    }
}

/// The work list grows with its gate, in the same order: a check is on it exactly where its run
/// did not pass, as often as it is required.
pub proof fn each_check_adds_its_work(checks: Seq<CheckModel>, c: CheckModel)
    ensures
        unsatisfied_of(seq![]).len() == 0,
        unsatisfied_of(checks.push(c)) == if c.run == CheckRun::Passed {
            unsatisfied_of(checks)
        } else {
            unsatisfied_of(checks).push(c)
        },
{
    reveal(Seq::filter);
    assert(checks.push(c).drop_last() =~= checks);
}

/// The remedy for each cause says what has to change: the name of the context, the reference
/// of the action, the settings, the jobs, the triggers; and no two causes share a remedy.
pub proof fn each_cause_has_its_own_remedy(a: MissingCause, b: MissingCause)
    ensures
        remedy_text(a) == remedy_text(b) ==> a == b,
        a == MissingCause::NoSuchJob ==> "Remove the context, or rename it"@.is_prefix_of(
            remedy_text(a),
        ),
        a == MissingCause::DeadActionPin ==> "The action repo is gone."@.is_prefix_of(
            remedy_text(a),
        ),
        a == MissingCause::ActionsPolicyRefusal ==> "Repository settings: "@.is_prefix_of(
            remedy_text(a),
        ),
        a == MissingCause::EmptyJobsMap ==> "The workflow has no uncommented jobs."@.is_prefix_of(
            remedy_text(a),
        ),
        a == MissingCause::NotTriggeredOnPullRequest ==> "Add `pull_request`"@.is_prefix_of(
            remedy_text(a),
        ),
        a == MissingCause::Unknown ==> "Diagnose "@.is_prefix_of(remedy_text(a)),
{
    lemma_remedy_opens(a);
    lemma_remedy_opens(b);
}

proof fn lemma_remedy_opens(a: MissingCause)
    ensures
        remedy_text(a).len() > 20,
        ({
            let t = remedy_text(a);
            match a {
                MissingCause::NoSuchJob => t[0] == 'R' && t[2] == 'm'
                    && "Remove the context, or rename it"@.is_prefix_of(t),
                MissingCause::DeadActionPin => t[0] == 'T' && t[4] == 'a'
                    && "The action repo is gone."@.is_prefix_of(t),
                MissingCause::ActionsPolicyRefusal => t[0] == 'R' && t[2] == 'p'
                    && "Repository settings: "@.is_prefix_of(t),
                MissingCause::EmptyJobsMap => t[0] == 'T' && t[4] == 'w'
                    && "The workflow has no uncommented jobs."@.is_prefix_of(t),
                MissingCause::NotTriggeredOnPullRequest => t[0] == 'A'
                    && "Add `pull_request`"@.is_prefix_of(t),
                MissingCause::Unknown => t[0] == 'D' && "Diagnose "@.is_prefix_of(t),
            }
        }),
{
    let t = remedy_text(a);
    match a {
        MissingCause::NoSuchJob => {
            reveal_strlit(
                "Remove the context, or rename it to match a real job exactly (names are case-sensitive).",
            );
            reveal_strlit("Remove the context, or rename it");
            assert(t.subrange(0, 32) =~= "Remove the context, or rename it"@);
        },
        MissingCause::DeadActionPin => {
            reveal_strlit(
                "The action repo is gone. Repoint `uses:` at its live location; do NOT vendor it per-consumer.",
            );
            reveal_strlit("The action repo is gone.");
            assert(t.subrange(0, 24) =~= "The action repo is gone."@);
        },
        MissingCause::ActionsPolicyRefusal => {
            reveal_strlit(
                "Repository settings: populate `patterns_allowed`, or set allowed_actions to `all`. No workflow edit can fix this.",
            );
            reveal_strlit("Repository settings: ");
            assert(t.subrange(0, 21) =~= "Repository settings: "@);
        },
        MissingCause::EmptyJobsMap => {
            reveal_strlit(
                "The workflow has no uncommented jobs. Instantiate one, or delete the workflow.",
            );
            reveal_strlit("The workflow has no uncommented jobs.");
            assert(t.subrange(0, 37) =~= "The workflow has no uncommented jobs."@);
        },
        MissingCause::NotTriggeredOnPullRequest => {
            reveal_strlit(
                "Add `pull_request` to the producing workflow's triggers, or stop requiring it on PRs.",
            );
            reveal_strlit("Add `pull_request`");
            assert(t.subrange(0, 18) =~= "Add `pull_request`"@);
        },
        MissingCause::Unknown => {
            reveal_strlit(
                "Diagnose by sampling PR-head check-runs AND commit statuses, not the default branch.",
            );
            reveal_strlit("Diagnose ");
            assert(t.subrange(0, 9) =~= "Diagnose "@);
        },
    }
}

} // verus!
