//! The plan of a fight.
//!
//! Each requirement that is not satisfied ends up in one of three places and nowhere
//! else: it is a move in the squabbler's own lane, it is escalated to an expert group,
//! or it is assigned to an owner. A plan never claims that a gate was won: it is a
//! [`Outcome::Red`] that carries the whole account.
use vstd::prelude::*;

use crate::context::{context_of, no_context, ContextModel, RepoContext};
use crate::diagnosis::{
    default_move, diagnose_with_hints, moves_for, Diagnosis, Hints,
};
use crate::fetch::{BundleModel, FetchBundle, PolicyProbe, PolicyProbeModel};
use crate::gate::{
    state_of, unsatisfied_of, CheckModel, Gate, GateState, RequiredCheck,
};
use crate::moves::{
    group_label, DispositionModel, EscalationKind, ExpertGroup, Move, MoveModel,
    OwnershipDisposition,
};
use crate::outcome::{
    assignment_of, escalation_of, Escalation, EscalationModel, Outcome, OutcomeModel,
    OwnerAssignment, OwnerModel, Report, ReportModel,
};
use crate::text::{
    cat3, cat4, cat5, cat6, contains, copy_all, decimal, holds_text, join, joined, listed, lower,
    same, show, to_lower,
};
use crate::workflows::{
    an_unseen_failure_keeps_the_policy_silent, classified, classified_moves_are_describable,
    emitter, facts_of, policy_move, ActionsPolicyFacts, InfoModel, PolicyModel, WorkflowFacts,
    WorkflowFile, WorkflowInfo,
};

verus! {

/// What the host found of the files that the plan asks about.
#[derive(Debug, PartialEq, Eq)]
pub struct TreeProbe {
    /// Is there a `.well-known/ai.txt`?
    pub has_ai_txt: bool,
    /// Is there a `.well-known/humans.txt`?
    pub has_humans_txt: bool,
    /// The text of the `Containerfile`, if it could be read.
    pub containerfile: Option<String>,
    /// The text of the `Dockerfile`, if it could be read.
    pub dockerfile: Option<String>,
}

/// A [`TreeProbe`] as a mathematical value.
pub struct ProbeModel {
    pub has_ai_txt: bool,
    pub has_humans_txt: bool,
    pub containerfile: Option<Seq<char>>,
    pub dockerfile: Option<Seq<char>>,
}

impl DeepView for TreeProbe {
    type V = ProbeModel;

    open spec fn deep_view(&self) -> ProbeModel {
        ProbeModel {
            has_ai_txt: self.has_ai_txt,
            has_humans_txt: self.has_humans_txt,
            containerfile: self.containerfile.deep_view(),
            dockerfile: self.dockerfile.deep_view(),
        }
    }
}

/// What is found where there is no tree.
pub open spec fn no_tree() -> ProbeModel {
    ProbeModel {
        has_ai_txt: false,
        has_humans_txt: false,
        containerfile: None,
        dockerfile: None,
    }
}

impl Default for TreeProbe {
    fn default() -> (r: Self)
        ensures
            r.deep_view() == no_tree(),
    {
        TreeProbe {
            has_ai_txt: false,
            has_humans_txt: false,
            containerfile: None,
            dockerfile: None,
        }
    }
}

/// A checkout as the host found it. A descriptile that could not be read is an empty
/// text.
#[derive(Debug, PartialEq, Eq)]
pub struct RepoTree {
    /// How the host shows the place of the checkout.
    pub root: String,
    pub ecosystem: String,
    pub clade: String,
    pub anchor: String,
    pub agentic: String,
    /// The entries of the workflow directory, in any order.
    pub workflows: Vec<WorkflowFile>,
    pub probe: TreeProbe,
}

/// What was seen of checks that failed at startup: which they were, and the repository's
/// policy for Actions where it could be had.
#[derive(Debug, PartialEq, Eq)]
pub struct StartupFacts {
    pub policy: Option<ActionsPolicyFacts>,
    pub startup_failed: Vec<String>,
}

/// A [`StartupFacts`] as a mathematical value.
pub struct StartupModel {
    pub policy: Option<PolicyModel>,
    pub startup_failed: Seq<Seq<char>>,
}

impl DeepView for StartupFacts {
    type V = StartupModel;

    open spec fn deep_view(&self) -> StartupModel {
        StartupModel {
            policy: self.policy.deep_view(),
            startup_failed: self.startup_failed.deep_view(),
        }
    }
}

/// No check was seen to fail at startup.
pub open spec fn nothing_observed() -> StartupModel {
    StartupModel { policy: None, startup_failed: seq![] }
}

impl Default for StartupFacts {
    fn default() -> (r: Self)
        ensures
            r.deep_view() == nothing_observed(),
    {
        let r = StartupFacts { policy: None, startup_failed: Vec::new() };
        assert(r.startup_failed.deep_view() =~= seq![]);
        r
    }
}

/// What a fetch saw of checks that failed at startup. The policy is known only where it was
/// fetched.
pub open spec fn startup_in(bundle: BundleModel) -> StartupModel {
    StartupModel {
        policy: match bundle.policy_probe {
            PolicyProbeModel::Fetched(posture) => Some(posture.facts()),
            _ => None,
        },
        startup_failed: bundle.startup_failed,
    }
}

impl StartupFacts {
    /// What a fetch saw of checks that failed at startup.
    pub fn of_bundle(bundle: &FetchBundle) -> (r: Self)
        ensures
            r.deep_view() == startup_in(bundle.deep_view()),
    {
        StartupFacts {
            policy: match &bundle.policy_probe {
                PolicyProbe::Fetched(posture) => Some(posture.facts()),
                _ => None,
            },
            startup_failed: copy_all(&bundle.startup_failed),
        }
    }
}

/// The line for a policy that was asked for and could not be had.
pub open spec fn policy_note(probe: PolicyProbeModel) -> Option<Seq<char>> {
    match probe {
        PolicyProbeModel::Failed(e) => Some(
            "squabble fight: could not read the Actions policy behind a startup failure: "@ + e
                + " — classifying without it"@,
        ),
        _ => None,
    }
}

/// The line for a policy that was asked for and could not be had.
fn note_on_policy(probe: &PolicyProbe) -> (r: Option<String>)
    ensures
        r.deep_view() == policy_note(probe.deep_view()),
{
    match probe {
        PolicyProbe::Failed(e) => Some(
            cat3(
                "squabble fight: could not read the Actions policy behind a startup failure: ",
                e,
                " — classifying without it",
            ),
        ),
        _ => None,
    }
}

/// The move for a check by its workflow, and by the policy for Actions where the check was
/// seen to fail at startup.
pub open spec fn startup_classified(
    workflows: Seq<InfoModel>,
    check: CheckModel,
    slug: Seq<char>,
    startup: StartupModel,
) -> Option<MoveModel> {
    classified(
        workflows,
        check,
        slug,
        startup.policy,
        startup.startup_failed.contains(check.context),
    )
}

/// The hints that the workflows give for the first `n` of the checks. The policy for
/// Actions counts for a check that was seen to fail at startup.
pub open spec fn hints_for(
    checks: Seq<CheckModel>,
    n: int,
    workflows: Seq<InfoModel>,
    slug: Seq<char>,
    startup: StartupModel,
) -> Map<Seq<char>, MoveModel>
    decreases n,
{
    if n <= 0 {
        Map::empty()
    } else {
        let fewer = hints_for(checks, n - 1, workflows, slug, startup);
        match startup_classified(workflows, checks[n - 1], slug, startup) {
            Some(m) => fewer.insert(checks[n - 1].context, m),
            None => fewer,
        }
    }
}

/// The moves of a plan, one for each requirement that is not satisfied.
pub open spec fn planned_moves(
    checks: Seq<CheckModel>,
    workflows: Seq<InfoModel>,
    slug: Seq<char>,
    startup: StartupModel,
) -> Seq<MoveModel> {
    let open = unsatisfied_of(checks);
    moves_for(open, hints_for(open, open.len() as int, workflows, slug, startup))
}

/// The escalations among the first `n` moves.
pub open spec fn escalations_among(moves: Seq<MoveModel>, n: int) -> Seq<EscalationModel>
    decreases n,
{
    if n <= 0 {
        seq![]
    } else {
        match escalation_of(moves[n - 1]) {
            Some(e) => escalations_among(moves, n - 1).push(e),
            None => escalations_among(moves, n - 1),
        }
    }
}

/// The owner assignments among the first `n` moves.
pub open spec fn assignments_among(moves: Seq<MoveModel>, n: int) -> Seq<OwnerModel>
    decreases n,
{
    if n <= 0 {
        seq![]
    } else {
        match assignment_of(moves[n - 1]) {
            Some(o) => assignments_among(moves, n - 1).push(o),
            None => assignments_among(moves, n - 1),
        }
    }
}

/// The moves in the squabbler's own lane among the first `n` moves.
pub open spec fn self_wins_among(moves: Seq<MoveModel>, n: int) -> Seq<MoveModel>
    decreases n,
{
    if n <= 0 {
        seq![]
    } else if escalation_of(moves[n - 1]) is None && assignment_of(moves[n - 1]) is None {
        self_wins_among(moves, n - 1).push(moves[n - 1])
    } else {
        self_wins_among(moves, n - 1)
    }
}

/// Why a requirement is not satisfied yet, by the move that is made for it.
pub open spec fn blocker_for(context: Seq<char>, m: MoveModel) -> Seq<char> {
    match m {
        MoveModel::EscalateToExpert { group, .. } => "`"@ + context + "`: escalated to "@
            + group_label(group),
        MoveModel::AssignGateOwner { owner, disposition, .. } => "`"@ + context + "`: "@
            + disposition.label() + " → `"@ + owner + "`"@,
        _ => "`"@ + context + "`: self-win — "@ + m.described(),
    }
}

/// The blockers of the checks, one for each.
pub open spec fn blockers_for(checks: Seq<CheckModel>, moves: Seq<MoveModel>) -> Seq<Seq<char>> {
    Seq::new(checks.len(), |i: int| blocker_for(checks[i].context, moves[i]))
}

/// Does the name of one of the checks speak of well-known files?
pub open spec fn well_known_red(checks: Seq<CheckModel>) -> bool {
    exists|i: int|
        0 <= i < checks.len() && holds_text(lower((#[trigger] checks[i]).context), "well-known"@)
}

/// The well-known files that are not there.
pub open spec fn missing_files(probe: ProbeModel) -> Seq<Seq<char>> {
    if probe.has_ai_txt && probe.has_humans_txt {
        seq![]
    } else if probe.has_ai_txt {
        seq!["humans.txt"@]
    } else if probe.has_humans_txt {
        seq!["ai.txt"@]
    } else {
        seq!["ai.txt"@, "humans.txt"@]
    }
}

/// The escalations that the tree itself gives rise to: missing well-known files are
/// the likely cause of a red that speaks of them.
pub open spec fn tree_escalations(checks: Seq<CheckModel>, probe: ProbeModel) -> Seq<
    EscalationModel,
> {
    if well_known_red(checks) && missing_files(probe).len() > 0 {
        seq![
            EscalationModel {
                check: "governance / Well-Known (RFC 9116 + RSR)"@,
                group: ExpertGroup::HypatiaFleet,
                obligation: EscalationKind::DispatchFix,
                evidence: "missing .well-known/"@ + joined(
                    missing_files(probe),
                    ", .well-known/"@,
                ) + " — likely underlying cause; content authoring, out of lane"@,
            },
        ]
    } else {
        seq![]
    }
}

/// Do the name and the file of a workflow speak of a compliance gate?
pub open spec fn gate_like(w: InfoModel) -> bool {
    let name = match w.name {
        Some(name) => name,
        None => ""@,
    };
    let hay = lower(w.file + " "@ + name);
    holds_text(hay, "well-known"@) || holds_text(hay, "wellknown"@) || holds_text(hay, "security"@)
        || holds_text(hay, "governance"@) || holds_text(hay, "rsr"@) || holds_text(
        hay,
        "scorecard"@,
    ) || holds_text(hay, "compliance"@)
}

/// What a workflow is shown as: its name, or its file where it has none.
pub open spec fn shown_as(w: InfoModel) -> Seq<char> {
    match w.name {
        Some(name) => name,
        None => w.file,
    }
}

/// The assignment of a workflow whose path filter may strand pull requests.
pub open spec fn trap_of(w: InfoModel, owner: Seq<char>) -> OwnerModel {
    OwnerModel {
        check: shown_as(w),
        owner,
        disposition: DispositionModel::MisconfiguredGate {
            detail: "`"@ + w.file
                + "` is path-filtered (on.*.paths); if required, off-path PRs strand it as Expected → blocked"@,
        },
        rationale:
            "confirm whether this is a required check; if so, drop the path filter and gate inside an always-run job"@,
    }
}

/// Is one of the assignments for the check?
pub open spec fn owned(assignments: Seq<OwnerModel>, check: Seq<char>) -> bool {
    exists|i: int| 0 <= i < assignments.len() && (#[trigger] assignments[i]).check == check
}

/// The path-filtered compliance gates among the first `n` workflows, each once.
pub open spec fn traps_among(workflows: Seq<InfoModel>, n: int, owner: Seq<char>) -> Seq<OwnerModel>
    decreases n,
{
    if n <= 0 {
        seq![]
    } else {
        let fewer = traps_among(workflows, n - 1, owner);
        let w = workflows[n - 1];
        if w.path_filtered && gate_like(w) && !owned(fewer, shown_as(w)) {
            fewer.push(trap_of(w, owner))
        } else {
            fewer
        }
    }
}

/// The assignment of a container recipe that carries a banned licence.
pub open spec fn licence_flag(recipe: Seq<char>, text: Option<Seq<char>>, slug: Seq<char>) -> Seq<
    OwnerModel,
> {
    if text is Some && holds_text(text->Some_0, "AGPL"@) {
        seq![
            OwnerModel {
                check: "container-build"@,
                owner: slug,
                disposition: DispositionModel::MisconfiguredGate {
                    detail: "`"@ + recipe
                        + "` declares an AGPL licence label; estate policy bans AGPL (use MPL-2.0)"@,
                },
                rationale:
                    "licence edits are owner-only (doctrine #6) — flagged, never auto-edited"@,
            },
        ]
    } else {
        seq![]
    }
}

/// The owner assignments that the tree itself gives rise to.
pub open spec fn tree_assignments(
    workflows: Seq<InfoModel>,
    slug: Seq<char>,
    context: ContextModel,
    probe: ProbeModel,
) -> Seq<OwnerModel> {
    let owner = match context.coordination_owner {
        Some(owner) => owner,
        None => slug,
    };
    traps_among(workflows, workflows.len() as int, owner) + licence_flag(
        "Containerfile"@,
        probe.containerfile,
        slug,
    ) + licence_flag("Dockerfile"@, probe.dockerfile, slug)
}

/// Does the plan stand on nothing but the names of the checks?
pub open spec fn ungrounded(context: ContextModel, workflows: Seq<InfoModel>) -> bool {
    !context.found && workflows.len() == 0
}

/// The blocker that says so.
pub open spec fn ungrounded_blocker(root: Seq<char>) -> Seq<char> {
    "ground-truth absent under `"@ + root
        + "`: no .machine_readable/ descriptiles or .github/workflows found — classification is name-only conservative"@
}

/// The name of a state.
pub open spec fn state_name(state: GateState) -> Seq<char> {
    match state {
        GateState::Blocked => "Blocked"@,
        GateState::Red => "Red"@,
        GateState::Green => "Green"@,
    }
}

/// The summary of a plan.
pub open spec fn summary_of(
    state: GateState,
    open: nat,
    self_wins: nat,
    escalated: nat,
    assigned: nat,
) -> Seq<char> {
    "gate "@ + state_name(state) + ": "@ + decimal(open) + " unsatisfied — "@ + decimal(self_wins)
        + " self-win, "@ + decimal(escalated) + " escalated, "@ + decimal(assigned)
        + " owner-assigned"@
}

/// The report of a plan.
pub open spec fn plan_report(
    checks: Seq<CheckModel>,
    slug: Seq<char>,
    root: Seq<char>,
    context: ContextModel,
    workflows: Seq<InfoModel>,
    probe: ProbeModel,
    startup: StartupModel,
) -> ReportModel {
    let open = unsatisfied_of(checks);
    let moves = planned_moves(checks, workflows, slug, startup);
    let n = open.len() as int;
    let self_wins = self_wins_among(moves, n);
    let escalations = escalations_among(moves, n) + tree_escalations(open, probe);
    let assignments = assignments_among(moves, n) + tree_assignments(
        workflows,
        slug,
        context,
        probe,
    );
    let blockers = blockers_for(open, moves);
    ReportModel {
        summary: summary_of(
            state_of(checks),
            open.len(),
            self_wins.len(),
            escalations.len(),
            assignments.len(),
        ),
        unsatisfied: open,
        moves_attempted: self_wins,
        escalations,
        owner_assignments: assignments,
        expert_verdicts: seq![],
        applied: seq![],
        blockers: if ungrounded(context, workflows) {
            blockers.push(ungrounded_blocker(root))
        } else {
            blockers
        },
    }
}

proof fn lemma_planned_describable(
    checks: Seq<CheckModel>,
    n: int,
    workflows: Seq<InfoModel>,
    slug: Seq<char>,
    startup: StartupModel,
)
    ensures
        forall|c: Seq<char>|
            #[trigger] hints_for(checks, n, workflows, slug, startup).dom().contains(c)
                ==> hints_for(checks, n, workflows, slug, startup)[c].describable(),
    decreases n,
{
    if n > 0 {
        lemma_planned_describable(checks, n - 1, workflows, slug, startup);
        classified_moves_are_describable(
            workflows,
            checks[n - 1],
            slug,
            startup.policy,
            startup.startup_failed.contains(checks[n - 1].context),
        );
        let fewer = hints_for(checks, n - 1, workflows, slug, startup);
        let hints = hints_for(checks, n, workflows, slug, startup);
        assert forall|c: Seq<char>| #[trigger] hints.dom().contains(c) implies hints[c].describable() by {
            if fewer.dom().contains(c) {
                assert(fewer[c].describable());
            }
        }
    }
}

/// Every move of a plan can be put in words.
pub proof fn planned_moves_are_describable(
    checks: Seq<CheckModel>,
    workflows: Seq<InfoModel>,
    slug: Seq<char>,
    startup: StartupModel,
)
    ensures
        forall|i: int|
            0 <= i < planned_moves(checks, workflows, slug, startup).len() ==> (
            #[trigger] planned_moves(checks, workflows, slug, startup)[i]).describable(),
{
    let open = unsatisfied_of(checks);
    lemma_planned_describable(open, open.len() as int, workflows, slug, startup);
}

fn collect_hints(
    open: &Vec<RequiredCheck>,
    facts: &WorkflowFacts,
    slug: &str,
    startup: &StartupFacts,
) -> (r: Hints)
    ensures
        r.deep_view() == hints_for(
            open.deep_view(),
            open@.len() as int,
            facts.deep_view(),
            slug@,
            startup.deep_view(),
        ),
{
    let ghost m = open.deep_view();
    let mut hints = Hints::new();
    let mut i: usize = 0;
    while i < open.len()
        invariant
            i <= open@.len(),
            m == open.deep_view(),
            hints.deep_view() == hints_for(
                m,
                i as int,
                facts.deep_view(),
                slug@,
                startup.deep_view(),
            ),
        decreases open@.len() - i,
    {
        let check: &RequiredCheck = &open[i];
        assert(m[i as int] == check.deep_view());
        let failed: bool = listed(&startup.startup_failed, &check.required_context);
        let hint: Option<Move> = match &startup.policy {
            Some(policy) => facts.classify_with_policy(check, slug, Some(policy), failed),
            None => facts.classify_with_policy(check, slug, None, failed),
        };
        if let Some(hint) = hint {
            hints.insert(check.required_context.clone(), hint);
        }
        i += 1;
    }
    hints
}

fn copy_checks(checks: &Vec<&RequiredCheck>) -> (r: Vec<RequiredCheck>)
    ensures
        r.deep_view() == checks.deep_view(),
{
    let ghost m = checks.deep_view();
    let mut r: Vec<RequiredCheck> = Vec::new();
    let mut i: usize = 0;
    assert(r.deep_view() =~= m.take(0));
    while i < checks.len()
        invariant
            i <= checks@.len(),
            m == checks.deep_view(),
            r.deep_view() == m.take(i as int),
        decreases checks@.len() - i,
    {
        let ghost sofar = r.deep_view();
        let check: &RequiredCheck = checks[i];
        let copy: RequiredCheck = check.clone();
        assert(copy.deep_view() == m[i as int]);
        r.push(copy);
        assert(r.deep_view() =~= sofar.push(m[i as int]));
        i += 1;
        assert(r.deep_view() =~= m.take(i as int));
    }
    assert(m.take(m.len() as int) =~= m);
    r
}

/// Plans a fight by the workflows alone.
///
/// `root` is how the host shows the place of the tree that `context`, `facts` and
/// `probe` were read from.
pub fn plan(
    gate: &Gate,
    slug: &str,
    root: &str,
    context: &RepoContext,
    facts: &WorkflowFacts,
    probe: &TreeProbe,
) -> (r: Outcome)
    ensures
        r.deep_view() == (OutcomeModel::Red {
            report: plan_report(
                gate.deep_view(),
                slug@,
                root@,
                context.deep_view(),
                facts.deep_view(),
                probe.deep_view(),
                nothing_observed(),
            ),
        }),
{
    plan_with_startup(gate, slug, root, context, facts, probe, &StartupFacts::default())
}

/// Plans a fight as [`plan`] does, but where a check was seen to fail at startup the
/// repository's policy for Actions is looked at first.
pub fn plan_with_startup(
    gate: &Gate,
    slug: &str,
    root: &str,
    context: &RepoContext,
    facts: &WorkflowFacts,
    probe: &TreeProbe,
    startup: &StartupFacts,
) -> (r: Outcome)
    ensures
        r.deep_view() == (OutcomeModel::Red {
            report: plan_report(
                gate.deep_view(),
                slug@,
                root@,
                context.deep_view(),
                facts.deep_view(),
                probe.deep_view(),
                startup.deep_view(),
            ),
        }),
{
    let ghost checks = gate.deep_view();
    let ghost moves = planned_moves(checks, facts.deep_view(), slug@, startup.deep_view());
    let unsatisfied: Vec<RequiredCheck> = copy_checks(&gate.unsatisfied());
    let ghost open = unsatisfied.deep_view();
    let hints: Hints = collect_hints(&unsatisfied, facts, slug, startup);
    let Diagnosis { state, proposed } = diagnose_with_hints(gate, &hints);
    proof {
        planned_moves_are_describable(checks, facts.deep_view(), slug@, startup.deep_view());
        assert(proposed.deep_view() == moves);
        assert(moves.len() == open.len());
    }

    let mut moves_attempted: Vec<Move> = Vec::new();
    let mut escalations: Vec<Escalation> = Vec::new();
    let mut owner_assignments: Vec<OwnerAssignment> = Vec::new();
    let mut blockers: Vec<String> = Vec::new();
    let mut i: usize = 0;
    proof {
        assert(moves_attempted.deep_view() =~= seq![]);
        assert(escalations.deep_view() =~= seq![]);
        assert(owner_assignments.deep_view() =~= seq![]);
        assert(blockers.deep_view() =~= blockers_for(open, moves).take(0));
    }
    while i < unsatisfied.len()
        invariant
            i <= unsatisfied@.len() == proposed@.len(),
            open == unsatisfied.deep_view(),
            moves == proposed.deep_view(),
            forall|k: int| 0 <= k < moves.len() ==> (#[trigger] moves[k]).describable(),
            moves_attempted.deep_view() == self_wins_among(moves, i as int),
            escalations.deep_view() == escalations_among(moves, i as int),
            owner_assignments.deep_view() == assignments_among(moves, i as int),
            blockers.deep_view() == blockers_for(open, moves).take(i as int),
        decreases unsatisfied@.len() - i,
    {
        let ctx: &str = unsatisfied[i].required_context.as_str();
        let m: &Move = &proposed[i];
        let ghost sofar = blockers.deep_view();
        let ghost wins = moves_attempted.deep_view();
        let ghost escs = escalations.deep_view();
        let ghost owns = owner_assignments.deep_view();
        proof {
            assert(open[i as int].context == ctx@);
            assert(moves[i as int] == m.deep_view());
        }
        let blocker: String = blocker_line(ctx, m);
        blockers.push(blocker);
        proof {
            assert(blockers.deep_view() =~= sofar.push(blocker_for(ctx@, m.deep_view())));
            assert(blockers.deep_view() =~= blockers_for(open, moves).take(i + 1));
        }
        if let Some(e) = Escalation::from_move(m) {
            escalations.push(e);
            assert(escalations.deep_view() =~= escs.push(e.deep_view()));
        } else if let Some(o) = OwnerAssignment::from_move(m) {
            owner_assignments.push(o);
            assert(owner_assignments.deep_view() =~= owns.push(o.deep_view()));
        } else {
            let copy: Move = m.clone();
            moves_attempted.push(copy);
            assert(moves_attempted.deep_view() =~= wins.push(m.deep_view()));
        }
        i += 1;
    }
    proof {
        assert(blockers_for(open, moves).take(open.len() as int) =~= blockers_for(open, moves));
    }

    let (mut extra_escalations, mut extra_assignments): (
        Vec<Escalation>,
        Vec<OwnerAssignment>,
    ) = structural_scan(slug, context, &unsatisfied, facts, probe);
    let ghost escs = escalations.deep_view();
    let ghost owns = owner_assignments.deep_view();
    let ghost more_escs = extra_escalations.deep_view();
    let ghost more_owns = extra_assignments.deep_view();
    escalations.append(&mut extra_escalations);
    owner_assignments.append(&mut extra_assignments);
    proof {
        assert(escalations.deep_view() =~= escs + more_escs);
        assert(owner_assignments.deep_view() =~= owns + more_owns);
    }

    if !context.found && facts.workflows.len() == 0 {
        let ghost sofar = blockers.deep_view();
        blockers.push(
            cat3(
                "ground-truth absent under `",
                root,
                "`: no .machine_readable/ descriptiles or .github/workflows found — classification is name-only conservative",
            ),
        );
        assert(blockers.deep_view() =~= sofar.push(ungrounded_blocker(root@)));
    }
    let summary: String = summarise(
        state,
        unsatisfied.len(),
        moves_attempted.len(),
        escalations.len(),
        owner_assignments.len(),
    );
    let report = Report {
        summary,
        unsatisfied,
        moves_attempted,
        escalations,
        owner_assignments,
        expert_verdicts: Vec::new(),
        applied: Vec::new(),
        blockers,
    };
    proof {
        assert(report.expert_verdicts.deep_view() =~= seq![]);
        assert(report.applied.deep_view() =~= seq![]);
        assert(state == state_of(checks));
    }
    Outcome::Red { report }
}

fn blocker_line(ctx: &str, m: &Move) -> (r: String)
    requires
        m.deep_view().describable(),
    ensures
        r@ == blocker_for(ctx@, m.deep_view()),
{
    match m {
        Move::EscalateToExpert { group, .. } => cat4(
            "`",
            ctx,
            "`: escalated to ",
            group.label(),
        ),
        Move::AssignGateOwner { owner, disposition, .. } => {
            let head: String = cat3("`", ctx, "`: ");
            cat5(&head, disposition.label(), " → `", owner, "`")
        },
        _ => {
            let what: String = m.describe();
            cat4("`", ctx, "`: self-win — ", &what)
        },
    }
}

/// The name of a state.
pub fn name_of_state(state: GateState) -> (r: &'static str)
    ensures
        r@ == state_name(state),
{
    match state {
        GateState::Blocked => "Blocked",
        GateState::Red => "Red",
        GateState::Green => "Green",
    }
}

fn summarise(
    state: GateState,
    open: usize,
    self_wins: usize,
    escalated: usize,
    assigned: usize,
) -> (r: String)
    ensures
        r@ == summary_of(
            state,
            open as nat,
            self_wins as nat,
            escalated as nat,
            assigned as nat,
        ),
{
    let a: String = show(open as u64);
    let b: String = show(self_wins as u64);
    let c: String = show(escalated as u64);
    let d: String = show(assigned as u64);
    let head: String = cat6("gate ", name_of_state(state), ": ", &a, " unsatisfied — ", &b);
    cat6(&head, " self-win, ", &c, " escalated, ", &d, " owner-assigned")
}

/// Plans a fight over a checkout, and hands back what the checkout says of itself.
pub fn plan_at_root(gate: &Gate, slug: &str, tree: &RepoTree) -> (r: (RepoContext, Outcome))
    ensures
        r.0.deep_view() == (ContextModel {
            found: tree.ecosystem@.len() > 0 || tree.clade@.len() > 0 || tree.anchor@.len() > 0
                || tree.agentic@.len() > 0,
            ..context_of(tree.ecosystem@, tree.anchor@, tree.agentic@)
        }),
        r.1.deep_view() == (OutcomeModel::Red {
            report: plan_report(
                gate.deep_view(),
                slug@,
                tree.root@,
                r.0.deep_view(),
                facts_of(tree.workflows.deep_view()),
                tree.probe.deep_view(),
                nothing_observed(),
            ),
        }),
{
    let context = RepoContext::load(&tree.ecosystem, &tree.clade, &tree.anchor, &tree.agentic);
    let facts = WorkflowFacts::load(&tree.workflows);
    let outcome = plan(gate, slug, &tree.root, &context, &facts, &tree.probe);
    (context, outcome)
}

/// Plans a fight over a checkout from all that was fetched for it: the contexts that failed
/// at startup, and the policy for Actions where it could be had, count. Where the policy was
/// asked for and could not be had, a line says so, and the plan goes by the workflows alone.
pub fn plan_bundle_at_root(bundle: &FetchBundle, slug: &str, tree: &RepoTree) -> (r: (
    RepoContext,
    Outcome,
    Option<String>,
))
    ensures
        r.0.deep_view() == (ContextModel {
            found: tree.ecosystem@.len() > 0 || tree.clade@.len() > 0 || tree.anchor@.len() > 0
                || tree.agentic@.len() > 0,
            ..context_of(tree.ecosystem@, tree.anchor@, tree.agentic@)
        }),
        r.1.deep_view() == (OutcomeModel::Red {
            report: plan_report(
                bundle.deep_view().gate,
                slug@,
                tree.root@,
                r.0.deep_view(),
                facts_of(tree.workflows.deep_view()),
                tree.probe.deep_view(),
                startup_in(bundle.deep_view()),
            ),
        }),
        r.2.deep_view() == policy_note(bundle.deep_view().policy_probe),
{
    let context = RepoContext::load(&tree.ecosystem, &tree.clade, &tree.anchor, &tree.agentic);
    let facts = WorkflowFacts::load(&tree.workflows);
    let startup = StartupFacts::of_bundle(bundle);
    let outcome = plan_with_startup(
        &bundle.gate,
        slug,
        &tree.root,
        &context,
        &facts,
        &tree.probe,
        &startup,
    );
    (context, outcome, note_on_policy(&bundle.policy_probe))
}

/// Plans a fight where there is no checkout: nothing of the file system is looked at,
/// and the report says so.
pub fn plan_ungrounded(gate: &Gate, slug: &str) -> (r: Outcome)
    ensures
        r.deep_view() == (OutcomeModel::Red {
            report: plan_report(
                gate.deep_view(),
                slug@,
                "(no repo_root supplied)"@,
                no_context(),
                seq![],
                no_tree(),
                nothing_observed(),
            ),
        }),
{
    plan(
        gate,
        slug,
        "(no repo_root supplied)",
        &RepoContext::default(),
        &WorkflowFacts::default(),
        &TreeProbe::default(),
    )
}

fn any_well_known(checks: &Vec<RequiredCheck>) -> (r: bool)
    ensures
        r == well_known_red(checks.deep_view()),
{
    let ghost m = checks.deep_view();
    let mut i: usize = 0;
    while i < checks.len()
        invariant
            i <= checks@.len(),
            m == checks.deep_view(),
            forall|k: int|
                0 <= k < i ==> !holds_text(lower((#[trigger] m[k]).context), "well-known"@),
        decreases checks@.len() - i,
    {
        assert(m[i as int].context == checks@[i as int].required_context@);
        let name: String = to_lower(&checks[i].required_context);
        if contains(&name, "well-known") {
            return true;
        }
        i += 1;
    }
    false
}

fn list_missing(probe: &TreeProbe) -> (r: Vec<String>)
    ensures
        r.deep_view() == missing_files(probe.deep_view()),
{
    let mut r: Vec<String> = Vec::new();
    if !probe.has_ai_txt {
        r.push("ai.txt".to_owned());
    }
    if !probe.has_humans_txt {
        r.push("humans.txt".to_owned());
    }
    assert(r.deep_view() =~= missing_files(probe.deep_view()));
    r
}

fn is_gate_like(w: &WorkflowInfo) -> (r: bool)
    ensures
        r == gate_like(w.deep_view()),
{
    let name: &str = match &w.name {
        Some(name) => name.as_str(),
        None => "",
    };
    let whole: String = cat3(&w.file, " ", name);
    let hay: String = to_lower(&whole);
    contains(&hay, "well-known") || contains(&hay, "wellknown") || contains(&hay, "security")
        || contains(&hay, "governance") || contains(&hay, "rsr") || contains(&hay, "scorecard")
        || contains(&hay, "compliance")
}

fn already_owned(assignments: &Vec<OwnerAssignment>, check: &str) -> (r: bool)
    ensures
        r == owned(assignments.deep_view(), check@),
{
    let ghost m = assignments.deep_view();
    let mut i: usize = 0;
    while i < assignments.len()
        invariant
            i <= assignments@.len(),
            m == assignments.deep_view(),
            forall|k: int| 0 <= k < i ==> (#[trigger] m[k]).check != check@,
        decreases assignments@.len() - i,
    {
        assert(m[i as int].check == assignments@[i as int].check@);
        if same(&assignments[i].check, check) {
            return true;
        }
        i += 1;
    }
    false
}

fn flag_licence(
    recipe: &str,
    text: &Option<String>,
    slug: &str,
    assignments: &mut Vec<OwnerAssignment>,
)
    ensures
        final(assignments).deep_view() == old(assignments).deep_view() + licence_flag(
            recipe@,
            text.deep_view(),
            slug@,
        ),
{
    let ghost sofar = assignments.deep_view();
    if let Some(text) = text {
        if contains(text, "AGPL") {
            assignments.push(
                OwnerAssignment {
                    check: "container-build".to_owned(),
                    owner: slug.to_owned(),
                    disposition: OwnershipDisposition::MisconfiguredGate {
                        detail: cat3(
                            "`",
                            recipe,
                            "` declares an AGPL licence label; estate policy bans AGPL (use MPL-2.0)",
                        ),
                    },
                    rationale: "licence edits are owner-only (doctrine #6) — flagged, never auto-edited".to_owned(),
                },
            );
            assert(assignments.deep_view() =~= sofar + licence_flag(
                recipe@,
                Some(text@),
                slug@,
            ));
            return;
        }
    }
    assert(sofar + Seq::<OwnerModel>::empty() =~= sofar);
}

/// What the tree itself gives rise to, beside the checks.
fn structural_scan(
    slug: &str,
    context: &RepoContext,
    unsatisfied: &Vec<RequiredCheck>,
    facts: &WorkflowFacts,
    probe: &TreeProbe,
) -> (r: (Vec<Escalation>, Vec<OwnerAssignment>))
    ensures
        r.0.deep_view() == tree_escalations(unsatisfied.deep_view(), probe.deep_view()),
        r.1.deep_view() == tree_assignments(
            facts.deep_view(),
            slug@,
            context.deep_view(),
            probe.deep_view(),
        ),
{
    let mut escalations: Vec<Escalation> = Vec::new();
    let mut owner_assignments: Vec<OwnerAssignment> = Vec::new();
    if any_well_known(unsatisfied) {
        let missing: Vec<String> = list_missing(probe);
        if missing.len() > 0 {
            let files: String = join(&missing, ", .well-known/");
            escalations.push(
                Escalation {
                    check: "governance / Well-Known (RFC 9116 + RSR)".to_owned(),
                    group: ExpertGroup::HypatiaFleet,
                    obligation: EscalationKind::DispatchFix,
                    evidence: cat3(
                        "missing .well-known/",
                        &files,
                        " — likely underlying cause; content authoring, out of lane",
                    ),
                },
            );
        }
    }
    assert(escalations.deep_view() =~= tree_escalations(
        unsatisfied.deep_view(),
        probe.deep_view(),
    ));

    let owner: &str = match &context.coordination_owner {
        Some(owner) => owner.as_str(),
        None => slug,
    };
    let ghost ws = facts.deep_view();
    let mut i: usize = 0;
    assert(owner_assignments.deep_view() =~= seq![]);
    while i < facts.workflows.len()
        invariant
            i <= facts.workflows@.len(),
            ws == facts.deep_view(),
            owner_assignments.deep_view() == traps_among(ws, i as int, owner@),
        decreases facts.workflows@.len() - i,
    {
        let w: &WorkflowInfo = &facts.workflows[i];
        assert(ws[i as int] == w.deep_view());
        let ghost sofar = owner_assignments.deep_view();
        i += 1;
        if w.path_filtered && is_gate_like(w) {
            let check: String = match &w.name {
                Some(name) => name.clone(),
                None => w.file.clone(),
            };
            if already_owned(&owner_assignments, &check) {
                continue;
            }
            owner_assignments.push(
                OwnerAssignment {
                    check,
                    owner: owner.to_owned(),
                    disposition: OwnershipDisposition::MisconfiguredGate {
                        detail: cat3(
                            "`",
                            &w.file,
                            "` is path-filtered (on.*.paths); if required, off-path PRs strand it as Expected → blocked",
                        ),
                    },
                    rationale: "confirm whether this is a required check; if so, drop the path filter and gate inside an always-run job".to_owned(),
                },
            );
            assert(owner_assignments.deep_view() =~= sofar.push(trap_of(w.deep_view(), owner@)));
        }
    }
    flag_licence("Containerfile", &probe.containerfile, slug, &mut owner_assignments);
    flag_licence("Dockerfile", &probe.dockerfile, slug, &mut owner_assignments);
    (escalations, owner_assignments)
}

proof fn lemma_sections_add_up(moves: Seq<MoveModel>, n: int)
    requires
        0 <= n <= moves.len(),
    ensures
        self_wins_among(moves, n).len() + escalations_among(moves, n).len() + assignments_among(
            moves,
            n,
        ).len() == n,
    decreases n,
{
    if n > 0 {
        lemma_sections_add_up(moves, n - 1);
        crate::outcome::projections_are_exclusive(moves[n - 1]);
    }
}

/// Nothing is dropped: each requirement that is not satisfied is in the report, has
/// one blocker, and has its move in exactly one of the three sections.
pub proof fn every_red_is_accounted_for(
    checks: Seq<CheckModel>,
    slug: Seq<char>,
    root: Seq<char>,
    context: ContextModel,
    workflows: Seq<InfoModel>,
    probe: ProbeModel,
    startup: StartupModel,
)
    ensures
        ({
            let report = plan_report(checks, slug, root, context, workflows, probe, startup);
            let open = unsatisfied_of(checks);
            let moves = planned_moves(checks, workflows, slug, startup);
            &&& report.unsatisfied == open
            &&& moves.len() == open.len()
            &&& report.moves_attempted.len() + escalations_among(moves, open.len() as int).len()
                + assignments_among(moves, open.len() as int).len() == open.len()
            &&& forall|i: int|
                0 <= i < open.len() ==> #[trigger] report.blockers[i] == blocker_for(
                    open[i].context,
                    moves[i],
                )
            &&& report.blockers.len() == open.len() + if ungrounded(context, workflows) {
                1int
            } else {
                0int
            }
        }),
{
    let open = unsatisfied_of(checks);
    lemma_sections_add_up(planned_moves(checks, workflows, slug, startup), open.len() as int);
}

/// A plan that stands on nothing but names says so in its last blocker.
pub proof fn an_ungrounded_plan_says_so(
    checks: Seq<CheckModel>,
    slug: Seq<char>,
    root: Seq<char>,
    context: ContextModel,
    workflows: Seq<InfoModel>,
    probe: ProbeModel,
    startup: StartupModel,
)
    requires
        ungrounded(context, workflows),
    ensures
        plan_report(
            checks,
            slug,
            root,
            context,
            workflows,
            probe,
            startup,
        ).blockers.last() == ungrounded_blocker(root),
{
}

/// Without a checkout no finding is attributed to one: no path filter and no licence
/// is reported, and every proposal goes by the name of the check alone.
pub proof fn no_checkout_means_no_findings(
    checks: Seq<CheckModel>,
    slug: Seq<char>,
    startup: StartupModel,
)
    ensures
        tree_assignments(seq![], slug, no_context(), no_tree()).len() == 0,
        forall|i: int|
            0 <= i < unsatisfied_of(checks).len() ==> #[trigger] planned_moves(
                checks,
                seq![],
                slug,
                startup,
            )[i] == default_move(unsatisfied_of(checks)[i].context),
{
    let open = unsatisfied_of(checks);
    lemma_no_hints(open, open.len() as int, slug, startup);
}

proof fn lemma_no_hints(checks: Seq<CheckModel>, n: int, slug: Seq<char>, startup: StartupModel)
    ensures
        hints_for(checks, n, seq![], slug, startup) == Map::<Seq<char>, MoveModel>::empty(),
    decreases n,
{
    if n > 0 {
        lemma_no_hints(checks, n - 1, slug, startup);
    }
}

/// A hint that all checks of a context agree on is the hint for the context.
proof fn lemma_agreed_hint(
    checks: Seq<CheckModel>,
    n: int,
    workflows: Seq<InfoModel>,
    slug: Seq<char>,
    startup: StartupModel,
    context: Seq<char>,
    m: MoveModel,
)
    requires
        n <= checks.len(),
        forall|k: int|
            0 <= k < checks.len() && (#[trigger] checks[k]).context == context
                ==> startup_classified(workflows, checks[k], slug, startup) == Some(m),
    ensures
        (exists|k: int| 0 <= k < n && (#[trigger] checks[k]).context == context) ==> hints_for(
            checks,
            n,
            workflows,
            slug,
            startup,
        ).dom().contains(context) && hints_for(checks, n, workflows, slug, startup)[context] == m,
    decreases n,
{
    if n > 0 {
        lemma_agreed_hint(checks, n - 1, workflows, slug, startup, context, m);
        if checks[n - 1].context != context {
            assert forall|k: int| 0 <= k < n && (#[trigger] checks[k]).context == context implies k
                < n - 1 by {}
        }
    }
}

/// A refusal that was seen at startup, and that the policy for Actions explains, reaches the
/// plan: the move for the check is the one against the policy.
pub proof fn an_explained_refusal_reaches_the_plan(
    checks: Seq<CheckModel>,
    workflows: Seq<InfoModel>,
    slug: Seq<char>,
    startup: StartupModel,
    i: int,
)
    requires
        0 <= i < unsatisfied_of(checks).len(),
        startup.policy is Some,
        startup.startup_failed.contains(unsatisfied_of(checks)[i].context),
        emitter(workflows, unsatisfied_of(checks)[i].context) is Some,
        policy_move(
            startup.policy->Some_0,
            emitter(workflows, unsatisfied_of(checks)[i].context)->Some_0,
        ) is Some,
    ensures
        planned_moves(checks, workflows, slug, startup)[i] == policy_move(
            startup.policy->Some_0,
            emitter(workflows, unsatisfied_of(checks)[i].context)->Some_0,
        )->Some_0,
{
    let open = unsatisfied_of(checks);
    let context = open[i].context;
    let m = policy_move(startup.policy->Some_0, emitter(workflows, context)->Some_0)->Some_0;
    lemma_agreed_hint(open, open.len() as int, workflows, slug, startup, context, m);
    assert(open[i].context == context);
}

proof fn lemma_unread_policy(
    checks: Seq<CheckModel>,
    n: int,
    workflows: Seq<InfoModel>,
    slug: Seq<char>,
    startup: StartupModel,
)
    requires
        startup.policy is None || startup.startup_failed.len() == 0,
    ensures
        hints_for(checks, n, workflows, slug, startup) == hints_for(
            checks,
            n,
            workflows,
            slug,
            nothing_observed(),
        ),
    decreases n,
{
    if n > 0 {
        lemma_unread_policy(checks, n - 1, workflows, slug, startup);
        let c = checks[n - 1];
        assert(!nothing_observed().startup_failed.contains(c.context));
        an_unseen_failure_keeps_the_policy_silent(
            workflows,
            c,
            slug,
            startup.policy,
            startup.startup_failed.contains(c.context),
        );
    }
}

/// A policy that could not be had, or that nothing asked for, changes nothing: the plan is
/// the one by the workflows alone.
pub proof fn an_unread_policy_changes_no_plan(
    checks: Seq<CheckModel>,
    slug: Seq<char>,
    root: Seq<char>,
    context: ContextModel,
    workflows: Seq<InfoModel>,
    probe: ProbeModel,
    startup: StartupModel,
)
    requires
        startup.policy is None || startup.startup_failed.len() == 0,
    ensures
        plan_report(checks, slug, root, context, workflows, probe, startup) == plan_report(
            checks,
            slug,
            root,
            context,
            workflows,
            probe,
            nothing_observed(),
        ),
{
    let open = unsatisfied_of(checks);
    lemma_unread_policy(open, open.len() as int, workflows, slug, startup);
}

/// Where the policy was asked for and could not be had, it is noted; it is never taken for
/// one that was read.
pub proof fn a_failed_probe_is_noted(bundle: BundleModel)
    ensures
        policy_note(bundle.policy_probe) is Some <==> bundle.policy_probe is Failed,
        startup_in(bundle).policy is Some <==> bundle.policy_probe is Fetched,
{
}

/// Each move goes to one section and one alone: a hand-off to an expert is an escalation, an
/// annotation is an owner assignment, each with all of its fields, and any other move is in
/// the squabbler's own lane.
pub proof fn each_move_goes_to_its_section(moves: Seq<MoveModel>, m: MoveModel)
    ensures
        escalations_among(seq![], 0).len() == 0,
        assignments_among(seq![], 0).len() == 0,
        self_wins_among(seq![], 0).len() == 0,
        ({
            let n = moves.len() as int;
            let more = moves.push(m);
            let escalations = escalations_among(moves, n);
            let assignments = assignments_among(moves, n);
            let wins = self_wins_among(moves, n);
            &&& escalations_among(more, n + 1) == match m {
                MoveModel::EscalateToExpert { check, group, obligation, evidence } =>
                    escalations.push(EscalationModel { check, group, obligation, evidence }),
                _ => escalations,
            }
            &&& assignments_among(more, n + 1) == match m {
                MoveModel::AssignGateOwner { check, owner, disposition, rationale } =>
                    assignments.push(OwnerModel { check, owner, disposition, rationale }),
                _ => assignments,
            }
            &&& self_wins_among(more, n + 1) == match m {
                MoveModel::EscalateToExpert { .. } => wins,
                MoveModel::AssignGateOwner { .. } => wins,
                _ => wins.push(m),
            }
        }),
{
    lemma_sections_front(moves, moves.push(m), moves.len() as int);
}

proof fn lemma_sections_front(a: Seq<MoveModel>, b: Seq<MoveModel>, n: int)
    requires
        0 <= n <= a.len() <= b.len(),
        forall|i: int| 0 <= i < a.len() ==> #[trigger] b[i] == a[i],
    ensures
        escalations_among(b, n) == escalations_among(a, n),
        assignments_among(b, n) == assignments_among(a, n),
        self_wins_among(b, n) == self_wins_among(a, n),
    decreases n,
{
    if n > 0 {
        lemma_sections_front(a, b, n - 1);
        assert(b[n - 1] == a[n - 1]);
    }
}

/// A blocker names its context and says where its move went: to which experts, to which owner
/// and in what disposition, or what the move in the own lane is.
pub proof fn a_blocker_says_where_its_move_went(context: Seq<char>, m: MoveModel)
    ensures
        match m {
            MoveModel::EscalateToExpert { group, .. } => blocker_for(context, m) == "`"@ + context
                + "`: escalated to "@ + group_label(group),
            MoveModel::AssignGateOwner { owner, disposition, .. } => blocker_for(context, m)
                == "`"@ + context + "`: "@ + disposition.label() + " → `"@ + owner + "`"@,
            _ => blocker_for(context, m) == "`"@ + context + "`: self-win — "@ + m.described(),
        },
{
}

/// Well-known files that are not there are escalated exactly where the name of a check that
/// is not satisfied speaks of them, in whatever case: once, with the files that are missing.
pub proof fn missing_well_known_files_are_escalated(
    checks: Seq<CheckModel>,
    probe: ProbeModel,
    i: int,
)
    ensures
        (forall|k: int| 0 <= k < checks.len() ==> !holds_text(
            lower((#[trigger] checks[k]).context),
            "well-known"@,
        )) ==> tree_escalations(checks, probe).len() == 0,
        probe.has_ai_txt && probe.has_humans_txt ==> tree_escalations(checks, probe).len() == 0,
        0 <= i < checks.len() && holds_text(lower(checks[i].context), "well-known"@) && !(
        probe.has_ai_txt && probe.has_humans_txt) ==> tree_escalations(checks, probe) == seq![
            EscalationModel {
                check: "governance / Well-Known (RFC 9116 + RSR)"@,
                group: ExpertGroup::HypatiaFleet,
                obligation: EscalationKind::DispatchFix,
                evidence: "missing .well-known/"@ + (if probe.has_ai_txt {
                    "humans.txt"@
                } else if probe.has_humans_txt {
                    "ai.txt"@
                } else {
                    "ai.txt"@ + ", .well-known/"@ + "humans.txt"@
                }) + " — likely underlying cause; content authoring, out of lane"@,
            },
        ],
{
    let both = seq!["ai.txt"@, "humans.txt"@];
    assert(both.drop_last() =~= seq!["ai.txt"@]);
    assert(joined(both, ", .well-known/"@) == joined(both.drop_last(), ", .well-known/"@)
        + ", .well-known/"@ + both.last());
}

/// Each workflow that is path-filtered and whose file or name speaks of a compliance gate, in
/// whatever case, adds one assignment to the owner, unless one was added for a workflow that
/// is shown alike; no other workflow adds any.
pub proof fn each_path_filtered_gate_is_assigned(
    workflows: Seq<InfoModel>,
    w: InfoModel,
    owner: Seq<char>,
)
    ensures
        traps_among(seq![], 0, owner).len() == 0,
        ({
            let before = traps_among(workflows, workflows.len() as int, owner);
            let after = traps_among(workflows.push(w), (workflows.len() + 1) as int, owner);
            let hay = match w.name {
                Some(name) => lower(w.file + " "@ + name),
                None => lower(w.file + " "@ + ""@),
            };
            let shown = match w.name {
                Some(name) => name,
                None => w.file,
            };
            let gate = holds_text(hay, "well-known"@) || holds_text(hay, "wellknown"@)
                || holds_text(hay, "security"@) || holds_text(hay, "governance"@) || holds_text(
                hay,
                "rsr"@,
            ) || holds_text(hay, "scorecard"@) || holds_text(hay, "compliance"@);
            let known = exists|i: int| 0 <= i < before.len() && (#[trigger] before[i]).check
                == shown;
            if w.path_filtered && gate && !known {
                after == before.push(
                    OwnerModel {
                        check: shown,
                        owner,
                        disposition: DispositionModel::MisconfiguredGate {
                            detail: "`"@ + w.file
                                + "` is path-filtered (on.*.paths); if required, off-path PRs strand it as Expected → blocked"@,
                        },
                        rationale:
                            "confirm whether this is a required check; if so, drop the path filter and gate inside an always-run job"@,
                    },
                )
            } else {
                after == before
            }
        }),
{
    lemma_traps_front(workflows, workflows.push(w), workflows.len() as int, owner);
}

proof fn lemma_traps_front(a: Seq<InfoModel>, b: Seq<InfoModel>, n: int, owner: Seq<char>)
    requires
        0 <= n <= a.len() <= b.len(),
        forall|i: int| 0 <= i < a.len() ==> #[trigger] b[i] == a[i],
    ensures
        traps_among(b, n, owner) == traps_among(a, n, owner),
    decreases n,
{
    if n > 0 {
        lemma_traps_front(a, b, n - 1, owner);
        assert(b[n - 1] == a[n - 1]);
    }
}

/// The path-filtered gates go to the owner that the repository coordinates with, or to the
/// repository itself where it names none. Each container recipe that holds `AGPL` goes to the
/// repository itself, the `Containerfile` first; one without it, or that is absent, goes
/// nowhere.
pub proof fn findings_of_the_tree_go_to_their_owners(
    workflows: Seq<InfoModel>,
    slug: Seq<char>,
    context: ContextModel,
    probe: ProbeModel,
)
    ensures
        ({
            let owner = match context.coordination_owner {
                Some(owner) => owner,
                None => slug,
            };
            let traps = traps_among(workflows, workflows.len() as int, owner);
            let all = tree_assignments(workflows, slug, context, probe);
            let first = probe.containerfile matches Some(text) && holds_text(text, "AGPL"@);
            let second = probe.dockerfile matches Some(text) && holds_text(text, "AGPL"@);
            let n = traps.len() as int;
            let flag = |recipe: Seq<char>|
                OwnerModel {
                    check: "container-build"@,
                    owner: slug,
                    disposition: DispositionModel::MisconfiguredGate {
                        detail: "`"@ + recipe
                            + "` declares an AGPL licence label; estate policy bans AGPL (use MPL-2.0)"@,
                    },
                    rationale:
                        "licence edits are owner-only (doctrine #6) — flagged, never auto-edited"@,
                };
            &&& all.len() == n + (if first {
                1int
            } else {
                0int
            }) + (if second {
                1int
            } else {
                0int
            })
            &&& all.take(n) == traps
            &&& first ==> all[n] == flag("Containerfile"@)
            &&& second ==> all.last() == flag("Dockerfile"@)
        }),
{
    let owner = match context.coordination_owner {
        Some(owner) => owner,
        None => slug,
    };
    let traps = traps_among(workflows, workflows.len() as int, owner);
    let all = tree_assignments(workflows, slug, context, probe);
    assert(all.take(traps.len() as int) =~= traps);
}

/// What a report holds: the requirements that are not satisfied, the moves in the own lane,
/// the escalations and the assignments with those of the tree behind them, and a summary that
/// counts them all under the state of the whole gate. Nothing was applied yet, and nobody
/// answered.
pub proof fn a_report_holds_the_whole_account(
    checks: Seq<CheckModel>,
    slug: Seq<char>,
    root: Seq<char>,
    context: ContextModel,
    workflows: Seq<InfoModel>,
    probe: ProbeModel,
    startup: StartupModel,
)
    ensures
        ({
            let report = plan_report(checks, slug, root, context, workflows, probe, startup);
            let open = unsatisfied_of(checks);
            let n = open.len() as int;
            let moves = planned_moves(checks, workflows, slug, startup);
            &&& report.unsatisfied == open
            &&& report.moves_attempted == self_wins_among(moves, n)
            &&& report.escalations == escalations_among(moves, n) + tree_escalations(open, probe)
            &&& report.owner_assignments == assignments_among(moves, n) + tree_assignments(
                workflows,
                slug,
                context,
                probe,
            )
            &&& report.expert_verdicts.len() == 0
            &&& report.applied.len() == 0
            &&& report.summary == "gate "@ + (match state_of(checks) {
                GateState::Blocked => "Blocked"@,
                GateState::Red => "Red"@,
                GateState::Green => "Green"@,
            }) + ": "@ + decimal(open.len()) + " unsatisfied — "@ + decimal(
                report.moves_attempted.len(),
            ) + " self-win, "@ + decimal(report.escalations.len()) + " escalated, "@ + decimal(
                report.owner_assignments.len(),
            ) + " owner-assigned"@
            &&& !context.found && workflows.len() == 0 ==> report.blockers.len() == n + 1
                && report.blockers[n] == "ground-truth absent under `"@ + root
                + "`: no .machine_readable/ descriptiles or .github/workflows found — classification is name-only conservative"@
            &&& context.found || workflows.len() > 0 ==> report.blockers.len() == n
        }),
{
}

/// The move for a requirement is the one that its workflow calls for, with the policy for
/// Actions where the context is among those that failed at startup; where the workflows call
/// for none, it is the one by the name. Contexts that occur more than once must agree.
pub proof fn the_move_is_the_one_that_the_workflow_calls_for(
    checks: Seq<CheckModel>,
    workflows: Seq<InfoModel>,
    slug: Seq<char>,
    startup: StartupModel,
    i: int,
    call: Option<MoveModel>,
)
    requires
        0 <= i < unsatisfied_of(checks).len(),
        forall|k: int|
            0 <= k < unsatisfied_of(checks).len() && (#[trigger] unsatisfied_of(checks)[k]).context
                == unsatisfied_of(checks)[i].context ==> classified(
                workflows,
                unsatisfied_of(checks)[k],
                slug,
                startup.policy,
                startup.startup_failed.contains(unsatisfied_of(checks)[k].context),
            ) == call,
    ensures
        planned_moves(checks, workflows, slug, startup)[i] == match call {
            Some(m) => m,
            None => default_move(unsatisfied_of(checks)[i].context),
        },
{
    let open = unsatisfied_of(checks);
    let context = open[i].context;
    assert(open[i].context == context);
    match call {
        Some(m) => {
            assert forall|k: int| 0 <= k < open.len() && (#[trigger] open[k]).context
                == context implies startup_classified(workflows, open[k], slug, startup) == Some(
                m,
            ) by {}
            lemma_agreed_hint(open, open.len() as int, workflows, slug, startup, context, m);
        },
        None => {
            assert forall|k: int| 0 <= k < open.len() && (#[trigger] open[k]).context
                == context implies startup_classified(workflows, open[k], slug, startup) is None by {}
            lemma_no_hint(open, open.len() as int, workflows, slug, startup, context);
        },
    }
}

proof fn lemma_no_hint(
    checks: Seq<CheckModel>,
    n: int,
    workflows: Seq<InfoModel>,
    slug: Seq<char>,
    startup: StartupModel,
    context: Seq<char>,
)
    requires
        n <= checks.len(),
        forall|k: int|
            0 <= k < checks.len() && (#[trigger] checks[k]).context == context
                ==> startup_classified(workflows, checks[k], slug, startup) is None,
    ensures
        !hints_for(checks, n, workflows, slug, startup).dom().contains(context),
    decreases n,
{
    if n > 0 {
        lemma_no_hint(checks, n - 1, workflows, slug, startup, context);
        assert(checks[n - 1].context == context ==> startup_classified(
            workflows,
            checks[n - 1],
            slug,
            startup,
        ) is None);
    }
}

/// What a fetch saw reaches the plan as it is: the contexts that failed at startup, and the
/// permissions where they were fetched, field by field. A failure to fetch them is said.
pub proof fn a_fetch_reaches_the_plan(bundle: BundleModel)
    ensures
        startup_in(bundle).startup_failed == bundle.startup_failed,
        bundle.policy_probe matches PolicyProbeModel::Fetched(p) ==> startup_in(bundle).policy
            == Some(
            PolicyModel {
                allowed_actions: p.allowed_actions,
                sha_pinning_required: p.sha_pinning_required,
                github_owned_allowed: p.github_owned_allowed,
                patterns_allowed: p.patterns_allowed,
            },
        ),
        bundle.policy_probe matches PolicyProbeModel::Failed(e) ==> policy_note(bundle.policy_probe)
            == Some(
            "squabble fight: could not read the Actions policy behind a startup failure: "@ + e
                + " — classifying without it"@,
        ),
{
}

} // verus!
