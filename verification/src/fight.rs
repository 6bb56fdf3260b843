//! A fight: the plan of it, and what becomes of the plan on the way to its report.
use vstd::prelude::*;

use crate::apply::{ApplyModel, ApplyOutcome};
use crate::context::{context_of, ContextModel, RepoContext};
use crate::fetch::FetchBundle;
use crate::gate::Gate;
use crate::greens::{
    attach_vacuity, classify_greens, green_moves, green_notes, lemma_green_moves_escalate,
    with_vacuity, Inspection,
};
use crate::moves::{Move, MoveModel};
use crate::outcome::{Outcome, OutcomeModel, Report, ReportModel};
use crate::plan::{
    nothing_observed, plan_at_root, plan_bundle_at_root, plan_report, policy_note, startup_in,
    RepoTree,
};
use crate::polarity::{any_usable, Applicability, RepoDeclaration, SignatureSet};
use crate::show::{outcome_lines, plans_can_be_shown, print_human, showable};
use crate::summon::{
    summon, summon_step, summoning_only_adds, SummonPoint, SummonPointModel, SummonStep,
};
use crate::summon_run::{a_run_of_summoning_only_adds, summoned};
use crate::text::{cat4, decimal, show};
use crate::workflows::facts_of;

verus! {
/// The report with what was applied, and a blocker that says that CI has to run again.
pub open spec fn with_applied(report: ReportModel, result: ApplyModel) -> ReportModel {
    let skipped = report.blockers + result.skipped;
    ReportModel {
        applied: result.applied,
        blockers: if result.applied.len() > 0 {
            skipped.push(
                "applied "@ + decimal(result.applied.len())
                    + " self-win move(s) to the working tree — re-run CI to confirm the "@
                    + "gate; nothing was committed or pushed (that is the operator's step)"@,
            )
        } else {
            skipped
        },
        ..report
    }
}

/// Records what was applied in the report of a red outcome.
pub fn record_applied(outcome: Outcome, result: ApplyOutcome) -> (r: Outcome)
    ensures
        r.deep_view() == match outcome.deep_view() {
            OutcomeModel::Red { report } => OutcomeModel::Red {
                report: with_applied(report, result.deep_view()),
            },
            other => other,
        },
{
    match outcome {
        Outcome::Red { report } => {
            let mut report: Report = report;
            let ghost start = report.deep_view();
            let ghost done = result.deep_view();
            let mut blockers: Vec<String> = report.blockers;
            let mut skipped: Vec<String> = result.skipped;
            let count: usize = result.applied.len();
            blockers.append(&mut skipped);
            assert(blockers.deep_view() =~= start.blockers + done.skipped);
            if count > 0 {
                let n: String = show(count as u64);
                blockers.push(
                    cat4(
                        "applied ",
                        &n,
                        " self-win move(s) to the working tree — re-run CI to confirm the ",
                        "gate; nothing was committed or pushed (that is the operator's step)",
                    ),
                );
                assert(blockers.deep_view() =~= with_applied(start, done).blockers);
            }
            report.blockers = blockers;
            report.applied = result.applied;
            Outcome::Red { report }
        },
        other => other,
    }
}

/// A fight that is under way: what the repository says of itself, and the outcome so far.
/// The outcome can always be shown.
pub struct Fight {
    slug: String,
    context: RepoContext,
    outcome: Outcome,
}

/// A [`Fight`] as a mathematical value.
pub struct FightModel {
    pub slug: Seq<char>,
    pub context: ContextModel,
    pub outcome: OutcomeModel,
}

impl DeepView for Fight {
    type V = FightModel;

    closed spec fn deep_view(&self) -> FightModel {
        FightModel {
            slug: self.slug@,
            context: self.context.deep_view(),
            outcome: self.outcome.deep_view(),
        }
    }
}

/// The moves of an outcome that are in the squabbler's own lane.
pub open spec fn self_wins_of(outcome: OutcomeModel) -> Seq<MoveModel> {
    match outcome {
        OutcomeModel::Red { report } => report.moves_attempted,
        _ => seq![],
    }
}

impl Fight {
    #[verifier::type_invariant]
    spec fn well_formed(self) -> bool {
        showable(self.outcome.deep_view())
    }

    /// Plans the fight over a checkout.
    pub fn begin(slug: &str, gate: &Gate, tree: &RepoTree) -> (r: Self)
        ensures
            r.deep_view().slug == slug@,
            r.deep_view().context == (ContextModel {
                found: tree.ecosystem@.len() > 0 || tree.clade@.len() > 0 || tree.anchor@.len() > 0
                    || tree.agentic@.len() > 0,
                ..context_of(tree.ecosystem@, tree.anchor@, tree.agentic@)
            }),
            r.deep_view().outcome == (OutcomeModel::Red {
                report: plan_report(
                    gate.deep_view(),
                    slug@,
                    tree.root@,
                    r.deep_view().context,
                    facts_of(tree.workflows.deep_view()),
                    tree.probe.deep_view(),
                    nothing_observed(),
                ),
            }),
    {
        let (context, outcome): (RepoContext, Outcome) = plan_at_root(gate, slug, tree);
        proof {
            plans_can_be_shown(
                gate.deep_view(),
                slug@,
                tree.root@,
                context.deep_view(),
                facts_of(tree.workflows.deep_view()),
                tree.probe.deep_view(),
                nothing_observed(),
            );
        }
        Fight { slug: slug.to_owned(), context, outcome }
    }

    /// Plans the fight over a checkout from all that was fetched for it. A policy for Actions
    /// that was asked for and could not be had comes back as a line.
    pub fn begin_fetched(slug: &str, bundle: &FetchBundle, tree: &RepoTree) -> (r: (
        Self,
        Option<String>,
    ))
        ensures
            r.0.deep_view().slug == slug@,
            r.0.deep_view().context == (ContextModel {
                found: tree.ecosystem@.len() > 0 || tree.clade@.len() > 0 || tree.anchor@.len() > 0
                    || tree.agentic@.len() > 0,
                ..context_of(tree.ecosystem@, tree.anchor@, tree.agentic@)
            }),
            r.0.deep_view().outcome == (OutcomeModel::Red {
                report: plan_report(
                    bundle.deep_view().gate,
                    slug@,
                    tree.root@,
                    r.0.deep_view().context,
                    facts_of(tree.workflows.deep_view()),
                    tree.probe.deep_view(),
                    startup_in(bundle.deep_view()),
                ),
            }),
            r.1.deep_view() == policy_note(bundle.deep_view().policy_probe),
    {
        let (context, outcome, note): (RepoContext, Outcome, Option<String>) =
            plan_bundle_at_root(bundle, slug, tree);
        proof {
            plans_can_be_shown(
                bundle.deep_view().gate,
                slug@,
                tree.root@,
                context.deep_view(),
                facts_of(tree.workflows.deep_view()),
                tree.probe.deep_view(),
                startup_in(bundle.deep_view()),
            );
        }
        (Fight { slug: slug.to_owned(), context, outcome }, note)
    }

    /// Judges the checks that are green and adds what is found to the outcome. What could
    /// not be judged, and what the outcome has no place for, comes back as lines.
    pub fn weigh_greens(
        self,
        greens: &Vec<Inspection>,
        signature: &SignatureSet,
        applicability: &Applicability,
        declared: &RepoDeclaration,
    ) -> (r: (Self, Vec<String>))
        ensures
            ({
                let n = greens@.len() as int;
                let set = signature.deep_view();
                let a = applicability.deep_view();
                let d = declared.deep_view();
                let usable = any_usable(set);
                let moves = if usable {
                    green_moves(greens.deep_view(), n, set, a, d)
                } else {
                    seq![]
                };
                let notes = if usable {
                    green_notes(greens.deep_view(), n, set, a, d)
                } else {
                    seq![]
                };
                let (outcome, lines) = with_vacuity(self.deep_view().outcome, moves);
                &&& r.0.deep_view() == FightModel { outcome, ..self.deep_view() }
                &&& r.1.deep_view() == notes + lines
            }),
    {
        proof {
            use_type_invariant(&self);
        }
        let ghost before = self.outcome.deep_view();
        let Fight { slug, context, outcome } = self;
        let (moves, notes): (Vec<Move>, Vec<String>) = classify_greens(
            greens,
            signature,
            applicability,
            declared,
        );
        proof {
            lemma_green_moves_escalate(
                greens.deep_view(),
                greens@.len() as int,
                signature.deep_view(),
                applicability.deep_view(),
                declared.deep_view(),
            );
            assert forall|i: int| 0 <= i < moves@.len() implies (
            #[trigger] moves@[i]).deep_view().describable() by {
                assert(moves.deep_view()[i] == moves@[i].deep_view());
            }
        }
        let (outcome, mut lines): (Outcome, Vec<String>) = attach_vacuity(outcome, &moves);
        let mut said: Vec<String> = notes;
        let ghost first = said.deep_view();
        let ghost second = lines.deep_view();
        said.append(&mut lines);
        assert(said.deep_view() =~= first + second);
        (Fight { slug, context, outcome }, said)
    }

    /// The moves that are in the squabbler's own lane.
    pub fn self_wins(&self) -> (r: Vec<Move>)
        ensures
            r.deep_view() == self_wins_of(self.deep_view().outcome),
    {
        match &self.outcome {
            Outcome::Red { report } => {
                let moves = report.moves_attempted.clone();
                assert(moves.deep_view() =~= report.moves_attempted.deep_view());
                moves
            },
            _ => {
                let none: Vec<Move> = Vec::new();
                assert(none.deep_view() =~= seq![]);
                none
            },
        }
    }

    /// Records what was applied to the working tree.
    pub fn record(self, result: ApplyOutcome) -> (r: Self)
        ensures
            r.deep_view() == (FightModel {
                outcome: match self.deep_view().outcome {
                    OutcomeModel::Red { report } => OutcomeModel::Red {
                        report: with_applied(report, result.deep_view()),
                    },
                    other => other,
                },
                ..self.deep_view()
            }),
    {
        proof {
            use_type_invariant(&self);
        }
        let Fight { slug, context, outcome } = self;
        Fight { slug, context, outcome: record_applied(outcome, result) }
    }

    /// One step of summoning experts for the escalations.
    pub fn summon_experts(self, point: SummonPoint) -> (r: (Self, SummonStep))
        ensures
            r.0.deep_view() == (FightModel {
                outcome: summon_step(self.deep_view().outcome, point.deep_view()).0,
                ..self.deep_view()
            }),
            r.1.deep_view() == summon_step(self.deep_view().outcome, point.deep_view()).1,
    {
        proof {
            use_type_invariant(&self);
            summoning_only_adds(self.outcome.deep_view(), point.deep_view());
        }
        let Fight { slug, context, outcome } = self;
        let (outcome, step): (Outcome, SummonStep) = summon(outcome, point);
        (Fight { slug, context, outcome }, step)
    }

    /// The lines that show the fight.
    pub fn lines(&self) -> (r: Vec<String>)
        ensures
            r.deep_view() == outcome_lines(
                self.deep_view().slug,
                self.deep_view().context,
                self.deep_view().outcome,
            ),
    {
        proof {
            use_type_invariant(self);
        }
        print_human(&self.slug, &self.context, &self.outcome)
    }

    /// The outcome of the fight.
    pub fn into_outcome(self) -> (r: Outcome)
        ensures
            r.deep_view() == self.deep_view().outcome,
    {
        self.outcome
    }
}

/// A fight that began with a plan ends red, however its green checks were judged, whatever
/// was applied and however the experts answered: only CI turns a gate green.
pub proof fn a_fight_never_claims_a_win(
    report: ReportModel,
    vacuity: Seq<MoveModel>,
    result: ApplyModel,
    points: Seq<SummonPointModel>,
)
    ensures
        ({
            let weighed = with_vacuity(OutcomeModel::Red { report }, vacuity).0;
            &&& weighed matches OutcomeModel::Red { report: weighed_report }
            &&& summoned(weighed, points) is Red
            &&& summoned(
                OutcomeModel::Red { report: with_applied(weighed_report, result) },
                points,
            ) is Red
        }),
{
    let weighed = with_vacuity(OutcomeModel::Red { report }, vacuity).0;
    a_run_of_summoning_only_adds(weighed, points);
    a_run_of_summoning_only_adds(
        OutcomeModel::Red { report: with_applied(weighed->Red_report, result) },
        points,
    );
}

/// To record what was applied changes nothing else of a report, and drops no blocker.
pub proof fn recording_only_adds(report: ReportModel, result: ApplyModel)
    ensures
        with_applied(report, result) == (ReportModel {
            applied: result.applied,
            blockers: with_applied(report, result).blockers,
            ..report
        }),
        (report.blockers + result.skipped).is_prefix_of(with_applied(report, result).blockers),
{
    let skipped = report.blockers + result.skipped;
    let after = with_applied(report, result).blockers;
    assert(after.subrange(0, skipped.len() as int) =~= skipped);
}

/// Once edits were made, the blockers are those that were there, those of what was skipped,
/// and one that counts the edits and says that CI has to run again; without an edit that last
/// one is missing.
pub proof fn an_edit_calls_for_another_run(report: ReportModel, result: ApplyModel)
    ensures
        with_applied(report, result).applied == result.applied,
        result.applied.len() == 0 ==> with_applied(report, result).blockers == report.blockers
            + result.skipped,
        result.applied.len() > 0 ==> with_applied(report, result).blockers == report.blockers
            + result.skipped + seq![
            "applied "@ + decimal(result.applied.len())
                + " self-win move(s) to the working tree — re-run CI to confirm the "@
                + "gate; nothing was committed or pushed (that is the operator's step)"@,
        ],
{
}

/// The moves that may be applied are those in the own lane of a red outcome; no other outcome
/// has any.
pub proof fn only_the_own_lane_is_applied(outcome: OutcomeModel)
    ensures
        outcome matches OutcomeModel::Red { report } ==> self_wins_of(outcome)
            == report.moves_attempted,
        !(outcome is Red) ==> self_wins_of(outcome).len() == 0,
{
}

} // verus!
