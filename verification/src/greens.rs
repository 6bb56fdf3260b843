//! Checks that are green: each is judged by its steps, or noted where there is nothing to
//! judge it by.
use vstd::prelude::*;

use crate::fetch::{GreenCheck, GreenModel};
use crate::moves::{Move, MoveModel};
use crate::outcome::{Escalation, Outcome, OutcomeModel, Report, ReportModel};
use crate::plan::escalations_among;
use crate::polarity::{
    any_usable, classify, first_matched, verdict_of, Applicability, ApplicabilityModel,
    DeclarationModel, Evidence, PolarityVerdict, RepoDeclaration, ScannerModel, SignatureSet,
    StepModel, StepOutcome, StepSignature,
};
use crate::text::{cat2, cat3, cat4, decimal, result_view, show};

verus! {
/// A check that is green, with what came of fetching its steps.
#[derive(Debug, PartialEq, Eq)]
pub struct Inspection {
    pub check: GreenCheck,
    pub steps: Result<Vec<StepOutcome>, String>,
}

/// An [`Inspection`] as a mathematical value.
pub struct InspectionModel {
    pub check: GreenModel,
    pub steps: Result<Seq<StepModel>, Seq<char>>,
}

impl DeepView for Inspection {
    type V = InspectionModel;

    open spec fn deep_view(&self) -> InspectionModel {
        InspectionModel { check: self.check.deep_view(), steps: result_view(self.steps) }
    }
}

/// The evidence of one inspected run: whether it was stubbed is measured, what the steps
/// do not show is not.
pub open spec fn one_run(stubbed: bool) -> Evidence {
    Evidence {
        run_count: 1,
        stub_rate: if stubbed {
            100
        } else {
            0
        },
        upstream_exists: None,
        target_tech_present: None,
    }
}

/// What the steps of a green check give rise to: a move where they show that it is
/// vacuous, a note where there is nothing to judge it by.
pub open spec fn judged(
    g: InspectionModel,
    set: Seq<ScannerModel>,
    a: ApplicabilityModel,
    d: DeclarationModel,
) -> (Option<MoveModel>, Option<Seq<char>>) {
    match g.steps {
        Err(e) => (
            None,
            Some(
                "squabble fight: could not inspect green check `"@ + g.check.name + "`: "@ + e,
            ),
        ),
        Ok(steps) => if steps.len() == 0 {
            (
                None,
                Some(
                    "squabble fight: green check `"@ + g.check.name
                        + "` recorded no steps — not inspectable, not judged"@,
                ),
            )
        } else {
            let stubbed = first_matched(set, steps) is Some;
            (verdict_of(steps, stubbed, a, d, one_run(stubbed)).move_on(g.check.name), None)
        },
    }
}

/// The moves that the first `n` green checks give rise to.
pub open spec fn green_moves(
    checks: Seq<InspectionModel>,
    n: int,
    set: Seq<ScannerModel>,
    a: ApplicabilityModel,
    d: DeclarationModel,
) -> Seq<MoveModel>
    decreases n,
{
    if n <= 0 {
        seq![]
    } else {
        match judged(checks[n - 1], set, a, d).0 {
            Some(m) => green_moves(checks, n - 1, set, a, d).push(m),
            None => green_moves(checks, n - 1, set, a, d),
        }
    }
}

/// The notes that the first `n` green checks give rise to.
pub open spec fn green_notes(
    checks: Seq<InspectionModel>,
    n: int,
    set: Seq<ScannerModel>,
    a: ApplicabilityModel,
    d: DeclarationModel,
) -> Seq<Seq<char>>
    decreases n,
{
    if n <= 0 {
        seq![]
    } else {
        match judged(checks[n - 1], set, a, d).1 {
            Some(note) => green_notes(checks, n - 1, set, a, d).push(note),
            None => green_notes(checks, n - 1, set, a, d),
        }
    }
}

fn judge(
    g: &Inspection,
    signature: &SignatureSet,
    applicability: &Applicability,
    declared: &RepoDeclaration,
) -> (r: (Option<Move>, Option<String>))
    ensures
        (r.0.deep_view(), r.1.deep_view()) == judged(
            g.deep_view(),
            signature.deep_view(),
            applicability.deep_view(),
            declared.deep_view(),
        ),
{
    let steps: &Vec<StepOutcome> = match &g.steps {
        Ok(steps) => steps,
        Err(e) => {
            return (
                None,
                Some(
                    cat4(
                        "squabble fight: could not inspect green check `",
                        &g.check.name,
                        "`: ",
                        e,
                    ),
                ),
            );
        },
    };
    if steps.len() == 0 {
        return (
            None,
            Some(
                cat3(
                    "squabble fight: green check `",
                    &g.check.name,
                    "` recorded no steps — not inspectable, not judged",
                ),
            ),
        );
    }
    let stubbed: bool = signature.matches(steps.as_slice());
    let evidence = Evidence {
        run_count: 1,
        stub_rate: if stubbed {
            100
        } else {
            0
        },
        upstream_exists: None,
        target_tech_present: None,
    };
    let verdict: PolarityVerdict = classify(
        steps.as_slice(),
        signature,
        applicability,
        declared,
        evidence,
    );
    (verdict.to_move(&g.check.name), None)
}

/// Judges the checks that are green: the moves that they give rise to, and a note for
/// each that could not be judged. Without a usable fingerprint nothing is judged, so the
/// host need not fetch any steps.
pub fn classify_greens(
    greens: &Vec<Inspection>,
    signature: &SignatureSet,
    applicability: &Applicability,
    declared: &RepoDeclaration,
) -> (r: (Vec<Move>, Vec<String>))
    ensures
        r.0.deep_view() == (if any_usable(signature.deep_view()) {
            green_moves(
                greens.deep_view(),
                greens@.len() as int,
                signature.deep_view(),
                applicability.deep_view(),
                declared.deep_view(),
            )
        } else {
            seq![]
        }),
        r.1.deep_view() == (if any_usable(signature.deep_view()) {
            green_notes(
                greens.deep_view(),
                greens@.len() as int,
                signature.deep_view(),
                applicability.deep_view(),
                declared.deep_view(),
            )
        } else {
            seq![]
        }),
{
    let ghost m = greens.deep_view();
    let ghost set = signature.deep_view();
    let ghost a = applicability.deep_view();
    let ghost d = declared.deep_view();
    let mut moves: Vec<Move> = Vec::new();
    let mut notes: Vec<String> = Vec::new();
    assert(moves.deep_view() =~= seq![]);
    assert(notes.deep_view() =~= seq![]);
    if !signature.is_usable() {
        return (moves, notes);
    }
    let mut i: usize = 0;
    while i < greens.len()
        invariant
            i <= greens@.len(),
            m == greens.deep_view(),
            set == signature.deep_view(),
            a == applicability.deep_view(),
            d == declared.deep_view(),
            moves.deep_view() == green_moves(m, i as int, set, a, d),
            notes.deep_view() == green_notes(m, i as int, set, a, d),
        decreases greens@.len() - i,
    {
        let ghost before_moves = moves.deep_view();
        let ghost before_notes = notes.deep_view();
        assert(m[i as int] == greens@[i as int].deep_view());
        let (found, note): (Option<Move>, Option<String>) = judge(
            &greens[i],
            signature,
            applicability,
            declared,
        );
        if let Some(found) = found {
            moves.push(found);
            assert(moves.deep_view() =~= before_moves.push(found.deep_view()));
        }
        if let Some(note) = note {
            notes.push(note);
            assert(notes.deep_view() =~= before_notes.push(note@));
        }
        i += 1;
    }
    (moves, notes)
}

/// What is said of vacuous checks where the outcome has no report to hold them.
pub open spec fn vacuity_lines(moves: Seq<MoveModel>) -> Seq<Seq<char>> {
    seq![
        "squabble fight: "@ + decimal(moves.len())
            + " green check(s) are vacuous — not represented in --json (that needs an Outcome change; see issue #58):"@,
    ] + moves.map_values(|m: MoveModel| "  - "@ + m.described())
}

/// The outcome with the escalations of vacuous checks, and the lines to show where it has
/// no report. The outcome keeps its colour.
pub open spec fn with_vacuity(outcome: OutcomeModel, moves: Seq<MoveModel>) -> (
    OutcomeModel,
    Seq<Seq<char>>,
) {
    if moves.len() == 0 {
        (outcome, seq![])
    } else {
        match outcome {
            OutcomeModel::Red { report } => (
                OutcomeModel::Red {
                    report: ReportModel {
                        escalations: report.escalations + escalations_among(
                            moves,
                            moves.len() as int,
                        ),
                        ..report
                    },
                },
                seq![],
            ),
            other => (other, vacuity_lines(moves)),
        }
    }
}

/// Folds the findings about green checks into the outcome.
pub fn attach_vacuity(outcome: Outcome, moves: &Vec<Move>) -> (r: (Outcome, Vec<String>))
    requires
        !(outcome is Red) ==> forall|i: int|
            0 <= i < moves@.len() ==> (#[trigger] moves@[i]).deep_view().describable(),
    ensures
        (r.0.deep_view(), r.1.deep_view()) == with_vacuity(outcome.deep_view(), moves.deep_view()),
{
    let ghost m = moves.deep_view();
    let mut lines: Vec<String> = Vec::new();
    assert(lines.deep_view() =~= seq![]);
    if moves.len() == 0 {
        return (outcome, lines);
    }
    match outcome {
        Outcome::Red { report } => {
            let mut report: Report = report;
            let ghost start = report.deep_view();
            let mut escalations: Vec<Escalation> = report.escalations;
            let mut i: usize = 0;
            assert(start.escalations + seq![] =~= start.escalations);
            while i < moves.len()
                invariant
                    i <= moves@.len(),
                    m == moves.deep_view(),
                    escalations.deep_view() == start.escalations + escalations_among(
                        m,
                        i as int,
                    ),
                decreases moves@.len() - i,
            {
                let ghost sofar = escalations.deep_view();
                assert(m[i as int] == moves@[i as int].deep_view());
                if let Some(e) = Escalation::from_move(&moves[i]) {
                    escalations.push(e);
                    assert(escalations.deep_view() =~= sofar.push(e.deep_view()));
                    assert(sofar.push(e.deep_view()) =~= start.escalations + escalations_among(
                        m,
                        i as int,
                    ).push(e.deep_view()));
                }
                i += 1;
            }
            report.escalations = escalations;
            (Outcome::Red { report }, lines)
        },
        other => {
            let count: String = show(moves.len() as u64);
            lines.push(
                cat3(
                    "squabble fight: ",
                    &count,
                    " green check(s) are vacuous — not represented in --json (that needs an Outcome change; see issue #58):",
                ),
            );
            let ghost want = vacuity_lines(m);
            let mut i: usize = 0;
            assert(lines.deep_view() =~= want.take(1));
            while i < moves.len()
                invariant
                    i <= moves@.len(),
                    m == moves.deep_view(),
                    want == vacuity_lines(m),
                    lines.deep_view() == want.take(i + 1),
                    forall|k: int|
                        0 <= k < moves@.len() ==> (
                        #[trigger] moves@[k]).deep_view().describable(),
                decreases moves@.len() - i,
            {
                let ghost sofar = lines.deep_view();
                assert(m[i as int] == moves@[i as int].deep_view());
                let what: String = moves[i].describe();
                lines.push(cat2("  - ", &what));
                assert(lines.deep_view() =~= sofar.push(want[i + 1]));
                i += 1;
                assert(lines.deep_view() =~= want.take(i + 1));
            }
            assert(want.take(want.len() as int) =~= want);
            (other, lines)
        },
    }
}

/// Each move that green checks give rise to is an escalation.
pub proof fn lemma_green_moves_escalate(
    checks: Seq<InspectionModel>,
    n: int,
    set: Seq<ScannerModel>,
    a: ApplicabilityModel,
    d: DeclarationModel,
)
    ensures
        forall|i: int|
            0 <= i < green_moves(checks, n, set, a, d).len() ==> (#[trigger] green_moves(
                checks,
                n,
                set,
                a,
                d,
            )[i]) is EscalateToExpert,
    decreases n,
{
    if n > 0 {
        lemma_green_moves_escalate(checks, n - 1, set, a, d);
        let fewer = green_moves(checks, n - 1, set, a, d);
        let moves = green_moves(checks, n, set, a, d);
        assert forall|i: int| 0 <= i < moves.len() implies (
        #[trigger] moves[i]) is EscalateToExpert by {
            if i < fewer.len() {
                assert(moves[i] == fewer[i]);
            }
        }
    }
}

/// The findings about green checks leave the colour of an outcome, and all of its report
/// but the escalations, as they are; and the escalations that were there stay first.
pub proof fn vacuity_never_recolours(outcome: OutcomeModel, moves: Seq<MoveModel>)
    ensures
        outcome matches OutcomeModel::Red { report } ==> (with_vacuity(
            outcome,
            moves,
        ).0 matches OutcomeModel::Red { report: after } && after == (ReportModel {
            escalations: after.escalations,
            ..report
        }) && report.escalations.is_prefix_of(after.escalations)),
        !(outcome is Red) ==> with_vacuity(outcome, moves).0 == outcome,
{
    if let OutcomeModel::Red { report } = outcome {
        let more = escalations_among(moves, moves.len() as int);
        assert((report.escalations + more).subrange(0, report.escalations.len() as int)
            =~= report.escalations);
        assert(report.escalations.subrange(0, report.escalations.len() as int)
            =~= report.escalations);
    }
}

/// No finding about a green check is lost: each is an escalation of a red outcome's
/// report, or a line of its own.
pub proof fn no_vacuity_is_lost(outcome: OutcomeModel, moves: Seq<MoveModel>)
    requires
        forall|i: int| 0 <= i < moves.len() ==> (#[trigger] moves[i]) is EscalateToExpert,
    ensures
        outcome matches OutcomeModel::Red { report } ==> (with_vacuity(
            outcome,
            moves,
        ).0 matches OutcomeModel::Red { report: after } && after.escalations.len()
            == report.escalations.len() + moves.len()),
        !(outcome is Red) && moves.len() > 0 ==> with_vacuity(outcome, moves).1.len()
            == moves.len() + 1,
{
    lemma_all_escalate(moves, moves.len() as int);
}

proof fn lemma_all_escalate(moves: Seq<MoveModel>, n: int)
    requires
        0 <= n <= moves.len(),
        forall|i: int| 0 <= i < moves.len() ==> (#[trigger] moves[i]) is EscalateToExpert,
    ensures
        escalations_among(moves, n).len() == n,
    decreases n,
{
    if n > 0 {
        lemma_all_escalate(moves, n - 1);
        assert(moves[n - 1] is EscalateToExpert);
    }
}

/// Each green check is judged or noted: one whose steps could not be had, or that has
/// none, leaves a note and no move.
pub proof fn no_green_is_passed_over(
    g: InspectionModel,
    set: Seq<ScannerModel>,
    a: ApplicabilityModel,
    d: DeclarationModel,
)
    ensures
        judged(g, set, a, d).1 is Some <==> g.steps is Err || g.steps->Ok_0.len() == 0,
        judged(g, set, a, d).1 is Some ==> judged(g, set, a, d).0 is None,
        judged(g, set, a, d).0 matches Some(m) ==> m is EscalateToExpert,
{
}

/// A green check with steps is judged by them and by the evidence of this one run: whether it
/// bears a fingerprint is measured in full or not at all, and what the steps cannot show is
/// not measured.
pub proof fn a_green_is_judged_by_its_steps(
    g: InspectionModel,
    set: Seq<ScannerModel>,
    a: ApplicabilityModel,
    d: DeclarationModel,
)
    ensures
        match g.steps {
            Err(e) => judged(g, set, a, d) == (
                None::<MoveModel>,
                Some(
                    "squabble fight: could not inspect green check `"@ + g.check.name + "`: "@ + e,
                ),
            ),
            Ok(steps) => if steps.len() == 0 {
                judged(g, set, a, d) == (
                    None::<MoveModel>,
                    Some(
                        "squabble fight: green check `"@ + g.check.name
                            + "` recorded no steps — not inspectable, not judged"@,
                    ),
                )
            } else {
                let stubbed = first_matched(set, steps) is Some;
                let evidence = Evidence {
                    run_count: 1,
                    stub_rate: if stubbed {
                        100
                    } else {
                        0
                    },
                    upstream_exists: None,
                    target_tech_present: None,
                };
                judged(g, set, a, d) == (
                    verdict_of(steps, stubbed, a, d, evidence).move_on(g.check.name),
                    None::<Seq<char>>,
                )
            },
        },
{
}

/// Each green check adds its own move or its own note, behind those of the checks before it.
pub proof fn each_green_adds_its_finding(
    checks: Seq<InspectionModel>,
    g: InspectionModel,
    set: Seq<ScannerModel>,
    a: ApplicabilityModel,
    d: DeclarationModel,
)
    ensures
        green_moves(seq![], 0, set, a, d).len() == 0,
        green_notes(seq![], 0, set, a, d).len() == 0,
        ({
            let n = checks.len() as int;
            let moves = green_moves(checks, n, set, a, d);
            let notes = green_notes(checks, n, set, a, d);
            let more_moves = green_moves(checks.push(g), n + 1, set, a, d);
            let more_notes = green_notes(checks.push(g), n + 1, set, a, d);
            &&& judged(g, set, a, d).0 is None ==> more_moves == moves
            &&& judged(g, set, a, d).0 matches Some(m) ==> more_moves == moves.push(m)
            &&& judged(g, set, a, d).1 is None ==> more_notes == notes
            &&& judged(g, set, a, d).1 matches Some(note) ==> more_notes == notes.push(note)
        }),
{
    lemma_greens_front(checks, checks.push(g), checks.len() as int, set, a, d);
}

proof fn lemma_greens_front(
    x: Seq<InspectionModel>,
    y: Seq<InspectionModel>,
    n: int,
    set: Seq<ScannerModel>,
    a: ApplicabilityModel,
    d: DeclarationModel,
)
    requires
        0 <= n <= x.len() <= y.len(),
        forall|i: int| 0 <= i < x.len() ==> #[trigger] y[i] == x[i],
    ensures
        green_moves(y, n, set, a, d) == green_moves(x, n, set, a, d),
        green_notes(y, n, set, a, d) == green_notes(x, n, set, a, d),
    decreases n,
{
    if n > 0 {
        lemma_greens_front(x, y, n - 1, set, a, d);
        assert(y[n - 1] == x[n - 1]);
    }
}

/// In a red outcome each vacuous check is an escalation, in order, behind those that were
/// there; in any other a line counts them and each has a line of its own.
pub proof fn each_vacuous_check_is_shown(outcome: OutcomeModel, moves: Seq<MoveModel>, i: int)
    requires
        0 <= i < moves.len(),
    ensures
        outcome matches OutcomeModel::Red { report } ==> with_vacuity(outcome, moves) == (
            OutcomeModel::Red {
                report: ReportModel {
                    escalations: report.escalations + escalations_among(moves, moves.len() as int),
                    ..report
                },
            },
            Seq::<Seq<char>>::empty(),
        ),
        !(outcome is Red) ==> {
            let lines = with_vacuity(outcome, moves).1;
            &&& lines[0] == "squabble fight: "@ + decimal(moves.len())
                + " green check(s) are vacuous — not represented in --json (that needs an Outcome change; see issue #58):"@
            &&& lines[i + 1] == "  - "@ + moves[i].described()
        },
{
}

} // verus!
