//! What is shown of a diagnosis and of the outcome of a fight.
use vstd::prelude::*;

use crate::args::{gate_from_file, GateFile};
use crate::context::{ContextModel, RepoContext};
use crate::diagnosis::{diagnose, diagnosis_of, Diagnosis, DiagnosisModel};
use crate::gate::{CheckModel, Gate, GateState};
use crate::moves::{group_label, obligation_label, Move, MoveModel};
use crate::outcome::{
    AppliedChange, ChangeModel, Escalation, EscalationModel, Outcome, OutcomeModel,
    OwnerAssignment, OwnerModel, ReportModel,
};
use crate::plan::{
    name_of_state, plan_report, planned_moves, planned_moves_are_describable, self_wins_among,
    state_name, ProbeModel, StartupModel,
};
use crate::text::{cat2, cat3, cat4, cat5, decimal, show};
use crate::workflows::InfoModel;

verus! {
/// A title with items under it, or nothing where there are no items.
pub open spec fn titled(title: Seq<char>, items: Seq<Seq<char>>) -> Seq<Seq<char>> {
    if items.len() == 0 {
        seq![]
    } else {
        seq![title] + items
    }
}

/// The line for a move.
pub open spec fn move_line(m: MoveModel) -> Seq<char> {
    "    - "@ + m.described()
}

/// The line for an edit.
pub open spec fn change_line(a: ChangeModel) -> Seq<char> {
    "    - "@ + a.file + ": "@ + a.detail
}

/// The line for an escalation.
pub open spec fn escalation_line(e: EscalationModel) -> Seq<char> {
    "    - `"@ + e.check + "` → "@ + group_label(e.group) + " ["@ + obligation_label(e.obligation)
        + "]: "@ + e.evidence
}

/// The line for an owner assignment.
pub open spec fn owner_line(o: OwnerModel) -> Seq<char> {
    "    - `"@ + o.check + "` → `"@ + o.owner + "` ["@ + o.disposition.label() + "]: "@
        + o.rationale
}

/// The lines about what the repository says of itself.
pub open spec fn context_lines(context: ContextModel) -> Seq<Seq<char>> {
    if context.found {
        (match context.coordination_owner {
            Some(owner) => seq!["  context: coordinates with `"@ + owner + "`"@],
            None => seq![],
        }) + (if context.is_not.len() > 0 {
            seq![
                "  identity: "@ + decimal(context.is_not.len())
                    + " IS-NOT boundaries read from a2ml"@,
            ]
        } else {
            seq![]
        })
    } else {
        seq![
            "  context: no .machine_readable/ descriptiles found — using workflow ground-truth only"@,
        ]
    }
}

/// The lines that show the outcome of a fight.
pub open spec fn outcome_lines(
    slug: Seq<char>,
    context: ContextModel,
    outcome: OutcomeModel,
) -> Seq<Seq<char>> {
    match outcome {
        OutcomeModel::Red { report } => seq!["squabble fight "@ + slug, "  "@ + report.summary]
            + context_lines(context) + titled(
            "\n  self-win moves (squabbler's lane):"@,
            report.moves_attempted.map_values(|m: MoveModel| move_line(m)),
        ) + titled(
            "\n  applied to the working tree (no commit/push — operator's step):"@,
            report.applied.map_values(|a: ChangeModel| change_line(a)),
        ) + titled(
            "\n  escalations (call in the big guns):"@,
            report.escalations.map_values(|e: EscalationModel| escalation_line(e)),
        ) + titled(
            "\n  owner assignments (into the debate):"@,
            report.owner_assignments.map_values(|o: OwnerModel| owner_line(o)),
        ),
        _ => seq!["gate won."@],
    }
}

/// Can each of the moves be put in words?
pub open spec fn all_describable(moves: Seq<MoveModel>) -> bool {
    forall|i: int| 0 <= i < moves.len() ==> (#[trigger] moves[i]).describable()
}

/// Can every move of the outcome's report be put in words?
pub open spec fn showable(outcome: OutcomeModel) -> bool {
    outcome matches OutcomeModel::Red { report } ==> all_describable(report.moves_attempted)
}

/// Can every move of the outcome's report be put in words?
pub fn is_showable(outcome: &Outcome) -> (r: bool)
    ensures
        r == showable(outcome.deep_view()),
{
    match outcome {
        Outcome::Red { report } => {
            let ghost m = report.moves_attempted.deep_view();
            let mut i: usize = 0;
            while i < report.moves_attempted.len()
                invariant
                    i <= report.moves_attempted@.len(),
                    m == report.moves_attempted.deep_view(),
                    showable(outcome.deep_view()) == all_describable(m),
                    forall|k: int| 0 <= k < i ==> (#[trigger] m[k]).describable(),
                decreases report.moves_attempted@.len() - i,
            {
                assert(m[i as int] == report.moves_attempted@[i as int].deep_view());
                if !report.moves_attempted[i].is_describable() {
                    return false;
                }
                i += 1;
            }
            true
        },
        _ => true,
    }
}

/// Appends `title` and `items`, where there are items.
fn push_titled(lines: &mut Vec<String>, title: &str, items: Vec<String>)
    ensures
        final(lines).deep_view() == old(lines).deep_view() + titled(title@, items.deep_view()),
{
    let ghost start = lines.deep_view();
    let ghost m = items.deep_view();
    if items.len() == 0 {
        assert(start + titled(title@, m) =~= start);
        return;
    }
    let mut items: Vec<String> = items;
    lines.push(title.to_owned());
    assert(lines.deep_view() =~= start.push(title@));
    lines.append(&mut items);
    assert(lines.deep_view() =~= start + titled(title@, m));
}

fn show_moves(moves: &Vec<Move>) -> (r: Vec<String>)
    requires
        forall|i: int| 0 <= i < moves@.len() ==> (#[trigger] moves@[i]).deep_view().describable(),
    ensures
        r.deep_view() == moves.deep_view().map_values(|m: MoveModel| move_line(m)),
{
    let ghost want = moves.deep_view().map_values(|m: MoveModel| move_line(m));
    let mut r: Vec<String> = Vec::new();
    let mut i: usize = 0;
    assert(r.deep_view() =~= want.take(0));
    while i < moves.len()
        invariant
            i <= moves@.len(),
            want == moves.deep_view().map_values(|m: MoveModel| move_line(m)),
            r.deep_view() == want.take(i as int),
            forall|k: int|
                0 <= k < moves@.len() ==> (#[trigger] moves@[k]).deep_view().describable(),
        decreases moves@.len() - i,
    {
        let ghost sofar = r.deep_view();
        assert(moves.deep_view()[i as int] == moves@[i as int].deep_view());
        let what: String = moves[i].describe();
        r.push(cat2("    - ", &what));
        assert(r.deep_view() =~= sofar.push(want[i as int]));
        i += 1;
        assert(r.deep_view() =~= want.take(i as int));
    }
    assert(want.take(want.len() as int) =~= want);
    r
}

fn show_changes(changes: &Vec<AppliedChange>) -> (r: Vec<String>)
    ensures
        r.deep_view() == changes.deep_view().map_values(|a: ChangeModel| change_line(a)),
{
    let ghost want = changes.deep_view().map_values(|a: ChangeModel| change_line(a));
    let mut r: Vec<String> = Vec::new();
    let mut i: usize = 0;
    assert(r.deep_view() =~= want.take(0));
    while i < changes.len()
        invariant
            i <= changes@.len(),
            want == changes.deep_view().map_values(|a: ChangeModel| change_line(a)),
            r.deep_view() == want.take(i as int),
        decreases changes@.len() - i,
    {
        let ghost sofar = r.deep_view();
        let a: &AppliedChange = &changes[i];
        assert(changes.deep_view()[i as int] == a.deep_view());
        r.push(cat4("    - ", &a.file, ": ", &a.detail));
        assert(r.deep_view() =~= sofar.push(want[i as int]));
        i += 1;
        assert(r.deep_view() =~= want.take(i as int));
    }
    assert(want.take(want.len() as int) =~= want);
    r
}

fn show_escalations(escalations: &Vec<Escalation>) -> (r: Vec<String>)
    ensures
        r.deep_view() == escalations.deep_view().map_values(
            |e: EscalationModel| escalation_line(e),
        ),
{
    let ghost want = escalations.deep_view().map_values(|e: EscalationModel| escalation_line(e));
    let mut r: Vec<String> = Vec::new();
    let mut i: usize = 0;
    assert(r.deep_view() =~= want.take(0));
    while i < escalations.len()
        invariant
            i <= escalations@.len(),
            want == escalations.deep_view().map_values(|e: EscalationModel| escalation_line(e)),
            r.deep_view() == want.take(i as int),
        decreases escalations@.len() - i,
    {
        let ghost sofar = r.deep_view();
        let e: &Escalation = &escalations[i];
        assert(escalations.deep_view()[i as int] == e.deep_view());
        let head: String = cat5("    - `", &e.check, "` → ", e.group.label(), " [");
        r.push(cat4(&head, e.obligation.label(), "]: ", &e.evidence));
        assert(r.deep_view() =~= sofar.push(want[i as int]));
        i += 1;
        assert(r.deep_view() =~= want.take(i as int));
    }
    assert(want.take(want.len() as int) =~= want);
    r
}

fn show_owners(owners: &Vec<OwnerAssignment>) -> (r: Vec<String>)
    ensures
        r.deep_view() == owners.deep_view().map_values(|o: OwnerModel| owner_line(o)),
{
    let ghost want = owners.deep_view().map_values(|o: OwnerModel| owner_line(o));
    let mut r: Vec<String> = Vec::new();
    let mut i: usize = 0;
    assert(r.deep_view() =~= want.take(0));
    while i < owners.len()
        invariant
            i <= owners@.len(),
            want == owners.deep_view().map_values(|o: OwnerModel| owner_line(o)),
            r.deep_view() == want.take(i as int),
        decreases owners@.len() - i,
    {
        let ghost sofar = r.deep_view();
        let o: &OwnerAssignment = &owners[i];
        assert(owners.deep_view()[i as int] == o.deep_view());
        let head: String = cat5("    - `", &o.check, "` → `", &o.owner, "` [");
        r.push(cat4(&head, o.disposition.label(), "]: ", &o.rationale));
        assert(r.deep_view() =~= sofar.push(want[i as int]));
        i += 1;
        assert(r.deep_view() =~= want.take(i as int));
    }
    assert(want.take(want.len() as int) =~= want);
    r
}

/// Appends the lines about what the repository says of itself.
fn push_context(lines: &mut Vec<String>, context: &RepoContext)
    ensures
        final(lines).deep_view() == old(lines).deep_view() + context_lines(context.deep_view()),
{
    let ghost start = lines.deep_view();
    if !context.found {
        lines.push(
            "  context: no .machine_readable/ descriptiles found — using workflow ground-truth only".to_owned(),
        );
        assert(lines.deep_view() =~= start + context_lines(context.deep_view()));
        return;
    }
    if let Some(owner) = &context.coordination_owner {
        lines.push(cat3("  context: coordinates with `", owner, "`"));
    }
    if context.is_not.len() > 0 {
        let count: String = show(context.is_not.len() as u64);
        lines.push(cat3("  identity: ", &count, " IS-NOT boundaries read from a2ml"));
    }
    assert(lines.deep_view() =~= start + context_lines(context.deep_view()));
}

/// The lines that show the outcome of a fight.
pub fn print_human(slug: &str, context: &RepoContext, outcome: &Outcome) -> (r: Vec<String>)
    requires
        showable(outcome.deep_view()),
    ensures
        r.deep_view() == outcome_lines(slug@, context.deep_view(), outcome.deep_view()),
{
    let mut lines: Vec<String> = Vec::new();
    match outcome {
        Outcome::Red { report } => {
            proof {
                assert(showable(OutcomeModel::Red { report: report.deep_view() }));
                assert forall|i: int| 0 <= i < report.moves_attempted@.len() implies (
                #[trigger] report.moves_attempted@[i]).deep_view().describable() by {
                    assert(report.deep_view().moves_attempted[i].describable());
                }
            }
            lines.push(cat2("squabble fight ", slug));
            lines.push(cat2("  ", &report.summary));
            assert(lines.deep_view() =~= seq!["squabble fight "@ + slug@, "  "@ + report.summary@]);
            push_context(&mut lines, context);
            push_titled(
                &mut lines,
                "\n  self-win moves (squabbler's lane):",
                show_moves(&report.moves_attempted),
            );
            push_titled(
                &mut lines,
                "\n  applied to the working tree (no commit/push — operator's step):",
                show_changes(&report.applied),
            );
            push_titled(
                &mut lines,
                "\n  escalations (call in the big guns):",
                show_escalations(&report.escalations),
            );
            push_titled(
                &mut lines,
                "\n  owner assignments (into the debate):",
                show_owners(&report.owner_assignments),
            );
            lines
        },
        _ => {
            lines.push("gate won.".to_owned());
            assert(lines.deep_view() =~= seq!["gate won."@]);
            lines
        },
    }
}

/// The lines that show a diagnosis.
pub open spec fn diagnosis_lines(d: DiagnosisModel) -> Seq<Seq<char>> {
    let head = "gate state: "@ + state_name(d.state);
    if d.proposed.len() == 0 {
        seq![
            head,
            "no moves proposed — gate is satisfied or has no work the engine recognises."@,
        ]
    } else {
        seq![head, "proposed legitimate moves ("@ + decimal(d.proposed.len()) + "):"@]
            + d.proposed.map_values(|m: MoveModel| "  - "@ + m.described())
    }
}

/// Diagnoses a gate from a file: the lines to show, or why there is no gate.
pub fn run_diagnose(path: &str, file: GateFile) -> (r: Result<Vec<String>, String>)
    ensures
        match file {
            GateFile::Unreadable(e) => r matches Err(m) && m@ == "squabble: "@ + ("cannot read `"@
                + path@ + "`: "@ + e@),
            GateFile::Invalid(e) => r matches Err(m) && m@ == "squabble: "@ + ("`"@ + path@
                + "` is not a valid gate: "@ + e@),
            GateFile::Gate(gate) => r matches Ok(lines) && lines.deep_view() == diagnosis_lines(
                diagnosis_of(gate.deep_view(), Map::empty()),
            ),
        },
{
    let gate: Gate = match gate_from_file(path, file) {
        Ok(gate) => gate,
        Err(e) => {
            return Err(cat2("squabble: ", &e));
        },
    };
    let d: Diagnosis = diagnose(&gate);
    let ghost m = d.deep_view();
    let ghost want = diagnosis_lines(m);
    let mut lines: Vec<String> = Vec::new();
    lines.push(cat2("gate state: ", name_of_state(d.state)));
    if d.proposed.len() == 0 {
        lines.push(
            "no moves proposed — gate is satisfied or has no work the engine recognises.".to_owned(),
        );
        assert(lines.deep_view() =~= want);
        return Ok(lines);
    }
    let count: String = show(d.proposed.len() as u64);
    lines.push(cat3("proposed legitimate moves (", &count, "):"));
    let mut i: usize = 0;
    assert(lines.deep_view() =~= want.take(2));
    while i < d.proposed.len()
        invariant
            i <= d.proposed@.len(),
            m == d.deep_view(),
            m == diagnosis_of(gate.deep_view(), Map::empty()),
            want == diagnosis_lines(m),
            want.len() == m.proposed.len() + 2,
            forall|k: int| 0 <= k < m.proposed.len() ==> #[trigger] want[k + 2] == "  - "@
                + m.proposed[k].described(),
            lines.deep_view() == want.take(i + 2),
        decreases d.proposed@.len() - i,
    {
        let ghost sofar = lines.deep_view();
        assert(m.proposed[i as int] == d.proposed@[i as int].deep_view());
        let what: String = d.proposed[i].describe();
        lines.push(cat2("  - ", &what));
        assert(want[i + 2] == "  - "@ + m.proposed[i as int].described());
        assert(lines.deep_view() =~= sofar.push(want[i + 2]));
        i += 1;
        assert(lines.deep_view() =~= want.take(i + 2));
    }
    assert(want.take(want.len() as int) =~= want);
    Ok(lines)
}

/// The outcome of a plan can be shown.
pub proof fn plans_can_be_shown(
    checks: Seq<CheckModel>,
    slug: Seq<char>,
    root: Seq<char>,
    context: ContextModel,
    workflows: Seq<InfoModel>,
    probe: ProbeModel,
    startup: StartupModel,
)
    ensures
        showable(
            OutcomeModel::Red {
                report: plan_report(checks, slug, root, context, workflows, probe, startup),
            },
        ),
{
    planned_moves_are_describable(checks, workflows, slug, startup);
    let moves = planned_moves(checks, workflows, slug, startup);
    lemma_wins_describable(moves, moves.len() as int);
}

proof fn lemma_wins_describable(moves: Seq<MoveModel>, n: int)
    requires
        n <= moves.len(),
        forall|i: int| 0 <= i < moves.len() ==> (#[trigger] moves[i]).describable(),
    ensures
        forall|i: int|
            0 <= i < self_wins_among(moves, n).len() ==> (
            #[trigger] self_wins_among(moves, n)[i]).describable(),
    decreases n,
{
    if n > 0 {
        lemma_wins_describable(moves, n - 1);
        let fewer = self_wins_among(moves, n - 1);
        let wins = self_wins_among(moves, n);
        assert forall|i: int| 0 <= i < wins.len() implies (
        #[trigger] wins[i]).describable() by {
            if i < fewer.len() {
                assert(wins[i] == fewer[i]);
            } else {
                assert(wins[i] == moves[n - 1]);
            }
        }
    }
}

/// The line of an item holds what the item is about.
pub proof fn each_line_shows_its_item(
    m: MoveModel,
    a: ChangeModel,
    e: EscalationModel,
    o: OwnerModel,
)
    ensures
        move_line(m) == "    - "@ + m.described(),
        change_line(a) == "    - "@ + a.file + ": "@ + a.detail,
        escalation_line(e) == "    - `"@ + e.check + "` → "@ + group_label(e.group) + " ["@
            + obligation_label(e.obligation) + "]: "@ + e.evidence,
        owner_line(o) == "    - `"@ + o.check + "` → `"@ + o.owner + "` ["@ + o.disposition.label()
            + "]: "@ + o.rationale,
{
}

/// A repository without descriptiles is said to have none, and nothing else is said of it; of
/// one with descriptiles, the owner it coordinates with is said, and how many boundaries it
/// draws, where there are any.
pub proof fn the_context_is_shown_as_far_as_it_is_known(context: ContextModel)
    ensures
        !context.found ==> context_lines(context) == seq![
            "  context: no .machine_readable/ descriptiles found — using workflow ground-truth only"@,
        ],
        context.found ==> ({
            let lines = context_lines(context);
            let owned: nat = if context.coordination_owner is Some {
                1
            } else {
                0
            };
            let bounded: nat = if context.is_not.len() > 0 {
                1
            } else {
                0
            };
            &&& lines.len() == owned + bounded
            &&& context.coordination_owner matches Some(owner) ==> lines[0]
                == "  context: coordinates with `"@ + owner + "`"@
            &&& bounded == 1 ==> lines.last() == "  identity: "@ + decimal(context.is_not.len())
                + " IS-NOT boundaries read from a2ml"@
        }),
{
}

/// Only a red outcome is shown at length: first the repository and the summary, then the
/// context, then the moves, the edits, the escalations and the assignments, each section under
/// its title, in order and in full, and none of them where it is empty.
pub proof fn a_red_outcome_is_shown_in_full(
    slug: Seq<char>,
    context: ContextModel,
    report: ReportModel,
    i: int,
)
    ensures
        ({
            let lines = outcome_lines(slug, context, OutcomeModel::Red { report });
            let c = 2 + context_lines(context).len() as int;
            let m = report.moves_attempted.len() as int;
            let a = report.applied.len() as int;
            let e = report.escalations.len() as int;
            let o = report.owner_assignments.len() as int;
            let at_a = c + (if m > 0 {
                m + 1
            } else {
                0
            });
            let at_e = at_a + (if a > 0 {
                a + 1
            } else {
                0
            });
            let at_o = at_e + (if e > 0 {
                e + 1
            } else {
                0
            });
            &&& lines[0] == "squabble fight "@ + slug
            &&& lines[1] == "  "@ + report.summary
            &&& lines.subrange(2, c) == context_lines(context)
            &&& 0 <= i < m ==> lines[c] == "\n  self-win moves (squabbler's lane):"@ && lines[c + 1
                + i] == move_line(report.moves_attempted[i])
            &&& 0 <= i < a ==> lines[at_a]
                == "\n  applied to the working tree (no commit/push — operator's step):"@
                && lines[at_a + 1 + i] == change_line(report.applied[i])
            &&& 0 <= i < e ==> lines[at_e] == "\n  escalations (call in the big guns):"@
                && lines[at_e + 1 + i] == escalation_line(report.escalations[i])
            &&& 0 <= i < o ==> lines[at_o] == "\n  owner assignments (into the debate):"@
                && lines[at_o + 1 + i] == owner_line(report.owner_assignments[i])
            &&& lines.len() == at_o + (if o > 0 {
                o + 1
            } else {
                0
            })
        }),
{
    let lines = outcome_lines(slug, context, OutcomeModel::Red { report });
    let c = 2 + context_lines(context).len() as int;
    assert(lines.subrange(2, c) =~= context_lines(context));
}

/// A gate is shown as won exactly where the outcome is not red.
pub proof fn only_what_is_not_red_is_shown_as_won(
    slug: Seq<char>,
    context: ContextModel,
    outcome: OutcomeModel,
)
    ensures
        !(outcome is Red) ==> outcome_lines(slug, context, outcome) == seq!["gate won."@],
        outcome is Red ==> outcome_lines(slug, context, outcome).len() >= 2,
{
}

/// A diagnosis is shown with its state, the number of its proposals and each of them in order,
/// or with a line that says that there are none.
pub proof fn a_diagnosis_is_shown_in_full(d: DiagnosisModel, i: int)
    ensures
        ({
            let lines = diagnosis_lines(d);
            &&& lines[0] == "gate state: "@ + (match d.state {
                GateState::Blocked => "Blocked"@,
                GateState::Red => "Red"@,
                GateState::Green => "Green"@,
            })
            &&& d.proposed.len() == 0 ==> lines.len() == 2 && lines[1]
                == "no moves proposed — gate is satisfied or has no work the engine recognises."@
            &&& d.proposed.len() > 0 ==> lines.len() == d.proposed.len() + 2 && lines[1]
                == "proposed legitimate moves ("@ + decimal(d.proposed.len()) + "):"@
            &&& 0 <= i < d.proposed.len() ==> lines[i + 2] == "  - "@ + d.proposed[i].described()
        }),
{
}

} // verus!
