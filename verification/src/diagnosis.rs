//! Diagnosis: the state of a gate and one proposed move for each requirement that
//! is not satisfied.
use vstd::hash_map::StringHashMap;
use vstd::prelude::*;

use crate::gate::{state_of, unsatisfied_of, CheckModel, Gate, GateState, RequiredCheck};
use crate::moves::{FindingModel, LicenceFinding, Move, MoveModel};
use crate::text::{cat3, contains, holds_text, lower, to_lower};

verus! {

/// The state of a gate, with one proposed move for each requirement that is not
/// satisfied, in the order of declaration.
#[derive(Debug, PartialEq, Eq)]
pub struct Diagnosis {
    pub state: GateState,
    pub proposed: Vec<Move>,
}

/// A [`Diagnosis`] as a mathematical value.
pub struct DiagnosisModel {
    pub state: GateState,
    pub proposed: Seq<MoveModel>,
}

impl DeepView for Diagnosis {
    type V = DiagnosisModel;

    open spec fn deep_view(&self) -> DiagnosisModel {
        DiagnosisModel { state: self.state, proposed: self.proposed.deep_view() }
    }
}

impl Clone for Diagnosis {
    fn clone(&self) -> (r: Self)
        ensures
            r.deep_view() == self.deep_view(),
    {
        let proposed = self.proposed.clone();
        assert(proposed.deep_view() =~= self.proposed.deep_view());
        Diagnosis { state: self.state, proposed }
    }
}

/// Moves that the host has already settled on, by required context.
pub struct Hints {
    moves: StringHashMap<Move>,
}

impl DeepView for Hints {
    type V = Map<Seq<char>, MoveModel>;

    closed spec fn deep_view(&self) -> Map<Seq<char>, MoveModel> {
        self.moves@.map_values(|m: Move| m.deep_view())
    }
}

impl Hints {
    /// No hints.
    pub fn new() -> (r: Self)
        ensures
            r.deep_view() == Map::<Seq<char>, MoveModel>::empty(),
    {
        let r = Hints { moves: StringHashMap::new() };
        assert(r.deep_view() =~= Map::<Seq<char>, MoveModel>::empty());
        r
    }

    /// Settles on `m` for the context; a later hint replaces an earlier one.
    pub fn insert(&mut self, context: String, m: Move)
        ensures
            final(self).deep_view() == old(self).deep_view().insert(context@, m.deep_view()),
    {
        let ghost before = self.deep_view();
        self.moves.insert(context, m);
        assert(self.deep_view() =~= before.insert(context@, m.deep_view()));
    }

    /// The move settled on for the context, if any.
    pub fn get(&self, context: &str) -> (r: Option<&Move>)
        ensures
            match r {
                Some(m) => self.deep_view().dom().contains(context@) && m.deep_view()
                    == self.deep_view()[context@],
                None => !self.deep_view().dom().contains(context@),
            },
    {
        self.moves.get(context)
    }
}

/// Does the name of the context speak of a licence policy?
pub open spec fn names_a_licence(context: Seq<char>) -> bool {
    let name = lower(context);
    holds_text(name, "licence"@) || holds_text(name, "license"@) || holds_text(name, "spdx"@)
        || holds_text(name, "reuse"@)
}

/// The move that is proposed for a requirement of which only the name is known.
pub open spec fn default_move(context: Seq<char>) -> MoveModel {
    if names_a_licence(context) {
        MoveModel::LicencePolicyDrift { check: context, finding: FindingModel::NeedsGroundTruth }
    } else {
        MoveModel::GroundTruthCheckNames { workflow: "(emitting `"@ + context + "`)"@ }
    }
}

/// The move that is proposed for a requirement in the light of `hints`.
pub open spec fn move_for(hints: Map<Seq<char>, MoveModel>, context: Seq<char>) -> MoveModel {
    if hints.dom().contains(context) {
        hints[context]
    } else {
        default_move(context)
    }
}

/// The moves that are proposed for `checks`, one for each.
pub open spec fn moves_for(
    checks: Seq<CheckModel>,
    hints: Map<Seq<char>, MoveModel>,
) -> Seq<MoveModel> {
    checks.map_values(|c: CheckModel| move_for(hints, c.context))
}

/// The diagnosis of a gate in the light of `hints`.
pub open spec fn diagnosis_of(
    checks: Seq<CheckModel>,
    hints: Map<Seq<char>, MoveModel>,
) -> DiagnosisModel {
    DiagnosisModel {
        state: state_of(checks),
        proposed: moves_for(unsatisfied_of(checks), hints),
    }
}

/// Diagnoses a gate by the names of its contexts alone.
pub fn diagnose(gate: &Gate) -> (r: Diagnosis)
    ensures
        r.deep_view() == diagnosis_of(gate.deep_view(), Map::empty()),
{
    let hints = Hints::new();
    diagnose_with_hints(gate, &hints)
}

/// The most conservative move for a context of which only the name is known.
fn propose_for(required_context: &str) -> (r: Move)
    ensures
        r.deep_view() == default_move(required_context@),
{
    let name: String = to_lower(required_context);
    if contains(&name, "licence") || contains(&name, "license") || contains(&name, "spdx")
        || contains(&name, "reuse") {
        return Move::LicencePolicyDrift {
            check: required_context.to_owned(),
            finding: LicenceFinding::NeedsGroundTruth,
        };
    }
    Move::GroundTruthCheckNames { workflow: cat3("(emitting `", required_context, "`)") }
}

/// Diagnoses a gate, with a hint taken where there is one for the context and
/// [`diagnose`]'s own proposal where there is none.
pub fn diagnose_with_hints(gate: &Gate, hints: &Hints) -> (r: Diagnosis)
    ensures
        r.deep_view() == diagnosis_of(gate.deep_view(), hints.deep_view()),
{
    let state: GateState = gate.evaluate();
    let open: Vec<&RequiredCheck> = gate.unsatisfied();
    let ghost want = moves_for(open.deep_view(), hints.deep_view());
    let mut proposed: Vec<Move> = Vec::new();
    let mut i: usize = 0;
    while i < open.len()
        invariant
            i <= open@.len(),
            want == moves_for(open.deep_view(), hints.deep_view()),
            proposed.deep_view() == want.take(i as int),
        decreases open@.len() - i,
    {
        let context: &str = open[i].required_context.as_str();
        assert(open.deep_view()[i as int].context == context@);
        let m: Move = match hints.get(context) {
            Some(hint) => hint.clone(),
            None => propose_for(context),
        };
        assert(m.deep_view() == want[i as int]);
        let ghost before = proposed.deep_view();
        proposed.push(m);
        assert(proposed.deep_view() =~= before.push(m.deep_view()));
        i += 1;
        assert(proposed.deep_view() =~= want.take(i as int));
    }
    assert(proposed.deep_view() =~= want);
    Diagnosis { state, proposed }
}

/// There is one proposed move for each requirement that is not satisfied, and each
/// is either a hint for its context or the default for it.
pub proof fn one_move_for_each_open_requirement(
    checks: Seq<CheckModel>,
    hints: Map<Seq<char>, MoveModel>,
)
    ensures
        diagnosis_of(checks, hints).proposed.len() == unsatisfied_of(checks).len(),
        forall|i: int|
            0 <= i < unsatisfied_of(checks).len() ==> #[trigger] diagnosis_of(
                checks,
                hints,
            ).proposed[i] == move_for(hints, unsatisfied_of(checks)[i].context),
{
}

/// A green gate has nothing proposed for it.
pub proof fn a_green_gate_needs_no_move(
    checks: Seq<CheckModel>,
    hints: Map<Seq<char>, MoveModel>,
)
    requires
        state_of(checks) == GateState::Green,
    ensures
        diagnosis_of(checks, hints).proposed.len() == 0,
{
    crate::gate::green_leaves_no_work(checks);
}

/// Hints refine a diagnosis: they leave its state alone, and they leave alone the
/// move for each context that they are silent on.
pub proof fn hints_only_refine(checks: Seq<CheckModel>, hints: Map<Seq<char>, MoveModel>)
    ensures
        diagnosis_of(checks, hints).state == diagnosis_of(checks, Map::empty()).state,
        diagnosis_of(checks, hints).proposed.len() == diagnosis_of(
            checks,
            Map::empty(),
        ).proposed.len(),
        forall|i: int|
            0 <= i < unsatisfied_of(checks).len() && !hints.dom().contains(
                unsatisfied_of(checks)[i].context,
            ) ==> #[trigger] diagnosis_of(checks, hints).proposed[i] == diagnosis_of(
                checks,
                Map::empty(),
            ).proposed[i],
{
}

/// Without a hint every proposal can be put in words.
pub proof fn default_moves_are_describable(context: Seq<char>)
    ensures
        default_move(context).describable(),
{
}

/// A requirement that nothing but its name is known of is a question of licences exactly where
/// its name, in lower case, speaks of a licence, of SPDX or of REUSE; otherwise the names that
/// its workflow emits are to be looked up. What is found about licences is never made up.
pub proof fn names_alone_propose_little(context: Seq<char>)
    ensures
        default_move(context) == if holds_text(lower(context), "licence"@) || holds_text(
            lower(context),
            "license"@,
        ) || holds_text(lower(context), "spdx"@) || holds_text(lower(context), "reuse"@) {
            MoveModel::LicencePolicyDrift { check: context, finding: FindingModel::NeedsGroundTruth }
        } else {
            MoveModel::GroundTruthCheckNames { workflow: "(emitting `"@ + context + "`)"@ }
        },
{
}

/// The move that is proposed for an open requirement is the hint for its context where there
/// is one, as it stands, and otherwise the proposal by its name alone; the state is that of the
/// gate.
pub proof fn a_hint_is_taken_as_it_stands(
    checks: Seq<CheckModel>,
    hints: Map<Seq<char>, MoveModel>,
    i: int,
)
    requires
        0 <= i < unsatisfied_of(checks).len(),
    ensures
        diagnosis_of(checks, hints).state == state_of(checks),
        ({
            let context = unsatisfied_of(checks)[i].context;
            diagnosis_of(checks, hints).proposed[i] == if hints.dom().contains(context) {
                hints[context]
            } else {
                default_move(context)
            }
        }),
{
}

} // verus!
