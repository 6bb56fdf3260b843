//! What a fight ends in.
//!
//! There are three results and no fourth that quietly means "gave up but called it
//! green": an override is not representable as an [`Outcome`].
use vstd::prelude::*;

use crate::gate::{CheckModel, RequiredCheck};
use crate::moves::{
    DispositionModel, EscalationKind, ExpertGroup, Move, MoveModel, OwnershipDisposition,
};

verus! {

/// The landing strategies that are permitted. A merge commit is not one of them.
#[derive(Debug, Clone, Copy, PartialEq, Eq, Structural)]
pub enum LandingStrategy {
    Squash,
    Rebase,
}

/// The terminal value of a fight.
#[derive(Debug, PartialEq, Eq)]
pub enum Outcome {
    /// Every requirement was satisfied, and the change landed by a permitted strategy.
    Green { landed_via: LandingStrategy, moves_applied: Vec<Move> },
    /// Red was improved but not won.
    Yellow { moves_applied: Vec<Move>, still_unsatisfied: Vec<RequiredCheck> },
    /// Not won; nothing was bypassed and nothing was merged.
    Red { report: Report },
}

/// The account of a gate that was not won. Each red is in it as a move that was
/// attempted, as an escalation or as an owner assignment.
#[derive(Debug, PartialEq, Eq)]
pub struct Report {
    pub summary: String,
    pub unsatisfied: Vec<RequiredCheck>,
    /// The moves inside the squabbler's own lane.
    pub moves_attempted: Vec<Move>,
    /// The reds that are handed to an expert group.
    pub escalations: Vec<Escalation>,
    /// The checks that are put into the debate with a named owner.
    pub owner_assignments: Vec<OwnerAssignment>,
    /// The expert calls that were made, one entry each, success or failure.
    pub expert_verdicts: Vec<ExpertVerdict>,
    /// The edits that were made to the working tree.
    pub applied: Vec<AppliedChange>,
    /// Why each remaining requirement is not satisfied.
    pub blockers: Vec<String>,
}

/// One expert call, recorded in full.
#[derive(Debug, PartialEq, Eq)]
pub struct ExpertVerdict {
    /// The required context that the escalation concerns.
    pub check: String,
    /// The service that was summoned.
    pub cartridge: String,
    /// The tool that was invoked on it.
    pub tool: String,
    /// Did the call succeed, in transport and in body?
    pub ok: bool,
    /// What a success means, and no more.
    pub meaning: String,
    /// The body of the response, or what failed.
    pub verdict: String,
}

/// A red that is handed to an expert group.
#[derive(Debug, PartialEq, Eq)]
pub struct Escalation {
    pub check: String,
    pub group: ExpertGroup,
    pub obligation: EscalationKind,
    pub evidence: String,
}

/// A check that is attributed to an owner.
#[derive(Debug, PartialEq, Eq)]
pub struct OwnerAssignment {
    pub check: String,
    pub owner: String,
    pub disposition: OwnershipDisposition,
    pub rationale: String,
}

/// One edit to the working tree.
#[derive(Debug, PartialEq, Eq)]
pub struct AppliedChange {
    /// The kind of the move that was applied.
    pub move_kind: String,
    /// The file that was edited.
    pub file: String,
    /// What was changed in it.
    pub detail: String,
}

/// An [`Outcome`] as a mathematical value.
pub enum OutcomeModel {
    Green { landed_via: LandingStrategy, moves_applied: Seq<MoveModel> },
    Yellow { moves_applied: Seq<MoveModel>, still_unsatisfied: Seq<CheckModel> },
    Red { report: ReportModel },
}

/// A [`Report`] as a mathematical value.
pub struct ReportModel {
    pub summary: Seq<char>,
    pub unsatisfied: Seq<CheckModel>,
    pub moves_attempted: Seq<MoveModel>,
    pub escalations: Seq<EscalationModel>,
    pub owner_assignments: Seq<OwnerModel>,
    pub expert_verdicts: Seq<VerdictModel>,
    pub applied: Seq<ChangeModel>,
    pub blockers: Seq<Seq<char>>,
}

/// An [`ExpertVerdict`] as a mathematical value.
pub struct VerdictModel {
    pub check: Seq<char>,
    pub cartridge: Seq<char>,
    pub tool: Seq<char>,
    pub ok: bool,
    pub meaning: Seq<char>,
    pub verdict: Seq<char>,
}

/// An [`Escalation`] as a mathematical value.
pub struct EscalationModel {
    pub check: Seq<char>,
    pub group: ExpertGroup,
    pub obligation: EscalationKind,
    pub evidence: Seq<char>,
}

/// An [`OwnerAssignment`] as a mathematical value.
pub struct OwnerModel {
    pub check: Seq<char>,
    pub owner: Seq<char>,
    pub disposition: DispositionModel,
    pub rationale: Seq<char>,
}

/// An [`AppliedChange`] as a mathematical value.
pub struct ChangeModel {
    pub move_kind: Seq<char>,
    pub file: Seq<char>,
    pub detail: Seq<char>,
}

impl DeepView for ExpertVerdict {
    type V = VerdictModel;

    open spec fn deep_view(&self) -> VerdictModel {
        VerdictModel {
            check: self.check@,
            cartridge: self.cartridge@,
            tool: self.tool@,
            ok: self.ok,
            meaning: self.meaning@,
            verdict: self.verdict@,
        }
    }
}

impl DeepView for Escalation {
    type V = EscalationModel;

    open spec fn deep_view(&self) -> EscalationModel {
        EscalationModel {
            check: self.check@,
            group: self.group,
            obligation: self.obligation,
            evidence: self.evidence@,
        }
    }
}

impl DeepView for OwnerAssignment {
    type V = OwnerModel;

    open spec fn deep_view(&self) -> OwnerModel {
        OwnerModel {
            check: self.check@,
            owner: self.owner@,
            disposition: self.disposition.deep_view(),
            rationale: self.rationale@,
        }
    }
}

impl DeepView for AppliedChange {
    type V = ChangeModel;

    open spec fn deep_view(&self) -> ChangeModel {
        ChangeModel { move_kind: self.move_kind@, file: self.file@, detail: self.detail@ }
    }
}

impl DeepView for Report {
    type V = ReportModel;

    open spec fn deep_view(&self) -> ReportModel {
        ReportModel {
            summary: self.summary@,
            unsatisfied: self.unsatisfied.deep_view(),
            moves_attempted: self.moves_attempted.deep_view(),
            escalations: self.escalations.deep_view(),
            owner_assignments: self.owner_assignments.deep_view(),
            expert_verdicts: self.expert_verdicts.deep_view(),
            applied: self.applied.deep_view(),
            blockers: self.blockers.deep_view(),
        }
    }
}

impl DeepView for Outcome {
    type V = OutcomeModel;

    open spec fn deep_view(&self) -> OutcomeModel {
        match self {
            Outcome::Green { landed_via, moves_applied } => OutcomeModel::Green {
                landed_via: *landed_via,
                moves_applied: moves_applied.deep_view(),
            },
            Outcome::Yellow { moves_applied, still_unsatisfied } => OutcomeModel::Yellow {
                moves_applied: moves_applied.deep_view(),
                still_unsatisfied: still_unsatisfied.deep_view(),
            },
            Outcome::Red { report } => OutcomeModel::Red { report: report.deep_view() },
        }
    }
}

impl Clone for ExpertVerdict {
    fn clone(&self) -> (r: Self)
        ensures
            r.deep_view() == self.deep_view(),
    {
        ExpertVerdict {
            check: self.check.clone(),
            cartridge: self.cartridge.clone(),
            tool: self.tool.clone(),
            ok: self.ok,
            meaning: self.meaning.clone(),
            verdict: self.verdict.clone(),
        }
    }
}

impl Clone for Escalation {
    fn clone(&self) -> (r: Self)
        ensures
            r.deep_view() == self.deep_view(),
    {
        Escalation {
            check: self.check.clone(),
            group: self.group,
            obligation: self.obligation,
            evidence: self.evidence.clone(),
        }
    }
}

impl Clone for OwnerAssignment {
    fn clone(&self) -> (r: Self)
        ensures
            r.deep_view() == self.deep_view(),
    {
        OwnerAssignment {
            check: self.check.clone(),
            owner: self.owner.clone(),
            disposition: self.disposition.clone(),
            rationale: self.rationale.clone(),
        }
    }
}

impl Clone for AppliedChange {
    fn clone(&self) -> (r: Self)
        ensures
            r.deep_view() == self.deep_view(),
    {
        AppliedChange {
            move_kind: self.move_kind.clone(),
            file: self.file.clone(),
            detail: self.detail.clone(),
        }
    }
}

/// The escalation that a move stands for, where it is one.
pub open spec fn escalation_of(m: MoveModel) -> Option<EscalationModel> {
    match m {
        MoveModel::EscalateToExpert { check, group, obligation, evidence } => Some(
            EscalationModel { check, group, obligation, evidence },
        ),
        _ => None,
    }
}

/// The owner assignment that a move stands for, where it is one.
pub open spec fn assignment_of(m: MoveModel) -> Option<OwnerModel> {
    match m {
        MoveModel::AssignGateOwner { check, owner, disposition, rationale } => Some(
            OwnerModel { check, owner, disposition, rationale },
        ),
        _ => None,
    }
}

impl Escalation {
    /// The escalation that [`Move::EscalateToExpert`] stands for; nothing for any
    /// other move.
    pub fn from_move(m: &Move) -> (r: Option<Self>)
        ensures
            r.deep_view() == escalation_of(m.deep_view()),
    {
        match m {
            Move::EscalateToExpert { check, group, obligation, evidence } => Some(
                Escalation {
                    check: check.clone(),
                    group: *group,
                    obligation: *obligation,
                    evidence: evidence.clone(),
                },
            ),
            _ => None,
        }
    }
}

impl OwnerAssignment {
    /// The owner assignment that [`Move::AssignGateOwner`] stands for; nothing for
    /// any other move.
    pub fn from_move(m: &Move) -> (r: Option<Self>)
        ensures
            r.deep_view() == assignment_of(m.deep_view()),
    {
        match m {
            Move::AssignGateOwner { check, owner, disposition, rationale } => Some(
                OwnerAssignment {
                    check: check.clone(),
                    owner: owner.clone(),
                    disposition: disposition.clone(),
                    rationale: rationale.clone(),
                },
            ),
            _ => None,
        }
    }
}

/// A move projects into an escalation exactly when it escalates, into an owner
/// assignment exactly when it assigns, and never into both.
pub proof fn projections_are_exclusive(m: MoveModel)
    ensures
        escalation_of(m) is Some <==> m is EscalateToExpert,
        assignment_of(m) is Some <==> m is AssignGateOwner,
        !(escalation_of(m) is Some && assignment_of(m) is Some),
{
}

/// An escalation and an owner assignment carry over every field of their move.
pub proof fn projections_keep_every_field(
    check: Seq<char>,
    group: ExpertGroup,
    obligation: EscalationKind,
    evidence: Seq<char>,
    owner: Seq<char>,
    disposition: DispositionModel,
    rationale: Seq<char>,
)
    ensures
        escalation_of(MoveModel::EscalateToExpert { check, group, obligation, evidence }) == Some(
            EscalationModel { check, group, obligation, evidence },
        ),
        assignment_of(
            MoveModel::AssignGateOwner { check, owner, disposition, rationale },
        ) == Some(OwnerModel { check, owner, disposition, rationale }),
{
}

} // verus!
