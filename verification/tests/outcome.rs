use squabble::moves::{EscalationKind, ExpertGroup, Move, OwnershipDisposition};
use squabble::outcome::{Escalation, OwnerAssignment};

#[test]
fn escalation_projects_only_from_escalate_move() {
    let m = Move::EscalateToExpert {
        check: "lint-shell".into(),
        group: ExpertGroup::HypatiaFleet,
        obligation: EscalationKind::DispatchFix,
        evidence: "shellcheck".into(),
    };
    assert_eq!(Escalation::from_move(&m).unwrap().check, "lint-shell");
    assert!(Escalation::from_move(&Move::GroundTruthCheckNames {
        workflow: "ci.yml".into()
    })
    .is_none());
}

#[test]
fn owner_assignment_projects_only_from_assign_move() {
    let m = Move::AssignGateOwner {
        check: "gov".into(),
        owner: "hyperpolymath/standards".into(),
        disposition: OwnershipDisposition::OwnedUpstream {
            repo: "hyperpolymath/standards".into(),
        },
        rationale: "reusable".into(),
    };
    assert_eq!(
        OwnerAssignment::from_move(&m).unwrap().owner,
        "hyperpolymath/standards"
    );
    assert!(OwnerAssignment::from_move(&Move::ResolveAndRerun { branch: "x".into() }).is_none());
}

#[test]
fn projections_keep_every_field() {
    let e = Escalation {
        check: "c".into(),
        group: ExpertGroup::Proof,
        obligation: EscalationKind::VerifyClaim,
        evidence: "e".into(),
    };
    let m = Move::EscalateToExpert {
        check: "c".into(),
        group: ExpertGroup::Proof,
        obligation: EscalationKind::VerifyClaim,
        evidence: "e".into(),
    };
    assert_eq!(Escalation::from_move(&m), Some(e));
    assert_eq!(OwnerAssignment::from_move(&m), None);
}
