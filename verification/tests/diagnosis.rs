use squabble::gate::{CheckRun, Gate, GateState, RequiredCheck};
use squabble::moves::{LicenceFinding, Move};
use squabble::{diagnose, diagnose_with_hints, Hints};

#[test]
fn green_gate_proposes_nothing() {
    let g = Gate::new(vec![RequiredCheck::new("a", CheckRun::Passed)]);
    let d = diagnose(&g);
    assert_eq!(d.state, GateState::Green);
    assert!(d.proposed.is_empty());
}

#[test]
fn blocked_gate_proposes_one_move_per_unsatisfied() {
    let g = Gate::new(vec![
        RequiredCheck::new("a", CheckRun::Passed),
        RequiredCheck::new("b", CheckRun::Missing),
        RequiredCheck::new("c", CheckRun::Pending),
    ]);
    let d = diagnose(&g);
    assert_eq!(d.state, GateState::Blocked);
    assert_eq!(d.proposed.len(), 2);
}

#[test]
fn licence_policy_context_proposes_a_licence_drift_move() {
    let g = Gate::new(vec![
        RequiredCheck::new("build", CheckRun::Passed),
        RequiredCheck::new("licence-policy / spdx-headers", CheckRun::Missing),
    ]);
    let d = diagnose(&g);
    assert_eq!(d.state, GateState::Blocked);
    assert!(matches!(
        d.proposed.as_slice(),
        [Move::LicencePolicyDrift { .. }]
    ));
}

#[test]
fn hinted_context_uses_the_hint_not_ground_truthing() {
    let g = Gate::new(vec![RequiredCheck::new(
        "governance / Validate Hypatia Baseline",
        CheckRun::Failed,
    )]);
    let mut hints = Hints::new();
    hints.insert(
        "governance / Validate Hypatia Baseline".to_string(),
        Move::FlagNonFunctionalGate {
            check: "governance / Validate Hypatia Baseline".into(),
            evidence: "main red for 5+ days independent of any PR".into(),
        },
    );
    let d = diagnose_with_hints(&g, &hints);
    assert_eq!(
        d.proposed,
        vec![Move::FlagNonFunctionalGate {
            check: "governance / Validate Hypatia Baseline".into(),
            evidence: "main red for 5+ days independent of any PR".into(),
        }]
    );
}

#[test]
fn unhinted_context_still_falls_back_to_ground_truthing() {
    let g = Gate::new(vec![RequiredCheck::new(
        "some / other check",
        CheckRun::Missing,
    )]);
    let d = diagnose_with_hints(&g, &Hints::new());
    assert_eq!(
        d.proposed,
        vec![Move::GroundTruthCheckNames {
            workflow: "(emitting `some / other check`)".into()
        }]
    );
}

#[test]
fn a_hint_leaves_the_other_contexts_alone() {
    let g = Gate::new(vec![
        RequiredCheck::new("one", CheckRun::Failed),
        RequiredCheck::new("two", CheckRun::Failed),
    ]);
    let mut hints = Hints::new();
    hints.insert("two".to_string(), Move::ResolveAndRerun { branch: "old".into() });
    hints.insert("two".to_string(), Move::ResolveAndRerun { branch: "new".into() });
    assert!(hints.get("one").is_none());
    let plain = diagnose(&g);
    let hinted = diagnose_with_hints(&g, &hints);
    assert_eq!(hinted.state, plain.state);
    assert_eq!(hinted.proposed[0], plain.proposed[0]);
    assert_eq!(hinted.proposed[1], Move::ResolveAndRerun { branch: "new".into() });
}

#[test]
fn any_spelling_of_a_licence_context_is_recognised() {
    for name in ["LICENCE", "License check", "SPDX headers", "reuse-lint"] {
        let g = Gate::new(vec![RequiredCheck::new(name, CheckRun::Failed)]);
        assert_eq!(
            diagnose(&g).proposed,
            vec![Move::LicencePolicyDrift {
                check: name.into(),
                finding: LicenceFinding::NeedsGroundTruth,
            }]
        );
    }
}
