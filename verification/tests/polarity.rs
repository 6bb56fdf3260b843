use squabble::gate::{CheckRun, Gate, GateState, RequiredCheck};
use squabble::moves::{EscalationKind, ExpertGroup, Move};
use squabble::polarity::{
    classify, Applicability, Evidence, PolarityVerdict, Recommendation, RepoDeclaration,
    ScannerSignature, SignatureSet, StepConclusion, StepOutcome, StepSignature, VacuityCause,
    VacuitySignature,
};

fn hundredths(rate: f64) -> u32 {
    (rate * 100.0).round() as u32
}

fn sig() -> VacuitySignature {
    VacuitySignature::new(&["Run Hypatia scan"], &["Create stub findings"])
}

fn ev(tech: bool, upstream: bool, rate: f64) -> Evidence {
    Evidence {
        run_count: 4,
        stub_rate: hundredths(rate),
        upstream_exists: Some(upstream),
        target_tech_present: Some(tech),
    }
}

fn classify_steps(steps: &[StepOutcome]) -> PolarityVerdict {
    classify(
        steps,
        &sig(),
        &Applicability::default(),
        &RepoDeclaration::default(),
        ev(true, true, 1.0),
    )
}


#[test]
fn both_halves_matching_is_vacuous() {
    let v = classify_steps(&[
        StepOutcome::new("Checkout", StepConclusion::Success),
        StepOutcome::new("Run Hypatia scan", StepConclusion::Skipped),
        StepOutcome::new("Create stub findings", StepConclusion::Success),
    ]);
    assert!(
        matches!(
            v,
            PolarityVerdict::Vacuous {
                cause: VacuityCause::StubbedAfterSkippedScan,
                ..
            }
        ),
        "got {v:?}"
    );
}

#[test]
fn skipped_step_without_a_stub_step_is_genuine() {
    let v = classify_steps(&[
        StepOutcome::new("Checkout", StepConclusion::Success),
        StepOutcome::new("Run Hypatia scan", StepConclusion::Skipped),
    ]);
    assert_eq!(v, PolarityVerdict::Genuine, "got {v:?}");
}

#[test]
fn stub_step_without_a_skipped_scan_is_genuine() {
    let v = classify_steps(&[
        StepOutcome::new("Run Hypatia scan", StepConclusion::Success),
        StepOutcome::new("Create stub findings", StepConclusion::Success),
    ]);
    assert_eq!(v, PolarityVerdict::Genuine, "got {v:?}");
}

#[test]
fn an_empty_signature_never_matches() {
    let v = classify(
        &[StepOutcome::new("Build", StepConclusion::Success)],
        &VacuitySignature::default(),
        &Applicability::default(),
        &RepoDeclaration::default(),
        ev(true, true, 0.0),
    );
    assert_eq!(v, PolarityVerdict::Genuine, "got {v:?}");
}

#[test]
fn a_half_populated_signature_is_not_usable() {
    assert!(!VacuitySignature::new(&["a"], &[]).is_usable());
    assert!(!VacuitySignature::new(&[], &["b"]).is_usable());
    assert!(VacuitySignature::new(&["a"], &["b"]).is_usable());
}


#[test]
fn no_steps_recorded_is_vacuous() {
    let v = classify_steps(&[]);
    assert!(
        matches!(
            v,
            PolarityVerdict::Vacuous {
                cause: VacuityCause::NoStepsRecorded,
                ..
            }
        ),
        "got {v:?}"
    );
}

#[test]
fn every_step_skipped_is_vacuous() {
    let v = classify_steps(&[
        StepOutcome::new("Checkout", StepConclusion::Skipped),
        StepOutcome::new("Build", StepConclusion::Skipped),
    ]);
    assert!(
        matches!(
            v,
            PolarityVerdict::Vacuous {
                cause: VacuityCause::AllStepsSkipped,
                ..
            }
        ),
        "got {v:?}"
    );
}

#[test]
fn a_check_whose_steps_ran_is_genuine() {
    let v = classify_steps(&[
        StepOutcome::new("Checkout", StepConclusion::Success),
        StepOutcome::new("Build", StepConclusion::Success),
    ]);
    assert_eq!(v, PolarityVerdict::Genuine, "got {v:?}");
}

#[test]
fn an_unmodelled_conclusion_is_not_a_skip() {
    assert_eq!(StepConclusion::parse(None), StepConclusion::Other);
    assert_eq!(StepConclusion::parse(Some("neutral")), StepConclusion::Other);
    assert_eq!(
        StepConclusion::parse(Some("skipped")),
        StepConclusion::Skipped
    );
}


#[test]
fn declared_and_unmatched_is_not_applicable() {
    let v = classify(
        &[],  // would otherwise be NoStepsRecorded — applicability wins
        &sig(),
        &Applicability {
            runs_for_operator_types: vec!["platform_maintainer".into()],
            runs_on_channels: vec![],
        },
        &RepoDeclaration {
            operator_type: Some("user".into()),
            channel: None,
        },
        ev(true, true, 1.0),
    );
    assert!(
        matches!(v, PolarityVerdict::NotApplicable { .. }),
        "inapplicable is not broken; got {v:?}"
    );
}

#[test]
fn an_unmatched_channel_is_also_not_applicable() {
    let v = classify(
        &[],
        &sig(),
        &Applicability {
            runs_for_operator_types: vec![],
            runs_on_channels: vec!["nightly".into(), "alpha".into()],
        },
        &RepoDeclaration {
            operator_type: None,
            channel: Some("release".into()),
        },
        ev(true, true, 1.0),
    );
    assert!(
        matches!(v, PolarityVerdict::NotApplicable { .. }),
        "got {v:?}"
    );
}

#[test]
fn undeclared_applicability_falls_through_to_the_signature() {
    let v = classify(
        &[
            StepOutcome::new("Run Hypatia scan", StepConclusion::Skipped),
            StepOutcome::new("Create stub findings", StepConclusion::Success),
        ],
        &sig(),
        &Applicability::default(),
        &RepoDeclaration {
            operator_type: Some("user".into()),
            channel: Some("release".into()),
        },
        ev(true, true, 1.0),
    );
    assert!(
        matches!(v, PolarityVerdict::Vacuous { .. }),
        "undeclared must not short-circuit; got {v:?}"
    );
}

#[test]
fn declared_and_matched_falls_through_to_the_signature() {
    let v = classify(
        &[
            StepOutcome::new("Run Hypatia scan", StepConclusion::Skipped),
            StepOutcome::new("Create stub findings", StepConclusion::Success),
        ],
        &sig(),
        &Applicability {
            runs_for_operator_types: vec!["developer".into()],
            runs_on_channels: vec!["alpha".into()],
        },
        &RepoDeclaration {
            operator_type: Some("developer".into()),
            channel: Some("alpha".into()),
        },
        ev(true, true, 1.0),
    );
    assert!(matches!(v, PolarityVerdict::Vacuous { .. }), "got {v:?}");
}

#[test]
fn a_repo_silent_on_the_key_cannot_contradict_a_declaration() {
    let v = classify(
        &[StepOutcome::new("Build", StepConclusion::Success)],
        &sig(),
        &Applicability {
            runs_on_channels: vec!["nightly".into()],
            runs_for_operator_types: vec![],
        },
        &RepoDeclaration::default(),
        ev(true, true, 0.0),
    );
    assert_eq!(v, PolarityVerdict::Genuine, "got {v:?}");
}


#[test]
fn absent_technology_recommends_removal() {
    assert_eq!(
        Recommendation::from_evidence(&ev(false, true, 1.0)),
        Recommendation::RecommendRemoval
    );
}

#[test]
fn a_tool_that_does_not_exist_upstream_is_a_declaration_bug() {
    assert_eq!(
        Recommendation::from_evidence(&ev(true, false, 1.0)),
        Recommendation::FixTheDeclaration
    );
}

#[test]
fn a_full_stub_rate_never_recommends_deletion() {
    for rate in [0.0, 0.25, 0.5, 1.0] {
        assert_eq!(
            Recommendation::from_evidence(&ev(true, true, rate)),
            Recommendation::MakeItGreatInPractice,
            "stub_rate {rate} must not change the recommendation"
        );
    }
}

#[test]
fn an_unmeasured_field_never_recommends_removal() {
    let unmeasured = Evidence {
        run_count: 1,
        stub_rate: hundredths(1.0),
        upstream_exists: None,
        target_tech_present: None,
    };
    assert_eq!(
        Recommendation::from_evidence(&unmeasured),
        Recommendation::MakeItGreatInPractice
    );
    assert!(
        unmeasured.describe().contains("target-tech-present=unmeasured"),
        "got `{}`",
        unmeasured.describe()
    );
}

#[test]
fn the_evidence_string_carries_all_four_required_fields() {
    let d = ev(true, true, 0.75).describe();
    for field in [
        "run-count",
        "stub-rate",
        "upstream-exists",
        "target-tech-present",
    ] {
        assert!(d.contains(field), "`{field}` missing from `{d}`");
    }
}


#[test]
fn a_vacuous_verdict_projects_to_a_gate_triage_escalation() {
    let v = classify_steps(&[
        StepOutcome::new("Run Hypatia scan", StepConclusion::Skipped),
        StepOutcome::new("Create stub findings", StepConclusion::Success),
    ]);
    let m = v.to_move("scan / hypatia").expect("vacuous must project");
    match m {
        Move::EscalateToExpert {
            check,
            group,
            obligation,
            evidence,
        } => {
            assert_eq!(check, "scan / hypatia");
            assert_eq!(group, ExpertGroup::GateTriage);
            assert_eq!(obligation, EscalationKind::AssessConfidence);
            assert!(evidence.contains("run-count"), "got `{evidence}`");
            assert!(evidence.contains("stub-rate"), "got `{evidence}`");
        }
        other => panic!("must never self-win; got {other:?}"),
    }
}

#[test]
fn genuine_and_not_applicable_project_to_nothing() {
    assert!(PolarityVerdict::Genuine.to_move("c").is_none());
    assert!(
        PolarityVerdict::NotApplicable {
            declaration: "d".into()
        }
        .to_move("c")
        .is_none()
    );
}


#[test]
fn classification_does_not_move_the_gate() {
    let gate = Gate::new(vec![
        RequiredCheck::new("scan / hypatia", CheckRun::Passed),
        RequiredCheck::new("build", CheckRun::Passed),
    ]);
    let before = gate.evaluate();
    assert_eq!(before, GateState::Green);

    let v = classify_steps(&[
        StepOutcome::new("Run Hypatia scan", StepConclusion::Skipped),
        StepOutcome::new("Create stub findings", StepConclusion::Success),
    ]);
    assert!(matches!(v, PolarityVerdict::Vacuous { .. }));
    let _ = v.to_move("scan / hypatia");

    assert_eq!(
        gate.evaluate(),
        before,
        "polarity classification must never move the proved gate state"
    );
}

#[test]
fn the_evidence_is_rendered_with_two_places() {
    assert_eq!(
        ev(true, false, 0.75).describe(),
        "run-count=4 stub-rate=0.75 upstream-exists=false target-tech-present=true"
    );
    let e = Evidence {
        run_count: 120,
        stub_rate: 105,
        upstream_exists: None,
        target_tech_present: Some(false),
    };
    assert_eq!(
        e.describe(),
        "run-count=120 stub-rate=1.05 upstream-exists=unmeasured target-tech-present=false"
    );
}

#[test]
fn the_escalation_of_a_vacuous_check_carries_cause_evidence_and_advice() {
    let m = classify_steps(&[]).to_move("c");
    assert_eq!(
        m,
        Some(Move::EscalateToExpert {
            check: "c".into(),
            group: ExpertGroup::GateTriage,
            obligation: EscalationKind::AssessConfidence,
            evidence: "green but vacuous (no steps recorded) — run-count=4 stub-rate=1.00 upstream-exists=true target-tech-present=true [make-it-great-in-practice]".into(),
        })
    );
}

#[test]
fn an_inapplicable_check_says_which_declaration_it_contradicts() {
    let v = classify(
        &[],
        &sig(),
        &Applicability {
            runs_for_operator_types: vec![],
            runs_on_channels: vec!["nightly".into(), "alpha".into()],
        },
        &RepoDeclaration {
            operator_type: None,
            channel: Some("release".into()),
        },
        ev(true, true, 1.0),
    );
    assert_eq!(
        v,
        PolarityVerdict::NotApplicable {
            declaration: "@channel=release not in [nightly, alpha]".into()
        }
    );
}

#[test]
fn a_set_is_borne_where_one_of_its_signatures_is() {
    let set = SignatureSet::new(vec![
        ScannerSignature {
            scanner: "one".into(),
            signature: VacuitySignature::new(&["scan one"], &["stub one"]),
        },
        ScannerSignature {
            scanner: "two".into(),
            signature: VacuitySignature::new(&["scan two"], &["stub two"]),
        },
    ]);
    let job = [
        StepOutcome::new("  scan two ", StepConclusion::Skipped),
        StepOutcome::new("stub two", StepConclusion::Success),
    ];
    assert_eq!(set.matching(&job).map(|s| s.scanner.as_str()), Some("two"));
    assert!(set.matches(&job));
    assert!(!set.matches(&job[..1]));
    assert!(!SignatureSet::new(vec![]).is_usable());
    assert!(!SignatureSet::single("half", VacuitySignature::new(&["a"], &[])).is_usable());
}

#[test]
fn each_conclusion_has_its_reading() {
    assert_eq!(StepConclusion::parse(Some("success")), StepConclusion::Success);
    assert_eq!(StepConclusion::parse(Some("failure")), StepConclusion::Failure);
    assert_eq!(StepConclusion::parse(Some("cancelled")), StepConclusion::Cancelled);
    assert_eq!(StepConclusion::parse(Some("SKIPPED")), StepConclusion::Other);
}

#[test]
fn causes_and_recommendations_have_labels() {
    assert_eq!(
        VacuityCause::StubbedAfterSkippedScan.label(),
        "stubbed after a skipped scan"
    );
    assert_eq!(VacuityCause::AllStepsSkipped.label(), "every step skipped");
    assert_eq!(Recommendation::RecommendRemoval.label(), "recommend-removal");
    assert_eq!(Recommendation::FixTheDeclaration.label(), "fix-the-declaration");
}
