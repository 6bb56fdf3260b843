use squabble::moves::{
    EscalationKind, ExpertGroup, LicenceFinding, LicenceResolution, Move, OwnershipDisposition,
};

fn all_moves() -> Vec<Move> {
    vec![
        Move::ReconcileRequiredContext {
            required: "gitleaks".into(),
            emitted: "scan / gitleaks".into(),
        },
        Move::InjectPathFilterPassThrough {
            check: "build".into(),
            workflow: "ci.yml".into(),
        },
        Move::RepinReusableWorkflow {
            reference: "org/wf/.github/workflows/x.yml".into(),
            from_sha: "deadbeefdeadbeef".into(),
            to_sha: "cafebabecafebabe".into(),
        },
        Move::ResolveAndRerun {
            branch: "feat/x".into(),
        },
        Move::GroundTruthCheckNames {
            workflow: "ci.yml".into(),
        },
        Move::LicencePolicyDrift {
            check: "licence-policy / spdx-headers".into(),
            finding: LicenceFinding::NeedsGroundTruth,
        },
        Move::FlagNonFunctionalGate {
            check: "validate-hypatia-baseline".into(),
            evidence: "main has failed this check for 5+ days independent of any PR".into(),
        },
        Move::EscalateToExpert {
            check: "lint-shell".into(),
            group: ExpertGroup::HypatiaFleet,
            obligation: EscalationKind::DispatchFix,
            evidence: "ShellCheck findings in src/scripts/*.sh — a code fix, out of lane".into(),
        },
        Move::AssignGateOwner {
            check: "governance / Well-Known (RFC 9116 + RSR)".into(),
            owner: "hyperpolymath/standards".into(),
            disposition: OwnershipDisposition::OwnedUpstream {
                repo: "hyperpolymath/standards".into(),
            },
            rationale: "produced by the reusable governance workflow; fix belongs upstream".into(),
        },
        Move::SetActionsAllowedAll,
        Move::ReconcileActionsPolicy {
            blocked_ref: "o/r".into(),
            add_patterns: vec!["o/r@*".into(), "p/*".into()],
        },
        Move::PinWorkflowActions {
            workflow: "ci.yml".into(),
            refs: vec!["o/r@v1".into()],
        },
    ]
}

#[test]
fn every_move_is_legitimate_by_construction() {
    assert!(all_moves().iter().all(Move::is_legitimate));
}

#[test]
fn licence_resolution_respects_the_manual_only_rule() {
    assert_eq!(
        LicenceFinding::HeaderDrift {
            files: vec!["README.md".into()],
            expected: "CC-BY-SA-4.0".into()
        }
        .resolution(),
        LicenceResolution::OwnerManual
    );
    assert_eq!(
        LicenceFinding::MissingLicenceText {
            missing: vec!["CC-BY-SA-4.0.txt".into()]
        }
        .resolution(),
        LicenceResolution::AuthorAllowed
    );
    assert_eq!(
        LicenceFinding::RootDisplayMismatch {
            found: "AGPL-3.0".into()
        }
        .resolution(),
        LicenceResolution::AuthorNewRepoElseOwnerManual
    );
    assert_eq!(
        LicenceFinding::NeedsGroundTruth.resolution(),
        LicenceResolution::Unknown
    );
}

#[test]
fn each_move_is_described_in_one_line() {
    let lines: Vec<String> = all_moves().iter().map(Move::describe).collect();
    assert_eq!(
        lines,
        vec![
            "reconcile required context `gitleaks` → emitted name `scan / gitleaks`",
            "inject path-filter pass-through for `build` in `ci.yml`",
            "re-pin `org/wf/.github/workflows/x.yml` deadbee → cafebab",
            "resolve conflicts on `feat/x` and re-run",
            "ground-truth emitted check names for `ci.yml`",
            "licence-policy `licence-policy / spdx-headers`: ground-truth the concrete violation (REUSE / check-spdx) [unknown until ground-truthed]",
            "flag `validate-hypatia-baseline` as non-functional (unfixable from the PR side) — main has failed this check for 5+ days independent of any PR",
            "escalate `lint-shell` to hypatia+fleet (analyse+fix) [dispatch-fix] — ShellCheck findings in src/scripts/*.sh — a code fix, out of lane",
            "assign `governance / Well-Known (RFC 9116 + RSR)` → `hyperpolymath/standards` [owned upstream in `hyperpolymath/standards`] — produced by the reusable governance workflow; fix belongs upstream",
            "set allowed_actions to `all` (SHA pinning kept) so the run can start",
            "allow blocked action `o/r`: add patterns o/r@*, p/*",
            "pin actions in `ci.yml` to full SHAs: o/r@v1",
        ]
    );
    assert!(all_moves().iter().all(Move::is_describable));
    assert_eq!(all_moves().to_vec(), all_moves());
}

#[test]
fn a_short_revision_is_shown_whole() {
    let m = Move::RepinReusableWorkflow {
        reference: "r".into(),
        from_sha: "abc".into(),
        to_sha: "1234567".into(),
    };
    assert_eq!(m.describe(), "re-pin `r` abc → 1234567");
}

#[test]
fn a_revision_that_would_be_cut_inside_a_character_is_not_describable() {
    let m = Move::RepinReusableWorkflow {
        reference: "r".into(),
        from_sha: "abcdefé".into(),
        to_sha: "x".into(),
    };
    assert!(!m.is_describable());
}

#[test]
fn licence_findings_are_described() {
    let drift = |finding| Move::LicencePolicyDrift { check: "c".into(), finding }.describe();
    assert_eq!(
        drift(LicenceFinding::MissingLicenceText {
            missing: vec!["A.txt".into(), "B.txt".into()]
        }),
        "licence-policy `c`: LICENSES/ missing A.txt, B.txt [author-allowed: add canonical text]"
    );
    assert_eq!(
        drift(LicenceFinding::RootDisplayMismatch { found: "MIT".into() }),
        "licence-policy `c`: root LICENSE is `MIT`; estate display is MPL-2.0 [author for a new repo, else owner-manual]"
    );
    assert_eq!(
        drift(LicenceFinding::HeaderDrift {
            files: vec!["x".into(); 12],
            expected: "MPL-2.0".into()
        }),
        "licence-policy `c`: 12 file(s) need per-file SPDX `MPL-2.0` [owner-manual (A2): flag only, never auto-edit]"
    );
}

#[test]
fn dispositions_are_labelled_and_described() {
    let assign = |disposition| {
        Move::AssignGateOwner {
            check: "c".into(),
            owner: "o".into(),
            disposition,
            rationale: "r".into(),
        }
        .describe()
    };
    assert_eq!(
        OwnershipDisposition::ShouldBeAddedToCi.label(),
        "should-be-added-to-ci"
    );
    assert_eq!(OwnershipDisposition::Ownerless.label(), "ownerless");
    assert_eq!(
        OwnershipDisposition::OwnedUpstream { repo: "r".into() }.label(),
        "owned-upstream"
    );
    assert_eq!(
        assign(OwnershipDisposition::ShouldBeAddedToCi),
        "assign `c` → `o` [should be added to CI] — r"
    );
    assert_eq!(
        assign(OwnershipDisposition::MisconfiguredGate { detail: "d".into() }),
        "assign `c` → `o` [misconfigured gate: d] — r"
    );
    assert_eq!(
        assign(OwnershipDisposition::Ownerless),
        "assign `c` → `o` [no current owner] — r"
    );
}

#[test]
fn groups_and_obligations_have_labels() {
    assert_eq!(ExpertGroup::Hypatia.label(), "hypatia (analysis)");
    assert_eq!(ExpertGroup::Proof.label(), "proof (echidna)");
    assert_eq!(ExpertGroup::Security.label(), "security (panic-attack)");
    assert_eq!(EscalationKind::AssessConfidence.label(), "assess-confidence");
    assert_eq!(EscalationKind::VerifyClaim.label(), "verify-claim");
    assert_eq!(EscalationKind::Scan.label(), "scan");
}
