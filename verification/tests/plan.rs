use squabble::context::RepoContext;
use squabble::gate::{CheckRun, Gate, RequiredCheck};
use squabble::moves::{Move, OwnershipDisposition};
use squabble::outcome::{Outcome, Report};
use squabble::fetch::{ActionsPolicy, FetchBundle, PolicyProbe};
use squabble::plan::{
    plan, plan_at_root, plan_bundle_at_root, plan_ungrounded, plan_with_startup, RepoTree,
    StartupFacts, TreeProbe,
};
use squabble::workflows::{ActionsPolicyFacts, WorkflowFacts, WorkflowFile, WorkflowInfo, WorkflowKind};

fn pr43_gate() -> Gate {
    Gate::new(vec![
        RequiredCheck::new("lint-shell", CheckRun::Failed),
        RequiredCheck::new("container-build", CheckRun::Failed),
        RequiredCheck::new("lint-workflows", CheckRun::Failed),
        RequiredCheck::new("governance / Workflow security linter", CheckRun::Failed),
        RequiredCheck::new("governance / Well-Known (RFC 9116 + RSR)", CheckRun::Failed),
        RequiredCheck::new("check", CheckRun::Passed),
    ])
}

fn wf(
    file: &str,
    name: &str,
    job_ids: &[&str],
    reusable: &[&str],
    path_filtered: bool,
    kind: WorkflowKind,
) -> WorkflowInfo {
    WorkflowInfo {
        file: file.to_string(),
        name: Some(name.to_string()),
        job_ids: job_ids.iter().map(|s| s.to_string()).collect(),
        job_names: vec![],
        reusable_repos: reusable.iter().map(|s| s.to_string()).collect(),
        external_uses: vec![],
        tag_pinned_uses: vec![],
        path_filtered,
        retired_descriptile_policy: false,
        empty_jobs: false,
        kind,
    }
}

fn pr43_facts() -> WorkflowFacts {
    WorkflowFacts {
        workflows: vec![
            wf(
                "ci.yml",
                "CI",
                &["lint-shell", "container-build"],
                &[],
                false,
                WorkflowKind::CodeBuild,
            ),
            wf(
                "workflow-linter.yml",
                "Workflow Security Linter",
                &["lint-workflows"],
                &[],
                true,
                WorkflowKind::Hygiene,
            ),
            wf(
                "governance.yml",
                "Governance",
                &["governance"],
                &["hyperpolymath/standards"],
                false,
                WorkflowKind::Other,
            ),
        ],
    }
}

fn empty_tree(root: &str) -> RepoTree {
    RepoTree {
        root: root.into(),
        ecosystem: String::new(),
        clade: String::new(),
        anchor: String::new(),
        agentic: String::new(),
        workflows: vec![],
        probe: TreeProbe::default(),
    }
}

fn red(outcome: Outcome) -> Report {
    match outcome {
        Outcome::Red { report } => report,
        other => panic!("expected Red plan, got {other:?}"),
    }
}

#[test]
fn classifies_all_five_reds_of_pr43() {
    let gate = pr43_gate();
    let ctx = RepoContext::default();
    let facts = pr43_facts();
    let report = red(plan(
        &gate,
        "hyperpolymath/ipv6-only",
        "/nonexistent",
        &ctx,
        &facts,
        &TreeProbe::default(),
    ));
    assert!(report.escalations.iter().any(|e| e.check == "lint-shell"));
    assert!(report
        .escalations
        .iter()
        .any(|e| e.check == "container-build"));
    assert!(report
        .owner_assignments
        .iter()
        .any(|o| o.check.contains("Well-Known") && o.owner == "hyperpolymath/standards"));
    assert!(report
        .owner_assignments
        .iter()
        .any(|o| o.check.contains("Workflow security linter")
            && o.owner == "hyperpolymath/standards"));
    assert!(report
        .moves_attempted
        .iter()
        .any(|m| matches!(m, Move::GroundTruthCheckNames { .. })));
    assert!(!report
        .unsatisfied
        .iter()
        .any(|c| c.required_context == "check"));
}

#[test]
fn plan_at_root_is_fail_safe_on_missing_root() {
    let gate = pr43_gate();
    let (ctx, out) = plan_at_root(&gate, "hyperpolymath/ipv6-only", &empty_tree("/nonexistent"));
    assert!(!ctx.found);
    let report = red(out);
    assert_eq!(report.blockers.len(), report.unsatisfied.len() + 1);
    assert!(report
        .blockers
        .iter()
        .any(|b| b.contains("ground-truth absent")));
}

#[test]
fn plan_ungrounded_never_reads_the_cwd() {
    let gate = pr43_gate();
    let report = red(plan_ungrounded(&gate, "hyperpolymath/ipv6-only"));
    assert!(report
        .blockers
        .iter()
        .any(|b| b.contains("ground-truth absent")));
    assert!(!report
        .owner_assignments
        .iter()
        .any(|o| matches!(&o.disposition, OwnershipDisposition::MisconfiguredGate { detail } if detail.contains("AGPL"))));
}

#[test]
fn the_whole_report_of_the_five_reds() {
    let report = red(plan(
        &pr43_gate(),
        "hyperpolymath/ipv6-only",
        "/nonexistent",
        &RepoContext::default(),
        &pr43_facts(),
        &TreeProbe::default(),
    ));
    assert_eq!(
        report.summary,
        "gate Red: 5 unsatisfied — 1 self-win, 3 escalated, 3 owner-assigned"
    );
    assert_eq!(
        report.blockers,
        vec![
            "`lint-shell`: escalated to hypatia+fleet (analyse+fix)",
            "`container-build`: escalated to hypatia+fleet (analyse+fix)",
            "`lint-workflows`: self-win — ground-truth emitted check names for `workflow-linter.yml`",
            "`governance / Workflow security linter`: owned-upstream → `hyperpolymath/standards`",
            "`governance / Well-Known (RFC 9116 + RSR)`: owned-upstream → `hyperpolymath/standards`",
        ]
    );
    assert_eq!(
        report.escalations[2].evidence,
        "missing .well-known/ai.txt, .well-known/humans.txt — likely underlying cause; content authoring, out of lane"
    );
    let trap = &report.owner_assignments[2];
    assert_eq!(trap.check, "Workflow Security Linter");
    assert_eq!(trap.owner, "hyperpolymath/ipv6-only");
    assert_eq!(
        trap.disposition,
        OwnershipDisposition::MisconfiguredGate {
            detail: "`workflow-linter.yml` is path-filtered (on.*.paths); if required, off-path PRs strand it as Expected → blocked".into()
        }
    );
    assert!(report.expert_verdicts.is_empty() && report.applied.is_empty());
}

#[test]
fn a_checkout_grounds_the_plan() {
    let mut tree = empty_tree("/repo");
    tree.ecosystem = "coordination = \"standards\"\n".into();
    tree.workflows = vec![
        WorkflowFile {
            name: "security.yml".into(),
            file: "security.yml".into(),
            extension: Some("yml".into()),
            text: Some("on:\n  push:\n    paths: [a]\njobs:\n  scan:\n    steps: []\n".into()),
        },
        WorkflowFile {
            name: "notes.txt".into(),
            file: "notes.txt".into(),
            extension: Some("txt".into()),
            text: Some("name: scan\n".into()),
        },
    ];
    tree.probe = TreeProbe {
        has_ai_txt: true,
        has_humans_txt: false,
        containerfile: Some("LABEL licence=AGPL-3.0".into()),
        dockerfile: Some("LABEL licence=MPL-2.0".into()),
    };
    let gate = Gate::new(vec![
        RequiredCheck::new("scan", CheckRun::Missing),
        RequiredCheck::new("Well-Known files", CheckRun::Failed),
    ]);
    let (context, outcome) = plan_at_root(&gate, "o/r", &tree);
    assert!(context.found);
    let report = red(outcome);
    assert_eq!(
        report.moves_attempted,
        vec![
            Move::InjectPathFilterPassThrough {
                check: "scan".into(),
                workflow: "security.yml".into(),
            },
            Move::GroundTruthCheckNames {
                workflow: "(emitting `Well-Known files`)".into(),
            },
        ]
    );
    assert_eq!(report.blockers.len(), 2);
    assert_eq!(report.escalations.len(), 1);
    assert!(report.escalations[0].evidence.starts_with("missing .well-known/humans.txt —"));
    let owners: Vec<(&str, &str)> = report
        .owner_assignments
        .iter()
        .map(|o| (o.check.as_str(), o.owner.as_str()))
        .collect();
    assert_eq!(
        owners,
        vec![("security.yml", "hyperpolymath/standards"), ("container-build", "o/r")]
    );
    assert_eq!(
        report.summary,
        "gate Blocked: 2 unsatisfied — 2 self-win, 1 escalated, 2 owner-assigned"
    );
}

#[test]
fn the_last_of_two_checks_of_one_name_gives_the_hint() {
    let facts = WorkflowFacts {
        workflows: vec![wf("a.yml", "A", &["dup"], &[], true, WorkflowKind::Hygiene)],
    };
    let gate = Gate::new(vec![
        RequiredCheck::new("dup", CheckRun::Failed),
        RequiredCheck::new("dup", CheckRun::Missing),
    ]);
    let report = red(plan(
        &gate,
        "o/r",
        "/",
        &RepoContext::default(),
        &facts,
        &TreeProbe::default(),
    ));
    let pass = Move::InjectPathFilterPassThrough {
        check: "dup".into(),
        workflow: "a.yml".into(),
    };
    assert_eq!(report.moves_attempted, vec![pass.clone(), pass]);
}

#[test]
fn a_green_gate_has_an_empty_plan() {
    let gate = Gate::new(vec![RequiredCheck::new("a", CheckRun::Passed)]);
    let report = red(plan_ungrounded(&gate, "o/r"));
    assert_eq!(
        report.summary,
        "gate Green: 0 unsatisfied — 0 self-win, 0 escalated, 0 owner-assigned"
    );
    assert_eq!(report.blockers.len(), 1);
}

fn scanning_tree() -> RepoTree {
    let mut tree = empty_tree("/repo");
    tree.workflows = vec![WorkflowFile {
        name: "scan.yml".into(),
        file: "scan.yml".into(),
        extension: Some("yml".into()),
        text: Some(
            "jobs:\n  scan:\n    steps:\n      - uses: o/gitleaks@v2\n".into(),
        ),
    }];
    tree
}

fn posture(allowed: &str, sha_pinning_required: bool, patterns: &[&str]) -> PolicyProbe {
    PolicyProbe::Fetched(ActionsPolicy {
        allowed_actions: allowed.into(),
        sha_pinning_required,
        github_owned_allowed: true,
        patterns_allowed: patterns.iter().map(|p| p.to_string()).collect(),
    })
}

fn bundle(startup_failed: &[&str], policy_probe: PolicyProbe) -> FetchBundle {
    FetchBundle {
        gate: Gate::new(vec![RequiredCheck::new("scan", CheckRun::Failed)]),
        greens: vec![],
        startup_failed: startup_failed.iter().map(|c| c.to_string()).collect(),
        policy_probe,
    }
}

fn planned(bundle: &FetchBundle) -> Report {
    let (_, outcome, note) = plan_bundle_at_root(bundle, "o/r", &scanning_tree());
    assert_eq!(note, None);
    red(outcome)
}

#[test]
fn a_refusal_by_an_empty_allowlist_reaches_the_plan() {
    let report = planned(&bundle(&["scan"], posture("selected", false, &[])));
    assert_eq!(report.moves_attempted, vec![Move::SetActionsAllowedAll]);
    assert!(report.escalations.iter().all(|e| e.check != "scan"));
}

#[test]
fn a_refusal_by_a_gap_in_the_allowlist_reaches_the_plan() {
    let report = planned(&bundle(&["scan"], posture("selected", false, &["x/y@*"])));
    assert_eq!(
        report.moves_attempted,
        vec![Move::ReconcileActionsPolicy {
            blocked_ref: "o/gitleaks".into(),
            add_patterns: vec!["o/gitleaks@*".into()],
        }]
    );
}

#[test]
fn a_refusal_of_a_tag_reaches_the_plan() {
    let report = planned(&bundle(&["scan"], posture("all", true, &[])));
    assert_eq!(
        report.moves_attempted,
        vec![Move::PinWorkflowActions {
            workflow: "scan.yml".into(),
            refs: vec!["o/gitleaks@v2".into()],
        }]
    );
}

#[test]
fn a_policy_that_no_failure_was_seen_under_is_of_no_account() {
    let (_, plain) = plan_at_root(
        &Gate::new(vec![RequiredCheck::new("scan", CheckRun::Failed)]),
        "o/r",
        &scanning_tree(),
    );
    let plain = red(plain);
    assert!(plain.moves_attempted.is_empty());
    assert!(plain.escalations.iter().any(|e| e.check == "scan"));
    assert_eq!(planned(&bundle(&[], posture("selected", true, &[]))), plain);
    assert_eq!(planned(&bundle(&["other"], posture("selected", true, &[]))), plain);
    assert_eq!(planned(&bundle(&["scan"], PolicyProbe::NotTriggered)), plain);
}

#[test]
fn a_failed_probe_is_noted_and_the_check_classified_without_it() {
    let failed = bundle(&["scan"], PolicyProbe::Failed("HTTP 403".into()));
    let (context, outcome, note) = plan_bundle_at_root(&failed, "o/r", &scanning_tree());
    assert!(!context.found);
    assert_eq!(
        note.as_deref(),
        Some("squabble fight: could not read the Actions policy behind a startup failure: HTTP 403 — classifying without it")
    );
    let (_, plain) = plan_at_root(&failed.gate, "o/r", &scanning_tree());
    assert_eq!(outcome, plain);
}

#[test]
fn startup_facts_come_from_the_bundle() {
    assert_eq!(
        StartupFacts::of_bundle(&bundle(&["scan", "lint"], posture("selected", true, &["x/*"]))),
        StartupFacts {
            policy: Some(ActionsPolicyFacts {
                allowed_actions: "selected".into(),
                sha_pinning_required: true,
                github_owned_allowed: true,
                patterns_allowed: vec!["x/*".into()],
            }),
            startup_failed: vec!["scan".into(), "lint".into()],
        }
    );
    assert_eq!(
        StartupFacts::of_bundle(&bundle(&["scan"], PolicyProbe::Failed("e".into()))).policy,
        None
    );
    let none = StartupFacts::default();
    assert!(none.policy.is_none() && none.startup_failed.is_empty());
    let facts = WorkflowFacts::load(&scanning_tree().workflows);
    let gate = Gate::new(vec![RequiredCheck::new("scan", CheckRun::Failed)]);
    let context = RepoContext::default();
    let probe = TreeProbe::default();
    assert_eq!(
        plan_with_startup(&gate, "o/r", "/repo", &context, &facts, &probe, &none),
        plan(&gate, "o/r", "/repo", &context, &facts, &probe)
    );
}
