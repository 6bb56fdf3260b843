use squabble::apply::ApplyOutcome;
use squabble::context::RepoContext;
use squabble::fetch::{ActionsPolicy, FetchBundle, GreenCheck, PolicyProbe};
use squabble::args::{
    gate_from_file, gate_source, parse_args, FightArgs, GateFile, GateSource, USAGE,
};
use squabble::fight::{record_applied, Fight};
use squabble::greens::{attach_vacuity, classify_greens, Inspection};
use squabble::plan::{RepoTree, TreeProbe};
use squabble::show::{is_showable, print_human, run_diagnose};
use squabble::summon::{SummonPoint, SummonStep};
use squabble::workflows::WorkflowFile;
use squabble::gate::{CheckRun, Gate, RequiredCheck};
use squabble::moves::{EscalationKind, ExpertGroup, Move, OwnershipDisposition};
use squabble::outcome::{
    AppliedChange, Escalation, LandingStrategy, Outcome, OwnerAssignment, Report,
};
use squabble::polarity::{
    Applicability, RepoDeclaration, SignatureSet, StepConclusion, StepOutcome, VacuitySignature,
};

fn args(words: &[&str]) -> Result<FightArgs, String> {
    let words: Vec<String> = words.iter().map(|w| w.to_string()).collect();
    parse_args(&words)
}

fn report() -> Report {
    Report {
        summary: "gate Red: sum".into(),
        unsatisfied: vec![],
        moves_attempted: vec![],
        escalations: vec![],
        owner_assignments: vec![],
        expert_verdicts: vec![],
        applied: vec![],
        blockers: vec!["b".into()],
    }
}

fn green() -> Outcome {
    Outcome::Green {
        landed_via: LandingStrategy::Rebase,
        moves_applied: vec![],
    }
}

#[test]
fn parse_args_accepts_summon_flag() {
    let args = parse_args(&[
        "hyperpolymath/ipv6-only".to_string(),
        "43".to_string(),
        "--summon".to_string(),
    ])
    .expect("parse");
    assert!(args.summon);
    assert_eq!(args.slug, "hyperpolymath/ipv6-only");
}

#[test]
fn parse_args_accepts_apply_flag_default_off() {
    let off = parse_args(&["o/r".to_string(), "1".to_string()]).expect("parse");
    assert!(!off.apply, "apply must default to propose-only");
    let on = parse_args(&["o/r".to_string(), "1".to_string(), "--apply".to_string()])
        .expect("parse");
    assert!(on.apply);
}

#[test]
fn parse_args_rejects_unknown_flags() {
    assert!(parse_args(&["o/r".to_string(), "--bogus".to_string()]).is_err());
}

#[test]
fn flags_may_stand_anywhere() {
    let a = args(&["--json", "--repo-root", "/x", "o/r", "--gate", "g.json", "7"]).expect("parse");
    assert_eq!(
        a,
        FightArgs {
            slug: "o/r".into(),
            pr: Some("7".into()),
            repo_root: "/x".into(),
            gate_file: Some("g.json".into()),
            json: true,
            summon: false,
            apply: false,
        }
    );
    assert_eq!(args(&["o/r"]).unwrap().repo_root, ".");
}

#[test]
fn each_mistake_in_the_arguments_has_its_message() {
    let with_usage = |m: &str| Err(format!("{m}\n{USAGE}"));
    assert_eq!(args(&[]), with_usage("missing <owner>/<repo>"));
    assert_eq!(args(&["or"]), with_usage("expected `owner/repo`, got `or`"));
    assert_eq!(args(&["o/r", "--gate"]), with_usage("--gate needs a value"));
    assert_eq!(args(&["--repo-root"]), with_usage("--repo-root needs a value"));
    assert_eq!(args(&["o/r", "--bogus"]), with_usage("unknown flag `--bogus`"));
    assert_eq!(args(&["o/r", "1", "2"]), with_usage("unexpected argument `2`"));
}

#[test]
fn a_gate_comes_from_a_file_or_from_a_pull_request() {
    assert_eq!(
        gate_source(&args(&["o/r", "1", "--gate", "g"]).unwrap()),
        Ok(GateSource::File { path: "g".into() })
    );
    assert_eq!(
        gate_source(&args(&["o/r", "1"]).unwrap()),
        Ok(GateSource::Live { pr: "1".into() })
    );
    assert_eq!(
        gate_source(&args(&["o/r"]).unwrap()),
        Err(format!(
            "need a PR number (live) or `--gate <file>` (offline).\n{USAGE}"
        ))
    );
    assert_eq!(
        gate_from_file("g", GateFile::Unreadable("gone".into())),
        Err("cannot read `g`: gone".to_string())
    );
    assert_eq!(
        gate_from_file("g", GateFile::Invalid("bad".into())),
        Err("`g` is not a valid gate: bad".to_string())
    );
    assert!(gate_from_file("g", GateFile::Gate(Gate::new(vec![]))).is_ok());
}

fn inspection(name: &str, steps: Result<Vec<StepOutcome>, String>) -> Inspection {
    Inspection {
        check: GreenCheck {
            name: name.into(),
            job_id: 1,
        },
        steps,
    }
}

fn hypatia() -> SignatureSet {
    SignatureSet::single(
        "hypatia",
        VacuitySignature::new(&["Run Hypatia scan"], &["Create stub findings"]),
    )
}

#[test]
fn every_green_check_is_judged_or_noted() {
    let greens = vec![
        inspection("gone", Err("HTTP 500".into())),
        inspection("bare", Ok(vec![])),
        inspection(
            "stubbed",
            Ok(vec![
                StepOutcome::new("Run Hypatia scan", StepConclusion::Skipped),
                StepOutcome::new("Create stub findings", StepConclusion::Success),
            ]),
        ),
        inspection(
            "ran",
            Ok(vec![StepOutcome::new("Build", StepConclusion::Success)]),
        ),
        inspection(
            "skipped",
            Ok(vec![StepOutcome::new("Build", StepConclusion::Skipped)]),
        ),
    ];
    let (moves, notes) = classify_greens(
        &greens,
        &hypatia(),
        &Applicability::default(),
        &RepoDeclaration::default(),
    );
    assert_eq!(
        notes,
        vec![
            "squabble fight: could not inspect green check `gone`: HTTP 500",
            "squabble fight: green check `bare` recorded no steps — not inspectable, not judged",
        ]
    );
    let lines: Vec<String> = moves.iter().map(Move::describe).collect();
    assert_eq!(
        lines,
        vec![
            "escalate `stubbed` to gate-triage (owner assessment) [assess-confidence] — green but vacuous (stubbed after a skipped scan) — run-count=1 stub-rate=1.00 upstream-exists=unmeasured target-tech-present=unmeasured [make-it-great-in-practice]",
            "escalate `skipped` to gate-triage (owner assessment) [assess-confidence] — green but vacuous (every step skipped) — run-count=1 stub-rate=0.00 upstream-exists=unmeasured target-tech-present=unmeasured [make-it-great-in-practice]",
        ]
    );
    let nothing = classify_greens(
        &greens,
        &SignatureSet::new(vec![]),
        &Applicability::default(),
        &RepoDeclaration::default(),
    );
    assert_eq!(nothing, (vec![], vec![]));
}

#[test]
fn findings_join_the_escalations_of_a_red_outcome() {
    let moves = vec![Move::EscalateToExpert {
        check: "c".into(),
        group: ExpertGroup::GateTriage,
        obligation: EscalationKind::AssessConfidence,
        evidence: "e".into(),
    }];
    let (outcome, lines) = attach_vacuity(Outcome::Red { report: report() }, &moves);
    assert!(lines.is_empty());
    match outcome {
        Outcome::Red { report } => assert_eq!(report.escalations.len(), 1),
        other => panic!("{other:?}"),
    }
    let (outcome, lines) = attach_vacuity(green(), &moves);
    assert_eq!(outcome, green());
    assert_eq!(lines.len(), 2);
    assert!(lines[0].starts_with("squabble fight: 1 green check(s) are vacuous"));
    assert_eq!(
        lines[1],
        "  - escalate `c` to gate-triage (owner assessment) [assess-confidence] — e"
    );
    assert_eq!(attach_vacuity(green(), &vec![]), (green(), vec![]));
}

#[test]
fn what_was_applied_is_recorded() {
    let change = AppliedChange {
        move_kind: "k".into(),
        file: "f".into(),
        detail: "d".into(),
    };
    let done = record_applied(
        Outcome::Red { report: report() },
        ApplyOutcome {
            applied: vec![change.clone(), change],
            skipped: vec!["s".into()],
        },
    );
    match done {
        Outcome::Red { report } => {
            assert_eq!(report.applied.len(), 2);
            let last = ["applied 2 self-win move(s) to the working tree — re-run CI to confirm the ", "gate; nothing was committed or pushed (that is the operator's step)"].concat();
            assert_eq!(report.blockers, vec!["b".to_string(), "s".to_string(), last]);
        }
        other => panic!("{other:?}"),
    }
    match record_applied(
        Outcome::Red { report: report() },
        ApplyOutcome { applied: vec![], skipped: vec![] },
    ) {
        Outcome::Red { report } => assert_eq!(report.blockers, vec!["b"]),
        other => panic!("{other:?}"),
    }
}

#[test]
fn an_outcome_is_shown_section_by_section() {
    let mut r = report();
    r.moves_attempted.push(Move::ResolveAndRerun { branch: "x".into() });
    r.applied.push(AppliedChange {
        move_kind: "k".into(),
        file: "f".into(),
        detail: "d".into(),
    });
    r.escalations.push(Escalation {
        check: "c".into(),
        group: ExpertGroup::Proof,
        obligation: EscalationKind::VerifyClaim,
        evidence: "e".into(),
    });
    r.owner_assignments.push(OwnerAssignment {
        check: "c".into(),
        owner: "o".into(),
        disposition: OwnershipDisposition::Ownerless,
        rationale: "r".into(),
    });
    let outcome = Outcome::Red { report: r };
    assert!(is_showable(&outcome));
    let context = RepoContext::load(
        "coordination = \"a/b\"\nnot = [\"x\", \"y\"]\n",
        "",
        "",
        "",
    );
    assert_eq!(
        print_human("o/r", &context, &outcome),
        vec![
            "squabble fight o/r",
            "  gate Red: sum",
            "  context: coordinates with `a/b`",
            "  identity: 2 IS-NOT boundaries read from a2ml",
            "\n  self-win moves (squabbler's lane):",
            "    - resolve conflicts on `x` and re-run",
            "\n  applied to the working tree (no commit/push — operator's step):",
            "    - f: d",
            "\n  escalations (call in the big guns):",
            "    - `c` → proof (echidna) [verify-claim]: e",
            "\n  owner assignments (into the debate):",
            "    - `c` → `o` [ownerless]: r",
        ]
    );
    assert_eq!(
        print_human("o/r", &RepoContext::default(), &Outcome::Red { report: report() }),
        vec![
            "squabble fight o/r",
            "  gate Red: sum",
            "  context: no .machine_readable/ descriptiles found — using workflow ground-truth only",
        ]
    );
    assert_eq!(print_human("o/r", &context, &green()), vec!["gate won."]);
}

#[test]
fn an_outcome_with_an_indescribable_move_is_not_showable() {
    let mut r = report();
    r.moves_attempted.push(Move::RepinReusableWorkflow {
        reference: "r".into(),
        from_sha: "123456é".into(),
        to_sha: "1".into(),
    });
    assert!(!is_showable(&Outcome::Red { report: r }));
}

#[test]
fn a_diagnosis_is_shown_line_by_line() {
    let gate = Gate::new(vec![
        RequiredCheck::new("a", CheckRun::Missing),
        RequiredCheck::new("reuse", CheckRun::Pending),
    ]);
    assert_eq!(
        run_diagnose("g", GateFile::Gate(gate)),
        Ok(vec![
            "gate state: Blocked".to_string(),
            "proposed legitimate moves (2):".to_string(),
            "  - ground-truth emitted check names for `(emitting `a`)`".to_string(),
            "  - licence-policy `reuse`: ground-truth the concrete violation (REUSE / check-spdx) [unknown until ground-truthed]".to_string(),
        ])
    );
    let green = Gate::new(vec![RequiredCheck::new("a", CheckRun::Passed)]);
    assert_eq!(
        run_diagnose("g", GateFile::Gate(green)),
        Ok(vec![
            "gate state: Green".to_string(),
            "no moves proposed — gate is satisfied or has no work the engine recognises.".to_string(),
        ])
    );
    assert_eq!(
        run_diagnose("g", GateFile::Invalid("bad".into())),
        Err("squabble: `g` is not a valid gate: bad".to_string())
    );
    assert_eq!(
        run_diagnose("g", GateFile::Unreadable("gone".into())),
        Err("squabble: cannot read `g`: gone".to_string())
    );
}

#[test]
fn a_fight_from_plan_to_report() {
    let tree = RepoTree {
        root: "/repo".into(),
        ecosystem: String::new(),
        clade: String::new(),
        anchor: String::new(),
        agentic: String::new(),
        workflows: vec![WorkflowFile {
            name: "lint.yml".into(),
            file: "lint.yml".into(),
            extension: Some("yml".into()),
            text: Some("on:\n  push:\n    paths: [a]\njobs:\n  lint:\n".into()),
        }],
        probe: TreeProbe::default(),
    };
    let gate = Gate::new(vec![RequiredCheck::new("lint", CheckRun::Missing)]);
    let fight = Fight::begin("o/r", &gate, &tree);
    let pass = Move::InjectPathFilterPassThrough {
        check: "lint".into(),
        workflow: "lint.yml".into(),
    };
    assert_eq!(fight.self_wins(), vec![pass]);

    let (fight, said) = fight.weigh_greens(
        &vec![
            inspection("bare", Ok(vec![])),
            inspection(
                "skipped",
                Ok(vec![StepOutcome::new("Build", StepConclusion::Skipped)]),
            ),
        ],
        &hypatia(),
        &Applicability::default(),
        &RepoDeclaration::default(),
    );
    assert_eq!(said.len(), 1);

    let fight = fight.record(ApplyOutcome {
        applied: vec![AppliedChange {
            move_kind: "k".into(),
            file: "lint.yml".into(),
            detail: "d".into(),
        }],
        skipped: vec![],
    });
    let (fight, step) = fight.summon_experts(SummonPoint::Start);
    assert_eq!(step, SummonStep::AskReady);
    let (fight, step) = fight.summon_experts(SummonPoint::Ready {
        root: Ok("/repo".into()),
        health: Ok("{}".into()),
    });
    assert_eq!(step, SummonStep::Finished);

    let lines = fight.lines();
    assert_eq!(
        &lines[..3],
        &[
            "squabble fight o/r",
            "  gate Blocked: 1 unsatisfied — 1 self-win, 0 escalated, 0 owner-assigned",
            "  context: no .machine_readable/ descriptiles found — using workflow ground-truth only",
        ]
    );
    assert!(lines.iter().any(|l| l == "    - lint.yml: d"));
    match fight.into_outcome() {
        Outcome::Red { report } => {
            assert_eq!(report.escalations.len(), 1);
            assert!(report.escalations[0].evidence.contains("not dispatched"));
            assert_eq!(report.blockers.len(), 3);
        }
        other => panic!("{other:?}"),
    }
}

#[test]
fn a_fight_goes_by_what_was_fetched() {
    let tree = RepoTree {
        root: "/repo".into(),
        ecosystem: String::new(),
        clade: String::new(),
        anchor: String::new(),
        agentic: String::new(),
        workflows: vec![WorkflowFile {
            name: "lint.yml".into(),
            file: "lint.yml".into(),
            extension: Some("yml".into()),
            text: Some("jobs:\n  lint:\n    steps:\n      - uses: o/lint@v1\n".into()),
        }],
        probe: TreeProbe::default(),
    };
    let mut bundle = FetchBundle {
        gate: Gate::new(vec![RequiredCheck::new("lint", CheckRun::Failed)]),
        greens: vec![],
        startup_failed: vec!["lint".into()],
        policy_probe: PolicyProbe::Fetched(ActionsPolicy {
            allowed_actions: "selected".into(),
            sha_pinning_required: false,
            github_owned_allowed: true,
            patterns_allowed: vec![],
        }),
    };
    let (fight, note) = Fight::begin_fetched("o/r", &bundle, &tree);
    assert_eq!(note, None);
    assert_eq!(fight.self_wins(), vec![Move::SetActionsAllowedAll]);
    assert_eq!(fight.lines()[0], "squabble fight o/r");

    bundle.policy_probe = PolicyProbe::Failed("HTTP 403".into());
    let (fight, note) = Fight::begin_fetched("o/r", &bundle, &tree);
    assert!(note.unwrap().contains("HTTP 403"));
    let plain = Fight::begin("o/r", &bundle.gate, &tree);
    assert_eq!(fight.into_outcome(), plain.into_outcome());
}

#[test]
fn a_red_outcome_takes_any_move() {
    let odd = Move::RepinReusableWorkflow {
        reference: "o/r/w.yml".into(),
        from_sha: "123456ä".into(),
        to_sha: "1234567".into(),
    };
    assert!(!odd.is_describable());
    let (outcome, _) = attach_vacuity(Outcome::Red { report: report() }, &vec![odd]);
    match outcome {
        Outcome::Red { report } => assert_eq!(report.summary, "gate Red: sum"),
        other => panic!("expected Red, got {other:?}"),
    }
}
