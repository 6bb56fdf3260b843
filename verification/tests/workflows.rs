use squabble::gate::{CheckRun, RequiredCheck};
use squabble::moves::{ExpertGroup, Move};
use squabble::retired_policy::{
    command_has_retired_policy, decoded_scalar_has_retired_policy, has_retired_descriptile_policy,
    inline_has_retired_policy, script_has_retired_policy,
};
use squabble::workflow_file::{has_empty_jobs, has_path_filter, parse_workflow};
use squabble::workflows::{comes_before, ActionsPolicyFacts, WorkflowFacts, WorkflowFile, WorkflowKind};

const CI: &str = r#"
name: CI
on:
  pull_request:
    branches: [ main ]
permissions: read-all
jobs:
  lint-shell:
    runs-on: ubuntu-latest
    steps:
    - uses: actions/checkout@9c091bb21b7c1c1d1991bb908d89e4e9dddfe3e0
    - name: Run ShellCheck
      uses: ludeeus/action-shellcheck@00cae500b08a931fb5698e11e79bfbd38e612a38
  container-build:
    runs-on: ubuntu-latest
    steps:
    - run: podman build -t x -f Containerfile .
"#;

const GOVERNANCE: &str = r#"
name: Governance
on:
  pull_request:
    branches: [main, master]
permissions:
  contents: read
jobs:
  governance:
    uses: hyperpolymath/standards/.github/workflows/governance-reusable.yml@d7c22711e830e1f383846472f6e9b99debdb201e
"#;

const WFLINT: &str = r#"
name: Workflow Security Linter
on:
  pull_request:
    paths:
      - '.github/workflows/**'
permissions: read-all
jobs:
  lint-workflows:
    runs-on: ubuntu-latest
    steps:
    - name: Check SPDX Headers
      run: echo hi
"#;

fn facts() -> WorkflowFacts {
    WorkflowFacts {
        workflows: vec![
            parse_workflow("ci.yml", CI),
            parse_workflow("governance.yml", GOVERNANCE),
            parse_workflow("workflow-linter.yml", WFLINT),
        ],
    }
}

#[test]
fn parses_job_ids_and_name() {
    let ci = parse_workflow("ci.yml", CI);
    assert_eq!(ci.name.as_deref(), Some("CI"));
    assert!(ci.job_ids.contains(&"lint-shell".to_string()));
    assert!(ci.job_ids.contains(&"container-build".to_string()));
    assert_eq!(ci.kind, WorkflowKind::CodeBuild);
}

#[test]
fn detects_reusable_repo_owner() {
    let g = parse_workflow("governance.yml", GOVERNANCE);
    assert_eq!(
        g.reusable_repos,
        vec!["hyperpolymath/standards".to_string()]
    );
    assert!(g.job_ids.contains(&"governance".to_string()));
}

#[test]
fn detects_path_filter_and_hygiene_kind() {
    let w = parse_workflow("workflow-linter.yml", WFLINT);
    assert!(w.path_filtered);
    assert_eq!(w.kind, WorkflowKind::Hygiene);
}

fn req(name: &str, run: CheckRun) -> RequiredCheck {
    RequiredCheck::new(name, run)
}

#[test]
fn classify_reusable_check_as_owned_upstream() {
    let m = facts()
        .classify(
            &req("governance / Well-Known (RFC 9116 + RSR)", CheckRun::Failed),
            "hyperpolymath/ipv6-only",
        )
        .unwrap();
    match m {
        Move::AssignGateOwner { owner, .. } => assert_eq!(owner, "hyperpolymath/standards"),
        other => panic!("expected owner assignment, got {other:?}"),
    }
}

#[test]
fn classify_codebuild_check_as_escalation() {
    let m = facts()
        .classify(
            &req("lint-shell", CheckRun::Failed),
            "hyperpolymath/ipv6-only",
        )
        .unwrap();
    assert!(matches!(
        m,
        Move::EscalateToExpert {
            group: ExpertGroup::HypatiaFleet,
            ..
        }
    ));
}

#[test]
fn classify_hygiene_check_stays_in_lane() {
    let m = facts()
        .classify(
            &req("lint-workflows", CheckRun::Failed),
            "hyperpolymath/ipv6-only",
        )
        .unwrap();
    assert!(matches!(m, Move::GroundTruthCheckNames { .. }));
}

#[test]
fn classify_missing_path_filtered_check_is_appliable_passthrough() {
    let m = facts()
        .classify(
            &req("lint-workflows", CheckRun::Missing),
            "hyperpolymath/ipv6-only",
        )
        .unwrap();
    match m {
        Move::InjectPathFilterPassThrough { check, workflow } => {
            assert_eq!(check, "lint-workflows");
            assert_eq!(workflow, "workflow-linter.yml");
        }
        other => panic!("expected path-filter pass-through, got {other:?}"),
    }
}

#[test]
fn unknown_check_is_unclassified() {
    assert!(facts()
        .classify(
            &req("something / nobody-emits", CheckRun::Failed),
            "hyperpolymath/ipv6-only"
        )
        .is_none());
}
#[test]
fn retired_policy_is_a_gate_conflict_with_a_canonical_negative_control() {
    let bad = "name: Compliance\njobs:\n  compliance:\n    steps:\n      - run: test -f .machine_readable/STATE.a2ml\n";
    let parsed = parse_workflow("compliance.yml", bad);
    assert!(parsed.retired_descriptile_policy);
    let facts = WorkflowFacts {
        workflows: vec![parsed],
    };
    assert!(matches!(
        facts.classify(&req("compliance", CheckRun::Missing), "owner/repo"),
        Some(Move::FlagNonFunctionalGate { .. })
    ));
    let fixed = bad.replace(
        ".machine_readable/STATE",
        ".machine_readable/descriptiles/STATE",
    );
    assert!(!parse_workflow("compliance.yml", &fixed).retired_descriptile_policy);
    assert!(!has_retired_descriptile_policy(
        "# test -f .machine_readable/STATE.a2ml"
    ));
    assert!(!has_retired_descriptile_policy(
        "- run: echo 'test -f .machine_readable/STATE.a2ml'"
    ));
    for scalar in [
        r#"run: "test -f .machine_readable/STATE.a2ml""#,
        r#"run: 'test -f .machine_readable/STATE.a2ml'"#,
        r#"run: "test\x20-f\u0020.machine_readable/STATE.a2ml""#,
        r#"run: "test -f \".machine_readable/STATE.a2ml\"""#,
    ] {
        assert!(has_retired_descriptile_policy(scalar), "{scalar}");
    }
    assert!(!has_retired_descriptile_policy(
        r#"- run: "printf '%s\n' '# test -f .machine_readable/STATE.a2ml'""#
    ));
}

#[test]
fn folded_retired_policy_command_is_a_non_functional_gate() {
    let workflow = r#"name: Compliance
jobs:
  compliance:
    steps:
      - run: >
          test -f
          .machine_readable/STATE.a2ml
"#;
    let facts = WorkflowFacts {
        workflows: vec![parse_workflow("compliance.yml", workflow)],
    };

    assert!(matches!(
        facts.classify(&req("compliance", CheckRun::Missing), "owner/repo"),
        Some(Move::FlagNonFunctionalGate { .. })
    ));
}

#[test]
fn commented_jobs_cannot_supply_a_check() {
    let template = "name: E2E\njobs:\n  # test:\n  #   runs-on: ubuntu-latest\n";
    let parsed = parse_workflow("e2e.yml", template);
    assert!(parsed.empty_jobs);
    let facts = WorkflowFacts {
        workflows: vec![parsed],
    };
    assert!(matches!(
        facts.classify(&req("E2E", CheckRun::Missing), "owner/repo"),
        Some(Move::FlagNonFunctionalGate { .. })
    ));
    assert!(!has_empty_jobs("jobs:\n  test:\n    steps: []\n"));
    assert!(!has_empty_jobs("# jobs:\n"));
    assert!(has_empty_jobs("jobs: # template\n  # test:\n"));
    assert!(!has_empty_jobs(
        "jobs: # real jobs\n  test:\n    steps: []\n"
    ));
    assert!(!has_empty_jobs("jobs: { test: {} }\n"));
}

const SECRET_SCANNER: &str = r#"
name: Secret Scanner
on:
  pull_request:
permissions:
  contents: read
jobs:
  scan:
    uses: hyperpolymath/standards/.github/workflows/secret-scanner-reusable.yml@8f2ee50841e216cd8c192eeb68953118190f105c
    secrets: inherit
"#;

const CODEQL_TAGGED: &str = r#"
name: CodeQL Security Analysis
on:
  pull_request:
permissions:
  contents: read
jobs:
  analyze:
    runs-on: ubuntu-latest
    steps:
    - uses: actions/checkout@v7.0.1
    - uses: github/codeql-action/init@v4.38.0
    - uses: github/codeql-action/analyze@v4.38.0 # inline comment must be cut
    - uses: ./local-helper
"#;

fn policy_facts() -> WorkflowFacts {
    WorkflowFacts {
        workflows: vec![
            parse_workflow("secret-scanner.yml", SECRET_SCANNER),
            parse_workflow("codeql.yml", CODEQL_TAGGED),
        ],
    }
}

#[test]
fn external_uses_are_normalised_and_tag_pins_detected() {
    let w = parse_workflow("codeql.yml", CODEQL_TAGGED);
    assert_eq!(
        w.external_uses,
        vec![
            "actions/checkout@v7.0.1".to_string(),
            "github/codeql-action@v4.38.0".to_string(),
        ]
    );
    assert_eq!(w.tag_pinned_uses, w.external_uses);
    assert!(w.reusable_repos.is_empty());
}

#[test]
fn sha_pinned_reusable_is_external_but_not_tag_pinned() {
    let w = parse_workflow("secret-scanner.yml", SECRET_SCANNER);
    assert_eq!(
        w.external_uses,
        vec!["hyperpolymath/standards@8f2ee50841e216cd8c192eeb68953118190f105c".to_string()]
    );
    assert!(w.tag_pinned_uses.is_empty());
    assert_eq!(w.reusable_repos, vec!["hyperpolymath/standards".to_string()]);
}

#[test]
fn covers_matches_exact_owner_wide_and_prefix_patterns() {
    let p = ActionsPolicyFacts {
        allowed_actions: "selected".into(),
        sha_pinning_required: true,
        github_owned_allowed: true,
        patterns_allowed: vec![
            "hyperpolymath/*".into(),
            "oven-sh/setup-bun@*".into(),
            "r-lib/*".into(),
        ],
    };
    assert!(p.covers("actions/checkout"), "github-owned under github_owned_allowed");
    assert!(p.covers("github/codeql-action"));
    assert!(p.covers("hyperpolymath/standards"), "owner-wide");
    assert!(p.covers("oven-sh/setup-bun"), "exact owner/repo");
    assert!(p.covers("r-lib/actions"), "prefix glob");
    assert!(!p.covers("step-security/harden-runner"));
    let strict = ActionsPolicyFacts {
        github_owned_allowed: false,
        ..p.clone()
    };
    assert!(!strict.covers("actions/checkout"));
    let all = ActionsPolicyFacts {
        allowed_actions: "all".into(),
        ..p
    };
    assert!(all.first_uncovered(&["step-security/harden-runner@v2".to_string()]).is_none());
}

#[test]
fn empty_selected_allowlist_classifies_to_set_allowed_all() {
    let facts = policy_facts();
    let policy = ActionsPolicyFacts {
        allowed_actions: "selected".into(),
        sha_pinning_required: true,
        github_owned_allowed: true,
        patterns_allowed: vec![],
    };
    assert_eq!(
        facts.classify_with_policy(
            &RequiredCheck::new("scan", CheckRun::Failed),
            "hyperpolymath/cicd-squabbler",
            Some(&policy),
            true,
        ),
        Some(Move::SetActionsAllowedAll),
        "empty patterns under selected → the estate default posture"
    );
}

#[test]
fn selected_allowlist_gap_classifies_to_reconcile_with_the_missing_pattern() {
    let facts = policy_facts();
    let policy = ActionsPolicyFacts {
        allowed_actions: "selected".into(),
        sha_pinning_required: true,
        github_owned_allowed: true,
        patterns_allowed: vec!["oven-sh/setup-bun@*".into()],
    };
    assert_eq!(
        facts.classify_with_policy(
            &RequiredCheck::new("scan", CheckRun::Failed),
            "hyperpolymath/cicd-squabbler",
            Some(&policy),
            true,
        ),
        Some(Move::ReconcileActionsPolicy {
            blocked_ref: "hyperpolymath/standards".into(),
            add_patterns: vec!["hyperpolymath/standards@*".into()],
        })
    );
}

#[test]
fn tag_pinned_under_sha_pinning_classifies_to_pin_not_escalate_security() {
    let facts = policy_facts();
    let policy = ActionsPolicyFacts {
        allowed_actions: "all".into(), // no mode-1 surface at all
        sha_pinning_required: true,
        github_owned_allowed: true,
        patterns_allowed: vec![],
    };
    assert_eq!(
        facts.classify_with_policy(
            &RequiredCheck::new("analyze", CheckRun::Failed),
            "hyperpolymath/cicd-squabbler",
            Some(&policy),
            true,
        ),
        Some(Move::PinWorkflowActions {
            workflow: "codeql.yml".into(),
            refs: vec![
                "actions/checkout@v7.0.1".into(),
                "github/codeql-action@v4.38.0".into(),
            ],
        }),
        "a tag-vs-SHA refusal is a pinning fix, not a security scan"
    );
}

#[test]
fn without_an_observed_startup_failure_the_policy_branches_stay_silent() {
    let facts = policy_facts();
    let policy = ActionsPolicyFacts {
        allowed_actions: "selected".into(),
        sha_pinning_required: true,
        github_owned_allowed: true,
        patterns_allowed: vec![],
    };
    let check = RequiredCheck::new("analyze", CheckRun::Failed);
    assert_eq!(
        facts.classify_with_policy(&check, "o/r", Some(&policy), false),
        facts.classify(&check, "o/r")
    );
    let scan = RequiredCheck::new("scan", CheckRun::Failed);
    let degraded = facts.classify_with_policy(&scan, "o/r", Some(&policy), false);
    assert!(
        matches!(degraded, Some(Move::AssignGateOwner { .. })),
        "without STARTUP_FAILURE evidence the reusable reads OwnedUpstream as before: {degraded:?}"
    );
}

fn file(name: &str, extension: Option<&str>, text: Option<&str>) -> WorkflowFile {
    WorkflowFile {
        name: name.into(),
        file: name.into(),
        extension: extension.map(String::from),
        text: text.map(String::from),
    }
}

#[test]
fn a_directory_is_read_in_order_of_name() {
    let facts = WorkflowFacts::load(&vec![
        file("z.yml", Some("yml"), Some("name: Z\n")),
        file("notes.md", Some("md"), Some("name: N\n")),
        file("a.yaml", Some("yaml"), Some("name: A\n")),
        file("locked.yml", Some("yml"), None),
        file("README", None, Some("name: R\n")),
        file("m.yml", Some("yml"), Some("name: M\n")),
    ]);
    let names: Vec<&str> = facts.workflows.iter().map(|w| w.file.as_str()).collect();
    assert_eq!(names, vec!["a.yaml", "m.yml", "z.yml"]);
    assert!(WorkflowFacts::load(&vec![]).workflows.is_empty());
}

#[test]
fn names_are_compared_byte_by_byte() {
    let names: [&[u8]; 7] = [b"", b"a", b"a.yml", b"ab", b"b", &[0x61, 0xff], "ä".as_bytes()];
    for a in names {
        for b in names {
            assert_eq!(comes_before(&a.to_vec(), &b.to_vec()), a < b, "{a:?} {b:?}");
        }
    }
}

#[test]
fn a_name_that_is_no_text_keeps_its_place() {
    let mut odd = file("", Some("yml"), Some("name: Odd\n"));
    odd.name = vec![b'm', 0xff, b'.', b'y', b'm', b'l'];
    let facts = WorkflowFacts::load(&vec![
        file("z.yml", Some("yml"), Some("name: Z\n")),
        odd,
        file("a.yml", Some("yml"), Some("name: A\n")),
    ]);
    let names: Vec<&str> = facts.workflows.iter().map(|w| w.file.as_str()).collect();
    assert_eq!(names, vec!["a.yml", "", "z.yml"]);
}

#[test]
fn tag_pins_come_in_the_order_of_the_uses() {
    let sha = "0123456789abcdef0123456789abcdef01234567";
    let text = format!(
        "jobs:\n  a:\n    steps:\n      - uses: o/b@v1\n      - uses: o/c@{sha}\n      - uses: o/a@main\n      - uses: o/b@v1\n"
    );
    let info = parse_workflow("w.yml", &text);
    assert_eq!(
        info.external_uses,
        vec!["o/b@v1".to_string(), format!("o/c@{sha}"), "o/a@main".to_string()]
    );
    assert_eq!(info.tag_pinned_uses, vec!["o/b@v1", "o/a@main"]);
}

#[test]
fn an_earlier_emitter_wins() {
    let mut first = parse_workflow("a.yml", "jobs:\n  build:\n    name: One\n");
    first.kind = WorkflowKind::Proof;
    let mut second = parse_workflow("b.yml", "jobs:\n  build:\n    name: Two\n");
    second.kind = WorkflowKind::Security;
    assert!(first.emits("build / nested"));
    assert!(first.emits("One"));
    assert!(!first.emits("Two"));
    let facts = WorkflowFacts { workflows: vec![first, second] };
    let m = facts.classify(&req("build", CheckRun::Failed), "o/r");
    assert_eq!(
        m,
        Some(Move::EscalateToExpert {
            check: "build".into(),
            group: ExpertGroup::Proof,
            obligation: squabble::moves::EscalationKind::VerifyClaim,
            evidence: "`build` runs in `a.yml` which checks a formal-verification obligation — out of the squabbler's CI-config lane".into(),
        })
    );
}

#[test]
fn jobs_end_at_the_next_top_level_key() {
    let w = parse_workflow(
        "x.yml",
        "name: 'A \"quoted\" name'\nname: second\njobs:\n  one:\n    name: \"First job\"\n# comment\n  two:\nenv:\n  three:\n    name: no\n",
    );
    assert_eq!(w.name.as_deref(), Some("A \"quoted\" name"));
    assert_eq!(w.job_ids, vec!["one", "two"]);
    assert_eq!(w.job_names, vec!["First job"]);
    assert!(!w.path_filtered && !w.empty_jobs && !w.retired_descriptile_policy);
    assert_eq!(w.clone(), w);
}

#[test]
fn images_and_local_actions_are_not_external() {
    let w = parse_workflow(
        "x.yml",
        "jobs:\n  a:\n    steps:\n    - uses: docker://alpine@3\n    - uses: $/x@1\n    - uses: \"o/r/sub@main\"\n    - uses: o/r\n    - uses: o@v1\n    - uses:\n",
    );
    assert_eq!(w.external_uses, vec!["o/r@main"]);
    assert_eq!(w.tag_pinned_uses, vec!["o/r@main"]);
}

#[test]
fn a_path_filter_counts_only_before_the_jobs() {
    assert!(has_path_filter("on:\n  push:\n    paths: [a]\njobs:\n"));
    assert!(!has_path_filter("on:\n  push:\njobs:\n  a:\n    paths: [a]\n"));
    assert!(!has_path_filter("on:\n  push:\n    paths-ignore: [a]\n"));
}

#[test]
fn commands_are_read_past_keywords_and_negation() {
    for command in [
        "check_file .machine_readable/META.a2ml",
        "if ! test -e '.machine_readable/6a2/ANCHOR.a2ml'; then",
        "[ ! -f \".machine_readable/PLAYBOOK.a2ml\" ]",
        "while [[ -f .machine_readable/NEUROSYM.a2ml;; ]]",
    ] {
        assert!(command_has_retired_policy(command), "{command}");
    }
    for command in [
        "",
        "test",
        "test -d .machine_readable/META.a2ml",
        "echo test -f .machine_readable/META.a2ml",
        "check_file .machine_readable/descriptiles/META.a2ml",
        "check_file .machine_readable/OTHER.a2ml",
    ] {
        assert!(!command_has_retired_policy(command), "{command}");
    }
}

#[test]
fn decoded_values_decide() {
    assert!(inline_has_retired_policy(Some("  test -f .machine_readable/META.a2ml  ")));
    assert!(!inline_has_retired_policy(None));
    assert!(script_has_retired_policy(Some("echo a\ntest -f .machine_readable/META.a2ml\n")));
    assert!(!script_has_retired_policy(Some("echo a\n")));
    assert!(!script_has_retired_policy(None));
    assert!(decoded_scalar_has_retired_policy(
        "|\n  echo a\n  test -f .machine_readable/META.a2ml\n"
    ));
    assert!(!decoded_scalar_has_retired_policy("[unclosed"));
}

#[test]
fn other_block_scalars_are_skipped() {
    assert!(!has_retired_descriptile_policy(
        "env:\n  NOTE: |\n    run: test -f .machine_readable/STATE.a2ml\n"
    ));
    assert!(has_retired_descriptile_policy(
        "- run: |\n    echo a\n\n    test -f .machine_readable/STATE.a2ml\n- run: echo b\n"
    ));
}

#[test]
fn white_space_of_several_bytes_is_no_error() {
    assert!(has_retired_descriptile_policy(
        "\u{a0}run: test -f .machine_readable/STATE.a2ml"
    ));
    assert!(!has_retired_descriptile_policy(
        "\u{2003}\u{2003}\u{2003}run: test -f .machine_readable/STATE.a2ml"
    ));
}

#[test]
fn each_kind_of_workflow_is_recognised() {
    assert_eq!(parse_workflow("a.yml", "run: coqc x.v").kind, WorkflowKind::Proof);
    assert_eq!(parse_workflow("a.yml", "run: GitLeaks").kind, WorkflowKind::Security);
    assert_eq!(parse_workflow("a.yml", "run: cargo test").kind, WorkflowKind::CodeBuild);
    assert_eq!(parse_workflow("a.yml", "run: date").kind, WorkflowKind::Other);
    assert_eq!(parse_workflow("workflow-linter.yml", "").kind, WorkflowKind::Hygiene);
}
