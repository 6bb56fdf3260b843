use serde_json::Value;
use squabble::fetch::{
    build_gate, contexts_or_no_gate, fetch_actions_policy, fetch_step_outcomes, greens_from_rollup,
    job_id_from_details_url, parse_classic_contexts, parse_policy, parse_rollup, parse_steps,
    probe_classic_protection, probe_from_stderr, required_contexts_from_apis, run, run_bundle,
    run_gh, run_with_greens, startup_failures_from_rollup, wants_selected, ActionsPolicy,
    ClassicProtection, ClassicRequiredChecks, FetchError, FetchPoint, FetchStep, Fetched,
    GhOutcome, GreenCheck, JobStep, JobView, PermissionsResponse, PolicyProbe, PrView,
    ProtectionProbe, ProtectionReply, RollupEntry, RulesetRule, SelectedActionsResponse,
};
use squabble::gate::{CheckRun, GateState};
use squabble::gate_triage::load_signatures;
use squabble::polarity::{
    classify, Applicability, Evidence, PolarityVerdict, RepoDeclaration, StepConclusion,
};

const DIRECTIVE: &str = r#"
[[gate-triage.detection.signatures]]
scanner = "hypatia"
skipped-steps = ["Run Hypatia scan"]
success-steps = ["Create stub findings (when Hypatia unavailable)"]
"#;

fn value(json: &str) -> Result<Value, String> {
    serde_json::from_str(json).map_err(|e| e.to_string())
}

fn text(v: &Value, key: &str) -> Option<String> {
    v.get(key).and_then(Value::as_str).map(String::from)
}

fn items<'a>(v: &'a Value, key: &str) -> Vec<&'a Value> {
    v.get(key).and_then(Value::as_array).map(|a| a.iter().collect()).unwrap_or_default()
}

fn texts(v: &Value, key: &str) -> Vec<String> {
    items(v, key).iter().filter_map(|s| s.as_str()).map(String::from).collect()
}

fn contexts(v: &Value, key: &str) -> Vec<String> {
    items(v, key).iter().filter_map(|c| text(c, "context")).collect()
}

fn rules(json: &str) -> Result<Vec<RulesetRule>, String> {
    let v = value(json)?;
    let list = v.as_array().ok_or("not a list")?;
    Ok(list
        .iter()
        .map(|r| RulesetRule {
            rule_type: text(r, "type").unwrap_or_default(),
            required_status_checks: r
                .get("parameters")
                .map(|p| contexts(p, "required_status_checks")),
        })
        .collect())
}

fn classic(json: &str) -> Result<ClassicProtection, String> {
    let v = value(json)?;
    Ok(ClassicProtection {
        required_status_checks: v.get("required_status_checks").map(|r| ClassicRequiredChecks {
            contexts: texts(r, "contexts"),
            checks: contexts(r, "checks"),
        }),
    })
}

fn pr_view(json: &str) -> Result<PrView, String> {
    let v = value(json)?;
    Ok(PrView {
        base_ref_name: text(&v, "baseRefName").unwrap_or_default(),
        status_check_rollup: items(&v, "statusCheckRollup")
            .iter()
            .map(|e| RollupEntry {
                name: text(e, "name").or(text(e, "context")).unwrap_or_default(),
                status: text(e, "status"),
                conclusion: text(e, "conclusion").or(text(e, "state")),
                details_url: text(e, "detailsUrl"),
            })
            .collect(),
    })
}

fn job(json: &str) -> Result<JobView, String> {
    let v = value(json)?;
    Ok(JobView {
        steps: items(&v, "steps")
            .iter()
            .map(|s| JobStep {
                name: text(s, "name").unwrap_or_default(),
                conclusion: text(s, "conclusion"),
            })
            .collect(),
    })
}

fn permissions(json: &str) -> Result<PermissionsResponse, String> {
    let v = value(json)?;
    Ok(PermissionsResponse {
        allowed_actions: text(&v, "allowed_actions"),
        sha_pinning_required: v
            .get("sha_pinning_required")
            .and_then(Value::as_bool)
            .unwrap_or(false),
    })
}

fn selected(json: &str) -> Result<SelectedActionsResponse, String> {
    let v = value(json)?;
    Ok(SelectedActionsResponse {
        github_owned_allowed: v
            .get("github_owned_allowed")
            .and_then(Value::as_bool)
            .unwrap_or(false),
        patterns_allowed: texts(&v, "patterns_allowed"),
    })
}

#[test]
fn no_gate_and_failure_do_not_share_an_exit_code() {
    assert_ne!(
        FetchError::NO_GATE_EXIT,
        FetchError::FAILED_EXIT,
        "a shared exit code makes the two outcomes indistinguishable to any caller"
    );
}

#[test]
fn each_variant_maps_to_its_own_exit_code() {
    let no_gate = FetchError::NoGate {
        slug: "o/r".into(),
        branch: "main".into(),
    };
    assert_eq!(no_gate.exit_code(), 3);
    assert_eq!(FetchError::Failed("gh exploded".into()).exit_code(), 2);
}

#[test]
fn an_arbitrary_error_string_becomes_failed_never_no_gate() {
    let e: FetchError = String::from("could not parse ruleset response").into();
    assert_eq!(
        e,
        FetchError::Failed("could not parse ruleset response".into())
    );
    assert_eq!(e.exit_code(), FetchError::FAILED_EXIT);
}

#[test]
fn the_no_gate_message_is_now_the_unqualified_finding() {
    let msg = FetchError::NoGate {
        slug: "hyperpolymath/MetaManifold-WebUI".into(),
        branch: "main".into(),
    }
    .message();
    assert!(msg.contains("hyperpolymath/MetaManifold-WebUI"), "{msg}");
    assert!(msg.contains("main"), "{msg}");
    assert!(
        msg.contains("no required status checks apply"),
        "must now state the unqualified finding: {msg}"
    );
    assert!(
        msg.contains("both protection mechanisms"),
        "must say what was actually checked: {msg}"
    );
    assert!(
        !msg.contains("is not visible to this query"),
        "keeps the caveat from the single-API era: {msg}"
    );
}


const RULESET_TWO_CONTEXTS: &str = r#"[
    {
        "type": "required_status_checks",
        "parameters": {
            "required_status_checks": [
                {"context": "build"},
                {"context": "test"}
            ],
            "strict_required_status_checks_policy": true
        }
    },
    {"type": "pull_request", "parameters": {}}
]"#;

const CLASSIC_TWO_CONTEXTS: &str = r#"{
    "url": "https://api.github.com/repos/o/r/branches/main/protection",
    "required_status_checks": {
        "url": "https://api.github.com/repos/o/r/branches/main/protection/required-status-checks",
        "strict": true,
        "contexts": ["ci", "lint"],
        "checks": [
            {"context": "ci", "app_id": null},
            {"context": "lint", "app_id": 15368}
        ],
        "contexts_url": "https://api.github.com/repos/o/r/branches/main/protection/required-status-checks/contexts"
    },
    "enforce_admins": {"url": "…", "enabled": false}
}"#;

#[test]
fn ruleset_gated_fixture_yields_the_ruleset_contexts() {
    let contexts =
        required_contexts_from_apis(&rules(RULESET_TWO_CONTEXTS), &ProtectionProbe::NotProtected)
            .expect("a ruleset gate must parse");
    assert_eq!(contexts, vec!["build".to_string(), "test".to_string()]);
    let gated = contexts_or_no_gate(contexts, "o/r", "main");
    assert!(gated.is_ok(), "a ruleset-gated branch is gated, not NoGate");
}

#[test]
fn classic_protected_fixture_yields_the_classic_contexts() {
    let gated = contexts_or_no_gate(
        required_contexts_from_apis(&rules("[]"), &ProtectionProbe::Protected(classic(
            CLASSIC_TWO_CONTEXTS,
        )))
        .expect("classic protection must parse"),
        "o/r",
        "main",
    );
    let contexts = gated.unwrap_or_else(|e| {
        panic!("a classically-protected branch must fetch as gated (exit-0 shape), got {e:?}")
    });
    assert_eq!(contexts, vec!["ci".to_string(), "lint".to_string()]);
}

#[test]
fn both_mechanisms_union_the_contexts() {
    let classic_overlap = r#"{
        "required_status_checks": {
            "contexts": ["ci", "classic-only"],
            "checks": [{"context": "ci"}, {"context": "classic-only"}]
        }
    }"#;
    let ruleset_with_ci = r#"[
        {"type": "required_status_checks",
         "parameters": {"required_status_checks": [{"context": "ci"}, {"context": "ruleset-only"}]}}
    ]"#;
    let contexts = required_contexts_from_apis(
        &rules(ruleset_with_ci),
        &ProtectionProbe::Protected(classic(classic_overlap)),
    )
    .expect("union must parse");
    assert_eq!(
        contexts,
        vec![
            "ci".to_string(),
            "ruleset-only".to_string(),
            "classic-only".to_string()
        ]
    );
}

#[test]
fn a_genuinely_unprotected_branch_is_the_only_no_gate() {
    let result = contexts_or_no_gate(
        required_contexts_from_apis(&rules("[]"), &ProtectionProbe::NotProtected)
            .expect("empty inputs must parse"),
        "hyperpolymath/MetaManifold-WebUI",
        "main",
    );
    let err = result.expect_err("neither mechanism requires anything");
    assert!(
        matches!(err, FetchError::NoGate { .. }),
        "expected NoGate, got {err:?}"
    );
    assert_eq!(err.exit_code(), FetchError::NO_GATE_EXIT);
}

#[test]
fn a_hidden_classic_protection_is_never_read_as_no_gate() {
    for json in ["[]", RULESET_TWO_CONTEXTS] {
        let err = required_contexts_from_apis(&rules(json), &ProtectionProbe::Hidden)
            .expect_err("hidden protection must hard-fail");
        assert!(
            matches!(err, FetchError::Failed(_)),
            "expected Failed (exit 2), not NoGate: {err:?}"
        );
        assert_eq!(err.exit_code(), FetchError::FAILED_EXIT);
        assert!(
            err.message().contains("not visible to this token"),
            "must name the visibility failure: {err:?}"
        );
    }
}

#[test]
fn gh_stderr_shapes_classify_404_and_403() {
    assert_eq!(
        probe_from_stderr("gh: Branch not protected (HTTP 404)"),
        Some(ProtectionProbe::NotProtected)
    );
    assert_eq!(
        probe_from_stderr("gh: Resource not accessible by integration (HTTP 403)"),
        Some(ProtectionProbe::Hidden)
    );
    assert_eq!(
        probe_from_stderr("gh: Not Found (HTTP 404)"),
        Some(ProtectionProbe::NotProtected)
    );
    assert_eq!(probe_from_stderr("gh: validation failed"), None);
}

#[test]
fn classic_checks_shape_is_read_without_contexts() {
    let json = r#"{"required_status_checks": {"strict": false, "checks": [{"context": "gate"}]}}"#;
    assert_eq!(
        parse_classic_contexts(&classic(json)).expect("parse"),
        vec!["gate".to_string()]
    );
    assert!(parse_classic_contexts(&classic(r#"{"enforce_admins": {"enabled": true}}"#))
        .expect("parse")
        .is_empty());
}

#[test]
fn mixed_check_runs_and_commit_statuses_parse_without_losing_failures() {
    let json = r#"{"baseRefName":"main","statusCheckRollup":[
        {"__typename":"CheckRun","name":"CI","status":"COMPLETED","conclusion":"SUCCESS"},
        {"__typename":"StatusContext","context":"CodeRabbit","state":"SUCCESS"},
        {"__typename":"StatusContext","context":"External review","state":"FAILURE"},
        {"__typename":"StatusContext","context":"Pending review","state":"PENDING"}
    ]}"#;
    let parsed: PrView = pr_view(json).expect("both GitHub rollup variants");
    assert_eq!(parsed.status_check_rollup.len(), 4);
    assert_eq!(
        parse_rollup(&parsed.status_check_rollup[0]),
        CheckRun::Passed
    );
    assert_eq!(
        parse_rollup(&parsed.status_check_rollup[1]),
        CheckRun::Passed
    );
    assert_eq!(
        parse_rollup(&parsed.status_check_rollup[2]),
        CheckRun::Failed
    );
    assert_eq!(
        parse_rollup(&parsed.status_check_rollup[3]),
        CheckRun::Pending
    );
    assert!(greens_from_rollup(&parsed.status_check_rollup).is_empty());
}

fn entry(name: &str, status: Option<&str>, conclusion: Option<&str>) -> RollupEntry {
    RollupEntry {
        name: name.to_string(),
        status: status.map(String::from),
        conclusion: conclusion.map(String::from),
        details_url: None,
    }
}

#[test]
fn passed_conclusion_maps_to_passed() {
    assert_eq!(
        parse_rollup(&entry("x", Some("COMPLETED"), Some("SUCCESS"))),
        CheckRun::Passed
    );
}

#[test]
fn failure_conclusion_maps_to_failed() {
    assert_eq!(
        parse_rollup(&entry("x", Some("COMPLETED"), Some("FAILURE"))),
        CheckRun::Failed
    );
}

#[test]
fn in_progress_maps_to_pending() {
    assert_eq!(
        parse_rollup(&entry("x", Some("IN_PROGRESS"), None)),
        CheckRun::Pending
    );
}

#[test]
fn required_context_absent_from_rollup_is_missing() {
    let gate = build_gate(&["required / never-ran".to_string()], &[]);
    assert_eq!(gate.checks[0].run, CheckRun::Missing);
}

#[test]
fn required_context_matched_to_realised_run_by_exact_name() {
    let rollup = vec![entry(
        "required / it-ran",
        Some("COMPLETED"),
        Some("SUCCESS"),
    )];
    let gate = build_gate(&["required / it-ran".to_string()], &rollup);
    assert_eq!(gate.checks[0].run, CheckRun::Passed);
}

#[test]
fn build_gate_evaluates_green_when_all_required_passed() {
    let rollup = vec![entry("a", Some("COMPLETED"), Some("SUCCESS"))];
    let gate = build_gate(&["a".to_string()], &rollup);
    assert_eq!(gate.evaluate(), GateState::Green);
}

fn green(name: &str, details: Option<&str>) -> RollupEntry {
    RollupEntry {
        name: name.to_string(),
        status: Some("COMPLETED".into()),
        conclusion: Some("SUCCESS".into()),
        details_url: details.map(String::from),
    }
}

#[test]
fn a_job_id_is_read_from_a_real_details_url() {
    let url =
        "https://github.com/hyperpolymath/standards/actions/runs/33817314194/job/100852208701";
    assert_eq!(job_id_from_details_url(url), Some(100852208701));
}

#[test]
fn a_query_string_or_fragment_does_not_hide_the_job_id() {
    let base =
        "https://github.com/hyperpolymath/standards/actions/runs/33817314194/job/100852208701";
    for suffix in ["?check_suite_focus=true", "#step:4:1", "?a=1#step:2:9"] {
        let url = format!("{base}{suffix}");
        assert_eq!(
            job_id_from_details_url(&url),
            Some(100852208701),
            "suffix {suffix} must not hide the job id"
        );
    }
}

#[test]
fn a_details_url_with_no_job_segment_yields_none() {
    assert_eq!(
        job_id_from_details_url("https://example.com/build/status"),
        None
    );
    assert_eq!(
        job_id_from_details_url("https://github.com/o/r/actions/runs/1"),
        None
    );
}

#[test]
fn an_external_job_url_is_not_treated_as_a_github_actions_job() {
    assert_eq!(job_id_from_details_url("https://ci.example/job/42"), None);
}

#[test]
fn only_successful_checks_with_an_inspectable_job_are_green() {
    let rollup = vec![
        green(
            "has-a-job",
            Some("https://github.com/o/r/actions/runs/1/job/42"),
        ),
        green("no-details-url", None),
        green("not-a-job", Some("https://example.com/status")),
        RollupEntry {
            name: "red".into(),
            status: Some("COMPLETED".into()),
            conclusion: Some("FAILURE".into()),
            details_url: Some("https://github.com/o/r/actions/runs/1/job/43".into()),
        },
    ];
    let greens = greens_from_rollup(&rollup);
    assert_eq!(
        greens,
        vec![GreenCheck {
            name: "has-a-job".into(),
            job_id: 42
        }],
        "reds are `fight`'s job; only inspectable greens belong here"
    );
}

#[test]
fn step_conclusions_are_parsed_from_a_jobs_api_payload() {
    let json = r#"{
        "id": 42,
        "conclusion": "success",
        "steps": [
            {"name": "Set up job", "conclusion": "success"},
            {"name": "Run Hypatia scan", "conclusion": "skipped"},
            {"name": "Create stub findings", "conclusion": "success"},
            {"name": "Post job", "conclusion": null}
        ]
    }"#;
    let steps = parse_steps(job(json)).expect("valid payload");
    assert_eq!(steps.len(), 4);
    assert_eq!(steps[1].name, "Run Hypatia scan");
    assert_eq!(steps[1].conclusion, StepConclusion::Skipped);
    assert_eq!(steps[2].conclusion, StepConclusion::Success);
    assert_eq!(steps[3].conclusion, StepConclusion::Other);
}

#[test]
fn a_payload_with_no_steps_parses_to_an_empty_list() {
    let steps = parse_steps(job(r#"{"id": 1, "conclusion": "success"}"#)).expect("valid");
    assert!(steps.is_empty());
}

#[test]
fn the_parsed_steps_classify_as_vacuous_end_to_end() {
    let json = r#"{"steps":[
        {"name":"Run Hypatia scan","conclusion":"skipped"},
        {"name":"Create stub findings (when Hypatia unavailable)","conclusion":"success"}
    ]}"#;
    let steps = parse_steps(job(json)).expect("valid payload");
    let sig = load_signatures(Some(DIRECTIVE));
    let judged = classify(
        &steps,
        &sig,
        &Applicability::default(),
        &RepoDeclaration::default(),
        Evidence {
            run_count: 1,
            stub_rate: 100,
            upstream_exists: None,
            target_tech_present: None,
        },
    );
    assert!(
        matches!(
            judged,
            PolarityVerdict::Vacuous { .. }
        ),
        "got {judged:?}"
    );
    assert!(judged.to_move("scan / hypatia").is_some());
}

#[test]
fn a_scanner_that_really_ran_is_not_called_vacuous() {
    let json = r#"{"steps":[
        {"name":"Run Hypatia scan","conclusion":"success"},
        {"name":"Create stub findings (when Hypatia unavailable)","conclusion":"skipped"}
    ]}"#;
    let steps = parse_steps(job(json)).expect("valid payload");
    let sig = load_signatures(Some(DIRECTIVE));
    let judged = classify(
        &steps,
        &sig,
        &Applicability::default(),
        &RepoDeclaration::default(),
        Evidence {
            run_count: 1,
            stub_rate: 0,
            upstream_exists: None,
            target_tech_present: None,
        },
    );
    assert!(
        !matches!(
            judged,
            PolarityVerdict::Vacuous { .. }
        ),
        "a gate that ran must not be reported vacuous; got {judged:?}"
    );
}

fn entry_with_conclusion(name: &str, conclusion: Option<&str>) -> RollupEntry {
    RollupEntry {
        name: name.to_string(),
        status: Some("COMPLETED".into()),
        conclusion: conclusion.map(String::from),
        details_url: None,
    }
}

#[test]
fn only_required_contexts_with_startup_failure_trigger_the_probe() {
    let required = vec!["gate / a".to_string(), "gate / b".to_string()];
    let rollup = vec![
        entry_with_conclusion("gate / a", Some("STARTUP_FAILURE")),
        entry_with_conclusion("gate / b", Some("SUCCESS")),
        entry_with_conclusion("other / c", Some("STARTUP_FAILURE")),
    ];
    assert_eq!(
        startup_failures_from_rollup(&required, &rollup),
        vec!["gate / a".to_string()]
    );
    let quiet = vec![entry_with_conclusion("gate / a", Some("SUCCESS"))];
    assert!(startup_failures_from_rollup(&required, &quiet).is_empty());
}

#[test]
fn startup_failure_still_classifies_failed_in_the_gate() {
    assert_eq!(
        parse_rollup(&entry_with_conclusion("x", Some("STARTUP_FAILURE"))),
        CheckRun::Failed
    );
}

#[test]
fn the_estate_default_posture_parses() {
    let policy = parse_policy(
        permissions(r#"{"enabled": true, "allowed_actions": "all", "sha_pinning_required": true}"#),
        None,
    )
    .expect("parse");
    assert_eq!(policy.allowed_actions, "all");
    assert!(policy.sha_pinning_required);
    assert!(policy.github_owned_allowed);
    assert!(policy.patterns_allowed.is_empty());
}

#[test]
fn an_empty_selected_allowlist_parses_with_its_patterns() {
    let policy = parse_policy(
        permissions(r#"{"enabled": true, "allowed_actions": "selected", "sha_pinning_required": true}"#),
        Some(selected(r#"{"github_owned_allowed": true, "verified_allowed": false, "patterns_allowed": []}"#)),
    )
    .expect("parse");
    assert_eq!(policy.allowed_actions, "selected");
    assert!(policy.sha_pinning_required);
    assert!(policy.github_owned_allowed);
    assert!(policy.patterns_allowed.is_empty());
}

#[test]
fn a_populated_selected_allowlist_keeps_its_patterns() {
    let policy = parse_policy(
        permissions(r#"{"enabled": true, "allowed_actions": "selected"}"#),
        Some(selected(
            r#"{"github_owned_allowed": true, "verified_allowed": true,
                "patterns_allowed": ["hyperpolymath/*", "oven-sh/setup-bun@*"]}"#,
        )),
    )
    .expect("parse");
    assert_eq!(
        policy.patterns_allowed,
        vec![
            "hyperpolymath/*".to_string(),
            "oven-sh/setup-bun@*".to_string()
        ]
    );
}

#[test]
fn a_selected_posture_without_its_second_payload_is_an_error() {
    let err = parse_policy(permissions(r#"{"enabled": true, "allowed_actions": "selected"}"#), None)
        .expect_err("selected without selected-actions cannot be understood");
    assert!(err.contains("no selected-actions payload"), "{err}");
}

#[test]
fn payloads_that_cannot_be_decoded_are_failures() {
    assert_eq!(
        required_contexts_from_apis(&Err("eof".into()), &ProtectionProbe::Hidden),
        Err(FetchError::Failed("could not parse ruleset response: eof".into()))
    );
    assert_eq!(
        required_contexts_from_apis(
            &rules(RULESET_TWO_CONTEXTS),
            &ProtectionProbe::Protected(Err("eof".into()))
        ),
        Err(FetchError::Failed("could not parse branch-protection response: eof".into()))
    );
    assert_eq!(
        parse_steps(Err("eof".into())),
        Err("could not parse job response: eof".to_string())
    );
    assert_eq!(
        parse_policy(Err("eof".into()), None),
        Err("could not parse actions/permissions response: eof".to_string())
    );
    assert_eq!(
        parse_policy(permissions(r#"{"allowed_actions": "selected"}"#), Some(Err("eof".into()))),
        Err("could not parse selected-actions response: eof".to_string())
    );
    assert_eq!(
        fetch_step_outcomes(Fetched::Failed("gh".into())),
        Err("gh".to_string())
    );
    assert!(fetch_step_outcomes(Fetched::Unparsed("eof".into())).is_err());
    assert_eq!(fetch_step_outcomes(Fetched::Parsed(JobView { steps: vec![] })), Ok(vec![]));
}

#[test]
fn the_policy_needs_the_second_call_only_under_selected() {
    let all = permissions(r#"{"allowed_actions": "all"}"#).unwrap();
    assert!(!wants_selected(&all));
    let p = fetch_actions_policy(Fetched::Parsed(all), Some(Fetched::Failed("gh".into())));
    assert!(p.unwrap().github_owned_allowed);
    let sel = || permissions(r#"{"allowed_actions": "selected"}"#).unwrap();
    assert!(wants_selected(&sel()));
    assert_eq!(
        fetch_actions_policy(Fetched::Parsed(sel()), Some(Fetched::Failed("gh".into()))),
        Err("gh".to_string())
    );
    assert_eq!(
        fetch_actions_policy(
            Fetched::Parsed(sel()),
            Some(Fetched::Parsed(selected(r#"{"patterns_allowed": ["a/*"]}"#).unwrap()))
        ),
        Ok(ActionsPolicy {
            allowed_actions: "selected".into(),
            sha_pinning_required: false,
            github_owned_allowed: false,
            patterns_allowed: vec!["a/*".into()],
        })
    );
    assert_eq!(
        fetch_actions_policy(Fetched::Failed("gh".into()), None),
        Err("gh".to_string())
    );
    assert!(fetch_actions_policy(Fetched::Unparsed("eof".into()), None)
        .unwrap_err()
        .ends_with("response: eof"));
    let unknown = fetch_actions_policy(Fetched::Parsed(permissions("{}").unwrap()), None).unwrap();
    assert_eq!(unknown.allowed_actions, "");
    assert!(!unknown.github_owned_allowed);
}

#[test]
fn the_output_of_gh_is_its_stdout_or_its_failure() {
    let args = vec!["api".to_string(), "x".to_string()];
    let exited = |success: bool| GhOutcome::Exited {
        success,
        status: "exit status: 1".into(),
        stdout: "out".into(),
        stderr: " err \n".into(),
    };
    assert_eq!(run_gh(&args, exited(true)), Ok("out".to_string()));
    assert_eq!(
        run_gh(&args, exited(false)),
        Err("`gh api x` exited exit status: 1: err".to_string())
    );
    assert_eq!(
        run_gh(&args, GhOutcome::NotRun { error: "no gh".into() }),
        Err("failed to run `gh api x`: no gh".to_string())
    );
}

#[test]
fn a_protection_is_there_not_there_hidden_or_unknown() {
    let probe = |reply| probe_classic_protection("o/r", "main", reply);
    assert_eq!(
        probe(ProtectionReply::Payload(Err("eof".into()))),
        Ok(ProtectionProbe::Protected(Err("eof".into())))
    );
    assert_eq!(
        probe(ProtectionReply::Exited {
            status: "1".into(),
            stderr: "gh: Not Found (HTTP 404)".into()
        }),
        Ok(ProtectionProbe::NotProtected)
    );
    assert_eq!(
        probe(ProtectionReply::Exited {
            status: "1".into(),
            stderr: " boom\n".into()
        }),
        Err("`gh api repos/o/r/branches/main/protection` exited 1: boom".to_string())
    );
    assert_eq!(
        probe(ProtectionReply::NotRun { error: "no gh".into() }),
        Err("failed to run `gh api …/protection`: no gh".to_string())
    );
}

fn view(conclusion: &str) -> PrView {
    PrView {
        base_ref_name: "main".into(),
        status_check_rollup: vec![RollupEntry {
            name: "build".into(),
            status: Some("COMPLETED".into()),
            conclusion: Some(conclusion.into()),
            details_url: Some("https://github.com/o/r/actions/runs/1/job/42".into()),
        }],
    }
}

#[test]
fn a_fetch_asks_step_by_step() {
    let args = match run_bundle("o/r", "7", FetchPoint::Start) {
        FetchStep::AskPullRequest { args } => args,
        other => panic!("{other:?}"),
    };
    assert_eq!(
        args,
        vec!["pr", "view", "7", "--repo", "o/r", "--json", "baseRefName,statusCheckRollup"]
    );
    let (args, view) = match run_bundle(
        "o/r",
        "7",
        FetchPoint::PullRequest { fetched: Fetched::Parsed(view("SUCCESS")) },
    ) {
        FetchStep::AskRules { args, view } => (args, view),
        other => panic!("{other:?}"),
    };
    assert_eq!(args, vec!["api", "repos/o/r/rules/branches/main"]);
    let (path, view, rules) = match run_bundle(
        "o/r",
        "7",
        FetchPoint::Rules { view, fetched: Fetched::Parsed(rules(RULESET_TWO_CONTEXTS).unwrap()) },
    ) {
        FetchStep::AskProtection { path, view, rules } => (path, view, rules),
        other => panic!("{other:?}"),
    };
    assert_eq!(path, "repos/o/r/branches/main/protection");
    let bundle = match run_bundle(
        "o/r",
        "7",
        FetchPoint::Protection { view, rules, protection: Ok(ProtectionProbe::NotProtected) },
    ) {
        FetchStep::Finished(bundle) => bundle.expect("a gate"),
        other => panic!("{other:?}"),
    };
    assert_eq!(bundle.policy_probe, PolicyProbe::NotTriggered);
    let runs: Vec<CheckRun> = bundle.gate.checks.iter().map(|c| c.run).collect();
    assert_eq!(runs, vec![CheckRun::Passed, CheckRun::Missing]);
    let (gate, greens) = run_with_greens(Ok(bundle)).unwrap();
    assert_eq!(gate.checks.len(), 2);
    assert_eq!(greens, vec![GreenCheck { name: "build".into(), job_id: 42 }]);
}

#[test]
fn a_refused_start_asks_for_the_policy() {
    let point = FetchPoint::Protection {
        view: view("STARTUP_FAILURE"),
        rules: rules(RULESET_TWO_CONTEXTS),
        protection: Ok(ProtectionProbe::NotProtected),
    };
    let (view, contexts, startup_failed) = match run_bundle("o/r", "7", point) {
        FetchStep::AskPolicy { view, contexts, startup_failed } => (view, contexts, startup_failed),
        other => panic!("{other:?}"),
    };
    assert_eq!(startup_failed, vec!["build"]);
    let end = run_bundle(
        "o/r",
        "7",
        FetchPoint::Policy { view, contexts, startup_failed, policy: Err("403".into()) },
    );
    match end {
        FetchStep::Finished(Ok(bundle)) => {
            assert_eq!(bundle.policy_probe, PolicyProbe::Failed("403".into()));
            assert_eq!(run(Ok(bundle)).unwrap().evaluate(), GateState::Blocked);
        }
        other => panic!("{other:?}"),
    }
}

#[test]
fn the_first_failure_ends_a_fetch() {
    let failed = |m: &str| FetchStep::Finished(Err(FetchError::Failed(m.into())));
    assert_eq!(
        run_bundle("or", "7", FetchPoint::Start),
        failed("expected `owner/repo`, got `or`")
    );
    assert_eq!(
        run_bundle("o/r", "7", FetchPoint::PullRequest { fetched: Fetched::Failed("gh".into()) }),
        failed("gh")
    );
    assert_eq!(
        run_bundle("o/r", "7", FetchPoint::PullRequest { fetched: Fetched::Unparsed("eof".into()) }),
        failed("could not parse `gh pr view` output: eof")
    );
    assert_eq!(
        run_bundle(
            "o/r",
            "7",
            FetchPoint::Rules { view: view("SUCCESS"), fetched: Fetched::Failed("gh".into()) }
        ),
        failed("gh")
    );
    assert_eq!(
        run_bundle(
            "o/r",
            "7",
            FetchPoint::Protection {
                view: view("SUCCESS"),
                rules: Err("eof".into()),
                protection: Err("gh".into())
            }
        ),
        failed("gh")
    );
    let none = run_bundle(
        "o/r",
        "7",
        FetchPoint::Protection {
            view: view("SUCCESS"),
            rules: Ok(vec![]),
            protection: Ok(ProtectionProbe::NotProtected),
        },
    );
    assert_eq!(
        none,
        FetchStep::Finished(Err(FetchError::NoGate { slug: "o/r".into(), branch: "main".into() }))
    );
    assert!(run(Err(FetchError::Failed("x".into()))).is_err());
}

#[test]
fn a_job_url_may_end_in_a_slash_and_nothing_more() {
    let base = "https://github.com/o/r/actions/runs/1/job/42";
    assert_eq!(job_id_from_details_url(&format!("{base}/")), Some(42));
    assert_eq!(job_id_from_details_url(&format!("{base}/x")), None);
    assert_eq!(job_id_from_details_url(&format!("{base}//")), None);
    assert_eq!(job_id_from_details_url("https://github.com//r/actions/runs/1/job/42"), None);
    assert_eq!(job_id_from_details_url("https://github.com/o/r/actions/runs/x/job/42"), None);
    assert_eq!(
        job_id_from_details_url("https://github.com/o/r/actions/runs/1/job/18446744073709551616"),
        None
    );
}
