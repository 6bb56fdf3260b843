use squabble::moves::{EscalationKind, ExpertGroup};
use squabble::outcome::{Escalation, LandingStrategy, Outcome, Report};
use squabble::summon::{
    body_error, decode_reply, read_health, read_reply, route, summon, BojClient, HealthReply, InvokeReply, Reply,
    SummonPoint, SummonStep,
};

fn escalation(group: ExpertGroup, obligation: EscalationKind) -> Escalation {
    Escalation {
        check: "some-check".into(),
        group,
        obligation,
        evidence: "why".into(),
    }
}

fn red(escalations: Vec<Escalation>) -> Outcome {
    Outcome::Red {
        report: Report {
            summary: "s".into(),
            unsatisfied: vec![],
            moves_attempted: vec![],
            escalations,
            owner_assignments: vec![],
            expert_verdicts: vec![],
            applied: vec![],
            blockers: vec![],
        },
    }
}

fn report(outcome: &Outcome) -> &Report {
    match outcome {
        Outcome::Red { report } => report,
        _ => panic!("summon must never change the outcome colour"),
    }
}

fn reply(json: &str) -> Reply {
    decode_reply(json).expect("json")
}

fn client() -> BojClient {
    BojClient::from_env(None)
}

#[test]
fn routing_is_group_primary() {
    let sec = route(&escalation(ExpertGroup::Security, EscalationKind::Scan), "/r").unwrap();
    assert_eq!(sec.cartridge, "panic-attack-mcp");
    let proof = route(&escalation(ExpertGroup::Proof, EscalationKind::VerifyClaim), "/r").unwrap();
    assert_eq!(proof.cartridge, "echidna-llm-mcp");
    for obligation in [
        EscalationKind::Scan,
        EscalationKind::VerifyClaim,
        EscalationKind::DispatchFix,
        EscalationKind::AssessConfidence,
    ] {
        let fleet = route(&escalation(ExpertGroup::HypatiaFleet, obligation), "/r").unwrap();
        assert_eq!(fleet.cartridge, "hypatia-mcp");
        assert!(fleet.meaning.contains("actuation external"));
    }
}

#[test]
fn body_error_detects_estate_error_shapes() {
    assert!(body_error(&reply(r#"{"error": "ANTHROPIC_API_KEY not set"}"#)).is_some());
    assert!(body_error(&reply(r#"{"success": false, "detail": "x"}"#)).is_some());
    assert!(body_error(&reply(r#"{"success": true, "findings": []}"#)).is_none());
    assert!(body_error(&reply(r#"{"findings": []}"#)).is_none());
}

#[test]
fn an_answer_is_taken_apart_by_its_fields() {
    assert_eq!(
        reply(r#"{ "success" : false , "error" : {"code": 7}, "detail": "x" }"#),
        Reply {
            error: Some(r#"{"code":7}"#.into()),
            success: Some("false".into()),
            text: r#"{"detail":"x","error":{"code":7},"success":false}"#.into(),
        }
    );
    assert_eq!(body_error(&reply(r#"{"error": null}"#)), Some("null".to_string()));
    assert_eq!(body_error(&reply(r#"{"success": "false"}"#)), None);
    assert_eq!(body_error(&reply(r#"{"success": 0}"#)), None);
    assert_eq!(body_error(&reply(r#"["error", "success"]"#)), None);
    assert!(decode_reply("{").is_err());
}

#[test]
fn each_routed_escalation_is_called_once_and_in_order() {
    let groups = [
        ExpertGroup::GateTriage,
        ExpertGroup::Hypatia,
        ExpertGroup::GateTriage,
        ExpertGroup::Proof,
        ExpertGroup::Security,
        ExpertGroup::GateTriage,
    ];
    let mut outcome = red(groups
        .iter()
        .map(|g| escalation(*g, EscalationKind::Scan))
        .collect());
    let mut point = SummonPoint::Ready {
        root: Ok("/repo".into()),
        health: Ok("{}".into()),
    };
    let mut called = vec![];
    loop {
        let (next, step) = summon(outcome, point);
        outcome = next;
        point = match step {
            SummonStep::AskCall { index, repo_path, .. } => {
                called.push(index);
                SummonPoint::Called {
                    index,
                    repo_path,
                    verdict: Ok(format!("answer {index}")),
                }
            }
            SummonStep::Finished => break,
            SummonStep::AskReady => panic!("asked twice"),
        };
    }
    assert_eq!(called, vec![1, 3, 4]);
    let answers: Vec<&str> = report(&outcome)
        .expert_verdicts
        .iter()
        .map(|v| v.verdict.as_str())
        .collect();
    assert_eq!(answers, vec!["answer 1", "answer 3", "answer 4"]);
    assert_eq!(report(&outcome).escalations.len(), 6);
    assert_eq!(report(&outcome).blockers.len(), 6);
}

#[test]
fn summon_is_fail_closed_when_server_unreachable() {
    let outcome = red(vec![escalation(ExpertGroup::Security, EscalationKind::Scan)]);
    let (outcome, step) = summon(outcome, SummonPoint::Start);
    assert_eq!(step, SummonStep::AskReady);
    let health = BojClient::from_env(Some("http://127.0.0.1:1"))
        .health(HealthReply::Unreachable("connection refused".into()));
    let (outcome, step) = summon(
        outcome,
        SummonPoint::Ready {
            root: Ok("/repo".into()),
            health,
        },
    );
    assert_eq!(step, SummonStep::Finished);
    let report = report(&outcome);
    assert_eq!(report.escalations.len(), 1);
    assert!(report.escalations[0].evidence.contains("fail-closed"));
    assert_eq!(
        report.blockers,
        vec!["summon: boj-server unreachable at http://127.0.0.1:1: connection refused"]
    );
}

#[test]
fn each_call_is_made_and_recorded_in_turn() {
    let outcome = red(vec![
        escalation(ExpertGroup::Security, EscalationKind::Scan),
        escalation(ExpertGroup::GateTriage, EscalationKind::AssessConfidence),
        escalation(ExpertGroup::Proof, EscalationKind::VerifyClaim),
    ]);
    let (outcome, step) = summon(
        outcome,
        SummonPoint::Ready {
            root: Ok("/repo".into()),
            health: Ok("{}".into()),
        },
    );
    let call = match step {
        SummonStep::AskCall { index: 0, call, .. } => call,
        other => panic!("{other:?}"),
    };
    assert_eq!((call.argument, call.value.as_str()), ("path", "/repo"));
    let verdict = client().invoke(
        call.cartridge,
        call.tool,
        InvokeReply::Body(r#"{ "findings" : [ ] }"#.into()),
    );
    assert_eq!(verdict, Ok(r#"{"findings":[]}"#.to_string()));
    let (outcome, step) = summon(
        outcome,
        SummonPoint::Called {
            index: 0,
            repo_path: "/repo".into(),
            verdict,
        },
    );
    let call = match step {
        SummonStep::AskCall { index: 2, call, .. } => call,
        other => panic!("{other:?}"),
    };
    assert_eq!(
        call.value,
        "Verify the claim behind failing CI check `some-check`: why"
    );
    let verdict = client().invoke(
        call.cartridge,
        call.tool,
        InvokeReply::Body(r#"{"error": "no key"}"#.into()),
    );
    let (outcome, step) = summon(
        outcome,
        SummonPoint::Called {
            index: 2,
            repo_path: "/repo".into(),
            verdict,
        },
    );
    assert_eq!(step, SummonStep::Finished);
    let report = report(&outcome);
    assert_eq!(
        report.blockers,
        vec![
            "summon `some-check` → panic-attack-mcp/panic_attack_scan ok (weak-point scan)",
            "summon `some-check`: no cartridge for gate-triage — not dispatched, the assessment is the owner's",
            "summon `some-check` → echidna-llm-mcp/consult FAILED: `echidna-llm-mcp/consult` reported failure: \"no key\"",
        ]
    );
    assert_eq!(
        report.escalations[0].evidence,
        "why | summoned weak-point scan `panic-attack-mcp/panic_attack_scan`: ok (full verdict in expert_verdicts)"
    );
    assert!(report.escalations[1].evidence.contains("not dispatched"));
    assert!(report.escalations[2].evidence.ends_with("— escalation stands, fail-closed"));
    let oks: Vec<bool> = report.expert_verdicts.iter().map(|v| v.ok).collect();
    assert_eq!(oks, vec![true, false]);
    assert_eq!(report.expert_verdicts[0].verdict, r#"{"findings":[]}"#);
}

#[test]
fn without_an_absolute_path_nothing_is_called() {
    let outcome = red(vec![
        escalation(ExpertGroup::Security, EscalationKind::Scan),
        escalation(ExpertGroup::Hypatia, EscalationKind::Scan),
    ]);
    let (outcome, step) = summon(
        outcome,
        SummonPoint::Ready {
            root: Err("cannot canonicalize repo root `.`: gone".into()),
            health: Ok("{}".into()),
        },
    );
    assert_eq!(step, SummonStep::Finished);
    let report = report(&outcome);
    assert_eq!(report.blockers.len(), 2);
    assert_eq!(
        report.blockers[1],
        "summon `some-check`: cannot canonicalize repo root `.`: gone"
    );
    assert_eq!(
        report.escalations[0].evidence,
        "why | summon skipped: cannot canonicalize repo root `.`: gone — fail-closed"
    );
    assert!(report.expert_verdicts.is_empty());
}

#[test]
fn there_may_be_nobody_to_summon() {
    let (outcome, step) = summon(red(vec![]), SummonPoint::Start);
    assert_eq!(step, SummonStep::Finished);
    assert_eq!(
        report(&outcome).blockers,
        vec!["summon: no escalations to summon experts for"]
    );
    let green = Outcome::Green {
        landed_via: LandingStrategy::Squash,
        moves_applied: vec![],
    };
    let (after, step) = summon(green, SummonPoint::Start);
    assert_eq!(step, SummonStep::Finished);
    assert!(matches!(after, Outcome::Green { .. }));
}

#[test]
fn every_failure_of_a_call_is_told_apart() {
    let c = client();
    assert_eq!(
        c.invoke("a", "b", InvokeReply::Unreachable("down".into())),
        Err("`a/b` unreachable: down".to_string())
    );
    assert_eq!(
        c.invoke("a", "b", InvokeReply::Status { code: 503, detail: "busy".into() }),
        Err("`a/b` failed: HTTP 503 busy".to_string())
    );
    assert_eq!(
        c.invoke("a", "b", InvokeReply::Unreadable("cut".into())),
        Err("`a/b` returned non-JSON: cut".to_string())
    );
    let e = c.invoke("a", "b", InvokeReply::Body("not json".into())).expect_err("no json");
    assert!(e.starts_with("`a/b` returned non-JSON: Failed to read JSON: "), "{e}");
    assert_eq!(
        c.invoke("a", "b", InvokeReply::Body(r#"{"success":false}"#.into())),
        Err(r#"`a/b` reported failure: {"success":false}"#.to_string())
    );
    assert_eq!(
        read_reply("a", "b", Err("why".into())),
        Err("`a/b` returned non-JSON: Failed to read JSON: why".to_string())
    );
}

#[test]
fn the_server_lives_where_it_answers_json() {
    let c = client();
    assert_eq!(
        c.health(HealthReply::Body(r#"{"status": "ok"}"#.into())),
        Ok(r#"{"status":"ok"}"#.to_string())
    );
    assert!(c.health(HealthReply::Body("<html>".into())).is_err());
    assert_eq!(
        c.health(HealthReply::Unreadable("cut".into())),
        Err("boj-server /health returned non-JSON: cut".to_string())
    );
    assert!(read_health(Err("why".into())).is_err());
}

#[test]
fn addresses_are_built_on_the_base() {
    assert_eq!(client().health_url(), "http://localhost:7700/health");
    assert_eq!(
        BojClient::from_env(Some("http://h:1")).invoke_url("c"),
        "http://h:1/cartridge/c/invoke"
    );
}
