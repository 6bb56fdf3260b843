use squabble::gate::{CheckRun, Gate, GateState, MissingCause, RequiredCheck};

fn ck(name: &str, run: CheckRun) -> RequiredCheck {
    RequiredCheck::new(name, run)
}

#[test]
fn all_passed_is_green() {
    let g = Gate::new(vec![ck("a", CheckRun::Passed), ck("b", CheckRun::Passed)]);
    assert_eq!(g.evaluate(), GateState::Green);
}

#[test]
fn a_failure_is_red() {
    let g = Gate::new(vec![ck("a", CheckRun::Passed), ck("b", CheckRun::Failed)]);
    assert_eq!(g.evaluate(), GateState::Red);
}

#[test]
fn a_missing_check_is_blocked_not_green() {
    let g = Gate::new(vec![ck("a", CheckRun::Passed), ck("b", CheckRun::Missing)]);
    assert_eq!(g.evaluate(), GateState::Blocked);
}

#[test]
fn empty_requirement_set_is_never_green() {
    let g = Gate::new(vec![]);
    assert_eq!(g.evaluate(), GateState::Blocked);
}

#[test]
fn missing_cause_is_optional_and_does_not_alter_gate_state() {
    let undiagnosed = Gate::new(vec![RequiredCheck::new("scan / gitleaks", CheckRun::Missing)]);
    let diagnosed = Gate::new(vec![RequiredCheck::new("scan / gitleaks", CheckRun::Missing)
        .with_cause(MissingCause::DeadActionPin)]);
    assert_eq!(undiagnosed.evaluate(), GateState::Blocked);
    assert_eq!(diagnosed.evaluate(), GateState::Blocked);
    assert_eq!(diagnosed.evaluate(), undiagnosed.evaluate());
}

#[test]
fn remedy_is_offered_only_for_diagnosed_missing_checks() {
    assert!(RequiredCheck::new("x", CheckRun::Missing).remedy().is_none());
    assert!(RequiredCheck::new("x", CheckRun::Passed)
        .with_cause(MissingCause::NoSuchJob)
        .remedy()
        .is_none());
    assert!(RequiredCheck::new("x", CheckRun::Missing)
        .with_cause(MissingCause::NotTriggeredOnPullRequest)
        .remedy()
        .is_some());
}

#[test]
fn a_diagnosed_missing_check_still_cannot_reach_green() {
    for cause in [
        MissingCause::NoSuchJob,
        MissingCause::DeadActionPin,
        MissingCause::ActionsPolicyRefusal,
        MissingCause::EmptyJobsMap,
        MissingCause::NotTriggeredOnPullRequest,
        MissingCause::Unknown,
    ] {
        let g = Gate::new(vec![
            RequiredCheck::new("a", CheckRun::Passed),
            RequiredCheck::new("b", CheckRun::Missing).with_cause(cause),
        ]);
        assert_ne!(g.evaluate(), GateState::Green, "{cause:?} must not reach Green");
    }
}

#[test]
fn a_failure_beside_an_unfinished_check_is_blocked() {
    for run in [CheckRun::Missing, CheckRun::Pending] {
        let g = Gate::new(vec![ck("a", CheckRun::Failed), ck("b", run), ck("c", CheckRun::Passed)]);
        assert_eq!(g.evaluate(), GateState::Blocked);
    }
}

#[test]
fn the_work_list_keeps_the_order_of_declaration() {
    let g = Gate::new(vec![
        ck("z", CheckRun::Missing),
        ck("p", CheckRun::Passed),
        ck("a", CheckRun::Failed),
        ck("m", CheckRun::Pending),
    ]);
    let names: Vec<&str> = g.unsatisfied().iter().map(|c| c.required_context.as_str()).collect();
    assert_eq!(names, vec!["z", "a", "m"]);
    assert_eq!(g.clone(), g);
}

#[test]
fn each_cause_has_its_remedy() {
    assert_eq!(
        MissingCause::EmptyJobsMap.remedy(),
        "The workflow has no uncommented jobs. Instantiate one, or delete the workflow."
    );
    assert!(MissingCause::NoSuchJob.remedy().contains("case-sensitive"));
    assert!(MissingCause::DeadActionPin.remedy().contains("do NOT vendor"));
    assert!(MissingCause::ActionsPolicyRefusal.remedy().contains("patterns_allowed"));
    assert!(MissingCause::NotTriggeredOnPullRequest.remedy().contains("pull_request"));
    assert!(MissingCause::Unknown.remedy().contains("PR-head"));
}
