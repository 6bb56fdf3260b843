use squabble::admission::{
    evaluate_admission, AdmissionDecision, AdmissionPolicy, AdmissionReason, AdmissionRequest,
    ApprovalState, BudgetSnapshot, OperationClass, ProducerClass, ProjectedCost, TopologyKnowledge,
};

fn deny(reason: AdmissionReason) -> AdmissionDecision {
    AdmissionDecision::Deny { reason }
}

fn queue(reason: AdmissionReason) -> AdmissionDecision {
    AdmissionDecision::Queue { reason }
}

fn quarantine(reason: AdmissionReason) -> AdmissionDecision {
    AdmissionDecision::Quarantine { reason }
}

const NOW: u64 = 1_800_000_000;
const SHA: &str = "0123456789abcdef0123456789abcdef01234567";

fn policy() -> AdmissionPolicy {
    AdmissionPolicy {
        max_snapshot_age_seconds: 60,
        max_inflight_estate: 4,
        max_inflight_repository: 1,
        max_open_automation_prs_estate: 5,
        max_open_automation_prs_repository: 1,
        max_reserved_minutes_per_day: 500,
        max_reserved_minutes_per_change: 100,
        max_automatic_workflows_per_change: 1,
        max_runner_jobs_per_change: 6,
        allow_new_workflow_files: false,
        allow_trigger_expansion: false,
    }
}

fn request() -> AdmissionRequest {
    AdmissionRequest {
        repository_id: 42,
        head_sha: SHA.into(),
        operation: OperationClass::RunCi,
        producer: ProducerClass::Automation,
        approval: ApprovalState::NotApproved,
        projected: ProjectedCost {
            topology: TopologyKnowledge::Known,
            automatic_workflows: 1,
            runner_jobs: 2,
            max_job_timeout_minutes: 10,
            fixed_runner_minutes: 1,
            new_workflow_files: 0,
            trigger_expansions: 0,
        },
    }
}

fn snapshot() -> BudgetSnapshot {
    BudgetSnapshot {
        captured_at_unix_seconds: NOW - 1,
        data_complete: true,
        observed_head_sha: SHA.into(),
        estate_inflight: 0,
        repository_inflight: 0,
        estate_open_automation_prs: 0,
        repository_open_automation_prs: 0,
        reserved_minutes_today: 0,
    }
}

fn decision(
    policy: Option<&AdmissionPolicy>,
    request: &AdmissionRequest,
    snapshot: Option<&BudgetSnapshot>,
) -> AdmissionDecision {
    evaluate_admission(policy, request, snapshot, NOW)
}

#[test]
fn missing_policy_denies() {
    assert_eq!(
        decision(None, &request(), Some(&snapshot())),
        deny(AdmissionReason::MissingPolicy)
    );
}

#[test]
fn missing_budget_snapshot_denies() {
    assert_eq!(
        decision(Some(&policy()), &request(), None),
        deny(AdmissionReason::MissingBudgetSnapshot)
    );
}

#[test]
fn incomplete_budget_snapshot_denies() {
    let mut s = snapshot();
    s.data_complete = false;
    assert_eq!(
        decision(Some(&policy()), &request(), Some(&s)),
        deny(AdmissionReason::IncompleteBudgetSnapshot)
    );
}

#[test]
fn stale_and_future_snapshots_deny() {
    let mut stale = snapshot();
    stale.captured_at_unix_seconds = NOW - 61;
    assert_eq!(
        decision(Some(&policy()), &request(), Some(&stale)),
        deny(AdmissionReason::StaleBudgetSnapshot)
    );

    let mut future = snapshot();
    future.captured_at_unix_seconds = NOW + 1;
    assert_eq!(
        decision(Some(&policy()), &request(), Some(&future)),
        deny(AdmissionReason::BudgetSnapshotFromFuture)
    );
}

#[test]
fn invalid_or_changed_sha_denies() {
    let mut malformed = request();
    malformed.head_sha = "abc123".into();
    assert_eq!(
        decision(Some(&policy()), &malformed, Some(&snapshot())),
        deny(AdmissionReason::InvalidHeadSha)
    );

    let mut changed = snapshot();
    changed.observed_head_sha = "fedcba9876543210fedcba9876543210fedcba98".into();
    assert_eq!(
        decision(Some(&policy()), &request(), Some(&changed)),
        deny(AdmissionReason::HeadShaChanged)
    );
}

#[test]
fn projected_cost_overflow_denies() {
    let mut r = request();
    r.projected.runner_jobs = 2;
    r.projected.max_job_timeout_minutes = u64::MAX;
    assert_eq!(
        decision(Some(&policy()), &r, Some(&snapshot())),
        deny(AdmissionReason::CostOverflow)
    );

    let mut s = snapshot();
    s.reserved_minutes_today = u64::MAX;
    assert_eq!(
        decision(Some(&policy()), &request(), Some(&s)),
        deny(AdmissionReason::CostOverflow)
    );
}

#[test]
fn workflow_addition_and_trigger_expansion_quarantine() {
    let mut added = request();
    added.projected.new_workflow_files = 1;
    assert_eq!(
        decision(Some(&policy()), &added, Some(&snapshot())),
        quarantine(AdmissionReason::WorkflowFilesAdded)
    );

    let mut expanded = request();
    expanded.projected.trigger_expansions = 1;
    assert_eq!(
        decision(Some(&policy()), &expanded, Some(&snapshot())),
        quarantine(AdmissionReason::TriggerExpanded)
    );
}

#[test]
fn dynamic_and_unknown_topology_quarantine() {
    let mut dynamic = request();
    dynamic.projected.topology = TopologyKnowledge::Dynamic;
    assert_eq!(
        decision(Some(&policy()), &dynamic, Some(&snapshot())),
        quarantine(AdmissionReason::DynamicTopology)
    );

    let mut unknown = request();
    unknown.projected.topology = TopologyKnowledge::Unknown;
    assert_eq!(
        decision(Some(&policy()), &unknown, Some(&snapshot())),
        quarantine(AdmissionReason::UnknownTopology)
    );
}

#[test]
fn privileged_operations_need_separate_human_approval() {
    for operation in [OperationClass::Release, OperationClass::Deployment] {
        let mut r = request();
        r.operation = operation;
        r.producer = ProducerClass::HumanOwner;
        assert_eq!(
            decision(Some(&policy()), &r, Some(&snapshot())),
            quarantine(AdmissionReason::PrivilegedOperationNeedsApproval),
            "owner identity alone must not approve {operation:?}"
        );

        r.approval = ApprovalState::HumanApproved;
        assert!(matches!(
            decision(Some(&policy()), &r, Some(&snapshot())),
            AdmissionDecision::Admit { .. }
        ));
    }
}

#[test]
fn static_topology_caps_quarantine() {
    let mut workflows = request();
    workflows.projected.automatic_workflows = 2;
    assert_eq!(
        decision(Some(&policy()), &workflows, Some(&snapshot())),
        quarantine(AdmissionReason::AutomaticWorkflowCapExceeded)
    );

    let mut jobs = request();
    jobs.projected.runner_jobs = 7;
    assert_eq!(
        decision(Some(&policy()), &jobs, Some(&snapshot())),
        quarantine(AdmissionReason::RunnerJobCapExceeded)
    );
}

#[test]
fn per_change_and_daily_budget_caps_queue() {
    let mut p = policy();
    p.max_reserved_minutes_per_change = 20;
    assert_eq!(
        decision(Some(&p), &request(), Some(&snapshot())),
        queue(AdmissionReason::ChangeBudgetExceeded)
    );

    let mut s = snapshot();
    s.reserved_minutes_today = 480;
    assert_eq!(
        decision(Some(&policy()), &request(), Some(&s)),
        queue(AdmissionReason::DailyBudgetExceeded)
    );
}

#[test]
fn inflight_caps_queue_at_the_boundary() {
    let mut estate = snapshot();
    estate.estate_inflight = policy().max_inflight_estate;
    assert_eq!(
        decision(Some(&policy()), &request(), Some(&estate)),
        queue(AdmissionReason::EstateInflightCapReached)
    );

    let mut repo = snapshot();
    repo.repository_inflight = policy().max_inflight_repository;
    assert_eq!(
        decision(Some(&policy()), &request(), Some(&repo)),
        queue(AdmissionReason::RepositoryInflightCapReached)
    );
}

#[test]
fn owner_identity_does_not_bypass_capacity() {
    let mut r = request();
    r.producer = ProducerClass::HumanOwner;
    let mut s = snapshot();
    s.estate_inflight = policy().max_inflight_estate;
    assert_eq!(
        decision(Some(&policy()), &r, Some(&s)),
        queue(AdmissionReason::EstateInflightCapReached)
    );
}

#[test]
fn open_pr_caps_apply_to_pr_creation_only() {
    let mut r = request();
    r.operation = OperationClass::CreatePullRequest;

    let mut estate = snapshot();
    estate.estate_open_automation_prs = policy().max_open_automation_prs_estate;
    assert_eq!(
        decision(Some(&policy()), &r, Some(&estate)),
        queue(AdmissionReason::EstateOpenPrCapReached)
    );

    let mut repo = snapshot();
    repo.repository_open_automation_prs = policy().max_open_automation_prs_repository;
    assert_eq!(
        decision(Some(&policy()), &r, Some(&repo)),
        queue(AdmissionReason::RepositoryOpenPrCapReached)
    );

    let mut ci = request();
    ci.producer = ProducerClass::HumanOwner;
    assert!(matches!(
        decision(Some(&policy()), &ci, Some(&repo)),
        AdmissionDecision::Admit { .. }
    ));
}

#[test]
fn exact_cost_boundary_admits_and_reports_reservation() {
    let mut p = policy();
    p.max_reserved_minutes_per_change = 21;
    p.max_reserved_minutes_per_day = 500;
    let mut s = snapshot();
    s.reserved_minutes_today = 479;
    assert_eq!(
        decision(Some(&p), &request(), Some(&s)),
        AdmissionDecision::Admit {
            reserved_minutes: 21
        }
    );
}

#[test]
fn explicit_policy_can_allow_reviewed_workflow_changes() {
    let mut p = policy();
    p.allow_new_workflow_files = true;
    p.allow_trigger_expansion = true;
    let mut r = request();
    r.projected.new_workflow_files = 1;
    r.projected.trigger_expansions = 1;
    assert!(matches!(
        decision(Some(&p), &r, Some(&snapshot())),
        AdmissionDecision::Admit { .. }
    ));
}

#[test]
fn the_zero_sha_and_a_non_hex_sha_are_invalid() {
    for sha in [
        "0000000000000000000000000000000000000000",
        "g123456789abcdef0123456789abcdef01234567",
        "0123456789abcdef0123456789abcdef0123456é",
    ] {
        let mut r = request();
        r.head_sha = sha.into();
        let mut s = snapshot();
        s.observed_head_sha = sha.into();
        assert_eq!(
            decision(Some(&policy()), &r, Some(&s)),
            deny(AdmissionReason::InvalidHeadSha)
        );
    }
}

#[test]
fn the_cost_is_jobs_times_timeout_plus_the_fixed_minutes() {
    let mut cost = request().projected;
    cost.runner_jobs = 3;
    cost.max_job_timeout_minutes = 7;
    cost.fixed_runner_minutes = 5;
    assert_eq!(cost.reserved_minutes(), Some(26));
    cost.max_job_timeout_minutes = u64::MAX / 3;
    cost.fixed_runner_minutes = 0;
    assert_eq!(cost.reserved_minutes(), Some(u64::MAX));
    cost.fixed_runner_minutes = 1;
    assert_eq!(cost.reserved_minutes(), None);
}

#[test]
fn evidence_is_looked_at_before_policy_and_policy_before_capacity() {
    let mut r = request();
    r.projected.topology = TopologyKnowledge::Unknown;
    let mut s = snapshot();
    s.estate_inflight = 99;
    assert_eq!(
        decision(Some(&policy()), &r, Some(&s)),
        quarantine(AdmissionReason::UnknownTopology)
    );
    s.data_complete = false;
    assert_eq!(
        decision(Some(&policy()), &r, Some(&s)),
        deny(AdmissionReason::IncompleteBudgetSnapshot)
    );
}
