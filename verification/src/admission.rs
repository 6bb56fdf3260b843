//! The admission policy for CI work and for pull requests that automation opens.
//!
//! The host supplies a policy, a request, a budget snapshot and the time, and one
//! decision comes back. Missing, incomplete, stale, malformed or arithmetically
//! unsafe evidence never ends in [`AdmissionDecision::Admit`].
//!
//! Admission is not a CI result: it permits work to start.
use vstd::prelude::*;

use crate::text::{chars_of, hex_digit, is_hex_digit, same};

verus! {

/// The ceilings and the explicit exceptions of one admission domain.
#[derive(Debug, Clone, Copy, PartialEq, Eq)]
pub struct AdmissionPolicy {
    /// How old the budget evidence may be.
    pub max_snapshot_age_seconds: u64,
    pub max_inflight_estate: u32,
    pub max_inflight_repository: u32,
    pub max_open_automation_prs_estate: u32,
    pub max_open_automation_prs_repository: u32,
    pub max_reserved_minutes_per_day: u64,
    pub max_reserved_minutes_per_change: u64,
    pub max_automatic_workflows_per_change: u32,
    pub max_runner_jobs_per_change: u32,
    /// May a change add workflow files?
    pub allow_new_workflow_files: bool,
    /// May a change broaden automatic triggers?
    pub allow_trigger_expansion: bool,
}

/// What the caller wants permitted.
#[derive(Debug, Clone, Copy, PartialEq, Eq, Structural)]
pub enum OperationClass {
    CreatePullRequest,
    RunCi,
    Release,
    Deployment,
}

impl OperationClass {
    /// Does the operation need a human's approval of its own?
    pub open spec fn privileged(self) -> bool {
        self == OperationClass::Release || self == OperationClass::Deployment
    }

    fn requires_explicit_approval(self) -> (r: bool)
        ensures
            r == self.privileged(),
    {
        matches!(self, OperationClass::Release | OperationClass::Deployment)
    }
}

/// The class of the authenticated principal. It is evidence, not a bypass: every
/// class is subject to the same ceilings.
#[derive(Debug, Clone, Copy, PartialEq, Eq, Structural)]
pub enum ProducerClass {
    HumanOwner,
    Automation,
    GitHubApp,
}

/// Has a human approved a privileged operation?
#[derive(Debug, Clone, Copy, PartialEq, Eq, Structural)]
pub enum ApprovalState {
    NotApproved,
    HumanApproved,
}

/// How well the workflow graph could be bounded.
#[derive(Debug, Clone, Copy, PartialEq, Eq, Structural)]
pub enum TopologyKnowledge {
    Known,
    /// The graph depends on expressions that only a run evaluates.
    Dynamic,
    /// The graph could not be inspected in full.
    Unknown,
}

/// Upper bounds on what one change costs.
#[derive(Debug, Clone, Copy, PartialEq, Eq)]
pub struct ProjectedCost {
    pub topology: TopologyKnowledge,
    /// The workflows that the change triggers.
    pub automatic_workflows: u32,
    /// The jobs that occupy a runner, bounded matrices expanded.
    pub runner_jobs: u32,
    /// The bound on the time of each job.
    pub max_job_timeout_minutes: u64,
    /// Runner work beside the jobs.
    pub fixed_runner_minutes: u64,
    pub new_workflow_files: u32,
    pub trigger_expansions: u32,
}

impl ProjectedCost {
    /// The runner minutes that the change may take.
    pub open spec fn minutes(self) -> int {
        self.runner_jobs * self.max_job_timeout_minutes + self.fixed_runner_minutes
    }

    /// The runner minutes to reserve, where they can be counted.
    pub fn reserved_minutes(&self) -> (r: Option<u64>)
        ensures
            r is Some <==> self.minutes() <= u64::MAX,
            r matches Some(n) ==> n == self.minutes(),
    {
        let jobs: u64 = self.runner_jobs as u64;
        match jobs.checked_mul(self.max_job_timeout_minutes) {
            Some(work) => work.checked_add(self.fixed_runner_minutes),
            None => None,
        }
    }
}

/// One request for admission.
#[derive(Debug, PartialEq, Eq)]
pub struct AdmissionRequest {
    pub repository_id: u64,
    /// The full object id of the content to admit.
    pub head_sha: String,
    pub operation: OperationClass,
    pub producer: ProducerClass,
    pub approval: ApprovalState,
    pub projected: ProjectedCost,
}

impl Clone for AdmissionRequest {
    fn clone(&self) -> (r: Self)
        ensures
            r == *self,
    {
        AdmissionRequest {
            repository_id: self.repository_id,
            head_sha: self.head_sha.clone(),
            operation: self.operation,
            producer: self.producer,
            approval: self.approval,
            projected: self.projected,
        }
    }
}

/// The capacity that the broker observed.
#[derive(Debug, PartialEq, Eq)]
pub struct BudgetSnapshot {
    pub captured_at_unix_seconds: u64,
    /// False where any counter could not be obtained.
    pub data_complete: bool,
    /// The head that the broker observed.
    pub observed_head_sha: String,
    pub estate_inflight: u32,
    pub repository_inflight: u32,
    pub estate_open_automation_prs: u32,
    pub repository_open_automation_prs: u32,
    pub reserved_minutes_today: u64,
}

impl Clone for BudgetSnapshot {
    fn clone(&self) -> (r: Self)
        ensures
            r == *self,
    {
        BudgetSnapshot {
            captured_at_unix_seconds: self.captured_at_unix_seconds,
            data_complete: self.data_complete,
            observed_head_sha: self.observed_head_sha.clone(),
            estate_inflight: self.estate_inflight,
            repository_inflight: self.repository_inflight,
            estate_open_automation_prs: self.estate_open_automation_prs,
            repository_open_automation_prs: self.repository_open_automation_prs,
            reserved_minutes_today: self.reserved_minutes_today,
        }
    }
}

/// Why a request was not admitted.
#[derive(Debug, Clone, Copy, PartialEq, Eq, Structural)]
pub enum AdmissionReason {
    MissingPolicy,
    MissingBudgetSnapshot,
    IncompleteBudgetSnapshot,
    BudgetSnapshotFromFuture,
    StaleBudgetSnapshot,
    InvalidHeadSha,
    HeadShaChanged,
    CostOverflow,
    DynamicTopology,
    UnknownTopology,
    WorkflowFilesAdded,
    TriggerExpanded,
    PrivilegedOperationNeedsApproval,
    AutomaticWorkflowCapExceeded,
    RunnerJobCapExceeded,
    ChangeBudgetExceeded,
    EstateInflightCapReached,
    RepositoryInflightCapReached,
    EstateOpenPrCapReached,
    RepositoryOpenPrCapReached,
    DailyBudgetExceeded,
}

/// The result of evaluating a request.
#[derive(Debug, Clone, Copy, PartialEq, Eq)]
pub enum AdmissionDecision {
    /// The evidence is sound and there is capacity.
    Admit { reserved_minutes: u64 },
    /// Sound work that has to wait for capacity.
    Queue { reason: AdmissionReason },
    /// A human must look at the risk first.
    Quarantine { reason: AdmissionReason },
    /// The evidence is absent, invalid, stale or unsafe to compute with.
    Deny { reason: AdmissionReason },
}

/// Is `sha` a full object id: forty hexadecimal digits that are not all zero?
pub open spec fn full_sha(sha: Seq<char>) -> bool {
    &&& sha.len() == 40
    &&& forall|i: int| 0 <= i < sha.len() ==> hex_digit(#[trigger] sha[i])
    &&& exists|i: int| 0 <= i < sha.len() && #[trigger] sha[i] != '0'
}

/// What is wrong with the evidence, if anything.
pub open spec fn evidence_fault(
    policy: AdmissionPolicy,
    request: AdmissionRequest,
    snapshot: BudgetSnapshot,
    now: int,
) -> Option<AdmissionReason> {
    if !snapshot.data_complete {
        Some(AdmissionReason::IncompleteBudgetSnapshot)
    } else if snapshot.captured_at_unix_seconds > now {
        Some(AdmissionReason::BudgetSnapshotFromFuture)
    } else if now - snapshot.captured_at_unix_seconds > policy.max_snapshot_age_seconds {
        Some(AdmissionReason::StaleBudgetSnapshot)
    } else if !full_sha(request.head_sha@) || !full_sha(snapshot.observed_head_sha@) {
        Some(AdmissionReason::InvalidHeadSha)
    } else if request.head_sha@ != snapshot.observed_head_sha@ {
        Some(AdmissionReason::HeadShaChanged)
    } else if snapshot.reserved_minutes_today + request.projected.minutes() > u64::MAX {
        Some(AdmissionReason::CostOverflow)
    } else {
        None
    }
}

/// Which rule the change itself breaks, if any.
pub open spec fn policy_fault(policy: AdmissionPolicy, request: AdmissionRequest) -> Option<
    AdmissionReason,
> {
    let cost = request.projected;
    if cost.topology == TopologyKnowledge::Dynamic {
        Some(AdmissionReason::DynamicTopology)
    } else if cost.topology == TopologyKnowledge::Unknown {
        Some(AdmissionReason::UnknownTopology)
    } else if cost.new_workflow_files > 0 && !policy.allow_new_workflow_files {
        Some(AdmissionReason::WorkflowFilesAdded)
    } else if cost.trigger_expansions > 0 && !policy.allow_trigger_expansion {
        Some(AdmissionReason::TriggerExpanded)
    } else if request.operation.privileged() && request.approval != ApprovalState::HumanApproved {
        Some(AdmissionReason::PrivilegedOperationNeedsApproval)
    } else if cost.automatic_workflows > policy.max_automatic_workflows_per_change {
        Some(AdmissionReason::AutomaticWorkflowCapExceeded)
    } else if cost.runner_jobs > policy.max_runner_jobs_per_change {
        Some(AdmissionReason::RunnerJobCapExceeded)
    } else {
        None
    }
}

/// Which ceiling leaves no room for the change, if any.
pub open spec fn capacity_fault(
    policy: AdmissionPolicy,
    request: AdmissionRequest,
    snapshot: BudgetSnapshot,
) -> Option<AdmissionReason> {
    let opens_pr = request.operation == OperationClass::CreatePullRequest;
    if request.projected.minutes() > policy.max_reserved_minutes_per_change {
        Some(AdmissionReason::ChangeBudgetExceeded)
    } else if snapshot.estate_inflight >= policy.max_inflight_estate {
        Some(AdmissionReason::EstateInflightCapReached)
    } else if snapshot.repository_inflight >= policy.max_inflight_repository {
        Some(AdmissionReason::RepositoryInflightCapReached)
    } else if opens_pr && snapshot.estate_open_automation_prs
        >= policy.max_open_automation_prs_estate {
        Some(AdmissionReason::EstateOpenPrCapReached)
    } else if opens_pr && snapshot.repository_open_automation_prs
        >= policy.max_open_automation_prs_repository {
        Some(AdmissionReason::RepositoryOpenPrCapReached)
    } else if snapshot.reserved_minutes_today + request.projected.minutes()
        > policy.max_reserved_minutes_per_day {
        Some(AdmissionReason::DailyBudgetExceeded)
    } else {
        None
    }
}

/// The decision on a request: the evidence is looked at first, the change itself
/// next and the capacity last.
pub open spec fn decision_of(
    policy: Option<&AdmissionPolicy>,
    request: AdmissionRequest,
    snapshot: Option<&BudgetSnapshot>,
    now: int,
) -> AdmissionDecision {
    match (policy, snapshot) {
        (None, _) => AdmissionDecision::Deny { reason: AdmissionReason::MissingPolicy },
        (_, None) => AdmissionDecision::Deny { reason: AdmissionReason::MissingBudgetSnapshot },
        (Some(policy), Some(snapshot)) => match evidence_fault(*policy, request, *snapshot, now) {
            Some(reason) => AdmissionDecision::Deny { reason },
            None => match policy_fault(*policy, request) {
                Some(reason) => AdmissionDecision::Quarantine { reason },
                None => match capacity_fault(*policy, request, *snapshot) {
                    Some(reason) => AdmissionDecision::Queue { reason },
                    None => AdmissionDecision::Admit {
                        reserved_minutes: request.projected.minutes() as u64,
                    },
                },
            },
        },
    }
}

fn deny(reason: AdmissionReason) -> (r: AdmissionDecision)
    ensures
        r == (AdmissionDecision::Deny { reason }),
{
    AdmissionDecision::Deny { reason }
}

fn queue(reason: AdmissionReason) -> (r: AdmissionDecision)
    ensures
        r == (AdmissionDecision::Queue { reason }),
{
    AdmissionDecision::Queue { reason }
}

fn quarantine(reason: AdmissionReason) -> (r: AdmissionDecision)
    ensures
        r == (AdmissionDecision::Quarantine { reason }),
{
    AdmissionDecision::Quarantine { reason }
}

/// Evaluates one request.
pub fn evaluate_admission(
    policy: Option<&AdmissionPolicy>,
    request: &AdmissionRequest,
    snapshot: Option<&BudgetSnapshot>,
    now_unix_seconds: u64,
) -> (r: AdmissionDecision)
    ensures
        r == decision_of(policy, *request, snapshot, now_unix_seconds as int),
{
    let policy: &AdmissionPolicy = match policy {
        Some(policy) => policy,
        None => {
            return deny(AdmissionReason::MissingPolicy);
        },
    };
    let snapshot: &BudgetSnapshot = match snapshot {
        Some(snapshot) => snapshot,
        None => {
            return deny(AdmissionReason::MissingBudgetSnapshot);
        },
    };
    if !snapshot.data_complete {
        return deny(AdmissionReason::IncompleteBudgetSnapshot);
    }
    if snapshot.captured_at_unix_seconds > now_unix_seconds {
        return deny(AdmissionReason::BudgetSnapshotFromFuture);
    }
    if now_unix_seconds - snapshot.captured_at_unix_seconds > policy.max_snapshot_age_seconds {
        return deny(AdmissionReason::StaleBudgetSnapshot);
    }
    if !valid_sha(&request.head_sha) || !valid_sha(&snapshot.observed_head_sha) {
        return deny(AdmissionReason::InvalidHeadSha);
    }
    if !same(&request.head_sha, &snapshot.observed_head_sha) {
        return deny(AdmissionReason::HeadShaChanged);
    }
    let reserved_minutes: u64 = match request.projected.reserved_minutes() {
        Some(minutes) => minutes,
        None => {
            return deny(AdmissionReason::CostOverflow);
        },
    };
    let day_after_reservation: u64 = match snapshot.reserved_minutes_today.checked_add(
        reserved_minutes,
    ) {
        Some(minutes) => minutes,
        None => {
            return deny(AdmissionReason::CostOverflow);
        },
    };

    match request.projected.topology {
        TopologyKnowledge::Known => {},
        TopologyKnowledge::Dynamic => {
            return quarantine(AdmissionReason::DynamicTopology);
        },
        TopologyKnowledge::Unknown => {
            return quarantine(AdmissionReason::UnknownTopology);
        },
    }
    if request.projected.new_workflow_files > 0 && !policy.allow_new_workflow_files {
        return quarantine(AdmissionReason::WorkflowFilesAdded);
    }
    if request.projected.trigger_expansions > 0 && !policy.allow_trigger_expansion {
        return quarantine(AdmissionReason::TriggerExpanded);
    }
    if request.operation.requires_explicit_approval() && request.approval
        != ApprovalState::HumanApproved {
        return quarantine(AdmissionReason::PrivilegedOperationNeedsApproval);
    }
    if request.projected.automatic_workflows > policy.max_automatic_workflows_per_change {
        return quarantine(AdmissionReason::AutomaticWorkflowCapExceeded);
    }
    if request.projected.runner_jobs > policy.max_runner_jobs_per_change {
        return quarantine(AdmissionReason::RunnerJobCapExceeded);
    }
    if reserved_minutes > policy.max_reserved_minutes_per_change {
        return queue(AdmissionReason::ChangeBudgetExceeded);
    }
    if snapshot.estate_inflight >= policy.max_inflight_estate {
        return queue(AdmissionReason::EstateInflightCapReached);
    }
    if snapshot.repository_inflight >= policy.max_inflight_repository {
        return queue(AdmissionReason::RepositoryInflightCapReached);
    }
    if request.operation == OperationClass::CreatePullRequest {
        if snapshot.estate_open_automation_prs >= policy.max_open_automation_prs_estate {
            return queue(AdmissionReason::EstateOpenPrCapReached);
        }
        if snapshot.repository_open_automation_prs >= policy.max_open_automation_prs_repository {
            return queue(AdmissionReason::RepositoryOpenPrCapReached);
        }
    }
    if day_after_reservation > policy.max_reserved_minutes_per_day {
        return queue(AdmissionReason::DailyBudgetExceeded);
    }
    AdmissionDecision::Admit { reserved_minutes }
}

fn valid_sha(sha: &str) -> (r: bool)
    ensures
        r == full_sha(sha@),
{
    let v: Vec<char> = chars_of(sha);
    if v.len() != 40 {
        return false;
    }
    let mut all_zero: bool = true;
    let mut i: usize = 0;
    while i < v.len()
        invariant
            i <= v@.len() == 40,
            v@ == sha@,
            forall|k: int| 0 <= k < i ==> hex_digit(#[trigger] sha@[k]),
            all_zero == (forall|k: int| 0 <= k < i ==> #[trigger] sha@[k] == '0'),
        decreases v@.len() - i,
    {
        let c: char = v[i];
        assert(c == sha@[i as int]);
        if !is_hex_digit(c) {
            return false;
        }
        if c != '0' {
            all_zero = false;
        }
        i += 1;
    }
    !all_zero
}

/// A request is admitted exactly when the evidence is there and sound, the change
/// breaks no rule and every ceiling leaves room for it; the reservation is then
/// the projected cost.
pub proof fn admission_rests_on_sound_evidence(
    policy: Option<&AdmissionPolicy>,
    request: AdmissionRequest,
    snapshot: Option<&BudgetSnapshot>,
    now: int,
)
    ensures
        decision_of(policy, request, snapshot, now) is Admit <==> {
            &&& policy is Some
            &&& snapshot is Some
            &&& snapshot->Some_0.data_complete
            &&& 0 <= now - snapshot->Some_0.captured_at_unix_seconds
                <= policy->Some_0.max_snapshot_age_seconds
            &&& full_sha(request.head_sha@)
            &&& request.head_sha@ == snapshot->Some_0.observed_head_sha@
            &&& snapshot->Some_0.reserved_minutes_today + request.projected.minutes() <= u64::MAX
            &&& policy_fault(*policy->Some_0, request) is None
            &&& capacity_fault(*policy->Some_0, request, *snapshot->Some_0) is None
        },
        decision_of(policy, request, snapshot, now) matches AdmissionDecision::Admit {
            reserved_minutes,
        } ==> reserved_minutes == request.projected.minutes(),
{
    assert(request.projected.minutes() >= 0) by (nonlinear_arith)
        requires
            request.projected.minutes() == request.projected.runner_jobs
                * request.projected.max_job_timeout_minutes
                + request.projected.fixed_runner_minutes,
    ;
}

/// What is admitted stays within the budget of the change and of the day.
pub proof fn admitted_work_fits_the_budgets(
    policy: &AdmissionPolicy,
    request: AdmissionRequest,
    snapshot: &BudgetSnapshot,
    now: int,
)
    ensures
        decision_of(Some(policy), request, Some(snapshot), now) matches AdmissionDecision::Admit {
            reserved_minutes,
        } ==> {
            &&& reserved_minutes <= policy.max_reserved_minutes_per_change
            &&& snapshot.reserved_minutes_today + reserved_minutes
                <= policy.max_reserved_minutes_per_day
            &&& snapshot.estate_inflight < policy.max_inflight_estate
            &&& snapshot.repository_inflight < policy.max_inflight_repository
        },
{
    admission_rests_on_sound_evidence(Some(policy), request, Some(snapshot), now);
}

/// Who asks makes no difference to the decision.
pub proof fn the_producer_is_no_bypass(
    policy: Option<&AdmissionPolicy>,
    request: AdmissionRequest,
    producer: ProducerClass,
    snapshot: Option<&BudgetSnapshot>,
    now: int,
)
    ensures
        decision_of(policy, request, snapshot, now) == decision_of(
            policy,
            AdmissionRequest { producer, ..request },
            snapshot,
            now,
        ),
{
}

/// A denied request stays denied, for the same reason, whatever happens to the
/// work in flight and to the open pull requests.
pub proof fn a_drained_queue_admits_nothing_malformed(
    policy: &AdmissionPolicy,
    request: AdmissionRequest,
    before: &BudgetSnapshot,
    after: &BudgetSnapshot,
    now: int,
)
    requires
        after.captured_at_unix_seconds == before.captured_at_unix_seconds,
        after.data_complete == before.data_complete,
        after.observed_head_sha@ == before.observed_head_sha@,
        after.reserved_minutes_today == before.reserved_minutes_today,
        decision_of(Some(policy), request, Some(before), now) is Deny,
    ensures
        decision_of(Some(policy), request, Some(after), now) == decision_of(
            Some(policy),
            request,
            Some(before),
            now,
        ),
{
}

/// A change that is quarantined is quarantined for what it is: no snapshot with
/// sound evidence gets it anything else.
pub proof fn quarantine_does_not_wait_for_capacity(
    policy: &AdmissionPolicy,
    request: AdmissionRequest,
    before: &BudgetSnapshot,
    after: &BudgetSnapshot,
    now: int,
)
    requires
        decision_of(Some(policy), request, Some(before), now) is Quarantine,
        evidence_fault(*policy, request, *after, now) is None,
    ensures
        decision_of(Some(policy), request, Some(after), now) == decision_of(
            Some(policy),
            request,
            Some(before),
            now,
        ),
{
}

/// A release or a deployment is never admitted without a human's approval.
pub proof fn privilege_needs_approval(
    policy: Option<&AdmissionPolicy>,
    request: AdmissionRequest,
    snapshot: Option<&BudgetSnapshot>,
    now: int,
)
    requires
        request.operation.privileged(),
        request.approval != ApprovalState::HumanApproved,
    ensures
        !(decision_of(policy, request, snapshot, now) is Admit),
        !(decision_of(policy, request, snapshot, now) is Queue),
{
}

/// A request is admitted exactly where all of this holds, each over what was asked for and
/// what was observed: a policy and a complete snapshot of the right age for the very head that
/// was asked for, a cost that can be counted, a known topology, no workflow file and no trigger
/// that the policy does not opt in to, an approval where the operation is a release or a
/// deployment, and room under every ceiling.
pub proof fn admission_is_exact(
    policy: Option<&AdmissionPolicy>,
    request: AdmissionRequest,
    snapshot: Option<&BudgetSnapshot>,
    now: int,
)
    ensures
        decision_of(policy, request, snapshot, now) is Admit <==> {
            let cost = request.projected;
            let minutes = cost.runner_jobs * cost.max_job_timeout_minutes
                + cost.fixed_runner_minutes;
            &&& policy matches Some(p)
            &&& snapshot matches Some(s)
            &&& s.data_complete
            &&& s.captured_at_unix_seconds <= now
            &&& now - s.captured_at_unix_seconds <= p.max_snapshot_age_seconds
            &&& request.head_sha@ == s.observed_head_sha@
            &&& request.head_sha@.len() == 40
            &&& forall|i: int| 0 <= i < 40 ==> hex_digit(#[trigger] request.head_sha@[i])
            &&& exists|i: int| 0 <= i < 40 && #[trigger] request.head_sha@[i] != '0'
            &&& s.reserved_minutes_today + minutes <= u64::MAX
            &&& cost.topology == TopologyKnowledge::Known
            &&& cost.new_workflow_files > 0 ==> p.allow_new_workflow_files
            &&& cost.trigger_expansions > 0 ==> p.allow_trigger_expansion
            &&& request.operation == OperationClass::Release || request.operation
                == OperationClass::Deployment ==> request.approval == ApprovalState::HumanApproved
            &&& cost.automatic_workflows <= p.max_automatic_workflows_per_change
            &&& cost.runner_jobs <= p.max_runner_jobs_per_change
            &&& minutes <= p.max_reserved_minutes_per_change
            &&& s.reserved_minutes_today + minutes <= p.max_reserved_minutes_per_day
            &&& s.estate_inflight < p.max_inflight_estate
            &&& s.repository_inflight < p.max_inflight_repository
            &&& request.operation == OperationClass::CreatePullRequest ==> {
                &&& s.estate_open_automation_prs < p.max_open_automation_prs_estate
                &&& s.repository_open_automation_prs < p.max_open_automation_prs_repository
            }
        },
        decision_of(policy, request, snapshot, now) matches AdmissionDecision::Admit {
            reserved_minutes,
        } ==> reserved_minutes == request.projected.runner_jobs
            * request.projected.max_job_timeout_minutes + request.projected.fixed_runner_minutes,
{
    admission_rests_on_sound_evidence(policy, request, snapshot, now);
}

/// Nothing that adds workflow files or broadens triggers is admitted or put in the queue
/// unless the policy opts in to just that; nor is anything of an unknown topology, over the
/// caps on its size, or privileged without an approval.
pub proof fn a_change_needs_its_own_opt_in(
    policy: &AdmissionPolicy,
    request: AdmissionRequest,
    snapshot: &BudgetSnapshot,
    now: int,
)
    ensures
        ({
            let decision = decision_of(Some(policy), request, Some(snapshot), now);
            decision is Admit || decision is Queue ==> {
                &&& request.projected.topology == TopologyKnowledge::Known
                &&& request.projected.new_workflow_files > 0 ==> policy.allow_new_workflow_files
                &&& request.projected.trigger_expansions > 0 ==> policy.allow_trigger_expansion
                &&& request.operation == OperationClass::Release || request.operation
                    == OperationClass::Deployment ==> request.approval
                    == ApprovalState::HumanApproved
                &&& request.projected.automatic_workflows
                    <= policy.max_automatic_workflows_per_change
                &&& request.projected.runner_jobs <= policy.max_runner_jobs_per_change
            }
        }),
{
}

/// The reason of a decision is a fault that is there, and no fault that comes before it is:
/// the evidence is looked at in the order of its age, its head and its cost, the change in the
/// order of its topology, its files, its triggers, its privilege and its size, and the capacity
/// last.
pub proof fn a_reason_is_the_first_fault(
    policy: &AdmissionPolicy,
    request: AdmissionRequest,
    snapshot: &BudgetSnapshot,
    now: int,
)
    ensures
        ({
            let cost = request.projected;
            let minutes = cost.runner_jobs * cost.max_job_timeout_minutes
                + cost.fixed_runner_minutes;
            let dated = snapshot.data_complete && snapshot.captured_at_unix_seconds <= now && now
                - snapshot.captured_at_unix_seconds <= policy.max_snapshot_age_seconds;
            let sound = dated && full_sha(request.head_sha@) && request.head_sha@
                == snapshot.observed_head_sha@ && snapshot.reserved_minutes_today + minutes
                <= u64::MAX;
            let files_ok = cost.new_workflow_files == 0 || policy.allow_new_workflow_files;
            let triggers_ok = cost.trigger_expansions == 0 || policy.allow_trigger_expansion;
            let opens_pr = request.operation == OperationClass::CreatePullRequest;
            match decision_of(Some(policy), request, Some(snapshot), now) {
                AdmissionDecision::Admit { .. } => sound,
                AdmissionDecision::Deny { reason } => !sound && match reason {
                    AdmissionReason::IncompleteBudgetSnapshot => !snapshot.data_complete,
                    AdmissionReason::BudgetSnapshotFromFuture => snapshot.data_complete
                        && snapshot.captured_at_unix_seconds > now,
                    AdmissionReason::StaleBudgetSnapshot => snapshot.data_complete && now
                        > snapshot.captured_at_unix_seconds + policy.max_snapshot_age_seconds,
                    AdmissionReason::InvalidHeadSha => dated && (!full_sha(request.head_sha@)
                        || !full_sha(snapshot.observed_head_sha@)),
                    AdmissionReason::HeadShaChanged => dated && full_sha(request.head_sha@)
                        && full_sha(snapshot.observed_head_sha@) && request.head_sha@
                        != snapshot.observed_head_sha@,
                    AdmissionReason::CostOverflow => dated && request.head_sha@
                        == snapshot.observed_head_sha@ && snapshot.reserved_minutes_today + minutes
                        > u64::MAX,
                    _ => false,
                },
                AdmissionDecision::Quarantine { reason } => sound && match reason {
                    AdmissionReason::DynamicTopology => cost.topology
                        == TopologyKnowledge::Dynamic,
                    AdmissionReason::UnknownTopology => cost.topology
                        == TopologyKnowledge::Unknown,
                    AdmissionReason::WorkflowFilesAdded => cost.topology
                        == TopologyKnowledge::Known && !files_ok,
                    AdmissionReason::TriggerExpanded => cost.topology == TopologyKnowledge::Known
                        && files_ok && !triggers_ok,
                    AdmissionReason::PrivilegedOperationNeedsApproval => cost.topology
                        == TopologyKnowledge::Known && files_ok && triggers_ok && (
                    request.operation == OperationClass::Release || request.operation
                        == OperationClass::Deployment) && request.approval
                        == ApprovalState::NotApproved,
                    AdmissionReason::AutomaticWorkflowCapExceeded => cost.topology
                        == TopologyKnowledge::Known && files_ok && triggers_ok
                        && cost.automatic_workflows > policy.max_automatic_workflows_per_change,
                    AdmissionReason::RunnerJobCapExceeded => cost.topology
                        == TopologyKnowledge::Known && files_ok && triggers_ok
                        && cost.automatic_workflows <= policy.max_automatic_workflows_per_change
                        && cost.runner_jobs > policy.max_runner_jobs_per_change,
                    _ => false,
                },
                AdmissionDecision::Queue { reason } => sound && files_ok && triggers_ok && {
                    let in_change = minutes <= policy.max_reserved_minutes_per_change;
                    let in_estate = snapshot.estate_inflight < policy.max_inflight_estate;
                    let in_repo = snapshot.repository_inflight < policy.max_inflight_repository;
                    match reason {
                        AdmissionReason::ChangeBudgetExceeded => !in_change,
                        AdmissionReason::EstateInflightCapReached => in_change && !in_estate,
                        AdmissionReason::RepositoryInflightCapReached => in_change && in_estate
                            && !in_repo,
                        AdmissionReason::EstateOpenPrCapReached => in_change && in_estate && in_repo
                            && opens_pr && snapshot.estate_open_automation_prs
                            >= policy.max_open_automation_prs_estate,
                        AdmissionReason::RepositoryOpenPrCapReached => in_change && in_estate
                            && in_repo && opens_pr && snapshot.estate_open_automation_prs
                            < policy.max_open_automation_prs_estate
                            && snapshot.repository_open_automation_prs
                            >= policy.max_open_automation_prs_repository,
                        AdmissionReason::DailyBudgetExceeded => in_change && in_estate && in_repo
                            && (opens_pr ==> snapshot.estate_open_automation_prs
                            < policy.max_open_automation_prs_estate
                            && snapshot.repository_open_automation_prs
                            < policy.max_open_automation_prs_repository)
                            && snapshot.reserved_minutes_today + minutes
                            > policy.max_reserved_minutes_per_day,
                        _ => false,
                    }
                },
            }
        }),
{
}

/// Without a policy or without a snapshot a request is denied for just that, the policy first.
pub proof fn absent_evidence_is_denied(
    policy: Option<&AdmissionPolicy>,
    request: AdmissionRequest,
    snapshot: Option<&BudgetSnapshot>,
    now: int,
)
    ensures
        policy is None ==> decision_of(policy, request, snapshot, now) == (
        AdmissionDecision::Deny { reason: AdmissionReason::MissingPolicy }),
        policy is Some && snapshot is None ==> decision_of(policy, request, snapshot, now) == (
        AdmissionDecision::Deny { reason: AdmissionReason::MissingBudgetSnapshot }),
{
}

} // verus!
