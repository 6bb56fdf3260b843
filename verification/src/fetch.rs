//! From what GitHub says about a pull request to a gate.
//!
//! The required contexts come from the branch's rulesets and from its classic
//! protection, both of which GitHub enforces; the runs come from the pull request's
//! rollup. A context without a run of its exact name is missing. That a branch requires
//! nothing is a finding of its own and never confused with a failure to look.
use vstd::prelude::*;

pub use crate::actions_policy::{
    decoded, fetch_actions_policy, fetched_policy, parse_policy, policy_from, wants_selected,
    ActionsPolicy, Fetched, FetchedModel, PermissionsModel, PermissionsResponse, PostureModel,
    SelectedActionsResponse, SelectedModel,
};
pub use crate::fetch_error::{fetch_view, ErrorModel, FetchError};
pub use crate::required::{
    classic_contexts, contexts_from, contexts_or_no_gate, gated, parse_classic_contexts, probe_in,
    probe_from_stderr, required_contexts_from_apis, ruled, ClassicProtection,
    ClassicRequiredChecks, ProbeModel, ProtectionModel, ProtectionProbe, RuleModel, RulesetRule,
};
pub use crate::rollup::{
    build_gate, gate_of, greens_from_rollup, greens_in, job_id_from_details_url, parse_rollup,
    refused_among, startup_failures_from_rollup, EntryModel, GreenCheck, GreenModel, RollupEntry,
};

use crate::gate::{CheckModel, Gate};
use crate::polarity::{
    conclusion_of, conclusions_are_read_word_by_word, StepConclusion, StepModel, StepOutcome,
};
use crate::required::lemma_distinct_empty;
use crate::text::{
    cat2, cat3, cat4, cat5, cat6, contains, holds_text, join, joined, result_view, trim, trimmed,
};

verus! {

/// One step of a job, as the jobs API reports it.
#[derive(Debug, PartialEq, Eq)]
pub struct JobStep {
    pub name: String,
    pub conclusion: Option<String>,
}

/// A job, as the jobs API reports it.
#[derive(Debug, PartialEq, Eq)]
pub struct JobView {
    pub steps: Vec<JobStep>,
}

/// A [`JobStep`] as a mathematical value.
pub struct JobStepModel {
    pub name: Seq<char>,
    pub conclusion: Option<Seq<char>>,
}

impl DeepView for JobStep {
    type V = JobStepModel;

    open spec fn deep_view(&self) -> JobStepModel {
        JobStepModel { name: self.name@, conclusion: self.conclusion.deep_view() }
    }
}

impl DeepView for JobView {
    type V = Seq<JobStepModel>;

    open spec fn deep_view(&self) -> Seq<JobStepModel> {
        self.steps.deep_view()
    }
}

/// The steps of a decoded job, each with its conclusion.
pub open spec fn steps_from(job: Result<Seq<JobStepModel>, Seq<char>>) -> Result<
    Seq<StepModel>,
    Seq<char>,
> {
    match job {
        Ok(steps) => Ok(
            steps.map_values(
                |s: JobStepModel|
                    StepModel { name: s.name, conclusion: conclusion_of(s.conclusion) },
            ),
        ),
        Err(e) => Err("could not parse job response: "@ + e),
    }
}

/// The steps of a decoded job, each with its conclusion.
pub fn parse_steps(job: Result<JobView, String>) -> (r: Result<Vec<StepOutcome>, String>)
    ensures
        result_view(r) == steps_from(result_view(job)),
{
    let job: JobView = match job {
        Ok(job) => job,
        Err(e) => {
            return Err(cat2("could not parse job response: ", &e));
        },
    };
    let ghost want = steps_from(Ok(job.deep_view()))->Ok_0;
    let mut r: Vec<StepOutcome> = Vec::new();
    let mut i: usize = 0;
    assert(r.deep_view() =~= want.take(0));
    while i < job.steps.len()
        invariant
            i <= job.steps@.len(),
            want == steps_from(Ok(job.deep_view()))->Ok_0,
            r.deep_view() == want.take(i as int),
        decreases job.steps@.len() - i,
    {
        let ghost sofar = r.deep_view();
        let step: &JobStep = &job.steps[i];
        assert(job.deep_view()[i as int] == step.deep_view());
        let conclusion: StepConclusion = match &step.conclusion {
            Some(text) => StepConclusion::parse(Some(text.as_str())),
            None => StepConclusion::parse(None),
        };
        r.push(StepOutcome::new(&step.name, conclusion));
        assert(r.deep_view() =~= sofar.push(want[i as int]));
        i += 1;
        assert(r.deep_view() =~= want.take(i as int));
    }
    assert(want.take(want.len() as int) =~= want);
    Ok(r)
}

/// The steps of a job, from the call for it.
pub fn fetch_step_outcomes(job: Fetched<JobView>) -> (r: Result<Vec<StepOutcome>, String>)
    ensures
        result_view(r) == match job.deep_view() {
            FetchedModel::Failed(e) => Err(e),
            other => steps_from(decoded(other)),
        },
{
    match job {
        Fetched::Failed(e) => Err(e),
        Fetched::Unparsed(e) => parse_steps(Err(e)),
        Fetched::Parsed(job) => parse_steps(Ok(job)),
    }
}

/// What came of running `gh`.
#[derive(Debug, PartialEq, Eq)]
pub enum GhOutcome {
    /// It could not be run.
    NotRun { error: String },
    /// It ran. `status` is how the host shows its exit status.
    Exited { success: bool, status: String, stdout: String, stderr: String },
}

/// A [`GhOutcome`] as a mathematical value.
pub enum GhModel {
    NotRun { error: Seq<char> },
    Exited { success: bool, status: Seq<char>, stdout: Seq<char>, stderr: Seq<char> },
}

impl DeepView for GhOutcome {
    type V = GhModel;

    open spec fn deep_view(&self) -> GhModel {
        match self {
            GhOutcome::NotRun { error } => GhModel::NotRun { error: error@ },
            GhOutcome::Exited { success, status, stdout, stderr } => GhModel::Exited {
                success: *success,
                status: status@,
                stdout: stdout@,
                stderr: stderr@,
            },
        }
    }
}

/// The output of `gh`, or why there is none.
pub open spec fn gh_output(args: Seq<Seq<char>>, outcome: GhModel) -> Result<Seq<char>, Seq<char>> {
    let command = joined(args, " "@);
    match outcome {
        GhModel::NotRun { error } => Err("failed to run `gh "@ + command + "`: "@ + error),
        GhModel::Exited { success, status, stdout, stderr } => if success {
            Ok(stdout)
        } else {
            Err("`gh "@ + command + "` exited "@ + status + ": "@ + trimmed(stderr))
        },
    }
}

/// The output of `gh`, or why there is none.
pub fn run_gh(args: &Vec<String>, outcome: GhOutcome) -> (r: Result<String, String>)
    ensures
        result_view(r) == gh_output(args.deep_view(), outcome.deep_view()),
{
    let command: String = join(args, " ");
    match outcome {
        GhOutcome::NotRun { error } => Err(
            cat4("failed to run `gh ", &command, "`: ", &error),
        ),
        GhOutcome::Exited { success, status, stdout, stderr } => if success {
            Ok(stdout)
        } else {
            Err(
                cat6("`gh ", &command, "` exited ", &status, ": ", trim(&stderr)),
            )
        },
    }
}

/// What came of the call for the classic protection of a branch.
#[derive(Debug, PartialEq, Eq)]
pub enum ProtectionReply {
    /// It could not be made.
    NotRun { error: String },
    /// It succeeded; the payload, or why it could not be decoded.
    Payload(Result<ClassicProtection, String>),
    /// It failed. `status` is how the host shows its exit status.
    Exited { status: String, stderr: String },
}

/// A [`ProtectionReply`] as a mathematical value.
pub enum ProtectionReplyModel {
    NotRun { error: Seq<char> },
    Payload(Result<ProtectionModel, Seq<char>>),
    Exited { status: Seq<char>, stderr: Seq<char> },
}

impl DeepView for ProtectionReply {
    type V = ProtectionReplyModel;

    open spec fn deep_view(&self) -> ProtectionReplyModel {
        match self {
            ProtectionReply::NotRun { error } => ProtectionReplyModel::NotRun { error: error@ },
            ProtectionReply::Payload(p) => ProtectionReplyModel::Payload(result_view(*p)),
            ProtectionReply::Exited { status, stderr } => ProtectionReplyModel::Exited {
                status: status@,
                stderr: stderr@,
            },
        }
    }
}

/// Where the classic protection of a branch is to be had.
pub open spec fn protection_path(slug: Seq<char>, branch: Seq<char>) -> Seq<char> {
    "repos/"@ + slug + "/branches/"@ + branch + "/protection"@
}

/// What the call for the classic protection shows.
pub open spec fn probed(
    slug: Seq<char>,
    branch: Seq<char>,
    reply: ProtectionReplyModel,
) -> Result<ProbeModel, Seq<char>> {
    match reply {
        ProtectionReplyModel::NotRun { error } => Err(
            "failed to run `gh api …/protection`: "@ + error,
        ),
        ProtectionReplyModel::Payload(p) => Ok(ProbeModel::Protected(p)),
        ProtectionReplyModel::Exited { status, stderr } => match probe_in(stderr) {
            Some(probe) => Ok(probe),
            None => Err(
                "`gh api "@ + protection_path(slug, branch) + "` exited "@ + status + ": "@
                    + trimmed(stderr),
            ),
        },
    }
}

fn path_to_protection(slug: &str, branch: &str) -> (r: String)
    ensures
        r@ == protection_path(slug@, branch@),
{
    cat5("repos/", slug, "/branches/", branch, "/protection")
}

/// What the call for the classic protection shows.
pub fn probe_classic_protection(slug: &str, branch: &str, reply: ProtectionReply) -> (r: Result<
    ProtectionProbe,
    String,
>)
    ensures
        result_view(r) == probed(slug@, branch@, reply.deep_view()),
{
    match reply {
        ProtectionReply::NotRun { error } => Err(
            cat2("failed to run `gh api …/protection`: ", &error),
        ),
        ProtectionReply::Payload(p) => Ok(ProtectionProbe::Protected(p)),
        ProtectionReply::Exited { status, stderr } => match probe_from_stderr(&stderr) {
            Some(probe) => Ok(probe),
            None => {
                let path: String = path_to_protection(slug, branch);
                Err(
                    cat6(
                        "`gh api ",
                        &path,
                        "` exited ",
                        &status,
                        ": ",
                        trim(&stderr),
                    ),
                )
            },
        },
    }
}

/// What came of looking into the permissions for Actions.
#[derive(Debug, PartialEq, Eq)]
pub enum PolicyProbe {
    /// No required context failed at startup, so nothing was asked.
    NotTriggered,
    /// The permissions.
    Fetched(ActionsPolicy),
    /// They were asked for and could not be had.
    Failed(String),
}

/// A [`PolicyProbe`] as a mathematical value.
pub enum PolicyProbeModel {
    NotTriggered,
    Fetched(PostureModel),
    Failed(Seq<char>),
}

impl DeepView for PolicyProbe {
    type V = PolicyProbeModel;

    open spec fn deep_view(&self) -> PolicyProbeModel {
        match self {
            PolicyProbe::NotTriggered => PolicyProbeModel::NotTriggered,
            PolicyProbe::Fetched(p) => PolicyProbeModel::Fetched(p.deep_view()),
            PolicyProbe::Failed(e) => PolicyProbeModel::Failed(e@),
        }
    }
}

/// All that is fetched for a fight.
#[derive(Debug, PartialEq, Eq)]
pub struct FetchBundle {
    /// The required contexts with their runs.
    pub gate: Gate,
    /// The checks that succeeded and can be inspected.
    pub greens: Vec<GreenCheck>,
    /// The required contexts whose run failed at startup.
    pub startup_failed: Vec<String>,
    /// The permissions for Actions that may be why.
    pub policy_probe: PolicyProbe,
}

/// A [`FetchBundle`] as a mathematical value.
pub struct BundleModel {
    pub gate: Seq<CheckModel>,
    pub greens: Seq<GreenModel>,
    pub startup_failed: Seq<Seq<char>>,
    pub policy_probe: PolicyProbeModel,
}

impl DeepView for FetchBundle {
    type V = BundleModel;

    open spec fn deep_view(&self) -> BundleModel {
        BundleModel {
            gate: self.gate.deep_view(),
            greens: self.greens.deep_view(),
            startup_failed: self.startup_failed.deep_view(),
            policy_probe: self.policy_probe.deep_view(),
        }
    }
}

/// A pull request: the branch that it goes to and its rollup.
#[derive(Debug, PartialEq, Eq)]
pub struct PrView {
    pub base_ref_name: String,
    pub status_check_rollup: Vec<RollupEntry>,
}

/// A [`PrView`] as a mathematical value.
pub struct PrModel {
    pub base_ref_name: Seq<char>,
    pub status_check_rollup: Seq<EntryModel>,
}

impl DeepView for PrView {
    type V = PrModel;

    open spec fn deep_view(&self) -> PrModel {
        PrModel {
            base_ref_name: self.base_ref_name@,
            status_check_rollup: self.status_check_rollup.deep_view(),
        }
    }
}

/// How far a fetch has got, with the answer to what was asked last.
#[derive(Debug, PartialEq, Eq)]
pub enum FetchPoint {
    /// Nothing was asked yet.
    Start,
    /// The call for the pull request was made.
    PullRequest { fetched: Fetched<PrView> },
    /// The call for the rules was made.
    Rules { view: PrView, fetched: Fetched<Vec<RulesetRule>> },
    /// The classic protection was looked for.
    Protection {
        view: PrView,
        rules: Result<Vec<RulesetRule>, String>,
        protection: Result<ProtectionProbe, String>,
    },
    /// The permissions for Actions were looked for.
    Policy {
        view: PrView,
        contexts: Vec<String>,
        startup_failed: Vec<String>,
        policy: Result<ActionsPolicy, String>,
    },
}

/// A [`FetchPoint`] as a mathematical value.
pub enum PointModel {
    Start,
    PullRequest { fetched: FetchedModel<PrModel> },
    Rules { view: PrModel, fetched: FetchedModel<Seq<RuleModel>> },
    Protection {
        view: PrModel,
        rules: Result<Seq<RuleModel>, Seq<char>>,
        protection: Result<ProbeModel, Seq<char>>,
    },
    Policy {
        view: PrModel,
        contexts: Seq<Seq<char>>,
        startup_failed: Seq<Seq<char>>,
        policy: Result<PostureModel, Seq<char>>,
    },
}

impl DeepView for FetchPoint {
    type V = PointModel;

    open spec fn deep_view(&self) -> PointModel {
        match self {
            FetchPoint::Start => PointModel::Start,
            FetchPoint::PullRequest { fetched } => PointModel::PullRequest {
                fetched: fetched.deep_view(),
            },
            FetchPoint::Rules { view, fetched } => PointModel::Rules {
                view: view.deep_view(),
                fetched: fetched.deep_view(),
            },
            FetchPoint::Protection { view, rules, protection } => PointModel::Protection {
                view: view.deep_view(),
                rules: result_view(*rules),
                protection: result_view(*protection),
            },
            FetchPoint::Policy { view, contexts, startup_failed, policy } => PointModel::Policy {
                view: view.deep_view(),
                contexts: contexts.deep_view(),
                startup_failed: startup_failed.deep_view(),
                policy: result_view(*policy),
            },
        }
    }
}

/// What a fetch asks for next, or what it ended in. What it asks for carries what has
/// to be handed back with the answer.
#[derive(Debug, PartialEq, Eq)]
pub enum FetchStep {
    /// The pull request, by `gh` with these arguments.
    AskPullRequest { args: Vec<String> },
    /// The rules of the branch, by `gh` with these arguments.
    AskRules { args: Vec<String>, view: PrView },
    /// The classic protection of the branch, by `gh api` with this path.
    AskProtection { path: String, view: PrView, rules: Result<Vec<RulesetRule>, String> },
    /// The permissions for Actions.
    AskPolicy { view: PrView, contexts: Vec<String>, startup_failed: Vec<String> },
    /// Nothing more.
    Finished(Result<FetchBundle, FetchError>),
}

/// A [`FetchStep`] as a mathematical value.
pub enum StepAskedModel {
    AskPullRequest { args: Seq<Seq<char>> },
    AskRules { args: Seq<Seq<char>>, view: PrModel },
    AskProtection { path: Seq<char>, view: PrModel, rules: Result<Seq<RuleModel>, Seq<char>> },
    AskPolicy { view: PrModel, contexts: Seq<Seq<char>>, startup_failed: Seq<Seq<char>> },
    Finished(Result<BundleModel, ErrorModel>),
}

impl DeepView for FetchStep {
    type V = StepAskedModel;

    open spec fn deep_view(&self) -> StepAskedModel {
        match self {
            FetchStep::AskPullRequest { args } => StepAskedModel::AskPullRequest {
                args: args.deep_view(),
            },
            FetchStep::AskRules { args, view } => StepAskedModel::AskRules {
                args: args.deep_view(),
                view: view.deep_view(),
            },
            FetchStep::AskProtection { path, view, rules } => StepAskedModel::AskProtection {
                path: path@,
                view: view.deep_view(),
                rules: result_view(*rules),
            },
            FetchStep::AskPolicy { view, contexts, startup_failed } => StepAskedModel::AskPolicy {
                view: view.deep_view(),
                contexts: contexts.deep_view(),
                startup_failed: startup_failed.deep_view(),
            },
            FetchStep::Finished(r) => StepAskedModel::Finished(fetch_view(*r)),
        }
    }
}

/// The end of a fetch that failed.
pub open spec fn failed(message: Seq<char>) -> StepAskedModel {
    StepAskedModel::Finished(Err(ErrorModel::Failed(message)))
}

/// What a fetch of a gate with these contexts comes to.
pub open spec fn bundle_of(
    view: PrModel,
    contexts: Seq<Seq<char>>,
    startup_failed: Seq<Seq<char>>,
    policy_probe: PolicyProbeModel,
) -> BundleModel {
    BundleModel {
        gate: gate_of(contexts, view.status_check_rollup),
        greens: greens_in(view.status_check_rollup, view.status_check_rollup.len() as int),
        startup_failed,
        policy_probe,
    }
}

/// One step of a fetch: the pull request first, then the rules and the protection of
/// its branch, and the permissions for Actions where a required context failed at
/// startup. The first failure ends it; that the permissions cannot be had does not.
pub open spec fn fetch_step(slug: Seq<char>, pr: Seq<char>, point: PointModel) -> StepAskedModel {
    match point {
        PointModel::Start => if holds_text(slug, "/"@) {
            StepAskedModel::AskPullRequest {
                args: seq![
                    "pr"@,
                    "view"@,
                    pr,
                    "--repo"@,
                    slug,
                    "--json"@,
                    "baseRefName,statusCheckRollup"@,
                ],
            }
        } else {
            failed("expected `owner/repo`, got `"@ + slug + "`"@)
        },
        PointModel::PullRequest { fetched } => match fetched {
            FetchedModel::Failed(e) => failed(e),
            FetchedModel::Unparsed(e) => failed("could not parse `gh pr view` output: "@ + e),
            FetchedModel::Parsed(view) => StepAskedModel::AskRules {
                args: seq![
                    "api"@,
                    "repos/"@ + slug + "/rules/branches/"@ + view.base_ref_name,
                ],
                view,
            },
        },
        PointModel::Rules { view, fetched } => match fetched {
            FetchedModel::Failed(e) => failed(e),
            other => StepAskedModel::AskProtection {
                path: protection_path(slug, view.base_ref_name),
                view,
                rules: decoded(other),
            },
        },
        PointModel::Protection { view, rules, protection } => match protection {
            Err(e) => failed(e),
            Ok(probe) => match contexts_from(rules, probe) {
                Err(e) => StepAskedModel::Finished(Err(e)),
                Ok(contexts) => match gated(contexts, slug, view.base_ref_name) {
                    Err(e) => StepAskedModel::Finished(Err(e)),
                    Ok(contexts) => {
                        let startup_failed = refused_among(
                            contexts,
                            contexts.len() as int,
                            view.status_check_rollup,
                        );
                        if startup_failed.len() == 0 {
                            StepAskedModel::Finished(
                                Ok(
                                    bundle_of(
                                        view,
                                        contexts,
                                        startup_failed,
                                        PolicyProbeModel::NotTriggered,
                                    ),
                                ),
                            )
                        } else {
                            StepAskedModel::AskPolicy { view, contexts, startup_failed }
                        }
                    },
                },
            },
        },
        PointModel::Policy { view, contexts, startup_failed, policy } => StepAskedModel::Finished(
            Ok(
                bundle_of(
                    view,
                    contexts,
                    startup_failed,
                    match policy {
                        Ok(p) => PolicyProbeModel::Fetched(p),
                        Err(e) => PolicyProbeModel::Failed(e),
                    },
                ),
            ),
        ),
    }
}

fn give_up(message: String) -> (r: FetchStep)
    ensures
        r.deep_view() == failed(message@),
{
    FetchStep::Finished(Err(FetchError::Failed(message)))
}

fn assemble(
    view: &PrView,
    contexts: &Vec<String>,
    startup_failed: Vec<String>,
    policy_probe: PolicyProbe,
) -> (r: FetchBundle)
    ensures
        r.deep_view() == bundle_of(
            view.deep_view(),
            contexts.deep_view(),
            startup_failed.deep_view(),
            policy_probe.deep_view(),
        ),
{
    FetchBundle {
        gate: build_gate(contexts.as_slice(), view.status_check_rollup.as_slice()),
        greens: greens_from_rollup(view.status_check_rollup.as_slice()),
        startup_failed,
        policy_probe,
    }
}

fn ask_pull_request(slug: &str, pr: &str) -> (r: FetchStep)
    ensures
        r.deep_view() == (StepAskedModel::AskPullRequest {
            args: seq![
                "pr"@,
                "view"@,
                pr@,
                "--repo"@,
                slug@,
                "--json"@,
                "baseRefName,statusCheckRollup"@,
            ],
        }),
{
    let mut args: Vec<String> = Vec::new();
    args.push("pr".to_owned());
    args.push("view".to_owned());
    args.push(pr.to_owned());
    args.push("--repo".to_owned());
    args.push(slug.to_owned());
    args.push("--json".to_owned());
    args.push("baseRefName,statusCheckRollup".to_owned());
    assert(args.deep_view() =~= seq![
        "pr"@,
        "view"@,
        pr@,
        "--repo"@,
        slug@,
        "--json"@,
        "baseRefName,statusCheckRollup"@,
    ]);
    FetchStep::AskPullRequest { args }
}

fn ask_rules(slug: &str, view: PrView) -> (r: FetchStep)
    ensures
        r.deep_view() == (StepAskedModel::AskRules {
            args: seq![
                "api"@,
                "repos/"@ + slug@ + "/rules/branches/"@ + view.deep_view().base_ref_name,
            ],
            view: view.deep_view(),
        }),
{
    let mut args: Vec<String> = Vec::new();
    args.push("api".to_owned());
    args.push(cat4("repos/", slug, "/rules/branches/", &view.base_ref_name));
    assert(args.deep_view() =~= seq![
        "api"@,
        "repos/"@ + slug@ + "/rules/branches/"@ + view.deep_view().base_ref_name,
    ]);
    FetchStep::AskRules { args, view }
}

/// One step of a fetch for pull request `pr` of `slug`.
///
/// The host starts with [`FetchPoint::Start`], makes the call that is asked for and
/// hands its result back, until the fetch is finished.
pub fn run_bundle(slug: &str, pr: &str, point: FetchPoint) -> (r: FetchStep)
    ensures
        r.deep_view() == fetch_step(slug@, pr@, point.deep_view()),
{
    match point {
        FetchPoint::Start => if contains(slug, "/") {
            ask_pull_request(slug, pr)
        } else {
            give_up(cat3("expected `owner/repo`, got `", slug, "`"))
        },
        FetchPoint::PullRequest { fetched } => match fetched {
            Fetched::Failed(e) => give_up(e),
            Fetched::Unparsed(e) => give_up(cat2("could not parse `gh pr view` output: ", &e)),
            Fetched::Parsed(view) => ask_rules(slug, view),
        },
        FetchPoint::Rules { view, fetched } => {
            let path: String = path_to_protection(slug, &view.base_ref_name);
            match fetched {
                Fetched::Failed(e) => give_up(e),
                Fetched::Unparsed(e) => FetchStep::AskProtection { path, view, rules: Err(e) },
                Fetched::Parsed(rules) => FetchStep::AskProtection {
                    path,
                    view,
                    rules: Ok(rules),
                },
            }
        },
        FetchPoint::Protection { view, rules, protection } => {
            let probe: ProtectionProbe = match protection {
                Ok(probe) => probe,
                Err(e) => {
                    return give_up(e);
                },
            };
            let contexts: Vec<String> = match required_contexts_from_apis(&rules, &probe) {
                Ok(contexts) => contexts,
                Err(e) => {
                    return FetchStep::Finished(Err(e));
                },
            };
            let contexts: Vec<String> = match contexts_or_no_gate(
                contexts,
                slug,
                &view.base_ref_name,
            ) {
                Ok(contexts) => contexts,
                Err(e) => {
                    return FetchStep::Finished(Err(e));
                },
            };
            let startup_failed: Vec<String> = startup_failures_from_rollup(
                contexts.as_slice(),
                view.status_check_rollup.as_slice(),
            );
            if startup_failed.len() == 0 {
                FetchStep::Finished(
                    Ok(assemble(&view, &contexts, startup_failed, PolicyProbe::NotTriggered)),
                )
            } else {
                FetchStep::AskPolicy { view, contexts, startup_failed }
            }
        },
        FetchPoint::Policy { view, contexts, startup_failed, policy } => {
            let probe: PolicyProbe = match policy {
                Ok(p) => PolicyProbe::Fetched(p),
                Err(e) => PolicyProbe::Failed(e),
            };
            FetchStep::Finished(Ok(assemble(&view, &contexts, startup_failed, probe)))
        },
    }
}

/// What gate a finished fetch found.
pub fn run(bundle: Result<FetchBundle, FetchError>) -> (r: Result<Gate, FetchError>)
    ensures
        fetch_view(r) == match fetch_view(bundle) {
            Ok(b) => Ok(b.gate),
            Err(e) => Err(e),
        },
{
    match bundle {
        Ok(b) => Ok(b.gate),
        Err(e) => Err(e),
    }
}

/// What gate a finished fetch found, with the checks that succeeded and can be inspected.
pub fn run_with_greens(bundle: Result<FetchBundle, FetchError>) -> (r: Result<
    (Gate, Vec<GreenCheck>),
    FetchError,
>)
    ensures
        fetch_view(r) == match fetch_view(bundle) {
            Ok(b) => Ok((b.gate, b.greens)),
            Err(e) => Err(e),
        },
{
    match bundle {
        Ok(b) => Ok((b.gate, b.greens)),
        Err(e) => Err(e),
    }
}

/// A protection that is not visible is a failure, never the finding that nothing is
/// required, whatever the rulesets say.
pub proof fn hidden_protection_is_never_no_gate(
    slug: Seq<char>,
    pr: Seq<char>,
    view: PrModel,
    rules: Result<Seq<RuleModel>, Seq<char>>,
)
    ensures
        fetch_step(
            slug,
            pr,
            PointModel::Protection { view, rules, protection: Ok(ProbeModel::Hidden) },
        ) matches StepAskedModel::Finished(Err(ErrorModel::Failed(_))),
{
}

/// That nothing is required is found exactly where both mechanisms were read and
/// neither requires anything.
pub proof fn no_gate_means_both_were_read(
    slug: Seq<char>,
    pr: Seq<char>,
    view: PrModel,
    rules: Result<Seq<RuleModel>, Seq<char>>,
    protection: Result<ProbeModel, Seq<char>>,
)
    ensures
        (fetch_step(
            slug,
            pr,
            PointModel::Protection { view, rules, protection },
        ) matches StepAskedModel::Finished(Err(ErrorModel::NoGate { .. }))) <==> {
            &&& rules matches Ok(rs) && ruled(rs, rs.len() as int).len() == 0
            &&& {
                ||| protection == Ok::<ProbeModel, Seq<char>>(ProbeModel::NotProtected)
                ||| protection matches Ok(ProbeModel::Protected(Ok(p))) && classic_contexts(p).len()
                    == 0
            }
        },
{
    if let Ok(rs) = rules {
        let a = ruled(rs, rs.len() as int);
        lemma_distinct_empty(a);
        if let Ok(ProbeModel::Protected(Ok(p))) = protection {
            lemma_distinct_empty(a + classic_contexts(p));
        }
    }
}

/// How many calls a fetch has behind it.
pub open spec fn calls_behind(point: PointModel) -> int {
    match point {
        PointModel::Start => 0,
        PointModel::PullRequest { .. } => 1,
        PointModel::Rules { .. } => 2,
        PointModel::Protection { .. } => 3,
        PointModel::Policy { .. } => 4,
    }
}

/// Each answer moves a fetch on to the next call or ends it, so the host makes each call at
/// most once.
pub proof fn a_fetch_moves_on(slug: Seq<char>, pr: Seq<char>, point: PointModel)
    ensures
        match fetch_step(slug, pr, point) {
            StepAskedModel::AskPullRequest { .. } => calls_behind(point) == 0,
            StepAskedModel::AskRules { .. } => calls_behind(point) == 1,
            StepAskedModel::AskProtection { .. } => calls_behind(point) == 2,
            StepAskedModel::AskPolicy { .. } => calls_behind(point) == 3,
            StepAskedModel::Finished(_) => true,
        },
        point is Policy ==> fetch_step(slug, pr, point) is Finished,
{
}

/// Each step of a job keeps its place and its name and is read by its own conclusion.
pub proof fn steps_keep_their_places(steps: Seq<JobStepModel>, i: int)
    requires
        0 <= i < steps.len(),
    ensures
        steps_from(Ok(steps)) matches Ok(read) && {
            &&& read.len() == steps.len()
            &&& read[i].name == steps[i].name
            &&& read[i].conclusion == StepConclusion::Success <==> steps[i].conclusion == Some(
                "success"@,
            )
            &&& read[i].conclusion == StepConclusion::Skipped <==> steps[i].conclusion == Some(
                "skipped"@,
            )
            &&& read[i].conclusion == StepConclusion::Failure <==> steps[i].conclusion == Some(
                "failure"@,
            )
            &&& read[i].conclusion == StepConclusion::Cancelled <==> steps[i].conclusion == Some(
                "cancelled"@,
            )
        },
{
    conclusions_are_read_word_by_word(steps[i].conclusion);
}

/// The output of `gh` counts exactly where it exited with success; otherwise the command and
/// what went wrong are said.
pub proof fn only_a_successful_call_has_output(args: Seq<Seq<char>>, outcome: GhModel)
    ensures
        match outcome {
            GhModel::NotRun { error } => gh_output(args, outcome) == Err::<Seq<char>, Seq<char>>(
                "failed to run `gh "@ + joined(args, " "@) + "`: "@ + error,
            ),
            GhModel::Exited { success, status, stdout, stderr } => if success {
                gh_output(args, outcome) == Ok::<Seq<char>, Seq<char>>(stdout)
            } else {
                gh_output(args, outcome) == Err::<Seq<char>, Seq<char>>(
                    "`gh "@ + joined(args, " "@) + "` exited "@ + status + ": "@ + trimmed(stderr),
                )
            },
        },
{
}

/// A call for the protection that succeeded shows its payload; one that failed shows that there
/// is none, or that it is not visible, only where its error output says so, and is a failure
/// otherwise.
pub proof fn a_failed_call_shows_only_what_it_says(
    slug: Seq<char>,
    branch: Seq<char>,
    reply: ProtectionReplyModel,
)
    ensures
        match reply {
            ProtectionReplyModel::NotRun { .. } => probed(slug, branch, reply) is Err,
            ProtectionReplyModel::Payload(p) => probed(slug, branch, reply) == Ok::<
                ProbeModel,
                Seq<char>,
            >(ProbeModel::Protected(p)),
            ProtectionReplyModel::Exited { status, stderr } => {
                let absent = holds_text(stderr, "HTTP 404"@) || holds_text(
                    stderr,
                    "Branch not protected"@,
                );
                let hidden = holds_text(stderr, "HTTP 403"@) || holds_text(
                    stderr,
                    "Resource not accessible"@,
                );
                probed(slug, branch, reply) == if absent {
                    Ok::<ProbeModel, Seq<char>>(ProbeModel::NotProtected)
                } else if hidden {
                    Ok(ProbeModel::Hidden)
                } else {
                    Err(
                        "`gh api "@ + ("repos/"@ + slug + "/branches/"@ + branch + "/protection"@)
                            + "` exited "@ + status + ": "@ + trimmed(stderr),
                    )
                }
            },
        },
{
}

/// A fetch asks for the pull request of the repository, for the rules of the branch that it
/// goes to and for the protection of that same branch, and keeps what it was told.
pub proof fn a_fetch_asks_about_the_base_branch(
    slug: Seq<char>,
    pr: Seq<char>,
    view: PrModel,
    rules: Seq<RuleModel>,
)
    ensures
        holds_text(slug, "/"@) ==> fetch_step(slug, pr, PointModel::Start) == (
        StepAskedModel::AskPullRequest {
            args: seq![
                "pr"@,
                "view"@,
                pr,
                "--repo"@,
                slug,
                "--json"@,
                "baseRefName,statusCheckRollup"@,
            ],
        }),
        !holds_text(slug, "/"@) ==> (fetch_step(
            slug,
            pr,
            PointModel::Start,
        ) matches StepAskedModel::Finished(Err(ErrorModel::Failed(_)))),
        fetch_step(slug, pr, PointModel::PullRequest { fetched: FetchedModel::Parsed(view) }) == (
        StepAskedModel::AskRules {
            args: seq!["api"@, "repos/"@ + slug + "/rules/branches/"@ + view.base_ref_name],
            view,
        }),
        fetch_step(slug, pr, PointModel::Rules { view, fetched: FetchedModel::Parsed(rules) }) == (
        StepAskedModel::AskProtection {
            path: "repos/"@ + slug + "/branches/"@ + view.base_ref_name + "/protection"@,
            view,
            rules: Ok(rules),
        }),
{
}

/// The first failure ends a fetch, in its own words: a call that failed, a pull request or
/// rules that could not be decoded, a protection that could not be looked for.
pub proof fn a_failure_ends_a_fetch(
    slug: Seq<char>,
    pr: Seq<char>,
    view: PrModel,
    rules: Result<Seq<RuleModel>, Seq<char>>,
    e: Seq<char>,
)
    ensures
        fetch_step(slug, pr, PointModel::PullRequest { fetched: FetchedModel::Failed(e) })
            == StepAskedModel::Finished(Err(ErrorModel::Failed(e))),
        fetch_step(slug, pr, PointModel::PullRequest { fetched: FetchedModel::Unparsed(e) })
            == StepAskedModel::Finished(
            Err(ErrorModel::Failed("could not parse `gh pr view` output: "@ + e)),
        ),
        fetch_step(slug, pr, PointModel::Rules { view, fetched: FetchedModel::Failed(e) })
            == StepAskedModel::Finished(Err(ErrorModel::Failed(e))),
        fetch_step(slug, pr, PointModel::Protection { view, rules, protection: Err(e) })
            == StepAskedModel::Finished(Err(ErrorModel::Failed(e))),
{
}

/// What is fetched is a gate of the contexts that are required and the runs of this pull
/// request, with its green checks and the contexts that failed at startup. The permissions for
/// Actions are asked for exactly where there are such contexts, and that they cannot be had
/// does not end the fetch.
pub proof fn a_fetch_ends_in_the_gate_of_its_contexts(
    slug: Seq<char>,
    pr: Seq<char>,
    view: PrModel,
    rules: Result<Seq<RuleModel>, Seq<char>>,
    probe: ProbeModel,
    contexts: Seq<Seq<char>>,
    policy: Result<PostureModel, Seq<char>>,
)
    requires
        contexts_from(rules, probe) == Ok::<Seq<Seq<char>>, ErrorModel>(contexts),
        contexts.len() > 0,
    ensures
        ({
            let rollup = view.status_check_rollup;
            let refused = refused_among(contexts, contexts.len() as int, rollup);
            let point = PointModel::Protection { view, rules, protection: Ok(probe) };
            let step = fetch_step(slug, pr, point);
            let asked = PointModel::Policy { view, contexts, startup_failed: refused, policy };
            let bundle = BundleModel {
                gate: gate_of(contexts, rollup),
                greens: greens_in(rollup, rollup.len() as int),
                startup_failed: refused,
                policy_probe: PolicyProbeModel::NotTriggered,
            };
            &&& refused.len() == 0 ==> step == StepAskedModel::Finished(Ok(bundle))
            &&& refused.len() > 0 ==> step == (StepAskedModel::AskPolicy {
                view,
                contexts,
                startup_failed: refused,
            })
            &&& fetch_step(slug, pr, asked) == StepAskedModel::Finished(
                Ok(
                    BundleModel {
                        policy_probe: match policy {
                            Ok(p) => PolicyProbeModel::Fetched(p),
                            Err(e) => PolicyProbeModel::Failed(e),
                        },
                        ..bundle
                    },
                ),
            )
        }),
{
}

/// What could not be decoded is said with what it was the answer to, and a repository without
/// its owner is refused by its name.
pub proof fn what_cannot_be_read_is_said(
    slug: Seq<char>,
    pr: Seq<char>,
    view: PrModel,
    branch: Seq<char>,
    e: Seq<char>,
)
    ensures
        steps_from(Err(e)) == Err::<Seq<StepModel>, Seq<char>>(
            "could not parse job response: "@ + e,
        ),
        probed(slug, branch, ProtectionReplyModel::NotRun { error: e }) == Err::<
            ProbeModel,
            Seq<char>,
        >("failed to run `gh api …/protection`: "@ + e),
        !holds_text(slug, "/"@) ==> fetch_step(slug, pr, PointModel::Start)
            == StepAskedModel::Finished(
            Err(ErrorModel::Failed("expected `owner/repo`, got `"@ + slug + "`"@)),
        ),
        fetch_step(slug, pr, PointModel::Rules { view, fetched: FetchedModel::Unparsed(e) }) == (
        StepAskedModel::AskProtection {
            path: "repos/"@ + slug + "/branches/"@ + view.base_ref_name + "/protection"@,
            view,
            rules: Err(e),
        }),
{
}

/// What is required decides how a fetch ends: a failure to know it ends the fetch with that
/// failure, and a branch of which nothing is required ends it with a finding about that
/// branch.
pub proof fn what_is_required_decides_the_end(
    slug: Seq<char>,
    pr: Seq<char>,
    view: PrModel,
    rules: Result<Seq<RuleModel>, Seq<char>>,
    probe: ProbeModel,
)
    ensures
        ({
            let step = fetch_step(
                slug,
                pr,
                PointModel::Protection { view, rules, protection: Ok(probe) },
            );
            &&& contexts_from(rules, probe) matches Err(e) ==> step == StepAskedModel::Finished(
                Err(e),
            )
            &&& contexts_from(rules, probe) matches Ok(contexts) ==> contexts.len() == 0 ==> step
                == StepAskedModel::Finished(
                Err(ErrorModel::NoGate { slug, branch: view.base_ref_name }),
            )
        }),
{
}

} // verus!
