//! Summoning experts for escalations.
//!
//! Each escalation is mapped to a call of a tool on a cartridge of the estate's server.
//! That a call was answered is not enough: the body may carry an error. Whatever
//! comes of a call is recorded; no escalation is dropped, and the outcome keeps its
//! colour.
use vstd::prelude::*;

use crate::json::{json_field, json_text, read_json, read_json_field};
use crate::moves::ExpertGroup;
use crate::outcome::{
    Escalation, EscalationModel, ExpertVerdict, Outcome, OutcomeModel, Report, ReportModel,
    VerdictModel,
};
use crate::text::{
    cat2, cat3, cat4, cat5, cat6, cat7, copy_option, decimal, is_text, result_view, show,
};

verus! {

/// Where the server is looked for unless the environment says otherwise.
pub const DEFAULT_BASE: &'static str = "http://localhost:7700";

/// The answer of a cartridge, as far as it is looked into.
#[derive(Debug, PartialEq, Eq)]
pub struct Reply {
    /// The `error` field, as JSON, if there is one.
    pub error: Option<String>,
    /// The `success` field, as JSON, if there is one.
    pub success: Option<String>,
    /// All of the answer, as JSON.
    pub text: String,
}

/// A [`Reply`] as a mathematical value.
pub struct ReplyModel {
    pub error: Option<Seq<char>>,
    pub success: Option<Seq<char>>,
    pub text: Seq<char>,
}

impl DeepView for Reply {
    type V = ReplyModel;

    open spec fn deep_view(&self) -> ReplyModel {
        ReplyModel {
            error: self.error.deep_view(),
            success: self.success.deep_view(),
            text: self.text@,
        }
    }
}

/// The answer that a JSON text holds, or why it is not one.
pub open spec fn reply_in(body: Seq<char>) -> Result<ReplyModel, Seq<char>> {
    match json_text(body) {
        Ok(text) => Ok(
            ReplyModel {
                error: json_field(body, "error"@),
                success: json_field(body, "success"@),
                text,
            },
        ),
        Err(e) => Err(e),
    }
}

/// The answer that a JSON text holds, or why it is not one.
pub fn decode_reply(body: &str) -> (r: Result<Reply, String>)
    ensures
        result_view(r) == reply_in(body@),
{
    match read_json(body) {
        Ok(text) => Ok(
            Reply {
                error: read_json_field(body, "error"),
                success: read_json_field(body, "success"),
                text,
            },
        ),
        Err(e) => Err(e),
    }
}

impl ReplyModel {
    /// The error that the answer carries: its `error` field, or all of it where its
    /// `success` field is `false`.
    pub open spec fn failure(self) -> Option<Seq<char>> {
        if self.error is Some {
            self.error
        } else if self.success == Some("false"@) {
            Some(self.text)
        } else {
            None
        }
    }
}

/// The error that an answer carries, if it carries one.
pub fn body_error(reply: &Reply) -> (r: Option<String>)
    ensures
        r.deep_view() == reply.deep_view().failure(),
{
    if reply.error.is_some() {
        return copy_option(&reply.error);
    }
    if is_text(&reply.success, "false") {
        return Some(reply.text.clone());
    }
    None
}

/// What came of calling a tool.
#[derive(Debug, PartialEq, Eq)]
pub enum InvokeReply {
    /// A body came back.
    Body(String),
    /// The body could not be read.
    Unreadable(String),
    /// The server refused, with a status and a text.
    Status { code: u16, detail: String },
    /// The server could not be reached.
    Unreachable(String),
}

/// An [`InvokeReply`] as a mathematical value.
pub enum InvokeModel {
    Body(Seq<char>),
    Unreadable(Seq<char>),
    Status { code: u16, detail: Seq<char> },
    Unreachable(Seq<char>),
}

impl DeepView for InvokeReply {
    type V = InvokeModel;

    open spec fn deep_view(&self) -> InvokeModel {
        match self {
            InvokeReply::Body(text) => InvokeModel::Body(text@),
            InvokeReply::Unreadable(e) => InvokeModel::Unreadable(e@),
            InvokeReply::Status { code, detail } => InvokeModel::Status {
                code: *code,
                detail: detail@,
            },
            InvokeReply::Unreachable(e) => InvokeModel::Unreachable(e@),
        }
    }
}

/// How a tool on a cartridge is shown.
pub open spec fn called(cartridge: Seq<char>, tool: Seq<char>) -> Seq<char> {
    "`"@ + cartridge + "/"@ + tool + "`"@
}

/// The verdict in an answer, once it is decoded: the answer itself, unless it carries an
/// error.
pub open spec fn verdict_in(
    cartridge: Seq<char>,
    tool: Seq<char>,
    reply: Result<ReplyModel, Seq<char>>,
) -> Result<Seq<char>, Seq<char>> {
    match reply {
        Err(e) => Err(called(cartridge, tool) + " returned non-JSON: Failed to read JSON: "@ + e),
        Ok(reply) => match reply.failure() {
            Some(e) => Err(called(cartridge, tool) + " reported failure: "@ + e),
            None => Ok(reply.text),
        },
    }
}

/// The verdict of a call: only a body that is JSON and carries no error is one.
pub open spec fn invoked(cartridge: Seq<char>, tool: Seq<char>, reply: InvokeModel) -> Result<
    Seq<char>,
    Seq<char>,
> {
    match reply {
        InvokeModel::Body(text) => verdict_in(cartridge, tool, reply_in(text)),
        InvokeModel::Unreadable(e) => Err(called(cartridge, tool) + " returned non-JSON: "@ + e),
        InvokeModel::Status { code, detail } => Err(
            called(cartridge, tool) + " failed: HTTP "@ + decimal(code as nat) + " "@ + detail,
        ),
        InvokeModel::Unreachable(e) => Err(called(cartridge, tool) + " unreachable: "@ + e),
    }
}

fn show_call(cartridge: &str, tool: &str) -> (r: String)
    ensures
        r@ == called(cartridge@, tool@),
{
    cat5("`", cartridge, "/", tool, "`")
}

/// The verdict in an answer, once it is decoded.
pub fn read_reply(cartridge: &str, tool: &str, reply: Result<Reply, String>) -> (r: Result<
    String,
    String,
>)
    ensures
        result_view(r) == verdict_in(cartridge@, tool@, result_view(reply)),
{
    let call: String = show_call(cartridge, tool);
    match reply {
        Err(e) => Err(cat3(&call, " returned non-JSON: Failed to read JSON: ", &e)),
        Ok(reply) => match body_error(&reply) {
            Some(e) => Err(cat3(&call, " reported failure: ", &e)),
            None => Ok(reply.text),
        },
    }
}

/// What came of asking the server whether it lives.
#[derive(Debug, PartialEq, Eq)]
pub enum HealthReply {
    /// A body came back.
    Body(String),
    /// The body could not be read.
    Unreadable(String),
    /// The server could not be reached.
    Unreachable(String),
}

/// A [`HealthReply`] as a mathematical value.
pub enum HealthModel {
    Body(Seq<char>),
    Unreadable(Seq<char>),
    Unreachable(Seq<char>),
}

impl DeepView for HealthReply {
    type V = HealthModel;

    open spec fn deep_view(&self) -> HealthModel {
        match self {
            HealthReply::Body(text) => HealthModel::Body(text@),
            HealthReply::Unreadable(e) => HealthModel::Unreadable(e@),
            HealthReply::Unreachable(e) => HealthModel::Unreachable(e@),
        }
    }
}

/// Whether a server that answered, with the answer decoded, lives: it answered JSON.
pub open spec fn alive_in(reply: Result<Seq<char>, Seq<char>>) -> Result<Seq<char>, Seq<char>> {
    match reply {
        Ok(text) => Ok(text),
        Err(e) => Err("boj-server /health returned non-JSON: Failed to read JSON: "@ + e),
    }
}

/// Whether the server lives.
pub open spec fn alive(base: Seq<char>, reply: HealthModel) -> Result<Seq<char>, Seq<char>> {
    match reply {
        HealthModel::Body(text) => alive_in(json_text(text)),
        HealthModel::Unreadable(e) => Err("boj-server /health returned non-JSON: "@ + e),
        HealthModel::Unreachable(e) => Err("boj-server unreachable at "@ + base + ": "@ + e),
    }
}

/// Whether a server that answered, with the answer decoded, lives.
pub fn read_health(reply: Result<String, String>) -> (r: Result<String, String>)
    ensures
        result_view(r) == alive_in(result_view(reply)),
{
    match reply {
        Ok(text) => Ok(text),
        Err(e) => Err(cat2("boj-server /health returned non-JSON: Failed to read JSON: ", &e)),
    }
}

/// The server, by its base address.
#[derive(Debug, PartialEq, Eq)]
pub struct BojClient {
    pub base: String,
}

impl BojClient {
    /// The server that the environment names, or the default.
    pub fn from_env(value: Option<&str>) -> (r: Self)
        ensures
            r.base@ == (match value {
                Some(base) => base@,
                None => DEFAULT_BASE@,
            }),
    {
        match value {
            Some(base) => BojClient { base: base.to_owned() },
            None => BojClient { base: DEFAULT_BASE.to_owned() },
        }
    }

    /// The address to ask whether the server lives.
    pub fn health_url(&self) -> (r: String)
        ensures
            r@ == self.base@ + "/health"@,
    {
        cat2(&self.base, "/health")
    }

    /// The address to call a tool of the cartridge.
    pub fn invoke_url(&self, cartridge: &str) -> (r: String)
        ensures
            r@ == self.base@ + "/cartridge/"@ + cartridge@ + "/invoke"@,
    {
        cat4(&self.base, "/cartridge/", cartridge, "/invoke")
    }

    /// Whether the server lives, by what came of asking.
    pub fn health(&self, reply: HealthReply) -> (r: Result<String, String>)
        ensures
            result_view(r) == alive(self.base@, reply.deep_view()),
    {
        match reply {
            HealthReply::Body(text) => read_health(read_json(&text)),
            HealthReply::Unreadable(e) => Err(cat2("boj-server /health returned non-JSON: ", &e)),
            HealthReply::Unreachable(e) => Err(
                cat4("boj-server unreachable at ", &self.base, ": ", &e),
            ),
        }
    }

    /// The verdict of a call, by what came of it.
    pub fn invoke(&self, cartridge: &str, tool: &str, reply: InvokeReply) -> (r: Result<
        String,
        String,
    >)
        ensures
            result_view(r) == invoked(cartridge@, tool@, reply.deep_view()),
    {
        let call: String = show_call(cartridge, tool);
        match reply {
            InvokeReply::Body(text) => read_reply(cartridge, tool, decode_reply(&text)),
            InvokeReply::Unreadable(e) => Err(cat3(&call, " returned non-JSON: ", &e)),
            InvokeReply::Status { code, detail } => {
                let number: String = show(code as u64);
                Err(cat5(&call, " failed: HTTP ", &number, " ", &detail))
            },
            InvokeReply::Unreachable(e) => Err(cat3(&call, " unreachable: ", &e)),
        }
    }
}

/// A call of a tool for an escalation: its one argument, and what a success of it means.
#[derive(Debug, PartialEq, Eq)]
pub struct ExpertCall {
    pub cartridge: &'static str,
    pub tool: &'static str,
    /// The name of the argument.
    pub argument: &'static str,
    /// The value of the argument.
    pub value: String,
    pub meaning: &'static str,
}

/// An [`ExpertCall`] as a mathematical value.
pub struct CallModel {
    pub cartridge: Seq<char>,
    pub tool: Seq<char>,
    pub argument: Seq<char>,
    pub value: Seq<char>,
    pub meaning: Seq<char>,
}

impl DeepView for ExpertCall {
    type V = CallModel;

    open spec fn deep_view(&self) -> CallModel {
        CallModel {
            cartridge: self.cartridge@,
            tool: self.tool@,
            argument: self.argument@,
            value: self.value@,
            meaning: self.meaning@,
        }
    }
}

/// The call for an escalation. The group decides it, whatever the obligation is. No
/// cartridge stands for gate triage, which is the owner's.
pub open spec fn routed(e: EscalationModel, repo_path: Seq<char>) -> Option<CallModel> {
    match e.group {
        ExpertGroup::Security => Some(
            CallModel {
                cartridge: "panic-attack-mcp"@,
                tool: "panic_attack_scan"@,
                argument: "path"@,
                value: repo_path,
                meaning: "weak-point scan"@,
            },
        ),
        ExpertGroup::Proof => Some(
            CallModel {
                cartridge: "echidna-llm-mcp"@,
                tool: "consult"@,
                argument: "question"@,
                value: "Verify the claim behind failing CI check `"@ + e.check + "`: "@
                    + e.evidence,
                meaning: "proof consultation"@,
            },
        ),
        ExpertGroup::Hypatia | ExpertGroup::HypatiaFleet => Some(
            CallModel {
                cartridge: "hypatia-mcp"@,
                tool: "hypatia_scan_repo"@,
                argument: "path"@,
                value: repo_path,
                meaning: "hypatia assessment (actuation external — no fixer cartridge yet)"@,
            },
        ),
        ExpertGroup::GateTriage => None,
    }
}

/// The call for an escalation, if there is a cartridge for its group.
pub fn route(e: &Escalation, repo_path: &str) -> (r: Option<ExpertCall>)
    ensures
        r.deep_view() == routed(e.deep_view(), repo_path@),
{
    match e.group {
        ExpertGroup::Security => Some(
            ExpertCall {
                cartridge: "panic-attack-mcp",
                tool: "panic_attack_scan",
                argument: "path",
                value: repo_path.to_owned(),
                meaning: "weak-point scan",
            },
        ),
        ExpertGroup::Proof => Some(
            ExpertCall {
                cartridge: "echidna-llm-mcp",
                tool: "consult",
                argument: "question",
                value: cat4(
                    "Verify the claim behind failing CI check `",
                    &e.check,
                    "`: ",
                    &e.evidence,
                ),
                meaning: "proof consultation",
            },
        ),
        ExpertGroup::Hypatia | ExpertGroup::HypatiaFleet => Some(
            ExpertCall {
                cartridge: "hypatia-mcp",
                tool: "hypatia_scan_repo",
                argument: "path",
                value: repo_path.to_owned(),
                meaning: "hypatia assessment (actuation external — no fixer cartridge yet)",
            },
        ),
        ExpertGroup::GateTriage => None,
    }
}

/// How far summoning has got, with the answer to what was asked last.
#[derive(Debug, PartialEq, Eq)]
pub enum SummonPoint {
    /// Nothing was asked yet.
    Start,
    /// The server was asked whether it lives, and the place of the checkout was looked
    /// up.
    Ready { root: Result<String, String>, health: Result<String, String> },
    /// The call for escalation `index` was made.
    Called { index: usize, repo_path: String, verdict: Result<String, String> },
}

/// A [`SummonPoint`] as a mathematical value.
pub enum SummonPointModel {
    Start,
    Ready { root: Result<Seq<char>, Seq<char>>, health: Result<Seq<char>, Seq<char>> },
    Called { index: int, repo_path: Seq<char>, verdict: Result<Seq<char>, Seq<char>> },
}

impl DeepView for SummonPoint {
    type V = SummonPointModel;

    open spec fn deep_view(&self) -> SummonPointModel {
        match self {
            SummonPoint::Start => SummonPointModel::Start,
            SummonPoint::Ready { root, health } => SummonPointModel::Ready {
                root: result_view(*root),
                health: result_view(*health),
            },
            SummonPoint::Called { index, repo_path, verdict } => SummonPointModel::Called {
                index: *index as int,
                repo_path: repo_path@,
                verdict: result_view(*verdict),
            },
        }
    }
}

/// What summoning asks for next.
#[derive(Debug, PartialEq, Eq)]
pub enum SummonStep {
    /// Whether the server lives, and the absolute place of the checkout.
    AskReady,
    /// The verdict of this call, for escalation `index`.
    AskCall { index: usize, repo_path: String, call: ExpertCall },
    /// Nothing more.
    Finished,
}

/// A [`SummonStep`] as a mathematical value.
pub enum SummonStepModel {
    AskReady,
    AskCall { index: int, repo_path: Seq<char>, call: CallModel },
    Finished,
}

impl DeepView for SummonStep {
    type V = SummonStepModel;

    open spec fn deep_view(&self) -> SummonStepModel {
        match self {
            SummonStep::AskReady => SummonStepModel::AskReady,
            SummonStep::AskCall { index, repo_path, call } => SummonStepModel::AskCall {
                index: *index as int,
                repo_path: repo_path@,
                call: call.deep_view(),
            },
            SummonStep::Finished => SummonStepModel::Finished,
        }
    }
}

/// An escalation with a note behind its evidence.
pub open spec fn noted(e: EscalationModel, note: Seq<char>) -> EscalationModel {
    EscalationModel { evidence: e.evidence + note, ..e }
}

/// The escalations, each with the note behind its evidence.
pub open spec fn all_noted(escalations: Seq<EscalationModel>, note: Seq<char>) -> Seq<
    EscalationModel,
> {
    escalations.map_values(|e: EscalationModel| noted(e, note))
}

/// One blocker for each escalation, with the same reason.
pub open spec fn blocked_all(escalations: Seq<EscalationModel>, reason: Seq<char>) -> Seq<
    Seq<char>,
> {
    escalations.map_values(|e: EscalationModel| "summon `"@ + e.check + "`: "@ + reason)
}

/// The report with a note on escalation `i` and a blocker.
pub open spec fn with_note(
    report: ReportModel,
    i: int,
    note: Seq<char>,
    blocker: Seq<char>,
) -> ReportModel {
    ReportModel {
        escalations: report.escalations.update(i, noted(report.escalations[i], note)),
        blockers: report.blockers.push(blocker),
        ..report
    }
}

/// The report once escalation `i` was found to have no cartridge.
pub open spec fn undispatched(report: ReportModel, i: int) -> ReportModel {
    with_note(
        report,
        i,
        " | summon: no cartridge for this group — not dispatched, escalation stands"@,
        "summon `"@ + report.escalations[i].check
            + "`: no cartridge for gate-triage — not dispatched, the assessment is the owner's"@,
    )
}

/// The record of a call for `check`, with its answer in full.
pub open spec fn record_of(
    check: Seq<char>,
    call: CallModel,
    verdict: Result<Seq<char>, Seq<char>>,
) -> VerdictModel {
    VerdictModel {
        check,
        cartridge: call.cartridge,
        tool: call.tool,
        ok: verdict is Ok,
        meaning: call.meaning,
        verdict: match verdict {
            Ok(text) => text,
            Err(e) => e,
        },
    }
}

/// The report once the call for escalation `i` was answered.
pub open spec fn recorded(
    report: ReportModel,
    i: int,
    call: CallModel,
    verdict: Result<Seq<char>, Seq<char>>,
) -> ReportModel {
    let check = report.escalations[i].check;
    let place = call.cartridge + "/"@ + call.tool;
    let noted_report = match verdict {
        Ok(_) => with_note(
            report,
            i,
            " | summoned "@ + call.meaning + " `"@ + place
                + "`: ok (full verdict in expert_verdicts)"@,
            "summon `"@ + check + "` → "@ + place + " ok ("@ + call.meaning + ")"@,
        ),
        Err(e) => with_note(
            report,
            i,
            " | summon `"@ + place + "` failed: "@ + e
                + " — escalation stands, fail-closed"@,
            "summon `"@ + check + "` → "@ + place + " FAILED: "@ + e,
        ),
    };
    ReportModel {
        expert_verdicts: report.expert_verdicts.push(record_of(check, call, verdict)),
        ..noted_report
    }
}

/// The report and the next call, from escalation `i` on.
pub open spec fn dispatched(report: ReportModel, i: int, repo_path: Seq<char>) -> (
    ReportModel,
    SummonStepModel,
)
    decreases report.escalations.len() - i,
{
    if i < 0 || i >= report.escalations.len() {
        (report, SummonStepModel::Finished)
    } else {
        match routed(report.escalations[i], repo_path) {
            Some(call) => (report, SummonStepModel::AskCall { index: i, repo_path, call }),
            None => dispatched(undispatched(report, i), i + 1, repo_path),
        }
    }
}

/// One step of summoning, on a report.
pub open spec fn summon_report(report: ReportModel, point: SummonPointModel) -> (
    ReportModel,
    SummonStepModel,
) {
    match point {
        SummonPointModel::Start => if report.escalations.len() == 0 {
            (
                ReportModel {
                    blockers: report.blockers.push(
                        "summon: no escalations to summon experts for"@,
                    ),
                    ..report
                },
                SummonStepModel::Finished,
            )
        } else {
            (report, SummonStepModel::AskReady)
        },
        SummonPointModel::Ready { root, health } => match health {
            Err(e) => (
                ReportModel {
                    escalations: all_noted(
                        report.escalations,
                        " | summon: expert unreachable — escalation stands, fail-closed"@,
                    ),
                    blockers: report.blockers.push("summon: "@ + e),
                    ..report
                },
                SummonStepModel::Finished,
            ),
            Ok(_) => match root {
                Err(e) => (
                    ReportModel {
                        escalations: all_noted(
                            report.escalations,
                            " | summon skipped: "@ + e + " — fail-closed"@,
                        ),
                        blockers: report.blockers + blocked_all(report.escalations, e),
                        ..report
                    },
                    SummonStepModel::Finished,
                ),
                Ok(path) => dispatched(report, 0, path),
            },
        },
        SummonPointModel::Called { index, repo_path, verdict } => if 0 <= index
            < report.escalations.len() && routed(report.escalations[index], repo_path) is Some {
            dispatched(
                recorded(
                    report,
                    index,
                    routed(report.escalations[index], repo_path)->Some_0,
                    verdict,
                ),
                index + 1,
                repo_path,
            )
        } else {
            (report, SummonStepModel::Finished)
        },
    }
}

/// One step of summoning: only a red outcome has escalations to summon for.
pub open spec fn summon_step(outcome: OutcomeModel, point: SummonPointModel) -> (
    OutcomeModel,
    SummonStepModel,
) {
    match outcome {
        OutcomeModel::Red { report } => (
            OutcomeModel::Red { report: summon_report(report, point).0 },
            summon_report(report, point).1,
        ),
        other => (other, SummonStepModel::Finished),
    }
}

fn annotate(e: &Escalation, text: &str) -> (r: Escalation)
    ensures
        r.deep_view() == noted(e.deep_view(), text@),
{
    Escalation {
        check: e.check.clone(),
        group: e.group,
        obligation: e.obligation,
        evidence: cat2(&e.evidence, text),
    }
}

fn note_all(escalations: &Vec<Escalation>, text: &str) -> (r: Vec<Escalation>)
    ensures
        r.deep_view() == all_noted(escalations.deep_view(), text@),
{
    let ghost want = all_noted(escalations.deep_view(), text@);
    let mut r: Vec<Escalation> = Vec::new();
    let mut i: usize = 0;
    assert(r.deep_view() =~= want.take(0));
    while i < escalations.len()
        invariant
            i <= escalations@.len(),
            want == all_noted(escalations.deep_view(), text@),
            r.deep_view() == want.take(i as int),
        decreases escalations@.len() - i,
    {
        let ghost sofar = r.deep_view();
        assert(escalations.deep_view()[i as int] == escalations@[i as int].deep_view());
        r.push(annotate(&escalations[i], text));
        assert(r.deep_view() =~= sofar.push(want[i as int]));
        i += 1;
        assert(r.deep_view() =~= want.take(i as int));
    }
    assert(want.take(want.len() as int) =~= want);
    r
}

fn block_all(escalations: &Vec<Escalation>, reason: &str, blockers: &mut Vec<String>)
    ensures
        final(blockers).deep_view() == old(blockers).deep_view() + blocked_all(
            escalations.deep_view(),
            reason@,
        ),
{
    let ghost start = blockers.deep_view();
    let ghost more = blocked_all(escalations.deep_view(), reason@);
    let mut i: usize = 0;
    assert(start + more.take(0) =~= start);
    while i < escalations.len()
        invariant
            i <= escalations@.len(),
            more == blocked_all(escalations.deep_view(), reason@),
            blockers.deep_view() == start + more.take(i as int),
            start == old(blockers).deep_view(),
        decreases escalations@.len() - i,
    {
        let ghost sofar = blockers.deep_view();
        assert(escalations.deep_view()[i as int] == escalations@[i as int].deep_view());
        blockers.push(cat4("summon `", &escalations[i].check, "`: ", reason));
        assert(blockers.deep_view() =~= sofar.push(more[i as int]));
        i += 1;
        assert(start + more.take(i as int) =~= sofar.push(more[i - 1]));
    }
    assert(more.take(more.len() as int) =~= more);
}

/// The report with a note on escalation `i` and a blocker.
fn add_note(report: Report, i: usize, text: &str, blocker: String) -> (r: Report)
    requires
        i < report.escalations@.len(),
    ensures
        r.deep_view() == with_note(report.deep_view(), i as int, text@, blocker@),
        r.escalations@.len() == report.escalations@.len(),
{
    let Report {
        summary,
        unsatisfied,
        moves_attempted,
        mut escalations,
        owner_assignments,
        expert_verdicts,
        applied,
        mut blockers,
    } = report;
    let ghost before = escalations.deep_view();
    let ghost lines = blockers.deep_view();
    let changed: Escalation = annotate(&escalations[i], text);
    assert(before[i as int] == escalations@[i as int].deep_view());
    escalations.set(i, changed);
    assert(escalations.deep_view() =~= before.update(i as int, noted(before[i as int], text@)));
    blockers.push(blocker);
    assert(blockers.deep_view() =~= lines.push(blocker@));
    Report {
        summary,
        unsatisfied,
        moves_attempted,
        escalations,
        owner_assignments,
        expert_verdicts,
        applied,
        blockers,
    }
}

fn add_verdict(report: Report, verdict: ExpertVerdict) -> (r: Report)
    ensures
        r.deep_view() == (ReportModel {
            expert_verdicts: report.deep_view().expert_verdicts.push(verdict.deep_view()),
            ..report.deep_view()
        }),
        r.escalations@.len() == report.escalations@.len(),
{
    let Report {
        summary,
        unsatisfied,
        moves_attempted,
        escalations,
        owner_assignments,
        mut expert_verdicts,
        applied,
        blockers,
    } = report;
    let ghost before = expert_verdicts.deep_view();
    expert_verdicts.push(verdict);
    assert(expert_verdicts.deep_view() =~= before.push(verdict.deep_view()));
    Report {
        summary,
        unsatisfied,
        moves_attempted,
        escalations,
        owner_assignments,
        expert_verdicts,
        applied,
        blockers,
    }
}

fn record(report: Report, i: usize, call: &ExpertCall, verdict: Result<String, String>) -> (r:
    Report)
    requires
        i < report.escalations@.len(),
    ensures
        r.deep_view() == recorded(
            report.deep_view(),
            i as int,
            call.deep_view(),
            result_view(verdict),
        ),
        r.escalations@.len() == report.escalations@.len(),
{
    assert(report.escalations.deep_view()[i as int] == report.escalations@[i as int].deep_view());
    let check: String = report.escalations[i].check.clone();
    let place: String = cat3(call.cartridge, "/", call.tool);
    match verdict {
        Ok(text) => {
            let remark: String = cat5(
                " | summoned ",
                call.meaning,
                " `",
                &place,
                "`: ok (full verdict in expert_verdicts)",
            );
            let blocker: String = cat7("summon `", &check, "` → ", &place, " ok (", call.meaning, ")");
            add_verdict(
                add_note(report, i, &remark, blocker),
                ExpertVerdict {
                    check,
                    cartridge: call.cartridge.to_owned(),
                    tool: call.tool.to_owned(),
                    ok: true,
                    meaning: call.meaning.to_owned(),
                    verdict: text,
                },
            )
        },
        Err(e) => {
            let remark: String = cat5(
                " | summon `",
                &place,
                "` failed: ",
                &e,
                " — escalation stands, fail-closed",
            );
            let blocker: String = cat6("summon `", &check, "` → ", &place, " FAILED: ", &e);
            add_verdict(
                add_note(report, i, &remark, blocker),
                ExpertVerdict {
                    check,
                    cartridge: call.cartridge.to_owned(),
                    tool: call.tool.to_owned(),
                    ok: false,
                    meaning: call.meaning.to_owned(),
                    verdict: e,
                },
            )
        },
    }
}

fn dispatch(report: Report, from: usize, repo_path: String) -> (r: (Report, SummonStep))
    requires
        from <= report.escalations@.len(),
    ensures
        (r.0.deep_view(), r.1.deep_view()) == dispatched(
            report.deep_view(),
            from as int,
            repo_path@,
        ),
{
    let ghost want = dispatched(report.deep_view(), from as int, repo_path@);
    let mut current: Report = report;
    let mut i: usize = from;
    while i < current.escalations.len()
        invariant
            i <= current.escalations@.len(),
            want == dispatched(current.deep_view(), i as int, repo_path@),
            want == dispatched(report.deep_view(), from as int, repo_path@),
        decreases current.escalations@.len() - i,
    {
        assert(current.deep_view().escalations[i as int]
            == current.escalations@[i as int].deep_view());
        match route(&current.escalations[i], &repo_path) {
            Some(call) => {
                return (current, SummonStep::AskCall { index: i, repo_path, call });
            },
            None => {
                let blocker: String = cat3(
                    "summon `",
                    &current.escalations[i].check,
                    "`: no cartridge for gate-triage — not dispatched, the assessment is the owner's",
                );
                current = add_note(
                    current,
                    i,
                    " | summon: no cartridge for this group — not dispatched, escalation stands",
                    blocker,
                );
            },
        }
        i += 1;
    }
    (current, SummonStep::Finished)
}

fn summon_on(report: Report, point: SummonPoint) -> (r: (Report, SummonStep))
    ensures
        (r.0.deep_view(), r.1.deep_view()) == summon_report(report.deep_view(), point.deep_view()),
{
    match point {
        SummonPoint::Start => {
            if report.escalations.len() > 0 {
                return (report, SummonStep::AskReady);
            }
            let mut report: Report = report;
            let ghost before = report.deep_view();
            report.blockers.push("summon: no escalations to summon experts for".to_owned());
            assert(report.blockers.deep_view() =~= before.blockers.push(
                "summon: no escalations to summon experts for"@,
            ));
            (report, SummonStep::Finished)
        },
        SummonPoint::Ready { root, health } => {
            let mut report: Report = report;
            let ghost before = report.deep_view();
            if let Err(e) = health {
                report.blockers.push(cat2("summon: ", &e));
                assert(report.blockers.deep_view() =~= before.blockers.push("summon: "@ + e@));
                report.escalations = note_all(
                    &report.escalations,
                    " | summon: expert unreachable — escalation stands, fail-closed",
                );
                return (report, SummonStep::Finished);
            }
            match root {
                Err(e) => {
                    let Report {
                        summary,
                        unsatisfied,
                        moves_attempted,
                        escalations,
                        owner_assignments,
                        expert_verdicts,
                        applied,
                        mut blockers,
                    } = report;
                    block_all(&escalations, &e, &mut blockers);
                    let remark: String = cat3(" | summon skipped: ", &e, " — fail-closed");
                    let report = Report {
                        summary,
                        unsatisfied,
                        moves_attempted,
                        escalations: note_all(&escalations, &remark),
                        owner_assignments,
                        expert_verdicts,
                        applied,
                        blockers,
                    };
                    (report, SummonStep::Finished)
                },
                Ok(path) => dispatch(report, 0, path),
            }
        },
        SummonPoint::Called { index, repo_path, verdict } => {
            if index >= report.escalations.len() {
                return (report, SummonStep::Finished);
            }
            assert(report.deep_view().escalations[index as int]
                == report.escalations@[index as int].deep_view());
            match route(&report.escalations[index], &repo_path) {
                Some(call) => {
                    let report = record(report, index, &call, verdict);
                    dispatch(report, index + 1, repo_path)
                },
                None => (report, SummonStep::Finished),
            }
        },
    }
}

/// One step of summoning experts for the escalations of an outcome.
///
/// The host starts with [`SummonPoint::Start`], does what is asked and hands back the
/// result, until nothing more is asked.
pub fn summon(outcome: Outcome, point: SummonPoint) -> (r: (Outcome, SummonStep))
    ensures
        (r.0.deep_view(), r.1.deep_view()) == summon_step(outcome.deep_view(), point.deep_view()),
{
    match outcome {
        Outcome::Red { report } => {
            let (report, step): (Report, SummonStep) = summon_on(report, point);
            (Outcome::Red { report }, step)
        },
        other => (other, SummonStep::Finished),
    }
}

/// Does `after` hold all that `before` does, with no more than notes, verdicts and
/// blockers added?
pub open spec fn only_adds(before: ReportModel, after: ReportModel) -> bool {
    &&& after.summary == before.summary
    &&& after.unsatisfied == before.unsatisfied
    &&& after.moves_attempted == before.moves_attempted
    &&& after.owner_assignments == before.owner_assignments
    &&& after.applied == before.applied
    &&& before.blockers.is_prefix_of(after.blockers)
    &&& before.expert_verdicts.is_prefix_of(after.expert_verdicts)
    &&& after.escalations.len() == before.escalations.len()
    &&& forall|i: int|
        0 <= i < before.escalations.len() ==> {
            let a = #[trigger] after.escalations[i];
            let b = before.escalations[i];
            a.check == b.check && a.group == b.group && a.obligation == b.obligation
                && b.evidence.is_prefix_of(a.evidence)
        }
}

proof fn lemma_prefix_push<A>(s: Seq<A>, x: A)
    ensures
        s.is_prefix_of(s.push(x)),
{
    assert(s.push(x).subrange(0, s.len() as int) =~= s);
}

proof fn lemma_prefix_add<A>(s: Seq<A>, t: Seq<A>)
    ensures
        s.is_prefix_of(s + t),
{
    assert((s + t).subrange(0, s.len() as int) =~= s);
}

proof fn lemma_prefix_trans<A>(a: Seq<A>, b: Seq<A>, c: Seq<A>)
    requires
        a.is_prefix_of(b),
        b.is_prefix_of(c),
    ensures
        a.is_prefix_of(c),
{
    assert(c.subrange(0, a.len() as int) =~= b.subrange(0, a.len() as int));
}

pub proof fn lemma_adds_trans(a: ReportModel, b: ReportModel, c: ReportModel)
    requires
        only_adds(a, b),
        only_adds(b, c),
    ensures
        only_adds(a, c),
{
    lemma_prefix_trans(a.blockers, b.blockers, c.blockers);
    lemma_prefix_trans(a.expert_verdicts, b.expert_verdicts, c.expert_verdicts);
    assert forall|i: int| 0 <= i < a.escalations.len() implies {
        let z = #[trigger] c.escalations[i];
        let x = a.escalations[i];
        z.check == x.check && z.group == x.group && z.obligation == x.obligation
            && x.evidence.is_prefix_of(z.evidence)
    } by {
        let y = b.escalations[i];
        lemma_prefix_trans(a.escalations[i].evidence, y.evidence, c.escalations[i].evidence);
    }
}

proof fn lemma_with_note_adds(report: ReportModel, i: int, text: Seq<char>, blocker: Seq<char>)
    requires
        0 <= i < report.escalations.len(),
    ensures
        only_adds(report, with_note(report, i, text, blocker)),
{
    let after = with_note(report, i, text, blocker);
    lemma_prefix_push(report.blockers, blocker);
    lemma_prefix_add(report.expert_verdicts, seq![]);
    assert(report.expert_verdicts + seq![] =~= report.expert_verdicts);
    assert forall|k: int| 0 <= k < report.escalations.len() implies {
        let a = #[trigger] after.escalations[k];
        let b = report.escalations[k];
        a.check == b.check && a.group == b.group && a.obligation == b.obligation
            && b.evidence.is_prefix_of(a.evidence)
    } by {
        let b = report.escalations[k];
        lemma_prefix_add(b.evidence, text);
        lemma_prefix_add(b.evidence, seq![]);
        assert(b.evidence + seq![] =~= b.evidence);
    }
}

pub proof fn lemma_dispatched_adds(report: ReportModel, i: int, repo_path: Seq<char>)
    ensures
        only_adds(report, dispatched(report, i, repo_path).0),
    decreases report.escalations.len() - i,
{
    lemma_adds_nothing(report);
    if 0 <= i < report.escalations.len() && routed(report.escalations[i], repo_path) is None {
        let next = undispatched(report, i);
        lemma_with_note_adds(
            report,
            i,
            " | summon: no cartridge for this group — not dispatched, escalation stands"@,
            "summon `"@ + report.escalations[i].check
                + "`: no cartridge for gate-triage — not dispatched, the assessment is the owner's"@,
        );
        lemma_dispatched_adds(next, i + 1, repo_path);
        lemma_adds_trans(report, next, dispatched(next, i + 1, repo_path).0);
    }
}

pub proof fn lemma_adds_nothing(report: ReportModel)
    ensures
        only_adds(report, report),
{
    lemma_prefix_add(report.blockers, seq![]);
    assert(report.blockers + seq![] =~= report.blockers);
    lemma_prefix_add(report.expert_verdicts, seq![]);
    assert(report.expert_verdicts + seq![] =~= report.expert_verdicts);
    assert forall|i: int| 0 <= i < report.escalations.len() implies (
    #[trigger] report.escalations[i]).evidence.is_prefix_of(report.escalations[i].evidence) by {
        let e = report.escalations[i].evidence;
        lemma_prefix_add(e, seq![]);
        assert(e + seq![] =~= e);
    }
}

/// Summoning only adds: whatever is answered, no escalation is dropped or downgraded,
/// no evidence is lost, and an outcome keeps its colour.
pub proof fn summoning_only_adds(outcome: OutcomeModel, point: SummonPointModel)
    ensures
        outcome matches OutcomeModel::Red { report } ==> (summon_step(
            outcome,
            point,
        ).0 matches OutcomeModel::Red { report: after } && only_adds(report, after)),
        !(outcome is Red) ==> summon_step(outcome, point).0 == outcome,
{
    if let OutcomeModel::Red { report } = outcome {
        lemma_adds_nothing(report);
        match point {
            SummonPointModel::Start => {
                lemma_prefix_push(
                    report.blockers,
                    "summon: no escalations to summon experts for"@,
                );
            },
            SummonPointModel::Ready { root, health } => {
                match (health, root) {
                    (Err(e), _) => {
                        lemma_prefix_push(report.blockers, "summon: "@ + e);
                        lemma_all_noted_adds(
                            report.escalations,
                            " | summon: expert unreachable — escalation stands, fail-closed"@,
                        );
                    },
                    (Ok(_), Err(e)) => {
                        lemma_prefix_add(report.blockers, blocked_all(report.escalations, e));
                        lemma_all_noted_adds(
                            report.escalations,
                            " | summon skipped: "@ + e + " — fail-closed"@,
                        );
                    },
                    (Ok(_), Ok(path)) => {
                        lemma_dispatched_adds(report, 0, path);
                    },
                }
            },
            SummonPointModel::Called { index, repo_path, verdict } => {
                if 0 <= index < report.escalations.len() && routed(
                    report.escalations[index],
                    repo_path,
                ) is Some {
                    let call = routed(report.escalations[index], repo_path)->Some_0;
                    let next = recorded(report, index, call, verdict);
                    lemma_recorded_adds(report, index, call, verdict);
                    lemma_dispatched_adds(next, index + 1, repo_path);
                    lemma_adds_trans(report, next, dispatched(next, index + 1, repo_path).0);
                }
            },
        }
    }
}

proof fn lemma_all_noted_adds(escalations: Seq<EscalationModel>, text: Seq<char>)
    ensures
        all_noted(escalations, text).len() == escalations.len(),
        forall|i: int|
            0 <= i < escalations.len() ==> {
                let a = #[trigger] all_noted(escalations, text)[i];
                let b = escalations[i];
                a.check == b.check && a.group == b.group && a.obligation == b.obligation
                    && b.evidence.is_prefix_of(a.evidence)
            },
{
    assert forall|i: int| 0 <= i < escalations.len() implies {
        let a = #[trigger] all_noted(escalations, text)[i];
        let b = escalations[i];
        a.check == b.check && a.group == b.group && a.obligation == b.obligation
            && b.evidence.is_prefix_of(a.evidence)
    } by {
        lemma_prefix_add(escalations[i].evidence, text);
    }
}

pub proof fn lemma_recorded_adds(
    report: ReportModel,
    i: int,
    call: CallModel,
    verdict: Result<Seq<char>, Seq<char>>,
)
    requires
        0 <= i < report.escalations.len(),
    ensures
        only_adds(report, recorded(report, i, call, verdict)),
{
    let after = recorded(report, i, call, verdict);
    let place = call.cartridge + "/"@ + call.tool;
    let check = report.escalations[i].check;
    match verdict {
        Ok(_) => {
            lemma_with_note_adds(
                report,
                i,
                " | summoned "@ + call.meaning + " `"@ + place
                    + "`: ok (full verdict in expert_verdicts)"@,
                "summon `"@ + check + "` → "@ + place + " ok ("@ + call.meaning + ")"@,
            );
        },
        Err(e) => {
            lemma_with_note_adds(
                report,
                i,
                " | summon `"@ + place + "` failed: "@ + e
                    + " — escalation stands, fail-closed"@,
                "summon `"@ + check + "` → "@ + place + " FAILED: "@ + e,
            );
        },
    }
    lemma_prefix_push(report.expert_verdicts, after.expert_verdicts.last());
}

/// The group of an escalation alone decides who is called: neither the obligation nor
/// the evidence sends it to another.
pub proof fn routing_goes_by_group(a: EscalationModel, b: EscalationModel, repo_path: Seq<char>)
    requires
        a.group == b.group,
    ensures
        routed(a, repo_path) is Some <==> routed(b, repo_path) is Some,
        routed(a, repo_path) is Some ==> {
            let x = routed(a, repo_path)->Some_0;
            let y = routed(b, repo_path)->Some_0;
            x.cartridge == y.cartridge && x.tool == y.tool && x.meaning == y.meaning
        },
{
}

/// A verdict is recorded as ok exactly where the call came back with a body that is
/// JSON and carries no error.
pub proof fn an_answer_is_not_yet_a_verdict(
    cartridge: Seq<char>,
    tool: Seq<char>,
    reply: InvokeModel,
)
    ensures
        invoked(cartridge, tool, reply) is Ok <==> (reply matches InvokeModel::Body(text) && (
        reply_in(text) matches Ok(r) && r.failure() is None)),
{
}

pub proof fn lemma_dispatched_verdicts(report: ReportModel, i: int, repo_path: Seq<char>)
    ensures
        dispatched(report, i, repo_path).0.expert_verdicts == report.expert_verdicts,
    decreases report.escalations.len() - i,
{
    if 0 <= i < report.escalations.len() && routed(report.escalations[i], repo_path) is None {
        lemma_dispatched_verdicts(undispatched(report, i), i + 1, repo_path);
    }
}

/// Each call leaves exactly one record, of the check that it was made for and with its
/// answer in full, success or failure.
pub proof fn each_call_leaves_one_record(
    report: ReportModel,
    index: int,
    repo_path: Seq<char>,
    verdict: Result<Seq<char>, Seq<char>>,
)
    requires
        0 <= index < report.escalations.len(),
        routed(report.escalations[index], repo_path) is Some,
    ensures
        ({
            let after = summon_report(
                report,
                SummonPointModel::Called { index, repo_path, verdict },
            ).0.expert_verdicts;
            &&& after.len() == report.expert_verdicts.len() + 1
            &&& after.last().check == report.escalations[index].check
            &&& after.last().ok == verdict is Ok
            &&& after.last().verdict == match verdict {
                Ok(text) => text,
                Err(e) => e,
            }
        }),
{
    let call = routed(report.escalations[index], repo_path)->Some_0;
    lemma_dispatched_verdicts(recorded(report, index, call, verdict), index + 1, repo_path);
}

/// Who is called for an escalation: the scanner for security, with the place of the checkout;
/// the provers, with the claim behind the check and its evidence; the assessment of the fixing
/// fleet, with the place of the checkout; and nobody for gate triage.
pub proof fn each_group_has_its_cartridge(e: EscalationModel, repo_path: Seq<char>)
    ensures
        match e.group {
            ExpertGroup::Security => routed(e, repo_path) matches Some(c) && c.cartridge
                == "panic-attack-mcp"@ && c.tool == "panic_attack_scan"@ && c.argument == "path"@
                && c.value == repo_path && c.meaning == "weak-point scan"@,
            ExpertGroup::Proof => routed(e, repo_path) matches Some(c) && c.cartridge
                == "echidna-llm-mcp"@ && c.tool == "consult"@ && c.argument == "question"@
                && c.value == "Verify the claim behind failing CI check `"@ + e.check + "`: "@
                + e.evidence && c.meaning == "proof consultation"@,
            ExpertGroup::Hypatia => routed(e, repo_path) matches Some(c) && c.cartridge
                == "hypatia-mcp"@ && c.tool == "hypatia_scan_repo"@ && c.argument == "path"@
                && c.value == repo_path && c.meaning
                == "hypatia assessment (actuation external — no fixer cartridge yet)"@,
            ExpertGroup::HypatiaFleet => routed(e, repo_path) == routed(
                EscalationModel { group: ExpertGroup::Hypatia, ..e },
                repo_path,
            ),
            ExpertGroup::GateTriage => routed(e, repo_path) is None,
        },
{
}

/// An answer carries an error exactly where it has an `error` field, whatever that holds, or
/// its `success` field is `false`; the error is that field, or all of the answer.
pub proof fn an_error_field_or_a_denied_success_is_an_error(r: ReplyModel)
    ensures
        r.failure() is Some <==> r.error is Some || r.success == Some("false"@),
        r.error is Some ==> r.failure() == r.error,
        r.error is None && r.success == Some("false"@) ==> r.failure() == Some(r.text),
{
}

/// A verdict is the whole answer; what is none is refused with the tool that was called and
/// what came of the call.
pub proof fn a_failed_call_names_its_tool(
    cartridge: Seq<char>,
    tool: Seq<char>,
    reply: InvokeModel,
)
    ensures
        ({
            let call = "`"@ + cartridge + "/"@ + tool + "`"@;
            match reply {
                InvokeModel::Body(text) => match json_text(text) {
                    Err(e) => invoked(cartridge, tool, reply) == Err::<Seq<char>, Seq<char>>(
                        call + " returned non-JSON: Failed to read JSON: "@ + e,
                    ),
                    Ok(whole) => if json_field(text, "error"@) is Some {
                        invoked(cartridge, tool, reply) == Err::<Seq<char>, Seq<char>>(
                            call + " reported failure: "@ + json_field(text, "error"@)->Some_0,
                        )
                    } else if json_field(text, "success"@) == Some("false"@) {
                        invoked(cartridge, tool, reply) == Err::<Seq<char>, Seq<char>>(
                            call + " reported failure: "@ + whole,
                        )
                    } else {
                        invoked(cartridge, tool, reply) == Ok::<Seq<char>, Seq<char>>(whole)
                    },
                },
                InvokeModel::Unreadable(e) => invoked(cartridge, tool, reply) == Err::<
                    Seq<char>,
                    Seq<char>,
                >(call + " returned non-JSON: "@ + e),
                InvokeModel::Status { code, detail } => invoked(cartridge, tool, reply) == Err::<
                    Seq<char>,
                    Seq<char>,
                >(call + " failed: HTTP "@ + decimal(code as nat) + " "@ + detail),
                InvokeModel::Unreachable(e) => invoked(cartridge, tool, reply) == Err::<
                    Seq<char>,
                    Seq<char>,
                >(call + " unreachable: "@ + e),
            }
        }),
{
}

/// The server lives exactly where it answered with JSON; its answer is handed on.
pub proof fn a_server_that_answers_json_lives(base: Seq<char>, reply: HealthModel)
    ensures
        match reply {
            HealthModel::Body(text) => match json_text(text) {
                Ok(whole) => alive(base, reply) == Ok::<Seq<char>, Seq<char>>(whole),
                Err(e) => alive(base, reply) == Err::<Seq<char>, Seq<char>>(
                    "boj-server /health returned non-JSON: Failed to read JSON: "@ + e,
                ),
            },
            HealthModel::Unreadable(e) => alive(base, reply) == Err::<Seq<char>, Seq<char>>(
                "boj-server /health returned non-JSON: "@ + e,
            ),
            HealthModel::Unreachable(e) => alive(base, reply) == Err::<Seq<char>, Seq<char>>(
                "boj-server unreachable at "@ + base + ": "@ + e,
            ),
        },
{
}

/// A run of summoning with nothing to summon for says so and asks for nothing; one with an
/// escalation asks first whether the server lives. A server that does not live, or a checkout
/// that cannot be found, ends the run: every escalation stands, each with the same note, and a
/// blocker says why.
pub proof fn a_run_that_cannot_start_leaves_all_standing(
    report: ReportModel,
    root: Result<Seq<char>, Seq<char>>,
    health: Result<Seq<char>, Seq<char>>,
    i: int,
)
    ensures
        summon_report(report, SummonPointModel::Start).1 is AskReady <==> report.escalations.len()
            > 0,
        report.escalations.len() > 0 ==> summon_report(report, SummonPointModel::Start).0 == report,
        report.escalations.len() == 0 ==> summon_report(report, SummonPointModel::Start).1
            is Finished && summon_report(report, SummonPointModel::Start).0.blockers
            == report.blockers.push("summon: no escalations to summon experts for"@),
        ({
            let (after, step) = summon_report(report, SummonPointModel::Ready { root, health });
            &&& health matches Err(e) ==> {
                &&& step is Finished
                &&& after.blockers == report.blockers.push("summon: "@ + e)
                &&& after.expert_verdicts == report.expert_verdicts
                &&& after.escalations.len() == report.escalations.len()
                &&& 0 <= i < report.escalations.len() ==> after.escalations[i] == (
                EscalationModel {
                    evidence: report.escalations[i].evidence
                        + " | summon: expert unreachable — escalation stands, fail-closed"@,
                    ..report.escalations[i]
                })
            }
            &&& health is Ok && root is Err ==> {
                let e = root->Err_0;
                &&& step is Finished
                &&& after.expert_verdicts == report.expert_verdicts
                &&& after.escalations.len() == report.escalations.len()
                &&& after.blockers.len() == report.blockers.len() + report.escalations.len()
                &&& 0 <= i < report.escalations.len() ==> after.escalations[i] == (
                EscalationModel {
                    evidence: report.escalations[i].evidence + (" | summon skipped: "@ + e
                        + " — fail-closed"@),
                    ..report.escalations[i]
                })
                &&& 0 <= i < report.escalations.len() ==> after.blockers[report.blockers.len() + i]
                    == "summon `"@ + report.escalations[i].check + "`: "@ + e
            }
        }),
{
}

/// The record of a call holds the check, who was called, what a success means and the answer
/// in full; it is ok exactly where the call was. The escalation keeps its place and says what
/// came of the call, and so does a blocker.
pub proof fn a_record_is_complete(
    report: ReportModel,
    i: int,
    call: CallModel,
    verdict: Result<Seq<char>, Seq<char>>,
)
    requires
        0 <= i < report.escalations.len(),
    ensures
        ({
            let after = recorded(report, i, call, verdict);
            let old_one = report.escalations[i];
            let place = call.cartridge + "/"@ + call.tool;
            &&& after.expert_verdicts == report.expert_verdicts.push(
                VerdictModel {
                    check: old_one.check,
                    cartridge: call.cartridge,
                    tool: call.tool,
                    ok: verdict is Ok,
                    meaning: call.meaning,
                    verdict: match verdict {
                        Ok(text) => text,
                        Err(e) => e,
                    },
                },
            )
            &&& after.escalations == report.escalations.update(
                i,
                EscalationModel {
                    evidence: old_one.evidence + (match verdict {
                        Ok(_) => " | summoned "@ + call.meaning + " `"@ + place
                            + "`: ok (full verdict in expert_verdicts)"@,
                        Err(e) => " | summon `"@ + place + "` failed: "@ + e
                            + " — escalation stands, fail-closed"@,
                    }),
                    ..old_one
                },
            )
            &&& after.blockers == report.blockers.push(
                match verdict {
                    Ok(_) => "summon `"@ + old_one.check + "` → "@ + place + " ok ("@
                        + call.meaning + ")"@,
                    Err(e) => "summon `"@ + old_one.check + "` → "@ + place + " FAILED: "@ + e,
                },
            )
        }),
{
}

/// An escalation that no cartridge stands for is noted as not dispatched, and it stands.
pub proof fn what_is_not_dispatched_is_noted(report: ReportModel, i: int, repo_path: Seq<char>)
    requires
        0 <= i < report.escalations.len(),
        report.escalations[i].group == ExpertGroup::GateTriage,
    ensures
        dispatched(report, i, repo_path) == dispatched(
            ReportModel {
                escalations: report.escalations.update(
                    i,
                    EscalationModel {
                        evidence: report.escalations[i].evidence
                            + " | summon: no cartridge for this group — not dispatched, escalation stands"@,
                        ..report.escalations[i]
                    },
                ),
                blockers: report.blockers.push(
                    "summon `"@ + report.escalations[i].check
                        + "`: no cartridge for gate-triage — not dispatched, the assessment is the owner's"@,
                ),
                ..report
            },
            i + 1,
            repo_path,
        ),
{
}

/// An outcome that is not red has nobody to summon: it stays as it is, and the run is over.
pub proof fn only_a_red_outcome_is_summoned_for(outcome: OutcomeModel, point: SummonPointModel)
    ensures
        !(outcome is Red) ==> summon_step(outcome, point) == (outcome, SummonStepModel::Finished),
        outcome matches OutcomeModel::Red { report } ==> summon_step(outcome, point) == (
            OutcomeModel::Red { report: summon_report(report, point).0 },
            summon_report(report, point).1,
        ),
{
}

} // verus!
