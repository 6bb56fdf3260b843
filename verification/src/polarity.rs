//! The other polarity: is a check that is green really green?
//!
//! A gate that could not run reports green. This module judges a check that
//! concluded with success by the conclusions of its steps: it ran, it is
//! inapplicable by declaration, or it went green without doing its job.
//!
//! The steps that give a vacuous check away are supplied by the host; no scanner is
//! named here. Nothing here touches a [`crate::gate::CheckRun`], so a verdict never
//! moves a gate.
use vstd::prelude::*;

use crate::moves::{EscalationKind, ExpertGroup, Move, MoveModel};
use crate::text::{
    cat2, cat5, cat7, copy_all, copy_option, decimal, digit, is_digit, join, joined, listed, same,
    show, trim, trimmed,
};

verus! {

/// The conclusion of one step.
#[derive(Debug, Clone, Copy, PartialEq, Eq, Structural)]
pub enum StepConclusion {
    Success,
    Skipped,
    Failure,
    Cancelled,
    /// Anything else, and nothing at all.
    Other,
}

/// The conclusion that a text of the jobs API stands for.
pub open spec fn conclusion_of(raw: Option<Seq<char>>) -> StepConclusion {
    if raw == Some("success"@) {
        StepConclusion::Success
    } else if raw == Some("skipped"@) {
        StepConclusion::Skipped
    } else if raw == Some("failure"@) {
        StepConclusion::Failure
    } else if raw == Some("cancelled"@) {
        StepConclusion::Cancelled
    } else {
        StepConclusion::Other
    }
}

impl StepConclusion {
    /// Reads a conclusion. What is unknown or absent is `Other`, never a skip.
    pub fn parse(raw: Option<&str>) -> (r: Self)
        ensures
            r == conclusion_of(raw.deep_view()),
    {
        match raw {
            Some(text) => if same(text, "success") {
                StepConclusion::Success
            } else if same(text, "skipped") {
                StepConclusion::Skipped
            } else if same(text, "failure") {
                StepConclusion::Failure
            } else if same(text, "cancelled") {
                StepConclusion::Cancelled
            } else {
                StepConclusion::Other
            },
            None => StepConclusion::Other,
        }
    }
}

/// One step of a job.
#[derive(Debug, PartialEq, Eq)]
pub struct StepOutcome {
    pub name: String,
    pub conclusion: StepConclusion,
}

/// A [`StepOutcome`] as a mathematical value.
pub struct StepModel {
    pub name: Seq<char>,
    pub conclusion: StepConclusion,
}

impl DeepView for StepOutcome {
    type V = StepModel;

    open spec fn deep_view(&self) -> StepModel {
        StepModel { name: self.name@, conclusion: self.conclusion }
    }
}

impl Clone for StepOutcome {
    fn clone(&self) -> (r: Self)
        ensures
            r.deep_view() == self.deep_view(),
    {
        StepOutcome { name: self.name.clone(), conclusion: self.conclusion }
    }
}

impl StepOutcome {
    /// A step with its conclusion.
    pub fn new(name: &str, conclusion: StepConclusion) -> (r: Self)
        ensures
            r.deep_view() == (StepModel { name: name@, conclusion }),
    {
        StepOutcome { name: name.to_owned(), conclusion }
    }
}

/// Is there a step of that name, white space around it aside, with that conclusion?
pub open spec fn concluded(steps: Seq<StepModel>, name: Seq<char>, want: StepConclusion) -> bool {
    exists|i: int|
        0 <= i < steps.len() && trimmed((#[trigger] steps[i]).name) == trimmed(name)
            && steps[i].conclusion == want
}

/// Did a step of each of the names come to that conclusion?
pub open spec fn all_concluded(
    steps: Seq<StepModel>,
    names: Seq<Seq<char>>,
    want: StepConclusion,
) -> bool {
    forall|i: int| 0 <= i < names.len() ==> concluded(steps, #[trigger] names[i], want)
}

/// Is there a step of that name with that conclusion?
fn step_concluded(steps: &[StepOutcome], name: &str, want: StepConclusion) -> (r: bool)
    ensures
        r == concluded(steps.deep_view(), name@, want),
{
    let ghost m = steps.deep_view();
    let wanted: &str = trim(name);
    let mut i: usize = 0;
    while i < steps.len()
        invariant
            i <= steps@.len(),
            m == steps.deep_view(),
            wanted@ == trimmed(name@),
            forall|k: int|
                0 <= k < i ==> !(trimmed((#[trigger] m[k]).name) == trimmed(name@)
                    && m[k].conclusion == want),
        decreases steps@.len() - i,
    {
        let step: &StepOutcome = &steps[i];
        assert(m[i as int] == step.deep_view());
        if same(trim(&step.name), wanted) && step.conclusion == want {
            return true;
        }
        i += 1;
    }
    false
}

fn every_concluded(steps: &[StepOutcome], names: &Vec<String>, want: StepConclusion) -> (r: bool)
    ensures
        r == all_concluded(steps.deep_view(), names.deep_view(), want),
{
    let ghost m = names.deep_view();
    let mut i: usize = 0;
    while i < names.len()
        invariant
            i <= names@.len(),
            m == names.deep_view(),
            forall|k: int|
                0 <= k < i ==> concluded(steps.deep_view(), #[trigger] m[k], want),
        decreases names@.len() - i,
    {
        assert(m[i as int] == names@[i as int]@);
        if !step_concluded(steps, names[i].as_str(), want) {
            return false;
        }
        i += 1;
    }
    true
}

/// A fingerprint of steps, as the host supplies it.
pub trait StepSignature {
    /// Do the steps bear the fingerprint?
    spec fn matched(&self, steps: Seq<StepModel>) -> bool;

    /// Do the steps bear the fingerprint?
    fn matches(&self, steps: &[StepOutcome]) -> (r: bool)
        ensures
            r == self.matched(steps.deep_view()),
    ;
}

/// The fingerprint of one scanner that did not run: the steps that are then skipped
/// and the steps that then write a stub.
#[derive(Debug, PartialEq, Eq)]
pub struct VacuitySignature {
    /// The steps that must have been skipped.
    pub skipped_steps: Vec<String>,
    /// The steps that must have succeeded.
    pub success_steps: Vec<String>,
}

/// A [`VacuitySignature`] as a mathematical value.
pub struct SignatureModel {
    pub skipped_steps: Seq<Seq<char>>,
    pub success_steps: Seq<Seq<char>>,
}

impl DeepView for VacuitySignature {
    type V = SignatureModel;

    open spec fn deep_view(&self) -> SignatureModel {
        SignatureModel {
            skipped_steps: self.skipped_steps.deep_view(),
            success_steps: self.success_steps.deep_view(),
        }
    }
}

impl Clone for VacuitySignature {
    fn clone(&self) -> (r: Self)
        ensures
            r.deep_view() == self.deep_view(),
    {
        VacuitySignature {
            skipped_steps: copy_all(&self.skipped_steps),
            success_steps: copy_all(&self.success_steps),
        }
    }
}

impl Default for VacuitySignature {
    fn default() -> (r: Self)
        ensures
            r.skipped_steps@.len() == 0,
            r.success_steps@.len() == 0,
    {
        VacuitySignature { skipped_steps: Vec::new(), success_steps: Vec::new() }
    }
}

impl SignatureModel {
    /// Both halves must name a step: an empty half would be borne by every job.
    pub open spec fn usable(self) -> bool {
        self.skipped_steps.len() > 0 && self.success_steps.len() > 0
    }

    /// Do the steps bear the fingerprint? Both halves must be borne in full.
    pub open spec fn matched(self, steps: Seq<StepModel>) -> bool {
        &&& self.usable()
        &&& all_concluded(steps, self.skipped_steps, StepConclusion::Skipped)
        &&& all_concluded(steps, self.success_steps, StepConclusion::Success)
    }
}

/// The texts as owned strings.
fn owned(texts: &[&str]) -> (r: Vec<String>)
    ensures
        r.deep_view() == texts.deep_view(),
{
    let ghost m = texts.deep_view();
    let mut r: Vec<String> = Vec::new();
    let mut i: usize = 0;
    assert(r.deep_view() =~= m.take(0));
    while i < texts.len()
        invariant
            i <= texts@.len(),
            m == texts.deep_view(),
            r.deep_view() == m.take(i as int),
        decreases texts@.len() - i,
    {
        let ghost before = r.deep_view();
        r.push(texts[i].to_owned());
        assert(r.deep_view() =~= before.push(m[i as int]));
        i += 1;
        assert(r.deep_view() =~= m.take(i as int));
    }
    assert(m.take(m.len() as int) =~= m);
    r
}

impl VacuitySignature {
    /// The fingerprint of these steps.
    pub fn new(skipped: &[&str], success: &[&str]) -> (r: Self)
        ensures
            r.deep_view() == (SignatureModel {
                skipped_steps: skipped.deep_view(),
                success_steps: success.deep_view(),
            }),
    {
        VacuitySignature { skipped_steps: owned(skipped), success_steps: owned(success) }
    }

    /// Do both halves name a step?
    pub fn is_usable(&self) -> (r: bool)
        ensures
            r == self.deep_view().usable(),
    {
        self.skipped_steps.len() > 0 && self.success_steps.len() > 0
    }
}

impl StepSignature for VacuitySignature {
    open spec fn matched(&self, steps: Seq<StepModel>) -> bool {
        self.deep_view().matched(steps)
    }

    fn matches(&self, steps: &[StepOutcome]) -> (r: bool) {
        self.is_usable() && every_concluded(steps, &self.skipped_steps, StepConclusion::Skipped)
            && every_concluded(steps, &self.success_steps, StepConclusion::Success)
    }
}

/// The fingerprint of a scanner, with the scanner's name.
#[derive(Debug, PartialEq, Eq)]
pub struct ScannerSignature {
    pub scanner: String,
    pub signature: VacuitySignature,
}

/// A [`ScannerSignature`] as a mathematical value.
pub struct ScannerModel {
    pub scanner: Seq<char>,
    pub signature: SignatureModel,
}

impl DeepView for ScannerSignature {
    type V = ScannerModel;

    open spec fn deep_view(&self) -> ScannerModel {
        ScannerModel { scanner: self.scanner@, signature: self.signature.deep_view() }
    }
}

impl Clone for ScannerSignature {
    fn clone(&self) -> (r: Self)
        ensures
            r.deep_view() == self.deep_view(),
    {
        ScannerSignature { scanner: self.scanner.clone(), signature: self.signature.clone() }
    }
}

/// The fingerprints of several scanners. A job bears the set where it bears one of
/// them in full.
#[derive(Debug, PartialEq, Eq)]
pub struct SignatureSet {
    pub signatures: Vec<ScannerSignature>,
}

impl DeepView for SignatureSet {
    type V = Seq<ScannerModel>;

    open spec fn deep_view(&self) -> Seq<ScannerModel> {
        self.signatures.deep_view()
    }
}

impl Clone for SignatureSet {
    fn clone(&self) -> (r: Self)
        ensures
            r.deep_view() == self.deep_view(),
    {
        let signatures = self.signatures.clone();
        assert(signatures.deep_view() =~= self.signatures.deep_view());
        SignatureSet { signatures }
    }
}

/// The first scanner whose fingerprint the steps bear.
pub open spec fn first_matched(set: Seq<ScannerModel>, steps: Seq<StepModel>) -> Option<
    ScannerModel,
>
    decreases set.len(),
{
    if set.len() == 0 {
        None
    } else if set[0].signature.matched(steps) {
        Some(set[0])
    } else {
        first_matched(set.drop_first(), steps)
    }
}

/// Is one of the fingerprints usable?
pub open spec fn any_usable(set: Seq<ScannerModel>) -> bool {
    exists|i: int| 0 <= i < set.len() && (#[trigger] set[i]).signature.usable()
}

impl SignatureSet {
    /// The set of these fingerprints.
    pub fn new(signatures: Vec<ScannerSignature>) -> (r: Self)
        ensures
            r.deep_view() == signatures.deep_view(),
    {
        SignatureSet { signatures }
    }

    /// The set of one fingerprint.
    pub fn single(scanner: &str, signature: VacuitySignature) -> (r: Self)
        ensures
            r.deep_view() == seq![
                ScannerModel { scanner: scanner@, signature: signature.deep_view() },
            ],
    {
        let mut signatures: Vec<ScannerSignature> = Vec::new();
        signatures.push(ScannerSignature { scanner: scanner.to_owned(), signature });
        let r = SignatureSet { signatures };
        assert(r.deep_view() =~= seq![
            ScannerModel { scanner: scanner@, signature: signature.deep_view() },
        ]);
        r
    }

    /// Is one of the fingerprints usable?
    pub fn is_usable(&self) -> (r: bool)
        ensures
            r == any_usable(self.deep_view()),
    {
        let ghost m = self.deep_view();
        let mut i: usize = 0;
        while i < self.signatures.len()
            invariant
                i <= self.signatures@.len(),
                m == self.deep_view(),
                forall|k: int| 0 <= k < i ==> !(#[trigger] m[k]).signature.usable(),
            decreases self.signatures@.len() - i,
        {
            assert(m[i as int] == self.signatures@[i as int].deep_view());
            if self.signatures[i].signature.is_usable() {
                return true;
            }
            i += 1;
        }
        false
    }

    /// The first scanner whose fingerprint the steps bear.
    pub fn matching(&self, steps: &[StepOutcome]) -> (r: Option<&ScannerSignature>)
        ensures
            r.deep_view() == first_matched(self.deep_view(), steps.deep_view()),
    {
        let ghost m = self.deep_view();
        let mut i: usize = 0;
        assert(m.skip(0) =~= m);
        while i < self.signatures.len()
            invariant
                i <= self.signatures@.len(),
                m == self.deep_view(),
                first_matched(m, steps.deep_view()) == first_matched(
                    m.skip(i as int),
                    steps.deep_view(),
                ),
            decreases self.signatures@.len() - i,
        {
            let entry: &ScannerSignature = &self.signatures[i];
            proof {
                assert(m.skip(i as int)[0] == entry.deep_view());
                assert(m.skip(i as int).drop_first() =~= m.skip(i + 1));
            }
            if entry.signature.matches(steps) {
                return Some(entry);
            }
            i += 1;
        }
        assert(m.skip(m.len() as int).len() == 0);
        None
    }
}

impl StepSignature for SignatureSet {
    open spec fn matched(&self, steps: Seq<StepModel>) -> bool {
        first_matched(self.deep_view(), steps) is Some
    }

    fn matches(&self, steps: &[StepOutcome]) -> (r: bool) {
        self.matching(steps).is_some()
    }
}

/// Where a gate says that it applies. An empty list says nothing.
#[derive(Debug, PartialEq, Eq)]
pub struct Applicability {
    pub runs_for_operator_types: Vec<String>,
    pub runs_on_channels: Vec<String>,
}

/// An [`Applicability`] as a mathematical value.
pub struct ApplicabilityModel {
    pub runs_for_operator_types: Seq<Seq<char>>,
    pub runs_on_channels: Seq<Seq<char>>,
}

impl DeepView for Applicability {
    type V = ApplicabilityModel;

    open spec fn deep_view(&self) -> ApplicabilityModel {
        ApplicabilityModel {
            runs_for_operator_types: self.runs_for_operator_types.deep_view(),
            runs_on_channels: self.runs_on_channels.deep_view(),
        }
    }
}

impl Clone for Applicability {
    fn clone(&self) -> (r: Self)
        ensures
            r.deep_view() == self.deep_view(),
    {
        Applicability {
            runs_for_operator_types: copy_all(&self.runs_for_operator_types),
            runs_on_channels: copy_all(&self.runs_on_channels),
        }
    }
}

impl Default for Applicability {
    fn default() -> (r: Self)
        ensures
            r.deep_view().undeclared(),
    {
        Applicability { runs_for_operator_types: Vec::new(), runs_on_channels: Vec::new() }
    }
}

impl ApplicabilityModel {
    /// Does this gate say nothing about where it applies?
    pub open spec fn undeclared(self) -> bool {
        self.runs_for_operator_types.len() == 0 && self.runs_on_channels.len() == 0
    }
}

impl Applicability {
    /// Does this gate say nothing about where it applies? It then applies here.
    pub fn is_undeclared(&self) -> (r: bool)
        ensures
            r == self.deep_view().undeclared(),
    {
        self.runs_for_operator_types.len() == 0 && self.runs_on_channels.len() == 0
    }
}

/// What a repository says about itself, where it says it.
#[derive(Debug, PartialEq, Eq)]
pub struct RepoDeclaration {
    pub operator_type: Option<String>,
    pub channel: Option<String>,
}

/// A [`RepoDeclaration`] as a mathematical value.
pub struct DeclarationModel {
    pub operator_type: Option<Seq<char>>,
    pub channel: Option<Seq<char>>,
}

impl DeepView for RepoDeclaration {
    type V = DeclarationModel;

    open spec fn deep_view(&self) -> DeclarationModel {
        DeclarationModel {
            operator_type: self.operator_type.deep_view(),
            channel: self.channel.deep_view(),
        }
    }
}

impl Clone for RepoDeclaration {
    fn clone(&self) -> (r: Self)
        ensures
            r.deep_view() == self.deep_view(),
    {
        RepoDeclaration {
            operator_type: copy_option(&self.operator_type),
            channel: copy_option(&self.channel),
        }
    }
}

impl Default for RepoDeclaration {
    fn default() -> (r: Self)
        ensures
            r.operator_type is None,
            r.channel is None,
    {
        RepoDeclaration { operator_type: None, channel: None }
    }
}

/// The evidence behind a verdict.
#[derive(Debug, Clone, Copy, PartialEq, Eq)]
pub struct Evidence {
    /// How many runs of the check were inspected.
    pub run_count: u32,
    /// How many hundredths of them were stubbed.
    pub stub_rate: u32,
    /// Does the tool exist upstream? Nothing where that was not measured.
    pub upstream_exists: Option<bool>,
    /// Is what it scans for still there? Nothing where that was not measured.
    pub target_tech_present: Option<bool>,
}

/// A measurement in words.
pub open spec fn tri_text(v: Option<bool>) -> Seq<char> {
    match v {
        Some(true) => "true"@,
        Some(false) => "false"@,
        None => "unmeasured"@,
    }
}

fn tri(v: Option<bool>) -> (r: &'static str)
    ensures
        r@ == tri_text(v),
{
    match v {
        Some(true) => "true",
        Some(false) => "false",
        None => "unmeasured",
    }
}

/// Hundredths as a decimal fraction with two places.
pub open spec fn fraction(hundredths: nat) -> Seq<char> {
    decimal(hundredths / 100) + "."@ + seq![
        digit((hundredths / 10) % 10),
        digit(hundredths % 10),
    ]
}

impl Evidence {
    /// The evidence in one line.
    pub open spec fn described(self) -> Seq<char> {
        "run-count="@ + decimal(self.run_count as nat) + " stub-rate="@ + fraction(
            self.stub_rate as nat,
        ) + " upstream-exists="@ + tri_text(self.upstream_exists) + " target-tech-present="@
            + tri_text(self.target_tech_present)
    }

    /// The evidence in one line, with all four fields.
    pub fn describe(&self) -> (r: String)
        ensures
            r@ == self.described(),
    {
        let count: String = show(self.run_count as u64);
        let rate: String = show_fraction(self.stub_rate);
        let head: String = cat5("run-count=", &count, " stub-rate=", &rate, " upstream-exists=");
        crate::text::cat4(
            &head,
            tri(self.upstream_exists),
            " target-tech-present=",
            tri(self.target_tech_present),
        )
    }
}

fn show_fraction(hundredths: u32) -> (r: String)
    ensures
        r@ == fraction(hundredths as nat),
{
    let whole: String = show((hundredths / 100) as u64);
    let mut r: String = cat2(&whole, ".");
    let ghost head = r@;
    r.push(('0' as u8 + ((hundredths / 10) % 10) as u8) as char);
    r.push(('0' as u8 + (hundredths % 10) as u8) as char);
    assert(r@ =~= head + seq![
        digit((hundredths as nat / 10) % 10),
        digit(hundredths as nat % 10),
    ]);
    r
}

/// How a check went green without doing its job, as its steps show.
#[derive(Debug, Clone, Copy, PartialEq, Eq, Structural)]
pub enum VacuityCause {
    /// The work was skipped and a stub was written.
    StubbedAfterSkippedScan,
    /// Every step was skipped.
    AllStepsSkipped,
    /// No step was recorded.
    NoStepsRecorded,
}

/// The label of a cause.
pub open spec fn cause_label(cause: VacuityCause) -> Seq<char> {
    match cause {
        VacuityCause::StubbedAfterSkippedScan => "stubbed after a skipped scan"@,
        VacuityCause::AllStepsSkipped => "every step skipped"@,
        VacuityCause::NoStepsRecorded => "no steps recorded"@,
    }
}

impl VacuityCause {
    /// A short label for the cause.
    pub fn label(self) -> (r: &'static str)
        ensures
            r@ == cause_label(self),
    {
        match self {
            VacuityCause::StubbedAfterSkippedScan => "stubbed after a skipped scan",
            VacuityCause::AllStepsSkipped => "every step skipped",
            VacuityCause::NoStepsRecorded => "no steps recorded",
        }
    }
}

/// What the owner is advised to do. Whether a gate is of any use is for the owner to
/// say, so no advice follows from how often it was stubbed.
#[derive(Debug, Clone, Copy, PartialEq, Eq, Structural)]
pub enum Recommendation {
    /// What it scans for is gone.
    RecommendRemoval,
    /// The tool is declared but does not exist upstream.
    FixTheDeclaration,
    /// It is of value but does not work here.
    MakeItGreatInPractice,
}

/// The label of a recommendation.
pub open spec fn recommendation_label(recommendation: Recommendation) -> Seq<char> {
    match recommendation {
        Recommendation::RecommendRemoval => "recommend-removal"@,
        Recommendation::FixTheDeclaration => "fix-the-declaration"@,
        Recommendation::MakeItGreatInPractice => "make-it-great-in-practice"@,
    }
}

/// What the evidence advises: only a measurement can advise removal, or blame the
/// declaration.
pub open spec fn recommended(e: Evidence) -> Recommendation {
    if e.target_tech_present == Some(false) {
        Recommendation::RecommendRemoval
    } else if e.upstream_exists == Some(false) {
        Recommendation::FixTheDeclaration
    } else {
        Recommendation::MakeItGreatInPractice
    }
}

impl Recommendation {
    /// A short label for the recommendation.
    pub fn label(self) -> (r: &'static str)
        ensures
            r@ == recommendation_label(self),
    {
        match self {
            Recommendation::RecommendRemoval => "recommend-removal",
            Recommendation::FixTheDeclaration => "fix-the-declaration",
            Recommendation::MakeItGreatInPractice => "make-it-great-in-practice",
        }
    }

    /// What the evidence advises.
    pub fn from_evidence(e: &Evidence) -> (r: Self)
        ensures
            r == recommended(*e),
    {
        match (e.target_tech_present, e.upstream_exists) {
            (Some(false), _) => Recommendation::RecommendRemoval,
            (_, Some(false)) => Recommendation::FixTheDeclaration,
            _ => Recommendation::MakeItGreatInPractice,
        }
    }
}

/// The verdict on a check that concluded with success.
#[derive(Debug, PartialEq, Eq)]
pub enum PolarityVerdict {
    /// The check ran.
    Genuine,
    /// The check does not apply here, by declaration.
    NotApplicable { declaration: String },
    /// The check went green without doing its job.
    Vacuous { cause: VacuityCause, recommendation: Recommendation, evidence: Evidence },
}

/// A [`PolarityVerdict`] as a mathematical value.
pub enum PolarityModel {
    Genuine,
    NotApplicable { declaration: Seq<char> },
    Vacuous { cause: VacuityCause, recommendation: Recommendation, evidence: Evidence },
}

impl DeepView for PolarityVerdict {
    type V = PolarityModel;

    open spec fn deep_view(&self) -> PolarityModel {
        match self {
            PolarityVerdict::Genuine => PolarityModel::Genuine,
            PolarityVerdict::NotApplicable { declaration } => PolarityModel::NotApplicable {
                declaration: declaration@,
            },
            PolarityVerdict::Vacuous { cause, recommendation, evidence } =>
                PolarityModel::Vacuous {
                cause: *cause,
                recommendation: *recommendation,
                evidence: *evidence,
            },
        }
    }
}

impl Clone for PolarityVerdict {
    fn clone(&self) -> (r: Self)
        ensures
            r.deep_view() == self.deep_view(),
    {
        match self {
            PolarityVerdict::Genuine => PolarityVerdict::Genuine,
            PolarityVerdict::NotApplicable { declaration } => PolarityVerdict::NotApplicable {
                declaration: declaration.clone(),
            },
            PolarityVerdict::Vacuous { cause, recommendation, evidence } =>
                PolarityVerdict::Vacuous {
                cause: *cause,
                recommendation: *recommendation,
                evidence: *evidence,
            },
        }
    }
}

impl PolarityModel {
    /// The move that the verdict gives rise to: an escalation where the check is
    /// vacuous, nothing otherwise.
    pub open spec fn move_on(self, check: Seq<char>) -> Option<MoveModel> {
        match self {
            PolarityModel::Vacuous { cause, recommendation, evidence } => Some(
                MoveModel::EscalateToExpert {
                    check,
                    group: ExpertGroup::GateTriage,
                    obligation: EscalationKind::AssessConfidence,
                    evidence: "green but vacuous ("@ + cause_label(cause) + ") — "@
                        + evidence.described() + " ["@ + recommendation_label(recommendation)
                        + "]"@,
                },
            ),
            _ => None,
        }
    }
}

impl PolarityVerdict {
    /// The move that the verdict on `check` gives rise to. It is an escalation,
    /// which promotes no check and drops no requirement.
    pub fn to_move(&self, check: &str) -> (r: Option<Move>)
        ensures
            r.deep_view() == self.deep_view().move_on(check@),
    {
        match self {
            PolarityVerdict::Vacuous { cause, recommendation, evidence } => {
                let facts: String = evidence.describe();
                Some(
                    Move::EscalateToExpert {
                        check: check.to_owned(),
                        group: ExpertGroup::GateTriage,
                        obligation: EscalationKind::AssessConfidence,
                        evidence: cat7(
                            "green but vacuous (",
                            cause.label(),
                            ") — ",
                            &facts,
                            " [",
                            recommendation.label(),
                            "]",
                        ),
                    },
                )
            },
            _ => None,
        }
    }
}

/// Does a repository that says `declared` fall outside a list? Neither an empty list
/// nor a silent repository contradicts anything.
pub open spec fn contradicts(list: Seq<Seq<char>>, declared: Option<Seq<char>>) -> bool {
    list.len() > 0 && declared is Some && !list.contains(declared->Some_0)
}

/// Where the repository contradicts a gate, and how.
pub open spec fn inapplicable(a: ApplicabilityModel, d: DeclarationModel) -> Option<Seq<char>> {
    if contradicts(a.runs_for_operator_types, d.operator_type) {
        Some(
            "@gitforge_OperatorType="@ + d.operator_type->Some_0 + " not in ["@ + joined(
                a.runs_for_operator_types,
                ", "@,
            ) + "]"@,
        )
    } else if contradicts(a.runs_on_channels, d.channel) {
        Some(
            "@channel="@ + d.channel->Some_0 + " not in ["@ + joined(a.runs_on_channels, ", "@)
                + "]"@,
        )
    } else {
        None
    }
}

fn is_contradicted(list: &Vec<String>, declared: &str) -> (r: bool)
    ensures
        r == contradicts(list.deep_view(), Some(declared@)),
{
    list.len() > 0 && !listed(list, declared)
}

fn applicability_verdict(applicability: &Applicability, declared: &RepoDeclaration) -> (r: Option<
    PolarityVerdict,
>)
    ensures
        r.deep_view() == match inapplicable(applicability.deep_view(), declared.deep_view()) {
            Some(declaration) => Some(PolarityModel::NotApplicable { declaration }),
            None => None,
        },
{
    if applicability.is_undeclared() {
        return None;
    }
    if let Some(op) = &declared.operator_type {
        if is_contradicted(&applicability.runs_for_operator_types, op) {
            let list: String = join(&applicability.runs_for_operator_types, ", ");
            return Some(
                PolarityVerdict::NotApplicable {
                    declaration: cat5("@gitforge_OperatorType=", op, " not in [", &list, "]"),
                },
            );
        }
    }
    if let Some(ch) = &declared.channel {
        if is_contradicted(&applicability.runs_on_channels, ch) {
            let list: String = join(&applicability.runs_on_channels, ", ");
            return Some(
                PolarityVerdict::NotApplicable {
                    declaration: cat5("@channel=", ch, " not in [", &list, "]"),
                },
            );
        }
    }
    None
}

/// Was every step skipped?
pub open spec fn all_skipped(steps: Seq<StepModel>) -> bool {
    forall|i: int| 0 <= i < steps.len() ==> (#[trigger] steps[i]).conclusion
        == StepConclusion::Skipped
}

/// Why the steps show a check to be vacuous, if they do. `fingerprinted` says
/// whether they bear the host's fingerprint.
pub open spec fn cause_of(steps: Seq<StepModel>, fingerprinted: bool) -> Option<VacuityCause> {
    if steps.len() == 0 {
        Some(VacuityCause::NoStepsRecorded)
    } else if fingerprinted {
        Some(VacuityCause::StubbedAfterSkippedScan)
    } else if all_skipped(steps) {
        Some(VacuityCause::AllStepsSkipped)
    } else {
        None
    }
}

/// The verdict on a check that concluded with success: whether it applies at all is
/// looked at first.
pub open spec fn verdict_of(
    steps: Seq<StepModel>,
    fingerprinted: bool,
    a: ApplicabilityModel,
    d: DeclarationModel,
    evidence: Evidence,
) -> PolarityModel {
    match inapplicable(a, d) {
        Some(declaration) => PolarityModel::NotApplicable { declaration },
        None => match cause_of(steps, fingerprinted) {
            Some(cause) => PolarityModel::Vacuous {
                cause,
                recommendation: recommended(evidence),
                evidence,
            },
            None => PolarityModel::Genuine,
        },
    }
}

fn every_step_skipped(steps: &[StepOutcome]) -> (r: bool)
    ensures
        r == all_skipped(steps.deep_view()),
{
    let ghost m = steps.deep_view();
    let mut i: usize = 0;
    while i < steps.len()
        invariant
            i <= steps@.len(),
            m == steps.deep_view(),
            forall|k: int| 0 <= k < i ==> (#[trigger] m[k]).conclusion == StepConclusion::Skipped,
        decreases steps@.len() - i,
    {
        assert(m[i as int].conclusion == steps@[i as int].conclusion);
        if steps[i].conclusion != StepConclusion::Skipped {
            return false;
        }
        i += 1;
    }
    true
}

/// Judges a check that concluded with success.
pub fn classify<S: StepSignature>(
    steps: &[StepOutcome],
    signature: &S,
    applicability: &Applicability,
    declared: &RepoDeclaration,
    evidence: Evidence,
) -> (r: PolarityVerdict)
    ensures
        r.deep_view() == verdict_of(
            steps.deep_view(),
            signature.matched(steps.deep_view()),
            applicability.deep_view(),
            declared.deep_view(),
            evidence,
        ),
{
    if let Some(verdict) = applicability_verdict(applicability, declared) {
        return verdict;
    }
    let cause: Option<VacuityCause> = if steps.len() == 0 {
        Some(VacuityCause::NoStepsRecorded)
    } else if signature.matches(steps) {
        Some(VacuityCause::StubbedAfterSkippedScan)
    } else if every_step_skipped(steps) {
        Some(VacuityCause::AllStepsSkipped)
    } else {
        None
    };
    match cause {
        None => PolarityVerdict::Genuine,
        Some(cause) => PolarityVerdict::Vacuous {
            cause,
            recommendation: Recommendation::from_evidence(&evidence),
            evidence,
        },
    }
}

/// A conclusion is read as a skip exactly where the API says `skipped`, so nothing
/// that is unknown or absent is ever taken for half a fingerprint.
pub proof fn only_a_skip_is_a_skip(raw: Option<Seq<char>>)
    ensures
        conclusion_of(raw) == StepConclusion::Skipped <==> raw == Some("skipped"@),
        raw is None ==> conclusion_of(raw) == StepConclusion::Other,
{
    reveal_strlit("success");
    reveal_strlit("skipped");
    assert("success"@[1] != "skipped"@[1]);
}

/// A half-empty fingerprint is borne by no job.
pub proof fn an_unusable_signature_never_matches(s: SignatureModel, steps: Seq<StepModel>)
    requires
        !s.usable(),
    ensures
        !s.matched(steps),
{
}

/// A job that did not record one of a scanner's steps does not bear that scanner's
/// fingerprint, so no scanner is judged by another's steps.
pub proof fn a_signature_needs_each_of_its_steps(
    s: SignatureModel,
    steps: Seq<StepModel>,
    name: Seq<char>,
)
    requires
        s.skipped_steps.contains(name) || s.success_steps.contains(name),
        forall|i: int| 0 <= i < steps.len() ==> trimmed((#[trigger] steps[i]).name) != trimmed(name),
    ensures
        !s.matched(steps),
{
    if s.matched(steps) {
        if s.skipped_steps.contains(name) {
            let i = choose|i: int| 0 <= i < s.skipped_steps.len() && s.skipped_steps[i] == name;
            assert(concluded(steps, s.skipped_steps[i], StepConclusion::Skipped));
        } else {
            let i = choose|i: int| 0 <= i < s.success_steps.len() && s.success_steps[i] == name;
            assert(concluded(steps, s.success_steps[i], StepConclusion::Success));
        }
    }
}

/// A set of fingerprints is borne exactly where one of them is, and the scanner that
/// is named is one of the set whose fingerprint is borne.
pub proof fn a_set_matches_by_one_of_its_own(set: Seq<ScannerModel>, steps: Seq<StepModel>)
    ensures
        first_matched(set, steps) is Some <==> exists|i: int|
            0 <= i < set.len() && (#[trigger] set[i]).signature.matched(steps),
        first_matched(set, steps) matches Some(s) ==> set.contains(s) && s.signature.matched(steps),
        first_matched(set, steps) is Some ==> any_usable(set),
    decreases set.len(),
{
    if set.len() > 0 {
        if set[0].signature.matched(steps) {
            assert(set.contains(set[0]));
            assert(set[0].signature.usable());
        } else {
            let rest = set.drop_first();
            a_set_matches_by_one_of_its_own(rest, steps);
            if first_matched(rest, steps) is Some {
                let i = choose|i: int|
                    0 <= i < rest.len() && (#[trigger] rest[i]).signature.matched(steps);
                assert(set[i + 1] == rest[i]);
                assert(set[i + 1].signature.usable());
                let s = first_matched(rest, steps)->Some_0;
                let k = choose|k: int| 0 <= k < rest.len() && rest[k] == s;
                assert(set[k + 1] == s);
            }
            assert forall|i: int| 0 <= i < set.len() && (#[trigger] set[i]).signature.matched(
                steps,
            ) implies first_matched(rest, steps) is Some by {
                assert(rest[i - 1] == set[i]);
            }
        }
    }
}

/// How often a check was stubbed never changes what is advised.
pub proof fn the_stub_rate_never_advises(e: Evidence, run_count: u32, stub_rate: u32)
    ensures
        recommended(e) == recommended(Evidence { run_count, stub_rate, ..e }),
{
}

/// Removal is advised exactly where the absence was measured.
pub proof fn only_a_measurement_advises_removal(e: Evidence)
    ensures
        recommended(e) == Recommendation::RecommendRemoval <==> e.target_tech_present == Some(
            false,
        ),
        e.target_tech_present is None && e.upstream_exists is None ==> recommended(e)
            == Recommendation::MakeItGreatInPractice,
{
}

/// Only a vacuous check gives rise to a move, and the move is an escalation of that
/// check to gate triage.
pub proof fn a_verdict_only_escalates(v: PolarityModel, check: Seq<char>)
    ensures
        v.move_on(check) is Some <==> v is Vacuous,
        v.move_on(check) matches Some(m) ==> (m matches MoveModel::EscalateToExpert {
            check: c,
            group: ExpertGroup::GateTriage,
            obligation: EscalationKind::AssessConfidence,
            ..
        } && c == check),
{
}

/// A gate that declares nothing applies everywhere, and a repository that declares
/// nothing contradicts no gate.
pub proof fn silence_is_no_contradiction(a: ApplicabilityModel, d: DeclarationModel)
    ensures
        a.undeclared() ==> inapplicable(a, d) is None,
        d.operator_type is None && d.channel is None ==> inapplicable(a, d) is None,
{
}

/// A check is found genuine exactly where it applies and its steps give no cause.
pub proof fn genuine_means_it_ran(
    steps: Seq<StepModel>,
    fingerprinted: bool,
    a: ApplicabilityModel,
    d: DeclarationModel,
    evidence: Evidence,
)
    ensures
        verdict_of(steps, fingerprinted, a, d, evidence) is Genuine <==> inapplicable(a, d) is None
            && steps.len() > 0 && !fingerprinted && exists|i: int|
            0 <= i < steps.len() && (#[trigger] steps[i]).conclusion != StepConclusion::Skipped,
{
}

/// A gate does not apply exactly where a list of it is not empty and lacks the value that the
/// repository declares for it: a declared value that stands anywhere in the list contradicts
/// nothing, and neither does a value that is not declared.
pub proof fn only_a_value_outside_a_list_contradicts(a: ApplicabilityModel, d: DeclarationModel)
    ensures
        inapplicable(a, d) is Some <==> {
            ||| a.runs_for_operator_types.len() > 0 && (d.operator_type matches Some(op) && forall|
                i: int,
            |
                0 <= i < a.runs_for_operator_types.len() ==> #[trigger] a.runs_for_operator_types[i]
                    != op)
            ||| a.runs_on_channels.len() > 0 && (d.channel matches Some(ch) && forall|i: int|
                0 <= i < a.runs_on_channels.len() ==> #[trigger] a.runs_on_channels[i] != ch)
        },
        (d.operator_type matches Some(op) ==> a.runs_for_operator_types.contains(op)) && (
        d.channel matches Some(ch) ==> a.runs_on_channels.contains(ch)) ==> inapplicable(a, d)
            is None,
{
    if let Some(op) = d.operator_type {
        assert(a.runs_for_operator_types.contains(op) <==> exists|i: int|
            0 <= i < a.runs_for_operator_types.len() && #[trigger] a.runs_for_operator_types[i]
                == op);
    }
    if let Some(ch) = d.channel {
        assert(a.runs_on_channels.contains(ch) <==> exists|i: int|
            0 <= i < a.runs_on_channels.len() && #[trigger] a.runs_on_channels[i] == ch);
    }
}

/// The finding that a gate does not apply names the value that contradicts it and the list
/// that lacks it; the operator type is looked at before the channel.
pub proof fn a_contradiction_names_its_value(a: ApplicabilityModel, d: DeclarationModel)
    ensures
        inapplicable(a, d) matches Some(text) ==> {
            ||| {
                &&& d.operator_type matches Some(op)
                &&& !a.runs_for_operator_types.contains(op)
                &&& text == "@gitforge_OperatorType="@ + op + " not in ["@ + joined(
                    a.runs_for_operator_types,
                    ", "@,
                ) + "]"@
            }
            ||| {
                &&& d.operator_type is None || a.runs_for_operator_types.len() == 0
                    || a.runs_for_operator_types.contains(d.operator_type->Some_0)
                &&& d.channel matches Some(ch)
                &&& !a.runs_on_channels.contains(ch)
                &&& text == "@channel="@ + ch + " not in ["@ + joined(a.runs_on_channels, ", "@)
                    + "]"@
            }
        },
{
}

/// Each conclusion is read from its own word, and everything else is `Other`.
pub proof fn conclusions_are_read_word_by_word(raw: Option<Seq<char>>)
    ensures
        conclusion_of(raw) == StepConclusion::Success <==> raw == Some("success"@),
        conclusion_of(raw) == StepConclusion::Skipped <==> raw == Some("skipped"@),
        conclusion_of(raw) == StepConclusion::Failure <==> raw == Some("failure"@),
        conclusion_of(raw) == StepConclusion::Cancelled <==> raw == Some("cancelled"@),
{
    reveal_strlit("success");
    reveal_strlit("skipped");
    reveal_strlit("failure");
    reveal_strlit("cancelled");
    assert("success"@[0] == 's' && "skipped"@[0] == 's');
    assert("success"@[1] != "skipped"@[1]);
    assert("failure"@[0] == 'f');
    assert("cancelled"@[0] == 'c');
}

/// A job that bears a fingerprint skipped each step of its first half and ran each of its
/// second with success, white space around names aside; and both halves name a step.
pub proof fn a_fingerprint_is_borne_in_full(
    s: SignatureModel,
    steps: Seq<StepModel>,
    n: int,
)
    requires
        s.matched(steps),
    ensures
        s.skipped_steps.len() > 0,
        s.success_steps.len() > 0,
        0 <= n < s.skipped_steps.len() ==> exists|i: int|
            0 <= i < steps.len() && trimmed((#[trigger] steps[i]).name) == trimmed(
                s.skipped_steps[n],
            ) && steps[i].conclusion == StepConclusion::Skipped,
        0 <= n < s.success_steps.len() ==> exists|i: int|
            0 <= i < steps.len() && trimmed((#[trigger] steps[i]).name) == trimmed(
                s.success_steps[n],
            ) && steps[i].conclusion == StepConclusion::Success,
{
    if 0 <= n < s.skipped_steps.len() {
        assert(concluded(steps, s.skipped_steps[n], StepConclusion::Skipped));
    }
    if 0 <= n < s.success_steps.len() {
        assert(concluded(steps, s.success_steps[n], StepConclusion::Success));
    }
}

/// A job bears a fingerprint as soon as, for each step of its first half, `skipped` gives the
/// position of a step of that name that was skipped and, for each of its second half, `done`
/// that of one that succeeded, wherever they stand in the job.
pub proof fn steps_in_any_order_bear_a_fingerprint(
    s: SignatureModel,
    steps: Seq<StepModel>,
    skipped: Seq<int>,
    done: Seq<int>,
)
    requires
        0 < s.skipped_steps.len() <= skipped.len(),
        0 < s.success_steps.len() <= done.len(),
        forall|n: int|
            0 <= n < s.skipped_steps.len() ==> 0 <= #[trigger] skipped[n] < steps.len() && trimmed(
                steps[skipped[n]].name,
            ) == trimmed(s.skipped_steps[n]) && steps[skipped[n]].conclusion
                == StepConclusion::Skipped,
        forall|n: int|
            0 <= n < s.success_steps.len() ==> 0 <= #[trigger] done[n] < steps.len() && trimmed(
                steps[done[n]].name,
            ) == trimmed(s.success_steps[n]) && steps[done[n]].conclusion
                == StepConclusion::Success,
    ensures
        s.matched(steps),
{
    assert forall|n: int| 0 <= n < s.skipped_steps.len() implies concluded(
        steps,
        #[trigger] s.skipped_steps[n],
        StepConclusion::Skipped,
    ) by {
        assert(trimmed(steps[skipped[n]].name) == trimmed(s.skipped_steps[n]));
    }
    assert forall|n: int| 0 <= n < s.success_steps.len() implies concluded(
        steps,
        #[trigger] s.success_steps[n],
        StepConclusion::Success,
    ) by {
        assert(trimmed(steps[done[n]].name) == trimmed(s.success_steps[n]));
    }
}

/// The scanner that is named is the first of the set whose fingerprint is borne.
pub proof fn the_first_scanner_is_named(set: Seq<ScannerModel>, steps: Seq<StepModel>, k: int)
    requires
        0 <= k < set.len(),
        set[k].signature.matched(steps),
        forall|j: int| 0 <= j < k ==> !(#[trigger] set[j]).signature.matched(steps),
    ensures
        first_matched(set, steps) == Some(set[k]),
    decreases k,
{
    if k > 0 {
        let rest = set.drop_first();
        assert(!set[0].signature.matched(steps));
        assert forall|j: int| 0 <= j < k - 1 implies !(#[trigger] rest[j]).signature.matched(
            steps,
        ) by {
            assert(rest[j] == set[j + 1]);
        }
        the_first_scanner_is_named(rest, steps, k - 1);
    }
}

/// What is advised goes by the two measurements alone: removal where what it scans for is
/// gone, a corrected declaration where the tool is gone and what it scans for is not known to
/// be, and otherwise to make it work.
pub proof fn advice_goes_by_the_measurements(e: Evidence)
    ensures
        recommended(e) == Recommendation::RecommendRemoval <==> e.target_tech_present == Some(false),
        recommended(e) == Recommendation::FixTheDeclaration <==> e.target_tech_present != Some(
            false,
        ) && e.upstream_exists == Some(false),
        recommended(e) == Recommendation::MakeItGreatInPractice <==> e.target_tech_present != Some(
            false,
        ) && e.upstream_exists != Some(false),
{
}

/// A check is vacuous exactly where it applies and has no steps, bears a fingerprint or had
/// every step skipped, and the cause is the first of these that holds. The verdict carries the
/// evidence as it was, with the advice that follows from it.
pub proof fn a_vacuous_check_has_its_cause(
    steps: Seq<StepModel>,
    fingerprinted: bool,
    a: ApplicabilityModel,
    d: DeclarationModel,
    evidence: Evidence,
)
    ensures
        match verdict_of(steps, fingerprinted, a, d, evidence) {
            PolarityModel::NotApplicable { declaration } => inapplicable(a, d) == Some(declaration),
            PolarityModel::Vacuous { cause, recommendation, evidence: kept } => {
                &&& inapplicable(a, d) is None
                &&& kept == evidence
                &&& recommendation == recommended(evidence)
                &&& cause == VacuityCause::NoStepsRecorded <==> steps.len() == 0
                &&& cause == VacuityCause::StubbedAfterSkippedScan <==> steps.len() > 0
                    && fingerprinted
                &&& cause == VacuityCause::AllStepsSkipped <==> steps.len() > 0 && !fingerprinted
                &&& cause == VacuityCause::AllStepsSkipped ==> forall|i: int|
                    0 <= i < steps.len() ==> (#[trigger] steps[i]).conclusion
                        == StepConclusion::Skipped
            },
            PolarityModel::Genuine => {
                &&& inapplicable(a, d) is None
                &&& steps.len() > 0
                &&& !fingerprinted
                &&& exists|i: int|
                    0 <= i < steps.len() && (#[trigger] steps[i]).conclusion
                        != StepConclusion::Skipped
            },
        },
{
}

/// The escalation of a vacuous check says why it is vacuous, what the evidence is and what is
/// advised.
pub proof fn an_escalation_carries_its_evidence(
    cause: VacuityCause,
    recommendation: Recommendation,
    evidence: Evidence,
    check: Seq<char>,
)
    ensures
        (PolarityModel::Vacuous { cause, recommendation, evidence }).move_on(check) == Some(
            MoveModel::EscalateToExpert {
                check,
                group: ExpertGroup::GateTriage,
                obligation: EscalationKind::AssessConfidence,
                evidence: "green but vacuous ("@ + cause_label(cause) + ") — "@
                    + evidence.described() + " ["@ + recommendation_label(recommendation) + "]"@,
            },
        ),
{
}

/// What was measured is told apart from what was not, and each cause and each recommendation
/// has its own label.
pub proof fn evidence_is_put_in_words(
    v: Option<bool>,
    cause: VacuityCause,
    recommendation: Recommendation,
)
    ensures
        v == Some(true) ==> tri_text(v) == "true"@,
        v == Some(false) ==> tri_text(v) == "false"@,
        v is None ==> tri_text(v) == "unmeasured"@,
        cause_label(cause) == match cause {
            VacuityCause::StubbedAfterSkippedScan => "stubbed after a skipped scan"@,
            VacuityCause::AllStepsSkipped => "every step skipped"@,
            VacuityCause::NoStepsRecorded => "no steps recorded"@,
        },
        recommendation_label(recommendation) == match recommendation {
            Recommendation::RecommendRemoval => "recommend-removal"@,
            Recommendation::FixTheDeclaration => "fix-the-declaration"@,
            Recommendation::MakeItGreatInPractice => "make-it-great-in-practice"@,
        },
{
}

/// The evidence is told in a fixed order: the number of runs, the rate of stubs, whether the
/// upstream exists and whether the target technology is there.
pub proof fn evidence_is_told_in_order(e: Evidence)
    ensures
        e.described() == "run-count="@ + decimal(e.run_count as nat) + " stub-rate="@ + fraction(
            e.stub_rate as nat,
        ) + " upstream-exists="@ + tri_text(e.upstream_exists) + " target-tech-present="@
            + tri_text(e.target_tech_present),
{
}

/// A number of hundredths is shown as the whole, a point and two digits, which read as the
/// hundredths beyond the whole.
pub proof fn hundredths_are_shown_with_two_digits(h: nat, tens: char, units: char)
    requires
        is_digit(tens),
        is_digit(units),
        (tens as u32 - '0' as u32) * 10 + (units as u32 - '0' as u32) == h % 100,
    ensures
        fraction(h) == decimal(h / 100) + "."@ + seq![tens, units],
{
    let t = (tens as u32 - '0' as u32) as nat;
    let u = (units as u32 - '0' as u32) as nat;
    assert(h % 100 == t * 10 + u);
    assert((h / 10) % 10 == t && h % 10 == u);
    assert(digit(t) == tens);
    assert(digit(u) == units);
}

} // verus!
