//! The moves that may be proposed against a stuck gate.
//!
//! Every move satisfies a gate or hands it on; none bypasses it. To drop a
//! required context, to toggle an override or to merge as an administrator is not
//! representable as a [`Move`].
use vstd::prelude::*;

use crate::text::{
    cat2, cat3, cat4, cat5, cat6, cat7, copy_all, cuts, cuts_at, decimal, join, joined,
    lemma_plain_cut, lemma_plain_len, show, take_bytes, up_to_byte,
};

verus! {

/// A specialist group that is summoned when a gate is out of the squabbler's lane.
#[derive(Debug, Clone, Copy, PartialEq, Eq, Structural)]
pub enum ExpertGroup {
    /// Analysis only: confidence, recipes, dispatch strategy.
    Hypatia,
    /// Analysis and actuation.
    HypatiaFleet,
    /// Proof and verification obligations.
    Proof,
    /// Static analysis and scanning for weak points.
    Security,
    /// Owner-side triage of a gate that is green without doing its job.
    GateTriage,
}

/// What an [`ExpertGroup`] is asked to do.
#[derive(Debug, Clone, Copy, PartialEq, Eq, Structural)]
pub enum EscalationKind {
    /// Is this a known pattern, and how confident should we be in a fix?
    AssessConfidence,
    /// Fix this and open the pull request.
    DispatchFix,
    /// Verify that this claim holds.
    VerifyClaim,
    /// Scan for the real underlying weak points.
    Scan,
}

/// Who is responsible for a surfaced check.
#[derive(Debug, PartialEq, Eq)]
pub enum OwnershipDisposition {
    /// No workflow provides the check yet.
    ShouldBeAddedToCi,
    /// The check runs, but its own configuration strands pull requests.
    MisconfiguredGate { detail: String },
    /// The check comes from a reusable workflow in another repository.
    OwnedUpstream { repo: String },
    /// No owner could be attributed.
    Ownerless,
}

/// In which way a licence-policy check is unsatisfied.
#[derive(Debug, PartialEq, Eq)]
pub enum LicenceFinding {
    /// The concrete violation is not known yet.
    NeedsGroundTruth,
    /// `LICENSES/` lacks canonical texts.
    MissingLicenceText { missing: Vec<String> },
    /// The root `LICENSE` is not the default.
    RootDisplayMismatch { found: String },
    /// Existing files carry the wrong SPDX header.
    HeaderDrift { files: Vec<String>, expected: String },
}

/// How a [`LicenceFinding`] may be resolved.
#[derive(Debug, Clone, Copy, PartialEq, Eq, Structural)]
pub enum LicenceResolution {
    /// Adding a missing canonical text is authoring.
    AuthorAllowed,
    /// Authoring for a new repository, the owner's own act for an existing one.
    AuthorNewRepoElseOwnerManual,
    /// Rewriting an existing header is relicensing: flag it, never edit it.
    OwnerManual,
    /// Not known before the violation is.
    Unknown,
}

/// One legitimate move against a stuck gate.
#[derive(Debug, PartialEq, Eq)]
pub enum Move {
    /// The required context name drifted from the name that is emitted.
    ReconcileRequiredContext { required: String, emitted: String },
    /// A path filter strands a required check on pull requests that miss it.
    InjectPathFilterPassThrough { check: String, workflow: String },
    /// A required job calls a reusable workflow at a stale revision.
    RepinReusableWorkflow { reference: String, from_sha: String, to_sha: String },
    /// Resolve a conflict and run the checks again.
    ResolveAndRerun { branch: String },
    /// Enumerate the check names that a workflow really emits.
    GroundTruthCheckNames { workflow: String },
    /// A licence-policy check is unsatisfied.
    LicencePolicyDrift { check: String, finding: LicenceFinding },
    /// The check fails whatever the pull request holds.
    FlagNonFunctionalGate { check: String, evidence: String },
    /// Hand the red to a specialist group; a hand-off, never a win.
    EscalateToExpert {
        check: String,
        group: ExpertGroup,
        obligation: EscalationKind,
        evidence: String,
    },
    /// Name who is responsible for the check; an annotation, never a win.
    AssignGateOwner {
        check: String,
        owner: String,
        disposition: OwnershipDisposition,
        rationale: String,
    },
    /// The Actions allowlist is empty and refuses every external action.
    SetActionsAllowedAll,
    /// The Actions allowlist lacks a pattern for an action in use.
    ReconcileActionsPolicy { blocked_ref: String, add_patterns: Vec<String> },
    /// Actions pinned to tags are refused where full revisions are required.
    PinWorkflowActions { workflow: String, refs: Vec<String> },
}

/// An [`OwnershipDisposition`] as a mathematical value.
pub enum DispositionModel {
    ShouldBeAddedToCi,
    MisconfiguredGate { detail: Seq<char> },
    OwnedUpstream { repo: Seq<char> },
    Ownerless,
}

/// A [`LicenceFinding`] as a mathematical value.
pub enum FindingModel {
    NeedsGroundTruth,
    MissingLicenceText { missing: Seq<Seq<char>> },
    RootDisplayMismatch { found: Seq<char> },
    HeaderDrift { files: Seq<Seq<char>>, expected: Seq<char> },
}

/// A [`Move`] as a mathematical value.
pub enum MoveModel {
    ReconcileRequiredContext { required: Seq<char>, emitted: Seq<char> },
    InjectPathFilterPassThrough { check: Seq<char>, workflow: Seq<char> },
    RepinReusableWorkflow { reference: Seq<char>, from_sha: Seq<char>, to_sha: Seq<char> },
    ResolveAndRerun { branch: Seq<char> },
    GroundTruthCheckNames { workflow: Seq<char> },
    LicencePolicyDrift { check: Seq<char>, finding: FindingModel },
    FlagNonFunctionalGate { check: Seq<char>, evidence: Seq<char> },
    EscalateToExpert {
        check: Seq<char>,
        group: ExpertGroup,
        obligation: EscalationKind,
        evidence: Seq<char>,
    },
    AssignGateOwner {
        check: Seq<char>,
        owner: Seq<char>,
        disposition: DispositionModel,
        rationale: Seq<char>,
    },
    SetActionsAllowedAll,
    ReconcileActionsPolicy { blocked_ref: Seq<char>, add_patterns: Seq<Seq<char>> },
    PinWorkflowActions { workflow: Seq<char>, refs: Seq<Seq<char>> },
}

impl DeepView for OwnershipDisposition {
    type V = DispositionModel;

    open spec fn deep_view(&self) -> DispositionModel {
        match self {
            OwnershipDisposition::ShouldBeAddedToCi => DispositionModel::ShouldBeAddedToCi,
            OwnershipDisposition::MisconfiguredGate { detail } =>
                DispositionModel::MisconfiguredGate { detail: detail@ },
            OwnershipDisposition::OwnedUpstream { repo } => DispositionModel::OwnedUpstream {
                repo: repo@,
            },
            OwnershipDisposition::Ownerless => DispositionModel::Ownerless,
        }
    }
}

impl DeepView for LicenceFinding {
    type V = FindingModel;

    open spec fn deep_view(&self) -> FindingModel {
        match self {
            LicenceFinding::NeedsGroundTruth => FindingModel::NeedsGroundTruth,
            LicenceFinding::MissingLicenceText { missing } => FindingModel::MissingLicenceText {
                missing: missing.deep_view(),
            },
            LicenceFinding::RootDisplayMismatch { found } => FindingModel::RootDisplayMismatch {
                found: found@,
            },
            LicenceFinding::HeaderDrift { files, expected } => FindingModel::HeaderDrift {
                files: files.deep_view(),
                expected: expected@,
            },
        }
    }
}

impl DeepView for Move {
    type V = MoveModel;

    open spec fn deep_view(&self) -> MoveModel {
        match self {
            Move::ReconcileRequiredContext { required, emitted } =>
                MoveModel::ReconcileRequiredContext { required: required@, emitted: emitted@ },
            Move::InjectPathFilterPassThrough { check, workflow } =>
                MoveModel::InjectPathFilterPassThrough { check: check@, workflow: workflow@ },
            Move::RepinReusableWorkflow { reference, from_sha, to_sha } =>
                MoveModel::RepinReusableWorkflow {
                reference: reference@,
                from_sha: from_sha@,
                to_sha: to_sha@,
            },
            Move::ResolveAndRerun { branch } => MoveModel::ResolveAndRerun { branch: branch@ },
            Move::GroundTruthCheckNames { workflow } => MoveModel::GroundTruthCheckNames {
                workflow: workflow@,
            },
            Move::LicencePolicyDrift { check, finding } => MoveModel::LicencePolicyDrift {
                check: check@,
                finding: finding.deep_view(),
            },
            Move::FlagNonFunctionalGate { check, evidence } => MoveModel::FlagNonFunctionalGate {
                check: check@,
                evidence: evidence@,
            },
            Move::EscalateToExpert { check, group, obligation, evidence } =>
                MoveModel::EscalateToExpert {
                check: check@,
                group: *group,
                obligation: *obligation,
                evidence: evidence@,
            },
            Move::AssignGateOwner { check, owner, disposition, rationale } =>
                MoveModel::AssignGateOwner {
                check: check@,
                owner: owner@,
                disposition: disposition.deep_view(),
                rationale: rationale@,
            },
            Move::SetActionsAllowedAll => MoveModel::SetActionsAllowedAll,
            Move::ReconcileActionsPolicy { blocked_ref, add_patterns } =>
                MoveModel::ReconcileActionsPolicy {
                blocked_ref: blocked_ref@,
                add_patterns: add_patterns.deep_view(),
            },
            Move::PinWorkflowActions { workflow, refs } => MoveModel::PinWorkflowActions {
                workflow: workflow@,
                refs: refs.deep_view(),
            },
        }
    }
}

impl Clone for OwnershipDisposition {
    fn clone(&self) -> (r: Self)
        ensures
            r.deep_view() == self.deep_view(),
    {
        match self {
            OwnershipDisposition::ShouldBeAddedToCi => OwnershipDisposition::ShouldBeAddedToCi,
            OwnershipDisposition::MisconfiguredGate { detail } =>
                OwnershipDisposition::MisconfiguredGate { detail: detail.clone() },
            OwnershipDisposition::OwnedUpstream { repo } => OwnershipDisposition::OwnedUpstream {
                repo: repo.clone(),
            },
            OwnershipDisposition::Ownerless => OwnershipDisposition::Ownerless,
        }
    }
}

impl Clone for LicenceFinding {
    fn clone(&self) -> (r: Self)
        ensures
            r.deep_view() == self.deep_view(),
    {
        match self {
            LicenceFinding::NeedsGroundTruth => LicenceFinding::NeedsGroundTruth,
            LicenceFinding::MissingLicenceText { missing } => LicenceFinding::MissingLicenceText {
                missing: copy_all(missing),
            },
            LicenceFinding::RootDisplayMismatch { found } => LicenceFinding::RootDisplayMismatch {
                found: found.clone(),
            },
            LicenceFinding::HeaderDrift { files, expected } => LicenceFinding::HeaderDrift {
                files: copy_all(files),
                expected: expected.clone(),
            },
        }
    }
}

impl Clone for Move {
    fn clone(&self) -> (r: Self)
        ensures
            r.deep_view() == self.deep_view(),
    {
        match self {
            Move::ReconcileRequiredContext { required, emitted } =>
                Move::ReconcileRequiredContext {
                required: required.clone(),
                emitted: emitted.clone(),
            },
            Move::InjectPathFilterPassThrough { check, workflow } =>
                Move::InjectPathFilterPassThrough {
                check: check.clone(),
                workflow: workflow.clone(),
            },
            Move::RepinReusableWorkflow { reference, from_sha, to_sha } =>
                Move::RepinReusableWorkflow {
                reference: reference.clone(),
                from_sha: from_sha.clone(),
                to_sha: to_sha.clone(),
            },
            Move::ResolveAndRerun { branch } => Move::ResolveAndRerun { branch: branch.clone() },
            Move::GroundTruthCheckNames { workflow } => Move::GroundTruthCheckNames {
                workflow: workflow.clone(),
            },
            Move::LicencePolicyDrift { check, finding } => Move::LicencePolicyDrift {
                check: check.clone(),
                finding: finding.clone(),
            },
            Move::FlagNonFunctionalGate { check, evidence } => Move::FlagNonFunctionalGate {
                check: check.clone(),
                evidence: evidence.clone(),
            },
            Move::EscalateToExpert { check, group, obligation, evidence } =>
                Move::EscalateToExpert {
                check: check.clone(),
                group: *group,
                obligation: *obligation,
                evidence: evidence.clone(),
            },
            Move::AssignGateOwner { check, owner, disposition, rationale } =>
                Move::AssignGateOwner {
                check: check.clone(),
                owner: owner.clone(),
                disposition: disposition.clone(),
                rationale: rationale.clone(),
            },
            Move::SetActionsAllowedAll => Move::SetActionsAllowedAll,
            Move::ReconcileActionsPolicy { blocked_ref, add_patterns } =>
                Move::ReconcileActionsPolicy {
                blocked_ref: blocked_ref.clone(),
                add_patterns: copy_all(add_patterns),
            },
            Move::PinWorkflowActions { workflow, refs } => Move::PinWorkflowActions {
                workflow: workflow.clone(),
                refs: copy_all(refs),
            },
        }
    }
}

/// The label of a group.
pub open spec fn group_label(group: ExpertGroup) -> Seq<char> {
    match group {
        ExpertGroup::Hypatia => "hypatia (analysis)"@,
        ExpertGroup::HypatiaFleet => "hypatia+fleet (analyse+fix)"@,
        ExpertGroup::Proof => "proof (echidna)"@,
        ExpertGroup::Security => "security (panic-attack)"@,
        ExpertGroup::GateTriage => "gate-triage (owner assessment)"@,
    }
}

impl ExpertGroup {
    /// A short label that names the group and its remit.
    pub fn label(self) -> (r: &'static str)
        ensures
            r@ == group_label(self),
    {
        match self {
            ExpertGroup::Hypatia => "hypatia (analysis)",
            ExpertGroup::HypatiaFleet => "hypatia+fleet (analyse+fix)",
            ExpertGroup::Proof => "proof (echidna)",
            ExpertGroup::Security => "security (panic-attack)",
            ExpertGroup::GateTriage => "gate-triage (owner assessment)",
        }
    }
}

/// The label of an obligation.
pub open spec fn obligation_label(kind: EscalationKind) -> Seq<char> {
    match kind {
        EscalationKind::AssessConfidence => "assess-confidence"@,
        EscalationKind::DispatchFix => "dispatch-fix"@,
        EscalationKind::VerifyClaim => "verify-claim"@,
        EscalationKind::Scan => "scan"@,
    }
}

impl EscalationKind {
    /// A short label for the obligation.
    pub fn label(self) -> (r: &'static str)
        ensures
            r@ == obligation_label(self),
    {
        match self {
            EscalationKind::AssessConfidence => "assess-confidence",
            EscalationKind::DispatchFix => "dispatch-fix",
            EscalationKind::VerifyClaim => "verify-claim",
            EscalationKind::Scan => "scan",
        }
    }
}

impl DispositionModel {
    /// The label of the disposition.
    pub open spec fn label(self) -> Seq<char> {
        match self {
            DispositionModel::ShouldBeAddedToCi => "should-be-added-to-ci"@,
            DispositionModel::MisconfiguredGate { .. } => "misconfigured-gate"@,
            DispositionModel::OwnedUpstream { .. } => "owned-upstream"@,
            DispositionModel::Ownerless => "ownerless"@,
        }
    }

    /// The disposition in words.
    pub open spec fn described(self) -> Seq<char> {
        match self {
            DispositionModel::ShouldBeAddedToCi => "should be added to CI"@,
            DispositionModel::MisconfiguredGate { detail } => "misconfigured gate: "@ + detail,
            DispositionModel::OwnedUpstream { repo } => "owned upstream in `"@ + repo + "`"@,
            DispositionModel::Ownerless => "no current owner"@,
        }
    }
}

impl OwnershipDisposition {
    /// A short label for the disposition.
    pub fn label(&self) -> (r: &'static str)
        ensures
            r@ == self.deep_view().label(),
    {
        match self {
            OwnershipDisposition::ShouldBeAddedToCi => "should-be-added-to-ci",
            OwnershipDisposition::MisconfiguredGate { .. } => "misconfigured-gate",
            OwnershipDisposition::OwnedUpstream { .. } => "owned-upstream",
            OwnershipDisposition::Ownerless => "ownerless",
        }
    }

    fn describe(&self) -> (r: String)
        ensures
            r@ == self.deep_view().described(),
    {
        match self {
            OwnershipDisposition::ShouldBeAddedToCi => "should be added to CI".to_owned(),
            OwnershipDisposition::MisconfiguredGate { detail } => cat2(
                "misconfigured gate: ",
                detail,
            ),
            OwnershipDisposition::OwnedUpstream { repo } => cat3("owned upstream in `", repo, "`"),
            OwnershipDisposition::Ownerless => "no current owner".to_owned(),
        }
    }
}

impl FindingModel {
    /// How the finding may be resolved.
    pub open spec fn resolution(self) -> LicenceResolution {
        match self {
            FindingModel::MissingLicenceText { .. } => LicenceResolution::AuthorAllowed,
            FindingModel::RootDisplayMismatch { .. } =>
                LicenceResolution::AuthorNewRepoElseOwnerManual,
            FindingModel::HeaderDrift { .. } => LicenceResolution::OwnerManual,
            FindingModel::NeedsGroundTruth => LicenceResolution::Unknown,
        }
    }

    /// The finding in words.
    pub open spec fn described(self) -> Seq<char> {
        match self {
            FindingModel::NeedsGroundTruth =>
                "ground-truth the concrete violation (REUSE / check-spdx)"@,
            FindingModel::MissingLicenceText { missing } => "LICENSES/ missing "@ + joined(
                missing,
                ", "@,
            ),
            FindingModel::RootDisplayMismatch { found } => "root LICENSE is `"@ + found
                + "`; estate display is MPL-2.0"@,
            FindingModel::HeaderDrift { files, expected } => decimal(files.len())
                + " file(s) need per-file SPDX `"@ + expected + "`"@,
        }
    }
}

impl LicenceFinding {
    /// How the finding may be resolved: a missing canonical text may be added, a
    /// drifted header is only ever flagged.
    pub fn resolution(&self) -> (r: LicenceResolution)
        ensures
            r == self.deep_view().resolution(),
    {
        match self {
            LicenceFinding::MissingLicenceText { .. } => LicenceResolution::AuthorAllowed,
            LicenceFinding::RootDisplayMismatch { .. } =>
                LicenceResolution::AuthorNewRepoElseOwnerManual,
            LicenceFinding::HeaderDrift { .. } => LicenceResolution::OwnerManual,
            LicenceFinding::NeedsGroundTruth => LicenceResolution::Unknown,
        }
    }

    fn describe(&self) -> (r: String)
        ensures
            r@ == self.deep_view().described(),
    {
        match self {
            LicenceFinding::NeedsGroundTruth =>
                "ground-truth the concrete violation (REUSE / check-spdx)".to_owned(),
            LicenceFinding::MissingLicenceText { missing } => {
                let list: String = join(missing, ", ");
                cat2("LICENSES/ missing ", &list)
            },
            LicenceFinding::RootDisplayMismatch { found } => cat3(
                "root LICENSE is `",
                found,
                "`; estate display is MPL-2.0",
            ),
            LicenceFinding::HeaderDrift { files, expected } => {
                let count: String = show(files.len() as u64);
                cat4(&count, " file(s) need per-file SPDX `", expected, "`")
            },
        }
    }
}

/// A resolution in words.
pub open spec fn resolution_text(resolution: LicenceResolution) -> Seq<char> {
    match resolution {
        LicenceResolution::AuthorAllowed => "author-allowed: add canonical text"@,
        LicenceResolution::AuthorNewRepoElseOwnerManual =>
            "author for a new repo, else owner-manual"@,
        LicenceResolution::OwnerManual => "owner-manual (A2): flag only, never auto-edit"@,
        LicenceResolution::Unknown => "unknown until ground-truthed"@,
    }
}

impl LicenceResolution {
    fn describe(self) -> (r: &'static str)
        ensures
            r@ == resolution_text(self),
    {
        match self {
            LicenceResolution::AuthorAllowed => "author-allowed: add canonical text",
            LicenceResolution::AuthorNewRepoElseOwnerManual =>
                "author for a new repo, else owner-manual",
            LicenceResolution::OwnerManual => "owner-manual (A2): flag only, never auto-edit",
            LicenceResolution::Unknown => "unknown until ground-truthed",
        }
    }
}

/// The abbreviation of a revision: its first seven bytes, or all of it where it
/// is shorter.
pub open spec fn abbreviated(sha: Seq<char>) -> Seq<char> {
    up_to_byte(sha, 7)
}

impl MoveModel {
    /// Can the move be put in words? A revision is abbreviated to its first seven
    /// bytes, which must not end inside a character.
    pub open spec fn describable(self) -> bool {
        self matches MoveModel::RepinReusableWorkflow { from_sha, to_sha, .. } ==> cuts_at(
            from_sha,
            7,
        ) && cuts_at(to_sha, 7)
    }

    /// The move in one line.
    pub open spec fn described(self) -> Seq<char> {
        match self {
            MoveModel::ReconcileRequiredContext { required, emitted } =>
                "reconcile required context `"@ + required + "` → emitted name `"@ + emitted
                    + "`"@,
            MoveModel::InjectPathFilterPassThrough { check, workflow } =>
                "inject path-filter pass-through for `"@ + check + "` in `"@ + workflow + "`"@,
            MoveModel::RepinReusableWorkflow { reference, from_sha, to_sha } => "re-pin `"@
                + reference + "` "@ + abbreviated(from_sha) + " → "@ + abbreviated(to_sha),
            MoveModel::ResolveAndRerun { branch } => "resolve conflicts on `"@ + branch
                + "` and re-run"@,
            MoveModel::GroundTruthCheckNames { workflow } =>
                "ground-truth emitted check names for `"@ + workflow + "`"@,
            MoveModel::LicencePolicyDrift { check, finding } => "licence-policy `"@ + check
                + "`: "@ + finding.described() + " ["@ + resolution_text(finding.resolution())
                + "]"@,
            MoveModel::FlagNonFunctionalGate { check, evidence } => "flag `"@ + check
                + "` as non-functional (unfixable from the PR side) — "@ + evidence,
            MoveModel::EscalateToExpert { check, group, obligation, evidence } => "escalate `"@
                + check + "` to "@ + group_label(group) + " ["@ + obligation_label(obligation)
                + "] — "@ + evidence,
            MoveModel::AssignGateOwner { check, owner, disposition, rationale } => "assign `"@
                + check + "` → `"@ + owner + "` ["@ + disposition.described() + "] — "@
                + rationale,
            MoveModel::SetActionsAllowedAll =>
                "set allowed_actions to `all` (SHA pinning kept) so the run can start"@,
            MoveModel::ReconcileActionsPolicy { blocked_ref, add_patterns } =>
                "allow blocked action `"@ + blocked_ref + "`: add patterns "@ + joined(
                add_patterns,
                ", "@,
            ),
            MoveModel::PinWorkflowActions { workflow, refs } => "pin actions in `"@ + workflow
                + "` to full SHAs: "@ + joined(refs, ", "@),
        }
    }
}

impl Move {
    /// Can the move be put in words?
    pub fn is_describable(&self) -> (r: bool)
        ensures
            r == self.deep_view().describable(),
    {
        match self {
            Move::RepinReusableWorkflow { from_sha, to_sha, .. } => cuts(from_sha, 7) && cuts(
                to_sha,
                7,
            ),
            _ => true,
        }
    }

    /// The move in one line, for a report.
    pub fn describe(&self) -> (r: String)
        requires
            self.deep_view().describable(),
        ensures
            r@ == self.deep_view().described(),
    {
        match self {
            Move::ReconcileRequiredContext { required, emitted } => cat5(
                "reconcile required context `",
                required,
                "` → emitted name `",
                emitted,
                "`",
            ),
            Move::InjectPathFilterPassThrough { check, workflow } => cat5(
                "inject path-filter pass-through for `",
                check,
                "` in `",
                workflow,
                "`",
            ),
            Move::RepinReusableWorkflow { reference, from_sha, to_sha } => cat6(
                "re-pin `",
                reference,
                "` ",
                short(from_sha),
                " → ",
                short(to_sha),
            ),
            Move::ResolveAndRerun { branch } => cat3(
                "resolve conflicts on `",
                branch,
                "` and re-run",
            ),
            Move::GroundTruthCheckNames { workflow } => cat3(
                "ground-truth emitted check names for `",
                workflow,
                "`",
            ),
            Move::LicencePolicyDrift { check, finding } => {
                let what: String = finding.describe();
                let how: &str = finding.resolution().describe();
                cat7("licence-policy `", check, "`: ", &what, " [", how, "]")
            },
            Move::FlagNonFunctionalGate { check, evidence } => cat4(
                "flag `",
                check,
                "` as non-functional (unfixable from the PR side) — ",
                evidence,
            ),
            Move::EscalateToExpert { check, group, obligation, evidence } => {
                let head: String = cat5("escalate `", check, "` to ", group.label(), " [");
                cat4(&head, obligation.label(), "] — ", evidence)
            },
            Move::AssignGateOwner { check, owner, disposition, rationale } => {
                let whose: String = disposition.describe();
                let head: String = cat5("assign `", check, "` → `", owner, "` [");
                cat4(&head, &whose, "] — ", rationale)
            },
            Move::SetActionsAllowedAll =>
                "set allowed_actions to `all` (SHA pinning kept) so the run can start".to_owned(),
            Move::ReconcileActionsPolicy { blocked_ref, add_patterns } => {
                let list: String = join(add_patterns, ", ");
                cat4("allow blocked action `", blocked_ref, "`: add patterns ", &list)
            },
            Move::PinWorkflowActions { workflow, refs } => {
                let list: String = join(refs, ", ");
                cat4("pin actions in `", workflow, "` to full SHAs: ", &list)
            },
        }
    }

    /// Does the move leave its gate as strong as it was? Every move does: a bypass
    /// is not representable.
    pub fn is_legitimate(&self) -> (r: bool)
        ensures
            r,
    {
        true
    }
}

fn short(sha: &str) -> (r: &str)
    requires
        cuts_at(sha@, 7),
    ensures
        r@ == abbreviated(sha@),
{
    take_bytes(sha, 7)
}

/// A drifted header is never edited, and a missing text is the only finding that
/// may be resolved by authoring alone.
pub proof fn header_drift_is_left_to_the_owner(finding: FindingModel)
    ensures
        finding.resolution() == LicenceResolution::OwnerManual <==> finding is HeaderDrift,
        finding.resolution() == LicenceResolution::AuthorAllowed <==> finding is MissingLicenceText,
{
}

/// Each group, each obligation and each disposition has its own label.
pub proof fn labels_tell_their_values_apart(
    g: ExpertGroup,
    k: EscalationKind,
    d: DispositionModel,
)
    ensures
        group_label(g) == match g {
            ExpertGroup::Hypatia => "hypatia (analysis)"@,
            ExpertGroup::HypatiaFleet => "hypatia+fleet (analyse+fix)"@,
            ExpertGroup::Proof => "proof (echidna)"@,
            ExpertGroup::Security => "security (panic-attack)"@,
            ExpertGroup::GateTriage => "gate-triage (owner assessment)"@,
        },
        obligation_label(k) == match k {
            EscalationKind::AssessConfidence => "assess-confidence"@,
            EscalationKind::DispatchFix => "dispatch-fix"@,
            EscalationKind::VerifyClaim => "verify-claim"@,
            EscalationKind::Scan => "scan"@,
        },
        d.label() == match d {
            DispositionModel::ShouldBeAddedToCi => "should-be-added-to-ci"@,
            DispositionModel::MisconfiguredGate { .. } => "misconfigured-gate"@,
            DispositionModel::OwnedUpstream { .. } => "owned-upstream"@,
            DispositionModel::Ownerless => "ownerless"@,
        },
{
}

/// A root licence may be authored for a new repository alone, and what is not known yet has
/// no resolution yet.
pub proof fn each_finding_has_its_resolution(finding: FindingModel)
    ensures
        finding.resolution() == LicenceResolution::AuthorNewRepoElseOwnerManual <==> finding
            is RootDisplayMismatch,
        finding.resolution() == LicenceResolution::Unknown <==> finding is NeedsGroundTruth,
        resolution_text(finding.resolution()) == match finding {
            FindingModel::MissingLicenceText { .. } => "author-allowed: add canonical text"@,
            FindingModel::RootDisplayMismatch { .. } => "author for a new repo, else owner-manual"@,
            FindingModel::HeaderDrift { .. } => "owner-manual (A2): flag only, never auto-edit"@,
            FindingModel::NeedsGroundTruth => "unknown until ground-truthed"@,
        },
{
}

/// A disposition and a finding are put in words with what they hold.
pub proof fn details_are_put_in_words(d: DispositionModel, f: FindingModel)
    ensures
        d.described() == match d {
            DispositionModel::ShouldBeAddedToCi => "should be added to CI"@,
            DispositionModel::MisconfiguredGate { detail } => "misconfigured gate: "@ + detail,
            DispositionModel::OwnedUpstream { repo } => "owned upstream in `"@ + repo + "`"@,
            DispositionModel::Ownerless => "no current owner"@,
        },
        f.described() == match f {
            FindingModel::NeedsGroundTruth =>
                "ground-truth the concrete violation (REUSE / check-spdx)"@,
            FindingModel::MissingLicenceText { missing } => "LICENSES/ missing "@ + joined(
                missing,
                ", "@,
            ),
            FindingModel::RootDisplayMismatch { found } => "root LICENSE is `"@ + found
                + "`; estate display is MPL-2.0"@,
            FindingModel::HeaderDrift { files, expected } => decimal(files.len())
                + " file(s) need per-file SPDX `"@ + expected + "`"@,
        },
{
}

/// The line for a move names what it is about: what is required before what is emitted, the
/// check before the workflow, the old revision before the new one, the check before who it
/// goes to.
pub proof fn a_move_says_what_it_is_about(m: MoveModel)
    ensures
        m.described() == match m {
            MoveModel::ReconcileRequiredContext { required, emitted } =>
                "reconcile required context `"@ + required + "` → emitted name `"@ + emitted
                    + "`"@,
            MoveModel::InjectPathFilterPassThrough { check, workflow } =>
                "inject path-filter pass-through for `"@ + check + "` in `"@ + workflow + "`"@,
            MoveModel::RepinReusableWorkflow { reference, from_sha, to_sha } => "re-pin `"@
                + reference + "` "@ + abbreviated(from_sha) + " → "@ + abbreviated(to_sha),
            MoveModel::ResolveAndRerun { branch } => "resolve conflicts on `"@ + branch
                + "` and re-run"@,
            MoveModel::GroundTruthCheckNames { workflow } =>
                "ground-truth emitted check names for `"@ + workflow + "`"@,
            MoveModel::LicencePolicyDrift { check, finding } => "licence-policy `"@ + check
                + "`: "@ + finding.described() + " ["@ + resolution_text(finding.resolution())
                + "]"@,
            MoveModel::FlagNonFunctionalGate { check, evidence } => "flag `"@ + check
                + "` as non-functional (unfixable from the PR side) — "@ + evidence,
            MoveModel::EscalateToExpert { check, group, obligation, evidence } => "escalate `"@
                + check + "` to "@ + group_label(group) + " ["@ + obligation_label(obligation)
                + "] — "@ + evidence,
            MoveModel::AssignGateOwner { check, owner, disposition, rationale } => "assign `"@
                + check + "` → `"@ + owner + "` ["@ + disposition.described() + "] — "@
                + rationale,
            MoveModel::SetActionsAllowedAll =>
                "set allowed_actions to `all` (SHA pinning kept) so the run can start"@,
            MoveModel::ReconcileActionsPolicy { blocked_ref, add_patterns } =>
                "allow blocked action `"@ + blocked_ref + "`: add patterns "@ + joined(
                add_patterns,
                ", "@,
            ),
            MoveModel::PinWorkflowActions { workflow, refs } => "pin actions in `"@ + workflow
                + "` to full SHAs: "@ + joined(refs, ", "@),
        },
{
}

/// A revision of seven or more plain characters is abbreviated to the first seven, and a
/// shorter one stands as it is; either can be put in words.
pub proof fn a_revision_is_abbreviated_to_seven(sha: Seq<char>)
    requires
        forall|i: int| 0 <= i < sha.len() ==> #[trigger] sha[i] as u32 <= 0x7f,
    ensures
        sha.len() >= 7 ==> abbreviated(sha) == sha.take(7),
        sha.len() < 7 ==> abbreviated(sha) == sha,
        cuts_at(sha, 7),
{
    lemma_plain_cut(sha, 7);
    let n: int = if sha.len() < 7 {
        sha.len() as int
    } else {
        7
    };
    assert(sha.take(sha.len() as int) =~= sha);
    lemma_plain_len(sha.take(n));
}

} // verus!
