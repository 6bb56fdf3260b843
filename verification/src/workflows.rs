//! Where each required check comes from, and what that says about the move to make.
//!
//! A check is attributed to the workflow that emits it. Whether that workflow is
//! owned elsewhere, strands pull requests, configures CI or does work of another
//! kind decides the move. Where no workflow can be named, no move is.
use vstd::prelude::*;

use crate::gate::{CheckModel, CheckRun, RequiredCheck};
use crate::moves::{
    DispositionModel, EscalationKind, ExpertGroup, Move, MoveModel, OwnershipDisposition,
};
use crate::text::{
    before, cat2, cat3, cat5, copy_all, copy_option, found_at, front, holds_text, is_empty,
    lacks, lemma_found, lemma_span_has, lemma_span_is, listed, occurs_at, same, starts_with,
    strip_suffix, stripped_end, take_before, take_front, trim, trimmed, CharClass,
};
use crate::workflow_file::{info_of, parse_workflow};

verus! {

/// What kind of work a workflow does.
#[derive(Debug, Clone, Copy, PartialEq, Eq, Structural)]
pub enum WorkflowKind {
    /// Lints the configuration of CI: the squabbler's own lane.
    Hygiene,
    /// Builds or lints code or containers.
    CodeBuild,
    /// Scans for secrets or vulnerabilities.
    Security,
    /// Checks proofs.
    Proof,
    /// Nothing that was recognised.
    Other,
}

/// The facts about one workflow file.
#[derive(Debug, PartialEq, Eq)]
pub struct WorkflowInfo {
    pub file: String,
    pub name: Option<String>,
    pub job_ids: Vec<String>,
    pub job_names: Vec<String>,
    /// The `owner/repo` of each reusable workflow that is called.
    pub reusable_repos: Vec<String>,
    /// Each action of another repository, as `owner/repo@ref`.
    pub external_uses: Vec<String>,
    /// Those of them that are pinned to a tag or a branch.
    pub tag_pinned_uses: Vec<String>,
    /// Is there a path filter on the triggers?
    pub path_filtered: bool,
    /// Does a step check for a descriptile at a retired place?
    pub retired_descriptile_policy: bool,
    /// Does the `jobs:` block hold nothing but comments?
    pub empty_jobs: bool,
    pub kind: WorkflowKind,
}

/// A [`WorkflowInfo`] as a mathematical value.
pub struct InfoModel {
    pub file: Seq<char>,
    pub name: Option<Seq<char>>,
    pub job_ids: Seq<Seq<char>>,
    pub job_names: Seq<Seq<char>>,
    pub reusable_repos: Seq<Seq<char>>,
    pub external_uses: Seq<Seq<char>>,
    pub tag_pinned_uses: Seq<Seq<char>>,
    pub path_filtered: bool,
    pub retired_descriptile_policy: bool,
    pub empty_jobs: bool,
    pub kind: WorkflowKind,
}

impl DeepView for WorkflowInfo {
    type V = InfoModel;

    open spec fn deep_view(&self) -> InfoModel {
        InfoModel {
            file: self.file@,
            name: self.name.deep_view(),
            job_ids: self.job_ids.deep_view(),
            job_names: self.job_names.deep_view(),
            reusable_repos: self.reusable_repos.deep_view(),
            external_uses: self.external_uses.deep_view(),
            tag_pinned_uses: self.tag_pinned_uses.deep_view(),
            path_filtered: self.path_filtered,
            retired_descriptile_policy: self.retired_descriptile_policy,
            empty_jobs: self.empty_jobs,
            kind: self.kind,
        }
    }
}

impl Clone for WorkflowInfo {
    fn clone(&self) -> (r: Self)
        ensures
            r.deep_view() == self.deep_view(),
    {
        WorkflowInfo {
            file: self.file.clone(),
            name: copy_option(&self.name),
            job_ids: copy_all(&self.job_ids),
            job_names: copy_all(&self.job_names),
            reusable_repos: copy_all(&self.reusable_repos),
            external_uses: copy_all(&self.external_uses),
            tag_pinned_uses: copy_all(&self.tag_pinned_uses),
            path_filtered: self.path_filtered,
            retired_descriptile_policy: self.retired_descriptile_policy,
            empty_jobs: self.empty_jobs,
            kind: self.kind,
        }
    }
}

/// The repository's permissions for Actions, as the host fetched them.
#[derive(Debug, PartialEq, Eq)]
pub struct ActionsPolicyFacts {
    /// `all`, `local_only` or `selected`; empty where it is unknown.
    pub allowed_actions: String,
    /// Must every action be pinned to a full revision?
    pub sha_pinning_required: bool,
    /// Are the actions that GitHub owns allowed?
    pub github_owned_allowed: bool,
    /// The patterns that are allowed under `selected`.
    pub patterns_allowed: Vec<String>,
}

/// An [`ActionsPolicyFacts`] as a mathematical value.
pub struct PolicyModel {
    pub allowed_actions: Seq<char>,
    pub sha_pinning_required: bool,
    pub github_owned_allowed: bool,
    pub patterns_allowed: Seq<Seq<char>>,
}

impl DeepView for ActionsPolicyFacts {
    type V = PolicyModel;

    open spec fn deep_view(&self) -> PolicyModel {
        PolicyModel {
            allowed_actions: self.allowed_actions@,
            sha_pinning_required: self.sha_pinning_required,
            github_owned_allowed: self.github_owned_allowed,
            patterns_allowed: self.patterns_allowed.deep_view(),
        }
    }
}

impl Clone for ActionsPolicyFacts {
    fn clone(&self) -> (r: Self)
        ensures
            r.deep_view() == self.deep_view(),
    {
        ActionsPolicyFacts {
            allowed_actions: self.allowed_actions.clone(),
            sha_pinning_required: self.sha_pinning_required,
            github_owned_allowed: self.github_owned_allowed,
            patterns_allowed: copy_all(&self.patterns_allowed),
        }
    }
}

impl Default for ActionsPolicyFacts {
    fn default() -> (r: Self)
        ensures
            r.allowed_actions@.len() == 0,
            !r.sha_pinning_required,
            !r.github_owned_allowed,
            r.patterns_allowed@.len() == 0,
    {
        ActionsPolicyFacts {
            allowed_actions: String::new(),
            sha_pinning_required: false,
            github_owned_allowed: false,
            patterns_allowed: Vec::new(),
        }
    }
}

/// Does a pattern of the allowlist cover the action? It does where, up to any `@`,
/// it is the `owner/repo` itself, the owner with a star, or a prefix with a star.
pub open spec fn pattern_covers(pattern: Seq<char>, owner_repo: Seq<char>) -> bool {
    let base = front(pattern, CharClass::IsNot('@'));
    ||| base == owner_repo
    ||| base == front(owner_repo, CharClass::IsNot('/')) + "/*"@
    ||| match stripped_end(base, "*"@) {
        Some(prefix) => prefix.len() > 0 && prefix.is_prefix_of(owner_repo),
        None => false,
    }
}

impl PolicyModel {
    /// Are only selected actions allowed?
    pub open spec fn selected(self) -> bool {
        self.allowed_actions == "selected"@
    }

    /// Does the allowlist permit the action?
    pub open spec fn covers(self, owner_repo: Seq<char>) -> bool {
        let owner = front(owner_repo, CharClass::IsNot('/'));
        ||| self.github_owned_allowed && (owner == "actions"@ || owner == "github"@)
        ||| exists|i: int|
            0 <= i < self.patterns_allowed.len() && pattern_covers(
                #[trigger] self.patterns_allowed[i],
                owner_repo,
            )
    }

    /// The first of the actions that the allowlist does not permit.
    pub open spec fn first_blocked(self, uses: Seq<Seq<char>>) -> Option<Seq<char>>
        decreases uses.len(),
    {
        if uses.len() == 0 {
            None
        } else {
            let owner_repo = front(uses[0], CharClass::IsNot('@'));
            if self.covers(owner_repo) {
                self.first_blocked(uses.drop_first())
            } else {
                Some(owner_repo)
            }
        }
    }

    /// The first of the actions that the policy refuses, where it refuses any.
    pub open spec fn first_uncovered(self, uses: Seq<Seq<char>>) -> Option<Seq<char>> {
        if self.selected() {
            self.first_blocked(uses)
        } else {
            None
        }
    }
}

impl ActionsPolicyFacts {
    /// Are only selected actions allowed?
    pub fn is_selected(&self) -> (r: bool)
        ensures
            r == self.deep_view().selected(),
    {
        same(&self.allowed_actions, "selected")
    }

    /// Does the allowlist permit `owner_repo`? The question makes sense where only
    /// selected actions are allowed.
    pub fn covers(&self, owner_repo: &str) -> (r: bool)
        ensures
            r == self.deep_view().covers(owner_repo@),
    {
        let ghost m = self.deep_view();
        let owner: &str = take_front(owner_repo, CharClass::IsNot('/'));
        if self.github_owned_allowed && (same(owner, "actions") || same(owner, "github")) {
            return true;
        }
        let owner_wide: String = cat2(owner, "/*");
        let mut i: usize = 0;
        while i < self.patterns_allowed.len()
            invariant
                i <= self.patterns_allowed@.len(),
                m == self.deep_view(),
                owner_wide@ == front(owner_repo@, CharClass::IsNot('/')) + "/*"@,
                forall|k: int|
                    0 <= k < i ==> !pattern_covers(
                        #[trigger] m.patterns_allowed[k],
                        owner_repo@,
                    ),
            decreases self.patterns_allowed@.len() - i,
        {
            let pattern: &str = self.patterns_allowed[i].as_str();
            assert(m.patterns_allowed[i as int] == pattern@);
            let base: &str = take_front(pattern, CharClass::IsNot('@'));
            let by_prefix: bool = match strip_suffix(base, "*") {
                Some(prefix) => !is_empty(prefix) && starts_with(owner_repo, prefix),
                None => false,
            };
            if same(base, owner_repo) || same(base, &owner_wide) || by_prefix {
                assert(pattern_covers(m.patterns_allowed[i as int], owner_repo@));
                return true;
            }
            i += 1;
        }
        false
    }

    /// The `owner/repo` of the first action that the policy refuses; nothing where
    /// all are permitted or the policy does not select.
    pub fn first_uncovered<'a>(&self, external_uses: &'a [String]) -> (r: Option<&'a str>)
        ensures
            r.deep_view() == self.deep_view().first_uncovered(external_uses.deep_view()),
    {
        if !self.is_selected() {
            return None;
        }
        let ghost m = external_uses.deep_view();
        let mut i: usize = 0;
        assert(m.skip(0) =~= m);
        while i < external_uses.len()
            invariant
                i <= external_uses@.len(),
                m == external_uses.deep_view(),
                self.deep_view().first_blocked(m) == self.deep_view().first_blocked(
                    m.skip(i as int),
                ),
                self.deep_view().selected(),
            decreases external_uses@.len() - i,
        {
            let used: &'a str = external_uses[i].as_str();
            proof {
                assert(m.skip(i as int)[0] == used@);
                assert(m.skip(i as int).drop_first() =~= m.skip(i + 1));
            }
            let owner_repo: &'a str = take_front(used, CharClass::IsNot('@'));
            if !self.covers(owner_repo) {
                return Some(owner_repo);
            }
            i += 1;
        }
        assert(m.skip(m.len() as int).len() == 0);
        None
    }
}

impl InfoModel {
    /// Does the workflow emit the check? A check of a reusable workflow is named
    /// `<caller> / <job>` and is matched by the caller.
    pub open spec fn emits(self, check: Seq<char>) -> bool {
        let target = trimmed(before(check, " / "@));
        self.job_ids.contains(target) || self.job_names.contains(target) || self.name == Some(
            target,
        )
    }
}

impl WorkflowInfo {
    /// Does the workflow emit the check?
    pub fn emits(&self, check: &str) -> (r: bool)
        ensures
            r == self.deep_view().emits(check@),
    {
        let target: &str = trim(take_before(check, " / "));
        let by_name: bool = match &self.name {
            Some(name) => same(name, target),
            None => false,
        };
        listed(&self.job_ids, target) || listed(&self.job_names, target) || by_name
    }
}

/// The workflow files of a repository.
#[derive(Debug, PartialEq, Eq)]
pub struct WorkflowFacts {
    pub workflows: Vec<WorkflowInfo>,
}

impl DeepView for WorkflowFacts {
    type V = Seq<InfoModel>;

    open spec fn deep_view(&self) -> Seq<InfoModel> {
        self.workflows.deep_view()
    }
}

impl Clone for WorkflowFacts {
    fn clone(&self) -> (r: Self)
        ensures
            r.deep_view() == self.deep_view(),
    {
        let workflows = self.workflows.clone();
        assert(workflows.deep_view() =~= self.workflows.deep_view());
        WorkflowFacts { workflows }
    }
}

impl Default for WorkflowFacts {
    fn default() -> (r: Self)
        ensures
            r.deep_view() == Seq::<InfoModel>::empty(),
    {
        let workflows: Vec<WorkflowInfo> = Vec::new();
        assert(workflows.deep_view() =~= Seq::<InfoModel>::empty());
        WorkflowFacts { workflows }
    }
}

/// One entry of the workflow directory, as the host found it.
#[derive(Debug, PartialEq, Eq)]
pub struct WorkflowFile {
    /// The name of the file in bytes, by which the directory is ordered.
    pub name: Vec<u8>,
    /// The name of the file as a text; empty where it is none.
    pub file: String,
    /// Its extension, if it has one.
    pub extension: Option<String>,
    /// Its text, if it could be read.
    pub text: Option<String>,
}

/// A [`WorkflowFile`] as a mathematical value.
pub struct FileModel {
    pub name: Seq<u8>,
    pub file: Seq<char>,
    pub extension: Option<Seq<char>>,
    pub text: Option<Seq<char>>,
}

impl DeepView for WorkflowFile {
    type V = FileModel;

    open spec fn deep_view(&self) -> FileModel {
        FileModel {
            name: self.name@,
            file: self.file@,
            extension: self.extension.deep_view(),
            text: self.text.deep_view(),
        }
    }
}

impl FileModel {
    /// The facts that the entry gives away: none where it is no workflow file or
    /// could not be read.
    pub open spec fn info(self) -> Option<InfoModel> {
        if self.extension == Some("yml"@) || self.extension == Some("yaml"@) {
            match self.text {
                Some(text) => Some(info_of(self.file, text)),
                None => None,
            }
        } else {
            None
        }
    }
}

/// Does `a` come before `b` in the order of the dictionary?
pub open spec fn precedes(a: Seq<u8>, b: Seq<u8>) -> bool
    decreases a.len(),
{
    if b.len() == 0 {
        false
    } else if a.len() == 0 {
        true
    } else if a[0] != b[0] {
        a[0] < b[0]
    } else {
        precedes(a.drop_first(), b.drop_first())
    }
}

/// `sorted` with `f` behind all that its name does not come before.
pub open spec fn placed(sorted: Seq<FileModel>, f: FileModel) -> Seq<FileModel>
    decreases sorted.len(),
{
    if sorted.len() == 0 || precedes(f.name, sorted[0].name) {
        seq![f] + sorted
    } else {
        seq![sorted[0]] + placed(sorted.drop_first(), f)
    }
}

/// The entries of a directory in the order of their names.
pub open spec fn by_name(files: Seq<FileModel>) -> Seq<FileModel>
    decreases files.len(),
{
    if files.len() == 0 {
        seq![]
    } else {
        placed(by_name(files.drop_last()), files.last())
    }
}

/// The facts of each workflow file that could be read, in the order of the listing.
pub open spec fn infos_of(files: Seq<FileModel>) -> Seq<InfoModel>
    decreases files.len(),
{
    if files.len() == 0 {
        seq![]
    } else {
        match files.last().info() {
            Some(w) => infos_of(files.drop_last()).push(w),
            None => infos_of(files.drop_last()),
        }
    }
}

/// The facts of a directory: of each workflow file that could be read, in the order
/// of their names.
pub open spec fn facts_of(files: Seq<FileModel>) -> Seq<InfoModel> {
    infos_of(by_name(files))
}

/// The first workflow that emits the check.
pub open spec fn emitter(workflows: Seq<InfoModel>, check: Seq<char>) -> Option<InfoModel>
    decreases workflows.len(),
{
    if workflows.len() == 0 {
        None
    } else if workflows[0].emits(check) {
        Some(workflows[0])
    } else {
        emitter(workflows.drop_first(), check)
    }
}

/// The move against a policy for Actions that keeps the workflow from starting.
///
/// The allowlist comes first: it is what a run is held to first. An empty one is
/// opened, one with a gap gets the pattern that it lacks. Pinning comes second.
pub open spec fn policy_move(policy: PolicyModel, w: InfoModel) -> Option<MoveModel> {
    match policy.first_uncovered(w.external_uses) {
        Some(blocked) => if policy.patterns_allowed.len() == 0 {
            Some(MoveModel::SetActionsAllowedAll)
        } else {
            Some(
                MoveModel::ReconcileActionsPolicy {
                    blocked_ref: blocked,
                    add_patterns: seq![blocked + "@*"@],
                },
            )
        },
        None => if policy.sha_pinning_required && w.tag_pinned_uses.len() > 0 {
            Some(MoveModel::PinWorkflowActions { workflow: w.file, refs: w.tag_pinned_uses })
        } else {
            None
        },
    }
}

/// The first of the repositories that is not this one.
pub open spec fn foreign_repo(repos: Seq<Seq<char>>, slug: Seq<char>) -> Option<Seq<char>>
    decreases repos.len(),
{
    if repos.len() == 0 {
        None
    } else if repos[0] != slug {
        Some(repos[0])
    } else {
        foreign_repo(repos.drop_first(), slug)
    }
}

/// Who takes work of a kind that is out of lane, what they are asked for and what
/// the work is.
pub open spec fn expert_for(kind: WorkflowKind) -> Option<(ExpertGroup, EscalationKind, Seq<char>)> {
    match kind {
        WorkflowKind::CodeBuild => Some(
            (
                ExpertGroup::HypatiaFleet,
                EscalationKind::DispatchFix,
                "builds/lints code or containers"@,
            ),
        ),
        WorkflowKind::Security => Some(
            (ExpertGroup::Security, EscalationKind::Scan, "scans for secrets/vulnerabilities"@),
        ),
        WorkflowKind::Proof => Some(
            (
                ExpertGroup::Proof,
                EscalationKind::VerifyClaim,
                "checks a formal-verification obligation"@,
            ),
        ),
        _ => None,
    }
}

/// The move for a check by what the workflow that emits it is.
pub open spec fn move_by_workflow(w: InfoModel, check: CheckModel, slug: Seq<char>) -> Option<
    MoveModel,
> {
    if w.retired_descriptile_policy {
        Some(
            MoveModel::FlagNonFunctionalGate {
                check: check.context,
                evidence: "`"@ + w.file
                    + "` requires a retired descriptile path; reconcile its policy with .machine_readable/descriptiles/ and SD004 before retrying"@,
            },
        )
    } else if w.empty_jobs {
        Some(
            MoveModel::FlagNonFunctionalGate {
                check: check.context,
                evidence: "`"@ + w.file
                    + "` contains only commented jobs; GitHub cannot create a check from this template"@,
            },
        )
    } else if foreign_repo(w.reusable_repos, slug) is Some {
        let repo = foreign_repo(w.reusable_repos, slug)->Some_0;
        Some(
            MoveModel::AssignGateOwner {
                check: check.context,
                owner: repo,
                disposition: DispositionModel::OwnedUpstream { repo },
                rationale: "emitted by `"@ + w.file
                    + "` which calls the reusable workflow in `"@ + repo + "`"@,
            },
        )
    } else if w.path_filtered && check.run == CheckRun::Missing {
        Some(MoveModel::InjectPathFilterPassThrough { check: check.context, workflow: w.file })
    } else if w.kind == WorkflowKind::Hygiene {
        Some(MoveModel::GroundTruthCheckNames { workflow: w.file })
    } else {
        match expert_for(w.kind) {
            Some((group, obligation, what)) => Some(
                MoveModel::EscalateToExpert {
                    check: check.context,
                    group,
                    obligation,
                    evidence: "`"@ + check.context + "` runs in `"@ + w.file + "` which "@ + what
                        + " — out of the squabbler's CI-config lane"@,
                },
            ),
            None => None,
        }
    }
}

/// The move for a check. The policy for Actions is looked at where it is known and
/// the check was seen to fail at startup.
pub open spec fn classified(
    workflows: Seq<InfoModel>,
    check: CheckModel,
    slug: Seq<char>,
    policy: Option<PolicyModel>,
    startup_failed: bool,
) -> Option<MoveModel> {
    match emitter(workflows, check.context) {
        Some(w) => {
            let by_policy = if startup_failed && policy is Some {
                policy_move(policy->Some_0, w)
            } else {
                None
            };
            if by_policy is Some {
                by_policy
            } else {
                move_by_workflow(w, check, slug)
            }
        },
        None => None,
    }
}

impl WorkflowFacts {
    /// The facts of a directory, whatever state it is in: an entry that is no
    /// workflow file, or could not be read, is passed over.
    pub fn load(files: &Vec<WorkflowFile>) -> (r: Self)
        ensures
            r.deep_view() == facts_of(files.deep_view()),
    {
        let sorted: Vec<&WorkflowFile> = sort_by_name(files);
        let ghost m = sorted.deep_view();
        let mut workflows: Vec<WorkflowInfo> = Vec::new();
        let mut i: usize = 0;
        assert(workflows.deep_view() =~= Seq::empty());
        while i < sorted.len()
            invariant
                i <= sorted@.len(),
                m == sorted.deep_view(),
                workflows.deep_view() == infos_of(m.take(i as int)),
            decreases sorted@.len() - i,
        {
            let entry: &WorkflowFile = sorted[i];
            let ghost sofar = workflows.deep_view();
            proof {
                assert(m.take(i + 1).drop_last() =~= m.take(i as int));
                assert(m.take(i + 1).last() == entry.deep_view());
            }
            if let Some(w) = read_entry(entry) {
                workflows.push(w);
                assert(workflows.deep_view() =~= sofar.push(w.deep_view()));
            }
            i += 1;
        }
        assert(m.take(m.len() as int) =~= m);
        WorkflowFacts { workflows }
    }

    fn find_emitting(&self, check: &str) -> (r: Option<&WorkflowInfo>)
        ensures
            r.deep_view() == emitter(self.deep_view(), check@),
    {
        let ghost m = self.deep_view();
        let mut i: usize = 0;
        assert(m.skip(0) =~= m);
        while i < self.workflows.len()
            invariant
                i <= self.workflows@.len(),
                m == self.deep_view(),
                emitter(m, check@) == emitter(m.skip(i as int), check@),
            decreases self.workflows@.len() - i,
        {
            let w: &WorkflowInfo = &self.workflows[i];
            proof {
                assert(m.skip(i as int)[0] == w.deep_view());
                assert(m.skip(i as int).drop_first() =~= m.skip(i + 1));
            }
            if w.emits(check) {
                return Some(w);
            }
            i += 1;
        }
        assert(m.skip(m.len() as int).len() == 0);
        None
    }

    /// The move for a check by the workflow that emits it; nothing where no
    /// workflow does, or the workflow says nothing.
    pub fn classify(&self, check: &RequiredCheck, slug: &str) -> (r: Option<Move>)
        ensures
            r.deep_view() == classified(self.deep_view(), check.deep_view(), slug@, None, false),
    {
        self.classify_with_policy(check, slug, None, false)
    }

    /// As [`Self::classify`], but where the check was seen to fail at startup the
    /// repository's policy for Actions is looked at first.
    pub fn classify_with_policy(
        &self,
        check: &RequiredCheck,
        slug: &str,
        policy: Option<&ActionsPolicyFacts>,
        startup_failed: bool,
    ) -> (r: Option<Move>)
        ensures
            r.deep_view() == classified(
                self.deep_view(),
                check.deep_view(),
                slug@,
                policy.deep_view(),
                startup_failed,
            ),
    {
        let name: &str = check.required_context.as_str();
        let w: &WorkflowInfo = match self.find_emitting(name) {
            Some(w) => w,
            None => {
                return None;
            },
        };
        if startup_failed {
            if let Some(p) = policy {
                let by_policy: Option<Move> = move_against_policy(p, w);
                if by_policy.is_some() {
                    return by_policy;
                }
            }
        }
        if w.retired_descriptile_policy {
            return Some(
                Move::FlagNonFunctionalGate {
                    check: name.to_owned(),
                    evidence: cat3(
                        "`",
                        &w.file,
                        "` requires a retired descriptile path; reconcile its policy with .machine_readable/descriptiles/ and SD004 before retrying",
                    ),
                },
            );
        }
        if w.empty_jobs {
            return Some(
                Move::FlagNonFunctionalGate {
                    check: name.to_owned(),
                    evidence: cat3(
                        "`",
                        &w.file,
                        "` contains only commented jobs; GitHub cannot create a check from this template",
                    ),
                },
            );
        }
        if let Some(repo) = find_foreign(&w.reusable_repos, slug) {
            return Some(
                Move::AssignGateOwner {
                    check: name.to_owned(),
                    owner: repo.to_owned(),
                    disposition: OwnershipDisposition::OwnedUpstream { repo: repo.to_owned() },
                    rationale: cat5(
                        "emitted by `",
                        &w.file,
                        "` which calls the reusable workflow in `",
                        repo,
                        "`",
                    ),
                },
            );
        }
        if w.path_filtered && check.run == CheckRun::Missing {
            return Some(
                Move::InjectPathFilterPassThrough {
                    check: name.to_owned(),
                    workflow: w.file.clone(),
                },
            );
        }
        let (group, obligation, what): (ExpertGroup, EscalationKind, &str) = match w.kind {
            WorkflowKind::Hygiene => {
                return Some(Move::GroundTruthCheckNames { workflow: w.file.clone() });
            },
            WorkflowKind::CodeBuild => (
                ExpertGroup::HypatiaFleet,
                EscalationKind::DispatchFix,
                "builds/lints code or containers",
            ),
            WorkflowKind::Security => (
                ExpertGroup::Security,
                EscalationKind::Scan,
                "scans for secrets/vulnerabilities",
            ),
            WorkflowKind::Proof => (
                ExpertGroup::Proof,
                EscalationKind::VerifyClaim,
                "checks a formal-verification obligation",
            ),
            WorkflowKind::Other => {
                return None;
            },
        };
        let place: String = cat5("`", name, "` runs in `", &w.file, "` which ");
        Some(
            Move::EscalateToExpert {
                check: name.to_owned(),
                group,
                obligation,
                evidence: cat3(&place, what, " — out of the squabbler's CI-config lane"),
            },
        )
    }
}

/// The facts that one entry of the directory gives away.
fn read_entry(entry: &WorkflowFile) -> (r: Option<WorkflowInfo>)
    ensures
        r.deep_view() == entry.deep_view().info(),
{
    let wanted: bool = match &entry.extension {
        Some(extension) => same(extension, "yml") || same(extension, "yaml"),
        None => false,
    };
    match &entry.text {
        Some(text) => if wanted {
            Some(parse_workflow(&entry.file, text))
        } else {
            None
        },
        None => None,
    }
}

/// See [`precedes`].
pub fn comes_before(a: &Vec<u8>, b: &Vec<u8>) -> (r: bool)
    ensures
        r == precedes(a@, b@),
{
    let mut i: usize = 0;
    assert(a@.skip(0) =~= a@ && b@.skip(0) =~= b@);
    while i < a.len() && i < b.len()
        invariant
            i <= a@.len(),
            i <= b@.len(),
            precedes(a@, b@) == precedes(a@.skip(i as int), b@.skip(i as int)),
        decreases a@.len() - i,
    {
        assert(a@.skip(i as int).drop_first() =~= a@.skip(i + 1));
        assert(b@.skip(i as int).drop_first() =~= b@.skip(i + 1));
        if a[i] != b[i] {
            return a[i] < b[i];
        }
        i += 1;
    }
    i < b.len()
}

/// Puts `f` behind all that its name does not come before.
fn place<'a>(sorted: &mut Vec<&'a WorkflowFile>, f: &'a WorkflowFile)
    ensures
        final(sorted).deep_view() == placed(old(sorted).deep_view(), f.deep_view()),
{
    let ghost m = sorted.deep_view();
    let ghost x = f.deep_view();
    let mut k: usize = 0;
    assert(m.skip(0) =~= m);
    assert(m.take(0) + placed(m, x) =~= placed(m, x));
    while k < sorted.len() && !comes_before(&f.name, &sorted[k].name)
        invariant
            k <= sorted@.len(),
            m == sorted.deep_view(),
            m == old(sorted).deep_view(),
            x == f.deep_view(),
            placed(m, x) == m.take(k as int) + placed(m.skip(k as int), x),
        decreases sorted@.len() - k,
    {
        proof {
            let rest = m.skip(k as int);
            assert(rest[0] == sorted@[k as int].deep_view());
            assert(rest.drop_first() =~= m.skip(k + 1));
            assert(m.take(k as int) + (seq![rest[0]] + placed(m.skip(k + 1), x)) =~= m.take(k + 1)
                + placed(m.skip(k + 1), x));
        }
        k += 1;
    }
    proof {
        if k < m.len() {
            assert(m.skip(k as int)[0] == sorted@[k as int].deep_view());
        }
        assert(placed(m, x) == m.take(k as int) + (seq![x] + m.skip(k as int)));
    }
    sorted.insert(k, f);
    assert(sorted.deep_view() =~= m.take(k as int) + (seq![x] + m.skip(k as int)));
}

/// The entries of a directory in the order of their names.
fn sort_by_name(files: &Vec<WorkflowFile>) -> (r: Vec<&WorkflowFile>)
    ensures
        r.deep_view() == by_name(files.deep_view()),
{
    let ghost m = files.deep_view();
    let mut r: Vec<&WorkflowFile> = Vec::new();
    let mut i: usize = 0;
    assert(r.deep_view() =~= Seq::empty());
    while i < files.len()
        invariant
            i <= files@.len(),
            m == files.deep_view(),
            r.deep_view() == by_name(m.take(i as int)),
        decreases files@.len() - i,
    {
        proof {
            assert(m.take(i + 1).drop_last() =~= m.take(i as int));
            assert(m.take(i + 1).last() == files@[i as int].deep_view());
        }
        place(&mut r, &files[i]);
        i += 1;
    }
    assert(m.take(m.len() as int) =~= m);
    r
}

fn find_foreign<'a>(repos: &'a Vec<String>, slug: &str) -> (r: Option<&'a str>)
    ensures
        r.deep_view() == foreign_repo(repos.deep_view(), slug@),
{
    let ghost m = repos.deep_view();
    let mut i: usize = 0;
    assert(m.skip(0) =~= m);
    while i < repos.len()
        invariant
            i <= repos@.len(),
            m == repos.deep_view(),
            foreign_repo(m, slug@) == foreign_repo(m.skip(i as int), slug@),
        decreases repos@.len() - i,
    {
        let repo: &'a str = repos[i].as_str();
        proof {
            assert(m.skip(i as int)[0] == repo@);
            assert(m.skip(i as int).drop_first() =~= m.skip(i + 1));
        }
        if !same(repo, slug) {
            return Some(repo);
        }
        i += 1;
    }
    assert(m.skip(m.len() as int).len() == 0);
    None
}

fn move_against_policy(policy: &ActionsPolicyFacts, w: &WorkflowInfo) -> (r: Option<Move>)
    ensures
        r.deep_view() == policy_move(policy.deep_view(), w.deep_view()),
{
    match policy.first_uncovered(w.external_uses.as_slice()) {
        Some(blocked) => {
            if policy.patterns_allowed.len() == 0 {
                return Some(Move::SetActionsAllowedAll);
            }
            let mut add_patterns: Vec<String> = Vec::new();
            add_patterns.push(cat2(blocked, "@*"));
            assert(add_patterns.deep_view() =~= seq![blocked@ + "@*"@]);
            Some(Move::ReconcileActionsPolicy { blocked_ref: blocked.to_owned(), add_patterns })
        },
        None => {
            if policy.sha_pinning_required && w.tag_pinned_uses.len() > 0 {
                Some(
                    Move::PinWorkflowActions {
                        workflow: w.file.clone(),
                        refs: copy_all(&w.tag_pinned_uses),
                    },
                )
            } else {
                None
            }
        },
    }
}

/// The policy for Actions is silent unless a failure at startup was observed and the
/// policy is known: the move is then the one by the workflow alone.
pub proof fn an_unseen_failure_keeps_the_policy_silent(
    workflows: Seq<InfoModel>,
    check: CheckModel,
    slug: Seq<char>,
    policy: Option<PolicyModel>,
    startup_failed: bool,
)
    requires
        !startup_failed || policy is None,
    ensures
        classified(workflows, check, slug, policy, startup_failed) == classified(
            workflows,
            check,
            slug,
            None,
            false,
        ),
{
}

/// Where the policy names a cause for an observed failure at startup, the move is
/// the one against the policy, whatever else the workflow is.
pub proof fn an_observed_refusal_comes_first(
    workflows: Seq<InfoModel>,
    check: CheckModel,
    slug: Seq<char>,
    policy: PolicyModel,
)
    requires
        emitter(workflows, check.context) is Some,
        policy_move(policy, emitter(workflows, check.context)->Some_0) is Some,
    ensures
        classified(workflows, check, slug, Some(policy), true) == policy_move(
            policy,
            emitter(workflows, check.context)->Some_0,
        ),
{
}

/// Of the two ways in which a policy can refuse a workflow, the allowlist is named
/// before the pinning.
pub proof fn the_allowlist_precedes_pinning(policy: PolicyModel, w: InfoModel)
    ensures
        policy_move(policy, w) matches Some(MoveModel::PinWorkflowActions { .. })
            ==> policy.first_uncovered(w.external_uses) is None,
{
}

/// A check that no workflow emits gets no move, and so nothing is guessed about it.
pub proof fn an_unattributed_check_gets_no_move(
    workflows: Seq<InfoModel>,
    check: CheckModel,
    slug: Seq<char>,
    policy: Option<PolicyModel>,
    startup_failed: bool,
)
    requires
        forall|i: int| 0 <= i < workflows.len() ==> !(#[trigger] workflows[i]).emits(check.context),
    ensures
        classified(workflows, check, slug, policy, startup_failed) is None,
    decreases workflows.len(),
{
    if workflows.len() > 0 {
        assert(!workflows[0].emits(check.context));
        let rest = workflows.drop_first();
        assert forall|i: int| 0 <= i < rest.len() implies !(#[trigger] rest[i]).emits(
            check.context,
        ) by {
            assert(rest[i] == workflows[i + 1]);
        }
        an_unattributed_check_gets_no_move(rest, check, slug, policy, startup_failed);
    }
}

/// The workflow that a check is attributed to is one of the directory and emits it.
pub proof fn attribution_is_grounded(workflows: Seq<InfoModel>, check: Seq<char>)
    ensures
        emitter(workflows, check) matches Some(w) ==> workflows.contains(w) && w.emits(check),
    decreases workflows.len(),
{
    if workflows.len() > 0 && !workflows[0].emits(check) {
        attribution_is_grounded(workflows.drop_first(), check);
        if let Some(w) = emitter(workflows, check) {
            let rest = workflows.drop_first();
            let i = choose|i: int| 0 <= i < rest.len() && rest[i] == w;
            assert(workflows[i + 1] == w);
        }
    } else if workflows.len() > 0 {
        assert(workflows.contains(workflows[0]));
    }
}

/// A path filter is only ever blamed for a check that is missing.
pub proof fn a_check_that_ran_is_not_the_filters_fault(
    workflows: Seq<InfoModel>,
    check: CheckModel,
    slug: Seq<char>,
    policy: Option<PolicyModel>,
    startup_failed: bool,
)
    requires
        check.run != CheckRun::Missing,
    ensures
        !(classified(
            workflows,
            check,
            slug,
            policy,
            startup_failed,
        ) matches Some(MoveModel::InjectPathFilterPassThrough { .. })),
{
}

/// A workflow that checks for a retired place, or holds no job, is flagged as a
/// gate that does not function, however the check ran.
pub proof fn a_broken_workflow_is_flagged(
    workflows: Seq<InfoModel>,
    check: CheckModel,
    slug: Seq<char>,
)
    requires
        emitter(workflows, check.context) matches Some(w) && (w.retired_descriptile_policy
            || w.empty_jobs),
    ensures
        classified(
            workflows,
            check,
            slug,
            None,
            false,
        ) matches Some(MoveModel::FlagNonFunctionalGate { check: c, .. }) && c == check.context,
{
}

/// Every move that a workflow or a policy gives rise to can be put in words.
pub proof fn classified_moves_are_describable(
    workflows: Seq<InfoModel>,
    check: CheckModel,
    slug: Seq<char>,
    policy: Option<PolicyModel>,
    startup_failed: bool,
)
    ensures
        classified(workflows, check, slug, policy, startup_failed) matches Some(m)
            ==> m.describable(),
{
}

/// No two names come before each other.
proof fn lemma_precedes_asymmetric(a: Seq<u8>, b: Seq<u8>)
    ensures
        precedes(a, b) ==> !precedes(b, a),
    decreases a.len(),
{
    if a.len() > 0 && b.len() > 0 && a[0] == b[0] {
        lemma_precedes_asymmetric(a.drop_first(), b.drop_first());
    }
}

/// Does the name of entry `i` not come before that of the one ahead of it?
pub open spec fn ordered_at(files: Seq<FileModel>, i: int) -> bool {
    !precedes(files[i].name, files[i - 1].name)
}

/// Is no entry followed by one whose name comes before its own?
pub open spec fn in_order_of_name(files: Seq<FileModel>) -> bool {
    forall|i: int| 0 < i < files.len() ==> #[trigger] ordered_at(files, i)
}

proof fn lemma_placed(sorted: Seq<FileModel>, f: FileModel)
    requires
        in_order_of_name(sorted),
    ensures
        in_order_of_name(placed(sorted, f)),
        placed(sorted, f).len() == sorted.len() + 1,
        placed(sorted, f)[0] == f || sorted.len() > 0 && placed(sorted, f)[0] == sorted[0],
    decreases sorted.len(),
{
    let r = placed(sorted, f);
    if sorted.len() == 0 || precedes(f.name, sorted[0].name) {
        assert forall|i: int| 0 < i < r.len() implies #[trigger] ordered_at(r, i) by {
            if i == 1 {
                lemma_precedes_asymmetric(f.name, sorted[0].name);
            } else {
                assert(ordered_at(sorted, i - 1));
            }
        }
    } else {
        let rest = sorted.drop_first();
        let tail = placed(rest, f);
        assert forall|i: int| 0 < i < rest.len() implies #[trigger] ordered_at(rest, i) by {
            assert(ordered_at(sorted, i + 1));
        }
        lemma_placed(rest, f);
        assert forall|i: int| 0 < i < r.len() implies #[trigger] ordered_at(r, i) by {
            assert(r[i] == tail[i - 1]);
            if i > 1 {
                assert(ordered_at(tail, i - 1));
            } else if rest.len() > 0 {
                assert(ordered_at(sorted, 1));
            }
        }
    }
}

proof fn lemma_placed_items(sorted: Seq<FileModel>, f: FileModel)
    ensures
        placed(sorted, f).to_multiset() == sorted.to_multiset().insert(f),
    decreases sorted.len(),
{
    let r = placed(sorted, f);
    if sorted.len() == 0 || precedes(f.name, sorted[0].name) {
        assert(r =~= sorted.insert(0, f));
        vstd::seq_lib::to_multiset_insert(sorted, 0, f);
    } else {
        let rest = sorted.drop_first();
        let tail = placed(rest, f);
        lemma_placed_items(rest, f);
        assert(r =~= tail.insert(0, sorted[0]));
        vstd::seq_lib::to_multiset_insert(tail, 0, sorted[0]);
        assert(sorted =~= rest.insert(0, sorted[0]));
        vstd::seq_lib::to_multiset_insert(rest, 0, sorted[0]);
        assert(r.to_multiset() =~= sorted.to_multiset().insert(f));
    }
}

/// The facts of a directory are those of each workflow file that could be read, and
/// they come in the order of the files' names, whatever the order in which the host
/// listed them.
pub proof fn facts_come_in_order_of_name(files: Seq<FileModel>)
    ensures
        facts_of(files) == infos_of(by_name(files)),
        in_order_of_name(by_name(files)),
        by_name(files).to_multiset() == files.to_multiset(),
    decreases files.len(),
{
    broadcast use vstd::seq_lib::group_to_multiset_ensures;

    if files.len() > 0 {
        facts_come_in_order_of_name(files.drop_last());
        lemma_placed(by_name(files.drop_last()), files.last());
        lemma_placed_items(by_name(files.drop_last()), files.last());
        assert(files.drop_last().push(files.last()) =~= files);
    }
}

/// The pattern that a move adds to an allowlist covers the action that was blocked, so the
/// move lets the workflow start.
pub proof fn the_added_pattern_covers_what_was_blocked(policy: PolicyModel, w: InfoModel)
    ensures
        policy_move(policy, w) matches Some(
            MoveModel::ReconcileActionsPolicy { blocked_ref, add_patterns },
        ) ==> {
            &&& !policy.covers(blocked_ref)
            &&& PolicyModel {
                patterns_allowed: policy.patterns_allowed + add_patterns,
                ..policy
            }.covers(blocked_ref)
        },
{
    lemma_first_blocked(policy, w.external_uses);
    if let Some(
        MoveModel::ReconcileActionsPolicy { blocked_ref, add_patterns },
    ) = policy_move(policy, w) {
        reveal_strlit("@*");
        let class = CharClass::IsNot('@');
        let pattern = blocked_ref + "@*"@;
        let n = blocked_ref.len() as int;
        assert forall|i: int| 0 <= i < n implies class.has(#[trigger] pattern[i]) by {
            assert(pattern[i] == blocked_ref[i]);
        }
        assert(pattern[n] == '@');
        lemma_span_is(pattern, class, n);
        assert(front(pattern, class) =~= blocked_ref);
        let k = policy.patterns_allowed.len() as int;
        let after = PolicyModel {
            patterns_allowed: policy.patterns_allowed + add_patterns,
            ..policy
        };
        assert(after.patterns_allowed[k] == pattern);
        assert(pattern_covers(after.patterns_allowed[k], blocked_ref));
        assert(after.covers(blocked_ref));
    }
}

proof fn lemma_first_blocked(policy: PolicyModel, uses: Seq<Seq<char>>)
    ensures
        policy.first_blocked(uses) matches Some(blocked) ==> {
            &&& !policy.covers(blocked)
            &&& forall|i: int|
                0 <= i < blocked.len() ==> CharClass::IsNot('@').has(#[trigger] blocked[i])
        },
    decreases uses.len(),
{
    if uses.len() > 0 {
        let class = CharClass::IsNot('@');
        let owner_repo = front(uses[0], class);
        lemma_span_has(uses[0], class);
        if policy.covers(owner_repo) {
            lemma_first_blocked(policy, uses.drop_first());
        }
    }
}

/// A policy that does not select blocks nothing by its allowlist.
pub proof fn only_a_selecting_policy_blocks(policy: PolicyModel, uses: Seq<Seq<char>>)
    requires
        !policy.selected(),
    ensures
        policy.first_uncovered(uses) is None,
{
}

/// A check that the policy is silent on goes by the workflow that emits it, and by its fields
/// alone. A workflow that checks for a retired place, or holds no job, is flagged; one that
/// calls a reusable workflow of another repository is assigned to the first such repository; a
/// missing check behind a path filter gets the filter dropped; one that lints CI is in lane.
/// Of the rest a build goes to the fixing fleet for a fix, a scan to the security group for a
/// scan and a proof to the provers for a verification, and what is none of these to nobody.
pub proof fn each_kind_of_workflow_has_its_move(
    workflows: Seq<InfoModel>,
    check: CheckModel,
    slug: Seq<char>,
    w: InfoModel,
)
    requires
        emitter(workflows, check.context) == Some(w),
    ensures
        ({
            let m = classified(workflows, check, slug, None, false);
            let own = forall|i: int|
                0 <= i < w.reusable_repos.len() ==> #[trigger] w.reusable_repos[i] == slug;
            if w.retired_descriptile_policy || w.empty_jobs {
                m matches Some(MoveModel::FlagNonFunctionalGate { check: c, .. }) && c
                    == check.context
            } else if !own {
                &&& m matches Some(
                    MoveModel::AssignGateOwner { check: c, owner, disposition, .. },
                )
                &&& c == check.context
                &&& owner != slug
                &&& w.reusable_repos.contains(owner)
                &&& disposition == (DispositionModel::OwnedUpstream { repo: owner })
            } else if w.path_filtered && check.run == CheckRun::Missing {
                m == Some(
                    MoveModel::InjectPathFilterPassThrough {
                        check: check.context,
                        workflow: w.file,
                    },
                )
            } else {
                match w.kind {
                    WorkflowKind::Hygiene => m == Some(
                        MoveModel::GroundTruthCheckNames { workflow: w.file },
                    ),
                    WorkflowKind::Security => m matches Some(
                        MoveModel::EscalateToExpert { check: c, group, obligation, .. },
                    ) && c == check.context && group == ExpertGroup::Security && obligation
                        == EscalationKind::Scan,
                    WorkflowKind::CodeBuild => m matches Some(
                        MoveModel::EscalateToExpert { check: c, group, obligation, .. },
                    ) && c == check.context && group == ExpertGroup::HypatiaFleet && obligation
                        == EscalationKind::DispatchFix,
                    WorkflowKind::Proof => m matches Some(
                        MoveModel::EscalateToExpert { check: c, group, obligation, .. },
                    ) && c == check.context && group == ExpertGroup::Proof && obligation
                        == EscalationKind::VerifyClaim,
                    WorkflowKind::Other => m is None,
                }
            }
        }),
{
    lemma_foreign(w.reusable_repos, slug);
}

proof fn lemma_foreign(repos: Seq<Seq<char>>, slug: Seq<char>)
    ensures
        foreign_repo(repos, slug) is None <==> forall|i: int|
            0 <= i < repos.len() ==> #[trigger] repos[i] == slug,
        foreign_repo(repos, slug) matches Some(repo) ==> repo != slug && repos.contains(repo),
    decreases repos.len(),
{
    if repos.len() > 0 {
        let rest = repos.drop_first();
        lemma_foreign(rest, slug);
        if repos[0] == slug {
            assert forall|i: int|
                foreign_repo(rest, slug) is None && 0 <= i
                    < repos.len() implies #[trigger] repos[i] == slug by {
                if i > 0 {
                    assert(rest[i - 1] == repos[i]);
                }
            }
            if foreign_repo(rest, slug) is Some {
                let repo = foreign_repo(rest, slug)->Some_0;
                let k = choose|k: int| 0 <= k < rest.len() && rest[k] == repo;
                assert(repos[k + 1] == repo);
                assert(repos[k + 1] != slug);
            }
        } else {
            assert(repos.contains(repos[0]));
        }
    }
}

/// The owner that a check is assigned to is the first repository of those whose reusable
/// workflows are called that is not this one.
pub proof fn the_first_foreign_repository_owns(repos: Seq<Seq<char>>, slug: Seq<char>, k: int)
    requires
        0 <= k < repos.len(),
        repos[k] != slug,
        forall|j: int| 0 <= j < k ==> #[trigger] repos[j] == slug,
    ensures
        foreign_repo(repos, slug) == Some(repos[k]),
    decreases k,
{
    if k > 0 {
        let rest = repos.drop_first();
        assert(repos[0] == slug);
        assert forall|j: int| 0 <= j < k - 1 implies #[trigger] rest[j] == slug by {
            assert(rest[j] == repos[j + 1]);
        }
        the_first_foreign_repository_owns(rest, slug, k - 1);
    }
}

/// A check is attributed to the first workflow of the directory that emits it.
pub proof fn the_first_emitter_is_named(workflows: Seq<InfoModel>, check: Seq<char>, k: int)
    requires
        0 <= k < workflows.len(),
        workflows[k].emits(check),
        forall|j: int| 0 <= j < k ==> !(#[trigger] workflows[j]).emits(check),
    ensures
        emitter(workflows, check) == Some(workflows[k]),
    decreases k,
{
    if k > 0 {
        let rest = workflows.drop_first();
        assert(!workflows[0].emits(check));
        assert forall|j: int| 0 <= j < k - 1 implies !(#[trigger] rest[j]).emits(check) by {
            assert(rest[j] == workflows[j + 1]);
        }
        the_first_emitter_is_named(rest, check, k - 1);
    }
}

/// A workflow emits a check exactly where the name of the check, up to the first ` / ` and
/// without white space around it, is the id or the name of a job or the name of the workflow.
pub proof fn a_check_is_emitted_under_its_callers_name(
    w: InfoModel,
    caller: Seq<char>,
    job: Seq<char>,
)
    requires
        !holds_text(caller + " "@, " / "@),
        !holds_text(caller + " /"@, " / "@),
    ensures
        ({
            let named = w.job_ids.contains(trimmed(caller)) || w.job_names.contains(
                trimmed(caller),
            ) || w.name == Some(trimmed(caller));
            &&& w.emits(caller + " / "@ + job) == named
            &&& !holds_text(caller, " / "@) ==> w.emits(caller) == named
        }),
{
    lemma_caller_is_before(caller, job);
    if !holds_text(caller, " / "@) {
        lemma_found(caller, " / "@);
    }
}

proof fn lemma_caller_is_before(caller: Seq<char>, job: Seq<char>)
    requires
        !holds_text(caller + " "@, " / "@),
        !holds_text(caller + " /"@, " / "@),
    ensures
        before(caller + " / "@ + job, " / "@) == caller,
{
    reveal_strlit(" / ");
    reveal_strlit(" ");
    reveal_strlit(" /");
    let whole = caller + " / "@ + job;
    let n = caller.len() as int;
    lemma_found(whole, " / "@);
    assert(whole.subrange(n, n + 3) =~= " / "@);
    assert(occurs_at(whole, " / "@, n));
    let k = found_at(whole, " / "@)->Some_0;
    assert(k <= n);
    if k < n {
        if k + 3 <= n + 1 {
            let c = caller + " "@;
            assert(c.subrange(k, k + 3) =~= whole.subrange(k, k + 3));
            assert(occurs_at(c, " / "@, k));
        } else {
            let c = caller + " /"@;
            assert(c.subrange(k, k + 3) =~= whole.subrange(k, k + 3));
            assert(occurs_at(c, " / "@, k));
        }
    }
    assert(whole.take(n) =~= caller);
}

/// The allowlist permits an action exactly where it is of GitHub's own owners and these are
/// allowed, or where a pattern, up to any `@`, is the `owner/repo`, is the owner followed by
/// `/*`, or ends in a star behind something that the `owner/repo` begins with.
pub proof fn the_allowlist_by_its_patterns(policy: PolicyModel, owner: Seq<char>, repo: Seq<char>)
    requires
        lacks(owner, '/'),
    ensures
        policy.covers(owner + "/"@ + repo) <==> {
            ||| policy.github_owned_allowed && (owner == "actions"@ || owner == "github"@)
            ||| exists|i: int|
                0 <= i < policy.patterns_allowed.len() && {
                    let p = front(#[trigger] policy.patterns_allowed[i], CharClass::IsNot('@'));
                    ||| p == owner + "/"@ + repo
                    ||| p == owner + "/*"@
                    ||| p.len() > 1 && p.last() == '*' && p.drop_last().is_prefix_of(
                        owner + "/"@ + repo,
                    )
                }
        },
{
    reveal_strlit("/");
    reveal_strlit("*");
    let name = owner + "/"@ + repo;
    let class = CharClass::IsNot('/');
    let n = owner.len() as int;
    assert forall|i: int| 0 <= i < n implies class.has(#[trigger] name[i]) by {
        assert(name[i] == owner[i]);
    }
    assert(name[n] == '/');
    lemma_span_is(name, class, n);
    assert(front(name, class) =~= owner);
    assert forall|i: int| 0 <= i < policy.patterns_allowed.len() implies (pattern_covers(
        #[trigger] policy.patterns_allowed[i],
        name,
    ) <==> {
        let p = front(policy.patterns_allowed[i], CharClass::IsNot('@'));
        ||| p == name
        ||| p == owner + "/*"@
        ||| p.len() > 1 && p.last() == '*' && p.drop_last().is_prefix_of(name)
    }) by {
        let p = front(policy.patterns_allowed[i], CharClass::IsNot('@'));
        if p.len() > 0 {
            assert(p.subrange(p.len() - 1, p.len() as int) =~= seq![p.last()]);
            assert("*"@ =~= seq!['*']);
            assert(p.take(p.len() - 1) =~= p.drop_last());
            if p.last() != '*' {
                assert(p.subrange(p.len() - 1, p.len() as int)[0] != "*"@[0]);
            }
        }
    }
    assert(policy.covers(name) <==> {
        ||| policy.github_owned_allowed && (owner == "actions"@ || owner == "github"@)
        ||| exists|i: int|
            0 <= i < policy.patterns_allowed.len() && pattern_covers(
                #[trigger] policy.patterns_allowed[i],
                name,
            )
    });
}

proof fn lemma_blocked_first(policy: PolicyModel, uses: Seq<Seq<char>>, k: int)
    requires
        0 <= k < uses.len(),
        !policy.covers(front(uses[k], CharClass::IsNot('@'))),
        forall|j: int|
            0 <= j < k ==> policy.covers(front(#[trigger] uses[j], CharClass::IsNot('@'))),
    ensures
        policy.first_blocked(uses) == Some(front(uses[k], CharClass::IsNot('@'))),
    decreases k,
{
    if k > 0 {
        let rest = uses.drop_first();
        assert(policy.covers(front(uses[0], CharClass::IsNot('@'))));
        assert forall|j: int| 0 <= j < k - 1 implies policy.covers(
            front(#[trigger] rest[j], CharClass::IsNot('@')),
        ) by {
            assert(rest[j] == uses[j + 1]);
        }
        lemma_blocked_first(policy, rest, k - 1);
    }
}

proof fn lemma_none_blocked(policy: PolicyModel, uses: Seq<Seq<char>>)
    requires
        forall|j: int|
            0 <= j < uses.len() ==> policy.covers(front(#[trigger] uses[j], CharClass::IsNot('@'))),
    ensures
        policy.first_blocked(uses) is None,
    decreases uses.len(),
{
    if uses.len() > 0 {
        let rest = uses.drop_first();
        assert(policy.covers(front(uses[0], CharClass::IsNot('@'))));
        assert forall|j: int| 0 <= j < rest.len() implies policy.covers(
            front(#[trigger] rest[j], CharClass::IsNot('@')),
        ) by {
            assert(rest[j] == uses[j + 1]);
        }
        lemma_none_blocked(policy, rest);
    }
}

/// Where only selected actions are allowed and an action of the workflow is not among them,
/// an empty allowlist is opened, and one with a gap gets the pattern for the first action that
/// it lacks, at any reference.
pub proof fn a_blocked_action_is_answered(policy: PolicyModel, w: InfoModel, k: int)
    requires
        policy.allowed_actions == "selected"@,
        0 <= k < w.external_uses.len(),
        !policy.covers(front(w.external_uses[k], CharClass::IsNot('@'))),
        forall|j: int|
            0 <= j < k ==> policy.covers(
                front(#[trigger] w.external_uses[j], CharClass::IsNot('@')),
            ),
    ensures
        policy_move(policy, w) == if policy.patterns_allowed.len() == 0 {
            Some(MoveModel::SetActionsAllowedAll)
        } else {
            Some(
                MoveModel::ReconcileActionsPolicy {
                    blocked_ref: front(w.external_uses[k], CharClass::IsNot('@')),
                    add_patterns: seq![
                        front(w.external_uses[k], CharClass::IsNot('@')) + "@*"@,
                    ],
                },
            )
        },
{
    lemma_blocked_first(policy, w.external_uses, k);
}

/// Where no action is blocked, the workflow is to be pinned exactly where the policy requires
/// full revisions and some action is not at one; all of those are named.
pub proof fn an_unblocked_workflow_may_need_pins(policy: PolicyModel, w: InfoModel)
    requires
        policy.allowed_actions != "selected"@ || forall|j: int|
            0 <= j < w.external_uses.len() ==> policy.covers(
                front(#[trigger] w.external_uses[j], CharClass::IsNot('@')),
            ),
    ensures
        policy_move(policy, w) == if policy.sha_pinning_required && w.tag_pinned_uses.len() > 0 {
            Some(MoveModel::PinWorkflowActions { workflow: w.file, refs: w.tag_pinned_uses })
        } else {
            None
        },
{
    if policy.allowed_actions == "selected"@ {
        lemma_none_blocked(policy, w.external_uses);
    }
}

/// The move for a check says where it comes from: the file of the workflow, the repository
/// that owns it or the work that it does.
pub proof fn a_move_names_its_workflow(
    workflows: Seq<InfoModel>,
    check: CheckModel,
    slug: Seq<char>,
    w: InfoModel,
)
    requires
        emitter(workflows, check.context) == Some(w),
    ensures
        match classified(workflows, check, slug, None, false) {
            Some(MoveModel::FlagNonFunctionalGate { evidence, .. }) => evidence == "`"@ + w.file + (
            if w.retired_descriptile_policy {
                "` requires a retired descriptile path; reconcile its policy with .machine_readable/descriptiles/ and SD004 before retrying"@
            } else {
                "` contains only commented jobs; GitHub cannot create a check from this template"@
            }),
            Some(MoveModel::AssignGateOwner { owner, rationale, .. }) => rationale
                == "emitted by `"@ + w.file + "` which calls the reusable workflow in `"@ + owner
                + "`"@,
            Some(MoveModel::EscalateToExpert { evidence, .. }) => evidence == "`"@ + check.context
                + "` runs in `"@ + w.file + "` which "@ + (match w.kind {
                WorkflowKind::CodeBuild => "builds/lints code or containers"@,
                WorkflowKind::Security => "scans for secrets/vulnerabilities"@,
                _ => "checks a formal-verification obligation"@,
            }) + " — out of the squabbler's CI-config lane"@,
            _ => true,
        },
{
}

/// An entry of the directory is read exactly where its extension is `yml` or `yaml` and its
/// text could be read.
pub proof fn only_readable_workflow_files_count(f: FileModel)
    ensures
        f.info() is Some <==> (f.extension == Some("yml"@) || f.extension == Some("yaml"@))
            && f.text is Some,
        f.info() matches Some(w) ==> w.file == f.file && w == info_of(f.file, f.text->Some_0),
{
}

/// The facts grow with the listing, in its order, by those of each file that is read.
pub proof fn each_file_adds_its_facts(files: Seq<FileModel>, f: FileModel)
    ensures
        infos_of(seq![]).len() == 0,
        infos_of(files.push(f)) == match f.info() {
            Some(w) => infos_of(files).push(w),
            None => infos_of(files),
        },
{
    assert(files.push(f).drop_last() =~= files);
}

/// Names are ordered by the first byte in which they differ, and a name comes before each
/// longer one that it opens; no name comes before itself.
pub proof fn names_are_ordered_by_their_first_difference(
    common: Seq<u8>,
    x: u8,
    y: u8,
    a: Seq<u8>,
    b: Seq<u8>,
)
    ensures
        x != y ==> (precedes(common + (seq![x] + a), common + (seq![y] + b)) <==> x < y),
        precedes(common, common + (seq![y] + b)),
        !precedes(common + a, common),
    decreases common.len(),
{
    if common.len() == 0 {
        assert(common + (seq![x] + a) =~= seq![x] + a);
        assert(common + (seq![y] + b) =~= seq![y] + b);
    } else {
        let rest = common.drop_first();
        names_are_ordered_by_their_first_difference(rest, x, y, a, b);
        assert((common + (seq![x] + a)).drop_first() =~= rest + (seq![x] + a));
        assert((common + (seq![y] + b)).drop_first() =~= rest + (seq![y] + b));
        assert((common + a).drop_first() =~= rest + a);
        assert((common + (seq![x] + a))[0] == common[0]);
        assert((common + (seq![y] + b))[0] == common[0]);
        assert((common + a)[0] == common[0]);
    }
}

} // verus!
