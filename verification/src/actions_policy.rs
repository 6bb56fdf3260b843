//! The permissions for Actions of a repository.
use vstd::prelude::*;

use crate::text::{cat2, copy_all, is_text, result_view};
use crate::workflows::{ActionsPolicyFacts, PolicyModel};

verus! {

/// What came of a call for a payload.
#[derive(Debug, PartialEq, Eq)]
pub enum Fetched<T> {
    /// The call failed.
    Failed(String),
    /// The payload could not be decoded.
    Unparsed(String),
    /// The payload.
    Parsed(T),
}

/// A [`Fetched`] as a mathematical value.
pub enum FetchedModel<T> {
    Failed(Seq<char>),
    Unparsed(Seq<char>),
    Parsed(T),
}

impl<T: DeepView> DeepView for Fetched<T> {
    type V = FetchedModel<T::V>;

    open spec fn deep_view(&self) -> FetchedModel<T::V> {
        match self {
            Fetched::Failed(e) => FetchedModel::Failed(e@),
            Fetched::Unparsed(e) => FetchedModel::Unparsed(e@),
            Fetched::Parsed(v) => FetchedModel::Parsed(v.deep_view()),
        }
    }
}

/// The payload, or why it could not be decoded, of a call that did not fail.
pub open spec fn decoded<T>(f: FetchedModel<T>) -> Result<T, Seq<char>> {
    match f {
        FetchedModel::Parsed(v) => Ok(v),
        FetchedModel::Unparsed(e) => Err(e),
        FetchedModel::Failed(e) => Err(e),
    }
}

/// The repository's permissions for Actions.
#[derive(Debug, PartialEq, Eq)]
pub struct ActionsPolicy {
    /// `all`, `local_only` or `selected`; empty where it is unknown.
    pub allowed_actions: String,
    /// Must every action be pinned to a full revision?
    pub sha_pinning_required: bool,
    /// Are the actions that GitHub owns allowed?
    pub github_owned_allowed: bool,
    /// The patterns that are allowed under `selected`.
    pub patterns_allowed: Vec<String>,
}

/// An [`ActionsPolicy`] as a mathematical value.
pub struct PostureModel {
    pub allowed_actions: Seq<char>,
    pub sha_pinning_required: bool,
    pub github_owned_allowed: bool,
    pub patterns_allowed: Seq<Seq<char>>,
}

impl DeepView for ActionsPolicy {
    type V = PostureModel;

    open spec fn deep_view(&self) -> PostureModel {
        PostureModel {
            allowed_actions: self.allowed_actions@,
            sha_pinning_required: self.sha_pinning_required,
            github_owned_allowed: self.github_owned_allowed,
            patterns_allowed: self.patterns_allowed.deep_view(),
        }
    }
}

impl Clone for ActionsPolicy {
    fn clone(&self) -> (r: Self)
        ensures
            r.deep_view() == self.deep_view(),
    {
        ActionsPolicy {
            allowed_actions: self.allowed_actions.clone(),
            sha_pinning_required: self.sha_pinning_required,
            github_owned_allowed: self.github_owned_allowed,
            patterns_allowed: copy_all(&self.patterns_allowed),
        }
    }
}

impl PostureModel {
    /// The permissions as a workflow is held to them.
    pub open spec fn facts(self) -> PolicyModel {
        PolicyModel {
            allowed_actions: self.allowed_actions,
            sha_pinning_required: self.sha_pinning_required,
            github_owned_allowed: self.github_owned_allowed,
            patterns_allowed: self.patterns_allowed,
        }
    }
}

impl ActionsPolicy {
    /// The permissions as a workflow is held to them.
    pub fn facts(&self) -> (r: ActionsPolicyFacts)
        ensures
            r.deep_view() == self.deep_view().facts(),
    {
        ActionsPolicyFacts {
            allowed_actions: self.allowed_actions.clone(),
            sha_pinning_required: self.sha_pinning_required,
            github_owned_allowed: self.github_owned_allowed,
            patterns_allowed: copy_all(&self.patterns_allowed),
        }
    }
}

/// The payload of the permissions endpoint.
#[derive(Debug, PartialEq, Eq)]
pub struct PermissionsResponse {
    pub allowed_actions: Option<String>,
    pub sha_pinning_required: bool,
}

/// A [`PermissionsResponse`] as a mathematical value.
pub struct PermissionsModel {
    pub allowed_actions: Option<Seq<char>>,
    pub sha_pinning_required: bool,
}

impl DeepView for PermissionsResponse {
    type V = PermissionsModel;

    open spec fn deep_view(&self) -> PermissionsModel {
        PermissionsModel {
            allowed_actions: self.allowed_actions.deep_view(),
            sha_pinning_required: self.sha_pinning_required,
        }
    }
}

/// The payload of the endpoint for selected actions.
#[derive(Debug, PartialEq, Eq)]
pub struct SelectedActionsResponse {
    pub github_owned_allowed: bool,
    pub patterns_allowed: Vec<String>,
}

/// A [`SelectedActionsResponse`] as a mathematical value.
pub struct SelectedModel {
    pub github_owned_allowed: bool,
    pub patterns_allowed: Seq<Seq<char>>,
}

impl DeepView for SelectedActionsResponse {
    type V = SelectedModel;

    open spec fn deep_view(&self) -> SelectedModel {
        SelectedModel {
            github_owned_allowed: self.github_owned_allowed,
            patterns_allowed: self.patterns_allowed.deep_view(),
        }
    }
}

/// The permissions from the payloads of both endpoints, decoded. The second is needed
/// where only selected actions are allowed, and is of no account otherwise.
pub open spec fn policy_from(
    perms: Result<PermissionsModel, Seq<char>>,
    selected: Option<Result<SelectedModel, Seq<char>>>,
) -> Result<PostureModel, Seq<char>> {
    match perms {
        Err(e) => Err("could not parse actions/permissions response: "@ + e),
        Ok(perms) => if perms.allowed_actions == Some("selected"@) {
            match selected {
                None => Err("allowed_actions=selected but no selected-actions payload"@),
                Some(Err(e)) => Err("could not parse selected-actions response: "@ + e),
                Some(Ok(s)) => Ok(
                    PostureModel {
                        allowed_actions: "selected"@,
                        sha_pinning_required: perms.sha_pinning_required,
                        github_owned_allowed: s.github_owned_allowed,
                        patterns_allowed: s.patterns_allowed,
                    },
                ),
            }
        } else {
            Ok(
                PostureModel {
                    allowed_actions: match perms.allowed_actions {
                        Some(text) => text,
                        None => seq![],
                    },
                    sha_pinning_required: perms.sha_pinning_required,
                    github_owned_allowed: perms.allowed_actions == Some("all"@),
                    patterns_allowed: seq![],
                },
            )
        },
    }
}

/// Is the list of selected actions needed to know the permissions?
pub fn wants_selected(perms: &PermissionsResponse) -> (r: bool)
    ensures
        r == (perms.deep_view().allowed_actions == Some("selected"@)),
{
    is_text(&perms.allowed_actions, "selected")
}

/// The permissions from the payloads of both endpoints, decoded.
pub fn parse_policy(
    perms: Result<PermissionsResponse, String>,
    selected: Option<Result<SelectedActionsResponse, String>>,
) -> (r: Result<ActionsPolicy, String>)
    ensures
        result_view(r) == policy_from(
            result_view(perms),
            match selected {
                Some(s) => Some(result_view(s)),
                None => None,
            },
        ),
{
    let perms: PermissionsResponse = match perms {
        Ok(perms) => perms,
        Err(e) => {
            return Err(cat2("could not parse actions/permissions response: ", &e));
        },
    };
    if wants_selected(&perms) {
        match selected {
            None => Err("allowed_actions=selected but no selected-actions payload".to_owned()),
            Some(Err(e)) => Err(cat2("could not parse selected-actions response: ", &e)),
            Some(Ok(s)) => Ok(
                ActionsPolicy {
                    allowed_actions: "selected".to_owned(),
                    sha_pinning_required: perms.sha_pinning_required,
                    github_owned_allowed: s.github_owned_allowed,
                    patterns_allowed: s.patterns_allowed,
                },
            ),
        }
    } else {
        let github_owned_allowed: bool = is_text(&perms.allowed_actions, "all");
        let patterns_allowed: Vec<String> = Vec::new();
        assert(patterns_allowed.deep_view() =~= seq![]);
        let allowed_actions: String = match perms.allowed_actions {
            Some(text) => text,
            None => String::new(),
        };
        Ok(
            ActionsPolicy {
                allowed_actions,
                sha_pinning_required: perms.sha_pinning_required,
                github_owned_allowed,
                patterns_allowed,
            },
        )
    }
}

/// The permissions from the calls for both endpoints.
pub open spec fn fetched_policy(
    perms: FetchedModel<PermissionsModel>,
    selected: Option<FetchedModel<SelectedModel>>,
) -> Result<PostureModel, Seq<char>> {
    match perms {
        FetchedModel::Failed(e) => Err(e),
        FetchedModel::Parsed(p) if p.allowed_actions == Some("selected"@)
            && selected matches Some(FetchedModel::Failed(_)) => Err(
            selected->Some_0->Failed_0,
        ),
        other => policy_from(
            decoded(other),
            match selected {
                Some(s) => Some(decoded(s)),
                None => None,
            },
        ),
    }
}

/// The permissions from the calls for both endpoints. The second call is made where
/// [`wants_selected`] says so.
pub fn fetch_actions_policy(
    perms: Fetched<PermissionsResponse>,
    selected: Option<Fetched<SelectedActionsResponse>>,
) -> (r: Result<ActionsPolicy, String>)
    ensures
        result_view(r) == fetched_policy(
            perms.deep_view(),
            match selected {
                Some(s) => Some(s.deep_view()),
                None => None,
            },
        ),
{
    let perms: PermissionsResponse = match perms {
        Fetched::Failed(e) => {
            return Err(e);
        },
        Fetched::Unparsed(e) => {
            return parse_policy(Err(e), None);
        },
        Fetched::Parsed(perms) => perms,
    };
    match selected {
        None => parse_policy(Ok(perms), None),
        Some(Fetched::Failed(e)) => if wants_selected(&perms) {
            Err(e)
        } else {
            parse_policy(Ok(perms), None)
        },
        Some(Fetched::Unparsed(e)) => parse_policy(Ok(perms), Some(Err(e))),
        Some(Fetched::Parsed(s)) => parse_policy(Ok(perms), Some(Ok(s))),
    }
}

/// The permissions as a workflow is held to them are the permissions that were fetched, field
/// by field.
pub proof fn facts_keep_every_field(p: PostureModel)
    ensures
        p.facts().allowed_actions == p.allowed_actions,
        p.facts().sha_pinning_required == p.sha_pinning_required,
        p.facts().github_owned_allowed == p.github_owned_allowed,
        p.facts().patterns_allowed == p.patterns_allowed,
{
}

/// Permissions that select need the list of what is selected, and take what GitHub owns and the
/// patterns from it; without the list there are no permissions. Permissions that do not select
/// go by the first payload alone: what GitHub owns is allowed exactly where all is, and there
/// are no patterns. Whether revisions are required is always what the first payload says.
pub proof fn permissions_come_from_their_payloads(
    perms: PermissionsModel,
    selected: Option<Result<SelectedModel, Seq<char>>>,
)
    ensures
        perms.allowed_actions == Some("selected"@) ==> {
            &&& policy_from(Ok(perms), selected) is Ok <==> (selected matches Some(Ok(_)))
            &&& selected matches Some(Ok(s)) ==> policy_from(Ok(perms), selected) == Ok::<
                PostureModel,
                Seq<char>,
            >(
                PostureModel {
                    allowed_actions: "selected"@,
                    sha_pinning_required: perms.sha_pinning_required,
                    github_owned_allowed: s.github_owned_allowed,
                    patterns_allowed: s.patterns_allowed,
                },
            )
        },
        perms.allowed_actions != Some("selected"@) ==> {
            &&& policy_from(Ok(perms), selected) == policy_from(Ok(perms), None)
            &&& policy_from(Ok(perms), selected) matches Ok(p)
            &&& p.sha_pinning_required == perms.sha_pinning_required
            &&& p.patterns_allowed.len() == 0
            &&& p.github_owned_allowed <==> perms.allowed_actions == Some("all"@)
            &&& perms.allowed_actions matches Some(text) ==> p.allowed_actions == text
            &&& perms.allowed_actions is None ==> p.allowed_actions.len() == 0
        },
{
}

/// Why there are no permissions is said: a call that failed in its own words, a payload that
/// could not be decoded with the endpoint that sent it, and a list that is needed and absent.
pub proof fn absent_permissions_say_why(
    perms: FetchedModel<PermissionsModel>,
    selected: Option<FetchedModel<SelectedModel>>,
)
    ensures
        perms matches FetchedModel::Failed(e) ==> fetched_policy(perms, selected) == Err::<
            PostureModel,
            Seq<char>,
        >(e),
        perms matches FetchedModel::Unparsed(e) ==> fetched_policy(perms, selected) == Err::<
            PostureModel,
            Seq<char>,
        >("could not parse actions/permissions response: "@ + e),
        perms matches FetchedModel::Parsed(p) ==> {
            let f = fetched_policy(perms, selected);
            if p.allowed_actions == Some("selected"@) {
                match selected {
                    None => f == Err::<PostureModel, Seq<char>>(
                        "allowed_actions=selected but no selected-actions payload"@,
                    ),
                    Some(FetchedModel::Failed(e)) => f == Err::<PostureModel, Seq<char>>(e),
                    Some(FetchedModel::Unparsed(e)) => f == Err::<PostureModel, Seq<char>>(
                        "could not parse selected-actions response: "@ + e,
                    ),
                    Some(FetchedModel::Parsed(s)) => f == policy_from(Ok(p), Some(Ok(s))),
                }
            } else {
                f == policy_from(Ok(p), None)
            }
        },
{
}

} // verus!
