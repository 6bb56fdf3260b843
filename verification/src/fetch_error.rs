//! Why a fetch found no gate.
use vstd::prelude::*;

use crate::text::cat5;

verus! {

/// Why there is no gate.
#[derive(Debug, PartialEq, Eq)]
pub enum FetchError {
    /// Nothing is required of the branch: a finding.
    NoGate { slug: String, branch: String },
    /// Anything else: a failure.
    Failed(String),
}

/// A [`FetchError`] as a mathematical value.
pub enum ErrorModel {
    NoGate { slug: Seq<char>, branch: Seq<char> },
    Failed(Seq<char>),
}

impl DeepView for FetchError {
    type V = ErrorModel;

    open spec fn deep_view(&self) -> ErrorModel {
        match self {
            FetchError::NoGate { slug, branch } => ErrorModel::NoGate {
                slug: slug@,
                branch: branch@,
            },
            FetchError::Failed(message) => ErrorModel::Failed(message@),
        }
    }
}

impl Clone for FetchError {
    fn clone(&self) -> (r: Self)
        ensures
            r.deep_view() == self.deep_view(),
    {
        match self {
            FetchError::NoGate { slug, branch } => FetchError::NoGate {
                slug: slug.clone(),
                branch: branch.clone(),
            },
            FetchError::Failed(message) => FetchError::Failed(message.clone()),
        }
    }
}

impl ErrorModel {
    /// The error in words.
    pub open spec fn message(self) -> Seq<char> {
        match self {
            ErrorModel::NoGate { slug, branch } => "no required status checks apply to `"@ + slug
                + "` branch `"@ + branch
                + "` — nothing to squabble over. (Checked both protection mechanisms: branch rulesets and classic branch protection.)"@,
            ErrorModel::Failed(message) => message,
        }
    }
}

impl FetchError {
    /// The exit code for a branch that requires nothing.
    pub const NO_GATE_EXIT: u8 = 3;

    /// The exit code for a failure.
    pub const FAILED_EXIT: u8 = 2;

    /// The exit code for this error.
    pub fn exit_code(&self) -> (r: u8)
        ensures
            r == (if self is NoGate {
                3u8
            } else {
                2u8
            }),
    {
        match self {
            FetchError::NoGate { .. } => Self::NO_GATE_EXIT,
            FetchError::Failed(_) => Self::FAILED_EXIT,
        }
    }

    /// The error in words.
    pub fn message(&self) -> (r: String)
        ensures
            r@ == self.deep_view().message(),
    {
        match self {
            FetchError::NoGate { slug, branch } => cat5(
                "no required status checks apply to `",
                slug,
                "` branch `",
                branch,
                "` — nothing to squabble over. (Checked both protection mechanisms: branch rulesets and classic branch protection.)",
            ),
            FetchError::Failed(message) => message.clone(),
        }
    }
}

impl From<String> for FetchError {
    fn from(message: String) -> (r: FetchError) {
        FetchError::Failed(message)
    }
}

impl vstd::std_specs::convert::FromSpecImpl<String> for FetchError {
    open spec fn obeys_from_spec() -> bool {
        true
    }

    open spec fn from_spec(message: String) -> FetchError {
        FetchError::Failed(message)
    }
}

/// A result as a mathematical value, with its error as an [`ErrorModel`].
pub open spec fn fetch_view<T: DeepView>(r: Result<T, FetchError>) -> Result<T::V, ErrorModel> {
    match r {
        Ok(v) => Ok(v.deep_view()),
        Err(e) => Err(e.deep_view()),
    }
}

/// The two exit codes differ, so that a branch that requires nothing is told apart
/// from a failure to look.
pub proof fn exit_codes_tell_finding_from_failure()
    ensures
        FetchError::NO_GATE_EXIT != FetchError::FAILED_EXIT,
{
}

/// An error names the repository and the branch that require nothing, or says what failed in
/// its own words.
pub proof fn an_error_says_what_it_is_about(slug: Seq<char>, branch: Seq<char>, e: Seq<char>)
    ensures
        (ErrorModel::NoGate { slug, branch }).message() == "no required status checks apply to `"@
            + slug + "` branch `"@ + branch
            + "` — nothing to squabble over. (Checked both protection mechanisms: branch rulesets and classic branch protection.)"@,
        ErrorModel::Failed(e).message() == e,
{
}

} // verus!
