//! The contexts that are required of a branch, by its rulesets and by its classic
//! protection. GitHub enforces both.
use vstd::prelude::*;

use crate::fetch_error::{fetch_view, ErrorModel, FetchError};
use crate::text::{
    cat2, contains, distinct, holds_text, lemma_distinct, lemma_distinct_append, push_all_new,
    result_view, same, with_all,
};

verus! {

/// One rule of a branch's rulesets, with the contexts that it requires; none where the
/// rule has no parameters.
#[derive(Debug, PartialEq, Eq)]
pub struct RulesetRule {
    pub rule_type: String,
    pub required_status_checks: Option<Vec<String>>,
}

/// A [`RulesetRule`] as a mathematical value.
pub struct RuleModel {
    pub rule_type: Seq<char>,
    pub required_status_checks: Option<Seq<Seq<char>>>,
}

impl DeepView for RulesetRule {
    type V = RuleModel;

    open spec fn deep_view(&self) -> RuleModel {
        RuleModel {
            rule_type: self.rule_type@,
            required_status_checks: self.required_status_checks.deep_view(),
        }
    }
}

/// The classic protection of a branch, with what it requires if it requires checks.
#[derive(Debug, PartialEq, Eq)]
pub struct ClassicProtection {
    pub required_status_checks: Option<ClassicRequiredChecks>,
}

/// The contexts that a classic protection requires, in the two shapes in which it may
/// name them.
#[derive(Debug, PartialEq, Eq)]
pub struct ClassicRequiredChecks {
    pub contexts: Vec<String>,
    pub checks: Vec<String>,
}

/// A [`ClassicProtection`] as a mathematical value: the contexts in both shapes.
pub struct ProtectionModel {
    pub required_status_checks: Option<(Seq<Seq<char>>, Seq<Seq<char>>)>,
}

impl DeepView for ClassicProtection {
    type V = ProtectionModel;

    open spec fn deep_view(&self) -> ProtectionModel {
        ProtectionModel {
            required_status_checks: match self.required_status_checks {
                Some(c) => Some((c.contexts.deep_view(), c.checks.deep_view())),
                None => None,
            },
        }
    }
}

/// What came of looking for the classic protection of a branch.
#[derive(Debug, PartialEq, Eq)]
pub enum ProtectionProbe {
    /// There is one; its payload, or why it could not be read.
    Protected(Result<ClassicProtection, String>),
    /// There is none.
    NotProtected,
    /// Whether there is one is not visible. That is never to be read as "none".
    Hidden,
}

/// A [`ProtectionProbe`] as a mathematical value.
pub enum ProbeModel {
    Protected(Result<ProtectionModel, Seq<char>>),
    NotProtected,
    Hidden,
}

impl DeepView for ProtectionProbe {
    type V = ProbeModel;

    open spec fn deep_view(&self) -> ProbeModel {
        match self {
            ProtectionProbe::Protected(p) => ProbeModel::Protected(result_view(*p)),
            ProtectionProbe::NotProtected => ProbeModel::NotProtected,
            ProtectionProbe::Hidden => ProbeModel::Hidden,
        }
    }
}

/// What the error output of a failed call for the protection says.
pub open spec fn probe_in(stderr: Seq<char>) -> Option<ProbeModel> {
    if holds_text(stderr, "HTTP 404"@) || holds_text(stderr, "Branch not protected"@) {
        Some(ProbeModel::NotProtected)
    } else if holds_text(stderr, "HTTP 403"@) || holds_text(stderr, "Resource not accessible"@) {
        Some(ProbeModel::Hidden)
    } else {
        None
    }
}

/// Reads the error output of a failed call for the protection: not protected, not
/// visible, or an ordinary failure.
pub fn probe_from_stderr(stderr: &str) -> (r: Option<ProtectionProbe>)
    ensures
        r.deep_view() == probe_in(stderr@),
{
    if contains(stderr, "HTTP 404") || contains(stderr, "Branch not protected") {
        return Some(ProtectionProbe::NotProtected);
    }
    if contains(stderr, "HTTP 403") || contains(stderr, "Resource not accessible") {
        return Some(ProtectionProbe::Hidden);
    }
    None
}

/// The contexts that a classic protection requires, in either shape, each once.
pub open spec fn classic_contexts(p: ProtectionModel) -> Seq<Seq<char>> {
    match p.required_status_checks {
        Some((contexts, checks)) => distinct(contexts + checks),
        None => seq![],
    }
}

/// The contexts that the decoded payload of a classic protection requires.
pub open spec fn classic_contexts_from(decoded: Result<ProtectionModel, Seq<char>>) -> Result<
    Seq<Seq<char>>,
    Seq<char>,
> {
    match decoded {
        Ok(p) => Ok(classic_contexts(p)),
        Err(e) => Err("could not parse branch-protection response: "@ + e),
    }
}

/// The contexts that the decoded payload of a classic protection requires.
pub fn parse_classic_contexts(decoded: &Result<ClassicProtection, String>) -> (r: Result<
    Vec<String>,
    String,
>)
    ensures
        result_view(r) == classic_contexts_from(result_view(*decoded)),
{
    let p: &ClassicProtection = match decoded {
        Ok(p) => p,
        Err(e) => {
            return Err(cat2("could not parse branch-protection response: ", e));
        },
    };
    let mut out: Vec<String> = Vec::new();
    assert(out.deep_view() =~= seq![]);
    if let Some(required) = &p.required_status_checks {
        proof {
            let a = required.contexts.deep_view();
            let b = required.checks.deep_view();
            lemma_distinct_append(seq![], a);
            assert(seq![] + a =~= a);
            lemma_distinct_append(a, b);
        }
        push_all_new(&mut out, &required.contexts);
        push_all_new(&mut out, &required.checks);
    }
    Ok(out)
}

/// The contexts that a rule requires.
pub open spec fn rule_contexts(rule: RuleModel) -> Seq<Seq<char>> {
    if rule.rule_type == "required_status_checks"@ && rule.required_status_checks is Some {
        rule.required_status_checks->Some_0
    } else {
        seq![]
    }
}

/// The contexts that the first `n` rules require.
pub open spec fn ruled(rules: Seq<RuleModel>, n: int) -> Seq<Seq<char>>
    decreases n,
{
    if n <= 0 {
        seq![]
    } else {
        ruled(rules, n - 1) + rule_contexts(rules[n - 1])
    }
}

/// The contexts that are required of a branch: those of its rulesets first, then
/// those that only its classic protection requires, each once. A protection that is
/// not visible is an error whatever the rulesets say.
pub open spec fn contexts_from(
    rules: Result<Seq<RuleModel>, Seq<char>>,
    protection: ProbeModel,
) -> Result<Seq<Seq<char>>, ErrorModel> {
    match rules {
        Err(e) => Err(ErrorModel::Failed("could not parse ruleset response: "@ + e)),
        Ok(rules) => {
            let by_rules = ruled(rules, rules.len() as int);
            match protection {
                ProbeModel::Protected(decoded) => match classic_contexts_from(decoded) {
                    Ok(classic) => Ok(distinct(by_rules + classic)),
                    Err(e) => Err(ErrorModel::Failed(e)),
                },
                ProbeModel::NotProtected => Ok(distinct(by_rules)),
                ProbeModel::Hidden => Err(
                    ErrorModel::Failed(
                        "classic branch protection on this branch is not visible to this token (HTTP 403); refusing to conclude anything about a gate that cannot be fully read — grant the token Administration read, or use one that has it"@,
                    ),
                ),
            }
        },
    }
}

fn contexts_of_rules(rules: &Vec<RulesetRule>) -> (r: Vec<String>)
    ensures
        r.deep_view() == distinct(ruled(rules.deep_view(), rules@.len() as int)),
{
    let ghost m = rules.deep_view();
    let mut contexts: Vec<String> = Vec::new();
    let mut i: usize = 0;
    assert(contexts.deep_view() =~= seq![]);
    while i < rules.len()
        invariant
            i <= rules@.len(),
            m == rules.deep_view(),
            contexts.deep_view() == distinct(ruled(m, i as int)),
        decreases rules@.len() - i,
    {
        let rule: &RulesetRule = &rules[i];
        proof {
            assert(m[i as int] == rule.deep_view());
            lemma_distinct_append(ruled(m, i as int), rule_contexts(rule.deep_view()));
        }
        if same(&rule.rule_type, "required_status_checks") {
            if let Some(required) = &rule.required_status_checks {
                push_all_new(&mut contexts, required);
            }
        }
        i += 1;
    }
    contexts
}

/// The contexts that are required of a branch, from its decoded rulesets and from what
/// came of looking for its classic protection.
pub fn required_contexts_from_apis(
    rules: &Result<Vec<RulesetRule>, String>,
    protection: &ProtectionProbe,
) -> (r: Result<Vec<String>, FetchError>)
    ensures
        fetch_view(r) == contexts_from(result_view(*rules), protection.deep_view()),
{
    let rules: &Vec<RulesetRule> = match rules {
        Ok(rules) => rules,
        Err(e) => {
            return Err(FetchError::Failed(cat2("could not parse ruleset response: ", e)));
        },
    };
    let ghost by_rules = ruled(rules.deep_view(), rules@.len() as int);
    let mut contexts: Vec<String> = contexts_of_rules(rules);
    match protection {
        ProtectionProbe::Protected(decoded) => match parse_classic_contexts(decoded) {
            Ok(classic) => {
                proof {
                    lemma_distinct_append(by_rules, classic.deep_view());
                }
                push_all_new(&mut contexts, &classic);
                Ok(contexts)
            },
            Err(e) => Err(FetchError::Failed(e)),
        },
        ProtectionProbe::NotProtected => Ok(contexts),
        ProtectionProbe::Hidden => Err(
            FetchError::Failed(
                "classic branch protection on this branch is not visible to this token (HTTP 403); refusing to conclude anything about a gate that cannot be fully read — grant the token Administration read, or use one that has it".to_owned(),
            ),
        ),
    }
}

/// The contexts, or the finding that there are none.
pub open spec fn gated(contexts: Seq<Seq<char>>, slug: Seq<char>, branch: Seq<char>) -> Result<
    Seq<Seq<char>>,
    ErrorModel,
> {
    if contexts.len() == 0 {
        Err(ErrorModel::NoGate { slug, branch })
    } else {
        Ok(contexts)
    }
}

/// The contexts, or the finding that there are none.
pub fn contexts_or_no_gate(contexts: Vec<String>, slug: &str, branch: &str) -> (r: Result<
    Vec<String>,
    FetchError,
>)
    ensures
        fetch_view(r) == gated(contexts.deep_view(), slug@, branch@),
{
    if contexts.len() == 0 {
        return Err(FetchError::NoGate { slug: slug.to_owned(), branch: branch.to_owned() });
    }
    Ok(contexts)
}

/// The contexts that are required of a branch are each listed once, and they are those
/// of the rulesets together with those of the classic protection.
pub proof fn required_contexts_are_the_union(
    rules: Seq<RuleModel>,
    protection: ProtectionModel,
)
    ensures
        contexts_from(Ok(rules), ProbeModel::Protected(Ok(protection))) matches Ok(contexts) && {
            &&& contexts.no_duplicates()
            &&& forall|c: Seq<char>| #[trigger]
                contexts.contains(c) <==> ruled(rules, rules.len() as int).contains(c)
                    || classic_contexts(protection).contains(c)
        },
{
    let a = ruled(rules, rules.len() as int);
    let b = classic_contexts(protection);
    lemma_distinct(a + b);
    assert forall|c: Seq<char>| (a + b).contains(c) <==> a.contains(c) || b.contains(c) by {
        if (a + b).contains(c) {
            let i = choose|i: int| 0 <= i < (a + b).len() && (a + b)[i] == c;
            if i < a.len() {
                assert(a[i] == c);
            } else {
                assert(b[i - a.len()] == c);
            }
        }
        if a.contains(c) {
            let i = choose|i: int| 0 <= i < a.len() && a[i] == c;
            assert((a + b)[i] == c);
        }
        if b.contains(c) {
            let i = choose|i: int| 0 <= i < b.len() && b[i] == c;
            assert((a + b)[i + a.len()] == c);
        }
    }
}

/// The contexts of the rulesets come first.
pub proof fn ruleset_contexts_come_first(rules: Seq<RuleModel>, protection: ProtectionModel)
    ensures
        contexts_from(Ok(rules), ProbeModel::Protected(Ok(protection))) matches Ok(contexts)
            && distinct(ruled(rules, rules.len() as int)).is_prefix_of(contexts),
{
    let a = ruled(rules, rules.len() as int);
    let b = classic_contexts(protection);
    lemma_distinct_append(a, b);
    lemma_with_all_extends(distinct(a), b);
}

proof fn lemma_with_all_extends(list: Seq<Seq<char>>, items: Seq<Seq<char>>)
    ensures
        list.is_prefix_of(with_all(list, items)),
    decreases items.len(),
{
    if items.len() > 0 {
        lemma_with_all_extends(list, items.drop_last());
        let sofar = with_all(list, items.drop_last());
        let all = with_all(list, items);
        assert(all.subrange(0, list.len() as int) =~= sofar.subrange(0, list.len() as int));
    }
}

/// A list without its repetitions is empty exactly where the list is.
pub proof fn lemma_distinct_empty(list: Seq<Seq<char>>)
    ensures
        distinct(list).len() == 0 <==> list.len() == 0,
{
    lemma_distinct(list);
    if list.len() > 0 {
        assert(list.contains(list[0]));
        assert(distinct(list).contains(list[0]));
    }
}

/// The rules require exactly what a rule of the type `required_status_checks` lists: rules of
/// other types and rules without parameters require nothing, and the contexts come in the order
/// of the rules.
pub proof fn each_rule_adds_what_it_lists(rules: Seq<RuleModel>, rule: RuleModel)
    ensures
        ruled(seq![], 0).len() == 0,
        ({
            let before = ruled(rules, rules.len() as int);
            let after = ruled(rules.push(rule), (rules.len() + 1) as int);
            if rule.rule_type == "required_status_checks"@ && rule.required_status_checks is Some {
                after == before + rule.required_status_checks->Some_0
            } else {
                after == before
            }
        }),
{
    lemma_ruled_front(rules, rules.push(rule), rules.len() as int);
    let before = ruled(rules, rules.len() as int);
    assert(before + Seq::<Seq<char>>::empty() =~= before);
}

proof fn lemma_ruled_front(a: Seq<RuleModel>, b: Seq<RuleModel>, n: int)
    requires
        0 <= n <= a.len() <= b.len(),
        forall|i: int| 0 <= i < a.len() ==> #[trigger] b[i] == a[i],
    ensures
        ruled(b, n) == ruled(a, n),
    decreases n,
{
    if n > 0 {
        lemma_ruled_front(a, b, n - 1);
        assert(b[n - 1] == a[n - 1]);
    }
}

/// A classic protection requires what it names in either shape, each once; one that requires
/// no checks requires nothing.
pub proof fn a_classic_protection_requires_both_shapes(
    contexts: Seq<Seq<char>>,
    checks: Seq<Seq<char>>,
    c: Seq<char>,
)
    ensures
        ({
            let p = ProtectionModel { required_status_checks: Some((contexts, checks)) };
            &&& classic_contexts(p).contains(c) <==> contexts.contains(c) || checks.contains(c)
            &&& classic_contexts(p).no_duplicates()
        }),
        classic_contexts(ProtectionModel { required_status_checks: None }).len() == 0,
{
    lemma_distinct(contexts + checks);
    if (contexts + checks).contains(c) {
        let i = choose|i: int| 0 <= i < (contexts + checks).len() && (contexts + checks)[i] == c;
        if i < contexts.len() {
            assert(contexts[i] == c);
        } else {
            assert(checks[i - contexts.len()] == c);
        }
    }
    if contexts.contains(c) {
        let i = choose|i: int| 0 <= i < contexts.len() && contexts[i] == c;
        assert((contexts + checks)[i] == c);
    }
    if checks.contains(c) {
        let i = choose|i: int| 0 <= i < checks.len() && checks[i] == c;
        assert((contexts + checks)[i + contexts.len()] == c);
    }
}

/// What is required of a branch is known exactly where its rulesets could be read and its
/// classic protection is absent or could be read too; without a classic protection it is what
/// the rulesets require, each once.
pub proof fn both_mechanisms_must_be_read(
    rules: Result<Seq<RuleModel>, Seq<char>>,
    protection: ProbeModel,
)
    ensures
        contexts_from(rules, protection) is Ok <==> rules is Ok && (protection is NotProtected || (
        protection matches ProbeModel::Protected(Ok(_)))),
        contexts_from(rules, protection) matches Err(e) ==> e is Failed,
        rules is Ok && protection is NotProtected ==> (contexts_from(
            rules,
            protection,
        ) matches Ok(contexts) && contexts.no_duplicates() && forall|c: Seq<char>| #[trigger]
            contexts.contains(c) <==> ruled(rules->Ok_0, rules->Ok_0.len() as int).contains(c)),
{
    if let Ok(rs) = rules {
        lemma_distinct(ruled(rs, rs.len() as int));
    }
}

/// The error output of a failed call for the protection says that there is none where it
/// speaks of `HTTP 404` or of a branch that is not protected, and otherwise that it is not
/// visible where it speaks of `HTTP 403` or of a resource that is not accessible; anything else
/// says nothing.
pub proof fn only_known_words_tell_about_the_protection(stderr: Seq<char>)
    ensures
        ({
            let absent = holds_text(stderr, "HTTP 404"@) || holds_text(
                stderr,
                "Branch not protected"@,
            );
            let hidden = holds_text(stderr, "HTTP 403"@) || holds_text(
                stderr,
                "Resource not accessible"@,
            );
            &&& probe_in(stderr) == Some(ProbeModel::NotProtected) <==> absent
            &&& probe_in(stderr) == Some(ProbeModel::Hidden) <==> !absent && hidden
            &&& probe_in(stderr) is None <==> !absent && !hidden
        }),
{
}

/// That nothing is required is a finding about that very branch; otherwise the contexts are
/// handed on as they are.
pub proof fn no_contexts_mean_no_gate(
    contexts: Seq<Seq<char>>,
    slug: Seq<char>,
    branch: Seq<char>,
)
    ensures
        contexts.len() == 0 ==> gated(contexts, slug, branch) == Err::<Seq<Seq<char>>, ErrorModel>(
            ErrorModel::NoGate { slug, branch },
        ),
        contexts.len() > 0 ==> gated(contexts, slug, branch) == Ok::<Seq<Seq<char>>, ErrorModel>(
            contexts,
        ),
{
}

/// Why it is not known what is required is said: rules that could not be decoded go first,
/// then a protection that could not be decoded or is not visible.
pub proof fn what_is_not_known_is_said(
    rules: Seq<RuleModel>,
    protection: ProbeModel,
    e: Seq<char>,
)
    ensures
        contexts_from(Err(e), protection) == Err::<Seq<Seq<char>>, ErrorModel>(
            ErrorModel::Failed("could not parse ruleset response: "@ + e),
        ),
        contexts_from(Ok(rules), ProbeModel::Protected(Err(e))) == Err::<
            Seq<Seq<char>>,
            ErrorModel,
        >(ErrorModel::Failed("could not parse branch-protection response: "@ + e)),
        contexts_from(Ok(rules), ProbeModel::Hidden) == Err::<Seq<Seq<char>>, ErrorModel>(
            ErrorModel::Failed(
                "classic branch protection on this branch is not visible to this token (HTTP 403); refusing to conclude anything about a gate that cannot be fully read — grant the token Administration read, or use one that has it"@,
            ),
        ),
{
}

} // verus!
