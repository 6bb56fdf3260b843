//! The rollup of a pull request: the runs on its head commit, and the jobs behind those
//! that succeeded.
use vstd::prelude::*;

use crate::gate::{
    green_is_earned, state_of, CheckModel, CheckRun, Gate, GateState, RequiredCheck,
};
use crate::text::{
    front, is_empty, is_text, joined, lacks, lemma_joined_front, lemma_last_piece,
    lemma_number_lacks, lemma_pieces_rejoin, lemma_pieces_step, lemma_span_is, number,
    parse_number, pieces, same, split, strip_prefix, stripped, take_front, CharClass,
};

verus! {

/// One entry of a pull request's rollup: a check run or a commit status.
#[derive(Debug, PartialEq, Eq)]
pub struct RollupEntry {
    pub name: String,
    pub status: Option<String>,
    pub conclusion: Option<String>,
    /// The address of the job, the only place that names its id.
    pub details_url: Option<String>,
}

/// A [`RollupEntry`] as a mathematical value.
pub struct EntryModel {
    pub name: Seq<char>,
    pub status: Option<Seq<char>>,
    pub conclusion: Option<Seq<char>>,
    pub details_url: Option<Seq<char>>,
}

impl DeepView for RollupEntry {
    type V = EntryModel;

    open spec fn deep_view(&self) -> EntryModel {
        EntryModel {
            name: self.name@,
            status: self.status.deep_view(),
            conclusion: self.conclusion.deep_view(),
            details_url: self.details_url.deep_view(),
        }
    }
}

/// The run that an entry of the rollup stands for: what succeeded passed, anything
/// else that completed failed, and the rest is pending.
pub open spec fn run_of(e: EntryModel) -> CheckRun {
    if e.conclusion == Some("SUCCESS"@) {
        CheckRun::Passed
    } else if e.conclusion == Some("FAILURE"@) || e.conclusion == Some("ERROR"@) || e.conclusion
        == Some("TIMED_OUT"@) || e.conclusion == Some("CANCELLED"@) || e.conclusion == Some(
        "STARTUP_FAILURE"@,
    ) {
        CheckRun::Failed
    } else if e.status == Some("COMPLETED"@) {
        CheckRun::Failed
    } else {
        CheckRun::Pending
    }
}

/// The run that an entry of the rollup stands for.
pub fn parse_rollup(entry: &RollupEntry) -> (r: CheckRun)
    ensures
        r == run_of(entry.deep_view()),
{
    if is_text(&entry.conclusion, "SUCCESS") {
        CheckRun::Passed
    } else if is_text(&entry.conclusion, "FAILURE") || is_text(&entry.conclusion, "ERROR")
        || is_text(&entry.conclusion, "TIMED_OUT") || is_text(&entry.conclusion, "CANCELLED")
        || is_text(&entry.conclusion, "STARTUP_FAILURE") {
        CheckRun::Failed
    } else if is_text(&entry.status, "COMPLETED") {
        CheckRun::Failed
    } else {
        CheckRun::Pending
    }
}

/// The run of the first entry of exactly that name; missing where there is none.
pub open spec fn run_for(rollup: Seq<EntryModel>, context: Seq<char>) -> CheckRun
    decreases rollup.len(),
{
    if rollup.len() == 0 {
        CheckRun::Missing
    } else if rollup[0].name == context {
        run_of(rollup[0])
    } else {
        run_for(rollup.drop_first(), context)
    }
}

/// A gate that requires these contexts, each with its run.
pub open spec fn gate_of(contexts: Seq<Seq<char>>, rollup: Seq<EntryModel>) -> Seq<CheckModel> {
    contexts.map_values(
        |c: Seq<char>| CheckModel { context: c, run: run_for(rollup, c), missing_cause: None },
    )
}

fn find_run(rollup: &[RollupEntry], context: &str) -> (r: CheckRun)
    ensures
        r == run_for(rollup.deep_view(), context@),
{
    let ghost m = rollup.deep_view();
    let mut i: usize = 0;
    assert(m.skip(0) =~= m);
    while i < rollup.len()
        invariant
            i <= rollup@.len(),
            m == rollup.deep_view(),
            run_for(m, context@) == run_for(m.skip(i as int), context@),
        decreases rollup@.len() - i,
    {
        proof {
            assert(m.skip(i as int)[0] == rollup@[i as int].deep_view());
            assert(m.skip(i as int).drop_first() =~= m.skip(i + 1));
        }
        if same(&rollup[i].name, context) {
            return parse_rollup(&rollup[i]);
        }
        i += 1;
    }
    assert(m.skip(m.len() as int).len() == 0);
    CheckRun::Missing
}

/// A gate that requires these contexts, each with its run.
pub fn build_gate(required_contexts: &[String], rollup: &[RollupEntry]) -> (r: Gate)
    ensures
        r.deep_view() == gate_of(required_contexts.deep_view(), rollup.deep_view()),
{
    let ghost want = gate_of(required_contexts.deep_view(), rollup.deep_view());
    let mut checks: Vec<RequiredCheck> = Vec::new();
    let mut i: usize = 0;
    assert(checks.deep_view() =~= want.take(0));
    while i < required_contexts.len()
        invariant
            i <= required_contexts@.len(),
            want == gate_of(required_contexts.deep_view(), rollup.deep_view()),
            checks.deep_view() == want.take(i as int),
        decreases required_contexts@.len() - i,
    {
        let context: &str = required_contexts[i].as_str();
        let ghost sofar = checks.deep_view();
        assert(required_contexts.deep_view()[i as int] == context@);
        checks.push(RequiredCheck::new(context, find_run(rollup, context)));
        assert(checks.deep_view() =~= sofar.push(want[i as int]));
        i += 1;
        assert(checks.deep_view() =~= want.take(i as int));
    }
    assert(want.take(want.len() as int) =~= want);
    Gate::new(checks)
}

/// A check that succeeded, with the job whose steps can be inspected.
#[derive(Debug, PartialEq, Eq)]
pub struct GreenCheck {
    pub name: String,
    pub job_id: u64,
}

/// A [`GreenCheck`] as a mathematical value.
pub struct GreenModel {
    pub name: Seq<char>,
    pub job_id: u64,
}

impl DeepView for GreenCheck {
    type V = GreenModel;

    open spec fn deep_view(&self) -> GreenModel {
        GreenModel { name: self.name@, job_id: self.job_id }
    }
}

impl Clone for GreenCheck {
    fn clone(&self) -> (r: Self)
        ensures
            r.deep_view() == self.deep_view(),
    {
        GreenCheck { name: self.name.clone(), job_id: self.job_id }
    }
}

/// Do the segments read `<owner>/<repo>/actions/runs/<run>/job/<job>`, with at most an
/// empty one behind them?
pub open spec fn job_segments(s: Seq<Seq<char>>) -> bool {
    &&& s.len() == 7 || s.len() == 8 && s[7].len() == 0
    &&& s[0].len() > 0
    &&& s[1].len() > 0
    &&& s[2] == "actions"@
    &&& s[3] == "runs"@
    &&& number(s[4], u64::MAX as nat) is Some
    &&& s[5] == "job"@
}

/// The id of the job that an address of GitHub Actions names. A query and a fragment
/// are of no account.
pub open spec fn job_id_in(url: Seq<char>) -> Option<nat> {
    match stripped(url, "https://github.com/"@) {
        Some(rest) => {
            let segments = pieces(front(rest, CharClass::UrlPath), '/');
            if job_segments(segments) {
                number(segments[6], u64::MAX as nat)
            } else {
                None
            }
        },
        None => None,
    }
}

/// The id of the job that an address of GitHub Actions names.
pub fn job_id_from_details_url(url: &str) -> (r: Option<u64>)
    ensures
        match r {
            Some(id) => job_id_in(url@) == Some(id as nat),
            None => job_id_in(url@) is None,
        },
{
    let rest: &str = match strip_prefix(url, "https://github.com/") {
        Some(rest) => rest,
        None => {
            return None;
        },
    };
    let s: Vec<String> = split(take_front(rest, CharClass::UrlPath), '/');
    let ghost m = s.deep_view();
    if s.len() != 7 && s.len() != 8 {
        return None;
    }
    assert(forall|i: int| 0 <= i < s@.len() ==> #[trigger] m[i] == s@[i]@);
    if s.len() == 8 && !is_empty(s[7].as_str()) {
        return None;
    }
    if is_empty(s[0].as_str()) || is_empty(s[1].as_str()) || !same(s[2].as_str(), "actions")
        || !same(s[3].as_str(), "runs") || parse_number(s[4].as_str()).is_none() || !same(
        s[5].as_str(),
        "job",
    ) {
        return None;
    }
    parse_number(s[6].as_str())
}

/// The green check that an entry stands for, where it succeeded and names its job.
pub open spec fn green_of(e: EntryModel) -> Option<GreenModel> {
    if e.conclusion == Some("SUCCESS"@) && e.details_url is Some {
        match job_id_in(e.details_url->Some_0) {
            Some(id) => Some(GreenModel { name: e.name, job_id: id as u64 }),
            None => None,
        }
    } else {
        None
    }
}

/// The green checks of the first `n` entries.
pub open spec fn greens_in(rollup: Seq<EntryModel>, n: int) -> Seq<GreenModel>
    decreases n,
{
    if n <= 0 {
        seq![]
    } else {
        match green_of(rollup[n - 1]) {
            Some(g) => greens_in(rollup, n - 1).push(g),
            None => greens_in(rollup, n - 1),
        }
    }
}

fn green_check(entry: &RollupEntry) -> (r: Option<GreenCheck>)
    ensures
        r.deep_view() == green_of(entry.deep_view()),
{
    if !is_text(&entry.conclusion, "SUCCESS") {
        return None;
    }
    match &entry.details_url {
        Some(url) => match job_id_from_details_url(url) {
            Some(job_id) => Some(GreenCheck { name: entry.name.clone(), job_id }),
            None => None,
        },
        None => None,
    }
}

/// The checks that succeeded and can be inspected.
pub fn greens_from_rollup(rollup: &[RollupEntry]) -> (r: Vec<GreenCheck>)
    ensures
        r.deep_view() == greens_in(rollup.deep_view(), rollup@.len() as int),
{
    let ghost m = rollup.deep_view();
    let mut r: Vec<GreenCheck> = Vec::new();
    let mut i: usize = 0;
    assert(r.deep_view() =~= seq![]);
    while i < rollup.len()
        invariant
            i <= rollup@.len(),
            m == rollup.deep_view(),
            r.deep_view() == greens_in(m, i as int),
        decreases rollup@.len() - i,
    {
        let ghost sofar = r.deep_view();
        assert(m[i as int] == rollup@[i as int].deep_view());
        if let Some(g) = green_check(&rollup[i]) {
            r.push(g);
            assert(r.deep_view() =~= sofar.push(g.deep_view()));
        }
        i += 1;
    }
    r
}

/// Did a run of exactly that name fail at startup?
pub open spec fn refused(rollup: Seq<EntryModel>, context: Seq<char>) -> bool {
    exists|i: int|
        0 <= i < rollup.len() && (#[trigger] rollup[i]).name == context && rollup[i].conclusion
            == Some("STARTUP_FAILURE"@)
}

/// Those of the first `n` contexts whose run failed at startup.
pub open spec fn refused_among(
    contexts: Seq<Seq<char>>,
    n: int,
    rollup: Seq<EntryModel>,
) -> Seq<Seq<char>>
    decreases n,
{
    if n <= 0 {
        seq![]
    } else if refused(rollup, contexts[n - 1]) {
        refused_among(contexts, n - 1, rollup).push(contexts[n - 1])
    } else {
        refused_among(contexts, n - 1, rollup)
    }
}

fn is_refused(rollup: &[RollupEntry], context: &str) -> (r: bool)
    ensures
        r == refused(rollup.deep_view(), context@),
{
    let ghost m = rollup.deep_view();
    let mut i: usize = 0;
    while i < rollup.len()
        invariant
            i <= rollup@.len(),
            m == rollup.deep_view(),
            forall|k: int|
                0 <= k < i ==> !((#[trigger] m[k]).name == context@ && m[k].conclusion == Some(
                    "STARTUP_FAILURE"@,
                )),
        decreases rollup@.len() - i,
    {
        assert(m[i as int] == rollup@[i as int].deep_view());
        if same(&rollup[i].name, context) && is_text(&rollup[i].conclusion, "STARTUP_FAILURE") {
            return true;
        }
        i += 1;
    }
    false
}

/// The required contexts whose run failed at startup.
pub fn startup_failures_from_rollup(
    required_contexts: &[String],
    rollup: &[RollupEntry],
) -> (r: Vec<String>)
    ensures
        r.deep_view() == refused_among(
            required_contexts.deep_view(),
            required_contexts@.len() as int,
            rollup.deep_view(),
        ),
{
    let ghost m = required_contexts.deep_view();
    let mut r: Vec<String> = Vec::new();
    let mut i: usize = 0;
    assert(r.deep_view() =~= seq![]);
    while i < required_contexts.len()
        invariant
            i <= required_contexts@.len(),
            m == required_contexts.deep_view(),
            r.deep_view() == refused_among(m, i as int, rollup.deep_view()),
        decreases required_contexts@.len() - i,
    {
        let ghost sofar = r.deep_view();
        assert(m[i as int] == required_contexts@[i as int]@);
        if is_refused(rollup, required_contexts[i].as_str()) {
            r.push(required_contexts[i].clone());
            assert(r.deep_view() =~= sofar.push(m[i as int]));
        }
        i += 1;
    }
    r
}

/// A gate requires exactly the contexts that it was built from, in their order, and a
/// context is missing exactly where no entry of the rollup bears its name.
pub proof fn gates_bind_runs_by_exact_name(contexts: Seq<Seq<char>>, rollup: Seq<EntryModel>)
    ensures
        gate_of(contexts, rollup).len() == contexts.len(),
        forall|i: int|
            0 <= i < contexts.len() ==> (#[trigger] gate_of(contexts, rollup)[i]).context
                == contexts[i],
        forall|i: int|
            0 <= i < contexts.len() ==> ((#[trigger] gate_of(contexts, rollup)[i]).run
                == CheckRun::Missing <==> forall|k: int|
                0 <= k < rollup.len() ==> (#[trigger] rollup[k]).name != contexts[i]),
{
    assert forall|i: int| 0 <= i < contexts.len() implies ((#[trigger] gate_of(
        contexts,
        rollup,
    )[i]).run == CheckRun::Missing <==> forall|k: int|
        0 <= k < rollup.len() ==> (#[trigger] rollup[k]).name != contexts[i]) by {
        lemma_missing_run(rollup, contexts[i]);
    }
}

proof fn lemma_missing_run(rollup: Seq<EntryModel>, context: Seq<char>)
    ensures
        run_for(rollup, context) == CheckRun::Missing <==> forall|k: int|
            0 <= k < rollup.len() ==> (#[trigger] rollup[k]).name != context,
    decreases rollup.len(),
{
    if rollup.len() > 0 {
        let rest = rollup.drop_first();
        lemma_missing_run(rest, context);
        if rollup[0].name != context {
            assert(forall|k: int| 0 <= k < rest.len() ==> #[trigger] rest[k] == rollup[k + 1]);
            assert forall|k: int|
                (forall|j: int| 0 <= j < rest.len() ==> (#[trigger] rest[j]).name != context) && 0
                    <= k < rollup.len() implies (#[trigger] rollup[k]).name != context by {
                if k > 0 {
                    assert(rest[k - 1] == rollup[k]);
                }
            }
        }
    }
}

/// Is there neither a query nor a fragment in the address?
pub open spec fn plain_address(url: Seq<char>) -> bool {
    forall|i: int| 0 <= i < url.len() ==> CharClass::UrlPath.has(#[trigger] url[i])
}

proof fn lemma_address_front(rest: Seq<char>, extra: Seq<char>)
    requires
        plain_address(rest),
        extra.len() == 0 || !CharClass::UrlPath.has(extra[0]),
    ensures
        front(rest + extra, CharClass::UrlPath) == rest,
{
    let s = rest + extra;
    let n = rest.len() as int;
    assert forall|i: int| 0 <= i < n implies CharClass::UrlPath.has(#[trigger] s[i]) by {
        assert(s[i] == rest[i]);
    }
    if n < s.len() {
        assert(s[n] == extra[0]);
    }
    lemma_span_is(s, CharClass::UrlPath, n);
    assert(s.take(n) =~= rest);
}

proof fn lemma_job_behind(url: Seq<char>, extra: Seq<char>)
    requires
        plain_address(url),
        extra.len() > 0,
        !CharClass::UrlPath.has(extra[0]),
    ensures
        job_id_in(url + extra) == job_id_in(url),
{
    reveal_strlit("https://github.com/");
    let host = "https://github.com/"@;
    let n = host.len() as int;
    let whole = url + extra;
    if url.len() >= n {
        assert(whole.take(n) =~= url.take(n));
        let rest = url.skip(n);
        assert forall|i: int| 0 <= i < rest.len() implies CharClass::UrlPath.has(
            #[trigger] rest[i],
        ) by {
            assert(rest[i] == url[i + n]);
        }
        assert(whole.skip(n) =~= rest + extra);
        lemma_address_front(rest, extra);
        assert(rest + Seq::<char>::empty() =~= rest);
        lemma_address_front(rest, seq![]);
    } else {
        let k = url.len() as int;
        assert(whole[k] == extra[0]);
        assert(plain_address(host));
        assert(CharClass::UrlPath.has(host[k]));
        if host.is_prefix_of(whole) {
            assert(whole.subrange(0, n)[k] == host[k]);
        }
    }
}

/// A query or a fragment behind an address changes nothing about the job that it names.
pub proof fn a_query_or_fragment_names_no_job(url: Seq<char>, behind: Seq<char>)
    requires
        plain_address(url),
    ensures
        job_id_in(url + "?"@ + behind) == job_id_in(url),
        job_id_in(url + "#"@ + behind) == job_id_in(url),
{
    reveal_strlit("?");
    reveal_strlit("#");
    lemma_job_behind(url, "?"@ + behind);
    lemma_job_behind(url, "#"@ + behind);
    assert(url + ("?"@ + behind) =~= url + "?"@ + behind);
    assert(url + ("#"@ + behind) =~= url + "#"@ + behind);
}

/// The address of a job of GitHub Actions.
pub open spec fn job_address(
    owner: Seq<char>,
    repo: Seq<char>,
    run: Seq<char>,
    job: Seq<char>,
) -> Seq<char> {
    "https://github.com/"@ + owner + "/"@ + repo + "/actions/runs/"@ + run + "/job/"@ + job
}

/// Is `url` the address of that job, up to a slash at its end?
pub open spec fn is_job_address(
    url: Seq<char>,
    owner: Seq<char>,
    repo: Seq<char>,
    run: Seq<char>,
    job: Seq<char>,
) -> bool {
    &&& owner.len() > 0 && lacks(owner, '/')
    &&& repo.len() > 0 && lacks(repo, '/')
    &&& number(run, u64::MAX as nat) is Some
    &&& url == job_address(owner, repo, run, job) || url == job_address(owner, repo, run, job)
        + "/"@
}

proof fn lemma_job_slashes(owner: Seq<char>, repo: Seq<char>, run: Seq<char>, job: Seq<char>)
    ensures
        "/"@ == seq!['/'],
        job_address(owner, repo, run, job) == "https://github.com/"@ + (owner + seq!['/'] + (repo
            + seq!['/'] + ("actions"@ + seq!['/'] + ("runs"@ + seq!['/'] + (run + seq!['/'] + (
        "job"@ + seq!['/'] + job)))))),
        lacks("actions"@, '/'),
        lacks("runs"@, '/'),
        lacks("job"@, '/'),
{
    reveal_strlit("/");
    reveal_strlit("actions");
    reveal_strlit("runs");
    reveal_strlit("job");
    reveal_strlit("/actions/runs/");
    reveal_strlit("/job/");
    assert("/"@ =~= seq!['/']);
    assert("/actions/runs/"@ =~= seq!['/'] + "actions"@ + seq!['/'] + "runs"@ + seq!['/']);
    assert("/job/"@ =~= seq!['/'] + "job"@ + seq!['/']);
    assert(job_address(owner, repo, run, job) =~= "https://github.com/"@ + (owner + seq!['/'] + (
    repo + seq!['/'] + ("actions"@ + seq!['/'] + ("runs"@ + seq!['/'] + (run + seq!['/'] + ("job"@
        + seq!['/'] + job)))))));
}

/// What follows the host in the address of a job splits into its segments.
proof fn lemma_job_pieces(
    owner: Seq<char>,
    repo: Seq<char>,
    run: Seq<char>,
    tail: Seq<char>,
)
    requires
        lacks(owner, '/'),
        lacks(repo, '/'),
        number(run, u64::MAX as nat) is Some,
    ensures
        pieces(
            owner + seq!['/'] + (repo + seq!['/'] + ("actions"@ + seq!['/'] + ("runs"@ + seq!['/']
                + (run + seq!['/'] + ("job"@ + seq!['/'] + tail))))),
            '/',
        ) == seq![owner, repo, "actions"@, "runs"@, run, "job"@] + pieces(tail, '/'),
{
    lemma_job_slashes(owner, repo, run, tail);
    lemma_number_lacks(run, u64::MAX as nat, '/');
    let t5 = "job"@ + seq!['/'] + tail;
    let t4 = run + seq!['/'] + t5;
    let t3 = "runs"@ + seq!['/'] + t4;
    let t2 = "actions"@ + seq!['/'] + t3;
    let t1 = repo + seq!['/'] + t2;
    lemma_pieces_step("job"@, tail, '/');
    lemma_pieces_step(run, t5, '/');
    lemma_pieces_step("runs"@, t4, '/');
    lemma_pieces_step("actions"@, t3, '/');
    lemma_pieces_step(repo, t2, '/');
    lemma_pieces_step(owner, t1, '/');
    assert(seq![owner] + (seq![repo] + (seq!["actions"@] + (seq!["runs"@] + (seq![run] + (seq![
        "job"@,
    ] + pieces(tail, '/')))))) =~= seq![owner, repo, "actions"@, "runs"@, run, "job"@] + pieces(
        tail,
        '/',
    ));
}

/// An address names the job whose address it is.
proof fn lemma_address_names_job(
    url: Seq<char>,
    owner: Seq<char>,
    repo: Seq<char>,
    run: Seq<char>,
    job: Seq<char>,
    id: nat,
)
    requires
        plain_address(url),
        is_job_address(url, owner, repo, run, job),
        number(job, u64::MAX as nat) == Some(id),
    ensures
        job_id_in(url) == Some(id),
{
    let host = "https://github.com/"@;
    let slashed = url != job_address(owner, repo, run, job);
    let tail = if slashed {
        job + seq!['/']
    } else {
        job
    };
    lemma_job_slashes(owner, repo, run, job);
    lemma_job_slashes(owner, repo, run, tail);
    assert(job_address(owner, repo, run, job) + "/"@ =~= job_address(
        owner,
        repo,
        run,
        job + seq!['/'],
    ));
    let rest = owner + seq!['/'] + (repo + seq!['/'] + ("actions"@ + seq!['/'] + ("runs"@ + seq![
        '/',
    ] + (run + seq!['/'] + ("job"@ + seq!['/'] + tail)))));
    assert(url == host + rest);
    assert(url.subrange(0, host.len() as int) =~= host);
    assert(url.skip(host.len() as int) =~= rest);
    assert forall|i: int| 0 <= i < rest.len() implies CharClass::UrlPath.has(#[trigger] rest[i]) by {
        assert(rest[i] == url[i + host.len()]);
    }
    assert(rest + Seq::<char>::empty() =~= rest);
    lemma_address_front(rest, seq![]);
    lemma_job_pieces(owner, repo, run, tail);
    lemma_number_lacks(job, u64::MAX as nat, '/');
    if slashed {
        lemma_pieces_step(job, seq![], '/');
        assert(job + seq!['/'] + Seq::<char>::empty() =~= tail);
        lemma_last_piece(seq![], '/');
        assert(pieces(tail, '/') =~= seq![job, seq![]]);
    } else {
        lemma_last_piece(job, '/');
        assert(pieces(tail, '/') =~= seq![job]);
    }
}

/// What an address that names a job is.
proof fn lemma_named_job(url: Seq<char>)
    requires
        plain_address(url),
        job_id_in(url) is Some,
    ensures
        ({
            let s = pieces(url.skip("https://github.com/"@.len() as int), '/');
            &&& s.len() >= 7
            &&& is_job_address(url, s[0], s[1], s[4], s[6])
            &&& number(s[6], u64::MAX as nat) == job_id_in(url)
        }),
{
    let host = "https://github.com/"@;
    let rest = url.skip(host.len() as int);
    assert forall|i: int| 0 <= i < rest.len() implies CharClass::UrlPath.has(#[trigger] rest[i]) by {
        assert(rest[i] == url[i + host.len()]);
    }
    assert(rest + Seq::<char>::empty() =~= rest);
    lemma_address_front(rest, seq![]);
    let s = pieces(rest, '/');
    let slash = seq!['/'];
    lemma_pieces_rejoin(rest, '/');
    lemma_job_slashes(s[0], s[1], s[4], s[6]);
    lemma_joined_front(s, slash);
    let s1 = s.drop_first();
    lemma_joined_front(s1, slash);
    let s2 = s1.drop_first();
    lemma_joined_front(s2, slash);
    let s3 = s2.drop_first();
    lemma_joined_front(s3, slash);
    let s4 = s3.drop_first();
    lemma_joined_front(s4, slash);
    let s5 = s4.drop_first();
    lemma_joined_front(s5, slash);
    let s6 = s5.drop_first();
    assert(url =~= host + rest);
    if s.len() == 8 {
        lemma_joined_front(s6, slash);
        let s7 = s6.drop_first();
        assert(joined(s7, slash) == s[7]);
        assert(joined(s6, slash) =~= s[6] + slash);
        assert(url =~= job_address(s[0], s[1], s[4], s[6]) + "/"@);
    } else {
        assert(joined(s6, slash) == s[6]);
        assert(url =~= job_address(s[0], s[1], s[4], s[6]));
    }
}

/// An address without a query and a fragment names a job exactly where it is the address of
/// one on GitHub, up to a slash at its end: other hosts and other paths name none.
pub proof fn only_the_address_of_a_job_names_it(url: Seq<char>, id: nat)
    requires
        plain_address(url),
    ensures
        job_id_in(url) == Some(id) <==> exists|
            owner: Seq<char>,
            repo: Seq<char>,
            run: Seq<char>,
            job: Seq<char>,
        | #[trigger]
            is_job_address(url, owner, repo, run, job) && number(job, u64::MAX as nat) == Some(id),
{
    if job_id_in(url) == Some(id) {
        lemma_named_job(url);
    }
    if exists|owner: Seq<char>, repo: Seq<char>, run: Seq<char>, job: Seq<char>| #[trigger]
        is_job_address(url, owner, repo, run, job) && number(job, u64::MAX as nat) == Some(id) {
        let (owner, repo, run, job) = choose|
            owner: Seq<char>,
            repo: Seq<char>,
            run: Seq<char>,
            job: Seq<char>,
        | #[trigger]
            is_job_address(url, owner, repo, run, job) && number(job, u64::MAX as nat) == Some(id);
        lemma_address_names_job(url, owner, repo, run, job, id);
    }
}

/// An entry is read as passed exactly where its conclusion is `SUCCESS`. What is known to have
/// gone wrong, and what completed with any other conclusion, failed; the rest is pending.
pub proof fn only_success_passes(e: EntryModel)
    ensures
        run_of(e) == CheckRun::Passed <==> e.conclusion == Some("SUCCESS"@),
        e.status == Some("COMPLETED"@) && e.conclusion != Some("SUCCESS"@) ==> run_of(e)
            == CheckRun::Failed,
        run_of(e) == CheckRun::Failed <==> e.conclusion != Some("SUCCESS"@) && (e.status == Some(
            "COMPLETED"@,
        ) || e.conclusion == Some("FAILURE"@) || e.conclusion == Some("ERROR"@) || e.conclusion
            == Some("TIMED_OUT"@) || e.conclusion == Some("CANCELLED"@) || e.conclusion == Some(
            "STARTUP_FAILURE"@,
        )),
        run_of(e) == CheckRun::Pending || run_of(e) == CheckRun::Passed || run_of(e)
            == CheckRun::Failed,
{
}

proof fn lemma_run_of_first(rollup: Seq<EntryModel>, context: Seq<char>, k: int)
    requires
        0 <= k < rollup.len(),
        rollup[k].name == context,
        forall|j: int| 0 <= j < k ==> (#[trigger] rollup[j]).name != context,
    ensures
        run_for(rollup, context) == run_of(rollup[k]),
    decreases k,
{
    if k > 0 {
        let rest = rollup.drop_first();
        assert(rollup[0].name != context);
        assert forall|j: int| 0 <= j < k - 1 implies (#[trigger] rest[j]).name != context by {
            assert(rest[j] == rollup[j + 1]);
        }
        lemma_run_of_first(rest, context, k - 1);
    }
}

/// A required context is bound to the first entry of its exact name: its check has passed
/// exactly where that entry concluded with `SUCCESS`, and it carries no diagnosis.
pub proof fn a_context_is_bound_to_its_first_entry(
    contexts: Seq<Seq<char>>,
    rollup: Seq<EntryModel>,
    i: int,
    k: int,
)
    requires
        0 <= i < contexts.len(),
        0 <= k < rollup.len(),
        rollup[k].name == contexts[i],
        forall|j: int| 0 <= j < k ==> (#[trigger] rollup[j]).name != contexts[i],
    ensures
        gate_of(contexts, rollup)[i].context == contexts[i],
        gate_of(contexts, rollup)[i].missing_cause is None,
        gate_of(contexts, rollup)[i].run != CheckRun::Missing,
        gate_of(contexts, rollup)[i].run == CheckRun::Passed <==> rollup[k].conclusion == Some(
            "SUCCESS"@,
        ),
        gate_of(contexts, rollup)[i].run == CheckRun::Pending <==> rollup[k].status != Some(
            "COMPLETED"@,
        ) && rollup[k].conclusion != Some("SUCCESS"@) && rollup[k].conclusion != Some("FAILURE"@)
            && rollup[k].conclusion != Some("ERROR"@) && rollup[k].conclusion != Some(
            "TIMED_OUT"@,
        ) && rollup[k].conclusion != Some("CANCELLED"@) && rollup[k].conclusion != Some(
            "STARTUP_FAILURE"@,
        ),
{
    lemma_run_of_first(rollup, contexts[i], k);
    only_success_passes(rollup[k]);
}

proof fn lemma_passed_has_entry(rollup: Seq<EntryModel>, context: Seq<char>)
    ensures
        run_for(rollup, context) == CheckRun::Passed ==> exists|k: int|
            0 <= k < rollup.len() && (#[trigger] rollup[k]).name == context
                && rollup[k].conclusion == Some("SUCCESS"@),
    decreases rollup.len(),
{
    if rollup.len() > 0 {
        only_success_passes(rollup[0]);
        let rest = rollup.drop_first();
        lemma_passed_has_entry(rest, context);
        if rollup[0].name != context && run_for(rest, context) == CheckRun::Passed {
            let k = choose|k: int|
                0 <= k < rest.len() && (#[trigger] rest[k]).name == context && rest[k].conclusion
                    == Some("SUCCESS"@);
            assert(rollup[k + 1] == rest[k]);
        } else if rollup[0].name == context {
            assert(rollup[0].name == context);
        }
    }
}

/// A gate that is built from a rollup is green only where it requires something and each
/// required context has an entry of its name that concluded with `SUCCESS`.
pub proof fn a_green_gate_succeeded_throughout(
    contexts: Seq<Seq<char>>,
    rollup: Seq<EntryModel>,
    i: int,
)
    requires
        state_of(gate_of(contexts, rollup)) == GateState::Green,
    ensures
        contexts.len() > 0,
        0 <= i < contexts.len() ==> exists|k: int|
            0 <= k < rollup.len() && (#[trigger] rollup[k]).name == contexts[i]
                && rollup[k].conclusion == Some("SUCCESS"@),
{
    let gate = gate_of(contexts, rollup);
    green_is_earned(gate);
    if 0 <= i < contexts.len() {
        assert(gate[i].run == CheckRun::Passed);
        lemma_passed_has_entry(rollup, contexts[i]);
    }
}

proof fn lemma_greens_front(rollup: Seq<EntryModel>, longer: Seq<EntryModel>, n: int)
    requires
        0 <= n <= rollup.len() <= longer.len(),
        forall|i: int| 0 <= i < rollup.len() ==> #[trigger] longer[i] == rollup[i],
    ensures
        greens_in(longer, n) == greens_in(rollup, n),
    decreases n,
{
    if n > 0 {
        lemma_greens_front(rollup, longer, n - 1);
        assert(longer[n - 1] == rollup[n - 1]);
    }
}

/// The green checks of a rollup are those of its entries, in order: an entry adds one exactly
/// where it concluded with `SUCCESS` and its address names a job, under the name of the entry
/// and with the id of that job.
pub proof fn each_entry_adds_its_green(rollup: Seq<EntryModel>, e: EntryModel)
    ensures
        greens_in(seq![], 0).len() == 0,
        ({
            let before = greens_in(rollup, rollup.len() as int);
            let after = greens_in(rollup.push(e), (rollup.len() + 1) as int);
            if e.conclusion == Some("SUCCESS"@) && (e.details_url matches Some(url) && job_id_in(
                url,
            ) is Some) {
                after == before.push(
                    GreenModel {
                        name: e.name,
                        job_id: job_id_in(e.details_url->Some_0)->Some_0 as u64,
                    },
                )
            } else {
                after == before
            }
        }),
{
    lemma_greens_front(rollup, rollup.push(e), rollup.len() as int);
}

proof fn lemma_refused_front(a: Seq<Seq<char>>, b: Seq<Seq<char>>, n: int, rollup: Seq<EntryModel>)
    requires
        0 <= n <= a.len() <= b.len(),
        forall|i: int| 0 <= i < a.len() ==> #[trigger] b[i] == a[i],
    ensures
        refused_among(b, n, rollup) == refused_among(a, n, rollup),
    decreases n,
{
    if n > 0 {
        lemma_refused_front(a, b, n - 1, rollup);
        assert(b[n - 1] == a[n - 1]);
    }
}

/// Of the required contexts, in order, exactly those are listed as failed at startup that an
/// entry of their name with the conclusion `STARTUP_FAILURE` stands for.
pub proof fn each_context_adds_its_startup_failure(
    contexts: Seq<Seq<char>>,
    context: Seq<char>,
    rollup: Seq<EntryModel>,
)
    ensures
        refused_among(seq![], 0, rollup).len() == 0,
        ({
            let before = refused_among(contexts, contexts.len() as int, rollup);
            let after = refused_among(
                contexts.push(context),
                (contexts.len() + 1) as int,
                rollup,
            );
            if exists|k: int|
                0 <= k < rollup.len() && (#[trigger] rollup[k]).name == context
                    && rollup[k].conclusion == Some("STARTUP_FAILURE"@) {
                after == before.push(context)
            } else {
                after == before
            }
        }),
{
    lemma_refused_front(contexts, contexts.push(context), contexts.len() as int, rollup);
}

} // verus!
