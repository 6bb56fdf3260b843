//! The facts that one workflow file gives away.
//!
//! This is a tolerant scan by lines, not a YAML engine: it takes any text and
//! leaves a fact out where it does not recognise one.
use vstd::prelude::*;

use crate::retired_policy::{has_retired_descriptile_policy, retired_in};
use crate::text::{
    all_white, back, cat3, cat5, chars_of, contains, distinct, drop_back, drop_front, front,
    gathered, hex_digit, holds_text, indent, indent_of, is_empty, is_hex_digit, lacks,
    lemma_distinct, lemma_distinct_filter, lemma_distinct_push, lemma_edges,
    lemma_gathered_alike, lemma_last_piece, lemma_pieces_step, lemma_span_back_bound, lemma_span_back_is, lemma_span_has,
    lemma_span_is, lines, lines_of, lower, occurs_at, opens_white, pieces, push_new, skip_back,
    skip_front, span, span_back, split, starts_white, starts_with, strip_prefix, strip_suffix,
    stripped, stripped_end, take_back, take_front, the_first_word_comes_first, to_lower, trim,
    trimmed, trimming_takes_the_white_space_at_the_ends, white, with_new, words, words_of,
    CharClass,
};
use crate::workflows::{InfoModel, WorkflowInfo, WorkflowKind};

verus! {

/// `s` without the prefix, where it has it.
pub open spec fn shed_front(s: Seq<char>, prefix: Seq<char>) -> Seq<char> {
    match stripped(s, prefix) {
        Some(rest) => rest,
        None => s,
    }
}

/// `s` without the suffix, where it has it.
pub open spec fn shed_back(s: Seq<char>, suffix: Seq<char>) -> Seq<char> {
    match stripped_end(s, suffix) {
        Some(rest) => rest,
        None => s,
    }
}

/// A scalar without one pair of double quotes, one pair of single quotes and the
/// white space around it; either quote of a pair may be absent.
pub open spec fn unquoted(s: Seq<char>) -> Seq<char> {
    let bare = shed_back(shed_front(trimmed(s), "\""@), "\""@);
    trimmed(shed_back(shed_front(bare, "'"@), "'"@))
}

/// Is `c` a character of a job's identifier?
pub open spec fn ident_char(c: char) -> bool {
    ||| 'a' as u32 <= c as u32 <= 'z' as u32
    ||| 'A' as u32 <= c as u32 <= 'Z' as u32
    ||| '0' as u32 <= c as u32 <= '9' as u32
    ||| c == '-'
    ||| c == '_'
}

/// Is `s` the identifier of a job?
pub open spec fn identifier(s: Seq<char>) -> bool {
    s.len() > 0 && forall|i: int| 0 <= i < s.len() ==> ident_char(#[trigger] s[i])
}

/// Does the line open the `jobs:` block?
pub open spec fn jobs_header(line: Seq<char>) -> bool {
    indent_of(line) == 0 && "jobs:"@.is_prefix_of(trimmed(line))
}

/// Does the line hold a top-level key?
pub open spec fn top_key(line: Seq<char>) -> bool {
    indent_of(line) == 0 && trimmed(line).len() > 0 && !"#"@.is_prefix_of(trimmed(line))
}

/// Is the last top-level key of the first `n` lines `jobs:`?
pub open spec fn in_jobs(lines: Seq<Seq<char>>, n: int) -> bool
    decreases n,
{
    if n <= 0 {
        false
    } else if jobs_header(lines[n - 1]) {
        true
    } else if top_key(lines[n - 1]) {
        false
    } else {
        in_jobs(lines, n - 1)
    }
}

/// The name that a `name:` line gives.
pub open spec fn name_value(line: Seq<char>) -> Option<Seq<char>> {
    match stripped(trimmed(line), "name:"@) {
        Some(rest) => Some(unquoted(trimmed(rest))),
        None => None,
    }
}

/// The name of the workflow: that of the first top-level `name:` line of the first
/// `n` lines.
pub open spec fn name_in(lines: Seq<Seq<char>>, n: int) -> Option<Seq<char>>
    decreases n,
{
    if n <= 0 {
        None
    } else {
        match name_in(lines, n - 1) {
            Some(name) => Some(name),
            None => if indent_of(lines[n - 1]) == 0 {
                name_value(lines[n - 1])
            } else {
                None
            },
        }
    }
}

/// The job that line `i` declares: a key at indent two of the `jobs:` block.
pub open spec fn job_id_at(lines: Seq<Seq<char>>, i: int) -> Option<Seq<char>> {
    match stripped_end(trimmed(lines[i]), ":"@) {
        Some(id) => if in_jobs(lines, i + 1) && indent_of(lines[i]) == 2 && identifier(id) {
            Some(id)
        } else {
            None
        },
        None => None,
    }
}

/// The display name that line `i` gives inside a job.
pub open spec fn job_name_at(lines: Seq<Seq<char>>, i: int) -> Option<Seq<char>> {
    if in_jobs(lines, i + 1) && indent_of(lines[i]) >= 4 {
        name_value(lines[i])
    } else {
        None
    }
}

/// The first two segments of a path, where both are there and hold something.
pub open spec fn owner_and_repo(path: Seq<char>) -> Option<(Seq<char>, Seq<char>)> {
    let segments = pieces(path, '/');
    if segments.len() >= 2 && segments[0].len() > 0 && segments[1].len() > 0 {
        Some((segments[0], segments[1]))
    } else {
        None
    }
}

/// The `owner/repo` of the reusable workflow that a line calls.
pub open spec fn reused_repo(line: Seq<char>) -> Option<Seq<char>> {
    match stripped(trimmed(line), "uses:"@) {
        Some(rest) => {
            let target = trimmed(rest);
            if holds_text(target, "/.github/workflows/"@) {
                match owner_and_repo(front(target, CharClass::IsNot('@'))) {
                    Some((owner, repo)) => Some(owner + "/"@ + repo),
                    None => None,
                }
            } else {
                None
            }
        },
        None => None,
    }
}

/// What follows the `uses:` key of a line, which may open a list item.
pub open spec fn uses_value(line: Seq<char>) -> Option<Seq<char>> {
    match stripped(trimmed(line), "uses:"@) {
        Some(rest) => Some(rest),
        None => stripped(trimmed(line), "- uses:"@),
    }
}

/// What a line uses: the first word after the key, without quotes.
pub open spec fn used_target(line: Seq<char>) -> Option<Seq<char>> {
    match uses_value(line) {
        Some(rest) => {
            let w = words_of(trimmed(rest));
            if w.len() > 0 {
                Some(drop_front(drop_back(w[0], CharClass::Quote), CharClass::Quote))
            } else {
                None
            }
        },
        None => None,
    }
}

/// Is the target of this repository, or an image?
pub open spec fn local_target(target: Seq<char>) -> bool {
    "./"@.is_prefix_of(target) || "$/"@.is_prefix_of(target) || "docker://"@.is_prefix_of(target)
}

/// What follows the last `@` of a target: all of it where there is none.
pub open spec fn reference_of(target: Seq<char>) -> Seq<char> {
    back(target, CharClass::IsNot('@'))
}

/// A target of another repository as `owner/repo@ref`, without any path inside the
/// repository.
pub open spec fn normalized(target: Seq<char>) -> Option<Seq<char>> {
    let reference = reference_of(target);
    if local_target(target) || reference.len() == 0 || reference.len() == target.len() {
        None
    } else {
        match owner_and_repo(target.take(target.len() - reference.len() - 1)) {
            Some((owner, repo)) => Some(owner + "/"@ + repo + "@"@ + reference),
            None => None,
        }
    }
}

/// The action of another repository that a line uses.
pub open spec fn external_at(lines: Seq<Seq<char>>, i: int) -> Option<Seq<char>> {
    match used_target(lines[i]) {
        Some(target) => normalized(target),
        None => None,
    }
}

/// Is the reference a full revision, forty hexadecimal digits?
pub open spec fn sha_pin(reference: Seq<char>) -> bool {
    reference.len() == 40 && forall|i: int|
        0 <= i < reference.len() ==> hex_digit(#[trigger] reference[i])
}

/// The action of another repository that a line uses at a tag or a branch.
pub open spec fn tag_pinned_at(lines: Seq<Seq<char>>, i: int) -> Option<Seq<char>> {
    match external_at(lines, i) {
        Some(used) => if sha_pin(reference_of(used)) {
            None
        } else {
            Some(used)
        },
        None => None,
    }
}

/// The jobs that the first `n` lines declare.
pub open spec fn job_ids_in(lines: Seq<Seq<char>>, n: int) -> Seq<Seq<char>> {
    gathered(n, |i: int| job_id_at(lines, i))
}

/// The display names of jobs and steps in the first `n` lines.
pub open spec fn job_names_in(lines: Seq<Seq<char>>, n: int) -> Seq<Seq<char>> {
    gathered(n, |i: int| job_name_at(lines, i))
}

/// The repositories whose reusable workflows the first `n` lines call, each once.
pub open spec fn reused_in(lines: Seq<Seq<char>>, n: int) -> Seq<Seq<char>> {
    distinct(gathered(n, |i: int| reused_repo(lines[i])))
}

/// The actions of other repositories in the first `n` lines, each once.
pub open spec fn external_in(lines: Seq<Seq<char>>, n: int) -> Seq<Seq<char>> {
    distinct(gathered(n, |i: int| external_at(lines, i)))
}

/// Those of them at a tag or a branch, each once.
pub open spec fn tag_pinned_in(lines: Seq<Seq<char>>, n: int) -> Seq<Seq<char>> {
    distinct(gathered(n, |i: int| tag_pinned_at(lines, i)))
}

/// Does a `paths:` key stand before the `jobs:` block?
pub open spec fn path_filtered_in(lines: Seq<Seq<char>>) -> bool {
    exists|i: int|
        0 <= i < lines.len() && "paths:"@.is_prefix_of(trimmed(#[trigger] lines[i])) && forall|
            k: int,
        |
            0 <= k <= i ==> !jobs_header(#[trigger] lines[k])
}

/// Does the line hold anything but a comment?
pub open spec fn significant(line: Seq<char>) -> bool {
    trimmed(line).len() > 0 && !"#"@.is_prefix_of(trimmed(line))
}

/// Is the line a `jobs:` key without a value?
pub open spec fn bare_jobs(line: Seq<char>) -> bool {
    match stripped(line, "jobs:"@) {
        Some(rest) => trimmed(rest).len() == 0 || "#"@.is_prefix_of(trimmed(rest)),
        None => false,
    }
}

/// Does the next line that holds anything start at the margin, if there is one?
pub open spec fn continues_at_margin(lines: Seq<Seq<char>>) -> bool
    decreases lines.len(),
{
    if lines.len() == 0 {
        true
    } else if significant(lines[0]) {
        !opens_white(lines[0])
    } else {
        continues_at_margin(lines.drop_first())
    }
}

/// Is there a `jobs:` key with nothing but comments under it?
pub open spec fn empty_jobs_in(lines: Seq<Seq<char>>) -> bool
    decreases lines.len(),
{
    if lines.len() == 0 {
        false
    } else if significant(lines[0]) && bare_jobs(lines[0]) {
        continues_at_margin(lines.drop_first())
    } else {
        empty_jobs_in(lines.drop_first())
    }
}

/// What a workflow's texts are searched for its kind in.
pub open spec fn haystack(file: Seq<char>, name: Option<Seq<char>>, text: Seq<char>) -> Seq<char> {
    let name = match name {
        Some(name) => name,
        None => ""@,
    };
    lower(file + " "@ + name + " "@ + text)
}

/// Does the workflow lint workflows or the configuration of CI?
pub open spec fn hygienic(file: Seq<char>, hay: Seq<char>) -> bool {
    ||| holds_text(hay, "workflow"@) && (holds_text(hay, "lint"@) || holds_text(
        hay,
        "security linter"@,
    ))
    ||| holds_text(file, "workflow-linter"@)
    ||| holds_text(hay, ".github/workflows"@) && (holds_text(hay, "spdx"@) || holds_text(
        hay,
        "pinned"@,
    ) || holds_text(hay, "permissions:"@))
}

/// Does the workflow check proofs?
pub open spec fn proving(hay: Seq<char>) -> bool {
    holds_text(hay, "gnatprove"@) || holds_text(hay, "coqc"@) || holds_text(hay, "lean"@)
        || holds_text(hay, "agda"@) || holds_text(hay, "isabelle"@) || holds_text(hay, "echidna"@)
        || holds_text(hay, "proof-check"@)
}

/// Does the workflow scan for secrets or vulnerabilities?
pub open spec fn scanning(hay: Seq<char>) -> bool {
    holds_text(hay, "trufflehog"@) || holds_text(hay, "gitleaks"@) || holds_text(hay, "codeql"@)
        || holds_text(hay, "scorecard"@) || holds_text(hay, "secret-scan"@) || holds_text(
        hay,
        "cargo audit"@,
    ) || holds_text(hay, "cargo-audit"@)
}

/// Does the workflow build or lint code or containers?
pub open spec fn building(hay: Seq<char>) -> bool {
    holds_text(hay, "shellcheck"@) || holds_text(hay, "cargo build"@) || holds_text(
        hay,
        "cargo test"@,
    ) || holds_text(hay, "podman build"@) || holds_text(hay, "nerdctl build"@) || holds_text(
        hay,
        "docker build"@,
    ) || holds_text(hay, "container-build"@) || holds_text(hay, "npm "@) || holds_text(
        hay,
        "make "@,
    ) || holds_text(hay, "just build"@)
}

/// The kind of a workflow: the first that its texts give away.
pub open spec fn kind_of(
    file: Seq<char>,
    name: Option<Seq<char>>,
    text: Seq<char>,
) -> WorkflowKind {
    let hay = haystack(file, name, text);
    if hygienic(file, hay) {
        WorkflowKind::Hygiene
    } else if proving(hay) {
        WorkflowKind::Proof
    } else if scanning(hay) {
        WorkflowKind::Security
    } else if building(hay) {
        WorkflowKind::CodeBuild
    } else {
        WorkflowKind::Other
    }
}

/// The facts that the text of a workflow file gives away.
pub open spec fn info_of(file: Seq<char>, text: Seq<char>) -> InfoModel {
    let lines = lines_of(text);
    let n = lines.len() as int;
    InfoModel {
        file,
        name: name_in(lines, n),
        job_ids: job_ids_in(lines, n),
        job_names: job_names_in(lines, n),
        reusable_repos: reused_in(lines, n),
        external_uses: external_in(lines, n),
        tag_pinned_uses: tag_pinned_in(lines, n),
        path_filtered: path_filtered_in(lines),
        retired_descriptile_policy: retired_in(text),
        empty_jobs: empty_jobs_in(lines),
        kind: kind_of(file, name_in(lines, n), text),
    }
}

fn unquote(s: &str) -> (r: String)
    ensures
        r@ == unquoted(s@),
{
    let s: &str = without_prefix(trim(s), "\"");
    let s: &str = without_suffix(s, "\"");
    let s: &str = without_prefix(s, "'");
    let s: &str = without_suffix(s, "'");
    trim(s).to_owned()
}

fn without_prefix<'a>(s: &'a str, prefix: &str) -> (r: &'a str)
    ensures
        r@ == shed_front(s@, prefix@),
{
    match strip_prefix(s, prefix) {
        Some(rest) => rest,
        None => s,
    }
}

fn without_suffix<'a>(s: &'a str, suffix: &str) -> (r: &'a str)
    ensures
        r@ == shed_back(s@, suffix@),
{
    match strip_suffix(s, suffix) {
        Some(rest) => rest,
        None => s,
    }
}

fn is_ident(s: &str) -> (r: bool)
    ensures
        r == identifier(s@),
{
    let v: Vec<char> = chars_of(s);
    let mut i: usize = 0;
    while i < v.len()
        invariant
            i <= v@.len(),
            v@ == s@,
            forall|k: int| 0 <= k < i ==> ident_char(#[trigger] s@[k]),
        decreases v@.len() - i,
    {
        let c: char = v[i];
        let u: u32 = c as u32;
        assert(c == s@[i as int]);
        if !((0x61 <= u && u <= 0x7a) || (0x41 <= u && u <= 0x5a) || (0x30 <= u && u <= 0x39) || c
            == '-' || c == '_') {
            return false;
        }
        i += 1;
    }
    v.len() > 0
}

fn is_sha_pin(reference: &str) -> (r: bool)
    ensures
        r == sha_pin(reference@),
{
    let v: Vec<char> = chars_of(reference);
    let mut i: usize = 0;
    while i < v.len()
        invariant
            i <= v@.len(),
            v@ == reference@,
            forall|k: int| 0 <= k < i ==> hex_digit(#[trigger] reference@[k]),
        decreases v@.len() - i,
    {
        assert(v@[i as int] == reference@[i as int]);
        if !is_hex_digit(v[i]) {
            return false;
        }
        i += 1;
    }
    v.len() == 40
}

fn name_on(line: &str) -> (r: Option<String>)
    ensures
        r.deep_view() == name_value(line@),
{
    match strip_prefix(trim(line), "name:") {
        Some(rest) => Some(unquote(trim(rest))),
        None => None,
    }
}

/// The first two segments of a path, where both are there and hold something.
fn first_two(path: &str) -> (r: Option<(String, String)>)
    ensures
        r.deep_view() == owner_and_repo(path@),
{
    let segments: Vec<String> = split(path, '/');
    let ghost m = segments.deep_view();
    if segments.len() < 2 {
        return None;
    }
    assert(m[0] == segments@[0]@ && m[1] == segments@[1]@);
    if is_empty(segments[0].as_str()) || is_empty(segments[1].as_str()) {
        return None;
    }
    Some((segments[0].clone(), segments[1].clone()))
}

fn reusable_repo(line: &str) -> (r: Option<String>)
    ensures
        r.deep_view() == reused_repo(line@),
{
    match strip_prefix(trim(line), "uses:") {
        Some(rest) => {
            let target: &str = trim(rest);
            if !contains(target, "/.github/workflows/") {
                return None;
            }
            match first_two(take_front(target, CharClass::IsNot('@'))) {
                Some((owner, repo)) => Some(cat3(&owner, "/", &repo)),
                None => None,
            }
        },
        None => None,
    }
}

fn uses_target(line: &str) -> (r: Option<String>)
    ensures
        r.deep_view() == used_target(line@),
{
    let t: &str = trim(line);
    let rest: &str = match strip_prefix(t, "uses:") {
        Some(rest) => rest,
        None => match strip_prefix(t, "- uses:") {
            Some(rest) => rest,
            None => {
                return None;
            },
        },
    };
    let w: Vec<String> = words(trim(rest));
    if w.len() == 0 {
        return None;
    }
    assert(w.deep_view()[0] == w@[0]@);
    let word: &str = w[0].as_str();
    Some(skip_front(skip_back(word, CharClass::Quote), CharClass::Quote).to_owned())
}

fn normalize_external_use(target: &str) -> (r: Option<String>)
    ensures
        r.deep_view() == normalized(target@),
{
    if starts_with(target, "./") || starts_with(target, "$/") || starts_with(target, "docker://") {
        return None;
    }
    let reference: &str = take_back(target, CharClass::IsNot('@'));
    let n: usize = target.unicode_len();
    let k: usize = reference.unicode_len();
    proof {
        crate::text::lemma_span_back_bound(target@, CharClass::IsNot('@'));
    }
    if k == 0 || k == n {
        return None;
    }
    match first_two(target.substring_char(0, n - k - 1)) {
        Some((owner, repo)) => Some(cat5(&owner, "/", &repo, "@", reference)),
        None => None,
    }
}

fn external_use(line: &str) -> (r: Option<String>)
    ensures
        r.deep_view() == match used_target(line@) {
            Some(target) => normalized(target),
            None => None,
        },
{
    match uses_target(line) {
        Some(target) => normalize_external_use(&target),
        None => None,
    }
}

fn is_jobs_header(line: &str) -> (r: bool)
    ensures
        r == jobs_header(line@),
{
    indent(line) == 0 && starts_with(trim(line), "jobs:")
}

/// Does a `paths:` key stand before the `jobs:` block?
pub fn has_path_filter(text: &str) -> (r: bool)
    ensures
        r == path_filtered_in(lines_of(text@)),
{
    let all: Vec<String> = lines(text);
    let ghost m = all.deep_view();
    let mut i: usize = 0;
    while i < all.len()
        invariant
            i <= all@.len(),
            m == all.deep_view(),
            m == lines_of(text@),
            forall|k: int| 0 <= k < i ==> !jobs_header(#[trigger] m[k]),
            forall|k: int| 0 <= k < i ==> !"paths:"@.is_prefix_of(trimmed(#[trigger] m[k])),
        decreases all@.len() - i,
    {
        let line: &str = all[i].as_str();
        assert(m[i as int] == line@);
        if is_jobs_header(line) {
            return false;
        }
        if starts_with(trim(line), "paths:") {
            return true;
        }
        i += 1;
    }
    false
}

/// Is there a `jobs:` key with nothing but comments under it?
pub fn has_empty_jobs(text: &str) -> (r: bool)
    ensures
        r == empty_jobs_in(lines_of(text@)),
{
    let all: Vec<String> = lines(text);
    let ghost m = all.deep_view();
    let mut in_jobs: bool = false;
    let mut i: usize = 0;
    assert(m.skip(0) =~= m);
    while i < all.len()
        invariant
            i <= all@.len(),
            m == all.deep_view(),
            empty_jobs_in(m) == if in_jobs {
                continues_at_margin(m.skip(i as int))
            } else {
                empty_jobs_in(m.skip(i as int))
            },
            m == lines_of(text@),
        decreases all@.len() - i,
    {
        let line: &str = all[i].as_str();
        proof {
            assert(m.skip(i as int)[0] == line@);
            assert(m.skip(i as int).drop_first() =~= m.skip(i + 1));
        }
        i += 1;
        let t: &str = trim(line);
        if is_empty(t) || starts_with(t, "#") {
            continue;
        }
        if in_jobs {
            return !starts_white(line);
        }
        if is_bare_jobs(line) {
            in_jobs = true;
        }
    }
    in_jobs
}

fn is_bare_jobs(line: &str) -> (r: bool)
    ensures
        r == bare_jobs(line@),
{
    match strip_prefix(line, "jobs:") {
        Some(rest) => is_empty(trim(rest)) || starts_with(trim(rest), "#"),
        None => false,
    }
}

fn classify_kind(file: &str, name: Option<&str>, text: &str) -> (r: WorkflowKind)
    ensures
        r == kind_of(file@, name.deep_view(), text@),
{
    let name: &str = match name {
        Some(name) => name,
        None => "",
    };
    let whole: String = cat5(file, " ", name, " ", text);
    let hay: String = to_lower(&whole);
    if is_hygienic(file, &hay) {
        WorkflowKind::Hygiene
    } else if is_proving(&hay) {
        WorkflowKind::Proof
    } else if is_scanning(&hay) {
        WorkflowKind::Security
    } else if is_building(&hay) {
        WorkflowKind::CodeBuild
    } else {
        WorkflowKind::Other
    }
}

fn is_hygienic(file: &str, hay: &str) -> (r: bool)
    ensures
        r == hygienic(file@, hay@),
{
    (contains(hay, "workflow") && (contains(hay, "lint") || contains(hay, "security linter")))
        || contains(file, "workflow-linter") || (contains(hay, ".github/workflows") && (contains(
        hay,
        "spdx",
    ) || contains(hay, "pinned") || contains(hay, "permissions:")))
}

fn is_proving(hay: &str) -> (r: bool)
    ensures
        r == proving(hay@),
{
    contains(hay, "gnatprove") || contains(hay, "coqc") || contains(hay, "lean") || contains(
        hay,
        "agda",
    ) || contains(hay, "isabelle") || contains(hay, "echidna") || contains(hay, "proof-check")
}

fn is_scanning(hay: &str) -> (r: bool)
    ensures
        r == scanning(hay@),
{
    contains(hay, "trufflehog") || contains(hay, "gitleaks") || contains(hay, "codeql")
        || contains(hay, "scorecard") || contains(hay, "secret-scan") || contains(
        hay,
        "cargo audit",
    ) || contains(hay, "cargo-audit")
}

fn is_building(hay: &str) -> (r: bool)
    ensures
        r == building(hay@),
{
    contains(hay, "shellcheck") || contains(hay, "cargo build") || contains(hay, "cargo test")
        || contains(hay, "podman build") || contains(hay, "nerdctl build") || contains(
        hay,
        "docker build",
    ) || contains(hay, "container-build") || contains(hay, "npm ") || contains(hay, "make ")
        || contains(hay, "just build")
}

/// How the lists without repetitions grow by one line.
proof fn lemma_one_more_line(lines: Seq<Seq<char>>, n: int)
    requires
        0 <= n,
    ensures
        reused_in(lines, n + 1) == match reused_repo(lines[n]) {
            Some(repo) => with_new(reused_in(lines, n), repo),
            None => reused_in(lines, n),
        },
        external_in(lines, n + 1) == match external_at(lines, n) {
            Some(used) => with_new(external_in(lines, n), used),
            None => external_in(lines, n),
        },
        tag_pinned_in(lines, n + 1) == match tag_pinned_at(lines, n) {
            Some(used) => with_new(tag_pinned_in(lines, n), used),
            None => tag_pinned_in(lines, n),
        },
{
    if let Some(repo) = reused_repo(lines[n]) {
        lemma_distinct_push(gathered(n, |i: int| reused_repo(lines[i])), repo);
    }
    if let Some(used) = external_at(lines, n) {
        lemma_distinct_push(gathered(n, |i: int| external_at(lines, i)), used);
    }
    if let Some(used) = tag_pinned_at(lines, n) {
        lemma_distinct_push(gathered(n, |i: int| tag_pinned_at(lines, i)), used);
    }
}

/// The facts that the text of a workflow file gives away.
pub fn parse_workflow(file: &str, text: &str) -> (r: WorkflowInfo)
    ensures
        r.deep_view() == info_of(file@, text@),
{
    let all: Vec<String> = lines(text);
    let ghost m = all.deep_view();
    let mut name: Option<String> = None;
    let mut job_ids: Vec<String> = Vec::new();
    let mut job_names: Vec<String> = Vec::new();
    let mut reusable_repos: Vec<String> = Vec::new();
    let mut external_uses: Vec<String> = Vec::new();
    let mut tag_pinned_uses: Vec<String> = Vec::new();
    let mut inside: bool = false;
    let mut i: usize = 0;
    assert(job_ids.deep_view() =~= Seq::empty());
    while i < all.len()
        invariant
            i <= all@.len(),
            m == all.deep_view(),
            m == lines_of(text@),
            name.deep_view() == name_in(m, i as int),
            inside == in_jobs(m, i as int),
            job_ids.deep_view() == job_ids_in(m, i as int),
            job_names.deep_view() == job_names_in(m, i as int),
            reusable_repos.deep_view() == reused_in(m, i as int),
            external_uses.deep_view() == external_in(m, i as int),
            tag_pinned_uses.deep_view() == tag_pinned_in(m, i as int),
        decreases all@.len() - i,
    {
        let line: &str = all[i].as_str();
        proof {
            assert(m[i as int] == line@);
            lemma_one_more_line(m, i as int);
        }
        let depth: u128 = indent(line);
        let t: &str = trim(line);

        if name.is_none() && depth == 0 {
            name = name_on(line);
        }
        if depth == 0 && starts_with(t, "jobs:") {
            inside = true;
        } else if depth == 0 && !is_empty(t) && !starts_with(t, "#") {
            inside = false;
        }
        if inside && depth == 2 {
            if let Some(id) = strip_suffix(t, ":") {
                if is_ident(id) {
                    push_one(&mut job_ids, id.to_owned());
                }
            }
        }
        if inside && depth >= 4 {
            if let Some(display) = name_on(line) {
                push_one(&mut job_names, display);
            }
        }
        if let Some(repo) = reusable_repo(line) {
            push_new(&mut reusable_repos, repo);
        }
        if let Some(used) = external_use(line) {
            let pinned: bool = is_sha_pin(take_back(&used, CharClass::IsNot('@')));
            if !pinned {
                push_new(&mut tag_pinned_uses, used.clone());
            }
            push_new(&mut external_uses, used);
        }
        i += 1;
    }
    let path_filtered: bool = has_path_filter(text);
    let kind: WorkflowKind = match &name {
        Some(name) => classify_kind(file, Some(name.as_str()), text),
        None => classify_kind(file, None, text),
    };
    WorkflowInfo {
        file: file.to_owned(),
        name,
        job_ids,
        job_names,
        reusable_repos,
        external_uses,
        tag_pinned_uses,
        path_filtered,
        retired_descriptile_policy: has_retired_descriptile_policy(text),
        empty_jobs: has_empty_jobs(text),
        kind,
    }
}

/// Appends `item`.
fn push_one(list: &mut Vec<String>, item: String)
    ensures
        final(list).deep_view() == old(list).deep_view().push(item@),
{
    list.push(item);
    assert(list.deep_view() =~= old(list).deep_view().push(item@));
}

/// Is the action at a tag or a branch?
pub open spec fn tag_pinned(used: Seq<char>) -> bool {
    !sha_pin(reference_of(used))
}

proof fn lemma_gathered_tag_pins(lines: Seq<Seq<char>>, n: int)
    ensures
        gathered(n, |i: int| tag_pinned_at(lines, i)) == gathered(
            n,
            |i: int| external_at(lines, i),
        ).filter(|used: Seq<char>| tag_pinned(used)),
    decreases n,
{
    reveal(Seq::filter);
    if n > 0 {
        lemma_gathered_tag_pins(lines, n - 1);
        if let Some(used) = external_at(lines, n - 1) {
            let fewer = gathered(n - 1, |i: int| external_at(lines, i));
            assert(fewer.push(used).drop_last() =~= fewer);
        }
    }
}

/// The actions at a tag or a branch are exactly those of the external actions that are
/// not at a full revision, in the same order, and no list names an action or a repository
/// twice.
pub proof fn tag_pinned_uses_are_the_unpinned_ones(file: Seq<char>, text: Seq<char>)
    ensures
        info_of(file, text).tag_pinned_uses == info_of(file, text).external_uses.filter(
            |used: Seq<char>| tag_pinned(used),
        ),
        info_of(file, text).external_uses.no_duplicates(),
        info_of(file, text).tag_pinned_uses.no_duplicates(),
        info_of(file, text).reusable_repos.no_duplicates(),
{
    let lines = lines_of(text);
    let n = lines.len() as int;
    lemma_distinct(gathered(n, |i: int| external_at(lines, i)));
    lemma_distinct(gathered(n, |i: int| tag_pinned_at(lines, i)));
    lemma_distinct(gathered(n, |i: int| reused_repo(lines[i])));
    lemma_gathered_tag_pins(lines, n);
    lemma_distinct_filter(
        gathered(n, |i: int| external_at(lines, i)),
        |used: Seq<char>| tag_pinned(used),
    );
}

/// Does line `i` stand in the `jobs:` block: is there a `jobs:` header at the margin, at or
/// ahead of it, with no other key at the margin since?
pub open spec fn under_jobs(lines: Seq<Seq<char>>, i: int) -> bool {
    exists|h: int| #[trigger] header_since(lines, h, i)
}

/// Is line `h` a `jobs:` header at the margin, and is every line at the margin behind it, up to
/// line `i`, blank, a comment or such a header again?
pub open spec fn header_since(lines: Seq<Seq<char>>, h: int, i: int) -> bool {
    &&& 0 <= h <= i
    &&& indent_of(lines[h]) == 0 && "jobs:"@.is_prefix_of(trimmed(lines[h]))
    &&& forall|m: int|
        h < m <= i && indent_of(#[trigger] lines[m]) == 0 ==> trimmed(lines[m]).len() == 0
            || "#"@.is_prefix_of(trimmed(lines[m])) || "jobs:"@.is_prefix_of(trimmed(lines[m]))
}

proof fn lemma_under_jobs(lines: Seq<Seq<char>>, i: int)
    requires
        -1 <= i,
    ensures
        in_jobs(lines, i + 1) == under_jobs(lines, i),
    decreases i + 1,
{
    if i >= 0 {
        lemma_under_jobs(lines, i - 1);
        let line = lines[i];
        if jobs_header(line) {
            assert(header_since(lines, i, i));
        } else if top_key(line) {
            assert forall|h: int| !#[trigger] header_since(lines, h, i) by {
                if header_since(lines, h, i) && h < i {
                    assert(indent_of(lines[i]) == 0);
                }
            }
        } else {
            if under_jobs(lines, i - 1) {
                let h = choose|h: int| #[trigger] header_since(lines, h, i - 1);
                assert(header_since(lines, h, i));
            }
            if under_jobs(lines, i) {
                let h = choose|h: int| #[trigger] header_since(lines, h, i);
                assert(h < i);
                assert(header_since(lines, h, i - 1));
            }
        }
    } else {
        assert forall|h: int| !#[trigger] header_since(lines, h, i) by {}
    }
}

/// The jobs of a workflow are declared by the lines of its `jobs:` block that are indented by
/// two and hold an identifier, of ASCII letters, digits, `-` and `_`, and a colon; the ids come
/// in the order of the lines.
pub proof fn jobs_are_declared_at_indent_two(file: Seq<char>, text: Seq<char>)
    ensures
        info_of(file, text).job_ids == gathered(
            lines_of(text).len() as int,
            |i: int|
                {
                    let line = trimmed(lines_of(text)[i]);
                    if under_jobs(lines_of(text), i) && indent_of(lines_of(text)[i]) == 2
                        && line.len() > 1 && line.last() == ':' && (forall|k: int|
                        0 <= k < line.len() - 1 ==> {
                            let c = #[trigger] line[k];
                            'a' as u32 <= c as u32 <= 'z' as u32 || 'A' as u32 <= c as u32
                                <= 'Z' as u32 || '0' as u32 <= c as u32 <= '9' as u32 || c == '-'
                                || c == '_'
                        }) {
                        Some(line.drop_last())
                    } else {
                        None
                    }
                },
        ),
{
    let lines = lines_of(text);
    let n = lines.len() as int;
    let f = |i: int| job_id_at(lines, i);
    let g = |i: int|
        {
            let line = trimmed(lines_of(text)[i]);
            if under_jobs(lines_of(text), i) && indent_of(lines_of(text)[i]) == 2 && line.len() > 1
                && line.last() == ':' && (forall|k: int|
                0 <= k < line.len() - 1 ==> {
                    let c = #[trigger] line[k];
                    'a' as u32 <= c as u32 <= 'z' as u32 || 'A' as u32 <= c as u32 <= 'Z' as u32
                        || '0' as u32 <= c as u32 <= '9' as u32 || c == '-' || c == '_'
                }) {
                Some(line.drop_last())
            } else {
                None
            }
        };
    reveal_strlit(":");
    assert forall|i: int| 0 <= i < n implies #[trigger] f(i) == g(i) by {
        lemma_under_jobs(lines, i);
        let line = trimmed(lines[i]);
        if line.len() > 0 {
            let end = line.subrange(line.len() - 1, line.len() as int);
            assert(end =~= seq![line.last()]);
            assert(":"@ =~= seq![':']);
            if line.last() != ':' {
                assert(end[0] != ":"@[0]);
            }
            let id = line.take(line.len() - 1);
            assert(id =~= line.drop_last());
            assert(line.len() > 1 ==> (identifier(id) <==> forall|k: int|
                0 <= k < line.len() - 1 ==> {
                    let c = #[trigger] line[k];
                    'a' as u32 <= c as u32 <= 'z' as u32 || 'A' as u32 <= c as u32 <= 'Z' as u32
                        || '0' as u32 <= c as u32 <= '9' as u32 || c == '-' || c == '_'
                })) by {
                if line.len() > 1 && identifier(id) {
                    assert forall|k: int| 0 <= k < line.len() - 1 implies {
                        let c = #[trigger] line[k];
                        'a' as u32 <= c as u32 <= 'z' as u32 || 'A' as u32 <= c as u32
                            <= 'Z' as u32 || '0' as u32 <= c as u32 <= '9' as u32 || c == '-' || c
                            == '_'
                    } by {
                        assert(ident_char(id[k]));
                    }
                }
            }
        }
    }
    lemma_gathered_alike(n, f, g);
}

/// The display names of jobs and steps are those that the `name:` lines of the `jobs:` block
/// give that are indented by four or more, in the order of the lines.
pub proof fn display_names_stand_at_indent_four(file: Seq<char>, text: Seq<char>)
    ensures
        info_of(file, text).job_names == gathered(
            lines_of(text).len() as int,
            |i: int|
                if under_jobs(lines_of(text), i) && indent_of(lines_of(text)[i]) >= 4 {
                    name_value(lines_of(text)[i])
                } else {
                    None
                },
        ),
{
    let lines = lines_of(text);
    let n = lines.len() as int;
    let f = |i: int| job_name_at(lines, i);
    let g = |i: int|
        if under_jobs(lines_of(text), i) && indent_of(lines_of(text)[i]) >= 4 {
            name_value(lines_of(text)[i])
        } else {
            None
        };
    assert forall|i: int| 0 <= i < n implies #[trigger] f(i) == g(i) by {
        lemma_under_jobs(lines, i);
    }
    lemma_gathered_alike(n, f, g);
}

proof fn lemma_name_first(lines: Seq<Seq<char>>, n: int, k: int)
    requires
        0 <= k < n,
        indent_of(lines[k]) == 0,
        "name:"@.is_prefix_of(trimmed(lines[k])),
        forall|j: int|
            0 <= j < k && indent_of(#[trigger] lines[j]) == 0 ==> !"name:"@.is_prefix_of(
                trimmed(lines[j]),
            ),
    ensures
        name_in(lines, n) == name_value(lines[k]),
        name_value(lines[k]) is Some,
    decreases n,
{
    if n - 1 > k {
        lemma_name_first(lines, n - 1, k);
    } else {
        lemma_no_name(lines, k);
    }
}

proof fn lemma_no_name(lines: Seq<Seq<char>>, n: int)
    requires
        forall|j: int|
            0 <= j < n && indent_of(#[trigger] lines[j]) == 0 ==> !"name:"@.is_prefix_of(
                trimmed(lines[j]),
            ),
    ensures
        name_in(lines, n) is None,
    decreases n,
{
    if n > 0 {
        lemma_no_name(lines, n - 1);
        assert(indent_of(lines[n - 1]) == 0 ==> !"name:"@.is_prefix_of(trimmed(lines[n - 1])));
    }
}

/// The name of a workflow is that of its first `name:` line at the margin, and it has none
/// where there is no such line.
pub proof fn the_first_name_at_the_margin_counts(file: Seq<char>, text: Seq<char>, k: int)
    requires
        0 <= k <= lines_of(text).len(),
        k < lines_of(text).len() ==> indent_of(lines_of(text)[k]) == 0 && "name:"@.is_prefix_of(
            trimmed(lines_of(text)[k]),
        ),
        forall|j: int|
            0 <= j < k && indent_of(#[trigger] lines_of(text)[j]) == 0 ==> !"name:"@.is_prefix_of(
                trimmed(lines_of(text)[j]),
            ),
    ensures
        info_of(file, text).name == if k < lines_of(text).len() {
            name_value(lines_of(text)[k])
        } else {
            None
        },
        info_of(file, text).name is Some <==> k < lines_of(text).len(),
        info_of(file, text).file == file,
{
    let lines = lines_of(text);
    if k < lines.len() {
        lemma_name_first(lines, lines.len() as int, k);
    } else {
        lemma_no_name(lines, k);
    }
}

/// A `name:` line gives what stands behind the key without the white space around it, and
/// without the quotes around it where it is quoted, singly or doubly.
pub proof fn a_name_is_read_without_quotes(
    margin: Seq<char>,
    gap: Seq<char>,
    name: Seq<char>,
    tail: Seq<char>,
)
    requires
        all_white(margin),
        all_white(gap),
        all_white(tail),
        name.len() > 0,
        !white(name[0]) && name[0] != '\'' && name[0] != '"',
        !white(name.last()) && name.last() != '\'' && name.last() != '"',
    ensures
        name_value(margin + "name:"@ + gap + name + tail) == Some(name),
        name_value(margin + "name:"@ + gap + ("\""@ + name + "\""@) + tail) == Some(name),
        name_value(margin + "name:"@ + gap + ("'"@ + name + "'"@) + tail) == Some(name),
{
    reveal_strlit("\"");
    reveal_strlit("'");
    lemma_name_line(margin, gap, name, tail);
    lemma_name_line(margin, gap, "\""@ + name + "\""@, tail);
    lemma_name_line(margin, gap, "'"@ + name + "'"@, tail);
    lemma_unquoted(name);
}

proof fn lemma_name_line(margin: Seq<char>, gap: Seq<char>, value: Seq<char>, tail: Seq<char>)
    requires
        all_white(margin),
        all_white(gap),
        all_white(tail),
        value.len() > 0,
        !white(value[0]),
        !white(value.last()),
    ensures
        name_value(margin + "name:"@ + gap + value + tail) == Some(unquoted(value)),
{
    reveal_strlit("name:");
    let body = "name:"@ + gap + value;
    assert(body[0] == 'n');
    assert(body.last() == value.last());
    trimming_takes_the_white_space_at_the_ends(margin, body, tail);
    assert(margin + body + tail =~= margin + "name:"@ + gap + value + tail);
    assert(body.subrange(0, 5) =~= "name:"@);
    assert(body.skip(5) =~= gap + value + Seq::<char>::empty());
    trimming_takes_the_white_space_at_the_ends(gap, value, seq![]);
}

proof fn lemma_unquoted(name: Seq<char>)
    requires
        name.len() > 0,
        !white(name[0]) && name[0] != '\'' && name[0] != '"',
        !white(name.last()) && name.last() != '\'' && name.last() != '"',
    ensures
        unquoted(name) == name,
        unquoted("\""@ + name + "\""@) == name,
        unquoted("'"@ + name + "'"@) == name,
{
    reveal_strlit("\"");
    reveal_strlit("'");
    let dq = "\""@;
    let sq = "'"@;
    assert(dq =~= seq!['"']);
    assert(sq =~= seq!['\'']);
    lemma_untrimmed(name);
    lemma_shed(name, '"', dq);
    lemma_shed(name, '\'', sq);
    assert(unquoted(name) == name);
    let d = dq + name + dq;
    lemma_untrimmed(d);
    assert(unquoted(d) == name);
    let s = sq + name + sq;
    lemma_untrimmed(s);
    lemma_edges(s, '"', dq);
    assert(shed_front(s, dq) == s && shed_back(s, dq) == s);
    assert(unquoted(s) == name);
}

proof fn lemma_untrimmed(s: Seq<char>)
    requires
        s.len() > 0 && !white(s[0]) && !white(s.last()),
    ensures
        trimmed(s) == s,
{
    let none = Seq::<char>::empty();
    trimming_takes_the_white_space_at_the_ends(none, s, none);
    assert(none + s + none =~= s);
}

/// A mark of one character is shed where it stands, and leaves alone what it does not edge.
proof fn lemma_shed(name: Seq<char>, c: char, mark: Seq<char>)
    requires
        mark == seq![c],
        name.len() > 0 && name[0] != c && name.last() != c,
    ensures
        shed_back(shed_front(name, mark), mark) == name,
        shed_back(shed_front(mark + name + mark, mark), mark) == name,
{
    lemma_edges(name, c, mark);
    let whole = mark + name + mark;
    lemma_edges(whole, c, mark);
    let rest = name + mark;
    assert(whole.skip(1) =~= rest);
    lemma_edges(rest, c, mark);
    assert(rest.take(rest.len() - 1) =~= name);
}

/// What a line uses is the word behind `uses:`, without the quotes round it, with or without a
/// dash ahead of the key and whatever follows the word.
pub proof fn a_use_is_the_word_behind_the_key(
    margin: Seq<char>,
    dashed: bool,
    gap: Seq<char>,
    open: Seq<char>,
    target: Seq<char>,
    close: Seq<char>,
    tail: Seq<char>,
)
    requires
        all_white(margin),
        all_white(gap),
        target.len() > 0,
        forall|i: int| 0 <= i < target.len() ==> !white(#[trigger] target[i]),
        target[0] != '\'' && target[0] != '"',
        target.last() != '\'' && target.last() != '"',
        forall|i: int| 0 <= i < open.len() ==> #[trigger] open[i] == '"' || open[i] == '\'',
        forall|i: int| 0 <= i < close.len() ==> #[trigger] close[i] == '"' || close[i] == '\'',
        tail.len() > 0 ==> white(tail[0]),
    ensures
        used_target(
            margin + (if dashed {
                "- uses:"@
            } else {
                "uses:"@
            }) + gap + (open + target + close) + tail,
        ) == Some(target),
{
    let word = open + target + close;
    assert forall|i: int| 0 <= i < word.len() implies !white(#[trigger] word[i]) by {
        if i < open.len() {
            assert(word[i] == open[i]);
        } else if i < open.len() + target.len() {
            assert(word[i] == target[i - open.len()]);
        } else {
            assert(word[i] == close[i - open.len() - target.len()]);
        }
    }
    lemma_used_word(margin, dashed, gap, word, tail);
    let opened = open + target;
    lemma_span_back_is(word, CharClass::Quote, close.len() as int);
    assert(drop_back(word, CharClass::Quote) =~= opened);
    lemma_span_is(opened, CharClass::Quote, open.len() as int);
    assert(drop_front(opened, CharClass::Quote) =~= target);
}

proof fn lemma_used_word(
    margin: Seq<char>,
    dashed: bool,
    gap: Seq<char>,
    word: Seq<char>,
    tail: Seq<char>,
)
    requires
        all_white(margin),
        all_white(gap),
        word.len() > 0,
        forall|i: int| 0 <= i < word.len() ==> !white(#[trigger] word[i]),
        tail.len() > 0 ==> white(tail[0]),
    ensures
        used_target(
            margin + (if dashed {
                "- uses:"@
            } else {
                "uses:"@
            }) + gap + word + tail,
        ) == Some(drop_front(drop_back(word, CharClass::Quote), CharClass::Quote)),
{
    reveal_strlit("- uses:");
    reveal_strlit("uses:");
    let w = CharClass::White;
    let key = if dashed {
        "- uses:"@
    } else {
        "uses:"@
    };
    let n = span_back(tail, w) as int;
    lemma_span_back_bound(tail, w);
    lemma_span_back_has(tail, w);
    let cut = tail.take(tail.len() - n);
    let rest = tail.skip(tail.len() - n);
    let body = key + gap + word + cut;
    let line = margin + key + gap + word + tail;
    assert forall|i: int| 0 <= i < rest.len() implies white(#[trigger] rest[i]) by {
        assert(w.has(tail[tail.len() - n + i]));
    }
    if cut.len() > 0 {
        assert(body.last() == cut.last());
        assert(!w.has(tail[tail.len() - n - 1]));
    } else {
        assert(body =~= key + gap + word);
        assert(body.last() == word.last());
    }
    assert(body[0] == key[0]);
    trimming_takes_the_white_space_at_the_ends(margin, body, rest);
    assert(margin + body + rest =~= line);
    let k = key.len() as int;
    assert(body.subrange(0, k) =~= key);
    if dashed {
        assert(body[0] == '-');
        assert("uses:"@[0] == 'u');
        if "uses:"@.is_prefix_of(body) {
            assert(body.subrange(0, 5)[0] == 'u');
        }
    }
    let value = body.skip(k);
    assert(value =~= gap + word + cut);
    let inner = word + cut;
    if cut.len() > 0 {
        assert(inner.last() == cut.last());
    } else {
        assert(inner =~= word);
    }
    let none = Seq::<char>::empty();
    trimming_takes_the_white_space_at_the_ends(gap, inner, none);
    assert(gap + inner + none =~= value);
    if cut.len() > 0 {
        assert(cut[0] == tail[0]);
    }
    the_first_word_comes_first(word, cut);
    assert(words_of(inner)[0] == word);
}

proof fn lemma_span_back_has(s: Seq<char>, class: CharClass)
    ensures
        0 <= span_back(s, class) <= s.len(),
        forall|i: int|
            s.len() - span_back(s, class) <= i < s.len() ==> class.has(#[trigger] s[i]),
        span_back(s, class) < s.len() ==> !class.has(s[s.len() - span_back(s, class) - 1]),
    decreases s.len(),
{
    if s.len() > 0 && class.has(s.last()) {
        let t = s.drop_last();
        lemma_span_back_has(t, class);
        assert forall|i: int|
            s.len() - span_back(s, class) <= i < s.len() implies class.has(#[trigger] s[i]) by {
            if i < t.len() {
                assert(t[i] == s[i]);
            }
        }
    }
}

/// An action of another repository is counted as its owner, its repository and its reference,
/// whatever path inside the repository it names; and it is at a tag or a branch exactly where
/// the reference is not forty hexadecimal digits.
pub proof fn an_external_use_is_its_owner_repository_and_reference(
    owner: Seq<char>,
    repo: Seq<char>,
    path: Seq<char>,
    reference: Seq<char>,
)
    requires
        owner.len() > 0 && lacks(owner, '/'),
        repo.len() > 0 && lacks(repo, '/'),
        path.len() > 0 ==> path[0] == '/',
        reference.len() > 0 && lacks(reference, '@'),
        owner != "."@ && owner != "$"@ && owner != "docker:"@,
    ensures
        normalized(owner + "/"@ + repo + path + "@"@ + reference) == Some(
            owner + "/"@ + repo + "@"@ + reference,
        ),
        tag_pinned(owner + "/"@ + repo + "@"@ + reference) <==> !(reference.len() == 40 && forall|
            i: int,
        |
            0 <= i < 40 ==> hex_digit(#[trigger] reference[i])),
{
    reveal_strlit("/");
    reveal_strlit("@");
    let target = owner + "/"@ + repo + path + "@"@ + reference;
    let head = owner + "/"@ + repo + path;
    lemma_reference_behind(head, reference);
    assert(target =~= head + "@"@ + reference);
    lemma_reference_behind(owner + "/"@ + repo, reference);
    assert(target.take(target.len() - reference.len() - 1) =~= head);
    lemma_not_local(owner, repo + path + "@"@ + reference);
    assert(owner + "/"@ + (repo + path + "@"@ + reference) =~= target);
    lemma_two_segments(owner, repo, path);
}

proof fn lemma_reference_behind(head: Seq<char>, reference: Seq<char>)
    requires
        lacks(reference, '@'),
    ensures
        reference_of(head + "@"@ + reference) == reference,
{
    reveal_strlit("@");
    let class = CharClass::IsNot('@');
    let s = head + "@"@ + reference;
    let n = reference.len() as int;
    assert forall|i: int| s.len() - n <= i < s.len() implies class.has(#[trigger] s[i]) by {
        assert(s[i] == reference[i - (s.len() - n)]);
    }
    assert(s[s.len() - n - 1] == '@');
    lemma_span_back_is(s, class, n);
    assert(s.skip(s.len() - n) =~= reference);
}

proof fn lemma_not_local(owner: Seq<char>, rest: Seq<char>)
    requires
        owner.len() > 0,
        lacks(owner, '/'),
        owner != "."@ && owner != "$"@ && owner != "docker:"@,
    ensures
        !local_target(owner + "/"@ + rest),
{
    reveal_strlit("/");
    reveal_strlit(".");
    reveal_strlit("$");
    reveal_strlit("docker:");
    reveal_strlit("./");
    reveal_strlit("$/");
    reveal_strlit("docker://");
    let s = owner + "/"@ + rest;
    let n = owner.len() as int;
    assert(s[n] == '/');
    if "./"@.is_prefix_of(s) {
        assert(s.subrange(0, 2) =~= "./"@);
        assert(s[0] == '.' && s[1] == '/') by {
            assert(s.subrange(0, 2)[0] == '.' && s.subrange(0, 2)[1] == '/');
        }
        if n > 1 {
            assert(owner[1] == s[1]);
        }
        assert(owner[0] == s[0]);
        assert(owner =~= "."@);
    }
    if "$/"@.is_prefix_of(s) {
        assert(s[0] == '$' && s[1] == '/') by {
            assert(s.subrange(0, 2)[0] == '$' && s.subrange(0, 2)[1] == '/');
        }
        if n > 1 {
            assert(owner[1] == s[1]);
        }
        assert(owner[0] == s[0]);
        assert(owner =~= "$"@);
    }
    if "docker://"@.is_prefix_of(s) {
        let p = s.subrange(0, 9);
        assert forall|i: int| 0 <= i < 9 implies #[trigger] s[i] == "docker://"@[i] by {
            assert(p[i] == s[i]);
        }
        assert(s[7] == '/');
        if n > 7 {
            assert(owner[7] == s[7]);
        }
        if n < 7 {
            assert(s[n] == "docker://"@[n]);
        }
        assert(owner =~= "docker:"@) by {
            assert forall|i: int| 0 <= i < 7 implies owner[i] == "docker:"@[i] by {
                assert(owner[i] == s[i]);
            }
        }
    }
}

proof fn lemma_two_segments(owner: Seq<char>, repo: Seq<char>, path: Seq<char>)
    requires
        owner.len() > 0 && lacks(owner, '/'),
        repo.len() > 0 && lacks(repo, '/'),
        path.len() > 0 ==> path[0] == '/',
    ensures
        owner_and_repo(owner + "/"@ + repo + path) == Some((owner, repo)),
{
    reveal_strlit("/");
    let slash = seq!['/'];
    assert("/"@ =~= slash);
    let head = owner + "/"@ + repo + path;
    let tail = repo + path;
    lemma_pieces_step(owner, tail, '/');
    assert(owner + slash + tail =~= head);
    if path.len() > 0 {
        let rest = path.drop_first();
        assert(repo + slash + rest =~= tail);
        lemma_pieces_step(repo, rest, '/');
    } else {
        assert(tail =~= repo);
        lemma_last_piece(repo, '/');
    }
    let all = pieces(head, '/');
    assert(all[0] == owner);
    assert(all[1] == pieces(tail, '/')[0]);
    assert(all[1] == repo);
}

/// Actions of this repository, and images, are no actions of another.
pub proof fn local_actions_and_images_are_not_external(rest: Seq<char>)
    ensures
        normalized("./"@ + rest) is None,
        normalized("$/"@ + rest) is None,
        normalized("docker://"@ + rest) is None,
{
    let a = "./"@;
    assert((a + rest).subrange(0, a.len() as int) =~= a);
    let b = "$/"@;
    assert((b + rest).subrange(0, b.len() as int) =~= b);
    let c = "docker://"@;
    assert((c + rest).subrange(0, c.len() as int) =~= c);
}

/// A reusable workflow is called by a `uses:` line whose target stands in a workflow directory,
/// and it belongs to the owner and the repository that the target begins with.
pub proof fn a_reusable_workflow_belongs_to_its_repository(
    margin: Seq<char>,
    gap: Seq<char>,
    owner: Seq<char>,
    repo: Seq<char>,
    rest: Seq<char>,
    tail: Seq<char>,
)
    requires
        all_white(margin),
        all_white(gap),
        all_white(tail),
        owner.len() > 0 && lacks(owner, '/') && lacks(owner, '@') && !white(owner[0]),
        repo.len() > 0 && lacks(repo, '/') && lacks(repo, '@'),
        rest.len() > 0 && !white(rest.last()),
    ensures
        reused_repo(
            margin + "uses:"@ + gap + owner + "/"@ + repo + "/.github/workflows/"@ + rest + tail,
        ) == Some(owner + "/"@ + repo),
{
    reveal_strlit("uses:");
    reveal_strlit("/");
    reveal_strlit("/.github/workflows/");
    let dir = "/.github/workflows/"@;
    let target = owner + "/"@ + repo + dir + rest;
    let body = "uses:"@ + gap + target;
    let line = margin + "uses:"@ + gap + owner + "/"@ + repo + dir + rest + tail;
    assert(target.last() == rest.last());
    assert(body.last() == rest.last());
    assert(body[0] == 'u');
    trimming_takes_the_white_space_at_the_ends(margin, body, tail);
    assert(margin + body + tail =~= line);
    assert(body.subrange(0, 5) =~= "uses:"@);
    let none = Seq::<char>::empty();
    assert(body.skip(5) =~= gap + target + none);
    assert(target[0] == owner[0]);
    trimming_takes_the_white_space_at_the_ends(gap, target, none);
    let k = (owner.len() + 1 + repo.len()) as int;
    assert(target.subrange(k, k + dir.len()) =~= dir);
    assert(occurs_at(target, dir, k));
    let class = CharClass::IsNot('@');
    let head = owner + "/"@ + repo;
    let behind = dir + rest;
    let n = span(behind, class) as int;
    lemma_span_has(behind, class);
    assert(target =~= head + behind);
    let m = head.len() + n;
    assert forall|i: int| 0 <= i < m implies class.has(#[trigger] target[i]) by {
        if i < owner.len() {
            assert(target[i] == owner[i]);
        } else if i == owner.len() {
            assert(target[i] == '/');
        } else if i < head.len() {
            assert(target[i] == repo[i - owner.len() - 1]);
        } else {
            assert(class.has(behind[i - head.len()]));
        }
    }
    if m < target.len() {
        assert(target[m] == behind[n]);
    }
    lemma_span_is(target, class, m);
    let path = behind.take(n);
    assert(target.take(m) =~= owner + "/"@ + repo + path);
    if n > 0 {
        assert(path[0] == '/');
    }
    lemma_two_segments(owner, repo, path);
}

/// The line is a `jobs:` key at the margin with nothing behind it but a comment.
pub open spec fn opens_empty(line: Seq<char>) -> bool {
    &&& "jobs:"@.is_prefix_of(line)
    &&& trimmed(line.skip("jobs:"@.len() as int)).len() == 0 || "#"@.is_prefix_of(
        trimmed(line.skip("jobs:"@.len() as int)),
    )
}

proof fn lemma_first_significant(lines: Seq<Seq<char>>, k: int)
    requires
        0 <= k <= lines.len(),
        forall|j: int|
            0 <= j < k ==> trimmed(#[trigger] lines[j]).len() == 0 || "#"@.is_prefix_of(
                trimmed(lines[j]),
            ),
        k < lines.len() ==> trimmed(lines[k]).len() > 0 && !"#"@.is_prefix_of(trimmed(lines[k])),
    ensures
        continues_at_margin(lines) == (k == lines.len() || !white(lines[k][0])),
    decreases k,
{
    if k > 0 {
        assert(!significant(lines[0]));
        let rest = lines.drop_first();
        assert forall|j: int| 0 <= j < k - 1 implies trimmed(#[trigger] rest[j]).len() == 0
            || "#"@.is_prefix_of(trimmed(rest[j])) by {
            assert(rest[j] == lines[j + 1]);
        }
        if k < lines.len() {
            assert(rest[k - 1] == lines[k]);
        }
        lemma_first_significant(rest, k - 1);
    } else if lines.len() > 0 {
        if lines[0].len() == 0 {
            assert(trimmed(lines[0]) =~= seq![]) by {
                trimming_takes_the_white_space_at_the_ends(seq![], seq![], seq![]);
                assert(Seq::<char>::empty() + Seq::<char>::empty() + Seq::<char>::empty()
                    =~= lines[0]);
            }
        }
    }
}

/// A workflow holds no job exactly where the first `jobs:` key at the margin without a value
/// has nothing but blank lines and comments under it: the next line that holds anything, if
/// there is one, starts at the margin.
pub proof fn a_workflow_without_jobs_is_recognised(
    file: Seq<char>,
    text: Seq<char>,
    h: int,
    k: int,
)
    requires
        0 <= h < k <= lines_of(text).len(),
        opens_empty(lines_of(text)[h]),
        forall|j: int| 0 <= j < h ==> !opens_empty(#[trigger] lines_of(text)[j]),
        forall|j: int|
            h < j < k ==> trimmed(#[trigger] lines_of(text)[j]).len() == 0 || "#"@.is_prefix_of(
                trimmed(lines_of(text)[j]),
            ),
        k < lines_of(text).len() ==> trimmed(lines_of(text)[k]).len() > 0 && !"#"@.is_prefix_of(
            trimmed(lines_of(text)[k]),
        ),
    ensures
        info_of(file, text).empty_jobs <==> k == lines_of(text).len() || !white(
            lines_of(text)[k][0],
        ),
{
    let lines = lines_of(text);
    lemma_empty_jobs_at(lines, h);
    let rest = lines.skip(h + 1);
    assert forall|j: int| 0 <= j < k - h - 1 implies trimmed(#[trigger] rest[j]).len() == 0
        || "#"@.is_prefix_of(trimmed(rest[j])) by {
        assert(rest[j] == lines[j + h + 1]);
    }
    if k < lines.len() {
        assert(rest[k - h - 1] == lines[k]);
    }
    lemma_first_significant(rest, k - h - 1);
}

/// A workflow without such a key is not taken for one without jobs.
pub proof fn jobs_with_a_value_are_not_empty(file: Seq<char>, text: Seq<char>)
    requires
        forall|j: int|
            0 <= j < lines_of(text).len() ==> !opens_empty(#[trigger] lines_of(text)[j]),
    ensures
        !info_of(file, text).empty_jobs,
{
    lemma_no_empty_jobs(lines_of(text));
}

proof fn lemma_no_empty_jobs(lines: Seq<Seq<char>>)
    requires
        forall|j: int| 0 <= j < lines.len() ==> !opens_empty(#[trigger] lines[j]),
    ensures
        !empty_jobs_in(lines),
    decreases lines.len(),
{
    if lines.len() > 0 {
        let rest = lines.drop_first();
        assert(!opens_empty(lines[0]));
        assert forall|j: int| 0 <= j < rest.len() implies !opens_empty(#[trigger] rest[j]) by {
            assert(rest[j] == lines[j + 1]);
        }
        lemma_no_empty_jobs(rest);
    }
}

proof fn lemma_jobs_line_is_significant(line: Seq<char>)
    requires
        "jobs:"@.is_prefix_of(line),
    ensures
        significant(line),
{
    reveal_strlit("jobs:");
    reveal_strlit("#");
    let w = CharClass::White;
    assert(line.subrange(0, 5)[0] == 'j');
    assert(line[0] == 'j');
    let n = span_back(line, w) as int;
    lemma_span_back_has(line, w);
    let t = line.take(line.len() - n);
    let b = line.skip(line.len() - n);
    if t.len() == 0 {
        assert(w.has(line[0]));
    }
    assert(t.last() == line[line.len() - n - 1]);
    assert forall|i: int| 0 <= i < b.len() implies white(#[trigger] b[i]) by {
        assert(w.has(line[line.len() - n + i]));
    }
    trimming_takes_the_white_space_at_the_ends(seq![], t, b);
    assert(Seq::<char>::empty() + t + b =~= line);
    assert(trimmed(line) == t);
    assert("#"@ =~= seq!['#']);
    lemma_edges(t, '#', "#"@);
}

proof fn lemma_empty_jobs_at(lines: Seq<Seq<char>>, h: int)
    requires
        0 <= h < lines.len(),
        opens_empty(lines[h]),
        forall|j: int| 0 <= j < h ==> !opens_empty(#[trigger] lines[j]),
    ensures
        empty_jobs_in(lines) == continues_at_margin(lines.skip(h + 1)),
    decreases h,
{
    if h > 0 {
        let rest = lines.drop_first();
        assert(!opens_empty(lines[0]));
        assert forall|j: int| 0 <= j < h - 1 implies !opens_empty(#[trigger] rest[j]) by {
            assert(rest[j] == lines[j + 1]);
        }
        lemma_empty_jobs_at(rest, h - 1);
        assert(rest.skip(h) =~= lines.skip(h + 1));
    } else {
        lemma_jobs_line_is_significant(lines[0]);
        assert(lines.drop_first() =~= lines.skip(1));
    }
}

/// A workflow has a path filter exactly where a line that begins with `paths:` stands ahead of
/// every `jobs:` header at the margin.
pub proof fn a_path_filter_stands_ahead_of_the_jobs(file: Seq<char>, text: Seq<char>, h: int)
    requires
        0 <= h <= lines_of(text).len(),
        h < lines_of(text).len() ==> indent_of(lines_of(text)[h]) == 0 && "jobs:"@.is_prefix_of(
            trimmed(lines_of(text)[h]),
        ),
        forall|j: int|
            0 <= j < h ==> !(indent_of(#[trigger] lines_of(text)[j]) == 0 && "jobs:"@.is_prefix_of(
                trimmed(lines_of(text)[j]),
            )),
    ensures
        info_of(file, text).path_filtered <==> exists|i: int|
            0 <= i < h && "paths:"@.is_prefix_of(trimmed(#[trigger] lines_of(text)[i])),
{
    let lines = lines_of(text);
    if exists|i: int| 0 <= i < h && "paths:"@.is_prefix_of(trimmed(#[trigger] lines[i])) {
        let i = choose|i: int| 0 <= i < h && "paths:"@.is_prefix_of(trimmed(#[trigger] lines[i]));
        assert forall|k: int| 0 <= k <= i implies !jobs_header(#[trigger] lines[k]) by {}
        assert(path_filtered_in(lines));
    }
    if path_filtered_in(lines) {
        let i = choose|i: int|
            0 <= i < lines.len() && "paths:"@.is_prefix_of(trimmed(#[trigger] lines[i])) && forall|
                k: int,
            |
                0 <= k <= i ==> !jobs_header(#[trigger] lines[k]);
        if i >= h {
            assert(!jobs_header(lines[h]));
        }
    }
}

/// The kind of a workflow goes by what its file, its name and its text, in lower case, speak
/// of. What lints workflows comes first, then what proves, then what scans for secrets or
/// vulnerabilities, then what builds or lints; what speaks of none of these is of no kind.
pub proof fn the_kind_goes_by_the_words(file: Seq<char>, text: Seq<char>)
    ensures
        ({
            let info = info_of(file, text);
            let name = match info.name {
                Some(name) => name,
                None => ""@,
            };
            let hay = lower(file + " "@ + name + " "@ + text);
            let lints = holds_text(hay, "workflow"@) && (holds_text(hay, "lint"@) || holds_text(
                hay,
                "security linter"@,
            )) || holds_text(file, "workflow-linter"@) || holds_text(hay, ".github/workflows"@) && (
            holds_text(hay, "spdx"@) || holds_text(hay, "pinned"@) || holds_text(
                hay,
                "permissions:"@,
            ));
            let proves = holds_text(hay, "gnatprove"@) || holds_text(hay, "coqc"@) || holds_text(
                hay,
                "lean"@,
            ) || holds_text(hay, "agda"@) || holds_text(hay, "isabelle"@) || holds_text(
                hay,
                "echidna"@,
            ) || holds_text(hay, "proof-check"@);
            let scans = holds_text(hay, "trufflehog"@) || holds_text(hay, "gitleaks"@)
                || holds_text(hay, "codeql"@) || holds_text(hay, "scorecard"@) || holds_text(
                hay,
                "secret-scan"@,
            ) || holds_text(hay, "cargo audit"@) || holds_text(hay, "cargo-audit"@);
            let builds = holds_text(hay, "shellcheck"@) || holds_text(hay, "cargo build"@)
                || holds_text(hay, "cargo test"@) || holds_text(hay, "podman build"@)
                || holds_text(hay, "nerdctl build"@) || holds_text(hay, "docker build"@)
                || holds_text(hay, "container-build"@) || holds_text(hay, "npm "@) || holds_text(
                hay,
                "make "@,
            ) || holds_text(hay, "just build"@);
            &&& info.kind == WorkflowKind::Hygiene <==> lints
            &&& info.kind == WorkflowKind::Proof <==> !lints && proves
            &&& info.kind == WorkflowKind::Security <==> !lints && !proves && scans
            &&& info.kind == WorkflowKind::CodeBuild <==> !lints && !proves && !scans && builds
        }),
{
}

/// What a workflow uses and calls is what its lines use and call, each once, in the order in
/// which they come up.
pub proof fn uses_come_from_the_lines(file: Seq<char>, text: Seq<char>)
    ensures
        info_of(file, text).external_uses == distinct(
            gathered(
                lines_of(text).len() as int,
                |i: int|
                    match used_target(lines_of(text)[i]) {
                        Some(target) => normalized(target),
                        None => None,
                    },
            ),
        ),
        info_of(file, text).reusable_repos == distinct(
            gathered(lines_of(text).len() as int, |i: int| reused_repo(lines_of(text)[i])),
        ),
        info_of(file, text).retired_descriptile_policy == retired_in(text),
{
    let lines = lines_of(text);
    let n = lines.len() as int;
    let f = |i: int| external_at(lines, i);
    let g = |i: int|
        match used_target(lines_of(text)[i]) {
            Some(target) => normalized(target),
            None => None,
        };
    lemma_gathered_alike(n, f, g);
}

} // verus!
