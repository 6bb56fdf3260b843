//! What a repository says about itself in its descriptiles.
//!
//! The reader never fails: a text that is absent, or of a shape that it does not
//! recognise, leaves a field empty.
use vstd::prelude::*;

use crate::text::{
    all_white, cat2, contains, copy_all, copy_option, drop_front, front, holds_text, lacks,
    lemma_edges, lemma_span_is, lemma_with_new, lines, lines_of, lower, push_new, skip_front,
    span_from, starts_with, strip_prefix, stripped, to_lower, trim, trimmed, white, with_new,
    CharClass,
};

verus! {

/// What a repository says about itself.
#[derive(Debug, PartialEq, Eq)]
pub struct RepoContext {
    /// What the repository is.
    pub is: Vec<String>,
    /// What the repository is not.
    pub is_not: Vec<String>,
    /// The `owner/repo` that it coordinates with.
    pub coordination_owner: Option<String>,
    /// The command of the golden path.
    pub golden_path: Option<String>,
    /// The languages and licences that it bans.
    pub banned_langs: Vec<String>,
    /// Its declared relationships.
    pub relationships: Vec<String>,
    /// Was any descriptile found?
    pub found: bool,
}

/// A [`RepoContext`] as a mathematical value.
pub struct ContextModel {
    pub is: Seq<Seq<char>>,
    pub is_not: Seq<Seq<char>>,
    pub coordination_owner: Option<Seq<char>>,
    pub golden_path: Option<Seq<char>>,
    pub banned_langs: Seq<Seq<char>>,
    pub relationships: Seq<Seq<char>>,
    pub found: bool,
}

impl DeepView for RepoContext {
    type V = ContextModel;

    open spec fn deep_view(&self) -> ContextModel {
        ContextModel {
            is: self.is.deep_view(),
            is_not: self.is_not.deep_view(),
            coordination_owner: self.coordination_owner.deep_view(),
            golden_path: self.golden_path.deep_view(),
            banned_langs: self.banned_langs.deep_view(),
            relationships: self.relationships.deep_view(),
            found: self.found,
        }
    }
}

impl Clone for RepoContext {
    fn clone(&self) -> (r: Self)
        ensures
            r.deep_view() == self.deep_view(),
    {
        RepoContext {
            is: copy_all(&self.is),
            is_not: copy_all(&self.is_not),
            coordination_owner: copy_option(&self.coordination_owner),
            golden_path: copy_option(&self.golden_path),
            banned_langs: copy_all(&self.banned_langs),
            relationships: copy_all(&self.relationships),
            found: self.found,
        }
    }
}

/// The context of a repository that says nothing.
pub open spec fn no_context() -> ContextModel {
    ContextModel {
        is: seq![],
        is_not: seq![],
        coordination_owner: None,
        golden_path: None,
        banned_langs: seq![],
        relationships: seq![],
        found: false,
    }
}

impl Default for RepoContext {
    fn default() -> (r: Self)
        ensures
            r.deep_view() == no_context(),
    {
        let r = RepoContext {
            is: Vec::new(),
            is_not: Vec::new(),
            coordination_owner: None,
            golden_path: None,
            banned_langs: Vec::new(),
            relationships: Vec::new(),
            found: false,
        };
        assert(r.is.deep_view() =~= seq![]);
        assert(r.is_not.deep_view() =~= seq![]);
        assert(r.banned_langs.deep_view() =~= seq![]);
        assert(r.relationships.deep_view() =~= seq![]);
        r
    }
}

/// What stands in double quotes on a line.
pub open spec fn quoted(line: Seq<char>) -> Seq<Seq<char>>
    decreases line.len(),
{
    let opened = drop_front(line, CharClass::IsNot('"'));
    if opened.len() == 0 {
        seq![]
    } else {
        let after = opened.drop_first();
        let inner = front(after, CharClass::IsNot('"'));
        if inner.len() == after.len() {
            seq![]
        } else {
            proof {
                crate::text::lemma_span_bound(line, CharClass::IsNot('"'));
                crate::text::lemma_span_bound(after, CharClass::IsNot('"'));
            }
            seq![inner] + quoted(after.skip((inner.len() + 1) as int))
        }
    }
}

/// Does the line assign to `key`, with `=` or with `:`?
pub open spec fn assigns(line: Seq<char>, key: Seq<char>) -> bool {
    match stripped(trimmed(line), key) {
        Some(rest) => {
            let rest = drop_front(rest, CharClass::White);
            "="@.is_prefix_of(rest) || ":"@.is_prefix_of(rest)
        },
        None => false,
    }
}

/// The first quoted text on the first line that assigns one to `key`.
pub open spec fn scalar_in(lines: Seq<Seq<char>>, key: Seq<char>) -> Option<Seq<char>>
    decreases lines.len(),
{
    if lines.len() == 0 {
        None
    } else if assigns(lines[0], key) && quoted(lines[0]).len() > 0 {
        Some(quoted(lines[0])[0])
    } else {
        scalar_in(lines.drop_first(), key)
    }
}

/// What is quoted on the lines up to the one that closes the array.
pub open spec fn array_rest(lines: Seq<Seq<char>>) -> Seq<Seq<char>>
    decreases lines.len(),
{
    if lines.len() == 0 {
        seq![]
    } else if holds_text(lines[0], "]"@) {
        quoted(lines[0])
    } else {
        quoted(lines[0]) + array_rest(lines.drop_first())
    }
}

/// What is quoted in the first array that is assigned to `key`, on one line or over
/// several.
pub open spec fn array_in(lines: Seq<Seq<char>>, key: Seq<char>) -> Seq<Seq<char>>
    decreases lines.len(),
{
    if lines.len() == 0 {
        seq![]
    } else if assigns(lines[0], key) && holds_text(lines[0], "["@) {
        array_rest(lines)
    } else {
        array_in(lines.drop_first(), key)
    }
}

/// A bare name stands for a repository of the estate's own owner.
pub open spec fn qualified(name: Seq<char>) -> Seq<char> {
    if holds_text(name, "/"@) {
        name
    } else {
        "hyperpolymath/"@ + name
    }
}

/// Does the line speak of a ban?
pub open spec fn signals_ban(line: Seq<char>) -> bool {
    let l = lower(line);
    holds_text(l, "banned"@) || holds_text(l, "never use"@) || holds_text(l, "deny"@)
        || holds_text(l, "agpl"@)
}

/// The languages and licences that a ban may name.
pub open spec fn ban_candidates() -> Seq<Seq<char>> {
    seq![
        "AGPL"@,
        "TypeScript"@,
        "Python"@,
        "Go"@,
        "Nix"@,
        "Node"@,
        "npm"@,
        "Ruby"@,
        "Perl"@,
        "Kotlin"@,
        "Swift"@,
    ]
}

/// `found` with those of the first `k` candidates that the line names.
pub open spec fn with_named(found: Seq<Seq<char>>, line: Seq<char>, k: int) -> Seq<Seq<char>>
    decreases k,
{
    if k <= 0 {
        found
    } else {
        let sofar = with_named(found, line, k - 1);
        if holds_text(line, ban_candidates()[k - 1]) {
            with_new(sofar, ban_candidates()[k - 1])
        } else {
            sofar
        }
    }
}

/// The candidates that the first `n` lines name where they speak of a ban, each once
/// and in the order in which they come up.
pub open spec fn banned_in(lines: Seq<Seq<char>>, n: int) -> Seq<Seq<char>>
    decreases n,
{
    if n <= 0 {
        seq![]
    } else if signals_ban(lines[n - 1]) {
        with_named(banned_in(lines, n - 1), lines[n - 1], ban_candidates().len() as int)
    } else {
        banned_in(lines, n - 1)
    }
}

/// A text as a list of one, or of none.
pub open spec fn as_list(text: Option<Seq<char>>) -> Seq<Seq<char>> {
    match text {
        Some(text) => seq![text],
        None => seq![],
    }
}

/// What the texts of the descriptiles say.
pub open spec fn context_of(ecosystem: Seq<char>, anchor: Seq<char>, agentic: Seq<char>) -> ContextModel {
    let eco = lines_of(ecosystem);
    let anc = lines_of(anchor);
    let age = lines_of(agentic);
    ContextModel {
        is: as_list(scalar_in(anc, "defines"@)),
        is_not: array_in(eco, "not"@),
        coordination_owner: match scalar_in(eco, "coordination"@) {
            Some(name) => Some(qualified(name)),
            None => None,
        },
        golden_path: scalar_in(anc, "command"@),
        banned_langs: banned_in(age, age.len() as int),
        relationships: array_in(eco, "related"@),
        found: false,
    }
}

impl RepoContext {
    /// The context from the texts of the four descriptiles; one that could not be
    /// read is passed as an empty text.
    pub fn load(ecosystem: &str, clade: &str, anchor: &str, agentic: &str) -> (r: Self)
        ensures
            r.deep_view() == (ContextModel {
                found: ecosystem@.len() > 0 || clade@.len() > 0 || anchor@.len() > 0
                    || agentic@.len() > 0,
                ..context_of(ecosystem@, anchor@, agentic@)
            }),
    {
        let mut r = RepoContext::from_sources(ecosystem, clade, anchor, agentic);
        r.found = ecosystem.unicode_len() > 0 || clade.unicode_len() > 0 || anchor.unicode_len()
            > 0 || agentic.unicode_len() > 0;
        r
    }

    /// The context from the texts of the descriptiles.
    pub fn from_sources(ecosystem: &str, _clade: &str, anchor: &str, agentic: &str) -> (r: Self)
        ensures
            r.deep_view() == context_of(ecosystem@, anchor@, agentic@),
    {
        let mut is: Vec<String> = Vec::new();
        assert(is.deep_view() =~= seq![]);
        if let Some(text) = extract_scalar(anchor, "defines") {
            is.push(text);
            assert(is.deep_view() =~= seq![text@]);
        }
        let coordination_owner: Option<String> = match extract_scalar(ecosystem, "coordination") {
            Some(name) => Some(normalise_owner(name)),
            None => None,
        };
        RepoContext {
            is,
            is_not: extract_array(ecosystem, "not"),
            coordination_owner,
            golden_path: extract_scalar(anchor, "command"),
            banned_langs: extract_banned(agentic),
            relationships: extract_array(ecosystem, "related"),
            found: false,
        }
    }
}

fn normalise_owner(raw: String) -> (r: String)
    ensures
        r@ == qualified(raw@),
{
    if contains(&raw, "/") {
        raw
    } else {
        cat2("hyperpolymath/", &raw)
    }
}

/// The candidate at `i`.
fn candidate(i: usize) -> (r: &'static str)
    requires
        i < ban_candidates().len(),
    ensures
        r@ == ban_candidates()[i as int],
{
    match i {
        0 => "AGPL",
        1 => "TypeScript",
        2 => "Python",
        3 => "Go",
        4 => "Nix",
        5 => "Node",
        6 => "npm",
        7 => "Ruby",
        8 => "Perl",
        9 => "Kotlin",
        _ => "Swift",
    }
}

fn line_signals_ban(line: &str) -> (r: bool)
    ensures
        r == signals_ban(line@),
{
    let l: String = to_lower(line);
    contains(&l, "banned") || contains(&l, "never use") || contains(&l, "deny") || contains(
        &l,
        "agpl",
    )
}

fn extract_banned(text: &str) -> (r: Vec<String>)
    ensures
        r.deep_view() == banned_in(lines_of(text@), lines_of(text@).len() as int),
{
    let all: Vec<String> = lines(text);
    let ghost m = all.deep_view();
    let mut out: Vec<String> = Vec::new();
    let mut i: usize = 0;
    assert(out.deep_view() =~= seq![]);
    while i < all.len()
        invariant
            i <= all@.len(),
            m == all.deep_view(),
            out.deep_view() == banned_in(m, i as int),
        decreases all@.len() - i,
    {
        let line: &str = all[i].as_str();
        assert(m[i as int] == line@);
        if line_signals_ban(line) {
            let ghost before = out.deep_view();
            let mut k: usize = 0;
            while k < 11
                invariant
                    k <= 11 == ban_candidates().len(),
                    out.deep_view() == with_named(before, line@, k as int),
                decreases 11 - k,
            {
                let name: &str = candidate(k);
                if contains(line, name) {
                    push_new(&mut out, name.to_owned());
                }
                k += 1;
            }
        }
        i += 1;
    }
    out
}

fn line_assigns(line: &str, key: &str) -> (r: bool)
    ensures
        r == assigns(line@, key@),
{
    match strip_prefix(trim(line), key) {
        Some(rest) => {
            let rest: &str = skip_front(rest, CharClass::White);
            starts_with(rest, "=") || starts_with(rest, ":")
        },
        None => false,
    }
}

/// Appends what is quoted on the line.
fn push_quoted(line: &str, out: &mut Vec<String>)
    ensures
        final(out).deep_view() == old(out).deep_view() + quoted(line@),
{
    let v: Vec<char> = crate::text::chars_of(line);
    let ghost start = out.deep_view();
    let mut i: usize = 0;
    assert(v@.skip(0) =~= line@);
    loop
        invariant
            i <= v@.len(),
            start + quoted(line@) == out.deep_view() + quoted(v@.skip(i as int)),
            start == old(out).deep_view(),
        decreases v@.len() - i,
    {
        let ghost rest = v@.skip(i as int);
        let ghost sofar = out.deep_view();
        let a: usize = span_from(&v, i, CharClass::IsNot('"'));
        let ghost opened = drop_front(rest, CharClass::IsNot('"'));
        assert(opened =~= v@.skip(i + a));
        if i + a == v.len() {
            assert(sofar + Seq::<Seq<char>>::empty() =~= sofar);
            return;
        }
        let j: usize = i + a + 1;
        let ghost after = opened.drop_first();
        assert(after =~= v@.skip(j as int));
        let n: usize = span_from(&v, j, CharClass::IsNot('"'));
        if j + n == v.len() {
            assert(sofar + Seq::<Seq<char>>::empty() =~= sofar);
            return;
        }
        let inner: String = crate::text::string_of(&v, j, j + n);
        assert(inner@ =~= front(after, CharClass::IsNot('"')));
        out.push(inner);
        proof {
            let tail = after.skip(n + 1);
            assert(tail =~= v@.skip(j + n + 1));
            assert(out.deep_view() =~= sofar.push(inner@));
            assert(out.deep_view() + quoted(tail) =~= sofar + (seq![inner@] + quoted(tail)));
        }
        i = j + n + 1;
    }
}

fn extract_scalar(text: &str, key: &str) -> (r: Option<String>)
    ensures
        r.deep_view() == scalar_in(lines_of(text@), key@),
{
    let all: Vec<String> = lines(text);
    let ghost m = all.deep_view();
    let mut i: usize = 0;
    assert(m.skip(0) =~= m);
    while i < all.len()
        invariant
            i <= all@.len(),
            m == all.deep_view(),
            scalar_in(lines_of(text@), key@) == scalar_in(m.skip(i as int), key@),
        decreases all@.len() - i,
    {
        let line: &str = all[i].as_str();
        proof {
            assert(m.skip(i as int)[0] == line@);
            assert(m.skip(i as int).drop_first() =~= m.skip(i + 1));
        }
        if line_assigns(line, key) {
            let mut values: Vec<String> = Vec::new();
            push_quoted(line, &mut values);
            assert(values.deep_view() =~= quoted(line@));
            if values.len() > 0 {
                assert(values.deep_view()[0] == values@[0]@);
                return Some(values[0].clone());
            }
        }
        i += 1;
    }
    assert(m.skip(m.len() as int).len() == 0);
    None
}

/// What is quoted in the first array that the text assigns to `key`.
pub(crate) fn extract_array(text: &str, key: &str) -> (r: Vec<String>)
    ensures
        r.deep_view() == array_in(lines_of(text@), key@),
{
    let all: Vec<String> = lines(text);
    let ghost m = all.deep_view();
    let ghost want = array_in(m, key@);
    let mut out: Vec<String> = Vec::new();
    let mut collecting: bool = false;
    let mut i: usize = 0;
    assert(m.skip(0) =~= m);
    assert(out.deep_view() =~= seq![]);
    while i < all.len()
        invariant
            i <= all@.len(),
            m == all.deep_view(),
            want == array_in(lines_of(text@), key@),
            collecting ==> want == out.deep_view() + array_rest(m.skip(i as int)),
            !collecting ==> out.deep_view() == Seq::<Seq<char>>::empty() && want == array_in(
                m.skip(i as int),
                key@,
            ),
        decreases all@.len() - i,
    {
        let line: &str = all[i].as_str();
        let ghost rest = m.skip(i as int);
        let ghost sofar = out.deep_view();
        proof {
            assert(rest[0] == line@);
            assert(rest.drop_first() =~= m.skip(i + 1));
        }
        if !collecting && line_assigns(line, key) && contains(line, "[") {
            collecting = true;
            assert(sofar + array_rest(rest) =~= array_rest(rest));
        }
        if collecting {
            push_quoted(line, &mut out);
            if contains(line, "]") {
                return out;
            }
            assert(sofar + (quoted(line@) + array_rest(m.skip(i + 1))) =~= out.deep_view()
                + array_rest(m.skip(i + 1)));
        }
        i += 1;
    }
    assert(m.skip(m.len() as int).len() == 0);
    assert(out.deep_view() + Seq::<Seq<char>>::empty() =~= out.deep_view());
    out
}

/// A repository without descriptiles has an empty context.
pub proof fn silence_yields_an_empty_context()
    ensures
        context_of(seq![], seq![], seq![]) == no_context(),
{
    assert(lines_of(seq![]).len() == 0);
    assert(context_of(seq![], seq![], seq![]).is =~= seq![]);
}

/// The owner that a repository coordinates with is always qualified.
pub proof fn the_coordination_owner_is_qualified(
    ecosystem: Seq<char>,
    anchor: Seq<char>,
    agentic: Seq<char>,
)
    ensures
        context_of(ecosystem, anchor, agentic).coordination_owner matches Some(owner)
            ==> holds_text(owner, "/"@),
{
    if let Some(name) = scalar_in(lines_of(ecosystem), "coordination"@) {
        if !holds_text(name, "/"@) {
            reveal_strlit("/");
            reveal_strlit("hyperpolymath/");
            let owner = "hyperpolymath/"@ + name;
            assert(owner.subrange(13, 14) =~= "/"@);
            assert(crate::text::occurs_at(owner, "/"@, 13));
        }
    }
}

/// What is read of a line is what stands between the first quote and the next, and so on
/// behind that; a quote that is not closed opens nothing.
pub proof fn what_stands_in_quotes(a: Seq<char>, q: Seq<char>, rest: Seq<char>)
    requires
        lacks(a, '"'),
        lacks(q, '"'),
    ensures
        quoted(a + seq!['"'] + q + seq!['"'] + rest) == seq![q] + quoted(rest),
        quoted(a + seq!['"'] + q).len() == 0,
        quoted(a).len() == 0,
{
    let class = CharClass::IsNot('"');
    lemma_span_is(a, class, a.len() as int);
    let unclosed = a + seq!['"'] + q;
    lemma_span_is(unclosed, class, a.len() as int);
    assert(unclosed.skip(a.len() as int).drop_first() =~= q);
    lemma_span_is(q, class, q.len() as int);
    let line = a + seq!['"'] + q + seq!['"'] + rest;
    lemma_span_is(line, class, a.len() as int);
    let after = q + seq!['"'] + rest;
    assert(line.skip(a.len() as int).drop_first() =~= after);
    lemma_span_is(after, class, q.len() as int);
    assert(front(after, class) =~= q);
    assert(after.skip((q.len() + 1) as int) =~= rest);
}

/// A line assigns to a key that opens it and that `=` or `:` follows, with nothing but white
/// space between, and to no other.
pub proof fn an_assignment_has_its_sign(
    line: Seq<char>,
    key: Seq<char>,
    gap: Seq<char>,
    c: char,
    rest: Seq<char>,
)
    requires
        all_white(gap),
        !white(c),
    ensures
        trimmed(line) == key + gap + seq![c] + rest ==> (assigns(line, key) <==> c == '=' || c
            == ':'),
        trimmed(line) == key + gap ==> !assigns(line, key),
        !key.is_prefix_of(trimmed(line)) ==> !assigns(line, key),
{
    reveal_strlit("=");
    reveal_strlit(":");
    assert("="@ =~= seq!['=']);
    assert(":"@ =~= seq![':']);
    let t = trimmed(line);
    let n = key.len() as int;
    if t == key + gap + seq![c] + rest {
        assert(t.subrange(0, n) =~= key);
        let tail = gap + seq![c] + rest;
        assert(t.skip(n) =~= tail);
        lemma_span_is(tail, CharClass::White, gap.len() as int);
        assert(drop_front(tail, CharClass::White) =~= seq![c] + rest);
        lemma_edges(seq![c] + rest, '=', "="@);
        lemma_edges(seq![c] + rest, ':', ":"@);
    }
    if t == key + gap {
        assert(t.subrange(0, n) =~= key);
        assert(t.skip(n) =~= gap);
        lemma_span_is(gap, CharClass::White, gap.len() as int);
        assert(drop_front(gap, CharClass::White).len() == 0);
    }
}

/// The value of a key is the first quoted text on the first line that assigns one, whatever
/// follows; a key that no line assigns one to has no value.
pub proof fn the_first_assignment_counts(lines: Seq<Seq<char>>, key: Seq<char>, k: int)
    requires
        0 <= k <= lines.len(),
        forall|j: int|
            0 <= j < k ==> !(assigns(#[trigger] lines[j], key) && quoted(lines[j]).len() > 0),
    ensures
        k == lines.len() ==> scalar_in(lines, key) is None,
        k < lines.len() && assigns(lines[k], key) && quoted(lines[k]).len() > 0 ==> scalar_in(
            lines,
            key,
        ) == Some(quoted(lines[k])[0]),
    decreases k,
{
    if k > 0 {
        let rest = lines.drop_first();
        assert(!(assigns(lines[0], key) && quoted(lines[0]).len() > 0));
        assert forall|j: int| 0 <= j < k - 1 implies !(assigns(#[trigger] rest[j], key) && quoted(
            rest[j],
        ).len() > 0) by {
            assert(rest[j] == lines[j + 1]);
        }
        the_first_assignment_counts(rest, key, k - 1);
        if k < lines.len() {
            assert(rest[k - 1] == lines[k]);
        }
    }
}

/// What is quoted on each of the lines.
pub open spec fn quotes_on(lines: Seq<Seq<char>>) -> Seq<Seq<Seq<char>>> {
    Seq::new(lines.len(), |i: int| quoted(lines[i]))
}

proof fn lemma_array_rest(lines: Seq<Seq<char>>, e: int)
    requires
        0 < e <= lines.len(),
        forall|j: int| 0 <= j < e - 1 ==> !holds_text(#[trigger] lines[j], "]"@),
        e == lines.len() || holds_text(lines[e - 1], "]"@),
    ensures
        array_rest(lines) == quotes_on(lines.take(e)).flatten(),
    decreases e,
{
    let parts = quotes_on(lines.take(e));
    let rest = lines.drop_first();
    assert(parts.first() == quoted(lines[0]));
    assert(parts.drop_first() =~= quotes_on(rest.take(e - 1)));
    assert(parts.flatten() == parts.first() + parts.drop_first().flatten());
    if e == 1 {
        assert(parts.drop_first().len() == 0);
        assert(parts.drop_first().flatten() =~= seq![]);
        assert(quoted(lines[0]) + Seq::<Seq<char>>::empty() =~= quoted(lines[0]));
        if !holds_text(lines[0], "]"@) {
            assert(array_rest(rest) =~= seq![]);
        }
    } else {
        assert(!holds_text(lines[0], "]"@));
        assert forall|j: int| 0 <= j < e - 2 implies !holds_text(#[trigger] rest[j], "]"@) by {
            assert(rest[j] == lines[j + 1]);
        }
        assert(rest[e - 2] == lines[e - 1]);
        lemma_array_rest(rest, e - 1);
    }
}

/// An array is what is quoted on the lines from the first that assigns to its key and opens
/// it up to the first from there that closes it, or up to the end; a key that no line opens
/// an array for has none.
pub proof fn an_array_runs_from_bracket_to_bracket(
    lines: Seq<Seq<char>>,
    key: Seq<char>,
    k: int,
    e: int,
)
    requires
        0 <= k <= lines.len(),
        forall|j: int|
            0 <= j < k ==> !(assigns(#[trigger] lines[j], key) && holds_text(lines[j], "["@)),
        k < lines.len() ==> {
            &&& assigns(lines[k], key) && holds_text(lines[k], "["@)
            &&& k < e <= lines.len()
            &&& forall|j: int| k <= j < e - 1 ==> !holds_text(#[trigger] lines[j], "]"@)
            &&& e == lines.len() || holds_text(lines[e - 1], "]"@)
        },
    ensures
        k == lines.len() ==> array_in(lines, key).len() == 0,
        k < lines.len() ==> array_in(lines, key) == quotes_on(
            lines.subrange(k, e),
        ).flatten(),
    decreases k,
{
    if k > 0 {
        let rest = lines.drop_first();
        assert(!(assigns(lines[0], key) && holds_text(lines[0], "["@)));
        assert forall|j: int| 0 <= j < k - 1 implies !(assigns(#[trigger] rest[j], key)
            && holds_text(rest[j], "["@)) by {
            assert(rest[j] == lines[j + 1]);
        }
        if k < lines.len() {
            assert(rest[k - 1] == lines[k]);
            assert(rest[e - 2] == lines[e - 1]);
            assert forall|j: int| k - 1 <= j < e - 2 implies !holds_text(
                #[trigger] rest[j],
                "]"@,
            ) by {
                assert(rest[j] == lines[j + 1]);
            }
            assert(rest.subrange(k - 1, e - 1) =~= lines.subrange(k, e));
        }
        an_array_runs_from_bracket_to_bracket(rest, key, k - 1, e - 1);
    } else if lines.len() > 0 {
        lemma_array_rest(lines, e);
        assert(lines.take(e) =~= lines.subrange(0, e));
    }
}

/// An owner that names its repository stands as it is; a bare name is one of the estate's.
pub proof fn a_bare_owner_is_of_the_estate(name: Seq<char>)
    ensures
        holds_text(name, "/"@) ==> qualified(name) == name,
        !holds_text(name, "/"@) ==> qualified(name) == "hyperpolymath/"@ + name,
{
}

proof fn lemma_named(found: Seq<Seq<char>>, line: Seq<char>, k: int)
    requires
        0 <= k <= ban_candidates().len(),
    ensures
        forall|x: Seq<char>| #[trigger]
            with_named(found, line, k).contains(x) <==> found.contains(x) || (holds_text(line, x)
                && ban_candidates().take(k).contains(x)),
        found.no_duplicates() ==> with_named(found, line, k).no_duplicates(),
    decreases k,
{
    if k > 0 {
        lemma_named(found, line, k - 1);
        let item = ban_candidates()[k - 1];
        let sofar = with_named(found, line, k - 1);
        lemma_with_new(sofar, item);
        let fewer = ban_candidates().take(k - 1);
        let more = ban_candidates().take(k);
        assert(more =~= fewer.push(item));
        assert forall|x: Seq<char>| more.contains(x) <==> fewer.contains(x) || x == item by {
            if more.contains(x) {
                let i = choose|i: int| 0 <= i < more.len() && more[i] == x;
                if i < k - 1 {
                    assert(fewer[i] == x);
                }
            }
            if fewer.contains(x) {
                let i = choose|i: int| 0 <= i < fewer.len() && fewer[i] == x;
                assert(more[i] == x);
            }
            assert(more[k - 1] == item);
        }
        assert forall|x: Seq<char>| #[trigger]
            with_named(found, line, k).contains(x) <==> found.contains(x) || (holds_text(line, x)
                && more.contains(x)) by {
            assert(sofar.contains(x) <==> found.contains(x) || (holds_text(line, x)
                && fewer.contains(x)));
        }
    }
}

/// Does the word name a language or a licence that can be banned?
pub open spec fn bannable(name: Seq<char>) -> bool {
    ||| name == "AGPL"@
    ||| name == "TypeScript"@
    ||| name == "Python"@
    ||| name == "Go"@
    ||| name == "Nix"@
    ||| name == "Node"@
    ||| name == "npm"@
    ||| name == "Ruby"@
    ||| name == "Perl"@
    ||| name == "Kotlin"@
    ||| name == "Swift"@
}

proof fn lemma_bannable(name: Seq<char>)
    ensures
        bannable(name) <==> ban_candidates().contains(name),
{
    let c = ban_candidates();
    assert(c[0] == "AGPL"@ && c[1] == "TypeScript"@ && c[2] == "Python"@ && c[3] == "Go"@ && c[4]
        == "Nix"@ && c[5] == "Node"@ && c[6] == "npm"@ && c[7] == "Ruby"@ && c[8] == "Perl"@ && c[9]
        == "Kotlin"@ && c[10] == "Swift"@);
}

/// A name is banned exactly where it can be and one line, in whatever case, speaks of a ban
/// and holds the name as it is written; each is banned once.
pub proof fn a_ban_is_a_name_on_a_line_that_bans(lines: Seq<Seq<char>>, n: int, name: Seq<char>)
    requires
        0 <= n <= lines.len(),
    ensures
        banned_in(lines, n).contains(name) <==> bannable(name) && exists|i: int|
            0 <= i < n && holds_text(#[trigger] lines[i], name) && (holds_text(
                lower(lines[i]),
                "banned"@,
            ) || holds_text(lower(lines[i]), "never use"@) || holds_text(lower(lines[i]), "deny"@)
                || holds_text(lower(lines[i]), "agpl"@)),
        banned_in(lines, n).no_duplicates(),
    decreases n,
{
    if n > 0 {
        a_ban_is_a_name_on_a_line_that_bans(lines, n - 1, name);
        let line = lines[n - 1];
        let before = banned_in(lines, n - 1);
        let all = ban_candidates();
        lemma_named(before, line, all.len() as int);
        assert(all.take(all.len() as int) =~= all);
        lemma_bannable(name);
        if signals_ban(line) {
            assert(with_named(before, line, all.len() as int).contains(name) <==> before.contains(
                name,
            ) || (holds_text(line, name) && all.contains(name)));
        }
    }
}

/// Each field of the context comes from its own key, of its own descriptile.
pub proof fn each_field_comes_from_its_key(
    ecosystem: Seq<char>,
    anchor: Seq<char>,
    agentic: Seq<char>,
)
    ensures
        ({
            let c = context_of(ecosystem, anchor, agentic);
            &&& match scalar_in(lines_of(anchor), "defines"@) {
                Some(text) => c.is == seq![text],
                None => c.is.len() == 0,
            }
            &&& c.golden_path == scalar_in(lines_of(anchor), "command"@)
            &&& c.is_not == array_in(lines_of(ecosystem), "not"@)
            &&& c.relationships == array_in(lines_of(ecosystem), "related"@)
            &&& match scalar_in(lines_of(ecosystem), "coordination"@) {
                Some(name) => c.coordination_owner == Some(qualified(name)),
                None => c.coordination_owner is None,
            }
            &&& c.banned_langs == banned_in(lines_of(agentic), lines_of(agentic).len() as int)
        }),
{
}

} // verus!
