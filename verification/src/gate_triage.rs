//! The `gate_triage` directive: the fingerprints of scanners that did not run, and
//! where a gate applies.
//!
//! A directive that is absent, or that is not recognised, yields no fingerprint that
//! could match, and says that its gate applies here.
use vstd::prelude::*;

use crate::context::{array_in, extract_array};
use crate::polarity::{
    any_usable, Applicability, ApplicabilityModel, DeclarationModel, RepoDeclaration, ScannerModel,
    ScannerSignature, SignatureModel, SignatureSet, VacuitySignature,
};
use crate::text::{
    all_white, before, drop_front, find, found_at, front, holds_text, lacks, lemma_edges,
    lemma_found, lemma_last_line, lemma_lines_step, lemma_span_bound, lemma_span_has,
    lemma_span_is, lines, lines_of, occurs_at, one_line, skip_front, span, span_from, starts_with, strip_prefix, stripped, take_before, take_front,
    trim, trimmed, white, without_cr, CharClass,
};

verus! {

/// Where the directive lives in a checkout.
pub const DIRECTIVE_PATH: &'static str = ".machine_readable/bot_directives/gate_triage.a2ml";

/// The header that opens the table of one scanner.
pub const SIGNATURE_TABLE: &'static str = "[[gate-triage.detection.signatures]]";

/// The manifest that is looked at where the directive names none.
pub const DEFAULT_MANIFEST: &'static str = "0-AI-MANIFEST.a2ml";

/// `text`, or nothing where it is absent.
pub open spec fn text_or_empty(text: Option<Seq<char>>) -> Seq<char> {
    match text {
        Some(text) => text,
        None => seq![],
    }
}

/// The first line of `s` with its line break.
pub open spec fn first_line(s: Seq<char>) -> Seq<char> {
    let n = span(s, CharClass::IsNot('\n')) as int;
    if n < s.len() {
        s.take(n + 1)
    } else {
        s
    }
}

/// Does the line open a table or a section?
pub open spec fn opens_table(line: Seq<char>) -> bool {
    "["@.is_prefix_of(drop_front(line, CharClass::White))
}

/// `s` up to the first line that opens a table or a section.
pub open spec fn until_header(s: Seq<char>) -> Seq<char>
    decreases s.len(),
{
    if s.len() == 0 || opens_table(first_line(s)) {
        seq![]
    } else {
        proof {
            lemma_span_bound(s, CharClass::IsNot('\n'));
        }
        first_line(s) + until_header(s.skip(first_line(s).len() as int))
    }
}

/// The body of a section, or all of the text where the section is absent.
pub open spec fn section_in(raw: Seq<char>, header: Seq<char>) -> Seq<char> {
    match found_at(raw, header) {
        Some(k) => until_header(raw.skip(k + header.len())),
        None => raw,
    }
}

/// What follows each `sep` in `raw`, up to the next.
pub open spec fn parts_after(raw: Seq<char>, sep: Seq<char>) -> Seq<Seq<char>>
    decreases raw.len(),
{
    match found_at(raw, sep) {
        Some(k) => if sep.len() > 0 && 0 <= k && k + sep.len() <= raw.len() {
            let rest = raw.skip(k + sep.len());
            seq![before(rest, sep)] + parts_after(rest, sep)
        } else {
            seq![]
        },
        None => seq![],
    }
}

/// The quoted text that a line assigns to `key`: a comment assigns nothing.
pub open spec fn assigned(line: Seq<char>, key: Seq<char>) -> Option<Seq<char>> {
    let t = trimmed(line);
    if "#"@.is_prefix_of(t) {
        None
    } else {
        match stripped(t, key) {
            Some(rest) => assigned_value(drop_front(rest, CharClass::White)),
            None => None,
        }
    }
}

/// The quoted text that follows the sign of an assignment.
pub open spec fn assigned_value(rest: Seq<char>) -> Option<Seq<char>> {
    let value = match stripped(rest, "="@) {
        Some(value) => Some(value),
        None => stripped(rest, ":"@),
    };
    match value {
        Some(value) => match stripped(drop_front(value, CharClass::White), "\""@) {
            Some(open) => {
                let inner = front(open, CharClass::IsNot('"'));
                if inner.len() < open.len() {
                    Some(inner)
                } else {
                    None
                }
            },
            None => None,
        },
        None => None,
    }
}

/// The text that the first line to assign one assigns to `key`.
pub open spec fn value_in(lines: Seq<Seq<char>>, key: Seq<char>) -> Option<Seq<char>>
    decreases lines.len(),
{
    if lines.len() == 0 {
        None
    } else {
        match assigned(lines[0], key) {
            Some(value) => Some(value),
            None => value_in(lines.drop_first(), key),
        }
    }
}

/// [`value_in`], or `default`.
pub open spec fn value_or(text: Seq<char>, key: Seq<char>, default: Seq<char>) -> Seq<char> {
    match value_in(lines_of(text), key) {
        Some(value) => value,
        None => default,
    }
}

/// The fingerprint whose halves a text assigns to these keys.
pub open spec fn signature_in(
    text: Seq<char>,
    skipped: Seq<char>,
    success: Seq<char>,
) -> SignatureModel {
    SignatureModel {
        skipped_steps: array_in(lines_of(text), skipped),
        success_steps: array_in(lines_of(text), success),
    }
}

/// The fingerprint of one scanner's table.
pub open spec fn scanner_in(table: Seq<char>) -> ScannerModel {
    ScannerModel {
        scanner: value_or(table, "scanner"@, "unnamed"@),
        signature: signature_in(table, "skipped-steps"@, "success-steps"@),
    }
}

/// The usable fingerprints of the first `n` tables.
pub open spec fn scanners_in(tables: Seq<Seq<char>>, n: int) -> Seq<ScannerModel>
    decreases n,
{
    if n <= 0 {
        seq![]
    } else {
        let scanner = scanner_in(until_header(tables[n - 1]));
        if scanner.signature.usable() {
            scanners_in(tables, n - 1).push(scanner)
        } else {
            scanners_in(tables, n - 1)
        }
    }
}

/// The usable fingerprints of a directive's tables.
pub open spec fn tabled(raw: Seq<char>) -> Seq<ScannerModel> {
    let tables = parts_after(raw, SIGNATURE_TABLE@);
    scanners_in(tables, tables.len() as int)
}

/// The fingerprint of a directive that has no tables but a pair of keys.
pub open spec fn flat(raw: Seq<char>) -> SignatureModel {
    signature_in(raw, "signature-skipped-steps"@, "signature-success-steps"@)
}

/// The fingerprints of a directive: those of its tables, or that of its pair of keys
/// where no table has a usable one.
pub open spec fn signatures_in(raw: Seq<char>) -> Seq<ScannerModel> {
    if tabled(raw).len() == 0 && flat(raw).usable() {
        seq![ScannerModel { scanner: "legacy-flat-keys"@, signature: flat(raw) }]
    } else {
        tabled(raw)
    }
}

/// The section of a directive that says where its gate applies.
pub open spec fn applicability_section(raw: Seq<char>) -> Seq<char> {
    section_in(raw, "[gate-triage.applicability]"@)
}

/// Where a directive says that its gate applies.
pub open spec fn applicability_in(raw: Seq<char>) -> ApplicabilityModel {
    let section = lines_of(applicability_section(raw));
    ApplicabilityModel {
        runs_for_operator_types: array_in(section, "runs-for-operator-types"@),
        runs_on_channels: array_in(section, "runs-on-channels"@),
    }
}

/// The manifest that holds the repository's declaration.
pub open spec fn manifest_in(raw: Seq<char>) -> Seq<char> {
    value_or(applicability_section(raw), "manifest-file"@, DEFAULT_MANIFEST@)
}

/// What the manifest declares under the keys that the directive names.
pub open spec fn declaration_in(raw: Seq<char>, manifest: Seq<char>) -> DeclarationModel {
    let section = applicability_section(raw);
    DeclarationModel {
        operator_type: value_in(
            lines_of(manifest),
            value_or(section, "operator-type-key"@, "@gitforge_OperatorType"@),
        ),
        channel: value_in(lines_of(manifest), value_or(section, "channel-key"@, "@channel"@)),
    }
}

fn present(text: Option<&str>) -> (r: &str)
    ensures
        r@ == text_or_empty(text.deep_view()),
{
    match text {
        Some(text) => text,
        None => {
            proof {
                reveal_strlit("");
                assert(""@ =~= Seq::<char>::empty());
            }
            ""
        },
    }
}

/// The fingerprints of the directive, where it could be read.
pub fn load_signatures(directive: Option<&str>) -> (r: SignatureSet)
    ensures
        r.deep_view() == signatures_in(text_or_empty(directive.deep_view())),
{
    parse_signatures(present(directive))
}

/// The fingerprints of a directive.
pub fn parse_signatures(raw: &str) -> (r: SignatureSet)
    ensures
        r.deep_view() == signatures_in(raw@),
{
    proof {
        reveal_strlit("[[gate-triage.detection.signatures]]");
    }
    let tables: Vec<String> = split_after(raw, SIGNATURE_TABLE);
    let ghost m = tables.deep_view();
    let mut out: Vec<ScannerSignature> = Vec::new();
    let mut i: usize = 0;
    assert(out.deep_view() =~= seq![]);
    while i < tables.len()
        invariant
            i <= tables@.len(),
            m == tables.deep_view(),
            out.deep_view() == scanners_in(m, i as int),
        decreases tables@.len() - i,
    {
        assert(m[i as int] == tables@[i as int]@);
        let body: &str = until_next_header(tables[i].as_str());
        let signature = VacuitySignature {
            skipped_steps: extract_array(body, "skipped-steps"),
            success_steps: extract_array(body, "success-steps"),
        };
        let ghost sofar = out.deep_view();
        if signature.is_usable() {
            let scanner: String = scalar_or(body, "scanner", "unnamed");
            out.push(ScannerSignature { scanner, signature });
            assert(out.deep_view() =~= sofar.push(scanner_in(body@)));
        }
        i += 1;
    }
    if out.len() == 0 {
        let legacy = VacuitySignature {
            skipped_steps: extract_array(raw, "signature-skipped-steps"),
            success_steps: extract_array(raw, "signature-success-steps"),
        };
        if legacy.is_usable() {
            return SignatureSet::single("legacy-flat-keys", legacy);
        }
    }
    SignatureSet::new(out)
}

/// Where this gate applies, as the directive says where it could be read.
pub fn load_applicability(directive: Option<&str>) -> (r: Applicability)
    ensures
        r.deep_view() == applicability_in(text_or_empty(directive.deep_view())),
{
    parse_applicability(present(directive))
}

/// Where a directive says that its gate applies.
pub fn parse_applicability(raw: &str) -> (r: Applicability)
    ensures
        r.deep_view() == applicability_in(raw@),
{
    let section: &str = section_of(raw, "[gate-triage.applicability]");
    Applicability {
        runs_for_operator_types: extract_array(section, "runs-for-operator-types"),
        runs_on_channels: extract_array(section, "runs-on-channels"),
    }
}

/// The manifest that holds the repository's declaration: the host reads it and hands
/// its text to [`load_declaration`].
pub fn manifest_named(directive: Option<&str>) -> (r: String)
    ensures
        r@ == manifest_in(text_or_empty(directive.deep_view())),
{
    let section: &str = section_of(present(directive), "[gate-triage.applicability]");
    scalar_or(section, "manifest-file", DEFAULT_MANIFEST)
}

/// What the repository declares about itself, from the directive and from the
/// manifest that it names, where they could be read.
pub fn load_declaration(directive: Option<&str>, manifest: Option<&str>) -> (r: RepoDeclaration)
    ensures
        r.deep_view() == declaration_in(
            text_or_empty(directive.deep_view()),
            text_or_empty(manifest.deep_view()),
        ),
{
    let section: &str = section_of(present(directive), "[gate-triage.applicability]");
    let op_key: String = scalar_or(section, "operator-type-key", "@gitforge_OperatorType");
    let ch_key: String = scalar_or(section, "channel-key", "@channel");
    let manifest: &str = present(manifest);
    RepoDeclaration {
        operator_type: extract_scalar(manifest, &op_key),
        channel: extract_scalar(manifest, &ch_key),
    }
}

/// See [`parts_after`].
fn split_after(raw: &str, sep: &str) -> (r: Vec<String>)
    requires
        sep@.len() > 0,
    ensures
        r.deep_view() == parts_after(raw@, sep@),
{
    let mut out: Vec<String> = Vec::new();
    let mut rest: &str = raw;
    let len: usize = sep.unicode_len();
    assert(out.deep_view() + parts_after(raw@, sep@) =~= parts_after(raw@, sep@));
    loop
        invariant
            sep@.len() > 0,
            len == sep@.len(),
            parts_after(raw@, sep@) == out.deep_view() + parts_after(rest@, sep@),
        decreases rest@.len(),
    {
        match find(rest, sep) {
            Some(k) => {
                let ghost sofar = out.deep_view();
                let ghost whole = rest@;
                let n: usize = rest.unicode_len();
                rest = rest.substring_char(k + len, n);
                assert(rest@ =~= whole.skip(k + sep@.len()));
                let part: String = take_before(rest, sep).to_owned();
                out.push(part);
                assert(out.deep_view() =~= sofar.push(part@));
                assert(out.deep_view() + parts_after(rest@, sep@) =~= sofar + (seq![part@]
                    + parts_after(rest@, sep@)));
            },
            None => {
                assert(out.deep_view() + Seq::<Seq<char>>::empty() =~= out.deep_view());
                return out;
            },
        }
    }
}

/// See [`until_header`].
fn until_next_header(chunk: &str) -> (r: &str)
    ensures
        r@ == until_header(chunk@),
{
    let v: Vec<char> = crate::text::chars_of(chunk);
    let mut at: usize = 0;
    assert(v@.skip(0) =~= chunk@);
    assert(v@.take(0) + until_header(chunk@) =~= until_header(chunk@));
    while at < v.len()
        invariant
            at <= v@.len(),
            v@ == chunk@,
            until_header(chunk@) == v@.take(at as int) + until_header(v@.skip(at as int)),
        decreases v@.len() - at,
    {
        let ghost rest = v@.skip(at as int);
        let n: usize = span_from(&v, at, CharClass::IsNot('\n'));
        let end: usize = if at + n < v.len() { at + n + 1 } else { at + n };
        let line: &str = chunk.substring_char(at, end);
        assert(line@ =~= first_line(rest));
        if starts_with(skip_front(line, CharClass::White), "[") {
            assert(v@.take(at as int) + Seq::<char>::empty() =~= v@.take(at as int));
            return chunk.substring_char(0, at);
        }
        proof {
            assert(rest.skip(line@.len() as int) =~= v@.skip(end as int));
            assert(v@.take(at as int) + (line@ + until_header(v@.skip(end as int))) =~= v@.take(
                end as int,
            ) + until_header(v@.skip(end as int)));
        }
        at = end;
    }
    assert(v@.take(v@.len() as int) + Seq::<char>::empty() =~= chunk@);
    chunk
}

/// See [`section_in`].
fn section_of<'a>(raw: &'a str, header: &str) -> (r: &'a str)
    ensures
        r@ == section_in(raw@, header@),
{
    match find(raw, header) {
        Some(k) => {
            let n: usize = raw.unicode_len();
            let len: usize = header.unicode_len();
            let rest: &'a str = raw.substring_char(k + len, n);
            assert(rest@ =~= raw@.skip(k + header@.len()));
            until_next_header(rest)
        },
        None => raw,
    }
}

fn value_on(line: &str, key: &str) -> (r: Option<String>)
    ensures
        r.deep_view() == assigned(line@, key@),
{
    let t: &str = trim(line);
    if starts_with(t, "#") {
        return None;
    }
    let rest: &str = match strip_prefix(t, key) {
        Some(rest) => skip_front(rest, CharClass::White),
        None => {
            return None;
        },
    };
    let value: &str = match strip_prefix(rest, "=") {
        Some(value) => value,
        None => match strip_prefix(rest, ":") {
            Some(value) => value,
            None => {
                return None;
            },
        },
    };
    match strip_prefix(skip_front(value, CharClass::White), "\"") {
        Some(open) => {
            let inner: &str = take_front(open, CharClass::IsNot('"'));
            if inner.unicode_len() < open.unicode_len() {
                Some(inner.to_owned())
            } else {
                None
            }
        },
        None => None,
    }
}

fn extract_scalar(text: &str, key: &str) -> (r: Option<String>)
    ensures
        r.deep_view() == value_in(lines_of(text@), key@),
{
    let all: Vec<String> = lines(text);
    let ghost m = all.deep_view();
    let mut i: usize = 0;
    assert(m.skip(0) =~= m);
    while i < all.len()
        invariant
            i <= all@.len(),
            m == all.deep_view(),
            value_in(lines_of(text@), key@) == value_in(m.skip(i as int), key@),
        decreases all@.len() - i,
    {
        let line: &str = all[i].as_str();
        proof {
            assert(m.skip(i as int)[0] == line@);
            assert(m.skip(i as int).drop_first() =~= m.skip(i + 1));
        }
        let value: Option<String> = value_on(line, key);
        if value.is_some() {
            return value;
        }
        i += 1;
    }
    assert(m.skip(m.len() as int).len() == 0);
    None
}

fn scalar_or(text: &str, key: &str, default: &str) -> (r: String)
    ensures
        r@ == value_or(text@, key@, default@),
{
    match extract_scalar(text, key) {
        Some(value) => value,
        None => default.to_owned(),
    }
}

proof fn lemma_scanners_usable(tables: Seq<Seq<char>>, n: int)
    ensures
        forall|i: int|
            0 <= i < scanners_in(tables, n).len() ==> (#[trigger] scanners_in(
                tables,
                n,
            )[i]).signature.usable(),
    decreases n,
{
    if n > 0 {
        lemma_scanners_usable(tables, n - 1);
        let fewer = scanners_in(tables, n - 1);
        assert forall|i: int| 0 <= i < scanners_in(tables, n).len() implies (
        #[trigger] scanners_in(tables, n)[i]).signature.usable() by {
            if i < fewer.len() {
                assert(fewer[i].signature.usable());
            }
        }
    }
}

/// Every fingerprint of a directive is usable, so the number of them is the number of
/// scanners that are covered.
pub proof fn every_signature_carried_is_usable(raw: Seq<char>)
    ensures
        forall|i: int|
            0 <= i < signatures_in(raw).len() ==> (#[trigger] signatures_in(
                raw,
            )[i]).signature.usable(),
        any_usable(signatures_in(raw)) <==> signatures_in(raw).len() > 0,
{
    let tables = parts_after(raw, SIGNATURE_TABLE@);
    lemma_scanners_usable(tables, tables.len() as int);
    if signatures_in(raw).len() > 0 {
        assert(signatures_in(raw)[0].signature.usable());
    }
}

/// An absent directive detects nothing and says that its gate applies here.
pub proof fn an_absent_directive_is_silent()
    ensures
        !any_usable(signatures_in(text_or_empty(None))),
        applicability_in(text_or_empty(None)).undeclared(),
{
    let none = Seq::<char>::empty();
    lemma_found(none, SIGNATURE_TABLE@);
    lemma_found(none, "[gate-triage.applicability]"@);
    reveal_strlit("[[gate-triage.detection.signatures]]");
    reveal_strlit("[gate-triage.applicability]");
    assert(lines_of(none).len() == 0);
    assert(tabled(none).len() == 0);
}

/// The tables of a directive win over its pair of keys, so no scanner is read twice.
pub proof fn tables_win_over_the_pair_of_keys(raw: Seq<char>)
    ensures
        tabled(raw).len() > 0 ==> signatures_in(raw) == tabled(raw),
{
}

/// White space behind a line is of no account to whether it opens a table.
proof fn lemma_opens_table(line: Seq<char>, tail: Seq<char>)
    requires
        forall|i: int| 0 <= i < tail.len() ==> white(#[trigger] tail[i]),
    ensures
        opens_table(line + tail) == opens_table(line),
    decreases line.len() + tail.len(),
{
    reveal_strlit("[");
    let w = CharClass::White;
    let all = line + tail;
    if line.len() == 0 {
        assert(all =~= tail);
        assert forall|i: int| 0 <= i < tail.len() implies w.has(#[trigger] tail[i]) by {}
        lemma_span_is(tail, w, tail.len() as int);
        assert(drop_front(tail, w).len() == 0);
        assert(drop_front(line, w).len() == 0);
    } else if white(line[0]) {
        let rest = line.drop_first();
        assert(all.drop_first() =~= rest + tail);
        assert(all[0] == line[0]);
        lemma_opens_table(rest, tail);
        lemma_span_bound(rest, w);
        lemma_span_bound(rest + tail, w);
        assert(drop_front(line, w) =~= drop_front(rest, w));
        assert(drop_front(all, w) =~= drop_front(rest + tail, w));
    } else {
        assert(all[0] == line[0]);
        assert(drop_front(line, w) =~= line);
        assert(drop_front(all, w) =~= all);
        assert("["@.is_prefix_of(line) <==> line[0] == '[') by {
            assert(line.subrange(0, 1) =~= seq![line[0]]);
            assert("["@ =~= seq!['[']);
            if line[0] != '[' {
                assert(line.subrange(0, 1)[0] != "["@[0]);
            }
        }
        assert("["@.is_prefix_of(all) <==> all[0] == '[') by {
            assert(all.subrange(0, 1) =~= seq![all[0]]);
            assert("["@ =~= seq!['[']);
            if all[0] != '[' {
                assert(all.subrange(0, 1)[0] != "["@[0]);
            }
        }
    }
}

/// No line of a table's body opens another, so one scanner's keys are never read out of
/// the table of the next, nor out of a section that follows.
pub proof fn a_table_ends_at_the_next_header(s: Seq<char>)
    ensures
        forall|i: int|
            0 <= i < lines_of(until_header(s)).len() ==> !opens_table(
                #[trigger] lines_of(until_header(s))[i],
            ),
    decreases s.len(),
{
    if s.len() > 0 && !opens_table(first_line(s)) {
        let class = CharClass::IsNot('\n');
        let n = span(s, class) as int;
        lemma_span_has(s, class);
        let line = first_line(s);
        let rest = s.skip(line.len() as int);
        a_table_ends_at_the_next_header(rest);
        let body = until_header(s);
        let tail = until_header(rest);
        assert(body == line + tail);
        let a = s.take(n);
        assert forall|i: int| 0 <= i < a.len() implies #[trigger] a[i] != '\n' by {
            assert(class.has(s[i]));
        }
        if n < s.len() {
            reveal_strlit("\n");
            assert(s[n] == '\n');
            assert(line =~= a + "\n"@);
            assert(body =~= a + "\n"@ + tail);
            lemma_lines_step(a, tail);
            lemma_opens_table(a, "\n"@);
            if a.len() > 0 && a.last() == '\r' {
                lemma_opens_table(a.drop_last(), seq!['\r']);
                assert(a.drop_last() + seq!['\r'] =~= a);
            }
            assert(!opens_table(without_cr(a)));
            assert forall|i: int| 0 <= i < lines_of(body).len() implies !opens_table(
                #[trigger] lines_of(body)[i],
            ) by {
                if i > 0 {
                    assert(lines_of(body)[i] == lines_of(tail)[i - 1]);
                }
            }
        } else {
            assert(a =~= s);
            assert(rest.len() == 0);
            assert(body =~= s);
            lemma_last_line(s);
        }
    } else {
        assert(until_header(s).len() == 0);
    }
}

/// A line that opens with the key assigns what is quoted behind the `=` or the `:`, with
/// nothing but white space between.
pub proof fn a_quoted_value_is_assigned(
    line: Seq<char>,
    key: Seq<char>,
    gap: Seq<char>,
    sign: char,
    space: Seq<char>,
    value: Seq<char>,
    rest: Seq<char>,
)
    requires
        all_white(gap),
        all_white(space),
        sign == '=' || sign == ':',
        lacks(value, '"'),
        trimmed(line) == key + gap + seq![sign] + space + seq!['"'] + value + seq!['"'] + rest,
        trimmed(line)[0] != '#',
    ensures
        assigned(line, key) == Some(value),
{
    reveal_strlit("#");
    reveal_strlit("\"");
    assert("#"@ =~= seq!['#']);
    assert("\""@ =~= seq!['"']);
    let t = trimmed(line);
    lemma_edges(t, '#', "#"@);
    let open = value + seq!['"'] + rest;
    assert(t =~= key + gap + seq![sign] + space + seq!['"'] + open);
    lemma_behind_the_sign(t, key, gap, sign, space, '"', open);
    let quote = seq!['"'] + open;
    lemma_edges(quote, '"', "\""@);
    assert(quote.skip(1) =~= open);
    lemma_span_is(open, CharClass::IsNot('"'), value.len() as int);
    assert(front(open, CharClass::IsNot('"')) =~= value);
}

/// A comment assigns nothing, nor does a line that opens with anything but the key, one
/// where no sign follows the key, one where no quote follows the sign, and one whose quote is
/// not closed.
pub proof fn nothing_else_is_assigned(
    line: Seq<char>,
    key: Seq<char>,
    gap: Seq<char>,
    c: char,
    space: Seq<char>,
    d: char,
    rest: Seq<char>,
)
    requires
        all_white(gap),
        all_white(space),
        !white(c),
        !white(d),
    ensures
        trimmed(line).len() > 0 && trimmed(line)[0] == '#' ==> assigned(line, key) is None,
        !key.is_prefix_of(trimmed(line)) ==> assigned(line, key) is None,
        trimmed(line) == key + gap ==> assigned(line, key) is None,
        trimmed(line) == key + gap + seq![c] + rest && c != '=' && c != ':' ==> assigned(line, key)
            is None,
        trimmed(line) == key + gap + seq![c] + space + seq![d] + rest && d != '"' ==> assigned(
            line,
            key,
        ) is None,
        trimmed(line) == key + gap + seq![c] + space + seq!['"'] + rest && lacks(rest, '"')
            ==> assigned(line, key) is None,
{
    reveal_strlit("#");
    reveal_strlit("=");
    reveal_strlit(":");
    reveal_strlit("\"");
    assert("#"@ =~= seq!['#']);
    assert("="@ =~= seq!['=']);
    assert(":"@ =~= seq![':']);
    assert("\""@ =~= seq!['"']);
    let t = trimmed(line);
    let n = key.len() as int;
    lemma_edges(t, '#', "#"@);
    if t == key + gap {
        assert(t.skip(n) =~= gap);
        lemma_span_is(gap, CharClass::White, gap.len() as int);
        assert(drop_front(gap, CharClass::White).len() == 0);
    }
    if t == key + gap + seq![c] + rest && c != '=' && c != ':' {
        let signed = seq![c] + rest;
        assert(t.skip(n) =~= gap + signed);
        lemma_span_is(gap + signed, CharClass::White, gap.len() as int);
        assert(drop_front(gap + signed, CharClass::White) =~= signed);
        lemma_edges(signed, '=', "="@);
        lemma_edges(signed, ':', ":"@);
    }
    if t == key + gap + seq![c] + space + seq![d] + rest && d != '"' {
        lemma_behind_the_sign(t, key, gap, c, space, d, rest);
        let value = seq![d] + rest;
        lemma_edges(value, '"', "\""@);
    }
    if t == key + gap + seq![c] + space + seq!['"'] + rest && lacks(rest, '"') {
        lemma_behind_the_sign(t, key, gap, c, space, '"', rest);
        let value = seq!['"'] + rest;
        lemma_edges(value, '"', "\""@);
        assert(value.skip(1) =~= rest);
        lemma_span_is(rest, CharClass::IsNot('"'), rest.len() as int);
    }
}

proof fn lemma_behind_the_sign(
    t: Seq<char>,
    key: Seq<char>,
    gap: Seq<char>,
    c: char,
    space: Seq<char>,
    d: char,
    rest: Seq<char>,
)
    requires
        all_white(gap),
        all_white(space),
        !white(c),
        !white(d),
        t == key + gap + seq![c] + space + seq![d] + rest,
    ensures
        key.is_prefix_of(t),
        ({
            let signed = drop_front(t.skip(key.len() as int), CharClass::White);
            &&& "="@.is_prefix_of(signed) <==> c == '='
            &&& ":"@.is_prefix_of(signed) <==> c == ':'
            &&& drop_front(signed.skip(1), CharClass::White) == seq![d] + rest
        }),
        "="@.len() == 1,
        ":"@.len() == 1,
{
    reveal_strlit("=");
    reveal_strlit(":");
    assert("="@ =~= seq!['=']);
    assert(":"@ =~= seq![':']);
    let n = key.len() as int;
    let value = seq![d] + rest;
    let signed = seq![c] + space + value;
    assert(t.subrange(0, n) =~= key);
    assert(t.skip(n) =~= gap + signed);
    lemma_span_is(gap + signed, CharClass::White, gap.len() as int);
    assert(drop_front(gap + signed, CharClass::White) =~= signed);
    lemma_edges(signed, '=', "="@);
    lemma_edges(signed, ':', ":"@);
    assert(signed.skip(1) =~= space + value);
    lemma_span_is(space + value, CharClass::White, space.len() as int);
    assert(drop_front(space + value, CharClass::White) =~= value);
}

/// The value of a key is that of the first line that assigns it one, or its default.
pub proof fn the_first_value_counts(
    text: Seq<char>,
    key: Seq<char>,
    default: Seq<char>,
    k: int,
)
    requires
        0 <= k <= lines_of(text).len(),
        forall|j: int| 0 <= j < k ==> assigned(#[trigger] lines_of(text)[j], key) is None,
    ensures
        k == lines_of(text).len() ==> value_in(lines_of(text), key) is None && value_or(
            text,
            key,
            default,
        ) == default,
        k < lines_of(text).len() && assigned(lines_of(text)[k], key) is Some ==> value_in(
            lines_of(text),
            key,
        ) == assigned(lines_of(text)[k], key) && Some(value_or(text, key, default)) == assigned(
            lines_of(text)[k],
            key,
        ),
{
    lemma_first_value(lines_of(text), key, k);
}

proof fn lemma_first_value(lines: Seq<Seq<char>>, key: Seq<char>, k: int)
    requires
        0 <= k <= lines.len(),
        forall|j: int| 0 <= j < k ==> assigned(#[trigger] lines[j], key) is None,
    ensures
        k == lines.len() ==> value_in(lines, key) is None,
        k < lines.len() && assigned(lines[k], key) is Some ==> value_in(lines, key) == assigned(
            lines[k],
            key,
        ),
    decreases k,
{
    if k > 0 {
        let rest = lines.drop_first();
        assert(assigned(lines[0], key) is None);
        assert forall|j: int| 0 <= j < k - 1 implies assigned(#[trigger] rest[j], key) is None by {
            assert(rest[j] == lines[j + 1]);
        }
        lemma_first_value(rest, key, k - 1);
        if k < lines.len() {
            assert(rest[k - 1] == lines[k]);
        }
    }
}

/// A line opens a table exactly where its first character that is no white space is `[`.
pub proof fn a_bracket_opens_a_table(margin: Seq<char>, c: char, rest: Seq<char>)
    requires
        all_white(margin),
        !white(c),
    ensures
        opens_table(margin + seq![c] + rest) <==> c == '[',
        !opens_table(margin),
{
    reveal_strlit("[");
    assert("["@ =~= seq!['[']);
    let line = margin + seq![c] + rest;
    lemma_span_is(line, CharClass::White, margin.len() as int);
    assert(drop_front(line, CharClass::White) =~= seq![c] + rest);
    lemma_edges(seq![c] + rest, '[', "["@);
    lemma_span_is(margin, CharClass::White, margin.len() as int);
}

/// The body of a table is the text up to its end, or up to a line that opens a table.
pub proof fn a_body_runs_up_to_a_header(s: Seq<char>)
    ensures
        until_header(s).is_prefix_of(s),
        ({
            let n = until_header(s).len();
            n == s.len() || opens_table(first_line(s.skip(n as int)))
        }),
    decreases s.len(),
{
    lemma_span_bound(s, CharClass::IsNot('\n'));
    if s.len() == 0 || opens_table(first_line(s)) {
        assert(s.skip(0) =~= s);
        assert(until_header(s) =~= s.subrange(0, 0));
    } else {
        let line = first_line(s);
        let rest = s.skip(line.len() as int);
        a_body_runs_up_to_a_header(rest);
        let tail = until_header(rest);
        assert(line =~= s.take(line.len() as int));
        assert(tail == rest.subrange(0, tail.len() as int));
        assert((line + tail) =~= s.subrange(0, (line.len() + tail.len()) as int));
        assert(rest.skip(tail.len() as int) =~= s.skip((line.len() + tail.len()) as int));
    }
}

/// The first line of a text runs up to its first line break, and holds it.
pub proof fn the_first_line_runs_up_to_its_break(a: Seq<char>, rest: Seq<char>)
    requires
        one_line(a),
    ensures
        first_line(a + seq!['\n'] + rest) == a + seq!['\n'],
        first_line(a) == a,
{
    let class = CharClass::IsNot('\n');
    let s = a + seq!['\n'] + rest;
    lemma_span_is(s, class, a.len() as int);
    assert(s.take((a.len() + 1) as int) =~= a + seq!['\n']);
    lemma_span_is(a, class, a.len() as int);
}

proof fn lemma_found_first(raw: Seq<char>, needle: Seq<char>, n: int)
    requires
        occurs_at(raw, needle, n),
        forall|i: int| occurs_at(raw, needle, i) ==> n <= i,
    ensures
        found_at(raw, needle) == Some(n),
{
    lemma_found(raw, needle);
}

proof fn lemma_between(a: Seq<char>, b: Seq<char>, c: Seq<char>)
    ensures
        occurs_at(a + b + c, b, a.len() as int),
        (a + b + c).skip((a.len() + b.len()) as int) == c,
        (a + b + c).take(a.len() as int) == a,
{
    let n = a.len() as int;
    assert((a + b + c).subrange(n, n + b.len()) =~= b);
    assert((a + b + c).skip(n + b.len()) =~= c);
    assert((a + b + c).take(n) =~= a);
}

/// A section is the body behind the first occurrence of its header.
pub proof fn a_section_follows_its_header(a: Seq<char>, header: Seq<char>, rest: Seq<char>)
    requires
        forall|i: int| occurs_at(a + header + rest, header, i) ==> a.len() <= i,
    ensures
        section_in(a + header + rest, header) == until_header(rest),
{
    lemma_between(a, header, rest);
    lemma_found_first(a + header + rest, header, a.len() as int);
}

/// Where the header does not occur, the section is the whole text.
pub proof fn without_its_header_a_section_is_the_text(raw: Seq<char>, header: Seq<char>)
    requires
        !holds_text(raw, header),
    ensures
        section_in(raw, header) == raw,
{
    lemma_found(raw, header);
}

/// What follows a separator is a part, and runs up to the next separator.
pub proof fn a_part_runs_up_to_the_next_separator(
    a: Seq<char>,
    sep: Seq<char>,
    part: Seq<char>,
    rest: Seq<char>,
)
    requires
        sep.len() > 0,
        forall|i: int| occurs_at(a + sep + (part + sep + rest), sep, i) ==> a.len() <= i,
        forall|i: int| occurs_at(part + sep + rest, sep, i) ==> part.len() <= i,
    ensures
        parts_after(a + sep + (part + sep + rest), sep) == seq![part] + parts_after(
            part + sep + rest,
            sep,
        ),
{
    let tail = part + sep + rest;
    lemma_between(part, sep, rest);
    lemma_found_first(tail, sep, part.len() as int);
    lemma_between(a, sep, tail);
    lemma_found_first(a + sep + tail, sep, a.len() as int);
}

/// The last part runs up to the end, and a text without a separator has no parts.
pub proof fn the_last_part_runs_up_to_the_end(a: Seq<char>, sep: Seq<char>, rest: Seq<char>)
    requires
        sep.len() > 0,
        forall|i: int| occurs_at(a + sep + rest, sep, i) ==> a.len() <= i,
        !holds_text(rest, sep),
    ensures
        parts_after(a + sep + rest, sep) == seq![rest],
        parts_after(rest, sep).len() == 0,
{
    lemma_found(rest, sep);
    lemma_between(a, sep, rest);
    lemma_found_first(a + sep + rest, sep, a.len() as int);
    assert(seq![rest] + parts_after(rest, sep) =~= seq![rest]);
}

/// Each table adds the fingerprint that its own body assigns, under the name that it assigns,
/// where both halves of it are there; a table that lacks a half adds nothing.
pub proof fn each_table_adds_its_scanner(tables: Seq<Seq<char>>, table: Seq<char>)
    ensures
        scanners_in(seq![], 0).len() == 0,
        ({
            let before = scanners_in(tables, tables.len() as int);
            let after = scanners_in(tables.push(table), (tables.len() + 1) as int);
            let body = until_header(table);
            let skipped = array_in(lines_of(body), "skipped-steps"@);
            let success = array_in(lines_of(body), "success-steps"@);
            if skipped.len() > 0 && success.len() > 0 {
                after == before.push(
                    ScannerModel {
                        scanner: match value_in(lines_of(body), "scanner"@) {
                            Some(name) => name,
                            None => "unnamed"@,
                        },
                        signature: SignatureModel { skipped_steps: skipped, success_steps: success },
                    },
                )
            } else {
                after == before
            }
        }),
{
    lemma_scanners_front(tables, tables.push(table), tables.len() as int);
}

proof fn lemma_scanners_front(a: Seq<Seq<char>>, b: Seq<Seq<char>>, n: int)
    requires
        0 <= n <= a.len() <= b.len(),
        forall|i: int| 0 <= i < a.len() ==> #[trigger] b[i] == a[i],
    ensures
        scanners_in(b, n) == scanners_in(a, n),
    decreases n,
{
    if n > 0 {
        lemma_scanners_front(a, b, n - 1);
        assert(b[n - 1] == a[n - 1]);
    }
}

/// The pair of keys counts exactly where no table yields a fingerprint and both of its halves
/// are there; otherwise the fingerprints are those of the tables.
pub proof fn the_pair_of_keys_is_a_fallback(raw: Seq<char>)
    ensures
        ({
            let tables = parts_after(raw, "[[gate-triage.detection.signatures]]"@);
            let found = scanners_in(tables, tables.len() as int);
            let skipped = array_in(lines_of(raw), "signature-skipped-steps"@);
            let success = array_in(lines_of(raw), "signature-success-steps"@);
            if found.len() == 0 && skipped.len() > 0 && success.len() > 0 {
                signatures_in(raw) == seq![
                    ScannerModel {
                        scanner: "legacy-flat-keys"@,
                        signature: SignatureModel { skipped_steps: skipped, success_steps: success },
                    },
                ]
            } else {
                signatures_in(raw) == found
            }
        }),
{
}

/// Where a gate applies, and where the declaration is found, is read out of the section on
/// applicability, each from its own key and with its own default; what is declared is read
/// out of the manifest, under the keys that the section names.
pub proof fn applicability_is_read_from_its_section(raw: Seq<char>, manifest: Seq<char>)
    ensures
        ({
            let section = section_in(raw, "[gate-triage.applicability]"@);
            let a = applicability_in(raw);
            let d = declaration_in(raw, manifest);
            &&& a.runs_for_operator_types == array_in(
                lines_of(section),
                "runs-for-operator-types"@,
            )
            &&& a.runs_on_channels == array_in(lines_of(section), "runs-on-channels"@)
            &&& match value_in(lines_of(section), "manifest-file"@) {
                Some(name) => manifest_in(raw) == name,
                None => manifest_in(raw) == "0-AI-MANIFEST.a2ml"@,
            }
            &&& match value_in(lines_of(section), "operator-type-key"@) {
                Some(key) => d.operator_type == value_in(lines_of(manifest), key),
                None => d.operator_type == value_in(
                    lines_of(manifest),
                    "@gitforge_OperatorType"@,
                ),
            }
            &&& match value_in(lines_of(section), "channel-key"@) {
                Some(key) => d.channel == value_in(lines_of(manifest), key),
                None => d.channel == value_in(lines_of(manifest), "@channel"@),
            }
        }),
{
}

} // verus!
