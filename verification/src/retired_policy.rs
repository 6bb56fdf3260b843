//! Detection of workflow steps that check for a descriptile at a retired place.
//!
//! The scan reads the `run` scalars of a workflow and looks at the commands in
//! them. What stands outside a `run` scalar is ignored, and so is a command that
//! does not open with one of the known tests for a file.
use vstd::prelude::*;

use crate::text::{
    all_white, cat2, cat3, drop_back, drop_front, ends_with, from_byte, is_empty,
    lemma_span_back_is, lemma_span_is, lines, lines_of, same, skip_back, skip_bytes, skip_front,
    span, starts_with, strip_prefix, stripped, trim, trimmed,
    trimming_takes_the_white_space_at_the_ends, white, words, words_of, CharClass,
};

verus! {

/// The string that a YAML document is, where `text` is the document of a scalar.
pub uninterp spec fn yaml_string(text: Seq<char>) -> Option<Seq<char>>;

/// Decodes `text` with `serde_yaml_ng::from_str::<String>`: a string, or nothing
/// where that function reports an error. The claim is that the result depends on
/// the text alone; what it is for a given text is left to that function, which
/// implements the grammar of YAML.
#[verifier::external_body]
fn decode_yaml_string(text: &str) -> (r: Option<String>)
    ensures
        r.deep_view() == yaml_string(text@),
{
    serde_yaml_ng::from_str::<String>(text).ok()
}

/// Is `word` a shell keyword that a condition follows?
pub open spec fn condition_keyword(word: Seq<char>) -> bool {
    word == "if"@ || word == "elif"@ || word == "while"@ || word == "until"@
}

/// `words` without a leading `!`.
pub open spec fn unnegated(words: Seq<Seq<char>>) -> Seq<Seq<char>> {
    if words.len() > 0 && words[0] == "!"@ {
        words.drop_first()
    } else {
        words
    }
}

/// The file whose existence a command tests before anything else.
pub open spec fn tested_file(command: Seq<char>) -> Option<Seq<char>> {
    let w = words_of(command);
    let w = unnegated(
        if w.len() > 0 && condition_keyword(w[0]) {
            w.drop_first()
        } else {
            w
        },
    );
    if w.len() >= 2 && w[0] == "check_file"@ {
        Some(w[1])
    } else if w.len() > 0 && (w[0] == "test"@ || w[0] == "["@ || w[0] == "[["@) {
        let args = unnegated(w.drop_first());
        if args.len() >= 2 && (args[0] == "-f"@ || args[0] == "-e"@) {
            Some(args[1])
        } else {
            None
        }
    } else {
        None
    }
}

/// A shell word without trailing semicolons and the quotes around it.
pub open spec fn bare_word(word: Seq<char>) -> Seq<char> {
    drop_front(
        drop_back(drop_back(word, CharClass::Is(';')), CharClass::Quote),
        CharClass::Quote,
    )
}

/// Is `path` one of the two retired places of the descriptile `name`?
pub open spec fn retired_place(path: Seq<char>, name: Seq<char>) -> bool {
    path == ".machine_readable/"@ + name + ".a2ml"@ || path == ".machine_readable/6a2/"@ + name
        + ".a2ml"@
}

/// Is `path` a retired place of a known descriptile?
pub open spec fn retired_path(path: Seq<char>) -> bool {
    retired_place(path, "STATE"@) || retired_place(path, "META"@) || retired_place(
        path,
        "ECOSYSTEM"@,
    ) || retired_place(path, "AGENTIC"@) || retired_place(path, "NEUROSYM"@) || retired_place(
        path,
        "PLAYBOOK"@,
    ) || retired_place(path, "ANCHOR"@)
}

/// Does a command test for a descriptile at a retired place?
pub open spec fn command_offends(command: Seq<char>) -> bool {
    match tested_file(command) {
        Some(word) => retired_path(bare_word(word)),
        None => false,
    }
}

/// Is one of the commands an offence?
pub open spec fn any_offends(commands: Seq<Seq<char>>) -> bool {
    exists|i: int| 0 <= i < commands.len() && command_offends(#[trigger] commands[i])
}

/// Does a decoded block scalar hold a command line that offends?
pub open spec fn decoded_offends(decoded: Option<Seq<char>>) -> bool {
    match decoded {
        Some(script) => any_offends(lines_of(script)),
        None => false,
    }
}

/// Where the scan of a workflow stands.
pub enum ScanModel {
    /// Outside any block scalar.
    Outside,
    /// In the block scalar of a `run` key that stands at `depth`.
    Run { depth: int, scalar: Seq<char> },
    /// In a block scalar of another key that stands at `depth`.
    Other { depth: int },
}

/// Does the line hold white space alone?
pub open spec fn blank(line: Seq<char>) -> bool {
    trimmed(line).len() == 0
}

/// How many characters of white space open the line.
pub open spec fn depth_of(line: Seq<char>) -> nat {
    span(line, CharClass::White)
}

/// The line from the byte at its depth on, without white space at the end.
pub open spec fn body_of(line: Seq<char>) -> Seq<char> {
    drop_back(from_byte(line, depth_of(line) as int), CharClass::White)
}

/// What follows the `run` key that opens `body`, if one does.
pub open spec fn run_value(body: Seq<char>) -> Option<Seq<char>> {
    match stripped(body, "- run:"@) {
        Some(rest) => Some(drop_front(rest, CharClass::White)),
        None => match stripped(body, "run:"@) {
            Some(rest) => Some(drop_front(rest, CharClass::White)),
            None => None,
        },
    }
}

/// Does the value announce a block scalar?
pub open spec fn opens_block(value: Seq<char>) -> bool {
    "|"@.is_prefix_of(value) || ">"@.is_prefix_of(value)
}

/// Does the line end in the announcement of a block scalar?
pub open spec fn announces_block(body: Seq<char>) -> bool {
    "|"@.is_suffix_of(body) || ">"@.is_suffix_of(body) || "|-"@.is_suffix_of(body)
        || ">-"@.is_suffix_of(body)
}

/// The command of an inline `run` value: a quoted value is decoded as YAML.
pub open spec fn inline_command(value: Seq<char>) -> Option<Seq<char>> {
    let scalar = trimmed(value);
    if "'"@.is_prefix_of(scalar) || "\""@.is_prefix_of(scalar) {
        yaml_string(scalar)
    } else {
        Some(scalar)
    }
}

/// Does the line hold an inline `run` value that offends?
pub open spec fn inline_offends(line: Seq<char>) -> bool {
    match run_value(body_of(line)) {
        Some(value) => !opens_block(value) && match inline_command(value) {
            Some(command) => command_offends(trimmed(command)),
            None => false,
        },
        None => false,
    }
}

/// The state of the scan after a line that opens something new.
pub open spec fn opened(line: Seq<char>) -> ScanModel {
    match run_value(body_of(line)) {
        Some(value) => if opens_block(value) {
            ScanModel::Run { depth: depth_of(line) as int, scalar: value + "\n"@ }
        } else {
            ScanModel::Outside
        },
        None => if announces_block(body_of(line)) {
            ScanModel::Other { depth: depth_of(line) as int }
        } else {
            ScanModel::Outside
        },
    }
}

impl ScanModel {
    /// Does the line belong to the block scalar that the scan is in?
    pub open spec fn continued_by(self, line: Seq<char>) -> bool {
        match self {
            ScanModel::Outside => false,
            ScanModel::Run { depth, .. } => depth_of(line) > depth,
            ScanModel::Other { depth } => depth_of(line) > depth,
        }
    }

    /// The state of the scan after `line`.
    pub open spec fn after(self, line: Seq<char>) -> ScanModel {
        if blank(line) {
            match self {
                ScanModel::Run { depth, scalar } => ScanModel::Run { depth, scalar: scalar + "\n"@ },
                _ => self,
            }
        } else if self.continued_by(line) {
            match self {
                ScanModel::Run { depth, scalar } => ScanModel::Run {
                    depth,
                    scalar: scalar + line + "\n"@,
                },
                _ => self,
            }
        } else {
            opened(line)
        }
    }

    /// Does the block scalar that the scan is in offend?
    pub open spec fn offends(self) -> bool {
        match self {
            ScanModel::Run { scalar, .. } => decoded_offends(yaml_string(scalar)),
            _ => false,
        }
    }
}

/// Does any `run` scalar in `lines`, or the one that `state` is in, offend?
pub open spec fn retired_from(state: ScanModel, lines: Seq<Seq<char>>) -> bool
    decreases lines.len(),
{
    if lines.len() == 0 {
        state.offends()
    } else {
        let line = lines[0];
        let ends = !blank(line) && !state.continued_by(line);
        ||| ends && state.offends()
        ||| ends && inline_offends(line)
        ||| retired_from(state.after(line), lines.drop_first())
    }
}

/// Does the workflow check for a descriptile at a retired place?
pub open spec fn retired_in(text: Seq<char>) -> bool {
    retired_from(ScanModel::Outside, lines_of(text))
}

/// Where the scan of a workflow stands.
enum Scan {
    Outside,
    Run { depth: usize, scalar: String },
    Other { depth: usize },
}

impl Scan {
    spec fn model(&self) -> ScanModel {
        match self {
            Scan::Outside => ScanModel::Outside,
            Scan::Run { depth, scalar } => ScanModel::Run { depth: *depth as int, scalar: scalar@ },
            Scan::Other { depth } => ScanModel::Other { depth: *depth as int },
        }
    }

    fn is_continued_by(&self, depth: usize, line: &str) -> (r: bool)
        requires
            depth == depth_of(line@),
        ensures
            r == self.model().continued_by(line@),
    {
        match self {
            Scan::Outside => false,
            Scan::Run { depth: d, .. } => depth > *d,
            Scan::Other { depth: d } => depth > *d,
        }
    }

    fn is_retired(&self) -> (r: bool)
        ensures
            r == self.model().offends(),
    {
        match self {
            Scan::Run { scalar, .. } => decoded_scalar_has_retired_policy(scalar),
            _ => false,
        }
    }

    /// The state after a line that belongs to the block scalar.
    fn extended(self, line: &str) -> (r: Scan)
        ensures
            r.model() == match self.model() {
                ScanModel::Run { depth, scalar } => ScanModel::Run {
                    depth,
                    scalar: scalar + line@ + "\n"@,
                },
                other => other,
            },
    {
        match self {
            Scan::Run { depth, scalar } => {
                let mut scalar: String = scalar;
                scalar.append(line);
                scalar.append("\n");
                Scan::Run { depth, scalar }
            },
            other => other,
        }
    }
}

/// The number of white space characters that open `line`.
fn depth(line: &str) -> (r: usize)
    ensures
        r == depth_of(line@),
{
    let v: Vec<char> = crate::text::chars_of(line);
    assert(v@.skip(0) =~= line@);
    crate::text::span_from(&v, 0, CharClass::White)
}

fn value_of_run(body: &str) -> (r: Option<&str>)
    ensures
        r.deep_view() == run_value(body@),
{
    match strip_prefix(body, "- run:") {
        Some(rest) => Some(skip_front(rest, CharClass::White)),
        None => match strip_prefix(body, "run:") {
            Some(rest) => Some(skip_front(rest, CharClass::White)),
            None => None,
        },
    }
}

/// Does an inline `run` value hold a command that offends, once it is decoded?
pub fn inline_has_retired_policy(decoded: Option<&str>) -> (r: bool)
    ensures
        r == (decoded is Some && command_offends(trimmed(decoded->Some_0@))),
{
    match decoded {
        Some(command) => command_has_retired_policy(trim(command)),
        None => false,
    }
}

/// Does a `run` scalar of the workflow check for a descriptile at a retired place?
pub fn has_retired_descriptile_policy(text: &str) -> (r: bool)
    ensures
        r == retired_in(text@),
{
    let all: Vec<String> = lines(text);
    let ghost m = all.deep_view();
    let mut state: Scan = Scan::Outside;
    let mut i: usize = 0;
    assert(m.skip(0) =~= m);
    while i < all.len()
        invariant
            i <= all@.len(),
            m == all.deep_view(),
            retired_from(ScanModel::Outside, m) == retired_from(state.model(), m.skip(i as int)),
            m == lines_of(text@),
        decreases all@.len() - i,
    {
        let line: &str = all[i].as_str();
        let ghost before = state.model();
        proof {
            assert(m.skip(i as int)[0] == line@);
            assert(m.skip(i as int).drop_first() =~= m.skip(i + 1));
        }
        i += 1;
        if is_empty(trim(line)) {
            state = match state {
                Scan::Run { depth, scalar } => {
                    let mut scalar: String = scalar;
                    scalar.append("\n");
                    Scan::Run { depth, scalar }
                },
                other => other,
            };
            continue;
        }
        let indent: usize = depth(line);
        if state.is_continued_by(indent, line) {
            state = state.extended(line);
            continue;
        }
        if state.is_retired() {
            return true;
        }
        let body: &str = skip_back(skip_bytes(line, indent), CharClass::White);
        match value_of_run(body) {
            Some(value) => {
                if starts_with(value, "|") || starts_with(value, ">") {
                    state = Scan::Run { depth: indent, scalar: cat2(value, "\n") };
                } else {
                    if inline_is_retired(value) {
                        return true;
                    }
                    state = Scan::Outside;
                }
            },
            None => {
                if ends_with(body, "|") || ends_with(body, ">") || ends_with(body, "|-")
                    || ends_with(body, ">-") {
                    state = Scan::Other { depth: indent };
                } else {
                    state = Scan::Outside;
                }
            },
        }
    }
    assert(m.skip(m.len() as int).len() == 0);
    state.is_retired()
}

fn inline_is_retired(value: &str) -> (r: bool)
    ensures
        r == match inline_command(value@) {
            Some(command) => command_offends(trimmed(command)),
            None => false,
        },
{
    let scalar: &str = trim(value);
    if starts_with(scalar, "'") || starts_with(scalar, "\"") {
        let decoded: Option<String> = decode_yaml_string(scalar);
        match &decoded {
            Some(command) => inline_has_retired_policy(Some(command.as_str())),
            None => inline_has_retired_policy(None),
        }
    } else {
        inline_has_retired_policy(Some(scalar))
    }
}

/// Does a YAML block scalar hold a command line that offends?
pub fn decoded_scalar_has_retired_policy(scalar: &str) -> (r: bool)
    ensures
        r == decoded_offends(yaml_string(scalar@)),
{
    let decoded: Option<String> = decode_yaml_string(scalar);
    match &decoded {
        Some(script) => script_has_retired_policy(Some(script.as_str())),
        None => script_has_retired_policy(None),
    }
}

/// Does the script that a block scalar was decoded to hold a command line that
/// offends?
pub fn script_has_retired_policy(decoded: Option<&str>) -> (r: bool)
    ensures
        r == decoded_offends(decoded.deep_view()),
{
    let script: &str = match decoded {
        Some(script) => script,
        None => {
            return false;
        },
    };
    let all: Vec<String> = lines(script);
    let ghost m = all.deep_view();
    let mut i: usize = 0;
    while i < all.len()
        invariant
            i <= all@.len(),
            m == all.deep_view(),
            decoded_offends(decoded.deep_view()) == any_offends(m),
            forall|k: int| 0 <= k < i ==> !command_offends(#[trigger] m[k]),
        decreases all@.len() - i,
    {
        assert(all@[i as int]@ == m[i as int]);
        if command_has_retired_policy(all[i].as_str()) {
            return true;
        }
        i += 1;
    }
    false
}

/// Is there a word at `i`, and is it `want`?
fn word_is(words: &Vec<String>, i: usize, want: &str) -> (r: bool)
    ensures
        r == (i < words@.len() && words.deep_view()[i as int] == want@),
{
    i < words.len() && same(words[i].as_str(), want)
}

/// Does the command open with a test for a descriptile at a retired place?
pub fn command_has_retired_policy(command: &str) -> (r: bool)
    ensures
        r == command_offends(command@),
{
    let w: Vec<String> = words(command);
    let ghost m = w.deep_view();
    assert(m.skip(0) =~= m);
    let mut i: usize = 0;
    if word_is(&w, 0, "if") || word_is(&w, 0, "elif") || word_is(&w, 0, "while") || word_is(
        &w,
        0,
        "until",
    ) {
        i = 1;
        assert(m.drop_first() =~= m.skip(1));
    }
    let ghost head = m.skip(i as int);
    if word_is(&w, i, "!") {
        assert(head.drop_first() =~= m.skip(i + 1));
        i += 1;
    }
    let ghost rest = m.skip(i as int);
    assert(rest == unnegated(head));
    if word_is(&w, i, "check_file") {
        return i + 1 < w.len() && word_is_retired(w[i + 1].as_str());
    }
    if word_is(&w, i, "test") || word_is(&w, i, "[") || word_is(&w, i, "[[") {
        let mut k: usize = i + 1;
        let ghost args = m.skip(k as int);
        assert(args =~= rest.drop_first());
        if word_is(&w, k, "!") {
            assert(args.drop_first() =~= m.skip(k + 1));
            k += 1;
        }
        assert(m.skip(k as int) == unnegated(args));
        if word_is(&w, k, "-f") || word_is(&w, k, "-e") {
            return k + 1 < w.len() && word_is_retired(w[k + 1].as_str());
        }
    }
    false
}

fn word_is_retired(word: &str) -> (r: bool)
    ensures
        r == retired_path(bare_word(word@)),
{
    let path: &str = skip_front(
        skip_back(skip_back(word, CharClass::Is(';')), CharClass::Quote),
        CharClass::Quote,
    );
    is_retired_place(path, "STATE") || is_retired_place(path, "META") || is_retired_place(
        path,
        "ECOSYSTEM",
    ) || is_retired_place(path, "AGENTIC") || is_retired_place(path, "NEUROSYM")
        || is_retired_place(path, "PLAYBOOK") || is_retired_place(path, "ANCHOR")
}

fn is_retired_place(path: &str, name: &str) -> (r: bool)
    ensures
        r == retired_place(path@, name@),
{
    let plain: String = cat3(".machine_readable/", name, ".a2ml");
    let nested: String = cat3(".machine_readable/6a2/", name, ".a2ml");
    same(path, &plain) || same(path, &nested)
}

proof fn lemma_no_run_key(state: ScanModel, lines: Seq<Seq<char>>)
    requires
        !(state is Run),
        forall|i: int|
            0 <= i < lines.len() ==> run_value(body_of(#[trigger] lines[i])) is None,
    ensures
        !retired_from(state, lines),
    decreases lines.len(),
{
    if lines.len() > 0 {
        let line = lines[0];
        let rest = lines.drop_first();
        assert(run_value(body_of(line)) is None);
        assert forall|i: int| 0 <= i < rest.len() implies run_value(
            body_of(#[trigger] rest[i]),
        ) is None by {
            assert(rest[i] == lines[i + 1]);
        }
        lemma_no_run_key(state.after(line), rest);
    }
}

/// Text outside `run` scalars is ignored: a workflow without a `run` key never offends.
pub proof fn only_run_scalars_offend(text: Seq<char>)
    requires
        forall|i: int|
            0 <= i < lines_of(text).len() ==> run_value(
                body_of(#[trigger] lines_of(text)[i]),
            ) is None,
    ensures
        !retired_in(text),
{
    lemma_no_run_key(ScanModel::Outside, lines_of(text));
}

/// Is `words` empty, or a shell keyword alone that a condition follows?
pub open spec fn opens_condition(words: Seq<Seq<char>>) -> bool {
    ||| words.len() == 0
    ||| words == seq!["if"@]
    ||| words == seq!["elif"@]
    ||| words == seq!["while"@]
    ||| words == seq!["until"@]
}

/// Is `words` empty, or a `!` alone?
pub open spec fn may_negate(words: Seq<Seq<char>>) -> bool {
    words.len() == 0 || words == seq!["!"@]
}

proof fn lemma_words_differ()
    ensures
        "check_file"@.len() == 10,
        "test"@.len() == 4 && "test"@[0] == 't',
        "["@.len() == 1 && "["@[0] == '[',
        "[["@.len() == 2 && "[["@[0] == '[',
        "if"@.len() == 2 && "if"@[0] == 'i',
        "elif"@.len() == 4 && "elif"@[0] == 'e',
        "while"@.len() == 5 && "while"@[0] == 'w',
        "until"@.len() == 5 && "until"@[0] == 'u',
        "!"@.len() == 1 && "!"@[0] == '!',
        "-f"@.len() == 2,
        "-e"@.len() == 2,
{
    reveal_strlit("check_file");
    reveal_strlit("test");
    reveal_strlit("[");
    reveal_strlit("[[");
    reveal_strlit("if");
    reveal_strlit("elif");
    reveal_strlit("while");
    reveal_strlit("until");
    reveal_strlit("!");
    reveal_strlit("-f");
    reveal_strlit("-e");
}

/// What is left of a command behind its keyword and its negation.
proof fn lemma_command_head(
    w: Seq<Seq<char>>,
    keyword: Seq<Seq<char>>,
    negation: Seq<Seq<char>>,
    rest: Seq<Seq<char>>,
)
    requires
        w == keyword + negation + rest,
        opens_condition(keyword),
        may_negate(negation),
        rest.len() > 0,
        !condition_keyword(rest[0]),
        rest[0] != "!"@,
    ensures
        unnegated(
            if w.len() > 0 && condition_keyword(w[0]) {
                w.drop_first()
            } else {
                w
            },
        ) == rest,
{
    lemma_words_differ();
    let tail = negation + rest;
    if keyword.len() == 0 {
        assert(w =~= tail);
    } else {
        assert(w[0] == keyword[0]);
        assert(w.drop_first() =~= tail);
    }
    if negation.len() == 0 {
        assert(tail =~= rest);
    } else {
        assert(tail[0] == "!"@);
        assert(tail.drop_first() =~= rest);
    }
}

/// A command tests for the file that stands behind `-f` or `-e` of a `test`, a `[` or a `[[`,
/// or behind `check_file`: a keyword that a condition follows, and a `!`, make no difference.
pub proof fn a_test_names_its_file(
    command: Seq<char>,
    keyword: Seq<Seq<char>>,
    negation: Seq<Seq<char>>,
    test: Seq<char>,
    inner: Seq<Seq<char>>,
    flag: Seq<char>,
    file: Seq<char>,
    more: Seq<Seq<char>>,
)
    requires
        opens_condition(keyword),
        may_negate(negation),
        may_negate(inner),
        test == "test"@ || test == "["@ || test == "[["@,
        flag == "-f"@ || flag == "-e"@,
    ensures
        words_of(command) == keyword + negation + (seq![test] + (inner + (seq![flag, file] + more)))
            ==> tested_file(command) == Some(file),
        words_of(command) == keyword + negation + (seq!["check_file"@, file] + more)
            ==> tested_file(command) == Some(file),
{
    lemma_words_differ();
    let w = words_of(command);
    let last = seq![flag, file] + more;
    let args = inner + last;
    let rest = seq![test] + args;
    if w == keyword + negation + rest {
        lemma_command_head(w, keyword, negation, rest);
        assert(rest.drop_first() =~= args);
        if inner.len() == 0 {
            assert(args =~= last);
        } else {
            assert(args[0] == "!"@);
            assert(args.drop_first() =~= last);
        }
        assert(unnegated(args) == last);
    }
    let called = seq!["check_file"@, file] + more;
    if w == keyword + negation + called {
        lemma_command_head(w, keyword, negation, called);
    }
}

/// A command that opens with any other word tests for no file, nor does a test with any other
/// flag, nor one that names no file.
pub proof fn no_other_command_tests_a_file(
    command: Seq<char>,
    keyword: Seq<Seq<char>>,
    negation: Seq<Seq<char>>,
    first: Seq<char>,
    test: Seq<char>,
    inner: Seq<Seq<char>>,
    flag: Seq<char>,
    more: Seq<Seq<char>>,
)
    requires
        opens_condition(keyword),
        may_negate(negation),
        may_negate(inner),
        test == "test"@ || test == "["@ || test == "[["@,
        flag != "!"@,
    ensures
        words_of(command).len() == 0 ==> tested_file(command) is None,
        words_of(command) == keyword + negation + (seq![first] + more) && first != "if"@ && first
            != "elif"@ && first != "while"@ && first != "until"@ && first != "!"@ && first
            != "check_file"@ && first != "test"@ && first != "["@ && first != "[["@
            ==> tested_file(command) is None,
        words_of(command) == keyword + negation + (seq![test] + (inner + (seq![flag] + more)))
            && ((flag != "-f"@ && flag != "-e"@) || more.len() == 0) ==> tested_file(command)
            is None,
        words_of(command) == keyword + negation + seq!["check_file"@] ==> tested_file(command)
            is None,
{
    lemma_words_differ();
    let w = words_of(command);
    let other = seq![first] + more;
    if w == keyword + negation + other && !condition_keyword(first) && first != "!"@ {
        lemma_command_head(w, keyword, negation, other);
    }
    let last = seq![flag] + more;
    let args = inner + last;
    let rest = seq![test] + args;
    if w == keyword + negation + rest {
        lemma_command_head(w, keyword, negation, rest);
        assert(rest.drop_first() =~= args);
        if inner.len() == 0 {
            assert(args =~= last);
        } else {
            assert(args[0] == "!"@);
            assert(args.drop_first() =~= last);
        }
        assert(unnegated(args) == last);
    }
    let called = seq!["check_file"@];
    if w == keyword + negation + called {
        lemma_command_head(w, keyword, negation, called);
    }
}

/// A path is read without the quotes round it and without the semicolons behind it.
pub proof fn a_path_is_read_bare(
    open: Seq<char>,
    path: Seq<char>,
    close: Seq<char>,
    semicolons: Seq<char>,
)
    requires
        path.len() > 0,
        path[0] != '"' && path[0] != '\'',
        path.last() != '"' && path.last() != '\'' && path.last() != ';',
        forall|i: int| 0 <= i < open.len() ==> #[trigger] open[i] == '"' || open[i] == '\'',
        forall|i: int| 0 <= i < close.len() ==> #[trigger] close[i] == '"' || close[i] == '\'',
        forall|i: int| 0 <= i < semicolons.len() ==> #[trigger] semicolons[i] == ';',
    ensures
        bare_word(open + path + close + semicolons) == path,
{
    let quoted = open + path + close;
    let word = quoted + semicolons;
    assert(quoted.last() != ';') by {
        if close.len() == 0 {
            assert(quoted.last() == path.last());
        } else {
            assert(quoted.last() == close.last());
        }
    }
    lemma_span_back_is(word, CharClass::Is(';'), semicolons.len() as int);
    assert(drop_back(word, CharClass::Is(';')) =~= quoted);
    lemma_span_back_is(quoted, CharClass::Quote, close.len() as int);
    let opened = open + path;
    assert(drop_back(quoted, CharClass::Quote) =~= opened);
    lemma_span_is(opened, CharClass::Quote, open.len() as int);
    assert(drop_front(opened, CharClass::Quote) =~= path);
}

/// The retired places are those of the seven descriptiles, right under the directory or in
/// the one that was nested in it, and no others.
pub proof fn seven_descriptiles_have_retired_places(path: Seq<char>, name: Seq<char>)
    ensures
        name == "STATE"@ || name == "META"@ || name == "ECOSYSTEM"@ || name == "AGENTIC"@ || name
            == "NEUROSYM"@ || name == "PLAYBOOK"@ || name == "ANCHOR"@ ==> retired_path(
            ".machine_readable/"@ + name + ".a2ml"@,
        ) && retired_path(".machine_readable/6a2/"@ + name + ".a2ml"@),
        retired_path(path) ==> exists|known: Seq<char>|
            (path == ".machine_readable/"@ + known + ".a2ml"@ || path == #[trigger] (
            ".machine_readable/6a2/"@ + known) + ".a2ml"@) && (known == "STATE"@ || known
                == "META"@ || known == "ECOSYSTEM"@ || known == "AGENTIC"@ || known == "NEUROSYM"@
                || known == "PLAYBOOK"@ || known == "ANCHOR"@),
{
    if retired_path(path) {
        let known = if retired_place(path, "STATE"@) {
            "STATE"@
        } else if retired_place(path, "META"@) {
            "META"@
        } else if retired_place(path, "ECOSYSTEM"@) {
            "ECOSYSTEM"@
        } else if retired_place(path, "AGENTIC"@) {
            "AGENTIC"@
        } else if retired_place(path, "NEUROSYM"@) {
            "NEUROSYM"@
        } else if retired_place(path, "PLAYBOOK"@) {
            "PLAYBOOK"@
        } else {
            "ANCHOR"@
        };
        assert(retired_place(path, known));
        let nested = ".machine_readable/6a2/"@ + known;
        assert(path == ".machine_readable/"@ + known + ".a2ml"@ || path == nested + ".a2ml"@);
    }
}

/// A command offends exactly where it tests for a file at a retired place, and a script
/// exactly where one of its lines does; what could not be decoded offends nobody.
pub proof fn a_test_at_a_retired_place_offends(command: Seq<char>, script: Seq<char>, i: int)
    ensures
        command_offends(command) <==> tested_file(command) is Some && retired_path(
            bare_word(tested_file(command)->Some_0),
        ),
        0 <= i < lines_of(script).len() && command_offends(lines_of(script)[i]) ==> decoded_offends(
            Some(script),
        ),
        (forall|k: int| 0 <= k < lines_of(script).len() ==> !command_offends(
            #[trigger] lines_of(script)[k],
        )) ==> !decoded_offends(Some(script)),
        !decoded_offends(None),
{
}

proof fn lemma_from_byte(margin: Seq<char>, t: Seq<char>)
    requires
        forall|i: int| 0 <= i < margin.len() ==> #[trigger] margin[i] == ' ',
    ensures
        from_byte(margin + t, margin.len() as int) == t,
    decreases margin.len(),
{
    if margin.len() == 0 {
        assert(margin + t =~= t);
    } else {
        let fewer = margin.drop_first();
        assert((margin + t)[0] == ' ');
        assert((margin + t).drop_first() =~= fewer + t);
        lemma_from_byte(fewer, t);
    }
}

/// The depth of a line is the number of blanks that open it, and its body is what stands
/// between them and the white space at its end.
pub proof fn a_body_stands_behind_its_margin(margin: Seq<char>, t: Seq<char>, tail: Seq<char>)
    requires
        forall|i: int| 0 <= i < margin.len() ==> #[trigger] margin[i] == ' ',
        t.len() > 0 && !white(t[0]) && !white(t.last()),
        all_white(tail),
    ensures
        depth_of(margin + t + tail) == margin.len(),
        body_of(margin + t + tail) == t,
        !blank(margin + t + tail),
{
    let line = margin + t + tail;
    lemma_span_is(line, CharClass::White, margin.len() as int);
    assert(line =~= margin + (t + tail));
    lemma_from_byte(margin, t + tail);
    lemma_span_back_is(t + tail, CharClass::White, tail.len() as int);
    assert(drop_back(t + tail, CharClass::White) =~= t);
    assert forall|i: int| 0 <= i < margin.len() implies white(#[trigger] margin[i]) by {
        assert(margin[i] == ' ');
    }
    trimming_takes_the_white_space_at_the_ends(margin, t, tail);
}

/// The value of a `run` key is what follows it, without the white space before it; the key
/// may open a list item. No other body has one.
pub proof fn a_run_key_has_its_value(gap: Seq<char>, value: Seq<char>, body: Seq<char>)
    requires
        all_white(gap),
        value.len() > 0 ==> !white(value[0]),
    ensures
        run_value("run:"@ + gap + value) == Some(value),
        run_value("- run:"@ + gap + value) == Some(value),
        !"run:"@.is_prefix_of(body) && !"- run:"@.is_prefix_of(body) ==> run_value(body) is None,
{
    reveal_strlit("run:");
    reveal_strlit("- run:");
    let tail = gap + value;
    lemma_span_is(tail, CharClass::White, gap.len() as int);
    assert(drop_front(tail, CharClass::White) =~= value);
    let plain = "run:"@ + gap + value;
    assert(plain.subrange(0, 4) =~= "run:"@);
    assert(plain.skip(4) =~= tail);
    if "- run:"@.is_prefix_of(plain) {
        assert("- run:"@[0] == plain[0]);
    }
    let item = "- run:"@ + gap + value;
    assert(item.subrange(0, 6) =~= "- run:"@);
    assert(item.skip(6) =~= tail);
}

/// Does a line neither hold a `run` key nor announce a block?
pub open spec fn of_no_account(line: Seq<char>) -> bool {
    let body = body_of(line);
    ||| blank(line)
    ||| {
        &&& !"run:"@.is_prefix_of(body) && !"- run:"@.is_prefix_of(body)
        &&& !"|"@.is_suffix_of(body) && !">"@.is_suffix_of(body)
        &&& !"|-"@.is_suffix_of(body) && !">-"@.is_suffix_of(body)
    }
}

/// Lines that neither hold a `run` key nor announce a block are passed over.
pub proof fn other_lines_are_passed_over(a: Seq<Seq<char>>, rest: Seq<Seq<char>>)
    requires
        forall|i: int| 0 <= i < a.len() ==> of_no_account(#[trigger] a[i]),
    ensures
        retired_from(ScanModel::Outside, a + rest) == retired_from(ScanModel::Outside, rest),
    decreases a.len(),
{
    if a.len() == 0 {
        assert(a + rest =~= rest);
    } else {
        let fewer = a.drop_first();
        assert(of_no_account(a[0]));
        assert((a + rest)[0] == a[0]);
        assert((a + rest).drop_first() =~= fewer + rest);
        assert forall|i: int| 0 <= i < fewer.len() implies of_no_account(#[trigger] fewer[i]) by {
            assert(fewer[i] == a[i + 1]);
        }
        other_lines_are_passed_over(fewer, rest);
    }
}

/// A `run` value that stands on its own line is one command: in quotes it is decoded first.
/// It makes the workflow offend exactly where that command does.
pub proof fn an_inline_run_is_one_command(line: Seq<char>, value: Seq<char>, rest: Seq<Seq<char>>)
    requires
        !blank(line),
        run_value(body_of(line)) == Some(value),
        !"|"@.is_prefix_of(value) && !">"@.is_prefix_of(value),
    ensures
        ({
            let scalar = trimmed(value);
            let decoded = if "'"@.is_prefix_of(scalar) || "\""@.is_prefix_of(scalar) {
                yaml_string(scalar)
            } else {
                Some(scalar)
            };
            retired_from(ScanModel::Outside, seq![line] + rest) <==> (decoded is Some
                && command_offends(trimmed(decoded->Some_0))) || retired_from(
                ScanModel::Outside,
                rest,
            )
        }),
{
    let all = seq![line] + rest;
    assert(all[0] == line);
    assert(all.drop_first() =~= rest);
}

/// The lines of a block as its scalar holds them, each with a line break: a blank line is
/// empty there.
pub open spec fn block_lines(body: Seq<Seq<char>>) -> Seq<Seq<char>> {
    Seq::new(
        body.len(),
        |i: int|
            if trimmed(body[i]).len() == 0 {
                "\n"@
            } else {
                body[i] + "\n"@
            },
    )
}

/// Do the lines belong to a block that was announced at `depth`, and does what follows not?
pub open spec fn block_at(depth: int, body: Seq<Seq<char>>, rest: Seq<Seq<char>>) -> bool {
    &&& forall|i: int|
        0 <= i < body.len() ==> blank(#[trigger] body[i]) || depth_of(body[i]) > depth
    &&& rest.len() == 0 || (!blank(rest[0]) && depth_of(rest[0]) <= depth)
}

proof fn lemma_block(state: ScanModel, depth: int, body: Seq<Seq<char>>, rest: Seq<Seq<char>>)
    requires
        block_at(depth, body, rest),
        state == (ScanModel::Other { depth }) || (state matches ScanModel::Run { depth: d, .. } && d
            == depth),
    ensures
        retired_from(state, body + rest) <==> (state matches ScanModel::Run { scalar, .. }
            && decoded_offends(yaml_string(scalar + block_lines(body).flatten()))) || retired_from(
            ScanModel::Outside,
            rest,
        ),
    decreases body.len(),
{
    let parts = block_lines(body);
    if body.len() == 0 {
        assert(body + rest =~= rest);
        assert(parts.flatten() =~= seq![]);
        if let ScanModel::Run { scalar, .. } = state {
            assert(scalar + parts.flatten() =~= scalar);
        }
    } else {
        let line = body[0];
        let fewer = body.drop_first();
        assert((body + rest)[0] == line);
        assert((body + rest).drop_first() =~= fewer + rest);
        assert forall|i: int| 0 <= i < fewer.len() implies blank(#[trigger] fewer[i]) || depth_of(
            fewer[i],
        ) > depth by {
            assert(fewer[i] == body[i + 1]);
        }
        assert(blank(line) || depth_of(line) > depth);
        lemma_block(state.after(line), depth, fewer, rest);
        assert(parts.drop_first() =~= block_lines(fewer));
        assert(parts.flatten() == parts.first() + parts.drop_first().flatten());
        if let ScanModel::Run { scalar, .. } = state {
            let tail = block_lines(fewer).flatten();
            if blank(line) {
                assert(scalar + "\n"@ + tail =~= scalar + (parts.first() + tail));
            } else {
                assert(scalar + line + "\n"@ + tail =~= scalar + (parts.first() + tail));
            }
        }
    }
}

/// A block under a `run` key is all the lines that are deeper than the key, blank ones among
/// them. It makes the workflow offend exactly where what it decodes to does.
pub proof fn a_run_block_is_read_as_one_scalar(
    line: Seq<char>,
    value: Seq<char>,
    body: Seq<Seq<char>>,
    rest: Seq<Seq<char>>,
)
    requires
        !blank(line),
        run_value(body_of(line)) == Some(value),
        "|"@.is_prefix_of(value) || ">"@.is_prefix_of(value),
        block_at(depth_of(line) as int, body, rest),
    ensures
        retired_from(ScanModel::Outside, seq![line] + (body + rest)) <==> decoded_offends(
            yaml_string(value + "\n"@ + block_lines(body).flatten()),
        ) || retired_from(ScanModel::Outside, rest),
{
    let all = seq![line] + (body + rest);
    assert(all[0] == line);
    assert(all.drop_first() =~= body + rest);
    lemma_block(opened(line), depth_of(line) as int, body, rest);
}

/// A block under any other key is passed over, whatever it holds.
pub proof fn another_block_is_passed_over(
    line: Seq<char>,
    body: Seq<Seq<char>>,
    rest: Seq<Seq<char>>,
)
    requires
        !blank(line),
        run_value(body_of(line)) is None,
        "|"@.is_suffix_of(body_of(line)) || ">"@.is_suffix_of(body_of(line)) || "|-"@.is_suffix_of(
            body_of(line),
        ) || ">-"@.is_suffix_of(body_of(line)),
        block_at(depth_of(line) as int, body, rest),
    ensures
        retired_from(ScanModel::Outside, seq![line] + (body + rest)) == retired_from(
            ScanModel::Outside,
            rest,
        ),
{
    let all = seq![line] + (body + rest);
    assert(all[0] == line);
    assert(all.drop_first() =~= body + rest);
    lemma_block(opened(line), depth_of(line) as int, body, rest);
}

} // verus!
