//! Text primitives over `str`, specified on sequences of characters.
//!
//! Every line-based reader of this crate is built from these few functions, so
//! that what a reader sees in a file can be stated on `Seq<char>` alone.
use vstd::prelude::*;

verus! {

/// `String::push` appends one character and leaves the rest of the text alone.
pub assume_specification[ String::push ](s: &mut String, c: char)
    ensures
        final(s)@ == old(s)@.push(c),
;

/// Does `c` carry the Unicode `White_Space` property?
pub open spec fn white(c: char) -> bool {
    let u = c as u32;
    ||| 0x9 <= u <= 0xd
    ||| u == 0x20
    ||| u == 0x85
    ||| u == 0xa0
    ||| u == 0x1680
    ||| 0x2000 <= u <= 0x200a
    ||| u == 0x2028
    ||| u == 0x2029
    ||| u == 0x202f
    ||| u == 0x205f
    ||| u == 0x3000
}

/// See [`white`].
pub fn is_white(c: char) -> (r: bool)
    ensures
        r == white(c),
{
    let u: u32 = c as u32;
    (0x9 <= u && u <= 0xd) || u == 0x20 || u == 0x85 || u == 0xa0 || u == 0x1680 || (0x2000 <= u && u
        <= 0x200a) || u == 0x2028 || u == 0x2029 || u == 0x202f || u == 0x205f || u == 0x3000
}

/// A set of characters that a scan runs over.
#[derive(Clone, Copy)]
pub enum CharClass {
    /// Unicode white space.
    White,
    /// Everything but white space.
    Dark,
    /// Exactly this character.
    Is(char),
    /// Every character but this one.
    IsNot(char),
    /// A single or a double quotation mark.
    Quote,
    /// Everything but the marks that open a URL's query or fragment.
    UrlPath,
}

impl CharClass {
    /// Membership in the class.
    pub open spec fn has(self, c: char) -> bool {
        match self {
            CharClass::White => white(c),
            CharClass::Dark => !white(c),
            CharClass::Is(x) => c == x,
            CharClass::IsNot(x) => c != x,
            CharClass::Quote => c == '\'' || c == '"',
            CharClass::UrlPath => c != '?' && c != '#',
        }
    }

    /// See [`CharClass::has`].
    pub fn holds(self, c: char) -> (r: bool)
        ensures
            r == self.has(c),
    {
        match self {
            CharClass::White => is_white(c),
            CharClass::Dark => !is_white(c),
            CharClass::Is(x) => c == x,
            CharClass::IsNot(x) => c != x,
            CharClass::Quote => c == '\'' || c == '"',
            CharClass::UrlPath => c != '?' && c != '#',
        }
    }
}

/// How many characters at the front of `s` belong to `class`.
pub open spec fn span(s: Seq<char>, class: CharClass) -> nat
    decreases s.len(),
{
    if s.len() > 0 && class.has(s[0]) {
        1 + span(s.drop_first(), class)
    } else {
        0
    }
}

/// How many characters at the end of `s` belong to `class`.
pub open spec fn span_back(s: Seq<char>, class: CharClass) -> nat
    decreases s.len(),
{
    if s.len() > 0 && class.has(s.last()) {
        1 + span_back(s.drop_last(), class)
    } else {
        0
    }
}

/// `s` without the characters of `class` at its front.
pub open spec fn drop_front(s: Seq<char>, class: CharClass) -> Seq<char> {
    s.skip(span(s, class) as int)
}

/// `s` without the characters of `class` at its end.
pub open spec fn drop_back(s: Seq<char>, class: CharClass) -> Seq<char> {
    s.take(s.len() - span_back(s, class))
}

/// `s` without white space at either end.
pub open spec fn trimmed(s: Seq<char>) -> Seq<char> {
    drop_back(drop_front(s, CharClass::White), CharClass::White)
}

/// The part of `s` before the first character outside `class`; all of `s`
/// where there is none.
pub open spec fn front(s: Seq<char>, class: CharClass) -> Seq<char> {
    s.take(span(s, class) as int)
}

/// The part of `s` after the last character outside `class`; all of `s` where
/// there is none.
pub open spec fn back(s: Seq<char>, class: CharClass) -> Seq<char> {
    s.skip(s.len() - span_back(s, class))
}

/// What follows `prefix` in `s`, where `s` starts with it.
pub open spec fn stripped(s: Seq<char>, prefix: Seq<char>) -> Option<Seq<char>> {
    if prefix.is_prefix_of(s) {
        Some(s.skip(prefix.len() as int))
    } else {
        None
    }
}

/// What precedes `suffix` in `s`, where `s` ends with it.
pub open spec fn stripped_end(s: Seq<char>, suffix: Seq<char>) -> Option<Seq<char>> {
    if suffix.is_suffix_of(s) {
        Some(s.take(s.len() - suffix.len()))
    } else {
        None
    }
}

/// `needle` stands in `s` at position `i`.
pub open spec fn occurs_at(s: Seq<char>, needle: Seq<char>, i: int) -> bool {
    0 <= i <= s.len() - needle.len() && s.subrange(i, i + needle.len()) == needle
}

/// `needle` stands somewhere in `s`.
pub open spec fn holds_text(s: Seq<char>, needle: Seq<char>) -> bool {
    exists|i: int| occurs_at(s, needle, i)
}

/// The first position of `needle` in `s`.
pub open spec fn found_at(s: Seq<char>, needle: Seq<char>) -> Option<int>
    decreases s.len(),
{
    if needle.is_prefix_of(s) {
        Some(0)
    } else if s.len() == 0 {
        None
    } else {
        match found_at(s.drop_first(), needle) {
            Some(i) => Some(i + 1),
            None => None,
        }
    }
}

/// The pieces of `s` between the characters equal to `mark`.
pub open spec fn pieces(s: Seq<char>, mark: char) -> Seq<Seq<char>>
    decreases s.len(),
{
    let n = span(s, CharClass::IsNot(mark)) as int;
    if n < s.len() {
        proof {
            lemma_span_bound(s, CharClass::IsNot(mark));
        }
        seq![s.take(n)] + pieces(s.skip(n + 1), mark)
    } else {
        seq![s]
    }
}

/// The maximal runs of non-white characters in `s`.
pub open spec fn words_of(s: Seq<char>) -> Seq<Seq<char>>
    decreases s.len(),
{
    let t = drop_front(s, CharClass::White);
    let n = span(t, CharClass::Dark) as int;
    if n == 0 {
        seq![]
    } else {
        proof {
            lemma_span_bound(s, CharClass::White);
            lemma_span_bound(t, CharClass::Dark);
        }
        seq![t.take(n)] + words_of(t.skip(n))
    }
}

/// One line's text without the carriage return that may precede its line feed.
pub open spec fn without_cr(s: Seq<char>) -> Seq<char> {
    if s.len() > 0 && s.last() == '\r' {
        s.drop_last()
    } else {
        s
    }
}

/// The lines of `s`: each ends at a line feed or a carriage return and line
/// feed, which are not part of it; the last may also end where the text does.
pub open spec fn lines_of(s: Seq<char>) -> Seq<Seq<char>>
    decreases s.len(),
{
    if s.len() == 0 {
        seq![]
    } else {
        let n = span(s, CharClass::IsNot('\n')) as int;
        if n < s.len() {
            seq![without_cr(s.take(n))] + lines_of(s.skip(n + 1))
        } else {
            seq![s]
        }
    }
}

/// The number of bytes that `c` takes in UTF-8.
pub open spec fn width(c: char) -> nat {
    if c as u32 <= 0x7f {
        1
    } else if c as u32 <= 0x7ff {
        2
    } else if c as u32 <= 0xffff {
        3
    } else {
        4
    }
}

/// The number of bytes that the white space at the front of `s` takes in UTF-8.
pub open spec fn indent_of(s: Seq<char>) -> nat
    decreases s.len(),
{
    if s.len() > 0 && white(s[0]) {
        width(s[0]) + indent_of(s.drop_first())
    } else {
        0
    }
}

/// `s` from the first character boundary at or after byte `n` on.
pub open spec fn from_byte(s: Seq<char>, n: int) -> Seq<char>
    decreases s.len(),
{
    if n <= 0 || s.len() == 0 {
        s
    } else {
        from_byte(s.drop_first(), n - width(s[0]))
    }
}

/// The number of bytes that `s` takes in UTF-8.
pub open spec fn byte_len(s: Seq<char>) -> nat
    decreases s.len(),
{
    if s.len() == 0 {
        0
    } else {
        width(s[0]) + byte_len(s.drop_first())
    }
}

/// `s` up to the first character boundary at or after byte `n`.
pub open spec fn up_to_byte(s: Seq<char>, n: int) -> Seq<char>
    decreases s.len(),
{
    if n <= 0 || s.len() == 0 {
        seq![]
    } else {
        seq![s[0]] + up_to_byte(s.drop_first(), n - width(s[0]))
    }
}

/// Does `s` end before byte `n`, or have a character boundary there?
pub open spec fn cuts_at(s: Seq<char>, n: int) -> bool {
    byte_len(up_to_byte(s, n)) <= n
}

/// The lower-case form of an ASCII letter; any other character as it is.
pub open spec fn lower_char(c: char) -> char {
    if 'A' as u32 <= c as u32 <= 'Z' as u32 {
        ((c as u32 + 32) as u32) as char
    } else {
        c
    }
}

/// `s` with its ASCII letters in lower case.
pub open spec fn lower(s: Seq<char>) -> Seq<char> {
    s.map_values(|c: char| lower_char(c))
}

/// `parts` in order, with `sep` between neighbours.
pub open spec fn joined(parts: Seq<Seq<char>>, sep: Seq<char>) -> Seq<char>
    decreases parts.len(),
{
    if parts.len() == 0 {
        seq![]
    } else if parts.len() == 1 {
        parts[0]
    } else {
        joined(parts.drop_last(), sep) + sep + parts.last()
    }
}

/// The decimal numeral of `n`, without leading zeros.
pub open spec fn decimal(n: nat) -> Seq<char>
    decreases n,
{
    if n < 10 {
        seq![digit(n)]
    } else {
        decimal(n / 10).push(digit(n % 10))
    }
}

/// The decimal digit of `d`.
pub open spec fn digit(d: nat) -> char {
    ((48 + d) as u32) as char
}

/// Is `c` a decimal digit?
pub open spec fn is_digit(c: char) -> bool {
    '0' as u32 <= c as u32 <= '9' as u32
}

/// The number that a string of decimal digits stands for.
pub open spec fn value_of(s: Seq<char>) -> nat
    decreases s.len(),
{
    if s.len() == 0 {
        0
    } else {
        value_of(s.drop_last()) * 10 + (s.last() as u32 - '0' as u32) as nat
    }
}

/// The digits of an unsigned numeral, which may open with a plus sign.
pub open spec fn numeral(s: Seq<char>) -> Seq<char> {
    if s.len() > 0 && s[0] == '+' {
        s.drop_first()
    } else {
        s
    }
}

/// The number that `s` reads as: an optional plus sign and at least one digit,
/// of a value no greater than `max`.
pub open spec fn number(s: Seq<char>, max: nat) -> Option<nat> {
    let d = numeral(s);
    if d.len() > 0 && (forall|k: int| 0 <= k < d.len() ==> is_digit(#[trigger] d[k])) && value_of(d)
        <= max {
        Some(value_of(d))
    } else {
        None
    }
}

/// Is `c` an ASCII hexadecimal digit?
pub open spec fn hex_digit(c: char) -> bool {
    ||| is_digit(c)
    ||| 'a' as u32 <= c as u32 <= 'f' as u32
    ||| 'A' as u32 <= c as u32 <= 'F' as u32
}

/// The span never exceeds the text.
pub proof fn lemma_span_bound(s: Seq<char>, class: CharClass)
    ensures
        0 <= span(s, class) <= s.len(),
    decreases s.len(),
{
    if s.len() > 0 && class.has(s[0]) {
        lemma_span_bound(s.drop_first(), class);
    }
}

/// The span at the end never exceeds the text.
pub proof fn lemma_span_back_bound(s: Seq<char>, class: CharClass)
    ensures
        span_back(s, class) <= s.len(),
    decreases s.len(),
{
    if s.len() > 0 && class.has(s.last()) {
        lemma_span_back_bound(s.drop_last(), class);
    }
}

/// The characters of `s`, in order.
pub fn chars_of(s: &str) -> (v: Vec<char>)
    ensures
        v@ == s@,
{
    let mut v: Vec<char> = Vec::new();
    for c in it: s.chars()
        invariant
            it.seq() == s@,
            v@ == s@.take(it.index()),
    {
        v.push(c);
    }
    v
}

/// The text made of `v[i..j]`.
pub fn string_of(v: &Vec<char>, i: usize, j: usize) -> (r: String)
    requires
        i <= j <= v@.len(),
    ensures
        r@ == v@.subrange(i as int, j as int),
{
    let mut r: String = String::new();
    let mut k: usize = i;
    while k < j
        invariant
            i <= k <= j <= v@.len(),
            r@ == v@.subrange(i as int, k as int),
        decreases j - k,
    {
        r.push(v[k]);
        k += 1;
        assert(v@.subrange(i as int, k as int) == v@.subrange(i as int, k - 1).push(v@[k - 1]));
    }
    r
}

/// Are the two texts equal?
pub fn same(a: &str, b: &str) -> (r: bool)
    ensures
        r == (a@ == b@),
{
    a.to_owned() == b.to_owned()
}

/// How many characters of `v` from `i` on belong to `class`, before the first
/// that does not.
pub fn span_from(v: &Vec<char>, i: usize, class: CharClass) -> (n: usize)
    requires
        i <= v@.len(),
    ensures
        n == span(v@.skip(i as int), class),
        i + n <= v@.len(),
        i + n <= usize::MAX,
{
    let mut k: usize = i;
    while k < v.len() && class.holds(v[k])
        invariant
            i <= k <= v@.len(),
            span(v@.skip(i as int), class) == k - i + span(v@.skip(k as int), class),
        decreases v@.len() - k,
    {
        assert(v@.skip(k as int).drop_first() == v@.skip(k + 1));
        k += 1;
    }
    k - i
}

/// How many characters of `v[..j]` at its end belong to `class`.
pub fn span_back_from(v: &Vec<char>, j: usize, class: CharClass) -> (n: usize)
    requires
        j <= v@.len(),
    ensures
        n == span_back(v@.take(j as int), class),
        n <= j,
{
    let mut n: usize = 0;
    while n < j && class.holds(v[j - n - 1])
        invariant
            n <= j <= v@.len(),
            span_back(v@.take(j as int), class) == n + span_back(v@.take(j - n), class),
        decreases j - n,
    {
        assert(v@.take(j - n).drop_last() == v@.take(j - n - 1));
        n += 1;
    }
    n
}

/// `s` without the characters of `class` at its front.
pub fn skip_front(s: &str, class: CharClass) -> (r: &str)
    ensures
        r@ == drop_front(s@, class),
{
    let v: Vec<char> = chars_of(s);
    assert(v@.skip(0) == s@);
    let n: usize = span_from(&v, 0, class);
    s.substring_char(n, v.len())
}

/// `s` without the characters of `class` at its end.
pub fn skip_back(s: &str, class: CharClass) -> (r: &str)
    ensures
        r@ == drop_back(s@, class),
{
    let v: Vec<char> = chars_of(s);
    assert(v@.take(s@.len() as int) == s@);
    let n: usize = span_back_from(&v, v.len(), class);
    s.substring_char(0, v.len() - n)
}

/// `s` without white space at either end.
pub fn trim(s: &str) -> (r: &str)
    ensures
        r@ == trimmed(s@),
{
    skip_back(skip_front(s, CharClass::White), CharClass::White)
}

/// See [`front`].
pub fn take_front(s: &str, class: CharClass) -> (r: &str)
    ensures
        r@ == front(s@, class),
{
    let v: Vec<char> = chars_of(s);
    assert(v@.skip(0) == s@);
    let n: usize = span_from(&v, 0, class);
    s.substring_char(0, n)
}

/// See [`back`].
pub fn take_back(s: &str, class: CharClass) -> (r: &str)
    ensures
        r@ == back(s@, class),
{
    let v: Vec<char> = chars_of(s);
    assert(v@.take(s@.len() as int) == s@);
    let n: usize = span_back_from(&v, v.len(), class);
    s.substring_char(v.len() - n, v.len())
}

/// Does `s` start with `prefix`?
pub fn starts_with(s: &str, prefix: &str) -> (r: bool)
    ensures
        r == prefix@.is_prefix_of(s@),
{
    let v: Vec<char> = chars_of(s);
    let p: Vec<char> = chars_of(prefix);
    let r: bool = matches_at(&v, 0, &p);
    r
}

/// Does `s` end with `suffix`?
pub fn ends_with(s: &str, suffix: &str) -> (r: bool)
    ensures
        r == suffix@.is_suffix_of(s@),
{
    let v: Vec<char> = chars_of(s);
    let p: Vec<char> = chars_of(suffix);
    if p.len() <= v.len() {
        matches_at(&v, v.len() - p.len(), &p)
    } else {
        false
    }
}

/// Does `p` stand in `v` at position `i`?
pub fn matches_at(v: &Vec<char>, i: usize, p: &Vec<char>) -> (r: bool)
    requires
        i <= v@.len(),
    ensures
        r == occurs_at(v@, p@, i as int),
{
    if v.len() - i < p.len() {
        return false;
    }
    let mut k: usize = 0;
    while k < p.len()
        invariant
            k <= p@.len() <= v@.len() - i,
            v@.len() == v.len(),
            forall|j: int| 0 <= j < k ==> v@[i + j] == p@[j],
        decreases p@.len() - k,
    {
        if v[i + k] != p[k] {
            assert(v@.subrange(i as int, i + p@.len())[k as int] != p@[k as int]);
            return false;
        }
        k += 1;
    }
    assert(v@.subrange(i as int, i + p@.len()) =~= p@);
    true
}

/// See [`stripped`].
pub fn strip_prefix<'a>(s: &'a str, prefix: &str) -> (r: Option<&'a str>)
    ensures
        r.deep_view() == stripped(s@, prefix@),
{
    if starts_with(s, prefix) {
        let n: usize = s.unicode_len();
        let p: usize = prefix.unicode_len();
        Some(s.substring_char(p, n))
    } else {
        None
    }
}

/// See [`stripped_end`].
pub fn strip_suffix<'a>(s: &'a str, suffix: &str) -> (r: Option<&'a str>)
    ensures
        r.deep_view() == stripped_end(s@, suffix@),
{
    if ends_with(s, suffix) {
        let n: usize = s.unicode_len();
        let p: usize = suffix.unicode_len();
        Some(s.substring_char(0, n - p))
    } else {
        None
    }
}

/// The first position of `needle` in `s`, counted in characters.
pub fn find(s: &str, needle: &str) -> (r: Option<usize>)
    ensures
        match (r, found_at(s@, needle@)) {
            (Some(i), Some(k)) => i == k && occurs_at(s@, needle@, k),
            (None, None) => true,
            _ => false,
        },
{
    let v: Vec<char> = chars_of(s);
    let p: Vec<char> = chars_of(needle);
    let mut i: usize = 0;
    assert(v@.skip(0) == v@);
    loop
        invariant
            i <= v@.len(),
            v@ == s@,
            p@ == needle@,
            found_at(s@, needle@) == match found_at(s@.skip(i as int), needle@) {
                Some(k) => Some(k + i),
                None => None,
            },
        decreases v@.len() - i,
    {
        proof {
            assert(occurs_at(s@, needle@, i as int) == needle@.is_prefix_of(s@.skip(i as int))) by {
                if needle@.len() <= s@.len() - i {
                    assert(s@.skip(i as int).subrange(0, needle@.len() as int) =~= s@.subrange(
                        i as int,
                        i + needle@.len(),
                    ));
                }
            }
        }
        if matches_at(&v, i, &p) {
            return Some(i);
        }
        if i == v.len() {
            return None;
        }
        assert(s@.skip(i as int).drop_first() == s@.skip(i + 1));
        i += 1;
    }
}

/// A text is found exactly where it occurs.
pub proof fn lemma_found(s: Seq<char>, needle: Seq<char>)
    ensures
        found_at(s, needle) is Some <==> holds_text(s, needle),
        found_at(s, needle) matches Some(k) ==> occurs_at(s, needle, k) && (forall|i: int|
            occurs_at(s, needle, i) ==> k <= i),
    decreases s.len(),
{
    let m = needle.len() as int;
    assert(needle.is_prefix_of(s) <==> occurs_at(s, needle, 0));
    if needle.is_prefix_of(s) {
    } else if s.len() == 0 {
        assert(forall|i: int| occurs_at(s, needle, i) ==> i == 0);
    } else {
        let t = s.drop_first();
        lemma_found(t, needle);
        assert forall|i: int| #[trigger] occurs_at(s, needle, i) implies occurs_at(
            t,
            needle,
            i - 1,
        ) by {
            if i > 0 {
                assert(t.subrange(i - 1, i - 1 + m) =~= s.subrange(i, i + m));
            }
        }
        assert forall|i: int| #[trigger] occurs_at(t, needle, i) implies occurs_at(
            s,
            needle,
            i + 1,
        ) by {
            assert(t.subrange(i, i + m) =~= s.subrange(i + 1, i + 1 + m));
        }
    }
}

/// Does `needle` stand somewhere in `s`?
pub fn contains(s: &str, needle: &str) -> (r: bool)
    ensures
        r == holds_text(s@, needle@),
{
    proof {
        lemma_found(s@, needle@);
    }
    find(s, needle).is_some()
}

/// See [`pieces`].
pub fn split(s: &str, mark: char) -> (r: Vec<String>)
    ensures
        r.deep_view() == pieces(s@, mark),
        r@.len() >= 1,
{
    let v: Vec<char> = chars_of(s);
    let mut r: Vec<String> = Vec::new();
    let mut i: usize = 0;
    assert(v@.skip(0) == s@);
    loop
        invariant
            i <= v@.len(),
            v@ == s@,
            pieces(s@, mark) == r.deep_view() + pieces(v@.skip(i as int), mark),
        decreases v@.len() - i,
    {
        let n: usize = span_from(&v, i, CharClass::IsNot(mark));
        let ghost rest = v@.skip(i as int);
        let ghost before = r.deep_view();
        let piece: String = string_of(&v, i, i + n);
        assert(piece@ =~= rest.take(n as int));
        r.push(piece);
        assert(r.deep_view() =~= before.push(rest.take(n as int)));
        if i + n == v.len() {
            assert(rest.take(n as int) =~= rest);
            assert(r.deep_view() =~= before + seq![rest]);
            return r;
        }
        assert(rest.skip(n + 1) =~= v@.skip(i + n + 1));
        assert(r.deep_view() + pieces(v@.skip(i + n + 1), mark) =~= before + (seq![
            rest.take(n as int),
        ] + pieces(rest.skip(n + 1), mark)));
        i = i + n + 1;
    }
}

/// See [`words_of`].
pub fn words(s: &str) -> (r: Vec<String>)
    ensures
        r.deep_view() == words_of(s@),
{
    let v: Vec<char> = chars_of(s);
    let mut r: Vec<String> = Vec::new();
    let mut i: usize = 0;
    assert(v@.skip(0) == s@);
    loop
        invariant
            i <= v@.len(),
            v@ == s@,
            words_of(s@) == r.deep_view() + words_of(v@.skip(i as int)),
        decreases v@.len() - i,
    {
        let ghost rest = v@.skip(i as int);
        let ghost before = r.deep_view();
        let w: usize = span_from(&v, i, CharClass::White);
        let j: usize = i + w;
        let ghost t = drop_front(rest, CharClass::White);
        assert(t =~= v@.skip(j as int));
        let n: usize = span_from(&v, j, CharClass::Dark);
        if n == 0 {
            assert(r.deep_view() + Seq::<Seq<char>>::empty() =~= r.deep_view());
            return r;
        }
        let word: String = string_of(&v, j, j + n);
        assert(word@ =~= t.take(n as int));
        r.push(word);
        assert(t.skip(n as int) =~= v@.skip(j + n));
        assert(r.deep_view() + words_of(v@.skip(j + n)) =~= before + (seq![t.take(n as int)]
            + words_of(t.skip(n as int))));
        i = j + n;
    }
}

/// See [`lines_of`].
pub fn lines(s: &str) -> (r: Vec<String>)
    ensures
        r.deep_view() == lines_of(s@),
{
    let v: Vec<char> = chars_of(s);
    let mut r: Vec<String> = Vec::new();
    let mut i: usize = 0;
    assert(v@.skip(0) == s@);
    while i < v.len()
        invariant
            i <= v@.len(),
            v@ == s@,
            lines_of(s@) == r.deep_view() + lines_of(v@.skip(i as int)),
        decreases v@.len() - i,
    {
        let n: usize = span_from(&v, i, CharClass::IsNot('\n'));
        let ghost rest = v@.skip(i as int);
        let ghost before = r.deep_view();
        if i + n == v.len() {
            let line: String = string_of(&v, i, i + n);
            assert(line@ =~= rest);
            r.push(line);
            assert(r.deep_view() =~= before + seq![rest]);
            return r;
        }
        let end: usize = if n > 0 && v[i + n - 1] == '\r' { i + n - 1 } else { i + n };
        let line: String = string_of(&v, i, end);
        assert(line@ =~= without_cr(rest.take(n as int)));
        r.push(line);
        assert(rest.skip(n + 1) =~= v@.skip(i + n + 1));
        assert(r.deep_view() + lines_of(v@.skip(i + n + 1)) =~= before + (seq![
            without_cr(rest.take(n as int)),
        ] + lines_of(rest.skip(n + 1))));
        i = i + n + 1;
    }
    assert(r.deep_view() + Seq::<Seq<char>>::empty() =~= r.deep_view());
    r
}

/// See [`indent_of`].
pub fn indent(s: &str) -> (r: u128)
    ensures
        r == indent_of(s@),
{
    let v: Vec<char> = chars_of(s);
    let mut i: usize = 0;
    let mut r: u128 = 0;
    assert(v@.skip(0) == s@);
    while i < v.len() && is_white(v[i])
        invariant
            i <= v@.len(),
            v@ == s@,
            r <= 4 * i,
            indent_of(s@) == r + indent_of(v@.skip(i as int)),
        decreases v@.len() - i,
    {
        assert(v@.skip(i as int).drop_first() == v@.skip(i + 1));
        r += char_width(v[i]) as u128;
        i += 1;
    }
    r
}

/// See [`width`].
pub fn char_width(c: char) -> (r: usize)
    ensures
        r == width(c),
{
    let u: u32 = c as u32;
    if u <= 0x7f {
        1
    } else if u <= 0x7ff {
        2
    } else if u <= 0xffff {
        3
    } else {
        4
    }
}

/// See [`from_byte`].
pub fn skip_bytes(s: &str, n: usize) -> (r: &str)
    ensures
        r@ == from_byte(s@, n as int),
{
    let v: Vec<char> = chars_of(s);
    let mut i: usize = 0;
    let mut left: usize = n;
    assert(v@.skip(0) == s@);
    while left > 0 && i < v.len()
        invariant
            i <= v@.len(),
            v@ == s@,
            from_byte(s@, n as int) == from_byte(v@.skip(i as int), left as int),
        decreases v@.len() - i,
    {
        assert(v@.skip(i as int).drop_first() == v@.skip(i + 1));
        let w: usize = char_width(v[i]);
        if w < left {
            left = left - w;
        } else {
            assert(from_byte(v@.skip(i + 1), 0) == from_byte(v@.skip(i + 1), left - w));
            left = 0;
        }
        i += 1;
    }
    s.substring_char(i, v.len())
}

/// See [`up_to_byte`].
pub fn take_bytes(s: &str, n: usize) -> (r: &str)
    ensures
        r@ == up_to_byte(s@, n as int),
{
    let v: Vec<char> = chars_of(s);
    let mut i: usize = 0;
    let mut left: usize = n;
    assert(v@.skip(0) == s@);
    assert(v@.take(0) + up_to_byte(s@, n as int) =~= up_to_byte(s@, n as int));
    while left > 0 && i < v.len()
        invariant
            i <= v@.len(),
            v@ == s@,
            up_to_byte(s@, n as int) == v@.take(i as int) + up_to_byte(
                v@.skip(i as int),
                left as int,
            ),
        decreases v@.len() - i,
    {
        let w: usize = char_width(v[i]);
        let ghost rest = v@.skip(i as int);
        let ghost tail = up_to_byte(v@.skip(i + 1), left - w);
        assert(rest.drop_first() == v@.skip(i + 1));
        assert(v@.take(i as int) + (seq![v@[i as int]] + tail) =~= v@.take(i + 1) + tail);
        if w < left {
            left = left - w;
        } else {
            assert(tail == up_to_byte(v@.skip(i + 1), 0));
            left = 0;
        }
        i += 1;
    }
    assert(v@.take(i as int) + Seq::<char>::empty() =~= v@.take(i as int));
    s.substring_char(0, i)
}

/// Does `s` end before byte `n`, or have a character boundary there?
pub fn cuts(s: &str, n: usize) -> (r: bool)
    ensures
        r == cuts_at(s@, n as int),
{
    let head: Vec<char> = chars_of(take_bytes(s, n));
    let mut left: usize = n;
    let mut i: usize = 0;
    assert(head@.skip(0) == head@);
    while i < head.len()
        invariant
            i <= head@.len(),
            head@ == up_to_byte(s@, n as int),
            byte_len(head@) == n - left + byte_len(head@.skip(i as int)),
            left <= n,
        decreases head@.len() - i,
    {
        assert(head@.skip(i as int).drop_first() == head@.skip(i + 1));
        let w: usize = char_width(head[i]);
        if w > left {
            return false;
        }
        left = left - w;
        i += 1;
    }
    true
}

/// See [`lower`].
pub fn to_lower(s: &str) -> (r: String)
    ensures
        r@ == lower(s@),
{
    let v: Vec<char> = chars_of(s);
    let mut r: String = String::new();
    let mut i: usize = 0;
    while i < v.len()
        invariant
            i <= v@.len(),
            r@ == lower(v@.take(i as int)),
        decreases v@.len() - i,
    {
        let c: char = v[i];
        r.push(to_lower_char(c));
        i += 1;
        assert(lower(v@.take(i as int)) =~= lower(v@.take(i - 1)).push(lower_char(v@[i - 1])));
    }
    assert(v@.take(v@.len() as int) =~= s@);
    r
}

/// See [`lower_char`].
pub fn to_lower_char(c: char) -> (r: char)
    ensures
        r == lower_char(c),
{
    if 'A' <= c && c <= 'Z' {
        (c as u8 + 32) as char
    } else {
        c
    }
}

/// See [`joined`].
pub fn join(parts: &Vec<String>, sep: &str) -> (r: String)
    ensures
        r@ == joined(parts.deep_view(), sep@),
{
    let mut r: String = String::new();
    let mut i: usize = 0;
    while i < parts.len()
        invariant
            i <= parts@.len(),
            r@ == joined(parts.deep_view().take(i as int), sep@),
        decreases parts@.len() - i,
    {
        let ghost upto = parts.deep_view().take(i + 1);
        assert(upto.drop_last() =~= parts.deep_view().take(i as int));
        if i > 0 {
            r.append(sep);
        }
        r.append(parts[i].as_str());
        assert(i == 0 ==> r@ =~= upto[0]);
        i += 1;
    }
    assert(parts.deep_view().take(parts@.len() as int) =~= parts.deep_view());
    r
}

/// The decimal numeral of `n`.
pub fn show(n: u64) -> (r: String)
    ensures
        r@ == decimal(n as nat),
    decreases n,
{
    let mut r: String = if n < 10 { String::new() } else { show(n / 10) };
    r.push(('0' as u8 + (n % 10) as u8) as char);
    assert(n < 10 ==> r@ =~= seq![digit(n as nat)]);
    r
}

/// Is `c` an ASCII hexadecimal digit?
pub fn is_hex_digit(c: char) -> (r: bool)
    ensures
        r == hex_digit(c),
{
    ('0' <= c && c <= '9') || ('a' <= c && c <= 'f') || ('A' <= c && c <= 'F')
}

/// See [`number`].
pub fn parse_number(s: &str) -> (r: Option<u64>)
    ensures
        match (r, number(s@, u64::MAX as nat)) {
            (Some(n), Some(k)) => n == k,
            (None, None) => true,
            _ => false,
        },
{
    let v: Vec<char> = chars_of(s);
    let start: usize = if v.len() > 0 && v[0] == '+' { 1 } else { 0 };
    let ghost d = numeral(s@);
    assert(d =~= v@.skip(start as int));
    if start == v.len() {
        return None;
    }
    let mut i: usize = start;
    let mut n: u64 = 0;
    assert(d.take(0) =~= Seq::<char>::empty());
    while i < v.len()
        invariant
            start <= i <= v@.len(),
            d == v@.skip(start as int),
            d == numeral(s@),
            n == value_of(d.take(i - start)),
            forall|k: int| 0 <= k < i - start ==> is_digit(d[k]),
        decreases v@.len() - i,
    {
        let c: char = v[i];
        assert(c == d[i - start]);
        let code: u32 = c as u32;
        if code < 0x30 || code > 0x39 {
            assert(!is_digit(d[i - start]));
            return None;
        }
        let x: u64 = (code - 0x30) as u64;
        proof {
            let t = d.take(i - start + 1);
            assert(t.drop_last() =~= d.take(i - start));
            assert(value_of(t) == n * 10 + x);
        }
        if n > (u64::MAX - x) / 10 {
            proof {
                assert(n * 10 + x > u64::MAX);
                lemma_value_grows(d, i - start + 1);
            }
            return None;
        }
        n = n * 10 + x;
        i += 1;
    }
    assert(d.take(d.len() as int) =~= d);
    Some(n)
}

/// A numeral's value is at least that of any prefix.
proof fn lemma_value_grows(d: Seq<char>, k: int)
    requires
        0 <= k <= d.len(),
    ensures
        value_of(d.take(k)) <= value_of(d),
    decreases d.len() - k,
{
    if k < d.len() {
        lemma_value_grows(d, k + 1);
        assert(d.take(k + 1).drop_last() =~= d.take(k));
    } else {
        assert(d.take(k) =~= d);
    }
}

/// Is `s` one of `list`?
pub fn listed(list: &Vec<String>, s: &str) -> (r: bool)
    ensures
        r == list.deep_view().contains(s@),
{
    let mut i: usize = 0;
    while i < list.len()
        invariant
            i <= list@.len(),
            forall|j: int| 0 <= j < i ==> list.deep_view()[j] != s@,
        decreases list@.len() - i,
    {
        if same(list[i].as_str(), s) {
            assert(list.deep_view()[i as int] == s@);
            return true;
        }
        i += 1;
    }
    false
}

/// A copy of `list`.
pub fn copy_all(list: &Vec<String>) -> (r: Vec<String>)
    ensures
        r.deep_view() == list.deep_view(),
{
    let r = list.clone();
    assert(r.deep_view() =~= list.deep_view());
    r
}

/// What stands in `s` before the first `sep`, or all of `s` where there is none.
pub open spec fn before(s: Seq<char>, sep: Seq<char>) -> Seq<char> {
    match found_at(s, sep) {
        Some(k) => s.take(k),
        None => s,
    }
}

/// See [`before`].
pub fn take_before<'a>(s: &'a str, sep: &str) -> (r: &'a str)
    ensures
        r@ == before(s@, sep@),
{
    match find(s, sep) {
        Some(k) => s.substring_char(0, k),
        None => s,
    }
}

/// Does `s` open with white space?
pub open spec fn opens_white(s: Seq<char>) -> bool {
    s.len() > 0 && white(s[0])
}

/// See [`opens_white`].
pub fn starts_white(s: &str) -> (r: bool)
    ensures
        r == opens_white(s@),
{
    let v: Vec<char> = chars_of(s);
    v.len() > 0 && is_white(v[0])
}

/// Does `s` hold no character at all?
pub fn is_empty(s: &str) -> (r: bool)
    ensures
        r == (s@.len() == 0),
{
    s.unicode_len() == 0
}

/// `list` without the items that repeat an earlier one.
pub open spec fn distinct(list: Seq<Seq<char>>) -> Seq<Seq<char>>
    decreases list.len(),
{
    if list.len() == 0 {
        list
    } else {
        with_new(distinct(list.drop_last()), list.last())
    }
}

/// `list` with `item` at its end, unless `list` holds it already.
pub open spec fn with_new(list: Seq<Seq<char>>, item: Seq<char>) -> Seq<Seq<char>> {
    if list.contains(item) {
        list
    } else {
        list.push(item)
    }
}

/// `list` with the items that it does not hold yet, each once.
pub open spec fn with_all(list: Seq<Seq<char>>, items: Seq<Seq<char>>) -> Seq<Seq<char>>
    decreases items.len(),
{
    if items.len() == 0 {
        list
    } else {
        with_new(with_all(list, items.drop_last()), items.last())
    }
}

/// Appends the items that `list` does not hold yet, each once.
pub fn push_all_new(list: &mut Vec<String>, items: &Vec<String>)
    ensures
        final(list).deep_view() == with_all(old(list).deep_view(), items.deep_view()),
{
    let ghost m = items.deep_view();
    let ghost start = list.deep_view();
    let mut i: usize = 0;
    while i < items.len()
        invariant
            i <= items@.len(),
            m == items.deep_view(),
            list.deep_view() == with_all(start, m.take(i as int)),
            start == old(list).deep_view(),
        decreases items@.len() - i,
    {
        proof {
            assert(m.take(i + 1).drop_last() =~= m.take(i as int));
            assert(m.take(i + 1).last() == items@[i as int]@);
        }
        push_new(list, items[i].clone());
        i += 1;
    }
    assert(m.take(m.len() as int) =~= m);
}

/// A list without repetitions grows by the items that it does not hold yet.
pub proof fn lemma_distinct_append(a: Seq<Seq<char>>, b: Seq<Seq<char>>)
    ensures
        distinct(a + b) == with_all(distinct(a), b),
    decreases b.len(),
{
    if b.len() == 0 {
        assert(a + b =~= a);
    } else {
        lemma_distinct_append(a, b.drop_last());
        assert(a + b =~= (a + b.drop_last()).push(b.last()));
        lemma_distinct_push(a + b.drop_last(), b.last());
    }
}

/// The items that `pick` finds at the positions below `n`, in order.
pub open spec fn gathered(n: int, pick: spec_fn(int) -> Option<Seq<char>>) -> Seq<Seq<char>>
    decreases n,
{
    if n <= 0 {
        seq![]
    } else {
        match pick(n - 1) {
            Some(item) => gathered(n - 1, pick).push(item),
            None => gathered(n - 1, pick),
        }
    }
}

/// Appends `item` unless `list` holds it already.
pub fn push_new(list: &mut Vec<String>, item: String)
    ensures
        final(list).deep_view() == with_new(old(list).deep_view(), item@),
{
    if !listed(list, &item) {
        list.push(item);
        assert(list.deep_view() =~= old(list).deep_view().push(item@));
    }
}

/// How [`distinct`] grows with the list.
pub proof fn lemma_distinct_push(list: Seq<Seq<char>>, item: Seq<char>)
    ensures
        distinct(list.push(item)) == with_new(distinct(list), item),
{
    assert(list.push(item).drop_last() =~= list);
}

/// Nothing repeats in [`distinct`], and it holds what the list holds.
pub proof fn lemma_distinct(list: Seq<Seq<char>>)
    ensures
        distinct(list).no_duplicates(),
        forall|x: Seq<char>| #[trigger] distinct(list).contains(x) <==> list.contains(x),
    decreases list.len(),
{
    if list.len() > 0 {
        let head = list.drop_last();
        let d = distinct(head);
        let item = list.last();
        lemma_distinct(head);
        assert forall|x: Seq<char>| list.contains(x) <==> head.contains(x) || x == item by {
            if list.contains(x) {
                let i = choose|i: int| 0 <= i < list.len() && list[i] == x;
                if i < head.len() {
                    assert(head[i] == x);
                }
            }
            if head.contains(x) {
                let i = choose|i: int| 0 <= i < head.len() && head[i] == x;
                assert(list[i] == x);
            }
            assert(list[list.len() - 1] == item);
        }
        assert forall|x: Seq<char>| #[trigger] with_new(d, item).contains(x) <==> d.contains(x) || x
            == item by {
            let e = with_new(d, item);
            if e.contains(x) && x != item {
                let i = choose|i: int| 0 <= i < e.len() && e[i] == x;
                assert(d[i] == x);
            }
            if d.contains(x) {
                let i = choose|i: int| 0 <= i < d.len() && d[i] == x;
                assert(e[i] == x);
            }
            if x == item && !d.contains(item) {
                assert(e[d.len() as int] == x);
            }
        }
    }
}

/// To leave out repetitions and to leave out items by a test are independent.
pub proof fn lemma_distinct_filter(list: Seq<Seq<char>>, keep: spec_fn(Seq<char>) -> bool)
    ensures
        distinct(list.filter(keep)) == distinct(list).filter(keep),
    decreases list.len(),
{
    reveal(Seq::filter);
    if list.len() > 0 {
        let head = list.drop_last();
        let item = list.last();
        let d = distinct(head);
        lemma_distinct_filter(head, keep);
        assert(d.push(item).drop_last() =~= d);
        if keep(item) {
            lemma_distinct_push(head.filter(keep), item);
            assert(d.filter(keep).contains(item) <==> d.contains(item)) by {
                if d.contains(item) {
                    let i = choose|i: int| 0 <= i < d.len() && d[i] == item;
                    d.lemma_filter_contains(keep, i);
                }
                if d.filter(keep).contains(item) {
                    d.lemma_filter_contains_rev(keep, item);
                }
            }
        }
    }
}

/// Is there no line feed in `s`?
pub open spec fn one_line(s: Seq<char>) -> bool {
    forall|i: int| 0 <= i < s.len() ==> #[trigger] s[i] != '\n'
}

/// Does `mark` stand nowhere in `s`?
pub open spec fn lacks(s: Seq<char>, mark: char) -> bool {
    forall|i: int| 0 <= i < s.len() ==> #[trigger] s[i] != mark
}

/// The first piece of a text that begins with `a` and a mark.
pub proof fn lemma_pieces_step(a: Seq<char>, rest: Seq<char>, mark: char)
    requires
        lacks(a, mark),
    ensures
        pieces(a + seq![mark] + rest, mark) == seq![a] + pieces(rest, mark),
{
    let s = a + seq![mark] + rest;
    let n = a.len() as int;
    assert(s[n] == mark);
    assert forall|i: int| 0 <= i < n implies CharClass::IsNot(mark).has(#[trigger] s[i]) by {
        assert(s[i] == a[i]);
    }
    lemma_span_is(s, CharClass::IsNot(mark), n);
    assert(s.take(n) =~= a);
    assert(s.skip(n + 1) =~= rest);
}

/// A text without a mark is one piece.
pub proof fn lemma_last_piece(s: Seq<char>, mark: char)
    requires
        lacks(s, mark),
    ensures
        pieces(s, mark) == seq![s],
{
    assert forall|i: int| 0 <= i < s.len() implies CharClass::IsNot(mark).has(#[trigger] s[i]) by {}
    lemma_span_is(s, CharClass::IsNot(mark), s.len() as int);
}

/// A text is its pieces with marks between them, and no piece holds one.
pub proof fn lemma_pieces_rejoin(s: Seq<char>, mark: char)
    ensures
        pieces(s, mark).len() > 0,
        joined(pieces(s, mark), seq![mark]) == s,
        forall|i: int| 0 <= i < pieces(s, mark).len() ==> lacks(#[trigger] pieces(s, mark)[i], mark),
    decreases s.len(),
{
    let class = CharClass::IsNot(mark);
    let n = span(s, class) as int;
    lemma_span_has(s, class);
    assert forall|i: int| 0 <= i < n implies #[trigger] s[i] != mark by {
        assert(class.has(s[i]));
    }
    if n < s.len() {
        let a = s.take(n);
        let rest = s.skip(n + 1);
        let all = pieces(s, mark);
        lemma_pieces_rejoin(rest, mark);
        assert(all.drop_first() =~= pieces(rest, mark));
        lemma_joined_front(all, seq![mark]);
        assert(a + seq![mark] + rest =~= s);
        assert(lacks(a, mark));
        assert forall|i: int| 0 <= i < all.len() implies lacks(#[trigger] all[i], mark) by {
            if i > 0 {
                assert(all[i] == pieces(rest, mark)[i - 1]);
            }
        }
    }
}

/// A numeral holds nothing but digits behind a plus sign.
pub proof fn lemma_number_lacks(s: Seq<char>, max: nat, mark: char)
    requires
        number(s, max) is Some,
        mark != '+',
        !is_digit(mark),
    ensures
        lacks(s, mark),
{
    let d = numeral(s);
    assert forall|i: int| 0 <= i < s.len() implies #[trigger] s[i] != mark by {
        if s[0] == '+' {
            if i > 0 {
                assert(is_digit(d[i - 1]));
            }
        } else {
            assert(is_digit(d[i]));
        }
    }
}

/// A span ends at the first character outside the class.
pub proof fn lemma_span_is(s: Seq<char>, class: CharClass, n: int)
    requires
        0 <= n <= s.len(),
        forall|i: int| 0 <= i < n ==> class.has(#[trigger] s[i]),
        n < s.len() ==> !class.has(s[n]),
    ensures
        span(s, class) == n,
    decreases n,
{
    if n > 0 {
        let t = s.drop_first();
        assert forall|i: int| 0 <= i < n - 1 implies class.has(#[trigger] t[i]) by {
            assert(t[i] == s[i + 1]);
        }
        lemma_span_is(t, class, n - 1);
        assert(class.has(s[0]));
    }
}

/// What a span ranges over belongs to the class, and what follows it does not.
pub proof fn lemma_span_has(s: Seq<char>, class: CharClass)
    ensures
        0 <= span(s, class) <= s.len(),
        forall|i: int| 0 <= i < span(s, class) ==> class.has(#[trigger] s[i]),
        span(s, class) < s.len() ==> !class.has(s[span(s, class) as int]),
    decreases s.len(),
{
    if s.len() > 0 && class.has(s[0]) {
        let t = s.drop_first();
        lemma_span_has(t, class);
        assert forall|i: int| 0 <= i < span(s, class) implies class.has(#[trigger] s[i]) by {
            if i > 0 {
                assert(t[i - 1] == s[i]);
            }
        }
    }
}

/// Joined texts begin with the first of them.
pub proof fn lemma_joined_front(parts: Seq<Seq<char>>, sep: Seq<char>)
    requires
        parts.len() >= 2,
    ensures
        joined(parts, sep) == parts[0] + sep + joined(parts.drop_first(), sep),
    decreases parts.len(),
{
    let rest = parts.drop_first();
    if parts.len() == 2 {
        assert(joined(parts.drop_last(), sep) == parts[0]);
        assert(joined(rest, sep) == parts[1]);
    } else {
        lemma_joined_front(parts.drop_last(), sep);
        assert(parts.drop_last().drop_first() =~= rest.drop_last());
        assert(joined(parts, sep) =~= parts[0] + sep + joined(rest, sep));
    }
}

/// The first line of a text that begins with `a` and a line feed.
pub proof fn lemma_lines_step(a: Seq<char>, rest: Seq<char>)
    requires
        one_line(a),
    ensures
        lines_of(a + "\n"@ + rest) == seq![without_cr(a)] + lines_of(rest),
{
    reveal_strlit("\n");
    let s = a + "\n"@ + rest;
    let n = a.len() as int;
    assert(s[n] == '\n');
    assert forall|i: int| 0 <= i < n implies CharClass::IsNot('\n').has(#[trigger] s[i]) by {
        assert(s[i] == a[i]);
    }
    lemma_span_is(s, CharClass::IsNot('\n'), n);
    assert(s.take(n) =~= a);
    assert(s.skip(n + 1) =~= rest);
}

/// A text without a line feed is one line.
pub proof fn lemma_last_line(s: Seq<char>)
    requires
        one_line(s),
        s.len() > 0,
    ensures
        lines_of(s) == seq![s],
{
    assert forall|i: int| 0 <= i < s.len() implies CharClass::IsNot('\n').has(#[trigger] s[i]) by {}
    lemma_span_is(s, CharClass::IsNot('\n'), s.len() as int);
}

/// Each of the lines without the carriage return that may end it.
pub open spec fn all_without_cr(lines: Seq<Seq<char>>) -> Seq<Seq<char>> {
    Seq::new(lines.len(), |i: int| without_cr(lines[i]))
}

/// The lines of joined lines that a line feed ends.
pub proof fn lemma_lines_of_joined(lines: Seq<Seq<char>>)
    requires
        lines.len() > 0,
        forall|i: int| 0 <= i < lines.len() ==> one_line(#[trigger] lines[i]),
    ensures
        lines_of(joined(lines, "\n"@) + "\n"@) == all_without_cr(lines),
    decreases lines.len(),
{
    let a = lines[0];
    if lines.len() == 1 {
        lemma_lines_step(a, seq![]);
        assert(a + "\n"@ + Seq::<char>::empty() =~= a + "\n"@);
        assert(seq![without_cr(a)] + lines_of(Seq::<char>::empty()) =~= all_without_cr(lines));
    } else {
        let rest = lines.drop_first();
        lemma_joined_front(lines, "\n"@);
        assert forall|i: int| 0 <= i < rest.len() implies one_line(#[trigger] rest[i]) by {
            assert(rest[i] == lines[i + 1]);
        }
        lemma_lines_of_joined(rest);
        let tail = joined(rest, "\n"@) + "\n"@;
        lemma_lines_step(a, tail);
        assert(joined(lines, "\n"@) + "\n"@ =~= a + "\n"@ + tail);
        assert(seq![without_cr(a)] + all_without_cr(rest) =~= all_without_cr(lines));
    }
}

/// The lines of joined lines that nothing ends.
pub proof fn lemma_lines_of_joined_open(lines: Seq<Seq<char>>)
    requires
        lines.len() > 0,
        forall|i: int| 0 <= i < lines.len() ==> one_line(#[trigger] lines[i]),
    ensures
        lines_of(joined(lines, "\n"@)) == if lines.last().len() == 0 {
            all_without_cr(lines.drop_last())
        } else {
            all_without_cr(lines.drop_last()).push(lines.last())
        },
    decreases lines.len(),
{
    let a = lines[0];
    if lines.len() == 1 {
        assert(all_without_cr(lines.drop_last()) =~= seq![]);
        assert(lines.last() == a);
        if a.len() > 0 {
            lemma_last_line(a);
            assert(seq![a] =~= Seq::<Seq<char>>::empty().push(a));
        }
    } else {
        let rest = lines.drop_first();
        lemma_joined_front(lines, "\n"@);
        assert forall|i: int| 0 <= i < rest.len() implies one_line(#[trigger] rest[i]) by {
            assert(rest[i] == lines[i + 1]);
        }
        lemma_lines_of_joined_open(rest);
        lemma_lines_step(a, joined(rest, "\n"@));
        assert(rest.last() == lines.last());
        assert(seq![without_cr(a)] + all_without_cr(rest.drop_last()) =~= all_without_cr(
            lines.drop_last(),
        ));
        assert(seq![without_cr(a)] + all_without_cr(rest.drop_last()).push(lines.last())
            =~= all_without_cr(lines.drop_last()).push(lines.last()));
    }
}

/// No line holds a line feed.
pub proof fn lemma_lines_are_lines(s: Seq<char>)
    ensures
        forall|i: int| 0 <= i < lines_of(s).len() ==> one_line(#[trigger] lines_of(s)[i]),
    decreases s.len(),
{
    if s.len() > 0 {
        let class = CharClass::IsNot('\n');
        let n = span(s, class) as int;
        lemma_span_has(s, class);
        assert forall|i: int| 0 <= i < n implies #[trigger] s[i] != '\n' by {
            assert(class.has(s[i]));
        }
        if n < s.len() {
            let a = s.take(n);
            assert(one_line(a));
            assert(one_line(without_cr(a)));
            lemma_lines_are_lines(s.skip(n + 1));
            assert forall|i: int| 0 <= i < lines_of(s).len() implies one_line(
                #[trigger] lines_of(s)[i],
            ) by {
                if i > 0 {
                    assert(lines_of(s)[i] == lines_of(s.skip(n + 1))[i - 1]);
                }
            }
        }
    }
}

/// When a text ends in a line feed.
pub proof fn lemma_ends_in_break(s: Seq<char>)
    ensures
        "\n"@.is_suffix_of(s) <==> s.len() > 0 && s.last() == '\n',
{
    reveal_strlit("\n");
    if s.len() > 0 {
        let end = s.subrange(s.len() - 1, s.len() as int);
        assert(end[0] == s.last());
        if s.last() == '\n' {
            assert(end =~= "\n"@);
        } else {
            assert("\n"@[0] == '\n');
        }
    }
}

/// A text is its lines with line feeds between them and, where it ends in one, one at
/// the end, unless a carriage return stands before a line feed.
pub proof fn lemma_lines_rejoin(s: Seq<char>)
    requires
        !holds_text(s, "\r\n"@),
    ensures
        joined(lines_of(s), "\n"@) + (if "\n"@.is_suffix_of(s) {
            "\n"@
        } else {
            ""@
        }) == s,
    decreases s.len(),
{
    reveal_strlit("\n");
    reveal_strlit("");
    reveal_strlit("\r\n");
    if s.len() == 0 {
        assert(s =~= joined(lines_of(s), "\n"@) + ""@);
    } else {
        let class = CharClass::IsNot('\n');
        let n = span(s, class) as int;
        lemma_span_has(s, class);
        if n < s.len() {
            let a = s.take(n);
            let rest = s.skip(n + 1);
            assert(s[n] == '\n');
            if a.len() > 0 && a.last() == '\r' {
                assert(s.subrange(n - 1, n + 1) =~= "\r\n"@);
                assert(occurs_at(s, "\r\n"@, n - 1));
            }
            assert(without_cr(a) == a);
            assert forall|i: int| !occurs_at(rest, "\r\n"@, i) by {
                if occurs_at(rest, "\r\n"@, i) {
                    assert(s.subrange(i + n + 1, i + n + 3) =~= rest.subrange(i, i + 2));
                    assert(occurs_at(s, "\r\n"@, i + n + 1));
                }
            }
            lemma_lines_rejoin(rest);
            assert(lines_of(s) == seq![a] + lines_of(rest));
            if rest.len() == 0 {
                assert(seq![a] + lines_of(rest) =~= seq![a]);
                assert("\n"@.is_suffix_of(s)) by {
                    assert(s.subrange(s.len() - 1, s.len() as int) =~= "\n"@);
                }
                assert(a + "\n"@ =~= s);
            } else {
                assert(lines_of(rest).len() > 0);
                lemma_joined_front(lines_of(s), "\n"@);
                assert(lines_of(s).drop_first() =~= lines_of(rest));
                lemma_ends_in_break(s);
                lemma_ends_in_break(rest);
                assert(s =~= a + "\n"@ + rest);
                assert(rest.last() == s.last());
                let end = if "\n"@.is_suffix_of(s) {
                    "\n"@
                } else {
                    ""@
                };
                assert(joined(lines_of(s), "\n"@) + end =~= a + "\n"@ + (joined(
                    lines_of(rest),
                    "\n"@,
                ) + end));
            }
        } else {
            assert(!("\n"@.is_suffix_of(s))) by {
                if "\n"@.is_suffix_of(s) {
                    assert(s.subrange(s.len() - 1, s.len() as int)[0] == '\n');
                    assert(class.has(s[s.len() - 1]));
                }
            }
            assert(joined(seq![s], "\n"@) == s);
            assert(s + ""@ =~= s);
        }
    }
}

/// White space at the end of a line is of no account to its trimmed text.
pub proof fn lemma_trimmed_drop_last(s: Seq<char>)
    requires
        s.len() > 0,
        white(s.last()),
    ensures
        trimmed(s.drop_last()) == trimmed(s),
    decreases s.len(),
{
    let t = s.drop_last();
    let w = CharClass::White;
    if !white(s[0]) {
        assert(s.len() >= 2);
        assert(t[0] == s[0]);
        assert(drop_front(s, w) =~= s);
        assert(drop_front(t, w) =~= t);
        lemma_span_back_bound(t, w);
        assert(drop_back(s, w) =~= drop_back(t, w));
    } else if s.len() == 1 {
        assert(span(s.drop_first(), w) == 0);
        assert(drop_front(s, w) =~= seq![]);
        assert(drop_front(t, w) =~= seq![]);
    } else {
        let u = s.drop_first();
        assert(u.last() == s.last());
        lemma_trimmed_drop_last(u);
        assert(t.drop_first() =~= u.drop_last());
        assert(t[0] == s[0]);
        lemma_span_bound(u, w);
        lemma_span_bound(u.drop_last(), w);
        assert(drop_front(s, w) =~= drop_front(u, w));
        assert(drop_front(t, w) =~= drop_front(u.drop_last(), w));
    }
}

/// A carriage return at the end of a line is of no account to its trimmed text.
pub proof fn lemma_trimmed_without_cr(s: Seq<char>)
    ensures
        trimmed(without_cr(s)) == trimmed(s),
{
    if s.len() > 0 && s.last() == '\r' {
        lemma_trimmed_drop_last(s);
    }
}

/// A result as a mathematical value, with its error as a text.
pub open spec fn result_view<T: DeepView>(r: Result<T, String>) -> Result<T::V, Seq<char>> {
    match r {
        Ok(v) => Ok(v.deep_view()),
        Err(e) => Err(e@),
    }
}

/// A copy of a text that may be absent.
pub fn copy_option(text: &Option<String>) -> (r: Option<String>)
    ensures
        r.deep_view() == text.deep_view(),
{
    match text {
        Some(text) => Some(text.clone()),
        None => None,
    }
}

/// A text that may be absent, compared with one that is not.
pub fn is_text(text: &Option<String>, want: &str) -> (r: bool)
    ensures
        r == (text.deep_view() == Some(want@)),
{
    match text {
        Some(text) => same(text, want),
        None => false,
    }
}

/// The two texts, one after the other.
pub fn cat2(a: &str, b: &str) -> (r: String)
    ensures
        r@ == a@ + b@,
{
    let mut r: String = a.to_owned();
    r.append(b);
    r
}

/// The three texts, one after the other.
pub fn cat3(a: &str, b: &str, c: &str) -> (r: String)
    ensures
        r@ == a@ + b@ + c@,
{
    let mut r: String = cat2(a, b);
    r.append(c);
    r
}

/// The four texts, one after the other.
pub fn cat4(a: &str, b: &str, c: &str, d: &str) -> (r: String)
    ensures
        r@ == a@ + b@ + c@ + d@,
{
    let mut r: String = cat3(a, b, c);
    r.append(d);
    r
}

/// The five texts, one after the other.
pub fn cat5(a: &str, b: &str, c: &str, d: &str, e: &str) -> (r: String)
    ensures
        r@ == a@ + b@ + c@ + d@ + e@,
{
    let mut r: String = cat4(a, b, c, d);
    r.append(e);
    r
}

/// The six texts, one after the other.
pub fn cat6(a: &str, b: &str, c: &str, d: &str, e: &str, f: &str) -> (r: String)
    ensures
        r@ == a@ + b@ + c@ + d@ + e@ + f@,
{
    let mut r: String = cat5(a, b, c, d, e);
    r.append(f);
    r
}

/// The seven texts, one after the other.
pub fn cat7(a: &str, b: &str, c: &str, d: &str, e: &str, f: &str, g: &str) -> (r: String)
    ensures
        r@ == a@ + b@ + c@ + d@ + e@ + f@ + g@,
{
    let mut r: String = cat6(a, b, c, d, e, f);
    r.append(g);
    r
}

/// A span at the end begins behind the last character outside the class.
pub proof fn lemma_span_back_is(s: Seq<char>, class: CharClass, n: int)
    requires
        0 <= n <= s.len(),
        forall|i: int| s.len() - n <= i < s.len() ==> class.has(#[trigger] s[i]),
        n < s.len() ==> !class.has(s[s.len() - n - 1]),
    ensures
        span_back(s, class) == n,
    decreases n,
{
    if n > 0 {
        let t = s.drop_last();
        assert forall|i: int| t.len() - (n - 1) <= i < t.len() implies class.has(#[trigger] t[i]) by {
            assert(t[i] == s[i]);
        }
        lemma_span_back_is(t, class, n - 1);
        assert(class.has(s[s.len() - 1]));
    }
}

/// Does `s` hold white space alone?
pub open spec fn all_white(s: Seq<char>) -> bool {
    forall|i: int| 0 <= i < s.len() ==> white(#[trigger] s[i])
}

/// To trim a text takes the white space at either end and nothing else: what stands between
/// white space and neither begins nor ends with any is what is left.
pub proof fn trimming_takes_the_white_space_at_the_ends(a: Seq<char>, t: Seq<char>, b: Seq<char>)
    requires
        all_white(a),
        all_white(b),
        t.len() > 0 ==> !white(t[0]) && !white(t.last()),
    ensures
        trimmed(a + t + b) == t,
{
    let s = a + t + b;
    let w = CharClass::White;
    if t.len() == 0 {
        assert forall|i: int| 0 <= i < s.len() implies w.has(#[trigger] s[i]) by {
            if i < a.len() {
                assert(s[i] == a[i]);
            } else {
                assert(s[i] == b[i - a.len()]);
            }
        }
        lemma_span_is(s, w, s.len() as int);
        assert(drop_front(s, w) =~= seq![]);
        assert(trimmed(s) =~= t);
    } else {
        let n = a.len() as int;
        assert forall|i: int| 0 <= i < n implies w.has(#[trigger] s[i]) by {
            assert(s[i] == a[i]);
        }
        assert(s[n] == t[0]);
        lemma_span_is(s, w, n);
        let u = t + b;
        assert(drop_front(s, w) =~= u);
        assert forall|i: int| u.len() - b.len() <= i < u.len() implies w.has(#[trigger] u[i]) by {
            assert(u[i] == b[i - t.len()]);
        }
        assert(u[u.len() - b.len() - 1] == t.last());
        lemma_span_back_is(u, w, b.len() as int);
        assert(drop_back(u, w) =~= t);
    }
}

/// The first word of a text that begins with one is that word.
pub proof fn the_first_word_comes_first(word: Seq<char>, tail: Seq<char>)
    requires
        word.len() > 0,
        forall|i: int| 0 <= i < word.len() ==> !white(#[trigger] word[i]),
        tail.len() > 0 ==> white(tail[0]),
    ensures
        words_of(word + tail) == seq![word] + words_of(tail),
{
    let s = word + tail;
    let n = word.len() as int;
    assert(s[0] == word[0]);
    lemma_span_is(s, CharClass::White, 0);
    assert(drop_front(s, CharClass::White) =~= s);
    assert forall|i: int| 0 <= i < n implies CharClass::Dark.has(#[trigger] s[i]) by {
        assert(s[i] == word[i]);
    }
    if n < s.len() {
        assert(s[n] == tail[0]);
    }
    lemma_span_is(s, CharClass::Dark, n);
    assert(s.take(n) =~= word);
    assert(s.skip(n) =~= tail);
}

/// White space ahead of a text is of no account to its words, and white space alone has none.
pub proof fn white_space_holds_no_word(a: Seq<char>, s: Seq<char>)
    requires
        all_white(a),
    ensures
        words_of(a + s) == words_of(s),
        words_of(a).len() == 0,
    decreases a.len(),
{
    let w = CharClass::White;
    assert forall|i: int| 0 <= i < a.len() implies w.has(#[trigger] a[i]) by {}
    lemma_span_is(a, w, a.len() as int);
    assert(drop_front(a, w) =~= seq![]);
    if a.len() == 0 {
        assert(a + s =~= s);
    } else {
        let b = a.drop_first();
        assert forall|i: int| 0 <= i < b.len() implies white(#[trigger] b[i]) by {
            assert(b[i] == a[i + 1]);
        }
        white_space_holds_no_word(b, s);
        assert((a + s).drop_first() =~= b + s);
        assert((a + s)[0] == a[0]);
        lemma_span_bound(b + s, w);
        assert(drop_front(a + s, w) =~= drop_front(b + s, w));
    }
}

/// What two picks agree on is gathered alike.
pub proof fn lemma_gathered_alike(
    n: int,
    f: spec_fn(int) -> Option<Seq<char>>,
    g: spec_fn(int) -> Option<Seq<char>>,
)
    requires
        forall|i: int| 0 <= i < n ==> #[trigger] f(i) == g(i),
    ensures
        gathered(n, f) == gathered(n, g),
    decreases n,
{
    if n > 0 {
        lemma_gathered_alike(n - 1, f, g);
        assert(f(n - 1) == g(n - 1));
    }
}

/// A numeral is made of digits, has no leading zero but that of zero itself, and reads as the
/// number that it was made from.
pub proof fn a_numeral_reads_as_its_number(n: nat)
    ensures
        decimal(n).len() > 0,
        forall|i: int| 0 <= i < decimal(n).len() ==> is_digit(#[trigger] decimal(n)[i]),
        value_of(decimal(n)) == n,
        n > 0 ==> decimal(n)[0] != '0',
        n < 10 <==> decimal(n).len() == 1,
    decreases n,
{
    if n < 10 {
        let s = decimal(n);
        assert(s.drop_last() =~= seq![]);
        assert(value_of(s.drop_last()) == 0);
    } else {
        a_numeral_reads_as_its_number(n / 10);
        let s = decimal(n);
        assert(s.drop_last() =~= decimal(n / 10));
    }
}

/// Texts are joined in order, with the separator between neighbours and nowhere else.
pub proof fn joining_puts_the_separator_between(
    parts: Seq<Seq<char>>,
    last: Seq<char>,
    sep: Seq<char>,
)
    ensures
        joined(seq![], sep).len() == 0,
        joined(seq![last], sep) == last,
        parts.len() > 0 ==> joined(parts.push(last), sep) == joined(parts, sep) + sep + last,
{
    assert(parts.push(last).drop_last() =~= parts);
}

/// The lower case of a text differs from it in the letters `A` to `Z` alone.
pub proof fn only_capitals_are_lowered(s: Seq<char>, i: int)
    requires
        0 <= i < s.len(),
    ensures
        lower(s).len() == s.len(),
        !('A' as u32 <= s[i] as u32 <= 'Z' as u32) ==> lower(s)[i] == s[i],
        'A' as u32 <= s[i] as u32 <= 'Z' as u32 ==> lower(s)[i] as u32 == s[i] as u32 + 32,
{
}

/// A text opens with a mark of one character exactly where that is its first, and ends with
/// it exactly where that is its last.
pub proof fn lemma_edges(s: Seq<char>, c: char, mark: Seq<char>)
    requires
        mark == seq![c],
    ensures
        s.len() > 0 ==> (mark.is_prefix_of(s) <==> s[0] == c) && (mark.is_suffix_of(s)
            <==> s.last() == c),
{
    if s.len() > 0 {
        assert(s.subrange(0, 1) =~= seq![s[0]]);
        assert(s.subrange(s.len() - 1, s.len() as int) =~= seq![s.last()]);
        if s[0] != c {
            assert(s.subrange(0, 1)[0] != mark[0]);
        }
        if s.last() != c {
            assert(s.subrange(s.len() - 1, s.len() as int)[0] != mark[0]);
        }
    }
}

/// What a list holds once an item was added that it may hold already.
pub proof fn lemma_with_new(list: Seq<Seq<char>>, item: Seq<char>)
    ensures
        forall|x: Seq<char>| #[trigger]
            with_new(list, item).contains(x) <==> list.contains(x) || x == item,
        list.no_duplicates() ==> with_new(list, item).no_duplicates(),
{
    let more = list.push(item);
    assert forall|x: Seq<char>| #[trigger] with_new(list, item).contains(x) <==> list.contains(x)
        || x == item by {
        if !list.contains(item) {
            if more.contains(x) {
                let i = choose|i: int| 0 <= i < more.len() && more[i] == x;
                if i < list.len() {
                    assert(list[i] == x);
                }
            }
            if list.contains(x) {
                let i = choose|i: int| 0 <= i < list.len() && list[i] == x;
                assert(more[i] == x);
            }
            assert(more[list.len() as int] == item);
        }
    }
}

/// A text of plain characters is cut by bytes where it is cut by characters.
pub proof fn lemma_plain_cut(s: Seq<char>, n: int)
    requires
        0 <= n,
        forall|i: int| 0 <= i < s.len() ==> #[trigger] s[i] as u32 <= 0x7f,
    ensures
        up_to_byte(s, n) == s.take(
            if s.len() < n {
                s.len() as int
            } else {
                n
            },
        ),
    decreases s.len(),
{
    if n > 0 && s.len() > 0 {
        let rest = s.drop_first();
        assert forall|i: int| 0 <= i < rest.len() implies #[trigger] rest[i] as u32 <= 0x7f by {
            assert(rest[i] == s[i + 1]);
        }
        lemma_plain_cut(rest, n - 1);
        assert(s[0] as u32 <= 0x7f);
        let k: int = if s.len() < n {
            s.len() as int
        } else {
            n
        };
        assert(seq![s[0]] + rest.take(k - 1) =~= s.take(k));
    }
}

/// A text of plain characters has as many bytes as characters.
pub proof fn lemma_plain_len(s: Seq<char>)
    requires
        forall|i: int| 0 <= i < s.len() ==> #[trigger] s[i] as u32 <= 0x7f,
    ensures
        byte_len(s) == s.len(),
    decreases s.len(),
{
    if s.len() > 0 {
        let rest = s.drop_first();
        assert forall|i: int| 0 <= i < rest.len() implies #[trigger] rest[i] as u32 <= 0x7f by {
            assert(rest[i] == s[i + 1]);
        }
        assert(s[0] as u32 <= 0x7f);
        lemma_plain_len(rest);
    }
}

/// The depth of a line that blanks open is the number of them; a tab counts as one.
pub proof fn blanks_count_one_each(margin: Seq<char>, rest: Seq<char>)
    requires
        forall|i: int| 0 <= i < margin.len() ==> #[trigger] margin[i] == ' ' || margin[i] == '\t',
        rest.len() > 0 ==> !white(rest[0]),
    ensures
        indent_of(margin + rest) == margin.len(),
    decreases margin.len(),
{
    if margin.len() == 0 {
        assert(margin + rest =~= rest);
    } else {
        let fewer = margin.drop_first();
        assert((margin + rest)[0] == margin[0]);
        assert((margin + rest).drop_first() =~= fewer + rest);
        blanks_count_one_each(fewer, rest);
    }
}

/// A text is a number exactly where it is an optional plus sign and digits, at least one, of
/// a value that fits; it is then that value.
pub proof fn digits_make_a_number(digits: Seq<char>, max: nat, s: Seq<char>, k: int)
    requires
        digits.len() > 0,
        forall|i: int| 0 <= i < digits.len() ==> is_digit(#[trigger] digits[i]),
    ensures
        number(digits, max) == if value_of(digits) <= max {
            Some(value_of(digits))
        } else {
            None
        },
        number(seq!['+'] + digits, max) == number(digits, max),
        s.len() == 0 || s == seq!['+'] ==> number(s, max) is None,
        0 <= k < s.len() && !is_digit(s[k]) && (k > 0 || s[0] != '+') ==> number(s, max) is None,
{
    assert(is_digit(digits[0]));
    let signed = seq!['+'] + digits;
    assert(signed.drop_first() =~= digits);
    if 0 <= k < s.len() && !is_digit(s[k]) && (k > 0 || s[0] != '+') {
        let d = numeral(s);
        if s[0] == '+' {
            assert(d[k - 1] == s[k]);
        } else {
            assert(d[k] == s[k]);
        }
    }
    if s == seq!['+'] {
        assert(s.drop_first().len() == 0);
    }
}

/// A list is made distinct by leaving out what came before: the first occurrence stays where
/// it is in the order.
pub proof fn each_item_is_kept_once(list: Seq<Seq<char>>, item: Seq<char>)
    ensures
        distinct(seq![]).len() == 0,
        list.contains(item) ==> distinct(list.push(item)) == distinct(list),
        !list.contains(item) ==> distinct(list.push(item)) == distinct(list).push(item),
{
    lemma_distinct_push(list, item);
    lemma_distinct(list);
}

/// White space is what Unicode calls white space: the controls from tab to carriage return,
/// the blank, the next-line control and the spaces and separators beyond ASCII.
pub proof fn white_space_is_that_of_unicode(c: char)
    ensures
        white(c) <==> (c == '\t' || c == '\n' || c == '\u{b}' || c == '\u{c}' || c == '\r' || c
            == ' ' || c == '\u{85}' || c == '\u{a0}' || c == '\u{1680}' || '\u{2000}' as u32
            <= c as u32 <= '\u{200a}' as u32 || c == '\u{2028}' || c == '\u{2029}' || c
            == '\u{202f}' || c == '\u{205f}' || c == '\u{3000}'),
{
}

/// A hexadecimal digit is one of ten digits or of the first six letters, in either case.
pub proof fn hexadecimal_digits_come_in_either_case(c: char)
    ensures
        hex_digit(c) <==> ('0' as u32 <= c as u32 <= '9' as u32) || ('a' as u32 <= c as u32
            <= 'f' as u32) || ('A' as u32 <= c as u32 <= 'F' as u32),
{
}

/// What stands before a separator is the text up to its first occurrence, and all of a text
/// without one.
pub proof fn what_stands_before_a_separator(a: Seq<char>, sep: Seq<char>, rest: Seq<char>)
    requires
        forall|i: int| occurs_at(a + sep + rest, sep, i) ==> a.len() <= i,
    ensures
        before(a + sep + rest, sep) == a,
        !holds_text(rest, sep) ==> before(rest, sep) == rest,
{
    lemma_found(rest, sep);
    let s = a + sep + rest;
    lemma_found(s, sep);
    let n = a.len() as int;
    assert(s.subrange(n, n + sep.len()) =~= sep);
    assert(occurs_at(s, sep, n));
    assert(s.take(n) =~= a);
}

/// A span ends at the first character that is not of its class, from either end.
pub proof fn a_span_ends_at_the_first_other_character(
    a: Seq<char>,
    c: char,
    rest: Seq<char>,
    class: CharClass,
)
    requires
        forall|i: int| 0 <= i < a.len() ==> class.has(#[trigger] a[i]),
        !class.has(c),
    ensures
        front(a + (seq![c] + rest), class) == a,
        drop_front(a + (seq![c] + rest), class) == seq![c] + rest,
        back(rest + seq![c] + a, class) == a,
        drop_back(rest + seq![c] + a, class) == rest + seq![c],
{
    let s = a + (seq![c] + rest);
    lemma_span_is(s, class, a.len() as int);
    assert(front(s, class) =~= a);
    assert(drop_front(s, class) =~= seq![c] + rest);
    let t = rest + seq![c] + a;
    lemma_span_back_is(t, class, a.len() as int);
    assert(back(t, class) =~= a);
    assert(drop_back(t, class) =~= rest + seq![c]);
}

/// To strip a prefix or a suffix leaves the rest, and a text that lacks it is not stripped.
pub proof fn stripping_leaves_the_rest(part: Seq<char>, rest: Seq<char>, s: Seq<char>)
    ensures
        stripped(part + rest, part) == Some(rest),
        stripped_end(rest + part, part) == Some(rest),
        stripped(s, part) matches Some(r) ==> part + r == s,
        stripped_end(s, part) matches Some(r) ==> r + part == s,
{
    assert((part + rest).subrange(0, part.len() as int) =~= part);
    assert((part + rest).skip(part.len() as int) =~= rest);
    let t = rest + part;
    assert(t.subrange(t.len() - part.len(), t.len() as int) =~= part);
    assert(t.take(t.len() - part.len()) =~= rest);
    if let Some(r) = stripped(s, part) {
        assert(s.subrange(0, part.len() as int) == part);
        assert(part + r =~= s);
    }
    if let Some(r) = stripped_end(s, part) {
        assert(s.subrange(s.len() - part.len(), s.len() as int) == part);
        assert(r + part =~= s);
    }
}

/// A text holds a part exactly where it is the part with something, or nothing, on either
/// side.
pub proof fn a_part_stands_between_two_texts(
    a: Seq<char>,
    part: Seq<char>,
    b: Seq<char>,
    s: Seq<char>,
)
    ensures
        holds_text(a + part + b, part),
        holds_text(s, part) ==> exists|i: int|
            0 <= i <= s.len() - part.len() && #[trigger] s.take(i) + part + s.skip(i + part.len())
                == s,
{
    let t = a + part + b;
    let n = a.len() as int;
    assert(t.subrange(n, n + part.len()) =~= part);
    assert(occurs_at(t, part, n));
    if holds_text(s, part) {
        let i = choose|i: int| occurs_at(s, part, i);
        assert(s.subrange(i, i + part.len()) == part);
        assert(s.take(i) + part + s.skip(i + part.len()) =~= s);
    }
}

/// A character takes as many bytes as UTF-8 gives it.
pub proof fn a_character_takes_its_bytes(c: char)
    ensures
        width(c) == 1 <==> c as u32 <= 0x7f,
        width(c) == 2 <==> 0x80 <= c as u32 <= 0x7ff,
        width(c) == 3 <==> 0x800 <= c as u32 <= 0xffff,
        width(c) == 4 <==> 0x10000 <= c as u32,
        1 <= width(c) <= 4,
{
}

/// A cut behind the bytes of whole characters leaves these on one side and the rest on the
/// other.
pub proof fn a_cut_between_characters_splits_the_text(a: Seq<char>, b: Seq<char>)
    ensures
        up_to_byte(a + b, byte_len(a) as int) == a,
        from_byte(a + b, byte_len(a) as int) == b,
        cuts_at(a + b, byte_len(a) as int),
    decreases a.len(),
{
    if a.len() == 0 {
        assert(a + b =~= b);
        assert(up_to_byte(b, 0) =~= a);
    } else {
        let rest = a.drop_first();
        let s = a + b;
        assert(s[0] == a[0]);
        assert(s.drop_first() =~= rest + b);
        a_cut_between_characters_splits_the_text(rest, b);
        assert(byte_len(a) - width(a[0]) == byte_len(rest));
        assert(seq![a[0]] + rest =~= a);
    }
}

} // verus!
