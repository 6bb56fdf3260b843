//! Applying moves to the working tree.
//!
//! One move can be applied: [`Move::InjectPathFilterPassThrough`] drops the path
//! filter of a workflow's triggers, so that the required check is created on every
//! pull request. That makes a gate stronger and never weaker. Nothing is committed
//! or pushed, and a gate stays as red as it was until CI runs again.
use vstd::prelude::*;

use crate::moves::{Move, MoveModel};
use crate::outcome::{AppliedChange, ChangeModel};
use crate::text::{
    cat2, cat5, drop_front, ends_with, holds_text, indent, indent_of, is_empty, join,
    all_without_cr, gathered, joined, lemma_ends_in_break, lemma_lines_are_lines,
    lemma_lines_of_joined,
    lemma_lines_of_joined_open, lemma_lines_rejoin, lemma_lines_step, lemma_trimmed_without_cr,
    lines, lines_of, one_line, starts_with, strip_prefix, stripped, trim, trimmed, without_cr,
    CharClass,
};
use crate::workflow_file::{jobs_header, path_filtered_in};

verus! {

/// Does the line hold a `paths:` key?
pub open spec fn paths_key(line: Seq<char>) -> bool {
    "paths:"@.is_prefix_of(trimmed(line))
}

/// Does the value of the `paths:` key stand on the lines below it?
pub open spec fn block_form(line: Seq<char>) -> bool {
    match stripped(trimmed(line), "paths:"@) {
        Some(value) => trimmed(value).len() == 0,
        None => false,
    }
}

/// Does the line belong to the value of a key at indent `key`?
pub open spec fn in_value(line: Seq<char>, key: Option<nat>) -> bool {
    match key {
        Some(key) => trimmed(line).len() == 0 || indent_of(line) > key,
        None => false,
    }
}

/// The lines that stay: all but the `paths:` keys ahead of the `jobs:` block and
/// their values. `key` is the indent of the key whose value the lines start in.
pub open spec fn kept(lines: Seq<Seq<char>>, key: Option<nat>) -> Seq<Seq<char>>
    decreases lines.len(),
{
    if lines.len() == 0 {
        lines
    } else if in_value(lines[0], key) {
        kept(lines.drop_first(), key)
    } else if jobs_header(lines[0]) {
        lines
    } else if paths_key(lines[0]) {
        kept(
            lines.drop_first(),
            if block_form(lines[0]) {
                Some(indent_of(lines[0]))
            } else {
                None
            },
        )
    } else {
        seq![lines[0]] + kept(lines.drop_first(), None)
    }
}

/// The line break that ends a text, if one does.
pub open spec fn final_break(text: Seq<char>) -> Seq<char> {
    if "\n"@.is_suffix_of(text) {
        "\n"@
    } else {
        ""@
    }
}

/// The text of a workflow without its path filters.
pub open spec fn unfiltered(text: Seq<char>) -> Seq<char> {
    joined(kept(lines_of(text), None), "\n"@) + final_break(text)
}

/// Drops the path filters of a workflow's triggers, and says whether there were any.
pub fn remove_on_paths(text: &str) -> (r: (String, bool))
    ensures
        r.0@ == unfiltered(text@),
        r.1 == path_filtered_in(lines_of(text@)),
{
    let all: Vec<String> = lines(text);
    let ghost m = all.deep_view();
    let mut out: Vec<String> = Vec::new();
    let mut before_jobs: bool = true;
    let mut removed: bool = false;
    let mut skipping: Option<u128> = None;
    let mut i: usize = 0;
    proof {
        assert(m.skip(0) =~= m);
        assert(out.deep_view() + kept(m, None) =~= kept(m, None));
    }
    while i < all.len()
        invariant
            i <= all@.len(),
            m == all.deep_view(),
            m == lines_of(text@),
            before_jobs ==> kept(m, None) == out.deep_view() + kept(
                m.skip(i as int),
                match skipping {
                    Some(key) => Some(key as nat),
                    None => None,
                },
            ),
            !before_jobs ==> kept(m, None) == out.deep_view() + m.skip(i as int),
            !before_jobs ==> skipping is None,
            !before_jobs ==> exists|k: int| 0 <= k < i && jobs_header(#[trigger] m[k]),
            before_jobs ==> forall|k: int| 0 <= k < i ==> !jobs_header(#[trigger] m[k]),
            skipping is Some ==> removed,
            removed ==> path_filtered_in(m),
            !removed ==> forall|k: int|
                0 <= k < i && paths_key(#[trigger] m[k]) ==> exists|h: int|
                    0 <= h <= k && jobs_header(#[trigger] m[h]),
        decreases all@.len() - i,
    {
        let line: &str = all[i].as_str();
        let depth: u128 = indent(line);
        let t: &str = trim(line);
        let ghost rest = m.skip(i as int);
        let ghost sofar = out.deep_view();
        proof {
            assert(m[i as int] == line@);
            assert(rest[0] == line@);
            assert(rest.drop_first() =~= m.skip(i + 1));
        }
        if let Some(key) = skipping {
            if is_empty(t) || depth > key {
                proof {
                    lemma_header_ends_values(line@, key as nat);
                }
                i += 1;
                continue;
            }
            skipping = None;
        }
        if before_jobs && depth == 0 && starts_with(t, "jobs:") {
            before_jobs = false;
            assert(jobs_header(m[i as int]));
        }
        if before_jobs && starts_with(t, "paths:") {
            assert(paths_key(m[i as int]));
            removed = true;
            let value: &str = match strip_prefix(t, "paths:") {
                Some(value) => trim(value),
                None => "",
            };
            if is_empty(value) {
                skipping = Some(depth);
            }
            i += 1;
            continue;
        }
        out.push(all[i].clone());
        proof {
            assert(out.deep_view() =~= sofar.push(line@));
            if before_jobs {
                let tail = kept(m.skip(i + 1), None);
                assert(out.deep_view() + tail =~= sofar + (seq![line@] + tail));
            } else {
                assert(out.deep_view() + m.skip(i + 1) =~= sofar + rest);
            }
        }
        i += 1;
    }
    assert(m.skip(m.len() as int) =~= Seq::empty());
    assert(out.deep_view() + Seq::<Seq<char>>::empty() =~= out.deep_view());
    let body: String = join(&out, "\n");
    if ends_with(text, "\n") {
        (cat2(&body, "\n"), removed)
    } else {
        (cat2(&body, ""), removed)
    }
}

/// The `jobs:` header belongs to the value of no key.
proof fn lemma_header_ends_values(line: Seq<char>, key: nat)
    ensures
        jobs_header(line) ==> !in_value(line, Some(key)),
{
    reveal_strlit("jobs:");
}

/// Nothing is added: each line that stays is a line that was there.
pub proof fn no_line_is_added(lines: Seq<Seq<char>>, key: Option<nat>)
    ensures
        forall|i: int| 0 <= i < kept(lines, key).len() ==> lines.contains(
            #[trigger] kept(lines, key)[i],
        ),
    decreases lines.len(),
{
    if lines.len() > 0 {
        let rest = lines.drop_first();
        let k = kept(lines, key);
        assert forall|x: Seq<char>| rest.contains(x) implies lines.contains(x) by {
            let i = choose|i: int| 0 <= i < rest.len() && rest[i] == x;
            assert(lines[i + 1] == x);
        }
        if in_value(lines[0], key) {
            no_line_is_added(rest, key);
            assert forall|i: int| 0 <= i < k.len() implies lines.contains(#[trigger] k[i]) by {
                assert(rest.contains(kept(rest, key)[i]));
            }
        } else if jobs_header(lines[0]) {
            assert forall|i: int| 0 <= i < k.len() implies lines.contains(#[trigger] k[i]) by {
                assert(lines[i] == k[i]);
            }
        } else if paths_key(lines[0]) {
            let next = if block_form(lines[0]) {
                Some(indent_of(lines[0]))
            } else {
                None
            };
            no_line_is_added(rest, next);
            assert forall|i: int| 0 <= i < k.len() implies lines.contains(#[trigger] k[i]) by {
                assert(rest.contains(kept(rest, next)[i]));
            }
        } else {
            no_line_is_added(rest, None);
            assert forall|i: int| 0 <= i < k.len() implies lines.contains(#[trigger] k[i]) by {
                if i > 0 {
                    assert(k[i] == kept(rest, None)[i - 1]);
                    assert(rest.contains(kept(rest, None)[i - 1]));
                } else {
                    assert(lines[0] == k[0]);
                }
            }
        }
    }
}

/// A path filter of lines with `line` ahead of them.
proof fn lemma_filtered_behind(line: Seq<char>, rest: Seq<Seq<char>>)
    ensures
        path_filtered_in(seq![line] + rest) <==> !jobs_header(line) && (paths_key(line)
            || path_filtered_in(rest)),
{
    let all = seq![line] + rest;
    if path_filtered_in(all) {
        let i = choose|i: int|
            0 <= i < all.len() && "paths:"@.is_prefix_of(trimmed(#[trigger] all[i])) && forall|
                k: int,
            |
                0 <= k <= i ==> !jobs_header(#[trigger] all[k]);
        assert(!jobs_header(all[0]));
        if i > 0 {
            assert(rest[i - 1] == all[i]);
            assert forall|k: int| 0 <= k <= i - 1 implies !jobs_header(#[trigger] rest[k]) by {
                assert(rest[k] == all[k + 1]);
            }
        }
    }
    if !jobs_header(line) && paths_key(line) {
        assert("paths:"@.is_prefix_of(trimmed(all[0])));
    }
    if !jobs_header(line) && path_filtered_in(rest) {
        let i = choose|i: int|
            0 <= i < rest.len() && "paths:"@.is_prefix_of(trimmed(#[trigger] rest[i])) && forall|
                k: int,
            |
                0 <= k <= i ==> !jobs_header(#[trigger] rest[k]);
        assert(all[i + 1] == rest[i]);
        assert forall|k: int| 0 <= k <= i + 1 implies !jobs_header(#[trigger] all[k]) by {
            if k > 0 {
                assert(all[k] == rest[k - 1]);
            }
        }
    }
}

/// What stays has no path filter.
proof fn lemma_kept_unfiltered(lines: Seq<Seq<char>>, key: Option<nat>)
    ensures
        !path_filtered_in(kept(lines, key)),
    decreases lines.len(),
{
    if lines.len() > 0 {
        let rest = lines.drop_first();
        if in_value(lines[0], key) {
            lemma_kept_unfiltered(rest, key);
        } else if jobs_header(lines[0]) {
            lemma_filtered_behind(lines[0], rest);
            assert(seq![lines[0]] + rest =~= lines);
        } else if paths_key(lines[0]) {
            let next = if block_form(lines[0]) {
                Some(indent_of(lines[0]))
            } else {
                None
            };
            lemma_kept_unfiltered(rest, next);
        } else {
            lemma_kept_unfiltered(rest, None);
            lemma_filtered_behind(lines[0], kept(rest, None));
        }
    }
}

/// All stays of lines without a path filter.
proof fn lemma_unfiltered_kept(lines: Seq<Seq<char>>)
    requires
        !path_filtered_in(lines),
    ensures
        kept(lines, None) == lines,
    decreases lines.len(),
{
    if lines.len() > 0 {
        let rest = lines.drop_first();
        assert(seq![lines[0]] + rest =~= lines);
        lemma_filtered_behind(lines[0], rest);
        if !jobs_header(lines[0]) {
            lemma_unfiltered_kept(rest);
        }
    }
}

/// The first lines of lines without a path filter have none.
proof fn lemma_unfiltered_front(lines: Seq<Seq<char>>)
    requires
        !path_filtered_in(lines),
        lines.len() > 0,
    ensures
        !path_filtered_in(lines.drop_last()),
{
    let head = lines.drop_last();
    if path_filtered_in(head) {
        let i = choose|i: int|
            0 <= i < head.len() && "paths:"@.is_prefix_of(trimmed(#[trigger] head[i])) && forall|
                k: int,
            |
                0 <= k <= i ==> !jobs_header(#[trigger] head[k]);
        assert(lines[i] == head[i]);
        assert forall|k: int| 0 <= k <= i implies !jobs_header(#[trigger] lines[k]) by {
            assert(lines[k] == head[k]);
        }
    }
}

/// Carriage returns at the ends of lines are of no account to a path filter.
proof fn lemma_filtered_without_cr(a: Seq<Seq<char>>, b: Seq<Seq<char>>)
    requires
        a.len() == b.len(),
        forall|i: int|
            0 <= i < a.len() ==> (#[trigger] b[i] == a[i] || b[i] == without_cr(a[i])),
        !path_filtered_in(a),
    ensures
        !path_filtered_in(b),
{
    reveal_strlit("jobs:");
    assert forall|i: int| 0 <= i < a.len() implies (#[trigger] trimmed(b[i])) == trimmed(a[i])
        && jobs_header(b[i]) == jobs_header(a[i]) by {
        lemma_trimmed_without_cr(a[i]);
        if a[i].len() > 0 && b[i] != a[i] {
            assert(b[i] == a[i].drop_last());
            if b[i].len() == 0 {
                assert(drop_front(b[i], CharClass::White) =~= seq![]);
                assert(trimmed(b[i]) =~= seq![]);
            } else {
                assert(b[i][0] == a[i][0]);
            }
        }
    }
    if path_filtered_in(b) {
        let i = choose|i: int|
            0 <= i < b.len() && "paths:"@.is_prefix_of(trimmed(#[trigger] b[i])) && forall|k: int|
                0 <= k <= i ==> !jobs_header(#[trigger] b[k]);
        assert("paths:"@.is_prefix_of(trimmed(a[i]))) by {
            assert(trimmed(b[i]) == trimmed(a[i]));
        }
        assert forall|k: int| 0 <= k <= i implies !jobs_header(#[trigger] a[k]) by {
            assert(trimmed(b[k]) == trimmed(a[k]));
            assert(!jobs_header(b[k]));
        }
    }
}

/// The filter is gone: what [`remove_on_paths`] leaves has no path filter, so the
/// check of the workflow is created on every pull request.
pub proof fn the_filter_is_gone(text: Seq<char>)
    ensures
        !path_filtered_in(lines_of(unfiltered(text))),
{
    let lines = lines_of(text);
    let k = kept(lines, None);
    let out = unfiltered(text);
    lemma_kept_unfiltered(lines, None);
    no_line_is_added(lines, None);
    lemma_lines_are_lines(text);
    assert forall|i: int| 0 <= i < k.len() implies one_line(#[trigger] k[i]) by {
        let j = choose|j: int| 0 <= j < lines.len() && lines[j] == k[i];
        assert(one_line(lines[j]));
    }
    reveal_strlit("");
    reveal_strlit("\n");
    if "\n"@.is_suffix_of(text) {
        if k.len() == 0 {
            assert(out =~= Seq::<char>::empty() + "\n"@ + Seq::<char>::empty());
            lemma_lines_step(seq![], seq![]);
            let only = lines_of(out);
            assert(only =~= seq![Seq::<char>::empty()]);
            assert(trimmed(only[0]).len() == 0);
            reveal_strlit("paths:");
        } else {
            lemma_lines_of_joined(k);
            lemma_filtered_without_cr(k, all_without_cr(k));
        }
    } else {
        assert(out =~= joined(k, "\n"@));
        if k.len() > 0 {
            lemma_lines_of_joined_open(k);
            let head = k.drop_last();
            if k.last().len() == 0 {
                lemma_unfiltered_front(k);
                lemma_filtered_without_cr(head, all_without_cr(head));
            } else {
                lemma_filtered_without_cr(k, all_without_cr(head).push(k.last()));
            }
        } else {
            assert(lines_of(out).len() == 0);
        }
    }
}

/// A workflow without a path filter is left as it is, unless it holds a carriage
/// return before a line feed, which would become a line feed.
pub proof fn no_filter_means_no_change(text: Seq<char>)
    requires
        !path_filtered_in(lines_of(text)),
        !holds_text(text, "\r\n"@),
    ensures
        unfiltered(text) == text,
{
    lemma_unfiltered_kept(lines_of(text));
    lemma_lines_rejoin(text);
}

/// To drop the filters a second time changes nothing and finds nothing, unless the
/// first time left a carriage return before a line feed.
pub proof fn removal_is_idempotent(text: Seq<char>)
    requires
        !holds_text(unfiltered(text), "\r\n"@),
    ensures
        !path_filtered_in(lines_of(unfiltered(text))),
        unfiltered(unfiltered(text)) == unfiltered(text),
{
    the_filter_is_gone(text);
    no_filter_means_no_change(unfiltered(text));
}

/// Only the triggers are touched: from the `jobs:` header on, every line stays.
pub proof fn the_jobs_are_untouched(lines: Seq<Seq<char>>, key: Option<nat>, h: int)
    requires
        0 <= h < lines.len(),
        jobs_header(lines[h]),
        forall|k: int| 0 <= k < h ==> !jobs_header(#[trigger] lines[k]),
    ensures
        kept(lines, key) == kept(lines.take(h), key) + lines.skip(h),
    decreases lines.len(),
{
    lemma_header_ends_all_values(lines[h], key);
    if h == 0 {
        assert(lines.take(0) =~= seq![]);
        assert(kept(lines.take(0), key) =~= seq![]);
        assert(lines.skip(0) =~= lines);
        assert(seq![] + lines =~= lines);
    } else {
        let rest = lines.drop_first();
        let head = lines.take(h);
        assert(head.drop_first() =~= rest.take(h - 1));
        assert(rest.skip(h - 1) =~= lines.skip(h));
        assert(head[0] == lines[0]);
        assert(!jobs_header(lines[0]));
        assert forall|k: int| 0 <= k < h - 1 implies !jobs_header(#[trigger] rest[k]) by {
            assert(rest[k] == lines[k + 1]);
        }
        if in_value(lines[0], key) {
            the_jobs_are_untouched(rest, key, h - 1);
        } else if paths_key(lines[0]) {
            let next = if block_form(lines[0]) {
                Some(indent_of(lines[0]))
            } else {
                None
            };
            the_jobs_are_untouched(rest, next, h - 1);
        } else {
            the_jobs_are_untouched(rest, None, h - 1);
            assert(seq![lines[0]] + (kept(rest.take(h - 1), None) + lines.skip(h)) =~= (seq![
                lines[0],
            ] + kept(rest.take(h - 1), None)) + lines.skip(h));
        }
    }
}

proof fn lemma_header_ends_all_values(line: Seq<char>, key: Option<nat>)
    requires
        jobs_header(line),
    ensures
        !in_value(line, key),
{
    if let Some(k) = key {
        lemma_header_ends_values(line, k);
    }
}

/// Is the line at `k` a `paths:` key whose value stands below it, and do all lines behind it
/// and ahead of `i` belong to that value: is each of them blank or indented deeper than the key?
pub open spec fn filter_open(lines: Seq<Seq<char>>, k: int, i: int) -> bool {
    &&& 0 <= k < i
    &&& "paths:"@.is_prefix_of(trimmed(lines[k]))
    &&& trimmed(trimmed(lines[k]).skip("paths:"@.len() as int)).len() == 0
    &&& forall|m: int|
        k < m < i ==> trimmed(#[trigger] lines[m]).len() == 0 || indent_of(lines[m]) > indent_of(
            lines[k],
        )
}

/// Does line `j` belong to a path filter: does it stand ahead of the `jobs:` block, and is it a
/// `paths:` key or part of the value of one?
pub open spec fn in_filter(lines: Seq<Seq<char>>, j: int) -> bool {
    &&& forall|m: int|
        0 <= m <= j ==> !(indent_of(#[trigger] lines[m]) == 0 && "jobs:"@.is_prefix_of(
            trimmed(lines[m]),
        ))
    &&& "paths:"@.is_prefix_of(trimmed(lines[j])) || exists|k: int| #[trigger]
        filter_open(lines, k, j + 1) && k < j
}

/// The lines below `n` that belong to no path filter, in order.
pub open spec fn outside_filters(lines: Seq<Seq<char>>, n: int) -> Seq<Seq<char>> {
    gathered(
        n,
        |j: int|
            if in_filter(lines, j) {
                None
            } else {
                Some(lines[j])
            },
    )
}

proof fn lemma_rest_stays(lines: Seq<Seq<char>>, i: int, n: int)
    requires
        0 <= i <= n <= lines.len(),
        forall|j: int| i <= j < n ==> !#[trigger] in_filter(lines, j),
    ensures
        outside_filters(lines, n) == outside_filters(lines, i) + lines.subrange(i, n),
    decreases n - i,
{
    if i < n {
        lemma_rest_stays(lines, i, n - 1);
        assert(!in_filter(lines, n - 1));
        assert(outside_filters(lines, i) + lines.subrange(i, n) =~= (outside_filters(lines, i)
            + lines.subrange(i, n - 1)).push(lines[n - 1]));
    } else {
        assert(outside_filters(lines, i) + lines.subrange(i, n) =~= outside_filters(lines, i));
    }
}

proof fn lemma_kept_from(lines: Seq<Seq<char>>, i: int, key: Option<nat>, at: int)
    requires
        0 <= i <= lines.len(),
        forall|m: int| 0 <= m < i ==> !jobs_header(#[trigger] lines[m]),
        key is None ==> forall|k: int| !#[trigger] filter_open(lines, k, i),
        key matches Some(d) ==> filter_open(lines, at, i) && indent_of(lines[at]) == d && forall|
            k: int,
        | #[trigger]
            filter_open(lines, k, i) ==> indent_of(lines[k]) >= d,
    ensures
        outside_filters(lines, lines.len() as int) == outside_filters(lines, i) + kept(
            lines.skip(i),
            key,
        ),
    decreases lines.len() - i,
{
    let n = lines.len() as int;
    let rest = lines.skip(i);
    if i == n {
        assert(outside_filters(lines, i) + kept(rest, key) =~= outside_filters(lines, i));
    } else {
        let line = lines[i];
        assert(rest[0] == line);
        assert(rest.drop_first() =~= lines.skip(i + 1));
        reveal_strlit("paths:");
        assert forall|k: int| #[trigger] filter_open(lines, k, i + 1) && k < i implies filter_open(
            lines,
            k,
            i,
        ) && (trimmed(line).len() == 0 || indent_of(line) > indent_of(lines[k])) by {}
        if in_value(line, key) {
            lemma_header_ends_all_values_of(line, key);
            let d = key->Some_0;
            assert(filter_open(lines, at, i + 1));
            assert(in_filter(lines, i));
            assert forall|k: int| #[trigger] filter_open(lines, k, i + 1) implies indent_of(
                lines[k],
            ) >= d by {
                if k < i {
                    assert(filter_open(lines, k, i));
                }
            }
            lemma_kept_from(lines, i + 1, key, at);
        } else if jobs_header(line) {
            assert forall|j: int| i <= j < n implies !#[trigger] in_filter(lines, j) by {
                assert(jobs_header(lines[i]));
            }
            lemma_rest_stays(lines, i, n);
            assert(lines.subrange(i, n) =~= rest);
        } else if paths_key(line) {
            assert(in_filter(lines, i));
            let next = if block_form(line) {
                Some(indent_of(line))
            } else {
                None
            };
            assert forall|k: int| #[trigger] filter_open(lines, k, i + 1) implies k == i by {
                if k < i {
                    assert(filter_open(lines, k, i));
                }
            }
            assert(block_form(line) <==> filter_open(lines, i, i + 1));
            lemma_kept_from(lines, i + 1, next, i);
        } else {
            assert forall|k: int| !#[trigger] filter_open(lines, k, i + 1) by {
                if filter_open(lines, k, i + 1) && k < i {
                    assert(filter_open(lines, k, i));
                }
            }
            assert(!in_filter(lines, i));
            lemma_kept_from(lines, i + 1, None, 0);
            let tail = kept(lines.skip(i + 1), None);
            assert(outside_filters(lines, i).push(line) + tail =~= outside_filters(lines, i) + (
            seq![line] + tail));
        }
    }
}

proof fn lemma_header_ends_all_values_of(line: Seq<char>, key: Option<nat>)
    requires
        in_value(line, key),
    ensures
        !jobs_header(line),
{
    lemma_header_ends_values(line, key->Some_0);
}

/// What stays of a workflow is exactly every line that belongs to no path filter, in order and
/// unchanged, with a line feed at the end where there was one. Ahead of the `jobs:` block a
/// line goes only where it is a `paths:` key, or where it and all lines between it and such a
/// key with an empty value are blank or deeper than the key; everything else stays.
pub proof fn only_the_filters_go(text: Seq<char>)
    ensures
        unfiltered(text) == joined(
            outside_filters(lines_of(text), lines_of(text).len() as int),
            "\n"@,
        ) + (if text.len() > 0 && text.last() == '\n' {
            "\n"@
        } else {
            ""@
        }),
{
    let lines = lines_of(text);
    assert(lines.skip(0) =~= lines);
    lemma_kept_from(lines, 0, None, 0);
    assert(outside_filters(lines, 0) + kept(lines, None) =~= kept(lines, None));
    lemma_ends_in_break(text);
}

/// A line that is not blank and is indented no deeper than the `paths:` key ahead of it ends
/// the value of that key: it stays, unless it is a `paths:` key of its own.
pub proof fn a_shallower_line_ends_a_filter(lines: Seq<Seq<char>>, key: nat)
    requires
        lines.len() > 0,
        trimmed(lines[0]).len() > 0,
        indent_of(lines[0]) <= key,
        !"paths:"@.is_prefix_of(trimmed(lines[0])),
    ensures
        kept(lines, Some(key)).len() > 0,
        kept(lines, Some(key))[0] == lines[0],
{
}

/// What came of applying moves: the edits that were made, and a line for each move
/// that could not be applied.
#[derive(Debug, PartialEq, Eq)]
pub struct ApplyOutcome {
    /// The edits that were made, one for each move that was applied.
    pub applied: Vec<AppliedChange>,
    /// Why each other move that could in principle be applied was not.
    pub skipped: Vec<String>,
}

/// An [`ApplyOutcome`] as a mathematical value.
pub struct ApplyModel {
    pub applied: Seq<ChangeModel>,
    pub skipped: Seq<Seq<char>>,
}

impl DeepView for ApplyOutcome {
    type V = ApplyModel;

    open spec fn deep_view(&self) -> ApplyModel {
        ApplyModel { applied: self.applied.deep_view(), skipped: self.skipped.deep_view() }
    }
}

/// How far the application of a list of moves has got.
#[derive(Debug, PartialEq, Eq)]
pub struct ApplyRun {
    /// The moves before this one are done with.
    pub next: usize,
    pub outcome: ApplyOutcome,
}

/// An [`ApplyRun`] as a mathematical value.
pub struct RunModel {
    pub next: int,
    pub outcome: ApplyModel,
}

impl DeepView for ApplyRun {
    type V = RunModel;

    open spec fn deep_view(&self) -> RunModel {
        RunModel { next: self.next as int, outcome: self.outcome.deep_view() }
    }
}

impl ApplyRun {
    /// Nothing is done yet.
    pub fn new() -> (r: Self)
        ensures
            r.deep_view() == (RunModel {
                next: 0,
                outcome: ApplyModel { applied: seq![], skipped: seq![] },
            }),
    {
        let outcome = ApplyOutcome { applied: Vec::new(), skipped: Vec::new() };
        assert(outcome.applied.deep_view() =~= seq![]);
        assert(outcome.skipped.deep_view() =~= seq![]);
        ApplyRun { next: 0, outcome }
    }
}

/// What the working tree is asked for.
#[derive(Debug, PartialEq, Eq)]
pub enum TreeRequest {
    /// The text of this workflow file.
    Read { workflow: String },
    /// To hold this text in this workflow file.
    Write { workflow: String, text: String },
    /// Nothing more.
    Done,
}

/// A [`TreeRequest`] as a mathematical value.
pub enum RequestModel {
    Read { workflow: Seq<char> },
    Write { workflow: Seq<char>, text: Seq<char> },
    Done,
}

impl DeepView for TreeRequest {
    type V = RequestModel;

    open spec fn deep_view(&self) -> RequestModel {
        match self {
            TreeRequest::Read { workflow } => RequestModel::Read { workflow: workflow@ },
            TreeRequest::Write { workflow, text } => RequestModel::Write {
                workflow: workflow@,
                text: text@,
            },
            TreeRequest::Done => RequestModel::Done,
        }
    }
}

/// What the working tree answered. `path` is how the host shows the file's place.
#[derive(Debug, PartialEq, Eq)]
pub enum TreeReply {
    /// Nothing was asked yet.
    Start,
    /// The file holds this text.
    Text { text: String },
    /// The file could not be read.
    Unreadable { path: String, error: String },
    /// The file was written.
    Written,
    /// The file could not be written.
    Unwritable { path: String, error: String },
}

/// A [`TreeReply`] as a mathematical value.
pub enum ReplyModel {
    Start,
    Text { text: Seq<char> },
    Unreadable { path: Seq<char>, error: Seq<char> },
    Written,
    Unwritable { path: Seq<char>, error: Seq<char> },
}

impl DeepView for TreeReply {
    type V = ReplyModel;

    open spec fn deep_view(&self) -> ReplyModel {
        match self {
            TreeReply::Start => ReplyModel::Start,
            TreeReply::Text { text } => ReplyModel::Text { text: text@ },
            TreeReply::Unreadable { path, error } => ReplyModel::Unreadable {
                path: path@,
                error: error@,
            },
            TreeReply::Written => ReplyModel::Written,
            TreeReply::Unwritable { path, error } => ReplyModel::Unwritable {
                path: path@,
                error: error@,
            },
        }
    }
}

/// The position of the first move from `i` on that can be applied.
pub open spec fn next_appliable(moves: Seq<MoveModel>, i: int) -> int
    decreases moves.len() - i,
{
    if i >= moves.len() || moves[i] is InjectPathFilterPassThrough {
        i
    } else {
        next_appliable(moves, i + 1)
    }
}

/// How many of the first `n` moves can be applied.
pub open spec fn appliable_among(moves: Seq<MoveModel>, n: int) -> nat
    decreases n,
{
    if n <= 0 {
        0
    } else if moves[n - 1] is InjectPathFilterPassThrough {
        appliable_among(moves, n - 1) + 1
    } else {
        appliable_among(moves, n - 1)
    }
}

/// The edit that dropping the path filter of a workflow is.
pub open spec fn change_to(workflow: Seq<char>) -> ChangeModel {
    ChangeModel {
        move_kind: "inject-path-filter-pass-through"@,
        file: ".github/workflows/"@ + workflow,
        detail:
            "removed the `on.*.paths` trigger filter so the required check is always created (it now runs on every PR — a strict coverage increase, never a bypass); layering an always-run `changes` detector to skip heavy work on unrelated PRs is a documented follow-up"@,
    }
}

/// The line for a move whose workflow has no filter.
pub open spec fn nothing_to_strip(check: Seq<char>, workflow: Seq<char>) -> Seq<char> {
    "`"@ + check + "`: `"@ + workflow
        + "` has no `on.*.paths` filter to strip (already applied?) — no change written"@
}

/// The line for a move whose workflow could not be read or written.
pub open spec fn could_not_strip(
    check: Seq<char>,
    workflow: Seq<char>,
    what: Seq<char>,
    path: Seq<char>,
    error: Seq<char>,
) -> Seq<char> {
    "`"@ + check + "`: could not strip path filter from `"@ + workflow + "`: "@ + what + path
        + ": "@ + error
}

/// The run once the move at `i` is done with, and what is asked for the next one.
pub open spec fn advanced(moves: Seq<MoveModel>, i: int, outcome: ApplyModel) -> (
    RunModel,
    RequestModel,
) {
    let next = next_appliable(moves, i);
    (RunModel { next, outcome }, asked_at(moves, next))
}

/// What is asked for the move at `i`.
pub open spec fn asked_at(moves: Seq<MoveModel>, i: int) -> RequestModel {
    if 0 <= i < moves.len() {
        match moves[i] {
            MoveModel::InjectPathFilterPassThrough { workflow, .. } => RequestModel::Read {
                workflow,
            },
            _ => RequestModel::Done,
        }
    } else {
        RequestModel::Done
    }
}

/// One step of applying moves: the file of each move that can be applied is read; if
/// it has a path filter, it is written without it; what came of it is recorded.
pub open spec fn apply_step(moves: Seq<MoveModel>, run: RunModel, reply: ReplyModel) -> (
    RunModel,
    RequestModel,
) {
    let i = next_appliable(moves, run.next);
    let o = run.outcome;
    if 0 <= i < moves.len() {
        match moves[i] {
            MoveModel::InjectPathFilterPassThrough { check, workflow } => match reply {
                ReplyModel::Start => advanced(moves, i, o),
                ReplyModel::Text { text } => if path_filtered_in(lines_of(text)) {
                    (
                        RunModel { next: i, outcome: o },
                        RequestModel::Write { workflow, text: unfiltered(text) },
                    )
                } else {
                    advanced(
                        moves,
                        i + 1,
                        ApplyModel { skipped: o.skipped.push(nothing_to_strip(check, workflow)), ..o },
                    )
                },
                ReplyModel::Unreadable { path, error } => advanced(
                    moves,
                    i + 1,
                    ApplyModel {
                        skipped: o.skipped.push(
                            could_not_strip(check, workflow, "read "@, path, error),
                        ),
                        ..o
                    },
                ),
                ReplyModel::Written => advanced(
                    moves,
                    i + 1,
                    ApplyModel { applied: o.applied.push(change_to(workflow)), ..o },
                ),
                ReplyModel::Unwritable { path, error } => advanced(
                    moves,
                    i + 1,
                    ApplyModel {
                        skipped: o.skipped.push(
                            could_not_strip(check, workflow, "write "@, path, error),
                        ),
                        ..o
                    },
                ),
            },
            _ => (RunModel { next: i, outcome: o }, RequestModel::Done),
        }
    } else {
        (RunModel { next: i, outcome: o }, RequestModel::Done)
    }
}

fn seek(moves: &[Move], from: usize) -> (r: usize)
    requires
        from <= moves@.len(),
    ensures
        r == next_appliable(moves.deep_view(), from as int),
        from <= r <= moves@.len(),
{
    let ghost m = moves.deep_view();
    let mut i: usize = from;
    while i < moves.len()
        invariant
            from <= i <= moves@.len(),
            m == moves.deep_view(),
            next_appliable(m, from as int) == next_appliable(m, i as int),
        decreases moves@.len() - i,
    {
        assert(m[i as int] == moves@[i as int].deep_view());
        match &moves[i] {
            Move::InjectPathFilterPassThrough { .. } => {
                return i;
            },
            _ => {},
        }
        i += 1;
    }
    i
}

fn advance(moves: &[Move], i: usize, outcome: ApplyOutcome) -> (r: (ApplyRun, TreeRequest))
    requires
        i <= moves@.len(),
    ensures
        (r.0.deep_view(), r.1.deep_view()) == advanced(
            moves.deep_view(),
            i as int,
            outcome.deep_view(),
        ),
{
    let next: usize = seek(moves, i);
    let mut request = TreeRequest::Done;
    if next < moves.len() {
        assert(moves.deep_view()[next as int] == moves@[next as int].deep_view());
        if let Move::InjectPathFilterPassThrough { workflow, .. } = &moves[next] {
            request = TreeRequest::Read { workflow: workflow.clone() };
        }
    }
    (ApplyRun { next, outcome }, request)
}

fn with_skipped(outcome: ApplyOutcome, line: String) -> (r: ApplyOutcome)
    ensures
        r.deep_view() == (ApplyModel {
            skipped: outcome.deep_view().skipped.push(line@),
            ..outcome.deep_view()
        }),
{
    let mut skipped: Vec<String> = outcome.skipped;
    skipped.push(line);
    assert(skipped.deep_view() =~= outcome.deep_view().skipped.push(line@));
    ApplyOutcome { applied: outcome.applied, skipped }
}

fn with_applied(outcome: ApplyOutcome, workflow: &str) -> (r: ApplyOutcome)
    ensures
        r.deep_view() == (ApplyModel {
            applied: outcome.deep_view().applied.push(change_to(workflow@)),
            ..outcome.deep_view()
        }),
{
    let mut applied: Vec<AppliedChange> = outcome.applied;
    applied.push(
        AppliedChange {
            move_kind: "inject-path-filter-pass-through".to_owned(),
            file: cat2(".github/workflows/", workflow),
            detail: "removed the `on.*.paths` trigger filter so the required check is always created (it now runs on every PR — a strict coverage increase, never a bypass); layering an always-run `changes` detector to skip heavy work on unrelated PRs is a documented follow-up".to_owned(),
        },
    );
    assert(applied.deep_view() =~= outcome.deep_view().applied.push(change_to(workflow@)));
    ApplyOutcome { applied, skipped: outcome.skipped }
}

fn failure(check: &str, workflow: &str, what: &str, path: &str, error: &str) -> (r: String)
    ensures
        r@ == could_not_strip(check@, workflow@, what@, path@, error@),
{
    let head: String = cat5("`", check, "`: could not strip path filter from `", workflow, "`: ");
    cat5(&head, what, path, ": ", error)
}

/// One step of applying the moves that can be applied; the others are not touched.
///
/// The host starts with [`ApplyRun::new`] and [`TreeReply::Start`], does what is asked
/// of the working tree and answers, until nothing more is asked. A failure on one
/// move is recorded, and the rest still run.
pub fn apply_moves(moves: &[Move], run: ApplyRun, reply: TreeReply) -> (r: (ApplyRun, TreeRequest))
    ensures
        (r.0.deep_view(), r.1.deep_view()) == apply_step(
            moves.deep_view(),
            run.deep_view(),
            reply.deep_view(),
        ),
{
    if run.next >= moves.len() {
        return (run, TreeRequest::Done);
    }
    let outcome: ApplyOutcome = run.outcome;
    let i: usize = seek(moves, run.next);
    if i == moves.len() {
        return (ApplyRun { next: i, outcome }, TreeRequest::Done);
    }
    assert(moves.deep_view()[i as int] == moves@[i as int].deep_view());
    match &moves[i] {
        Move::InjectPathFilterPassThrough { check, workflow } => match reply {
            TreeReply::Start => advance(moves, i, outcome),
            TreeReply::Text { text } => {
                let (stripped, removed): (String, bool) = remove_on_paths(&text);
                if removed {
                    (
                        ApplyRun { next: i, outcome },
                        TreeRequest::Write { workflow: workflow.clone(), text: stripped },
                    )
                } else {
                    let line: String = cat5(
                        "`",
                        check,
                        "`: `",
                        workflow,
                        "` has no `on.*.paths` filter to strip (already applied?) — no change written",
                    );
                    advance(moves, i + 1, with_skipped(outcome, line))
                }
            },
            TreeReply::Unreadable { path, error } => {
                let line: String = failure(check, workflow, "read ", &path, &error);
                advance(moves, i + 1, with_skipped(outcome, line))
            },
            TreeReply::Written => advance(moves, i + 1, with_applied(outcome, workflow)),
            TreeReply::Unwritable { path, error } => {
                let line: String = failure(check, workflow, "write ", &path, &error);
                advance(moves, i + 1, with_skipped(outcome, line))
            },
        },
        _ => (ApplyRun { next: i, outcome }, TreeRequest::Done),
    }
}

/// Is there one record for each move that can be applied and is done with?
pub open spec fn accounted(moves: Seq<MoveModel>, run: RunModel) -> bool {
    &&& 0 <= run.next <= moves.len()
    &&& run.outcome.applied.len() + run.outcome.skipped.len() == appliable_among(moves, run.next)
}

proof fn lemma_next_appliable(moves: Seq<MoveModel>, i: int)
    requires
        0 <= i <= moves.len(),
    ensures
        i <= next_appliable(moves, i) <= moves.len(),
        next_appliable(moves, i) < moves.len() ==> moves[next_appliable(moves, i)]
            is InjectPathFilterPassThrough,
        appliable_among(moves, next_appliable(moves, i)) == appliable_among(moves, i),
    decreases moves.len() - i,
{
    if i < moves.len() && !(moves[i] is InjectPathFilterPassThrough) {
        lemma_next_appliable(moves, i + 1);
    }
}

/// No move is dropped in silence: whatever the working tree answers, each move that
/// can be applied and is done with has its record, and once nothing more is asked
/// every such move of the list has one.
pub proof fn every_appliable_move_is_accounted_for(
    moves: Seq<MoveModel>,
    run: RunModel,
    reply: ReplyModel,
)
    requires
        accounted(moves, run),
    ensures
        accounted(moves, apply_step(moves, run, reply).0),
        apply_step(moves, run, reply).1 is Done ==> {
            let o = apply_step(moves, run, reply).0.outcome;
            o.applied.len() + o.skipped.len() == appliable_among(moves, moves.len() as int)
        },
{
    lemma_next_appliable(moves, run.next);
    let i = next_appliable(moves, run.next);
    lemma_next_appliable(moves, i);
    if i < moves.len() {
        lemma_next_appliable(moves, i + 1);
    }
}

/// The working tree is only ever asked to hold what was read from it without its path
/// filter, and only where there was one.
pub proof fn a_write_only_drops_the_filter(
    moves: Seq<MoveModel>,
    run: RunModel,
    reply: ReplyModel,
)
    ensures
        apply_step(moves, run, reply).1 matches RequestModel::Write { text, .. } ==> {
            &&& reply matches ReplyModel::Text { text: found }
            &&& path_filtered_in(lines_of(found))
            &&& text == unfiltered(found)
        },
{
}

/// Where no move can be applied, nothing is asked for and nothing is recorded.
pub proof fn other_moves_are_left_alone(moves: Seq<MoveModel>, run: RunModel, reply: ReplyModel)
    requires
        0 <= run.next <= moves.len(),
        forall|i: int|
            0 <= i < moves.len() ==> !((#[trigger] moves[i]) is InjectPathFilterPassThrough),
    ensures
        apply_step(moves, run, reply).0.outcome == run.outcome,
        apply_step(moves, run, reply).1 is Done,
{
    lemma_next_appliable(moves, run.next);
}

/// To apply the same move again to what was written is recorded as a move with nothing to
/// strip, and writes nothing.
pub proof fn a_second_application_writes_nothing(
    moves: Seq<MoveModel>,
    run: RunModel,
    text: Seq<char>,
)
    ensures
        !(apply_step(moves, run, ReplyModel::Text { text: unfiltered(text) }).1 is Write),
        apply_step(moves, run, ReplyModel::Text { text: unfiltered(text) }).0.outcome.applied
            == run.outcome.applied,
{
    the_filter_is_gone(text);
}

/// The run over `moves` after a sequence of answers, whatever they are.
pub open spec fn run_after(moves: Seq<MoveModel>, replies: Seq<ReplyModel>) -> RunModel
    decreases replies.len(),
{
    if replies.len() == 0 {
        RunModel { next: 0, outcome: ApplyModel { applied: seq![], skipped: seq![] } }
    } else {
        apply_step(moves, run_after(moves, replies.drop_last()), replies.last()).0
    }
}

/// Over a whole run no move is dropped: after any sequence of answers each move that can be
/// applied and is done with has its record, and once nothing more is asked every such move
/// of the list has one.
pub proof fn a_run_accounts_for_every_appliable_move(
    moves: Seq<MoveModel>,
    replies: Seq<ReplyModel>,
)
    ensures
        accounted(moves, run_after(moves, replies)),
        replies.len() > 0 && apply_step(
            moves,
            run_after(moves, replies.drop_last()),
            replies.last(),
        ).1 is Done ==> {
            let o = run_after(moves, replies).outcome;
            o.applied.len() + o.skipped.len() == appliable_among(moves, moves.len() as int)
        },
    decreases replies.len(),
{
    if replies.len() > 0 {
        a_run_accounts_for_every_appliable_move(moves, replies.drop_last());
        every_appliable_move_is_accounted_for(
            moves,
            run_after(moves, replies.drop_last()),
            replies.last(),
        );
    }
}

/// Each answer moves a run on: once a file was read, it is written or its move is done with,
/// and once it was written, or could not be read or written, its move is done with. So the
/// host's loop ends.
pub proof fn each_answer_moves_a_run_on(moves: Seq<MoveModel>, run: RunModel, reply: ReplyModel)
    requires
        0 <= run.next <= moves.len(),
        next_appliable(moves, run.next) < moves.len(),
        !(reply is Start),
    ensures
        reply is Text && apply_step(moves, run, reply).1 is Write || apply_step(
            moves,
            run,
            reply,
        ).0.next > next_appliable(moves, run.next),
{
    lemma_next_appliable(moves, run.next);
    lemma_next_appliable(moves, next_appliable(moves, run.next) + 1);
}

proof fn lemma_next_is(moves: Seq<MoveModel>, from: int, i: int)
    requires
        0 <= from <= i < moves.len(),
        moves[i] is InjectPathFilterPassThrough,
        forall|j: int|
            from <= j < i ==> !((#[trigger] moves[j]) is InjectPathFilterPassThrough),
    ensures
        next_appliable(moves, from) == i,
    decreases i - from,
{
    if from < i {
        assert(!(moves[from] is InjectPathFilterPassThrough));
        lemma_next_is(moves, from + 1, i);
    }
}

/// A step serves the first move from where the run stands that drops a path filter, and no
/// other. Its file is read first; what was read is written back to the very same file, without
/// its filter, where it has one. A file that was written is recorded under its place; a move
/// that comes to nothing is recorded with its check, its file and what went wrong.
pub proof fn a_step_serves_the_first_open_move(
    moves: Seq<MoveModel>,
    run: RunModel,
    reply: ReplyModel,
    i: int,
    check: Seq<char>,
    workflow: Seq<char>,
)
    requires
        0 <= run.next <= i < moves.len(),
        moves[i] == (MoveModel::InjectPathFilterPassThrough { check, workflow }),
        forall|j: int|
            run.next <= j < i ==> !((#[trigger] moves[j]) is InjectPathFilterPassThrough),
    ensures
        ({
            let (after, request) = apply_step(moves, run, reply);
            let o = run.outcome;
            match reply {
                ReplyModel::Start => after == (RunModel { next: i, outcome: o }) && request == (
                RequestModel::Read { workflow }),
                ReplyModel::Text { text } => if path_filtered_in(lines_of(text)) {
                    &&& after == RunModel { next: i, outcome: o }
                    &&& request == (RequestModel::Write { workflow, text: unfiltered(text) })
                } else {
                    &&& after.next > i
                    &&& after.outcome.applied == o.applied
                    &&& after.outcome.skipped == o.skipped.push(
                        "`"@ + check + "`: `"@ + workflow
                            + "` has no `on.*.paths` filter to strip (already applied?) — no change written"@,
                    )
                },
                ReplyModel::Unreadable { path, error } => {
                    &&& after.next > i
                    &&& after.outcome.applied == o.applied
                    &&& after.outcome.skipped == o.skipped.push(
                        "`"@ + check + "`: could not strip path filter from `"@ + workflow
                            + "`: "@ + "read "@ + path + ": "@ + error,
                    )
                },
                ReplyModel::Unwritable { path, error } => {
                    &&& after.next > i
                    &&& after.outcome.applied == o.applied
                    &&& after.outcome.skipped == o.skipped.push(
                        "`"@ + check + "`: could not strip path filter from `"@ + workflow
                            + "`: "@ + "write "@ + path + ": "@ + error,
                    )
                },
                ReplyModel::Written => {
                    &&& after.next > i
                    &&& after.outcome.skipped == o.skipped
                    &&& after.outcome.applied.len() == o.applied.len() + 1
                    &&& after.outcome.applied.drop_last() == o.applied
                    &&& after.outcome.applied.last().file == ".github/workflows/"@ + workflow
                    &&& after.outcome.applied.last().move_kind
                        == "inject-path-filter-pass-through"@
                },
            }
        }),
{
    lemma_next_is(moves, run.next, i);
    lemma_next_is(moves, i, i);
    lemma_next_appliable(moves, i + 1);
    let (after, request) = apply_step(moves, run, reply);
    if reply is Written {
        assert(after.outcome.applied.drop_last() =~= run.outcome.applied);
    }
}

/// Once a move is done with, the file of the next move that drops a path filter is asked for,
/// or nothing more where there is none.
pub proof fn the_next_file_is_that_of_the_next_move(
    moves: Seq<MoveModel>,
    run: RunModel,
    reply: ReplyModel,
)
    requires
        0 <= run.next <= moves.len(),
    ensures
        ({
            let (after, request) = apply_step(moves, run, reply);
            &&& request matches RequestModel::Read { workflow } ==> 0 <= after.next < moves.len()
                && (moves[after.next] matches MoveModel::InjectPathFilterPassThrough {
                workflow: w,
                ..
            } && w == workflow)
            &&& request is Done ==> after.next == moves.len()
            &&& run.next <= after.next <= moves.len()
        }),
{
    lemma_next_appliable(moves, run.next);
    let i = next_appliable(moves, run.next);
    lemma_next_appliable(moves, i);
    if i < moves.len() {
        lemma_next_appliable(moves, i + 1);
    }
}

} // verus!
