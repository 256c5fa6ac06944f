//! Swift code formatting helpers: indentation, doc comments, string
//! escaping and joining.

use vstd::prelude::*;
use vstd::string::StrSliceExecFns;

use crate::text::{char_at, push_char, push_str, str_len};

verus! {

/// ASCII whitespace, the subset of Unicode whitespace that identifier
/// and doc-comment handling in this crate recognises.
pub open spec fn spec_is_ws(c: char) -> bool {
    c == ' ' || c == '\t' || c == '\n' || c == '\r' || c == '\u{000B}' || c == '\u{000C}'
}

fn is_ws(c: char) -> (r: bool)
    ensures
        r == spec_is_ws(c),
{
    c == ' ' || c == '\t' || c == '\n' || c == '\r' || c == '\u{000B}' || c == '\u{000C}'
}

/// Position of the first `\n` at or after `i`, or the length when the
/// rest of the string holds none.
pub open spec fn first_nl(s: Seq<char>, i: int) -> int
    decreases s.len() - i,
{
    if i < 0 || i >= s.len() {
        s.len() as int
    } else if s[i] == '\n' {
        i
    } else {
        first_nl(s, i + 1)
    }
}

proof fn lemma_first_nl_bounds(s: Seq<char>, i: int)
    requires
        0 <= i <= s.len(),
    ensures
        i <= first_nl(s, i) <= s.len(),
        first_nl(s, i) < s.len() ==> s[first_nl(s, i)] == '\n',
        forall|j: int| i <= j < first_nl(s, i) ==> s[j] != '\n',
    decreases s.len() - i,
{
    if i < s.len() && s[i] != '\n' {
        lemma_first_nl_bounds(s, i + 1);
    }
}

/// One line of text, as `str::lines` yields it: the text up to the next
/// `\n` (or the end), with a `\r` that stood directly before the `\n`
/// removed.
pub open spec fn line_at(s: Seq<char>, i: int) -> Seq<char> {
    let j = first_nl(s, i);
    let raw = s.subrange(i, j);
    if j < s.len() && raw.len() > 0 && raw[raw.len() - 1] == '\r' {
        raw.drop_last()
    } else {
        raw
    }
}

/// The lines of `s`, split as `str::lines` splits them: at `\n` or
/// `\r\n`, with no final empty line after a trailing newline.
pub open spec fn spec_lines(s: Seq<char>) -> Seq<Seq<char>>
    decreases s.len(),
    via spec_lines_dec
{
    if s.len() == 0 {
        Seq::empty()
    } else {
        let j = first_nl(s, 0);
        if j >= s.len() {
            seq![line_at(s, 0)]
        } else {
            seq![line_at(s, 0)] + spec_lines(s.subrange(j + 1, s.len() as int))
        }
    }
}

#[via_fn]
proof fn spec_lines_dec(s: Seq<char>) {
    if s.len() > 0 {
        lemma_first_nl_bounds(s, 0);
    }
}

/// Splits a string into its lines.
fn split_lines(s: &str) -> (r: Vec<String>)
    ensures
        r@.map_values(|l: String| l@) == spec_lines(s@),
{
    let n = str_len(s);
    let mut lines: Vec<String> = Vec::new();
    let mut pos: usize = 0;
    proof {
        assert(s@.subrange(0, n as int) =~= s@);
        assert(lines@.map_values(|l: String| l@) + spec_lines(s@) =~= spec_lines(s@));
    }
    while pos < n
        invariant
            n == s@.len(),
            pos <= n,
            lines@.map_values(|l: String| l@) + spec_lines(s@.subrange(pos as int, n as int))
                =~= spec_lines(s@),
        decreases n - pos,
    {
        // scan for the next newline
        let ghost suffix = s@.subrange(pos as int, n as int);
        let ghost p0 = pos as int;
        let ghost old_map = lines@.map_values(|l: String| l@);
        let mut j: usize = pos;
        while j < n && char_at(s, j) != '\n'
            invariant
                n == s@.len(),
                pos <= j <= n,
                forall|k: int| pos <= k < j ==> s@[k] != '\n',
            decreases n - j,
        {
            j = j + 1;
        }
        proof {
            lemma_first_nl_bounds(suffix, 0);
            assert forall|k: int| 0 <= k < j - p0 implies suffix[k] != '\n' by {
                assert(suffix[k] == s@[p0 + k]);
            }
            if j < n {
                assert(suffix[j - p0] == s@[j as int]);
            }
            assert(first_nl(suffix, 0) == j - p0) by {
                if first_nl(suffix, 0) < j - p0 {
                    assert(suffix[first_nl(suffix, 0)] == '\n');
                } else if first_nl(suffix, 0) > j - p0 {
                    assert(j - p0 < suffix.len());
                }
            }
        }
        let line_end: usize = if j > pos && j < n && char_at(s, j - 1) == '\r' {
            j - 1
        } else {
            j
        };
        let line = s.substring_char(pos, line_end);
        let mut owned = String::new();
        push_str(&mut owned, line);
        lines.push(owned);
        proof {
            assert(suffix.subrange(0, j - p0) =~= s@.subrange(p0, j as int));
            if j > p0 && j < n && s@[j - 1] == '\r' {
                assert(suffix.subrange(0, j - p0).drop_last() =~= s@.subrange(
                    p0,
                    line_end as int,
                ));
            }
            assert(line@ =~= line_at(suffix, 0));
            assert(lines@.map_values(|l: String| l@) =~= old_map.push(line_at(suffix, 0)));
        }
        if j < n {
            pos = j + 1;
        } else {
            pos = n;
        }
        proof {
            if j < n {
                assert(suffix.subrange(j - p0 + 1, suffix.len() as int) =~= s@.subrange(
                    pos as int,
                    n as int,
                ));
                assert(spec_lines(suffix) == seq![line_at(suffix, 0)] + spec_lines(
                    s@.subrange(pos as int, n as int),
                ));
            } else {
                assert(spec_lines(suffix) == seq![line_at(suffix, 0)]);
                assert(s@.subrange(pos as int, n as int).len() == 0);
                assert(spec_lines(s@.subrange(pos as int, n as int)) =~= Seq::<Seq<char>>::empty());
            }
            assert(lines@.map_values(|l: String| l@) + spec_lines(
                s@.subrange(pos as int, n as int),
            ) =~= spec_lines(s@));
        }
    }
    proof {
        if n == 0 {
            assert(spec_lines(s@) =~= Seq::<Seq<char>>::empty());
        }
        assert(s@.subrange(pos as int, n as int).len() == 0);
        assert(spec_lines(s@.subrange(pos as int, n as int)) =~= Seq::<Seq<char>>::empty());
        assert(lines@.map_values(|l: String| l@) =~= spec_lines(s@));
    }
    lines
}

/// `level` copies of the four-space indent unit.
pub open spec fn spec_indent_unit(level: nat) -> Seq<char>
    decreases level,
{
    if level == 0 {
        Seq::empty()
    } else {
        spec_indent_unit((level - 1) as nat) + "    "@
    }
}

/// A line of only whitespace.
pub open spec fn spec_blank(line: Seq<char>) -> bool {
    forall|i: int| 0 <= i < line.len() ==> spec_is_ws(#[trigger] line[i])
}

/// A whitespace-only line becomes empty; any other line gains the
/// indent prefix.
pub open spec fn spec_indent_line(line: Seq<char>, level: nat) -> Seq<char> {
    if spec_blank(line) {
        Seq::empty()
    } else {
        spec_indent_unit(level) + line
    }
}

/// The first `k` of the given lines, joined with `\n`.
pub open spec fn spec_join_nl(lines: Seq<Seq<char>>, k: int) -> Seq<char>
    decreases k,
{
    if k <= 0 {
        Seq::empty()
    } else if k == 1 {
        lines[0]
    } else {
        spec_join_nl(lines, k - 1) + seq!['\n'] + lines[k - 1]
    }
}

/// The indented form of `s`: each line indented by `level` levels of
/// four spaces, whitespace-only lines left empty, lines re-joined with
/// `\n` (so a trailing newline of `s` is not kept).
pub open spec fn spec_indent(s: Seq<char>, level: nat) -> Seq<char> {
    let mapped = spec_lines(s).map_values(|l: Seq<char>| spec_indent_line(l, level));
    spec_join_nl(mapped, mapped.len() as int)
}

fn blank(line: &String) -> (r: bool)
    ensures
        r == spec_blank(line@),
{
    let n = str_len(line.as_str());
    let mut i: usize = 0;
    while i < n
        invariant
            n == line@.len(),
            i <= n,
            forall|j: int| 0 <= j < i ==> spec_is_ws(#[trigger] line@[j]),
        decreases n - i,
    {
        if !is_ws(char_at(line.as_str(), i)) {
            return false;
        }
        i = i + 1;
    }
    true
}

fn indent_unit(level: usize) -> (r: String)
    ensures
        r@ == spec_indent_unit(level as nat),
{
    let mut r = String::new();
    let mut i: usize = 0;
    while i < level
        invariant
            i <= level,
            r@ == spec_indent_unit(i as nat),
        decreases level - i,
    {
        push_str(&mut r, "    ");
        i = i + 1;
    }
    r
}

/// Add `level` levels of four-space indentation to each non-blank line
/// of `s`.
pub fn indent(s: &str, level: usize) -> (r: String)
    ensures
        r@ == spec_indent(s@, level as nat),
{
    let prefix = indent_unit(level);
    let lines = split_lines(s);
    let ghost mapped = spec_lines(s@).map_values(|l: Seq<char>| spec_indent_line(l, level as nat));
    let mut result = String::new();
    let mut i: usize = 0;
    while i < lines.len()
        invariant
            lines@.map_values(|l: String| l@) == spec_lines(s@),
            mapped == spec_lines(s@).map_values(|l: Seq<char>| spec_indent_line(l, level as nat)),
            prefix@ == spec_indent_unit(level as nat),
            i <= lines.len(),
            result@ == spec_join_nl(mapped, i as int),
        decreases lines.len() - i,
    {
        if i > 0 {
            push_char(&mut result, '\n');
        }
        if !blank(&lines[i]) {
            push_str(&mut result, prefix.as_str());
            push_str(&mut result, lines[i].as_str());
        }
        proof {
            assert(mapped[i as int] == spec_indent_line(lines@[i as int]@, level as nat));
            assert(result@ =~= spec_join_nl(mapped, i + 1));
        }
        i = i + 1;
    }
    result
}

/// Leading whitespace removed, as `str::trim_start` does for ASCII
/// whitespace.
pub open spec fn first_non_ws(s: Seq<char>, i: int) -> int
    decreases s.len() - i,
{
    if i < 0 || i >= s.len() {
        s.len() as int
    } else if spec_is_ws(s[i]) {
        first_non_ws(s, i + 1)
    } else {
        i
    }
}

pub open spec fn spec_trim_start(s: Seq<char>) -> Seq<char> {
    s.subrange(first_non_ws(s, 0), s.len() as int)
}

proof fn lemma_first_non_ws_bounds(s: Seq<char>, i: int)
    requires
        0 <= i <= s.len(),
    ensures
        i <= first_non_ws(s, i) <= s.len(),
        first_non_ws(s, i) < s.len() ==> !spec_is_ws(s[first_non_ws(s, i)]),
        forall|j: int| i <= j < first_non_ws(s, i) ==> spec_is_ws(s[j]),
    decreases s.len() - i,
{
    if i < s.len() && spec_is_ws(s[i]) {
        lemma_first_non_ws_bounds(s, i + 1);
    }
}

fn trim_start_str<'a>(s: &'a str) -> (r: &'a str)
    ensures
        r@ == spec_trim_start(s@),
{
    let n = str_len(s);
    let mut i: usize = 0;
    while i < n && is_ws(char_at(s, i))
        invariant
            n == s@.len(),
            i <= n,
            forall|j: int| 0 <= j < i ==> spec_is_ws(s@[j]),
        decreases n - i,
    {
        i = i + 1;
    }
    proof {
        lemma_first_non_ws_bounds(s@, 0);
        assert(first_non_ws(s@, 0) == i) by {
            if first_non_ws(s@, 0) < i {
                assert(spec_is_ws(s@[first_non_ws(s@, 0)]));
            }
        }
    }
    s.substring_char(i, n)
}

/// The doc-comment text for the first `k` lines: each line trimmed at
/// the left and wrapped as `/// line\n`.
pub open spec fn spec_doc_prefix(lines: Seq<Seq<char>>, k: int) -> Seq<char>
    decreases k,
{
    if k <= 0 {
        Seq::empty()
    } else {
        spec_doc_prefix(lines, k - 1) + "/// "@ + spec_trim_start(lines[k - 1]) + "\n"@
    }
}

/// The Swift doc comment for `docs`: one `/// ` line per input line,
/// leading whitespace of each line removed, each line ending in `\n`.
pub open spec fn spec_format_doc_comment(docs: Seq<char>) -> Seq<char> {
    spec_doc_prefix(spec_lines(docs), spec_lines(docs).len() as int)
}

/// Format a documentation string as a Swift `///` doc comment.
pub fn format_doc_comment(docs: &str) -> (r: String)
    ensures
        r@ == spec_format_doc_comment(docs@),
{
    let lines = split_lines(docs);
    let mut result = String::new();
    let mut i: usize = 0;
    while i < lines.len()
        invariant
            lines@.map_values(|l: String| l@) == spec_lines(docs@),
            i <= lines.len(),
            result@ == spec_doc_prefix(spec_lines(docs@), i as int),
        decreases lines.len() - i,
    {
        push_str(&mut result, "/// ");
        let trimmed = trim_start_str(lines[i].as_str());
        push_str(&mut result, trimmed);
        push_str(&mut result, "\n");
        proof {
            assert(spec_lines(docs@)[i as int] == lines@[i as int]@);
            assert(result@ =~= spec_doc_prefix(spec_lines(docs@), i + 1));
        }
        i = i + 1;
    }
    result
}

/// The escape of one character for a Swift string literal.
pub open spec fn spec_escape_char(c: char) -> Seq<char> {
    if c == '\\' {
        seq!['\\', '\\']
    } else if c == '"' {
        seq!['\\', '"']
    } else if c == '\n' {
        seq!['\\', 'n']
    } else if c == '\r' {
        seq!['\\', 'r']
    } else if c == '\t' {
        seq!['\\', 't']
    } else {
        seq![c]
    }
}

pub open spec fn escape_from(s: Seq<char>, i: int) -> Seq<char>
    decreases s.len() - i,
{
    if i < 0 || i >= s.len() {
        Seq::empty()
    } else {
        spec_escape_char(s[i]) + escape_from(s, i + 1)
    }
}

/// `s` with backslashes, double quotes, newlines, carriage returns and
/// tabs escaped for use inside a Swift string literal.
pub open spec fn spec_escape_string(s: Seq<char>) -> Seq<char> {
    escape_from(s, 0)
}

/// Escape a string for use in Swift source code.
pub fn escape_string(s: &str) -> (r: String)
    ensures
        r@ == spec_escape_string(s@),
{
    let n = str_len(s);
    let mut result = String::new();
    let mut i: usize = 0;
    while i < n
        invariant
            n == s@.len(),
            i <= n,
            spec_escape_string(s@) == result@ + escape_from(s@, i as int),
        decreases n - i,
    {
        let c = char_at(s, i);
        if c == '\\' {
            push_str(&mut result, "\\\\");
        } else if c == '"' {
            push_str(&mut result, "\\\"");
        } else if c == '\n' {
            push_str(&mut result, "\\n");
        } else if c == '\r' {
            push_str(&mut result, "\\r");
        } else if c == '\t' {
            push_str(&mut result, "\\t");
        } else {
            push_char(&mut result, c);
        }
        proof {
            reveal_strlit("\\\\");
            reveal_strlit("\\\"");
            reveal_strlit("\\n");
            reveal_strlit("\\r");
            reveal_strlit("\\t");
            assert(spec_escape_string(s@) =~= result@ + escape_from(s@, i + 1));
        }
        i = i + 1;
    }
    result
}

/// The non-empty items among the first `k`, joined with `sep`;
/// `started` tells whether some item was already emitted before them.
pub open spec fn jne_from(items: Seq<Seq<char>>, sep: Seq<char>, i: int, started: bool) -> Seq<char>
    decreases items.len() - i,
{
    if i < 0 || i >= items.len() {
        Seq::empty()
    } else if items[i].len() == 0 {
        jne_from(items, sep, i + 1, started)
    } else if started {
        sep + items[i] + jne_from(items, sep, i + 1, true)
    } else {
        items[i] + jne_from(items, sep, i + 1, true)
    }
}

/// The non-empty items of the list, joined with `sep`.
pub open spec fn spec_join_non_empty(items: Seq<Seq<char>>, sep: Seq<char>) -> Seq<char> {
    jne_from(items, sep, 0, false)
}

/// Join the non-empty strings of `items` with `separator`.
pub fn join_non_empty(items: &Vec<String>, separator: &str) -> (r: String)
    ensures
        r@ == spec_join_non_empty(items@.map_values(|l: String| l@), separator@),
{
    let ghost views = items@.map_values(|l: String| l@);
    let mut result = String::new();
    let mut started = false;
    let mut i: usize = 0;
    while i < items.len()
        invariant
            views == items@.map_values(|l: String| l@),
            i <= items.len(),
            spec_join_non_empty(views, separator@) == result@ + jne_from(
                views,
                separator@,
                i as int,
                started,
            ),
        decreases items.len() - i,
    {
        proof {
            assert(views[i as int] == items@[i as int]@);
        }
        if str_len(items[i].as_str()) > 0 {
            if started {
                push_str(&mut result, separator);
            }
            push_str(&mut result, items[i].as_str());
            started = true;
        }
        i = i + 1;
    }
    result
}

/// The Swift `@available` deprecation attribute around `message`.
pub open spec fn spec_format_deprecated(message: Seq<char>) -> Seq<char> {
    "@available(*, deprecated, message: \""@ + message + "\")\n"@
}

/// Format a deprecation message as a Swift `@available` attribute line.
pub fn format_deprecated(message: &str) -> (r: String)
    ensures
        r@ == spec_format_deprecated(message@),
{
    let mut result = String::new();
    push_str(&mut result, "@available(*, deprecated, message: \"");
    push_str(&mut result, message);
    push_str(&mut result, "\")\n");
    result
}

} // verus!
