//! Conversions between identifier naming conventions.
//!
//! `snake_case`, `camelCase`, `PascalCase`, `kebab-case` and
//! `SCREAMING_SNAKE_CASE` transforms, each specified exactly over the
//! `Seq<char>` view of the input.

use vstd::prelude::*;
use vstd::string::StrSliceExecFns;

use crate::chars::{is_lower, is_upper, spec_is_lower, spec_is_upper, spec_lower, spec_upper,
    to_ascii_lower, to_ascii_upper};
use crate::text::{char_at, push_char, str_len};

verus! {

/// Text produced by the snake-to-camel scan from position `i` on, with
/// `cap` telling whether the next letter is to be capitalised.
pub open spec fn camel_from(s: Seq<char>, i: int, cap: bool) -> Seq<char>
    decreases s.len() - i,
{
    if i < 0 || i >= s.len() {
        Seq::empty()
    } else if s[i] == '_' {
        camel_from(s, i + 1, true)
    } else if cap {
        seq![spec_upper(s[i])] + camel_from(s, i + 1, false)
    } else {
        seq![s[i]] + camel_from(s, i + 1, false)
    }
}

/// The camelCase form of a snake_case identifier: underscores removed,
/// each letter that followed one capitalised.
pub open spec fn spec_snake_to_camel(s: Seq<char>) -> Seq<char> {
    camel_from(s, 0, false)
}

/// Convert a snake_case string to camelCase.
pub fn snake_to_camel(s: &str) -> (r: String)
    ensures
        r@ == spec_snake_to_camel(s@),
{
    let n = str_len(s);
    let mut result = String::new();
    let mut capitalize_next = false;
    let mut i: usize = 0;
    while i < n
        invariant
            n == s@.len(),
            i <= n,
            spec_snake_to_camel(s@) == result@ + camel_from(s@, i as int, capitalize_next),
        decreases n - i,
    {
        let ch = char_at(s, i);
        if ch == '_' {
            capitalize_next = true;
        } else if capitalize_next {
            push_char(&mut result, to_ascii_upper(ch));
            capitalize_next = false;
        } else {
            push_char(&mut result, ch);
        }
        i = i + 1;
    }
    result
}

/// The PascalCase form of a snake_case identifier: like the camelCase
/// form, with the first emitted letter capitalised as well.
pub open spec fn spec_snake_to_pascal(s: Seq<char>) -> Seq<char> {
    camel_from(s, 0, true)
}

/// Convert a snake_case string to PascalCase.
pub fn snake_to_pascal(s: &str) -> (r: String)
    ensures
        r@ == spec_snake_to_pascal(s@),
{
    let n = str_len(s);
    let mut result = String::new();
    let mut capitalize_next = true;
    let mut i: usize = 0;
    while i < n
        invariant
            n == s@.len(),
            i <= n,
            spec_snake_to_pascal(s@) == result@ + camel_from(s@, i as int, capitalize_next),
        decreases n - i,
    {
        let ch = char_at(s, i);
        if ch == '_' {
            capitalize_next = true;
        } else if capitalize_next {
            push_char(&mut result, to_ascii_upper(ch));
            capitalize_next = false;
        } else {
            push_char(&mut result, ch);
        }
        i = i + 1;
    }
    result
}

/// Text produced by the forced-PascalCase scan from position `i` on:
/// separators dropped, the letter after a separator capitalised, every
/// other letter lowercased.
pub open spec fn pascal_from(s: Seq<char>, i: int, cap: bool) -> Seq<char>
    decreases s.len() - i,
{
    if i < 0 || i >= s.len() {
        Seq::empty()
    } else if s[i] == '_' || s[i] == '-' {
        pascal_from(s, i + 1, true)
    } else if cap {
        seq![spec_upper(s[i])] + pascal_from(s, i + 1, false)
    } else {
        seq![spec_lower(s[i])] + pascal_from(s, i + 1, false)
    }
}

/// `to_pascal_case`: a string whose first character is already an
/// uppercase letter is kept as it is; anything else is rebuilt in
/// PascalCase from its `_`/`-` separated words.
pub open spec fn spec_to_pascal_case(s: Seq<char>) -> Seq<char> {
    if s.len() > 0 && spec_is_upper(s[0]) {
        s
    } else {
        pascal_from(s, 0, true)
    }
}

/// Convert a string to PascalCase, returning it unchanged if it already
/// starts with an uppercase letter.
pub fn to_pascal_case(s: &str) -> (r: String)
    ensures
        r@ == spec_to_pascal_case(s@),
{
    let n = str_len(s);
    if n > 0 && is_upper(char_at(s, 0)) {
        return crate::text::str_to_string(s);
    }
    let mut result = String::new();
    let mut capitalize_next = true;
    let mut i: usize = 0;
    while i < n
        invariant
            n == s@.len(),
            i <= n,
            !(n > 0 && spec_is_upper(s@[0])),
            spec_to_pascal_case(s@) == result@ + pascal_from(s@, i as int, capitalize_next),
        decreases n - i,
    {
        let ch = char_at(s, i);
        if ch == '_' || ch == '-' {
            capitalize_next = true;
        } else if capitalize_next {
            push_char(&mut result, to_ascii_upper(ch));
            capitalize_next = false;
        } else {
            push_char(&mut result, to_ascii_lower(ch));
        }
        i = i + 1;
    }
    result
}

/// Text produced by the camel-to-snake scan from position `i` on.  An
/// uppercase letter is lowercased; it is preceded by `_` when it does
/// not open the string and either follows a lowercase letter or is
/// followed by one (so runs of capitals stay together).
pub open spec fn snake_from(s: Seq<char>, i: int, prev_lower: bool) -> Seq<char>
    decreases s.len() - i,
{
    if i < 0 || i >= s.len() {
        Seq::empty()
    } else if spec_is_upper(s[i]) {
        let sep = i > 0 && (prev_lower || (i + 1 < s.len() && spec_is_lower(s[i + 1])));
        if sep {
            seq!['_', spec_lower(s[i])] + snake_from(s, i + 1, false)
        } else {
            seq![spec_lower(s[i])] + snake_from(s, i + 1, false)
        }
    } else {
        seq![s[i]] + snake_from(s, i + 1, spec_is_lower(s[i]))
    }
}

/// The snake_case form of a camelCase or PascalCase identifier.
pub open spec fn spec_to_snake_case(s: Seq<char>) -> Seq<char> {
    snake_from(s, 0, false)
}

/// Convert a camelCase or PascalCase string to snake_case.
pub fn to_snake_case(s: &str) -> (r: String)
    ensures
        r@ == spec_to_snake_case(s@),
{
    let n = str_len(s);
    let mut result = String::new();
    let mut prev_was_lowercase = false;
    let mut i: usize = 0;
    while i < n
        invariant
            n == s@.len(),
            i <= n,
            spec_to_snake_case(s@) == result@ + snake_from(s@, i as int, prev_was_lowercase),
        decreases n - i,
    {
        let ch = char_at(s, i);
        if is_upper(ch) {
            let next_is_lower = i + 1 < n && is_lower(char_at(s, i + 1));
            if i > 0 && (prev_was_lowercase || next_is_lower) {
                push_char(&mut result, '_');
            }
            push_char(&mut result, to_ascii_lower(ch));
            prev_was_lowercase = false;
        } else {
            push_char(&mut result, ch);
            prev_was_lowercase = is_lower(ch);
        }
        i = i + 1;
    }
    result
}

/// The kebab-case form of a snake_case identifier: each `_` replaced by
/// `-`, all else unchanged.
pub open spec fn spec_snake_to_kebab(s: Seq<char>) -> Seq<char> {
    Seq::new(s.len(), |i: int| if s[i] == '_' { '-' } else { s[i] })
}

/// Convert snake_case to kebab-case.
pub fn snake_to_kebab(s: &str) -> (r: String)
    ensures
        r@ == spec_snake_to_kebab(s@),
{
    let n = str_len(s);
    let mut result = String::new();
    let mut i: usize = 0;
    while i < n
        invariant
            n == s@.len(),
            i <= n,
            result@ == spec_snake_to_kebab(s@).take(i as int),
        decreases n - i,
    {
        let ch = char_at(s, i);
        if ch == '_' {
            push_char(&mut result, '-');
        } else {
            push_char(&mut result, ch);
        }
        proof {
            assert(result@ =~= spec_snake_to_kebab(s@).take(i + 1));
        }
        i = i + 1;
    }
    proof {
        assert(spec_snake_to_kebab(s@).take(n as int) =~= spec_snake_to_kebab(s@));
    }
    result
}

/// The SCREAMING_SNAKE_CASE form: every ASCII letter uppercased.
pub open spec fn spec_snake_to_screaming_snake(s: Seq<char>) -> Seq<char> {
    Seq::new(s.len(), |i: int| spec_upper(s[i]))
}

/// Convert snake_case to SCREAMING_SNAKE_CASE.
pub fn snake_to_screaming_snake(s: &str) -> (r: String)
    ensures
        r@ == spec_snake_to_screaming_snake(s@),
{
    let n = str_len(s);
    let mut result = String::new();
    let mut i: usize = 0;
    while i < n
        invariant
            n == s@.len(),
            i <= n,
            result@ == spec_snake_to_screaming_snake(s@).take(i as int),
        decreases n - i,
    {
        let ch = char_at(s, i);
        push_char(&mut result, to_ascii_upper(ch));
        proof {
            assert(result@ =~= spec_snake_to_screaming_snake(s@).take(i + 1));
        }
        i = i + 1;
    }
    proof {
        assert(spec_snake_to_screaming_snake(s@).take(n as int) =~= spec_snake_to_screaming_snake(s@));
    }
    result
}

/// A snake_case string: non-empty, made only of ASCII lowercase
/// letters, digits and underscores.
pub open spec fn spec_is_snake_case(s: Seq<char>) -> bool {
    s.len() > 0 && forall|i: int|
        0 <= i < s.len() ==> spec_is_lower(#[trigger] s[i]) || ('0' <= s[i] && s[i] <= '9')
            || s[i] == '_'
}

/// Check whether a string is in snake_case form.
pub fn is_snake_case(s: &str) -> (r: bool)
    ensures
        r == spec_is_snake_case(s@),
{
    let n = str_len(s);
    if n == 0 {
        return false;
    }
    let mut i: usize = 0;
    while i < n
        invariant
            n == s@.len(),
            i <= n,
            forall|j: int|
                0 <= j < i ==> spec_is_lower(#[trigger] s@[j]) || ('0' <= s@[j] && s@[j] <= '9')
                    || s@[j] == '_',
        decreases n - i,
    {
        let ch = char_at(s, i);
        if !(is_lower(ch) || ('0' <= ch && ch <= '9') || ch == '_') {
            return false;
        }
        i = i + 1;
    }
    true
}

/// A camelCase string: non-empty, opens with an ASCII lowercase letter
/// and contains at least one ASCII uppercase letter.
pub open spec fn spec_is_camel_case(s: Seq<char>) -> bool {
    s.len() > 0 && spec_is_lower(s[0]) && exists|i: int| 0 <= i < s.len() && spec_is_upper(#[trigger] s[i])
}

/// Check whether a string is in camelCase form.
pub fn is_camel_case(s: &str) -> (r: bool)
    ensures
        r == spec_is_camel_case(s@),
{
    let n = str_len(s);
    if n == 0 {
        return false;
    }
    if !is_lower(char_at(s, 0)) {
        return false;
    }
    let mut i: usize = 0;
    while i < n
        invariant
            n == s@.len(),
            i <= n,
            n > 0,
            spec_is_lower(s@[0]),
            forall|j: int| 0 <= j < i ==> !spec_is_upper(#[trigger] s@[j]),
        decreases n - i,
    {
        if is_upper(char_at(s, i)) {
            return true;
        }
        i = i + 1;
    }
    false
}

/// The string with its first character lowercased (ASCII).
pub open spec fn spec_lower_first(s: Seq<char>) -> Seq<char> {
    if s.len() == 0 {
        s
    } else {
        seq![spec_lower(s[0])] + s.skip(1)
    }
}

/// Lowercase the first character of a string.
pub fn lower_first(s: &str) -> (r: String)
    ensures
        r@ == spec_lower_first(s@),
{
    let n = str_len(s);
    let mut result = String::new();
    if n == 0 {
        return result;
    }
    push_char(&mut result, to_ascii_lower(char_at(s, 0)));
    let rest = s.substring_char(1, n);
    crate::text::push_str(&mut result, rest);
    proof {
        assert(result@ =~= spec_lower_first(s@));
    }
    result
}

/// The string with its first character uppercased (ASCII).
pub open spec fn spec_upper_first(s: Seq<char>) -> Seq<char> {
    if s.len() == 0 {
        s
    } else {
        seq![spec_upper(s[0])] + s.skip(1)
    }
}

/// Uppercase the first character of a string.
pub fn upper_first(s: &str) -> (r: String)
    ensures
        r@ == spec_upper_first(s@),
{
    let n = str_len(s);
    let mut result = String::new();
    if n == 0 {
        return result;
    }
    push_char(&mut result, to_ascii_upper(char_at(s, 0)));
    let rest = s.substring_char(1, n);
    crate::text::push_str(&mut result, rest);
    proof {
        assert(result@ =~= spec_upper_first(s@));
    }
    result
}

/// A PascalCase string: non-empty and opening with an ASCII uppercase
/// letter.
pub open spec fn spec_is_pascal_case(s: Seq<char>) -> bool {
    s.len() > 0 && spec_is_upper(s[0])
}

/// Check whether a string is in PascalCase form.
pub fn is_pascal_case(s: &str) -> (r: bool)
    ensures
        r == spec_is_pascal_case(s@),
{
    let n = str_len(s);
    n > 0 && is_upper(char_at(s, 0))
}

} // verus!
