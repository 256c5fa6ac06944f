//! Serde-style `rename_all` rules for string-enum raw values.

use vstd::prelude::*;

use crate::chars::{is_upper, spec_is_upper, spec_lower, spec_upper, to_ascii_lower,
    to_ascii_upper};
use crate::case_conversion::{lower_first, spec_lower_first, spec_to_snake_case, spec_upper_first,
    to_snake_case, upper_first};
use crate::config::NamingConvention;
use crate::text::{char_at, push_char, str_eq, str_len};

verus! {

/// Every ASCII letter lowercased.
pub open spec fn spec_lower_all(s: Seq<char>) -> Seq<char> {
    Seq::new(s.len(), |i: int| spec_lower(s[i]))
}

/// Every ASCII letter uppercased.
pub open spec fn spec_upper_all(s: Seq<char>) -> Seq<char> {
    Seq::new(s.len(), |i: int| spec_upper(s[i]))
}

fn lower_all(s: &str) -> (r: String)
    ensures
        r@ == spec_lower_all(s@),
{
    let n = str_len(s);
    let mut result = String::new();
    let mut i: usize = 0;
    while i < n
        invariant
            n == s@.len(),
            i <= n,
            result@ == spec_lower_all(s@).take(i as int),
        decreases n - i,
    {
        push_char(&mut result, to_ascii_lower(char_at(s, i)));
        proof {
            assert(result@ =~= spec_lower_all(s@).take(i + 1));
        }
        i = i + 1;
    }
    proof {
        assert(spec_lower_all(s@).take(n as int) =~= spec_lower_all(s@));
    }
    result
}

fn upper_all(s: &str) -> (r: String)
    ensures
        r@ == spec_upper_all(s@),
{
    let n = str_len(s);
    let mut result = String::new();
    let mut i: usize = 0;
    while i < n
        invariant
            n == s@.len(),
            i <= n,
            result@ == spec_upper_all(s@).take(i as int),
        decreases n - i,
    {
        push_char(&mut result, to_ascii_upper(char_at(s, i)));
        proof {
            assert(result@ =~= spec_upper_all(s@).take(i + 1));
        }
        i = i + 1;
    }
    proof {
        assert(spec_upper_all(s@).take(n as int) =~= spec_upper_all(s@));
    }
    result
}

/// Text of the separator-inserting scans from position `i` on: before
/// an uppercase letter that does not open the string, `sep` is
/// inserted; every letter is mapped with `spec_upper` when `up` holds,
/// with `spec_lower` otherwise.
pub open spec fn sep_case_from(s: Seq<char>, i: int, sep: char, up: bool) -> Seq<char>
    decreases s.len() - i,
{
    if i < 0 || i >= s.len() {
        Seq::empty()
    } else {
        let mapped = if up {
            spec_upper(s[i])
        } else {
            spec_lower(s[i])
        };
        if spec_is_upper(s[i]) && i > 0 {
            seq![sep, mapped] + sep_case_from(s, i + 1, sep, up)
        } else {
            seq![mapped] + sep_case_from(s, i + 1, sep, up)
        }
    }
}

fn sep_case(s: &str, sep: char, up: bool) -> (r: String)
    ensures
        r@ == sep_case_from(s@, 0, sep, up),
{
    let n = str_len(s);
    let mut result = String::new();
    let mut i: usize = 0;
    while i < n
        invariant
            n == s@.len(),
            i <= n,
            sep_case_from(s@, 0, sep, up) == result@ + sep_case_from(s@, i as int, sep, up),
        decreases n - i,
    {
        let ch = char_at(s, i);
        if is_upper(ch) && i > 0 {
            push_char(&mut result, sep);
        }
        if up {
            push_char(&mut result, to_ascii_upper(ch));
        } else {
            push_char(&mut result, to_ascii_lower(ch));
        }
        i = i + 1;
    }
    result
}

/// The raw wire value a `rename_all` rule gives a variant name.
/// Unknown rules, and no rule, fall back to all-lowercase.
pub open spec fn spec_generate_raw_value(name: Seq<char>, rule: Option<Seq<char>>) -> Seq<char> {
    match rule {
        Option::Some(r) => {
            if r == "lowercase"@ {
                spec_lower_all(name)
            } else if r == "UPPERCASE"@ {
                spec_upper_all(name)
            } else if r == "camelCase"@ {
                spec_lower_first(name)
            } else if r == "PascalCase"@ {
                spec_upper_first(name)
            } else if r == "snake_case"@ {
                spec_to_snake_case(name)
            } else if r == "SCREAMING_SNAKE_CASE"@ {
                sep_case_from(name, 0, '_', true)
            } else if r == "kebab-case"@ {
                sep_case_from(name, 0, '-', false)
            } else if r == "SCREAMING-KEBAB-CASE"@ {
                sep_case_from(name, 0, '-', true)
            } else {
                spec_lower_all(name)
            }
        },
        Option::None => spec_lower_all(name),
    }
}

/// Generate the raw value for a string-enum variant under a serde
/// `rename_all` rule.
pub fn generate_raw_value(variant_name: &str, rename_all: Option<&str>) -> (r: String)
    ensures
        r@ == spec_generate_raw_value(
            variant_name@,
            match rename_all {
                Option::Some(s) => Option::Some(s@),
                Option::None => Option::None,
            },
        ),
{
    match rename_all {
        Option::Some(rule) => {
            if str_eq(rule, "lowercase") {
                lower_all(variant_name)
            } else if str_eq(rule, "UPPERCASE") {
                upper_all(variant_name)
            } else if str_eq(rule, "camelCase") {
                lower_first(variant_name)
            } else if str_eq(rule, "PascalCase") {
                upper_first(variant_name)
            } else if str_eq(rule, "snake_case") {
                to_snake_case(variant_name)
            } else if str_eq(rule, "SCREAMING_SNAKE_CASE") {
                sep_case(variant_name, '_', true)
            } else if str_eq(rule, "kebab-case") {
                sep_case(variant_name, '-', false)
            } else if str_eq(rule, "SCREAMING-KEBAB-CASE") {
                sep_case(variant_name, '-', true)
            } else {
                lower_all(variant_name)
            }
        },
        Option::None => lower_all(variant_name),
    }
}

/// The raw value used when only a type-name convention is known: under
/// `SnakeCase`, separate at uppercase letters and lowercase the whole;
/// any other convention falls back to all-lowercase.
pub open spec fn spec_generate_string_enum_raw_value(
    name: Seq<char>,
    naming: NamingConvention,
) -> Seq<char> {
    match naming {
        NamingConvention::SnakeCase => sep_case_from(name, 0, '_', false),
        _ => spec_lower_all(name),
    }
}

/// Generate the raw value for a string-enum variant from a naming
/// convention alone.
pub fn generate_string_enum_raw_value(variant_name: &str, naming: NamingConvention) -> (r: String)
    ensures
        r@ == spec_generate_string_enum_raw_value(variant_name@, naming),
{
    match naming {
        NamingConvention::SnakeCase => sep_case(variant_name, '_', false),
        _ => lower_all(variant_name),
    }
}

} // verus!
