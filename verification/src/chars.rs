//! Character-level helpers: ASCII classification and case mapping.
//!
//! Identifier transforms in this crate work character by character over
//! the `Seq<char>` view of strings, so the case maps are specified here
//! once and shared by every naming function.

use vstd::prelude::*;

verus! {

/// True for the ASCII uppercase letters `'A'..='Z'`.
pub open spec fn spec_is_upper(c: char) -> bool {
    'A' <= c && c <= 'Z'
}

/// True for the ASCII lowercase letters `'a'..='z'`.
pub open spec fn spec_is_lower(c: char) -> bool {
    'a' <= c && c <= 'z'
}

/// ASCII uppercase map: `'a'..='z'` to `'A'..='Z'`, all else unchanged.
pub open spec fn spec_upper(c: char) -> char {
    if spec_is_lower(c) {
        ((c as u32) - 32) as char
    } else {
        c
    }
}

/// ASCII lowercase map: `'A'..='Z'` to `'a'..='z'`, all else unchanged.
pub open spec fn spec_lower(c: char) -> char {
    if spec_is_upper(c) {
        ((c as u32) + 32) as char
    } else {
        c
    }
}

pub fn is_upper(c: char) -> (r: bool)
    ensures
        r == spec_is_upper(c),
{
    'A' <= c && c <= 'Z'
}

pub fn is_lower(c: char) -> (r: bool)
    ensures
        r == spec_is_lower(c),
{
    'a' <= c && c <= 'z'
}

pub fn to_ascii_upper(c: char) -> (r: char)
    ensures
        r == spec_upper(c),
{
    if 'a' <= c && c <= 'z' {
        let x = c as u32;
        let y = (x - 32) as u8;
        proof {
            assert(97 <= x <= 122) by {
                assert(('a' as u32) == 97 && ('z' as u32) == 122);
            }
            assert((x - 32) as u8 == x - 32) by (bit_vector)
                requires
                    97 <= x <= 122,
            ;
        }
        y as char
    } else {
        c
    }
}

pub fn to_ascii_lower(c: char) -> (r: char)
    ensures
        r == spec_lower(c),
{
    if 'A' <= c && c <= 'Z' {
        let x = c as u32;
        let y = (x + 32) as u8;
        proof {
            assert(65 <= x <= 90) by {
                assert(('A' as u32) == 65 && ('Z' as u32) == 90);
            }
            assert((x + 32) as u8 == x + 32) by (bit_vector)
                requires
                    65 <= x <= 90,
            ;
        }
        y as char
    } else {
        c
    }
}

} // verus!
