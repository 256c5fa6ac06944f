//! Small executable helpers for building and comparing strings.

use vstd::prelude::*;
use vstd::string::StrSliceExecFns;
use vstd::string::StringExecFns;

verus! {

/// Relies on `String::push`: appends the given character to the end of
/// the string.
#[verifier::external_body]
pub fn push_char(s: &mut String, c: char)
    ensures
        final(s)@ == old(s)@.push(c),
{
    s.push(c)
}

/// Appends `t` to `s`; thin rename over vstd's `String::append`.
pub fn push_str(s: &mut String, t: &str)
    ensures
        final(s)@ == old(s)@ + t@,
{
    s.append(t)
}

/// Copies a `&str` into a fresh `String`.
pub fn str_to_string(s: &str) -> (r: String)
    ensures
        r@ == s@,
{
    String::from_str(s)
}

/// Reads one character of `s` by index.
pub fn char_at(s: &str, i: usize) -> (c: char)
    requires
        i < s@.len(),
    ensures
        c == s@[i as int],
{
    s.get_char(i)
}

/// Character-for-character equality of two string slices.
pub fn str_eq(a: &str, b: &str) -> (r: bool)
    ensures
        r == (a@ == b@),
{
    let n = a.unicode_len();
    let m = b.unicode_len();
    if n != m {
        return false;
    }
    let mut i: usize = 0;
    while i < n
        invariant
            n == a@.len(),
            n == b@.len(),
            i <= n,
            forall|j: int| 0 <= j < i ==> a@[j] == b@[j],
        decreases n - i,
    {
        if a.get_char(i) != b.get_char(i) {
            return false;
        }
        i = i + 1;
    }
    proof {
        assert(a@ =~= b@);
    }
    true
}

/// Number of characters in `s`.
pub fn str_len(s: &str) -> (n: usize)
    ensures
        n == s@.len(),
{
    s.unicode_len()
}

/// The digit character for a value below ten.
pub open spec fn spec_digit(d: nat) -> char {
    ((48 + d) as char)
}

/// The decimal rendering of a natural number, without sign or leading
/// zeros (a single `0` for zero).
pub open spec fn spec_dec_nat(n: nat) -> Seq<char>
    decreases n,
{
    if n < 10 {
        seq![spec_digit(n)]
    } else {
        spec_dec_nat(n / 10) + seq![spec_digit(n % 10)]
    }
}

/// The decimal rendering of an integer, with a leading `-` when
/// negative.
pub open spec fn spec_dec_int(v: int) -> Seq<char> {
    if v < 0 {
        seq!['-'] + spec_dec_nat((-v) as nat)
    } else {
        spec_dec_nat(v as nat)
    }
}

fn digit_char(d: u64) -> (c: char)
    requires
        d < 10,
    ensures
        c == spec_digit(d as nat),
{
    let x = (48 + d) as u8;
    proof {
        assert((48 + d) as u8 == 48 + d) by (bit_vector)
            requires
                d < 10,
        ;
    }
    x as char
}

/// Render a natural number in decimal.
pub fn u64_to_dec(n: u64) -> (r: String)
    ensures
        r@ == spec_dec_nat(n as nat),
{
    let mut result = String::new();
    if n < 10 {
        push_char(&mut result, digit_char(n));
        return result;
    }
    let mut digits: Vec<char> = Vec::new();
    let mut m = n;
    while m > 0
        invariant
            m > 0 ==> spec_dec_nat(n as nat) == spec_dec_nat(m as nat) + digits@.reverse(),
            m == 0 ==> spec_dec_nat(n as nat) == digits@.reverse(),
        decreases m,
    {
        let d = m % 10;
        digits.push(digit_char(d));
        proof {
            assert(digits@.reverse() =~= seq![spec_digit((m % 10) as nat)]
                + digits@.drop_last().reverse());
            if m >= 10 {
                assert(spec_dec_nat(m as nat) == spec_dec_nat((m / 10) as nat) + seq![
                    spec_digit((m % 10) as nat),
                ]);
                assert(spec_dec_nat((m / 10) as nat) + digits@.reverse() =~= spec_dec_nat(m as nat)
                    + digits@.drop_last().reverse());
            } else {
                assert(spec_dec_nat(m as nat) == seq![spec_digit(m as nat)]);
                assert(digits@.reverse() =~= spec_dec_nat(m as nat)
                    + digits@.drop_last().reverse());
            }
        }
        m = m / 10;
    }
    let k = digits.len();
    let mut i: usize = 0;
    while i < k
        invariant
            k == digits@.len(),
            i <= k,
            result@ == digits@.reverse().take(i as int),
        decreases k - i,
    {
        push_char(&mut result, digits[k - 1 - i]);
        proof {
            assert(digits@.reverse()[i as int] == digits@[k - 1 - i]);
            assert(result@ =~= digits@.reverse().take(i + 1));
        }
        i = i + 1;
    }
    proof {
        assert(digits@.reverse().take(k as int) =~= digits@.reverse());
    }
    result
}

/// Render a signed integer in decimal.
pub fn i64_to_dec(v: i64) -> (r: String)
    requires
        v > i64::MIN,
    ensures
        r@ == spec_dec_int(v as int),
{
    if v < 0 {
        let mut result = String::new();
        push_char(&mut result, '-');
        let mag = u64_to_dec((-v) as u64);
        push_str(&mut result, mag.as_str());
        proof {
            assert(result@ =~= spec_dec_int(v as int));
        }
        result
    } else {
        u64_to_dec(v as u64)
    }
}

} // verus!
