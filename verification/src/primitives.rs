//! Primitive and literal type mapping to Swift.

use vstd::prelude::*;

use crate::config::Error;
use crate::model::{Literal, Primitive};
use crate::text::{char_at, i64_to_dec, push_char, push_str, spec_dec_int, spec_dec_nat, str_len,
    str_to_string, u64_to_dec};

verus! {

/// Primitives with a Swift equivalent; 128-bit integers and 16-bit
/// floats have none.
pub open spec fn spec_primitive_ok(p: Primitive) -> bool {
    match p {
        Primitive::I128 | Primitive::U128 | Primitive::F16 => false,
        _ => true,
    }
}

/// The Swift name of a supported primitive.
pub open spec fn spec_primitive_swift(p: Primitive) -> Seq<char> {
    match p {
        Primitive::I8 => "Int8"@,
        Primitive::I16 => "Int16"@,
        Primitive::I32 => "Int32"@,
        Primitive::I64 => "Int64"@,
        Primitive::Isize => "Int"@,
        Primitive::U8 => "UInt8"@,
        Primitive::U16 => "UInt16"@,
        Primitive::U32 => "UInt32"@,
        Primitive::U64 => "UInt64"@,
        Primitive::Usize => "UInt"@,
        Primitive::F32 => "Float"@,
        Primitive::F64 => "Double"@,
        Primitive::Bool => "Bool"@,
        Primitive::Char => "Character"@,
        Primitive::Str => "String"@,
        _ => Seq::empty(),
    }
}

/// The error reported for a primitive without a Swift equivalent.
pub open spec fn spec_primitive_err(p: Primitive) -> Seq<char> {
    match p {
        Primitive::F16 => "Swift does not support f16 (16-bit float)"@,
        _ => "Swift does not support 128-bit integers"@,
    }
}

/// Convert a primitive type to its Swift name; 128-bit integers and
/// 16-bit floats are unsupported by design.
pub fn primitive_to_swift(primitive: &Primitive) -> (r: Result<String, Error>)
    ensures
        r is Ok <==> spec_primitive_ok(*primitive),
        r matches Ok(s) ==> s@ == spec_primitive_swift(*primitive),
        r matches Err(e) ==> e matches Error::UnsupportedType(m) && m@ == spec_primitive_err(
            *primitive,
        ),
{
    match primitive {
        Primitive::I8 => Result::Ok(str_to_string("Int8")),
        Primitive::I16 => Result::Ok(str_to_string("Int16")),
        Primitive::I32 => Result::Ok(str_to_string("Int32")),
        Primitive::I64 => Result::Ok(str_to_string("Int64")),
        Primitive::Isize => Result::Ok(str_to_string("Int")),
        Primitive::U8 => Result::Ok(str_to_string("UInt8")),
        Primitive::U16 => Result::Ok(str_to_string("UInt16")),
        Primitive::U32 => Result::Ok(str_to_string("UInt32")),
        Primitive::U64 => Result::Ok(str_to_string("UInt64")),
        Primitive::Usize => Result::Ok(str_to_string("UInt")),
        Primitive::F32 => Result::Ok(str_to_string("Float")),
        Primitive::F64 => Result::Ok(str_to_string("Double")),
        Primitive::Bool => Result::Ok(str_to_string("Bool")),
        Primitive::Char => Result::Ok(str_to_string("Character")),
        Primitive::Str => Result::Ok(str_to_string("String")),
        Primitive::I128 | Primitive::U128 => Result::Err(
            Error::UnsupportedType(str_to_string("Swift does not support 128-bit integers")),
        ),
        Primitive::F16 => Result::Err(
            Error::UnsupportedType(str_to_string("Swift does not support f16 (16-bit float)")),
        ),
    }
}

/// A string with its double quotes escaped, as it stands inside a
/// Swift string literal.
pub open spec fn quote_escaped_from(s: Seq<char>, i: int) -> Seq<char>
    decreases s.len() - i,
{
    if i < 0 || i >= s.len() {
        Seq::empty()
    } else if s[i] == '"' {
        seq!['\\', '"'] + quote_escaped_from(s, i + 1)
    } else {
        seq![s[i]] + quote_escaped_from(s, i + 1)
    }
}

fn quote_escaped(s: &str) -> (r: String)
    ensures
        r@ == quote_escaped_from(s@, 0),
{
    let n = str_len(s);
    let mut result = String::new();
    let mut i: usize = 0;
    while i < n
        invariant
            n == s@.len(),
            i <= n,
            quote_escaped_from(s@, 0) == result@ + quote_escaped_from(s@, i as int),
        decreases n - i,
    {
        let c = char_at(s, i);
        if c == '"' {
            push_str(&mut result, "\\\"");
            proof {
                reveal_strlit("\\\"");
                assert(quote_escaped_from(s@, 0) =~= result@ + quote_escaped_from(s@, i + 1));
            }
        } else {
            push_char(&mut result, c);
            proof {
                assert(quote_escaped_from(s@, 0) =~= result@ + quote_escaped_from(s@, i + 1));
            }
        }
        i = i + 1;
    }
    result
}

/// Literals with a Swift rendering.
pub open spec fn spec_literal_ok(l: Literal) -> bool {
    !(l is Other)
}

/// The Swift rendering of a supported literal: integers and booleans
/// as written, floats by their stored decimal text, strings and
/// characters quoted, `Nil` as `nil`.
pub open spec fn spec_literal_swift(l: Literal) -> Seq<char> {
    match l {
        Literal::I8(v) => spec_dec_int(v as int),
        Literal::I16(v) => spec_dec_int(v as int),
        Literal::I32(v) => spec_dec_int(v as int),
        Literal::U8(v) => spec_dec_nat(v as nat),
        Literal::U16(v) => spec_dec_nat(v as nat),
        Literal::U32(v) => spec_dec_nat(v as nat),
        Literal::F32(t) => t@,
        Literal::F64(t) => t@,
        Literal::Bool(v) => if v {
            "true"@
        } else {
            "false"@
        },
        Literal::Str(s) => seq!['"'] + quote_escaped_from(s@, 0) + seq!['"'],
        Literal::Char(c) => seq!['"', c, '"'],
        Literal::Nil => "nil"@,
        Literal::Other => Seq::empty(),
    }
}

/// Convert a literal value to Swift syntax.
pub fn literal_to_swift(literal: &Literal) -> (r: Result<String, Error>)
    ensures
        r is Ok <==> spec_literal_ok(*literal),
        r matches Ok(s) ==> s@ == spec_literal_swift(*literal),
        r matches Err(e) ==> e matches Error::UnsupportedType(m) && m@
            == "Unsupported literal type"@,
{
    match literal {
        Literal::I8(v) => Result::Ok(i64_to_dec(*v as i64)),
        Literal::I16(v) => Result::Ok(i64_to_dec(*v as i64)),
        Literal::I32(v) => Result::Ok(i64_to_dec(*v as i64)),
        Literal::U8(v) => Result::Ok(u64_to_dec(*v as u64)),
        Literal::U16(v) => Result::Ok(u64_to_dec(*v as u64)),
        Literal::U32(v) => Result::Ok(u64_to_dec(*v as u64)),
        Literal::F32(t) => Result::Ok(str_to_string(t.as_str())),
        Literal::F64(t) => Result::Ok(str_to_string(t.as_str())),
        Literal::Bool(v) => Result::Ok(
            if *v {
                str_to_string("true")
            } else {
                str_to_string("false")
            },
        ),
        Literal::Str(s) => {
            let mut out = String::new();
            push_char(&mut out, '"');
            let esc = quote_escaped(s.as_str());
            push_str(&mut out, esc.as_str());
            push_char(&mut out, '"');
            proof {
                assert(out@ =~= spec_literal_swift(*literal));
            }
            Result::Ok(out)
        },
        Literal::Char(c) => {
            let mut out = String::new();
            push_char(&mut out, '"');
            push_char(&mut out, *c);
            push_char(&mut out, '"');
            proof {
                assert(out@ =~= spec_literal_swift(*literal));
            }
            Result::Ok(out)
        },
        Literal::Nil => Result::Ok(str_to_string("nil")),
        Literal::Other => Result::Err(
            Error::UnsupportedType(str_to_string("Unsupported literal type")),
        ),
    }
}

} // verus!
