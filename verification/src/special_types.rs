//! Fixed-name overrides for well-known foreign types.
//!
//! A few shapes have idiomatic Swift equivalents and bypass structural
//! generation: a duration-like two-field struct, timestamp types, a
//! generic JSON value, and the three-variant numeric union.

use vstd::prelude::*;

use crate::model::{DataType, EnumType, Fields, NamedDataType, Primitive, Repr, Sid, StructType,
    TypeCollection, spec_lookup};
use crate::text::{str_eq, str_to_string};

verus! {

/// The fixed Swift name for a registered type with a well-known name,
/// if any: `Duration` becomes `RustDuration`, `SystemTime` becomes
/// `Date`, `Number` becomes `Double`, `JsonValue` stays `JsonValue`.
pub open spec fn spec_special_std_type(
    entries: Seq<NamedDataType>,
    sid: Option<Sid>,
) -> Option<Seq<char>> {
    match sid {
        Option::Some(sid) => match spec_lookup(entries, 0, sid) {
            Option::Some(ndt) => {
                if ndt.name@ == "Duration"@ {
                    Option::Some("RustDuration"@)
                } else if ndt.name@ == "SystemTime"@ {
                    Option::Some("Date"@)
                } else if ndt.name@ == "Number"@ {
                    Option::Some("Double"@)
                } else if ndt.name@ == "JsonValue"@ {
                    Option::Some("JsonValue"@)
                } else {
                    Option::None
                }
            },
            Option::None => Option::None,
        },
        Option::None => Option::None,
    }
}

/// Check whether an identity names a special standard-library type and
/// return its fixed Swift name.
pub fn is_special_std_type(types: &TypeCollection, sid: Option<Sid>) -> (r: Option<String>)
    ensures
        match r {
            Option::Some(s) => spec_special_std_type(types@, sid) == Option::Some(s@),
            Option::None => spec_special_std_type(types@, sid) is None,
        },
{
    if let Option::Some(sid) = sid {
        if let Option::Some(ndt) = types.get(sid) {
            if str_eq(ndt.name.as_str(), "Duration") {
                return Option::Some(str_to_string("RustDuration"));
            }
            if str_eq(ndt.name.as_str(), "SystemTime") {
                return Option::Some(str_to_string("Date"));
            }
            if str_eq(ndt.name.as_str(), "Number") {
                return Option::Some(str_to_string("Double"));
            }
            if str_eq(ndt.name.as_str(), "JsonValue") {
                return Option::Some(str_to_string("JsonValue"));
            }
        }
    }
    Option::None
}

/// A duration-like struct: exactly two named fields called `secs` and
/// `nanos`.
pub open spec fn spec_is_duration_struct(s: StructType) -> bool {
    match s.fields {
        Fields::Named(fs) => fs@.len() == 2 && (exists|i: int|
            0 <= i < fs@.len() && (#[trigger] fs@[i]).0@ == "secs"@) && (exists|i: int|
            0 <= i < fs@.len() && (#[trigger] fs@[i]).0@ == "nanos"@),
        _ => false,
    }
}

/// Check whether a struct has the shape of a duration by its field
/// names.
pub fn is_duration_struct(s: &StructType) -> (r: bool)
    ensures
        r == spec_is_duration_struct(*s),
{
    match &s.fields {
        Fields::Named(fs) => {
            if fs.len() != 2 {
                return false;
            }
            let mut has_secs = false;
            let mut has_nanos = false;
            let n = fs.len();
            let mut i: usize = 0;
            while i < n
                invariant
                    n == fs@.len(),
                    i <= n,
                    has_secs == exists|j: int|
                        0 <= j < i && (#[trigger] fs@[j]).0@ == "secs"@,
                    has_nanos == exists|j: int|
                        0 <= j < i && (#[trigger] fs@[j]).0@ == "nanos"@,
                decreases n - i,
            {
                if str_eq(fs[i].0.as_str(), "secs") {
                    has_secs = true;
                }
                if str_eq(fs[i].0.as_str(), "nanos") {
                    has_nanos = true;
                }
                i = i + 1;
            }
            has_secs && has_nanos
        },
        _ => false,
    }
}

/// One variant of the numeric union: a single unnamed field of the
/// primitive that matches the variant's name.
pub open spec fn spec_number_variant(name: Seq<char>, v: crate::model::Variant) -> bool {
    match v.fields {
        Fields::Unnamed(fs) => fs@.len() == 1 && (fs@[0].ty matches Some(t) && (t matches
        DataType::Primitive(p) && ((name == "f64"@ && p == Primitive::F64) || (name == "i64"@ && p
            == Primitive::I64) || (name == "u64"@ && p == Primitive::U64)))),
        _ => false,
    }
}

/// The canonical numeric union: untagged, with exactly the variants
/// `f64(f64)`, `i64(i64)` and `u64(u64)`.  It maps to `Double`.
pub open spec fn spec_is_number_enum(e: EnumType) -> bool {
    &&& e.repr == Repr::Untagged
    &&& e.variants@.len() == 3
    &&& exists|i: int| 0 <= i < 3 && (#[trigger] e.variants@[i]).0@ == "f64"@
    &&& exists|i: int| 0 <= i < 3 && (#[trigger] e.variants@[i]).0@ == "i64"@
    &&& exists|i: int| 0 <= i < 3 && (#[trigger] e.variants@[i]).0@ == "u64"@
    &&& forall|i: int|
        0 <= i < 3 ==> spec_number_variant(
            (#[trigger] e.variants@[i]).0@,
            e.variants@[i].1,
        )
}

/// Check whether an enum is the canonical untagged numeric union.
pub fn is_serde_json_number_enum(e: &EnumType) -> (r: bool)
    ensures
        r == spec_is_number_enum(*e),
{
    match &e.repr {
        Repr::Untagged => {},
        _ => {
            return false;
        },
    }
    if e.variants.len() != 3 {
        return false;
    }
    let mut has_f64 = false;
    let mut has_i64 = false;
    let mut has_u64 = false;
    let mut i: usize = 0;
    while i < 3
        invariant
            e.variants@.len() == 3,
            i <= 3,
            has_f64 == exists|j: int| 0 <= j < i && (#[trigger] e.variants@[j]).0@ == "f64"@,
            has_i64 == exists|j: int| 0 <= j < i && (#[trigger] e.variants@[j]).0@ == "i64"@,
            has_u64 == exists|j: int| 0 <= j < i && (#[trigger] e.variants@[j]).0@ == "u64"@,
            forall|j: int|
                0 <= j < i ==> spec_number_variant((#[trigger] e.variants@[j]).0@, e.variants@[j].1),
        decreases 3 - i,
    {
        proof {
            reveal_strlit("f64");
            reveal_strlit("i64");
            reveal_strlit("u64");
        }
        let name = &e.variants[i].0;
        let variant = &e.variants[i].1;
        let is_f64 = str_eq(name.as_str(), "f64");
        let is_i64 = str_eq(name.as_str(), "i64");
        let is_u64 = str_eq(name.as_str(), "u64");
        let expected: Primitive = if is_f64 {
            Primitive::F64
        } else if is_i64 {
            Primitive::I64
        } else if is_u64 {
            Primitive::U64
        } else {
            return false;
        };
        match &variant.fields {
            Fields::Unnamed(fs) => {
                if fs.len() != 1 {
                    return false;
                }
                match &fs[0].ty {
                    Option::Some(DataType::Primitive(p)) => {
                        if *p != expected {
                            proof {
                                reveal_strlit("f64");
                                reveal_strlit("i64");
                                reveal_strlit("u64");
                                assert("f64"@[0] == 'f' && "i64"@[0] == 'i' && "u64"@[0] == 'u');
                                let ghost vn = e.variants@[i as int].0@;
                                let ghost vv = e.variants@[i as int].1;
                                assert(vn == name@);
                                assert(vv.fields == Fields::Unnamed(*fs));
                                assert(fs@[0].ty matches Some(t) && t == DataType::Primitive(*p));
                                assert(!(vn == "f64"@ && *p == Primitive::F64));
                                assert(!(vn == "i64"@ && *p == Primitive::I64));
                                assert(!(vn == "u64"@ && *p == Primitive::U64));
                                assert(!spec_number_variant(vn, vv));
                            }
                            return false;
                        }
                    },
                    _ => {
                        return false;
                    },
                }
            },
            _ => {
                return false;
            },
        }
        if is_f64 {
            has_f64 = true;
        }
        if is_i64 {
            has_i64 = true;
        }
        if is_u64 {
            has_u64 = true;
        }
        i = i + 1;
    }
    has_f64 && has_i64 && has_u64
}

} // verus!
