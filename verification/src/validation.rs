//! Recursive-type detection: does a type expression reach back to a
//! given registered type?
//!
//! A self-referential type needs an indirect (boxed) representation in
//! Swift; detection is separated from the syntax consequence.

use vstd::prelude::*;

use crate::model::{DataType, Fields, Sid};

verus! {

/// True when the type expression contains a `Reference` to `target`,
/// looking through nullables, lists, dictionaries, struct fields and
/// variant fields.  Tuples and the generic arguments of a reference
/// are not searched: a reference either hits or stands for another
/// named type, and a tuple is rendered positionally where it stands.
pub open spec fn spec_is_recursive(ty: DataType, target: Sid) -> bool
    decreases ty,
{
    match ty {
        DataType::Reference { sid, .. } => sid == target,
        DataType::Nullable(inner) => spec_is_recursive(*inner, target),
        DataType::List(elem) => spec_is_recursive(*elem, target),
        DataType::Dict(key, value) => spec_is_recursive(*key, target) || spec_is_recursive(
            *value,
            target,
        ),
        DataType::Struct(s) => spec_fields_recursive(s.fields, target),
        DataType::Enum(e) => exists|i: int|
            0 <= i < e.variants@.len() && spec_fields_recursive(
                (#[trigger] e.variants@[i]).1.fields,
                target,
            ),
        _ => false,
    }
}

/// True when some present field type contains a `Reference` to
/// `target`.
pub open spec fn spec_fields_recursive(fields: Fields, target: Sid) -> bool
    decreases fields,
{
    match fields {
        Fields::Unit => false,
        Fields::Unnamed(fs) => exists|i: int|
            0 <= i < fs@.len() && ((#[trigger] fs@[i]).ty matches Some(t) && spec_is_recursive(
                t,
                target,
            )),
        Fields::Named(fs) => exists|i: int|
            0 <= i < fs@.len() && ((#[trigger] fs@[i]).1.ty matches Some(t) && spec_is_recursive(
                t,
                target,
            )),
    }
}

/// Check whether a type expression references `target_sid`, directly
/// or through any nesting of the shapes above.
pub fn is_recursive_type_reference(ty: &DataType, target_sid: Sid) -> (r: bool)
    ensures
        r == spec_is_recursive(*ty, target_sid),
    decreases *ty,
{
    match ty {
        DataType::Reference { sid, .. } => *sid == target_sid,
        DataType::Nullable(inner) => is_recursive_type_reference(inner, target_sid),
        DataType::List(elem) => is_recursive_type_reference(elem, target_sid),
        DataType::Dict(key, value) => {
            is_recursive_type_reference(key, target_sid) || is_recursive_type_reference(
                value,
                target_sid,
            )
        },
        DataType::Struct(s) => fields_contain_reference(&s.fields, target_sid),
        DataType::Enum(e) => {
            let n = e.variants.len();
            let mut i: usize = 0;
            while i < n
                invariant
                    *ty == DataType::Enum(*e),
                    n == e.variants@.len(),
                    i <= n,
                    forall|j: int|
                        0 <= j < i ==> !spec_fields_recursive(
                            (#[trigger] e.variants@[j]).1.fields,
                            target_sid,
                        ),
                decreases n - i,
            {
                proof {
                    assert(decreases_to!(*ty => ty->Enum_0));
                    assert(ty->Enum_0 == *e);
                    assert(decreases_to!(*e => e.variants));
                    assert(decreases_to!(e.variants => e.variants@));
                    assert(decreases_to!(e.variants@ => e.variants@[i as int]));
                    assert(decreases_to!(e.variants@[i as int] => e.variants@[i as int].1));
                    assert(decreases_to!(e.variants@[i as int].1 => e.variants@[i as int].1.fields));
                }
                if fields_contain_reference(&e.variants[i].1.fields, target_sid) {
                    return true;
                }
                i = i + 1;
            }
            false
        },
        _ => false,
    }
}

/// Check whether some present field type references `target_sid`.
fn fields_contain_reference(fields: &Fields, target_sid: Sid) -> (r: bool)
    ensures
        r == spec_fields_recursive(*fields, target_sid),
    decreases *fields,
{
    match fields {
        Fields::Unit => false,
        Fields::Unnamed(fs) => {
            let n = fs.len();
            let mut i: usize = 0;
            while i < n
                invariant
                    *fields == Fields::Unnamed(*fs),
                    n == fs@.len(),
                    i <= n,
                    forall|j: int|
                        0 <= j < i ==> !((#[trigger] fs@[j]).ty matches Some(t)
                            && spec_is_recursive(t, target_sid)),
                decreases n - i,
            {
                match &fs[i].ty {
                    Option::Some(t) => {
                        proof {
                            assert(decreases_to!(*fields => fields->Unnamed_0));
                            assert(fields->Unnamed_0 == *fs);
                            assert(decreases_to!(*fs => fs@));
                            assert(decreases_to!(fs@ => fs@[i as int]));
                            assert(decreases_to!(fs@[i as int] => fs@[i as int].ty));
                            assert(decreases_to!(fs@[i as int].ty => fs@[i as int].ty->0));
                            assert(fs@[i as int].ty->0 == *t);
                        }
                        if is_recursive_type_reference(t, target_sid) {
                            return true;
                        }
                    },
                    Option::None => {},
                }
                i = i + 1;
            }
            false
        },
        Fields::Named(fs) => {
            let n = fs.len();
            let mut i: usize = 0;
            while i < n
                invariant
                    *fields == Fields::Named(*fs),
                    n == fs@.len(),
                    i <= n,
                    forall|j: int|
                        0 <= j < i ==> !((#[trigger] fs@[j]).1.ty matches Some(t)
                            && spec_is_recursive(t, target_sid)),
                decreases n - i,
            {
                match &fs[i].1.ty {
                    Option::Some(t) => {
                        proof {
                            assert(decreases_to!(*fields => fields->Named_0));
                            assert(fields->Named_0 == *fs);
                            assert(decreases_to!(*fs => fs@));
                            assert(decreases_to!(fs@ => fs@[i as int]));
                            assert(decreases_to!(fs@[i as int] => fs@[i as int].1));
                            assert(decreases_to!(fs@[i as int].1 => fs@[i as int].1.ty));
                            assert(decreases_to!(fs@[i as int].1.ty => fs@[i as int].1.ty->0));
                            assert(fs@[i as int].1.ty->0 == *t);
                        }
                        if is_recursive_type_reference(t, target_sid) {
                            return true;
                        }
                    },
                    Option::None => {},
                }
                i = i + 1;
            }
            false
        },
    }
}

} // verus!
