//! The data-type model that the exporter translates.
//!
//! A [`TypeCollection`] maps stable identities ([`Sid`]) to named data
//! types; each [`NamedDataType`] carries a [`DataType`] tree of
//! primitives, collections, structs, enums, references and generics.
//! The collection is built by the caller and read-only during export.

use vstd::prelude::*;

verus! {

/// Stable identity of a registered type inside a [`TypeCollection`].
pub type Sid = u64;

/// A primitive type of the source language.
#[derive(Clone, Copy, PartialEq, Eq, Structural, Debug)]
pub enum Primitive {
    I8,
    I16,
    I32,
    I64,
    I128,
    Isize,
    U8,
    U16,
    U32,
    U64,
    U128,
    Usize,
    F16,
    F32,
    F64,
    Bool,
    Char,
    Str,
}

/// A literal value used as a type.  Floating-point literals carry
/// their decimal rendering, so the model itself holds no floats.
#[derive(PartialEq, Eq, Debug)]
pub enum Literal {
    I8(i8),
    I16(i16),
    I32(i32),
    U8(u8),
    U16(u16),
    U32(u32),
    F32(String),
    F64(String),
    Bool(bool),
    Str(String),
    Char(char),
    /// The `None` literal of an optional.
    Nil,
    /// A literal kind with no Swift rendering.
    Other,
}

/// One slot of a struct or variant.  `ty` is `None` when the field is
/// marked skipped and takes no part in declarations or coding.
#[derive(Debug)]
pub struct Field {
    pub optional: bool,
    pub ty: Option<DataType>,
}

/// The shape of a struct's or variant's payload.
#[derive(Debug)]
pub enum Fields {
    Unit,
    Unnamed(Vec<Field>),
    Named(Vec<(String, Field)>),
}

/// A struct shape.
#[derive(Debug)]
pub struct StructType {
    pub fields: Fields,
}

/// One enum variant.
#[derive(Debug)]
pub struct Variant {
    /// Skip-marked variants are excluded from declaration, tag
    /// enumeration, encode and decode.
    pub skip: bool,
    pub fields: Fields,
}

/// The tagging form an enum serializes with.
#[derive(PartialEq, Eq, Debug)]
pub enum Repr {
    /// `{ "Variant": payload }`
    External,
    /// `{ tag: "Variant", ...payload }`
    Internal { tag: String },
    /// `{ tag: "Variant", content: payload }`
    Adjacent { tag: String, content: String },
    /// The bare payload.
    Untagged,
}

/// An enum shape.
#[derive(Debug)]
pub struct EnumType {
    pub variants: Vec<(String, Variant)>,
    pub repr: Repr,
    /// True for string-backed enums, which list explicit raw values.
    pub string_enum: bool,
    /// The serde-style `rename_all` rule for raw values, if any.
    pub rename_all: Option<String>,
}

/// A type expression.
#[derive(Debug)]
pub enum DataType {
    Primitive(Primitive),
    Literal(Literal),
    /// A sequence of one element type.
    List(Box<DataType>),
    /// A dictionary of key and value types (a map).
    Dict(Box<DataType>, Box<DataType>),
    /// An optional of the inner type.
    Nullable(Box<DataType>),
    Tuple(Vec<DataType>),
    Struct(StructType),
    Enum(EnumType),
    /// A reference to a registered type, by stable identity, with its
    /// generic arguments.
    Reference { sid: Sid, generics: Vec<DataType> },
    /// A generic parameter, by name.
    Generic(String),
}

/// A registered type: identity, names, docs and shape.
#[derive(Debug)]
pub struct NamedDataType {
    pub sid: Sid,
    pub name: String,
    /// The declaring module's path, `::`-separated.
    pub module: String,
    /// Ordered generic-parameter names.
    pub generics: Vec<String>,
    /// Documentation, possibly multi-line; empty when absent.
    pub docs: String,
    /// The deprecation message, when the type is deprecated.
    pub deprecated: Option<String>,
    pub ty: DataType,
}

/// The first entry with the given identity, scanning from `i`.
pub open spec fn spec_lookup(entries: Seq<NamedDataType>, i: int, sid: Sid) -> Option<
    NamedDataType,
>
    decreases entries.len() - i,
{
    if i < 0 || i >= entries.len() {
        Option::None
    } else if entries[i].sid == sid {
        Option::Some(entries[i])
    } else {
        spec_lookup(entries, i + 1, sid)
    }
}

/// A collection of registered types, in registration order, with at
/// most one entry per identity.
#[derive(Debug)]
pub struct TypeCollection {
    entries: Vec<NamedDataType>,
}

impl View for TypeCollection {
    type V = Seq<NamedDataType>;

    closed spec fn view(&self) -> Seq<NamedDataType> {
        self.entries@
    }
}

impl TypeCollection {
    /// Identities are pairwise distinct.
    pub open spec fn wf(&self) -> bool {
        forall|i: int, j: int|
            0 <= i < j < self@.len() ==> (#[trigger] self@[i]).sid != (#[trigger] self@[j]).sid
    }

    /// An empty collection.
    pub fn new() -> (r: TypeCollection)
        ensures
            r@ == Seq::<NamedDataType>::empty(),
            r.wf(),
    {
        TypeCollection { entries: Vec::new() }
    }

    /// The number of registered types.
    pub fn len(&self) -> (n: usize)
        ensures
            n == self@.len(),
    {
        self.entries.len()
    }

    /// The entry at a registration position.
    pub fn entry(&self, i: usize) -> (r: &NamedDataType)
        requires
            i < self@.len(),
        ensures
            *r == self@[i as int],
    {
        &self.entries[i]
    }

    /// Register a type: a type with the same identity is replaced in
    /// place, a new one is appended.
    pub fn register(self, ndt: NamedDataType) -> (r: TypeCollection)
        requires
            self.wf(),
        ensures
            r.wf(),
            spec_lookup(r@, 0, ndt.sid) == Option::Some(ndt),
            r@.len() <= self@.len() + 1,
            (exists|k: int|
                0 <= k < self@.len() && (#[trigger] self@[k]).sid == ndt.sid && r@ =~= self@.update(
                    k,
                    ndt,
                )) || ((forall|k: int| 0 <= k < self@.len() ==> (#[trigger] self@[k]).sid != ndt.sid)
                && r@ =~= self@.push(ndt)),
    {
        let mut entries = self.entries;
        let ghost orig = entries@;
        let n = entries.len();
        let mut i: usize = 0;
        while i < n
            invariant
                entries@ == orig,
                orig == self@,
                n == orig.len(),
                i <= n,
                forall|j: int| 0 <= j < i ==> (#[trigger] orig[j]).sid != ndt.sid,
                forall|a: int, b: int|
                    0 <= a < b < orig.len() ==> (#[trigger] orig[a]).sid != (
                    #[trigger] orig[b]).sid,
            decreases n - i,
        {
            if entries[i].sid == ndt.sid {
                entries.set(i, ndt);
                proof {
                    assert(orig[i as int].sid == ndt.sid);
                    assert(entries@ =~= orig.update(i as int, ndt));
                    assert(orig == self@);
                    assert(0 <= i < self@.len() && (#[trigger] self@[i as int]).sid == ndt.sid
                        && entries@ =~= self@.update(i as int, ndt));
                    assert(forall|a: int, b: int|
                        0 <= a < b < entries@.len() ==> (#[trigger] entries@[a]).sid != (
                        #[trigger] entries@[b]).sid);
                    lemma_lookup_found(entries@, 0, i as int, ndt.sid);
                }
                return TypeCollection { entries };
            }
            i = i + 1;
        }
        entries.push(ndt);
        proof {
            assert(forall|a: int, b: int|
                0 <= a < b < entries@.len() ==> (#[trigger] entries@[a]).sid != (
                #[trigger] entries@[b]).sid);
            lemma_lookup_found(entries@, 0, orig.len() as int, ndt.sid);
        }
        TypeCollection { entries }
    }

    /// Look a type up by identity.
    pub fn get(&self, sid: Sid) -> (r: Option<&NamedDataType>)
        ensures
            match r {
                Option::Some(ndt) => spec_lookup(self@, 0, sid) == Option::Some(*ndt),
                Option::None => spec_lookup(self@, 0, sid) is None,
            },
    {
        let n = self.entries.len();
        let mut i: usize = 0;
        while i < n
            invariant
                n == self@.len(),
                i <= n,
                spec_lookup(self@, 0, sid) == spec_lookup(self@, i as int, sid),
            decreases n - i,
        {
            if self.entries[i].sid == sid {
                return Option::Some(&self.entries[i]);
            }
            i = i + 1;
        }
        Option::None
    }
}

/// When the entries before `k` miss `sid` and entry `k` carries it,
/// the scan from any point at or before `k` finds entry `k`.
proof fn lemma_lookup_found(entries: Seq<NamedDataType>, i: int, k: int, sid: Sid)
    requires
        0 <= i <= k < entries.len(),
        entries[k].sid == sid,
        forall|j: int| i <= j < k ==> (#[trigger] entries[j]).sid != sid,
    ensures
        spec_lookup(entries, i, sid) == Option::Some(entries[k]),
    decreases k - i,
{
    if i < k {
        lemma_lookup_found(entries, i + 1, k, sid);
    }
}

} // verus!
