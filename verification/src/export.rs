//! The type mapper: recursive translation of a [`DataType`] expression
//! into Swift type syntax.
//!
//! Rendering either produces text or stops at the first failure; the
//! specification functions return a [`Rendered`] value that the
//! executable functions are proved to match exactly.

use vstd::prelude::*;

use crate::config::{render_of, spec_convert, spec_convert_field, ErrView, Error, Rendered,
    Swift};
use crate::model::{spec_lookup, DataType, EnumType, Field, Fields, NamedDataType, Sid, StructType,
    TypeCollection, Variant};
use crate::primitives::{literal_to_swift, primitive_to_swift, spec_literal_ok, spec_literal_swift,
    spec_primitive_err, spec_primitive_ok, spec_primitive_swift};
use crate::rename_rules::{generate_raw_value, spec_generate_raw_value};
use crate::special_types::{is_duration_struct, is_serde_json_number_enum, is_special_std_type,
    spec_is_duration_struct, spec_is_number_enum, spec_special_std_type};
use crate::text::{push_str, str_eq, str_to_string};

verus! {

/// How many of the first `i` slots hold a present (non-skipped) type.
pub open spec fn count_present(fs: Seq<Field>, i: int) -> int
    decreases i,
{
    if i <= 0 {
        0
    } else {
        count_present(fs, i - 1) + if fs[i - 1].ty is Some {
            1int
        } else {
            0int
        }
    }
}

/// The position of the first present slot, or the length when none is.
pub open spec fn first_present(fs: Seq<Field>, i: int) -> int
    decreases fs.len() - i,
{
    if i < 0 || i >= fs.len() {
        fs.len() as int
    } else if fs[i].ty is Some {
        i
    } else {
        first_present(fs, i + 1)
    }
}

/// The rendering of the type expression `dt` in the context of the
/// registered types `ts`: the special-name table is consulted first,
/// then the structural translation runs.
pub open spec fn spec_datatype(cfg: Swift, ts: Seq<NamedDataType>, dt: DataType, sid: Option<Sid>)
    -> Rendered
    decreases dt, 2int, 0int,
    via spec_datatype_dec
{
    if spec_special_std_type(ts, sid) is Some {
        Rendered::Text(spec_special_std_type(ts, sid)->Some_0)
    } else {
        match dt {
            DataType::Primitive(p) => if spec_primitive_ok(p) {
                Rendered::Text(spec_primitive_swift(p))
            } else {
                Rendered::Fail(ErrView::Unsupported(spec_primitive_err(p)))
            },
            DataType::Literal(l) => if spec_literal_ok(l) {
                Rendered::Text(spec_literal_swift(l))
            } else {
                Rendered::Fail(ErrView::Unsupported("Unsupported literal type"@))
            },
            DataType::List(elem) => match spec_datatype(cfg, ts, *elem, Option::None) {
                Rendered::Text(t) => Rendered::Text(seq!['['] + t + seq![']']),
                f => f,
            },
            DataType::Dict(key, value) => match spec_datatype(cfg, ts, *key, Option::None) {
                Rendered::Text(kt) => match spec_datatype(cfg, ts, *value, Option::None) {
                    Rendered::Text(vt) => Rendered::Text(seq!['['] + kt + ": "@ + vt + seq![']']),
                    f => f,
                },
                f => f,
            },
            DataType::Nullable(inner) => match spec_datatype(cfg, ts, *inner, sid) {
                Rendered::Text(t) => match cfg.optionals {
                    crate::config::OptionalStyle::QuestionMark => Rendered::Text(t + seq!['?']),
                    crate::config::OptionalStyle::Optional => Rendered::Text(
                        "Optional<"@ + t + seq!['>'],
                    ),
                },
                f => f,
            },
            DataType::Tuple(elems) => if elems@.len() == 0 {
                Rendered::Text("Void"@)
            } else if elems@.len() == 1 {
                spec_datatype(cfg, ts, elems@[0], Option::None)
            } else {
                match spec_join_types(cfg, ts, elems@, 0) {
                    Rendered::Text(t) => Rendered::Text(seq!['('] + t + seq![')']),
                    f => f,
                }
            },
            DataType::Struct(s) => if spec_is_duration_struct(s) {
                Rendered::Text("RustDuration"@)
            } else {
                spec_struct_body(cfg, ts, s, sid)
            },
            DataType::Enum(e) => match sid {
                Option::Some(s) => match spec_lookup(ts, 0, s) {
                    Option::Some(ndt) => Rendered::Text(spec_convert(cfg.naming, ndt.name@)),
                    Option::None => spec_enum_inline(cfg, ts, e, Option::None),
                },
                Option::None => spec_enum_inline(cfg, ts, e, Option::None),
            },
            DataType::Reference { sid: rsid, generics } => spec_reference(cfg, ts, rsid, generics@),
            DataType::Generic(g) => Rendered::Text(g@),
        }
    }
}

/// The rendering of a reference: the referenced type's converted name
/// with its rendered generic arguments; a dangling identity fails.
pub open spec fn spec_reference(cfg: Swift, ts: Seq<NamedDataType>, rsid: Sid, generics: Seq<
    DataType>) -> Rendered
    decreases generics, 3int, 0int,
{
    match spec_lookup(ts, 0, rsid) {
        Option::None => Rendered::Fail(ErrView::InvalidIdent("Reference to unknown type"@)),
        Option::Some(ndt) => if generics.len() == 0 {
            Rendered::Text(spec_convert(cfg.naming, ndt.name@))
        } else {
            match spec_join_types(cfg, ts, generics, 0) {
                Rendered::Text(t) => Rendered::Text(
                    spec_convert(cfg.naming, ndt.name@) + seq!['<'] + t + seq!['>'],
                ),
                f => f,
            }
        },
    }
}

#[via_fn]
proof fn spec_datatype_dec(cfg: Swift, ts: Seq<NamedDataType>, dt: DataType, sid: Option<Sid>) {
    match dt {
        DataType::Tuple(elems) => {
            assert(decreases_to!(dt => dt->Tuple_0));
            assert(decreases_to!(elems => elems@));
            if elems@.len() == 1 {
                assert(decreases_to!(elems@ => elems@[0]));
            }
        },
        DataType::Struct(s) => {
            assert(decreases_to!(dt => dt->Struct_0));
        },
        DataType::Enum(e) => {
            assert(decreases_to!(dt => dt->Enum_0));
        },
        DataType::Reference { sid: rsid, generics } => {
            assert(decreases_to!(dt => dt->Reference_generics));
            assert(decreases_to!(generics => generics@));
        },
        _ => {},
    }
}

/// The renderings of `elems[i..]`, joined with `, `; the first failure
/// wins.
pub open spec fn spec_join_types(cfg: Swift, ts: Seq<NamedDataType>, elems: Seq<DataType>, i: int)
    -> Rendered
    decreases elems, 2int, elems.len() - i,
    via spec_join_types_dec
{
    if i < 0 || i >= elems.len() {
        Rendered::Text(Seq::empty())
    } else {
        match spec_datatype(cfg, ts, elems[i], Option::None) {
            Rendered::Text(t) => if i == elems.len() - 1 {
                Rendered::Text(t)
            } else {
                match spec_join_types(cfg, ts, elems, i + 1) {
                    Rendered::Text(rest) => Rendered::Text(t + ", "@ + rest),
                    f => f,
                }
            },
            f => f,
        }
    }
}

#[via_fn]
proof fn spec_join_types_dec(cfg: Swift, ts: Seq<NamedDataType>, elems: Seq<DataType>, i: int) {
    if 0 <= i < elems.len() {
        assert(decreases_to!(elems => elems[i]));
    }
}

/// The body text of a struct declaration.
pub open spec fn spec_struct_body(cfg: Swift, ts: Seq<NamedDataType>, s: StructType, sid: Option<
    Sid>) -> Rendered
    decreases s, 2int, 0int,
    via spec_struct_body_dec
{
    match s.fields {
        Fields::Unit => Rendered::Text("Void"@),
        Fields::Unnamed(fs) => if count_present(fs@, fs@.len() as int) == 0 {
            Rendered::Text("Void"@)
        } else if count_present(fs@, fs@.len() as int) == 1 {
            match spec_datatype(
                cfg,
                ts,
                fs@[first_present(fs@, 0)].ty->Some_0,
                sid,
            ) {
                Rendered::Text(t) => Rendered::Text("    let value: "@ + t + seq!['\n']),
                f => f,
            }
        } else {
            spec_unnamed_lines(cfg, ts, fs@, 0, 0, sid)
        },
        Fields::Named(fs) => match spec_named_lines(cfg, ts, fs@, 0, sid) {
            Rendered::Fail(f) => Rendered::Fail(f),
            Rendered::Text(lines) => {
                let with_keys = if spec_needs_coding_keys(fs@) && !spec_has_nullable(fs@) {
                    lines + "\n    private enum CodingKeys: String, CodingKey {\n"@
                        + spec_coding_key_lines(fs@, 0) + "    }\n"@
                } else {
                    lines
                };
                if cfg.generate_initializers && spec_some_present(fs@) {
                    match spec_init_params(cfg, ts, fs@, 0, sid) {
                        Rendered::Fail(f) => Rendered::Fail(f),
                        Rendered::Text(params) => Rendered::Text(
                            with_keys + "\n    public init("@ + params + ") {\n"@
                                + spec_assign_lines(fs@, 0) + "    }\n"@,
                        ),
                    }
                } else {
                    Rendered::Text(with_keys)
                }
            },
        },
    }
}

#[via_fn]
proof fn spec_struct_body_dec(cfg: Swift, ts: Seq<NamedDataType>, s: StructType, sid: Option<
    Sid>) {
    assert(decreases_to!(s => s.fields));
    match s.fields {
        Fields::Unnamed(fs) => {
            assert(decreases_to!(s.fields => s.fields->Unnamed_0));
            assert(decreases_to!(fs => fs@));
            if count_present(fs@, fs@.len() as int) == 1 {
                lemma_count_first(fs@);
                let fp = first_present(fs@, 0);
                assert(decreases_to!(fs@ => fs@[fp]));
                assert(decreases_to!(fs@[fp] => fs@[fp].ty));
                assert(decreases_to!(fs@[fp].ty => fs@[fp].ty->Some_0));
            }
        },
        Fields::Named(fs) => {
            assert(decreases_to!(s.fields => s.fields->Named_0));
            assert(decreases_to!(fs => fs@));
        },
        _ => {},
    }
}

/// Each slot before `first_present` holds no type; if any slot does,
/// `first_present` lands on the first of them.
proof fn lemma_first_present_bounds(fs: Seq<Field>, i: int)
    requires
        0 <= i <= fs.len(),
    ensures
        i <= first_present(fs, i) <= fs.len(),
        first_present(fs, i) < fs.len() ==> fs[first_present(fs, i)].ty is Some,
        forall|j: int| i <= j < first_present(fs, i) ==> !((#[trigger] fs[j]).ty is Some),
    decreases fs.len() - i,
{
    if i < fs.len() && !(fs[i].ty is Some) {
        lemma_first_present_bounds(fs, i + 1);
    }
}

/// When no slot in `[0, n)` holds a type, the present count is zero.
proof fn lemma_count_zero(fs: Seq<Field>, n: int)
    requires
        0 <= n <= fs.len(),
        forall|j: int| 0 <= j < n ==> !((#[trigger] fs[j]).ty is Some),
    ensures
        count_present(fs, n) == 0,
    decreases n,
{
    if n > 0 {
        lemma_count_zero(fs, n - 1);
    }
}

/// A positive present count puts `first_present` on a present slot.
proof fn lemma_count_first(fs: Seq<Field>)
    requires
        count_present(fs, fs.len() as int) > 0,
    ensures
        0 <= first_present(fs, 0) < fs.len(),
        fs[first_present(fs, 0)].ty is Some,
{
    lemma_first_present_bounds(fs, 0);
    if first_present(fs, 0) == fs.len() {
        lemma_count_zero(fs, fs.len() as int);
    }
}

/// Some named field carries a present type.
pub open spec fn spec_some_present(fs: Seq<(String, Field)>) -> bool {
    exists|i: int| 0 <= i < fs.len() && (#[trigger] fs[i]).1.ty is Some
}

/// Some present field keeps a different name in Swift than on the
/// wire, so explicit coding keys are required.
pub open spec fn spec_needs_coding_keys(fs: Seq<(String, Field)>) -> bool {
    exists|i: int|
        0 <= i < fs.len() && (#[trigger] fs[i]).1.ty is Some && spec_convert_field(fs[i].0@)
            != fs[i].0@
}

/// Some present field is `Nullable`, which calls for a synthesized
/// `Codable` implementation preserving explicit `null`.
pub open spec fn spec_has_nullable(fs: Seq<(String, Field)>) -> bool {
    exists|i: int|
        0 <= i < fs.len() && ((#[trigger] fs[i]).1.ty matches Some(t) && t is Nullable)
}

/// The declaration lines of the present unnamed fields from slot `i`
/// on, numbered from `k`.
pub open spec fn spec_unnamed_lines(
    cfg: Swift,
    ts: Seq<NamedDataType>,
    fs: Seq<Field>,
    i: int,
    k: int,
    sid: Option<Sid>,
) -> Rendered
    decreases fs, 2int, fs.len() - i,
    via spec_unnamed_lines_dec
{
    if i < 0 || i >= fs.len() {
        Rendered::Text(Seq::empty())
    } else {
        match fs[i].ty {
            Option::None => spec_unnamed_lines(cfg, ts, fs, i + 1, k, sid),
            Option::Some(t) => match spec_datatype(cfg, ts, t, sid) {
                Rendered::Fail(f) => Rendered::Fail(f),
                Rendered::Text(tt) => match spec_unnamed_lines(cfg, ts, fs, i + 1, k + 1, sid) {
                    Rendered::Fail(f) => Rendered::Fail(f),
                    Rendered::Text(rest) => Rendered::Text(
                        "    public let field"@ + crate::text::spec_dec_int(k) + ": "@ + tt
                            + seq!['\n'] + rest,
                    ),
                },
            },
        }
    }
}

#[via_fn]
proof fn spec_unnamed_lines_dec(
    cfg: Swift,
    ts: Seq<NamedDataType>,
    fs: Seq<Field>,
    i: int,
    k: int,
    sid: Option<Sid>,
) {
    if 0 <= i < fs.len() && fs[i].ty is Some {
        assert(decreases_to!(fs => fs[i]));
        assert(decreases_to!(fs[i] => fs[i].ty));
        assert(decreases_to!(fs[i].ty => fs[i].ty->Some_0));
    }
}

/// The declaration lines of the present named fields from `i` on.
pub open spec fn spec_named_lines(
    cfg: Swift,
    ts: Seq<NamedDataType>,
    fs: Seq<(String, Field)>,
    i: int,
    sid: Option<Sid>,
) -> Rendered
    decreases fs, 2int, fs.len() - i,
    via spec_named_lines_dec
{
    if i < 0 || i >= fs.len() {
        Rendered::Text(Seq::empty())
    } else {
        match fs[i].1.ty {
            Option::None => spec_named_lines(cfg, ts, fs, i + 1, sid),
            Option::Some(t) => match spec_datatype(cfg, ts, t, sid) {
                Rendered::Fail(f) => Rendered::Fail(f),
                Rendered::Text(tt) => match spec_named_lines(cfg, ts, fs, i + 1, sid) {
                    Rendered::Fail(f) => Rendered::Fail(f),
                    Rendered::Text(rest) => Rendered::Text(
                        "    public let "@ + spec_convert_field(fs[i].0@) + ": "@ + tt + (
                        if fs[i].1.optional {
                            seq!['?']
                        } else {
                            Seq::empty()
                        }) + seq!['\n'] + rest,
                    ),
                },
            },
        }
    }
}

#[via_fn]
proof fn spec_named_lines_dec(
    cfg: Swift,
    ts: Seq<NamedDataType>,
    fs: Seq<(String, Field)>,
    i: int,
    sid: Option<Sid>,
) {
    if 0 <= i < fs.len() && fs[i].1.ty is Some {
        assert(decreases_to!(fs => fs[i]));
        assert(decreases_to!(fs[i] => fs[i].1));
        assert(decreases_to!(fs[i].1 => fs[i].1.ty));
        assert(decreases_to!(fs[i].1.ty => fs[i].1.ty->Some_0));
    }
}

/// The `case swiftName = "wireName"` lines of the present fields.
pub open spec fn spec_coding_key_lines(fs: Seq<(String, Field)>, i: int) -> Seq<char>
    decreases fs.len() - i,
{
    if i < 0 || i >= fs.len() {
        Seq::empty()
    } else if fs[i].1.ty is Some {
        "        case "@ + spec_convert_field(fs[i].0@) + " = \""@ + fs[i].0@ + "\"\n"@
            + spec_coding_key_lines(fs, i + 1)
    } else {
        spec_coding_key_lines(fs, i + 1)
    }
}

/// The `name: Type` initializer parameters of the present fields,
/// joined with `, `.
pub open spec fn spec_init_params(
    cfg: Swift,
    ts: Seq<NamedDataType>,
    fs: Seq<(String, Field)>,
    i: int,
    sid: Option<Sid>,
) -> Rendered
    decreases fs, 2int, fs.len() - i,
    via spec_init_params_dec
{
    if i < 0 || i >= fs.len() {
        Rendered::Text(Seq::empty())
    } else {
        match fs[i].1.ty {
            Option::None => spec_init_params(cfg, ts, fs, i + 1, sid),
            Option::Some(t) => match spec_datatype(cfg, ts, t, sid) {
                Rendered::Fail(f) => Rendered::Fail(f),
                Rendered::Text(tt) => {
                    let param = spec_convert_field(fs[i].0@) + ": "@ + tt + (
                    if fs[i].1.optional {
                        seq!['?']
                    } else {
                        Seq::empty()
                    });
                    if spec_some_present(fs.skip(i + 1)) {
                        match spec_init_params(cfg, ts, fs, i + 1, sid) {
                            Rendered::Fail(f) => Rendered::Fail(f),
                            Rendered::Text(rest) => Rendered::Text(param + ", "@ + rest),
                        }
                    } else {
                        Rendered::Text(param)
                    }
                },
            },
        }
    }
}

#[via_fn]
proof fn spec_init_params_dec(
    cfg: Swift,
    ts: Seq<NamedDataType>,
    fs: Seq<(String, Field)>,
    i: int,
    sid: Option<Sid>,
) {
    if 0 <= i < fs.len() && fs[i].1.ty is Some {
        assert(decreases_to!(fs => fs[i]));
        assert(decreases_to!(fs[i] => fs[i].1));
        assert(decreases_to!(fs[i].1 => fs[i].1.ty));
        assert(decreases_to!(fs[i].1.ty => fs[i].1.ty->Some_0));
    }
}

/// The `self.name = name` assignment lines of the present fields.
pub open spec fn spec_assign_lines(fs: Seq<(String, Field)>, i: int) -> Seq<char>
    decreases fs.len() - i,
{
    if i < 0 || i >= fs.len() {
        Seq::empty()
    } else if fs[i].1.ty is Some {
        "        self."@ + spec_convert_field(fs[i].0@) + " = "@ + spec_convert_field(fs[i].0@)
            + seq!['\n'] + spec_assign_lines(fs, i + 1)
    } else {
        spec_assign_lines(fs, i + 1)
    }
}

/// The inline rendering of an enum reached without a resolvable
/// identity: the numeric union maps to `Double`, anything else lists
/// its cases.
pub open spec fn spec_enum_inline(
    cfg: Swift,
    ts: Seq<NamedDataType>,
    e: EnumType,
    enum_name: Option<Seq<char>>,
) -> Rendered
    decreases e, 2int, 0int,
    via spec_enum_inline_dec
{
    if spec_is_number_enum(e) {
        Rendered::Text("Double"@)
    } else {
        spec_variant_case_lines(cfg, ts, e.variants@, e.string_enum, spec_rename_rule(e), 0,
            enum_name)
    }
}

#[via_fn]
proof fn spec_enum_inline_dec(
    cfg: Swift,
    ts: Seq<NamedDataType>,
    e: EnumType,
    enum_name: Option<Seq<char>>,
) {
    assert(decreases_to!(e => e.variants));
    assert(decreases_to!(e.variants => e.variants@));
}

/// The `rename_all` rule of an enum, as an optional character
/// sequence.
pub open spec fn spec_rename_rule(e: EnumType) -> Option<Seq<char>> {
    match e.rename_all {
        Option::Some(r) => Option::Some(r@),
        Option::None => Option::None,
    }
}

/// The `case` lines of the unskipped variants from `i` on.
pub open spec fn spec_variant_case_lines(
    cfg: Swift,
    ts: Seq<NamedDataType>,
    vs: Seq<(String, Variant)>,
    string_enum: bool,
    rename_all: Option<Seq<char>>,
    i: int,
    enum_name: Option<Seq<char>>,
) -> Rendered
    decreases vs, 2int, vs.len() - i,
    via spec_variant_case_lines_dec
{
    if i < 0 || i >= vs.len() {
        Rendered::Text(Seq::empty())
    } else if vs[i].1.skip {
        spec_variant_case_lines(cfg, ts, vs, string_enum, rename_all, i + 1, enum_name)
    } else {
        match spec_variant_case_line(cfg, ts, vs[i].0@, vs[i].1, string_enum, rename_all,
            enum_name) {
            Rendered::Fail(f) => Rendered::Fail(f),
            Rendered::Text(line) => match spec_variant_case_lines(cfg, ts, vs, string_enum,
                rename_all, i + 1, enum_name) {
                Rendered::Fail(f) => Rendered::Fail(f),
                Rendered::Text(rest) => Rendered::Text(line + rest),
            },
        }
    }
}

#[via_fn]
proof fn spec_variant_case_lines_dec(
    cfg: Swift,
    ts: Seq<NamedDataType>,
    vs: Seq<(String, Variant)>,
    string_enum: bool,
    rename_all: Option<Seq<char>>,
    i: int,
    enum_name: Option<Seq<char>>,
) {
    if 0 <= i < vs.len() {
        assert(decreases_to!(vs => vs[i]));
        assert(decreases_to!(vs[i] => vs[i].1));
    }
}

/// One `case` line of an inline enum rendering.
pub open spec fn spec_variant_case_line(
    cfg: Swift,
    ts: Seq<NamedDataType>,
    name: Seq<char>,
    v: Variant,
    string_enum: bool,
    rename_all: Option<Seq<char>>,
    enum_name: Option<Seq<char>>,
) -> Rendered
    decreases v, 2int, 0int,
    via spec_variant_case_line_dec
{
    let cased = crate::config::spec_convert_enum_case(name);
    match v.fields {
        Fields::Unit => if string_enum {
            Rendered::Text(
                "    case "@ + cased + " = \""@ + spec_generate_raw_value(name, rename_all)
                    + "\"\n"@,
            )
        } else {
            Rendered::Text("    case "@ + cased + "\n"@)
        },
        Fields::Unnamed(fs) => if count_present(fs@, fs@.len() as int) == 0 {
            Rendered::Text("    case "@ + cased + "\n"@)
        } else {
            match spec_join_field_types(cfg, ts, fs@, 0) {
                Rendered::Fail(f) => Rendered::Fail(f),
                Rendered::Text(tt) => Rendered::Text(
                    "    case "@ + cased + seq!['('] + tt + ")\n"@,
                ),
            }
        },
        Fields::Named(fs) => if fs@.len() == 0 {
            Rendered::Text("    case "@ + cased + "\n"@)
        } else {
            let pascal = crate::case_conversion::spec_to_pascal_case(name);
            let sname = match enum_name {
                Option::Some(en) => en + pascal,
                Option::None => pascal,
            };
            Rendered::Text("    case "@ + cased + seq!['('] + sname + ")\n"@)
        },
    }
}

#[via_fn]
proof fn spec_variant_case_line_dec(
    cfg: Swift,
    ts: Seq<NamedDataType>,
    name: Seq<char>,
    v: Variant,
    string_enum: bool,
    rename_all: Option<Seq<char>>,
    enum_name: Option<Seq<char>>,
) {
    match v.fields {
        Fields::Unnamed(fs) => {
            assert(decreases_to!(v => v.fields));
            assert(decreases_to!(v.fields => v.fields->Unnamed_0));
            assert(decreases_to!(fs => fs@));
        },
        _ => {},
    }
}

/// The renderings of the present field types from `i` on, joined with
/// `, `.  A field whose type is a reference is rendered with that
/// reference's identity in context.
pub open spec fn spec_join_field_types(cfg: Swift, ts: Seq<NamedDataType>, fs: Seq<Field>, i: int)
    -> Rendered
    decreases fs, 2int, fs.len() - i,
    via spec_join_field_types_dec
{
    if i < 0 || i >= fs.len() {
        Rendered::Text(Seq::empty())
    } else {
        match fs[i].ty {
            Option::None => spec_join_field_types(cfg, ts, fs, i + 1),
            Option::Some(t) => {
                let fsid: Option<Sid> = match t {
                    DataType::Reference { sid, .. } => Option::Some(sid),
                    _ => Option::None,
                };
                match spec_datatype(cfg, ts, t, fsid) {
                    Rendered::Fail(f) => Rendered::Fail(f),
                    Rendered::Text(tt) => if count_present(fs, fs.len() as int) == count_present(
                        fs,
                        i + 1,
                    ) {
                        Rendered::Text(tt)
                    } else {
                        match spec_join_field_types(cfg, ts, fs, i + 1) {
                            Rendered::Fail(f) => Rendered::Fail(f),
                            Rendered::Text(rest) => Rendered::Text(tt + ", "@ + rest),
                        }
                    },
                }
            },
        }
    }
}

#[via_fn]
proof fn spec_join_field_types_dec(
    cfg: Swift,
    ts: Seq<NamedDataType>,
    fs: Seq<Field>,
    i: int,
) {
    if 0 <= i < fs.len() && fs[i].ty is Some {
        assert(decreases_to!(fs => fs[i]));
        assert(decreases_to!(fs[i] => fs[i].ty));
        assert(decreases_to!(fs[i].ty => fs[i].ty->Some_0));
    }
}

/// Wrap an already-rendered element type as a Swift array.
pub fn list_to_swift(inner: &str) -> (r: String)
    ensures
        r@ == seq!['['] + inner@ + seq![']'],
{
    let mut out = String::new();
    crate::text::push_char(&mut out, '[');
    push_str(&mut out, inner);
    crate::text::push_char(&mut out, ']');
    out
}

/// Wrap already-rendered key and value types as a Swift dictionary.
pub fn map_to_swift(key: &str, value: &str) -> (r: String)
    ensures
        r@ == seq!['['] + key@ + ": "@ + value@ + seq![']'],
{
    let mut out = String::new();
    crate::text::push_char(&mut out, '[');
    push_str(&mut out, key);
    push_str(&mut out, ": ");
    push_str(&mut out, value);
    crate::text::push_char(&mut out, ']');
    out
}

/// The given renderings joined with `, `, in order.
pub open spec fn spec_joined(parts: Seq<Seq<char>>, i: int) -> Seq<char>
    decreases parts.len() - i,
{
    if i < 0 || i >= parts.len() {
        Seq::empty()
    } else if i == parts.len() - 1 {
        parts[i]
    } else {
        parts[i] + ", "@ + spec_joined(parts, i + 1)
    }
}

/// Combine already-rendered tuple element types: no element is
/// `Void`, a single element stands unwrapped, more get tuple
/// parentheses.
pub fn tuple_to_swift(parts: &Vec<String>) -> (r: String)
    ensures
        parts@.len() == 0 ==> r@ == "Void"@,
        parts@.len() == 1 ==> r@ == parts@[0]@,
        parts@.len() > 1 ==> r@ == seq!['('] + spec_joined(parts@.map_values(|p: String| p@), 0)
            + seq![')'],
{
    if parts.len() == 0 {
        return str_to_string("Void");
    }
    if parts.len() == 1 {
        return str_to_string(parts[0].as_str());
    }
    let mut out = String::new();
    crate::text::push_char(&mut out, '(');
    let joined = join_names(parts);
    push_str(&mut out, joined.as_str());
    crate::text::push_char(&mut out, ')');
    proof {
        assert(out@ =~= seq!['('] + spec_joined(parts@.map_values(|p: String| p@), 0)
            + seq![')']);
    }
    out
}

/// Join a list of names with `, `.
pub fn join_names(parts: &Vec<String>) -> (r: String)
    requires
        parts@.len() > 0,
    ensures
        r@ == spec_joined(parts@.map_values(|p: String| p@), 0),
{
    let ghost views = parts@.map_values(|p: String| p@);
    let n = parts.len();
    let mut out = String::new();
    let mut i: usize = 0;
    while i < n
        invariant
            views == parts@.map_values(|p: String| p@),
            n == views.len(),
            0 < n,
            i <= n,
            i < n ==> spec_joined(views, 0) == out@ + spec_joined(views, i as int),
            i == n ==> spec_joined(views, 0) == out@,
        decreases n - i,
    {
        proof {
            assert(views[i as int] == parts@[i as int]@);
        }
        push_str(&mut out, parts[i].as_str());
        if i + 1 < n {
            push_str(&mut out, ", ");
        }
        proof {
            if i + 1 < n {
                assert(spec_joined(views, 0) =~= out@ + spec_joined(views, i + 1));
            }
        }
        i = i + 1;
    }
    out
}

/// Render a generic type parameter, which passes through by name.
pub fn generic_to_swift(name: &String) -> (r: Result<String, Error>)
    ensures
        render_of(r) == Rendered::Text(name@),
{
    Result::Ok(str_to_string(name.as_str()))
}

/// Resolve a reference and render it with its generic arguments.
pub fn reference_to_swift(swift: &Swift, types: &TypeCollection, sid: Sid, generics: &Vec<
    DataType>) -> (r: Result<String, Error>)
    ensures
        render_of(r) == spec_reference(*swift, types@, sid, generics@),
    decreases generics@, 3int, 0int,
{
    match types.get(sid) {
        Option::None => Result::Err(
            Error::InvalidIdentifier(str_to_string("Reference to unknown type")),
        ),
        Option::Some(ndt) => {
            let name = swift.naming.convert(ndt.name.as_str());
            if generics.len() == 0 {
                Result::Ok(name)
            } else {
                match join_types(swift, types, generics) {
                    Result::Err(e) => Result::Err(e),
                    Result::Ok(t) => {
                        let mut out = String::new();
                        push_str(&mut out, name.as_str());
                        crate::text::push_char(&mut out, '<');
                        push_str(&mut out, t.as_str());
                        crate::text::push_char(&mut out, '>');
                        proof {
                            assert(out@ =~= spec_convert(swift.naming, ndt.name@) + seq!['<'] + t@
                                + seq!['>']);
                        }
                        Result::Ok(out)
                    },
                }
            }
        },
    }
}

/// Render the elements of a type list, joined with `, `.
fn join_types(swift: &Swift, types: &TypeCollection, elems: &Vec<DataType>) -> (r: Result<
    String,
    Error,
>)
    ensures
        render_of(r) == spec_join_types(*swift, types@, elems@, 0),
    decreases elems@, 2int, 1int,
{
    let n = elems.len();
    let mut out = String::new();
    let mut i: usize = 0;
    while i < n
        invariant
            n == elems@.len(),
            i <= n,
            i == 0 ==> out@ == Seq::<char>::empty(),
            match spec_join_types(*swift, types@, elems@, i as int) {
                Rendered::Text(rest) => spec_join_types(*swift, types@, elems@, 0)
                    == Rendered::Text(
                    if i == 0 {
                        rest
                    } else if i < n {
                        out@ + ", "@ + rest
                    } else {
                        out@
                    },
                ),
                Rendered::Fail(f) => spec_join_types(*swift, types@, elems@, 0)
                    == Rendered::Fail(f),
            },
        decreases n - i,
    {
        proof {
            assert(decreases_to!(elems@ => elems@[i as int]));
        }
        match datatype_to_swift(swift, types, &elems[i], Option::None) {
            Result::Err(e) => {
                return Result::Err(e);
            },
            Result::Ok(t) => {
                let ghost old_out = out@;
                if i > 0 {
                    push_str(&mut out, ", ");
                }
                push_str(&mut out, t.as_str());
                proof {
                    if i + 1 < n {
                        match spec_join_types(*swift, types@, elems@, i + 1) {
                            Rendered::Text(rest2) => {
                                assert(spec_join_types(*swift, types@, elems@, i as int)
                                    == Rendered::Text(t@ + ", "@ + rest2));
                                assert((if i == 0 {
                                    t@ + ", "@ + rest2
                                } else {
                                    old_out + ", "@ + (t@ + ", "@ + rest2)
                                }) =~= out@ + ", "@ + rest2);
                            },
                            Rendered::Fail(f) => {},
                        }
                    } else {
                        assert(spec_join_types(*swift, types@, elems@, i as int)
                            == Rendered::Text(t@));
                        assert((if i == 0 {
                            t@
                        } else {
                            old_out + ", "@ + t@
                        }) =~= out@);
                    }
                }
            },
        }
        i = i + 1;
    }
    Result::Ok(out)
}

/// Render the present field types of an unnamed payload, joined with
/// `, `; a reference field is rendered with its own identity.
fn join_field_types(swift: &Swift, types: &TypeCollection, fs: &Vec<Field>) -> (r: Result<
    String,
    Error,
>)
    ensures
        render_of(r) == spec_join_field_types(*swift, types@, fs@, 0),
    decreases fs@, 2int, 1int,
{
    let n = fs.len();
    let mut out = String::new();
    let mut started = false;
    let mut i: usize = 0;
    while i < n
        invariant
            n == fs@.len(),
            i <= n,
            started == (count_present(fs@, i as int) > 0),
            !started ==> out@ == Seq::<char>::empty(),
            match spec_join_field_types(*swift, types@, fs@, i as int) {
                Rendered::Text(rest) => spec_join_field_types(*swift, types@, fs@, 0)
                    == Rendered::Text(
                    if !started {
                        rest
                    } else if count_present(fs@, fs@.len() as int) > count_present(
                        fs@,
                        i as int,
                    ) {
                        out@ + ", "@ + rest
                    } else {
                        out@
                    },
                ),
                Rendered::Fail(f) => spec_join_field_types(*swift, types@, fs@, 0)
                    == Rendered::Fail(f),
            },
        decreases n - i,
    {
        match &fs[i].ty {
            Option::None => {},
            Option::Some(t) => {
                proof {
                    assert(decreases_to!(fs@ => fs@[i as int]));
                    assert(decreases_to!(fs@[i as int] => fs@[i as int].ty));
                    assert(decreases_to!(fs@[i as int].ty => fs@[i as int].ty->Some_0));
                }
                let fsid: Option<Sid> = match t {
                    DataType::Reference { sid, .. } => Option::Some(*sid),
                    _ => Option::None,
                };
                match datatype_to_swift(swift, types, t, fsid) {
                    Result::Err(e) => {
                        return Result::Err(e);
                    },
                    Result::Ok(tt) => {
                        let ghost old_out = out@;
                        if started {
                            push_str(&mut out, ", ");
                        }
                        push_str(&mut out, tt.as_str());
                        proof {
                            lemma_count_present_mono(fs@, 0, i as int);
                            lemma_count_present_mono(fs@, i + 1, fs@.len() as int);
                            if count_present(fs@, fs@.len() as int) > count_present(fs@, i + 1) {
                                match spec_join_field_types(*swift, types@, fs@, i + 1) {
                                    Rendered::Text(rest2) => {
                                        assert((if !started {
                                            tt@ + ", "@ + rest2
                                        } else {
                                            old_out + ", "@ + (tt@ + ", "@ + rest2)
                                        }) =~= out@ + ", "@ + rest2);
                                    },
                                    Rendered::Fail(f) => {},
                                }
                            } else {
                                lemma_join_field_types_empty(*swift, types@, fs@, i + 1);
                                assert((if !started {
                                    tt@
                                } else {
                                    old_out + ", "@ + tt@
                                }) =~= out@);
                            }
                        }
                        started = true;
                    },
                }
            },
        }
        i = i + 1;
    }
    Result::Ok(out)
}

/// Convert a type expression to Swift syntax, in the context of the
/// collection and, when known, the identity of the enclosing type.
pub fn datatype_to_swift(swift: &Swift, types: &TypeCollection, dt: &DataType, sid: Option<Sid>)
    -> (r: Result<String, Error>)
    ensures
        render_of(r) == spec_datatype(*swift, types@, *dt, sid),
    decreases *dt, 2int, 0int,
{
    if let Option::Some(special) = is_special_std_type(types, sid) {
        return Result::Ok(special);
    }
    match dt {
        DataType::Primitive(p) => primitive_to_swift(p),
        DataType::Literal(l) => literal_to_swift(l),
        DataType::List(elem) => {
            proof {
                assert(decreases_to!(*dt => dt->List_0));
            }
            match datatype_to_swift(swift, types, elem, Option::None) {
                Result::Err(e) => Result::Err(e),
                Result::Ok(t) => Result::Ok(list_to_swift(t.as_str())),
            }
        },
        DataType::Dict(key, value) => {
            proof {
                assert(decreases_to!(*dt => dt->Dict_0));
                assert(decreases_to!(*dt => dt->Dict_1));
            }
            match datatype_to_swift(swift, types, key, Option::None) {
                Result::Err(e) => Result::Err(e),
                Result::Ok(kt) => match datatype_to_swift(swift, types, value, Option::None) {
                    Result::Err(e) => Result::Err(e),
                    Result::Ok(vt) => Result::Ok(map_to_swift(kt.as_str(), vt.as_str())),
                },
            }
        },
        DataType::Nullable(inner) => {
            proof {
                assert(decreases_to!(*dt => dt->Nullable_0));
            }
            match datatype_to_swift(swift, types, inner, sid) {
                Result::Err(e) => Result::Err(e),
                Result::Ok(t) => {
                    let mut out = String::new();
                    match swift.optionals {
                        crate::config::OptionalStyle::QuestionMark => {
                            push_str(&mut out, t.as_str());
                            crate::text::push_char(&mut out, '?');
                            proof {
                                assert(out@ =~= t@ + seq!['?']);
                            }
                        },
                        crate::config::OptionalStyle::Optional => {
                            push_str(&mut out, "Optional<");
                            push_str(&mut out, t.as_str());
                            crate::text::push_char(&mut out, '>');
                            proof {
                                assert(out@ =~= "Optional<"@ + t@ + seq!['>']);
                            }
                        },
                    }
                    Result::Ok(out)
                },
            }
        },
        DataType::Tuple(elems) => {
            proof {
                assert(decreases_to!(*dt => dt->Tuple_0));
                assert(decreases_to!(*elems => elems@));
            }
            if elems.len() == 0 {
                Result::Ok(str_to_string("Void"))
            } else if elems.len() == 1 {
                proof {
                    assert(decreases_to!(elems@ => elems@[0]));
                }
                datatype_to_swift(swift, types, &elems[0], Option::None)
            } else {
                match join_types(swift, types, elems) {
                    Result::Err(e) => Result::Err(e),
                    Result::Ok(t) => {
                        let mut out = String::new();
                        crate::text::push_char(&mut out, '(');
                        push_str(&mut out, t.as_str());
                        crate::text::push_char(&mut out, ')');
                        proof {
                            assert(out@ =~= seq!['('] + t@ + seq![')']);
                        }
                        Result::Ok(out)
                    },
                }
            }
        },
        DataType::Struct(s) => {
            proof {
                assert(decreases_to!(*dt => dt->Struct_0));
            }
            if is_duration_struct(s) {
                Result::Ok(str_to_string("RustDuration"))
            } else {
                struct_to_swift(swift, types, s, sid)
            }
        },
        DataType::Enum(e) => {
            proof {
                assert(decreases_to!(*dt => dt->Enum_0));
            }
            if let Option::Some(s) = sid {
                if let Option::Some(ndt) = types.get(s) {
                    // a type named for the special table was already
                    // intercepted above, so only the resolved name
                    // remains to render
                    return Result::Ok(swift.naming.convert(ndt.name.as_str()));
                }
                enum_inline(swift, types, e)
            } else {
                enum_inline(swift, types, e)
            }
        },
        DataType::Reference { sid: rsid, generics } => {
            proof {
                assert(decreases_to!(*dt => dt->Reference_generics));
                assert(decreases_to!(*generics => generics@));
            }
            reference_to_swift(swift, types, *rsid, generics)
        },
        DataType::Generic(g) => generic_to_swift(g),
    }
}

/// Render the body of a struct declaration.
fn struct_to_swift(swift: &Swift, types: &TypeCollection, s: &StructType, sid: Option<Sid>) -> (r:
    Result<String, Error>)
    ensures
        render_of(r) == spec_struct_body(*swift, types@, *s, sid),
    decreases *s, 2int, 3int,
{
    proof {
        assert(decreases_to!(*s => s.fields));
    }
    match &s.fields {
        Fields::Unit => Result::Ok(str_to_string("Void")),
        Fields::Unnamed(fs) => {
            proof {
                assert(decreases_to!(s.fields => s.fields->Unnamed_0));
                assert(decreases_to!(*fs => fs@));
            }
            let present = count_present_fields(fs);
            if present == 0 {
                Result::Ok(str_to_string("Void"))
            } else if present == 1 {
                let fp = first_present_exec(fs);
                proof {
                    lemma_count_first(fs@);
                    assert(decreases_to!(fs@ => fs@[fp as int]));
                    assert(decreases_to!(fs@[fp as int] => fs@[fp as int].ty));
                    assert(decreases_to!(fs@[fp as int].ty => fs@[fp as int].ty->Some_0));
                }
                match &fs[fp].ty {
                    Option::Some(t) => match datatype_to_swift(swift, types, t, sid) {
                        Result::Err(e) => Result::Err(e),
                        Result::Ok(tt) => {
                            let mut out = String::new();
                            push_str(&mut out, "    let value: ");
                            push_str(&mut out, tt.as_str());
                            push_str(&mut out, "\n");
                            proof {
                                reveal_strlit("\n");
                                assert(out@ =~= "    let value: "@ + tt@ + seq!['\n']);
                            }
                            Result::Ok(out)
                        },
                    },
                    Option::None => {
                        proof {
                            assert(false);
                        }
                        Result::Ok(String::new())
                    },
                }
            } else {
                unnamed_lines(swift, types, fs, sid)
            }
        },
        Fields::Named(fs) => {
            proof {
                assert(decreases_to!(s.fields => s.fields->Named_0));
                assert(decreases_to!(*fs => fs@));
            }
            match named_lines(swift, types, fs, sid) {
                Result::Err(e) => Result::Err(e),
                Result::Ok(lines) => {
                    let mut out = lines;
                    if needs_coding_keys(swift, fs) && !has_nullable_named(fs) {
                        push_str(&mut out, "\n    private enum CodingKeys: String, CodingKey {\n");
                        let keys = coding_key_lines_exec(swift, fs);
                        push_str(&mut out, keys.as_str());
                        push_str(&mut out, "    }\n");
                    }
                    if swift.generate_initializers && any_present(fs) {
                        match init_params(swift, types, fs, sid) {
                            Result::Err(e) => Result::Err(e),
                            Result::Ok(params) => {
                                push_str(&mut out, "\n    public init(");
                                push_str(&mut out, params.as_str());
                                push_str(&mut out, ") {\n");
                                let assigns = assign_lines_exec(swift, fs);
                                push_str(&mut out, assigns.as_str());
                                push_str(&mut out, "    }\n");
                                Result::Ok(out)
                            },
                        }
                    } else {
                        Result::Ok(out)
                    }
                },
            }
        },
    }
}

/// Count the present fields of an unnamed payload.
pub fn count_present_fields(fs: &Vec<Field>) -> (n: usize)
    ensures
        n == count_present(fs@, fs@.len() as int),
{
    let mut cnt: usize = 0;
    let len = fs.len();
    let mut i: usize = 0;
    while i < len
        invariant
            i <= len,
            len == fs@.len(),
            cnt == count_present(fs@, i as int),
            cnt <= i,
        decreases len - i,
    {
        match &fs[i].ty {
            Option::Some(_) => {
                cnt = cnt + 1;
            },
            Option::None => {},
        }
        i = i + 1;
    }
    cnt
}

/// Find the first present slot of an unnamed payload.
fn first_present_exec(fs: &Vec<Field>) -> (k: usize)
    ensures
        k == first_present(fs@, 0),
{
    let len = fs.len();
    let mut i: usize = 0;
    while i < len
        invariant
            i <= len,
            len == fs@.len(),
            first_present(fs@, 0) == first_present(fs@, i as int),
        decreases len - i,
    {
        match &fs[i].ty {
            Option::Some(_) => {
                return i;
            },
            Option::None => {},
        }
        i = i + 1;
    }
    len
}

/// Render the `public let field{k}: T` lines of a multi-field unnamed
/// payload.
fn unnamed_lines(swift: &Swift, types: &TypeCollection, fs: &Vec<Field>, sid: Option<Sid>) -> (r:
    Result<String, Error>)
    ensures
        render_of(r) == spec_unnamed_lines(*swift, types@, fs@, 0, 0, sid),
    decreases fs@, 2int, 4int,
{
    let n = fs.len();
    let mut out = String::new();
    let mut k: usize = 0;
    let mut i: usize = 0;
    while i < n
        invariant
            n == fs@.len(),
            i <= n,
            k == count_present(fs@, i as int),
            k <= i,
            match spec_unnamed_lines(*swift, types@, fs@, i as int, k as int, sid) {
                Rendered::Text(rest) => spec_unnamed_lines(*swift, types@, fs@, 0, 0, sid)
                    == Rendered::Text(out@ + rest),
                Rendered::Fail(f) => spec_unnamed_lines(*swift, types@, fs@, 0, 0, sid)
                    == Rendered::Fail(f),
            },
        decreases n - i,
    {
        match &fs[i].ty {
            Option::None => {},
            Option::Some(t) => {
                proof {
                    assert(decreases_to!(fs@ => fs@[i as int]));
                    assert(decreases_to!(fs@[i as int] => fs@[i as int].ty));
                    assert(decreases_to!(fs@[i as int].ty => fs@[i as int].ty->Some_0));
                }
                match datatype_to_swift(swift, types, t, sid) {
                    Result::Err(e) => {
                        return Result::Err(e);
                    },
                    Result::Ok(tt) => {
                        push_str(&mut out, "    public let field");
                        let num = crate::text::u64_to_dec(k as u64);
                        push_str(&mut out, num.as_str());
                        push_str(&mut out, ": ");
                        push_str(&mut out, tt.as_str());
                        push_str(&mut out, "\n");
                        proof {
                            reveal_strlit("\n");
                            match spec_unnamed_lines(*swift, types@, fs@, i + 1, k + 1, sid) {
                                Rendered::Text(rest2) => {
                                    assert(out@ + rest2 =~= spec_unnamed_lines(
                                        *swift,
                                        types@,
                                        fs@,
                                        0,
                                        0,
                                        sid,
                                    )->Text_0);
                                },
                                Rendered::Fail(f) => {},
                            }
                        }
                        k = k + 1;
                    },
                }
            },
        }
        i = i + 1;
    }
    Result::Ok(out)
}

/// Render the `public let` lines of a named payload.
fn named_lines(swift: &Swift, types: &TypeCollection, fs: &Vec<(String, Field)>, sid: Option<
    Sid>) -> (r: Result<String, Error>)
    ensures
        render_of(r) == spec_named_lines(*swift, types@, fs@, 0, sid),
    decreases fs@, 2int, 4int,
{
    let n = fs.len();
    let mut out = String::new();
    let mut i: usize = 0;
    while i < n
        invariant
            n == fs@.len(),
            i <= n,
            match spec_named_lines(*swift, types@, fs@, i as int, sid) {
                Rendered::Text(rest) => spec_named_lines(*swift, types@, fs@, 0, sid)
                    == Rendered::Text(out@ + rest),
                Rendered::Fail(f) => spec_named_lines(*swift, types@, fs@, 0, sid)
                    == Rendered::Fail(f),
            },
        decreases n - i,
    {
        match &fs[i].1.ty {
            Option::None => {},
            Option::Some(t) => {
                proof {
                    assert(decreases_to!(fs@ => fs@[i as int]));
                    assert(decreases_to!(fs@[i as int] => fs@[i as int].1));
                    assert(decreases_to!(fs@[i as int].1 => fs@[i as int].1.ty));
                    assert(decreases_to!(fs@[i as int].1.ty => fs@[i as int].1.ty->Some_0));
                }
                match datatype_to_swift(swift, types, t, sid) {
                    Result::Err(e) => {
                        return Result::Err(e);
                    },
                    Result::Ok(tt) => {
                        push_str(&mut out, "    public let ");
                        let cf = swift.naming.convert_field(fs[i].0.as_str());
                        push_str(&mut out, cf.as_str());
                        push_str(&mut out, ": ");
                        push_str(&mut out, tt.as_str());
                        if fs[i].1.optional {
                            push_str(&mut out, "?");
                        }
                        push_str(&mut out, "\n");
                        proof {
                            reveal_strlit("\n");
                            reveal_strlit("?");
                            match spec_named_lines(*swift, types@, fs@, i + 1, sid) {
                                Rendered::Text(rest2) => {
                                    assert(out@ + rest2 =~= spec_named_lines(
                                        *swift,
                                        types@,
                                        fs@,
                                        0,
                                        sid,
                                    )->Text_0);
                                },
                                Rendered::Fail(f) => {},
                            }
                        }
                    },
                }
            },
        }
        i = i + 1;
    }
    Result::Ok(out)
}

/// Does any present field rename between wire and Swift?
pub fn needs_coding_keys(swift: &Swift, fs: &Vec<(String, Field)>) -> (r: bool)
    ensures
        r == spec_needs_coding_keys(fs@),
{
    let n = fs.len();
    let mut i: usize = 0;
    while i < n
        invariant
            n == fs@.len(),
            i <= n,
            forall|j: int|
                0 <= j < i ==> !((#[trigger] fs@[j]).1.ty is Some && spec_convert_field(fs@[j].0@)
                    != fs@[j].0@),
        decreases n - i,
    {
        let present = match &fs[i].1.ty {
            Option::Some(_) => true,
            Option::None => false,
        };
        if present {
            let cf = swift.naming.convert_field(fs[i].0.as_str());
            if !crate::text::str_eq(cf.as_str(), fs[i].0.as_str()) {
                return true;
            }
        }
        i = i + 1;
    }
    false
}

/// Is any present field `Nullable`?
pub fn has_nullable_named(fs: &Vec<(String, Field)>) -> (r: bool)
    ensures
        r == spec_has_nullable(fs@),
{
    let n = fs.len();
    let mut i: usize = 0;
    while i < n
        invariant
            n == fs@.len(),
            i <= n,
            forall|j: int|
                0 <= j < i ==> !((#[trigger] fs@[j]).1.ty matches Some(t) && t is Nullable),
        decreases n - i,
    {
        match &fs[i].1.ty {
            Option::Some(DataType::Nullable(_)) => {
                return true;
            },
            _ => {},
        }
        i = i + 1;
    }
    false
}

/// Does any named field carry a present type?
fn any_present(fs: &Vec<(String, Field)>) -> (r: bool)
    ensures
        r == spec_some_present(fs@),
{
    let n = fs.len();
    let mut i: usize = 0;
    while i < n
        invariant
            n == fs@.len(),
            i <= n,
            forall|j: int| 0 <= j < i ==> !((#[trigger] fs@[j]).1.ty is Some),
        decreases n - i,
    {
        match &fs[i].1.ty {
            Option::Some(_) => {
                return true;
            },
            Option::None => {},
        }
        i = i + 1;
    }
    false
}

/// Render the `case name = "wire"` coding-key lines.
fn coding_key_lines_exec(swift: &Swift, fs: &Vec<(String, Field)>) -> (r: String)
    ensures
        r@ == spec_coding_key_lines(fs@, 0),
{
    let n = fs.len();
    let mut out = String::new();
    let mut i: usize = 0;
    while i < n
        invariant
            n == fs@.len(),
            i <= n,
            spec_coding_key_lines(fs@, 0) == out@ + spec_coding_key_lines(fs@, i as int),
        decreases n - i,
    {
        let present = match &fs[i].1.ty {
            Option::Some(_) => true,
            Option::None => false,
        };
        if present {
            push_str(&mut out, "        case ");
            let cf = swift.naming.convert_field(fs[i].0.as_str());
            push_str(&mut out, cf.as_str());
            push_str(&mut out, " = \"");
            push_str(&mut out, fs[i].0.as_str());
            push_str(&mut out, "\"\n");
            proof {
                assert(spec_coding_key_lines(fs@, 0) =~= out@ + spec_coding_key_lines(
                    fs@,
                    i + 1,
                ));
            }
        }
        i = i + 1;
    }
    out
}

/// Render the initializer parameter list of the present fields.
fn init_params(swift: &Swift, types: &TypeCollection, fs: &Vec<(String, Field)>, sid: Option<
    Sid>) -> (r: Result<String, Error>)
    ensures
        render_of(r) == spec_init_params(*swift, types@, fs@, 0, sid),
    decreases fs@, 2int, 4int,
{
    let n = fs.len();
    let mut out = String::new();
    let mut i: usize = 0;
    while i < n
        invariant
            n == fs@.len(),
            i <= n,
            match spec_init_params(*swift, types@, fs@, i as int, sid) {
                Rendered::Text(rest) => spec_init_params(*swift, types@, fs@, 0, sid)
                    == Rendered::Text(out@ + rest),
                Rendered::Fail(f) => spec_init_params(*swift, types@, fs@, 0, sid)
                    == Rendered::Fail(f),
            },
        decreases n - i,
    {
        match &fs[i].1.ty {
            Option::None => {},
            Option::Some(t) => {
                proof {
                    assert(decreases_to!(fs@ => fs@[i as int]));
                    assert(decreases_to!(fs@[i as int] => fs@[i as int].1));
                    assert(decreases_to!(fs@[i as int].1 => fs@[i as int].1.ty));
                    assert(decreases_to!(fs@[i as int].1.ty => fs@[i as int].1.ty->Some_0));
                }
                match datatype_to_swift(swift, types, t, sid) {
                    Result::Err(e) => {
                        return Result::Err(e);
                    },
                    Result::Ok(tt) => {
                        let cf = swift.naming.convert_field(fs[i].0.as_str());
                        push_str(&mut out, cf.as_str());
                        push_str(&mut out, ": ");
                        push_str(&mut out, tt.as_str());
                        if fs[i].1.optional {
                            push_str(&mut out, "?");
                        }
                        let more = any_present_from(fs, i + 1);
                        if more {
                            push_str(&mut out, ", ");
                        }
                        proof {
                            reveal_strlit("?");
                            if !more {
                                lemma_init_params_empty(*swift, types@, fs@, i + 1, sid);
                            }
                            match spec_init_params(*swift, types@, fs@, i + 1, sid) {
                                Rendered::Text(rest2) => {
                                    assert(out@ + rest2 =~= spec_init_params(
                                        *swift,
                                        types@,
                                        fs@,
                                        0,
                                        sid,
                                    )->Text_0);
                                },
                                Rendered::Fail(f) => {},
                            }
                        }
                    },
                }
            },
        }
        i = i + 1;
    }
    Result::Ok(out)
}

/// With no present field at or after `j`, the parameter list from
/// `j` is empty text.
proof fn lemma_init_params_empty(
    cfg: Swift,
    ts: Seq<NamedDataType>,
    fs: Seq<(String, Field)>,
    j: int,
    sid: Option<Sid>,
)
    requires
        0 <= j,
        !spec_some_present(fs.skip(j)),
    ensures
        spec_init_params(cfg, ts, fs, j, sid) == Rendered::Text(Seq::<char>::empty()),
    decreases fs.len() - j,
{
    if j < fs.len() {
        if fs[j].1.ty is Some {
            assert(fs.skip(j)[0].1.ty is Some);
            assert(spec_some_present(fs.skip(j)));
        } else {
            assert forall|t: int|
                0 <= t < fs.skip(j + 1).len() implies !((#[trigger] fs.skip(j + 1)[t]).1.ty
                is Some) by {
                assert(fs.skip(j + 1)[t] == fs.skip(j)[t + 1]);
            }
            lemma_init_params_empty(cfg, ts, fs, j + 1, sid);
        }
    }
}

/// Does any slot at or after `from` carry a present type?
fn any_present_from(fs: &Vec<(String, Field)>, from: usize) -> (r: bool)
    requires
        from <= fs@.len(),
    ensures
        r == spec_some_present(fs@.skip(from as int)),
{
    let n = fs.len();
    let mut i: usize = from;
    while i < n
        invariant
            from <= i <= n,
            n == fs@.len(),
            forall|j: int| from <= j < i ==> !((#[trigger] fs@[j]).1.ty is Some),
        decreases n - i,
    {
        match &fs[i].1.ty {
            Option::Some(_) => {
                proof {
                    assert(fs@.skip(from as int)[i - from].1.ty is Some);
                }
                return true;
            },
            Option::None => {},
        }
        i = i + 1;
    }
    proof {
        assert forall|j: int| 0 <= j < fs@.skip(from as int).len() implies !((#[trigger] fs@.skip(
            from as int,
        )[j]).1.ty is Some) by {
            assert(fs@.skip(from as int)[j] == fs@[from + j]);
        }
    }
    false
}

/// Render one `self.x = x` assignment line.
fn assign_line_one(swift: &Swift, name: &String) -> (r: String)
    ensures
        r@ == "        self."@ + spec_convert_field(name@) + " = "@ + spec_convert_field(name@)
            + seq!['\n'],
{
    let mut out = String::new();
    push_str(&mut out, "        self.");
    let cf = swift.naming.convert_field(name.as_str());
    push_str(&mut out, cf.as_str());
    push_str(&mut out, " = ");
    push_str(&mut out, cf.as_str());
    push_str(&mut out, "\n");
    proof {
        reveal_strlit("\n");
        assert(out@ =~= "        self."@ + spec_convert_field(name@) + " = "@
            + spec_convert_field(name@) + seq!['\n']);
    }
    out
}

/// Render the `self.x = x` assignment lines.
fn assign_lines_exec(swift: &Swift, fs: &Vec<(String, Field)>) -> (r: String)
    ensures
        r@ == spec_assign_lines(fs@, 0),
{
    let n = fs.len();
    let mut out = String::new();
    let mut i: usize = 0;
    while i < n
        invariant
            n == fs@.len(),
            i <= n,
            spec_assign_lines(fs@, 0) == out@ + spec_assign_lines(fs@, i as int),
        decreases n - i,
    {
        let present = match &fs[i].1.ty {
            Option::Some(_) => true,
            Option::None => false,
        };
        if present {
            let ghost old_out = out@;
            let line = assign_line_one(swift, &fs[i].0);
            push_str(&mut out, line.as_str());
            proof {
                assert(spec_assign_lines(fs@, i as int) == line@ + spec_assign_lines(fs@, i + 1));
                assert(out@ + spec_assign_lines(fs@, i + 1) =~= old_out + spec_assign_lines(
                    fs@,
                    i as int,
                ));
            }
        }
        i = i + 1;
    }
    out
}

/// Render an enum reached without a resolvable identity.
fn enum_inline(swift: &Swift, types: &TypeCollection, e: &EnumType) -> (r: Result<String, Error>)
    ensures
        render_of(r) == spec_enum_inline(*swift, types@, *e, Option::None),
    decreases *e, 2int, 3int,
{
    if is_serde_json_number_enum(e) {
        return Result::Ok(str_to_string("Double"));
    }
    let n = e.variants.len();
    let mut out = String::new();
    let mut i: usize = 0;
    while i < n
        invariant
            n == e.variants@.len(),
            i <= n,
            match spec_variant_case_lines(*swift, types@, e.variants@, e.string_enum,
                spec_rename_rule(*e), i as int, Option::None) {
                Rendered::Text(rest) => spec_variant_case_lines(*swift, types@, e.variants@,
                    e.string_enum, spec_rename_rule(*e), 0, Option::None) == Rendered::Text(
                    out@ + rest,
                ),
                Rendered::Fail(f) => spec_variant_case_lines(*swift, types@, e.variants@,
                    e.string_enum, spec_rename_rule(*e), 0, Option::None) == Rendered::Fail(f),
            },
        decreases n - i,
    {
        let name = &e.variants[i].0;
        let variant = &e.variants[i].1;
        let ghost old_out = out@;
        if !variant.skip {
            let cased = swift.naming.convert_enum_case(name.as_str());
            match &variant.fields {
                Fields::Unit => {
                    push_str(&mut out, "    case ");
                    push_str(&mut out, cased.as_str());
                    if e.string_enum {
                        let rule: Option<&str> = match &e.rename_all {
                            Option::Some(ra) => Option::Some(ra.as_str()),
                            Option::None => Option::None,
                        };
                        let raw = generate_raw_value(name.as_str(), rule);
                        push_str(&mut out, " = \"");
                        push_str(&mut out, raw.as_str());
                        push_str(&mut out, "\"\n");
                    } else {
                        push_str(&mut out, "\n");
                    }
                },
                Fields::Unnamed(fs) => {
                    proof {
                        assert(decreases_to!(*e => e.variants));
                        assert(decreases_to!(e.variants => e.variants@));
                        assert(decreases_to!(e.variants@ => e.variants@[i as int]));
                        assert(decreases_to!(e.variants@[i as int] => e.variants@[i as int].1));
                        assert(decreases_to!(e.variants@[i as int].1 => e.variants@[i as int]
                            .1.fields));
                        assert(decreases_to!(e.variants@[i as int].1.fields => e.variants@[
                            i as int].1.fields->Unnamed_0));
                        assert(decreases_to!(*fs => fs@));
                    }
                    let present = count_present_fields(fs);
                    push_str(&mut out, "    case ");
                    push_str(&mut out, cased.as_str());
                    if present == 0 {
                        push_str(&mut out, "\n");
                    } else {
                        match join_field_types(swift, types, fs) {
                            Result::Err(err) => {
                                proof {
                                    assert(spec_variant_case_line(*swift, types@,
                                        e.variants@[i as int].0@, e.variants@[i as int].1,
                                        e.string_enum, spec_rename_rule(*e), Option::None)
                                        == Rendered::Fail(err@));
                                }
                                return Result::Err(err);
                            },
                            Result::Ok(tt) => {
                                push_str(&mut out, "(");
                                push_str(&mut out, tt.as_str());
                                push_str(&mut out, ")\n");
                            },
                        }
                    }
                },
                Fields::Named(fs) => {
                    push_str(&mut out, "    case ");
                    push_str(&mut out, cased.as_str());
                    if fs.len() == 0 {
                        push_str(&mut out, "\n");
                    } else {
                        let pascal = crate::case_conversion::to_pascal_case(name.as_str());
                        push_str(&mut out, "(");
                        push_str(&mut out, pascal.as_str());
                        push_str(&mut out, ")\n");
                    }
                },
            }
            proof {
                reveal_strlit("\n");
                reveal_strlit("(");
                reveal_strlit(")\n");
                reveal_strlit(" = \"");
                reveal_strlit("\"\n");
                reveal_strlit("    case ");
                match spec_variant_case_line(*swift, types@, e.variants@[i as int].0@,
                    e.variants@[i as int].1, e.string_enum, spec_rename_rule(*e), Option::None) {
                    Rendered::Text(line) => {
                        assert(out@ =~= old_out + line);
                        match spec_variant_case_lines(*swift, types@, e.variants@, e.string_enum,
                            spec_rename_rule(*e), i + 1, Option::None) {
                            Rendered::Text(rest2) => {
                                assert(out@ + rest2 =~= old_out + (line + rest2));
                            },
                            Rendered::Fail(f) => {},
                        }
                    },
                    Rendered::Fail(f) => {},
                }
            }
        }
        i = i + 1;
    }
    Result::Ok(out)
}

/// The present count never falls as the prefix grows.
pub proof fn lemma_count_present_mono(fs: Seq<Field>, i: int, j: int)
    requires
        i <= j,
    ensures
        count_present(fs, i) <= count_present(fs, j),
    decreases j - i,
{
    if i < j {
        lemma_count_present_mono(fs, i, j - 1);
    }
}

/// With no present field at or after `i`, the joined rendering from
/// `i` is empty text.
proof fn lemma_join_field_types_empty(cfg: Swift, ts: Seq<NamedDataType>, fs: Seq<Field>, i: int)
    requires
        count_present(fs, fs.len() as int) == count_present(fs, i),
        0 <= i,
    ensures
        spec_join_field_types(cfg, ts, fs, i) == Rendered::Text(Seq::<char>::empty()),
    decreases fs.len() - i,
{
    if i < fs.len() {
        if fs[i].ty is Some {
            lemma_count_present_mono(fs, i + 1, fs.len() as int);
        } else {
            lemma_join_field_types_empty(cfg, ts, fs, i + 1);
        }
    }
}

} // verus!
