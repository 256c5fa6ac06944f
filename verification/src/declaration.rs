//! Whole-declaration assembly: doc comment, deprecation attribute,
//! the `public struct` / `public enum` declaration, auxiliary variant
//! structs and the synthesized `Codable` extension.

use vstd::prelude::*;

use crate::codable::{spec_enum_codable, spec_struct_codable, spec_variant_structs,
    generate_enum_codable_impl, generate_enum_variant_structs, generate_struct_codable_impl,
    spec_unit_like};
use crate::config::{render_of, spec_convert, spec_convert_enum_case, Error, Rendered, Swift};
use crate::export::{count_present, datatype_to_swift, spec_datatype, spec_has_nullable,
    spec_joined};
use crate::formatting::{format_deprecated, format_doc_comment, spec_format_deprecated,
    spec_format_doc_comment};
use crate::model::{DataType, EnumType, Field, Fields, NamedDataType, StructType,
    TypeCollection, Variant};
use crate::rename_rules::{generate_raw_value, spec_generate_raw_value};
use crate::text::push_str;
use crate::validation::{is_recursive_type_reference, spec_is_recursive};
use crate::variant_naming::{generate_variant_struct_name, spec_variant_struct_name};

verus! {

/// The doc comment and deprecation attribute that precede a
/// declaration.
pub open spec fn spec_header(ndt: NamedDataType) -> Seq<char> {
    (if ndt.docs@.len() > 0 {
        spec_format_doc_comment(ndt.docs@)
    } else {
        Seq::empty()
    }) + (match ndt.deprecated {
        Option::Some(m) => spec_format_deprecated(m@),
        Option::None => Seq::empty(),
    })
}

/// The `<A, B>` generic-parameter suffix of a declaration.
pub open spec fn spec_generics_suffix(gs: Seq<String>) -> Seq<char> {
    if gs.len() == 0 {
        Seq::empty()
    } else {
        seq!['<'] + spec_joined(gs.map_values(|g: String| g@), 0) + seq!['>']
    }
}

/// An enum has some unskipped variant carrying a payload, which calls
/// for a synthesized `Codable` implementation.
pub open spec fn spec_has_struct_variants(e: EnumType) -> bool {
    exists|i: int|
        0 <= i < e.variants@.len() && !(#[trigger] e.variants@[i]).1.skip && !spec_unit_like(
            e.variants@[i].1,
        )
}

/// The raw-value `case` lines of a string-backed enum declaration.
pub open spec fn spec_string_case_lines(e: EnumType, i: int) -> Seq<char>
    decreases e.variants@.len() - i,
{
    if i < 0 || i >= e.variants@.len() {
        Seq::empty()
    } else if e.variants@[i].1.skip {
        spec_string_case_lines(e, i + 1)
    } else {
        "    case "@ + spec_convert_enum_case(e.variants@[i].0@) + " = \""@
            + spec_generate_raw_value(
            e.variants@[i].0@,
            crate::export::spec_rename_rule(e),
        ) + "\"\n"@ + spec_string_case_lines(e, i + 1)
    }
}

/// The renderings of a payload's present field types, joined with
/// `, `, each without an identity in context.
pub open spec fn spec_join_plain_types(cfg: Swift, ts: Seq<NamedDataType>, fs: Seq<Field>, i: int)
    -> Rendered
    decreases fs.len() - i,
{
    if i < 0 || i >= fs.len() {
        Rendered::Text(Seq::empty())
    } else {
        match fs[i].ty {
            Option::None => spec_join_plain_types(cfg, ts, fs, i + 1),
            Option::Some(t) => match spec_datatype(cfg, ts, t, Option::None) {
                Rendered::Fail(f) => Rendered::Fail(f),
                Rendered::Text(tt) => if count_present(fs, fs.len() as int) == count_present(
                    fs,
                    i + 1,
                ) {
                    Rendered::Text(tt)
                } else {
                    match spec_join_plain_types(cfg, ts, fs, i + 1) {
                        Rendered::Fail(f) => Rendered::Fail(f),
                        Rendered::Text(rest) => Rendered::Text(tt + ", "@ + rest),
                    }
                },
            },
        }
    }
}

/// One `case` line of a declared enum.
pub open spec fn spec_decl_case_line(
    cfg: Swift,
    ts: Seq<NamedDataType>,
    enum_name: Seq<char>,
    name: Seq<char>,
    v: Variant,
) -> Rendered {
    let c = spec_convert_enum_case(name);
    if spec_unit_like(v) {
        Rendered::Text("    case "@ + c + "\n"@)
    } else {
        match v.fields {
            Fields::Unnamed(fs) => match spec_join_plain_types(cfg, ts, fs@, 0) {
                Rendered::Fail(f) => Rendered::Fail(f),
                Rendered::Text(tt) => Rendered::Text(
                    "    case "@ + c + seq!['('] + tt + ")\n"@,
                ),
            },
            Fields::Named(fs) => Rendered::Text(
                "    case "@ + c + seq!['('] + spec_variant_struct_name(
                    cfg.struct_naming,
                    cfg.naming,
                    enum_name,
                    name,
                ) + ")\n"@,
            ),
            Fields::Unit => Rendered::Text(Seq::empty()),
        }
    }
}

/// The `case` lines of a declared enum's unskipped variants.
pub open spec fn spec_decl_case_lines(
    cfg: Swift,
    ts: Seq<NamedDataType>,
    enum_name: Seq<char>,
    e: EnumType,
    i: int,
) -> Rendered
    decreases e.variants@.len() - i,
{
    if i < 0 || i >= e.variants@.len() {
        Rendered::Text(Seq::empty())
    } else if e.variants@[i].1.skip {
        spec_decl_case_lines(cfg, ts, enum_name, e, i + 1)
    } else {
        match spec_decl_case_line(cfg, ts, enum_name, e.variants@[i].0@, e.variants@[i].1) {
            Rendered::Fail(f) => Rendered::Fail(f),
            Rendered::Text(line) => match spec_decl_case_lines(cfg, ts, enum_name, e, i + 1) {
                Rendered::Fail(f) => Rendered::Fail(f),
                Rendered::Text(rest) => Rendered::Text(line + rest),
            },
        }
    }
}

/// The struct declaration around an already-rendered body, with the
/// nullable-field `Codable` extension when one is owed.
pub open spec fn spec_struct_decl(
    cfg: Swift,
    ts: Seq<NamedDataType>,
    s: StructType,
    name: Seq<char>,
    generics: Seq<char>,
    type_def: Seq<char>,
) -> Rendered {
    let body = match s.fields {
        Fields::Named(fs) => if fs@.len() == 0 {
            Seq::<char>::empty()
        } else {
            type_def
        },
        Fields::Unit => Seq::<char>::empty(),
        Fields::Unnamed(fs) => type_def,
    };
    let decl = "public struct "@ + name + generics + ": Codable {\n"@ + body + seq!['}'];
    match s.fields {
        Fields::Named(fs) => if spec_has_nullable(fs@) {
            match spec_struct_codable(cfg, ts, s, name) {
                Rendered::Fail(f) => Rendered::Fail(f),
                Rendered::Text(ext) => Rendered::Text(decl + ext),
            }
        } else {
            Rendered::Text(decl)
        },
        _ => Rendered::Text(decl),
    }
}

/// The enum declaration with its raw values or cases, auxiliary
/// variant structs and synthesized `Codable` extension.  The type
/// conforms to `Codable` exactly once: inline on the declaration when
/// no extension is synthesized, through the one synthesized extension
/// otherwise.  A self-referential enum is declared `indirect`.
pub open spec fn spec_enum_decl(
    cfg: Swift,
    ts: Seq<NamedDataType>,
    e: EnumType,
    name: Seq<char>,
    generics: Seq<char>,
    indirect: bool,
) -> Rendered {
    let hsv = spec_has_struct_variants(e);
    if e.string_enum {
        let protocols = if hsv {
            ": String"@
        } else {
            ": String, Codable"@
        };
        let decl = "public enum "@ + name + generics + protocols + " {\n"@
            + spec_string_case_lines(e, 0) + seq!['}'];
        if hsv {
            Rendered::Text(
                decl + "\n\nextension "@ + name + ": Codable {\n"@
                    + "    // struct-like variants of a string-backed enum keep raw-value coding\n"@
                    + seq!['}'],
            )
        } else {
            Rendered::Text(decl)
        }
    } else {
        let needs_extension = hsv || e.repr is Adjacent;
        let keyword = if indirect {
            "public indirect enum "@
        } else {
            "public enum "@
        };
        let protocol_part = if needs_extension {
            Seq::<char>::empty()
        } else {
            ": Codable"@
        };
        match spec_decl_case_lines(cfg, ts, name, e, 0) {
            Rendered::Fail(f) => Rendered::Fail(f),
            Rendered::Text(cases) => {
                let decl = keyword + name + generics + protocol_part + " {\n"@ + cases
                    + "}\n"@;
                let with_structs = if hsv {
                    match spec_variant_structs(cfg, ts, name, e.variants@, 0) {
                        Rendered::Fail(f) => Rendered::Fail(f),
                        Rendered::Text(structs) => Rendered::Text(decl + structs),
                    }
                } else {
                    Rendered::Text(decl)
                };
                match with_structs {
                    Rendered::Fail(f) => Rendered::Fail(f),
                    Rendered::Text(d) => if needs_extension {
                        match spec_enum_codable(cfg, ts, e, name) {
                            Rendered::Fail(f) => Rendered::Fail(f),
                            Rendered::Text(ext) => Rendered::Text(d + ext),
                        }
                    } else {
                        Rendered::Text(d)
                    },
                }
            },
        }
    }
}

/// The full exported declaration of one named type under a custom
/// name: header, declaration, auxiliary types and coding extensions.
pub open spec fn spec_export_type(
    cfg: Swift,
    ts: Seq<NamedDataType>,
    ndt: NamedDataType,
    custom_name: Seq<char>,
) -> Rendered {
    match spec_datatype(cfg, ts, ndt.ty, Option::Some(ndt.sid)) {
        Rendered::Fail(f) => Rendered::Fail(f),
        Rendered::Text(type_def) => {
            let header = spec_header(ndt);
            let name = spec_convert(cfg.naming, custom_name);
            let generics = spec_generics_suffix(ndt.generics@);
            match ndt.ty {
                DataType::Struct(s) => match spec_struct_decl(cfg, ts, s, name, generics,
                    type_def) {
                    Rendered::Fail(f) => Rendered::Fail(f),
                    Rendered::Text(d) => Rendered::Text(header + d),
                },
                DataType::Enum(e) => match spec_enum_decl(cfg, ts, e, name, generics,
                    spec_is_recursive(ndt.ty, ndt.sid)) {
                    Rendered::Fail(f) => Rendered::Fail(f),
                    Rendered::Text(d) => Rendered::Text(header + d),
                },
                _ => Rendered::Text(header + type_def),
            }
        },
    }
}

/// Render the present field types of an unnamed payload, joined with
/// `, `, each without an identity in context.
fn join_plain_types(swift: &Swift, types: &TypeCollection, fs: &Vec<Field>) -> (r: Result<
    String,
    Error,
>)
    ensures
        render_of(r) == spec_join_plain_types(*swift, types@, fs@, 0),
{
    let n = fs.len();
    let mut out = String::new();
    let mut started = false;
    let mut i: usize = 0;
    while i < n
        invariant
            n == fs@.len(),
            i <= n,
            started == (count_present(fs@, i as int) > 0),
            !started ==> out@ == Seq::<char>::empty(),
            match spec_join_plain_types(*swift, types@, fs@, i as int) {
                Rendered::Text(rest) => spec_join_plain_types(*swift, types@, fs@, 0)
                    == Rendered::Text(
                    if !started {
                        rest
                    } else if count_present(fs@, fs@.len() as int) > count_present(
                        fs@,
                        i as int,
                    ) {
                        out@ + ", "@ + rest
                    } else {
                        out@
                    },
                ),
                Rendered::Fail(f) => spec_join_plain_types(*swift, types@, fs@, 0)
                    == Rendered::Fail(f),
            },
        decreases n - i,
    {
        match &fs[i].ty {
            Option::None => {},
            Option::Some(t) => {
                match datatype_to_swift(swift, types, t, Option::None) {
                    Result::Err(e) => {
                        return Result::Err(e);
                    },
                    Result::Ok(tt) => {
                        let ghost old_out = out@;
                        if started {
                            push_str(&mut out, ", ");
                        }
                        push_str(&mut out, tt.as_str());
                        proof {
                            crate::export::lemma_count_present_mono(fs@, 0, i as int);
                            crate::export::lemma_count_present_mono(fs@, i + 1, fs@.len() as int);
                            if count_present(fs@, fs@.len() as int) > count_present(fs@, i + 1) {
                                match spec_join_plain_types(*swift, types@, fs@, i + 1) {
                                    Rendered::Text(rest2) => {
                                        assert((if !started {
                                            tt@ + ", "@ + rest2
                                        } else {
                                            old_out + ", "@ + (tt@ + ", "@ + rest2)
                                        }) =~= out@ + ", "@ + rest2);
                                    },
                                    Rendered::Fail(f) => {},
                                }
                            } else {
                                lemma_join_plain_types_empty(*swift, types@, fs@, i + 1);
                                assert((if !started {
                                    tt@
                                } else {
                                    old_out + ", "@ + tt@
                                }) =~= out@);
                            }
                        }
                        started = true;
                    },
                }
            },
        }
        i = i + 1;
    }
    Result::Ok(out)
}

/// With no present field at or after `i`, the joined rendering from
/// `i` is empty text.
proof fn lemma_join_plain_types_empty(cfg: Swift, ts: Seq<NamedDataType>, fs: Seq<Field>, i: int)
    requires
        count_present(fs, fs.len() as int) == count_present(fs, i),
        0 <= i,
    ensures
        spec_join_plain_types(cfg, ts, fs, i) == Rendered::Text(Seq::<char>::empty()),
    decreases fs.len() - i,
{
    if i < fs.len() {
        if fs[i].ty is Some {
            crate::export::lemma_count_present_mono(fs, i + 1, fs.len() as int);
        } else {
            lemma_join_plain_types_empty(cfg, ts, fs, i + 1);
        }
    }
}

/// Render one declared `case` line.
fn decl_case_line(
    swift: &Swift,
    types: &TypeCollection,
    enum_name: &str,
    name: &String,
    v: &Variant,
) -> (r: Result<String, Error>)
    ensures
        render_of(r) == spec_decl_case_line(*swift, types@, enum_name@, name@, *v),
{
    let c = swift.naming.convert_enum_case(name.as_str());
    let mut out = String::new();
    if crate::codable::unit_like_variant(v) {
        push_str(&mut out, "    case ");
        push_str(&mut out, c.as_str());
        push_str(&mut out, "\n");
        proof {
            reveal_strlit("\n");
            assert(out@ =~= spec_decl_case_line(*swift, types@, enum_name@, name@, *v)->Text_0);
        }
        return Result::Ok(out);
    }
    match &v.fields {
        Fields::Unnamed(fs) => {
            let tt = match join_plain_types(swift, types, fs) {
                Result::Err(e) => {
                    return Result::Err(e);
                },
                Result::Ok(t) => t,
            };
            push_str(&mut out, "    case ");
            push_str(&mut out, c.as_str());
            push_str(&mut out, "(");
            push_str(&mut out, tt.as_str());
            push_str(&mut out, ")\n");
            proof {
                reveal_strlit("(");
                assert(out@ =~= spec_decl_case_line(
                    *swift,
                    types@,
                    enum_name@,
                    name@,
                    *v,
                )->Text_0);
            }
            Result::Ok(out)
        },
        Fields::Named(_) => {
            let sname = generate_variant_struct_name(swift, enum_name, name.as_str());
            push_str(&mut out, "    case ");
            push_str(&mut out, c.as_str());
            push_str(&mut out, "(");
            push_str(&mut out, sname.as_str());
            push_str(&mut out, ")\n");
            proof {
                reveal_strlit("(");
                assert(out@ =~= spec_decl_case_line(
                    *swift,
                    types@,
                    enum_name@,
                    name@,
                    *v,
                )->Text_0);
            }
            Result::Ok(out)
        },
        Fields::Unit => Result::Ok(out),
    }
}

/// Render the declared `case` lines of an enum.
fn decl_case_lines(swift: &Swift, types: &TypeCollection, enum_name: &str, e: &EnumType) -> (r:
    Result<String, Error>)
    ensures
        render_of(r) == spec_decl_case_lines(*swift, types@, enum_name@, *e, 0),
{
    let n = e.variants.len();
    let mut out = String::new();
    let mut i: usize = 0;
    while i < n
        invariant
            n == e.variants@.len(),
            i <= n,
            match spec_decl_case_lines(*swift, types@, enum_name@, *e, i as int) {
                Rendered::Text(rest) => spec_decl_case_lines(*swift, types@, enum_name@, *e, 0)
                    == Rendered::Text(out@ + rest),
                Rendered::Fail(f) => spec_decl_case_lines(*swift, types@, enum_name@, *e, 0)
                    == Rendered::Fail(f),
            },
        decreases n - i,
    {
        if !e.variants[i].1.skip {
            match decl_case_line(swift, types, enum_name, &e.variants[i].0, &e.variants[i].1) {
                Result::Err(err) => {
                    return Result::Err(err);
                },
                Result::Ok(line) => {
                    push_str(&mut out, line.as_str());
                    proof {
                        match spec_decl_case_lines(*swift, types@, enum_name@, *e, i + 1) {
                            Rendered::Text(rest2) => {
                                assert(out@ + rest2 =~= spec_decl_case_lines(
                                    *swift,
                                    types@,
                                    enum_name@,
                                    *e,
                                    0,
                                )->Text_0);
                            },
                            Rendered::Fail(f) => {},
                        }
                    }
                },
            }
        }
        i = i + 1;
    }
    Result::Ok(out)
}

/// Render the raw-value case lines of a string-backed enum.
fn string_case_lines(swift: &Swift, e: &EnumType) -> (r: String)
    ensures
        r@ == spec_string_case_lines(*e, 0),
{
    let n = e.variants.len();
    let mut out = String::new();
    let mut i: usize = 0;
    while i < n
        invariant
            n == e.variants@.len(),
            i <= n,
            spec_string_case_lines(*e, 0) == out@ + spec_string_case_lines(*e, i as int),
        decreases n - i,
    {
        if !e.variants[i].1.skip {
            push_str(&mut out, "    case ");
            let c = swift.naming.convert_enum_case(e.variants[i].0.as_str());
            push_str(&mut out, c.as_str());
            push_str(&mut out, " = \"");
            let rule: Option<&str> = match &e.rename_all {
                Option::Some(ra) => Option::Some(ra.as_str()),
                Option::None => Option::None,
            };
            let raw = generate_raw_value(e.variants[i].0.as_str(), rule);
            push_str(&mut out, raw.as_str());
            push_str(&mut out, "\"\n");
            proof {
                assert(spec_string_case_lines(*e, 0) =~= out@ + spec_string_case_lines(
                    *e,
                    i + 1,
                ));
            }
        }
        i = i + 1;
    }
    out
}

/// Does the enum hold an unskipped payload-carrying variant?
fn has_struct_variants(e: &EnumType) -> (r: bool)
    ensures
        r == spec_has_struct_variants(*e),
{
    let n = e.variants.len();
    let mut i: usize = 0;
    while i < n
        invariant
            n == e.variants@.len(),
            i <= n,
            forall|j: int|
                0 <= j < i ==> !(!(#[trigger] e.variants@[j]).1.skip && !spec_unit_like(
                    e.variants@[j].1,
                )),
        decreases n - i,
    {
        if !e.variants[i].1.skip && !crate::codable::unit_like_variant(&e.variants[i].1) {
            return true;
        }
        i = i + 1;
    }
    false
}

/// Render the `<A, B>` generic suffix.
fn generics_suffix(gs: &Vec<String>) -> (r: String)
    ensures
        r@ == spec_generics_suffix(gs@),
{
    let mut out = String::new();
    if gs.len() == 0 {
        return out;
    }
    push_str(&mut out, "<");
    let joined = crate::export::join_names(gs);
    push_str(&mut out, joined.as_str());
    push_str(&mut out, ">");
    proof {
        reveal_strlit("<");
        reveal_strlit(">");
        assert(out@ =~= spec_generics_suffix(gs@));
    }
    out
}

/// Render a struct declaration with its body and optional
/// nullable-field extension.
#[verifier::rlimit(100)]
fn struct_decl_exec(
    swift: &Swift,
    types: &TypeCollection,
    s: &StructType,
    name: &str,
    generics: &str,
    type_def: &str,
) -> (r: Result<String, Error>)
    ensures
        render_of(r) == spec_struct_decl(*swift, types@, *s, name@, generics@, type_def@),
{
    let mut out = String::new();
    push_str(&mut out, "public struct ");
    push_str(&mut out, name);
    push_str(&mut out, generics);
    push_str(&mut out, ": Codable {\n");
    let skip_body = match &s.fields {
        Fields::Named(fs) => fs.len() == 0,
        Fields::Unit => true,
        Fields::Unnamed(_) => false,
    };
    if !skip_body {
        push_str(&mut out, type_def);
    }
    push_str(&mut out, "}");
    let nullable = match &s.fields {
        Fields::Named(fs) => crate::export::has_nullable_named(fs),
        _ => false,
    };
    if nullable {
        match generate_struct_codable_impl(swift, types, s, name) {
            Result::Err(e) => {
                return Result::Err(e);
            },
            Result::Ok(ext) => {
                push_str(&mut out, ext.as_str());
            },
        }
    }
    proof {
        reveal_strlit("}");
        assert(out@ =~= spec_struct_decl(
            *swift,
            types@,
            *s,
            name@,
            generics@,
            type_def@,
        )->Text_0);
    }
    Result::Ok(out)
}

/// Render a string-backed enum declaration.
#[verifier::rlimit(100)]
fn string_enum_decl_exec(
    swift: &Swift,
    e: &EnumType,
    name: &str,
    generics: &str,
    hsv: bool,
    indirect: bool,
) -> (r: String)
    requires
        e.string_enum,
        hsv == spec_has_struct_variants(*e),
    ensures
        spec_enum_decl(*swift, Seq::empty(), *e, name@, generics@, indirect) == Rendered::Text(
            r@,
        ),
{
    let mut out = String::new();
    push_str(&mut out, "public enum ");
    push_str(&mut out, name);
    push_str(&mut out, generics);
    if hsv {
        push_str(&mut out, ": String");
    } else {
        push_str(&mut out, ": String, Codable");
    }
    push_str(&mut out, " {\n");
    let cases = string_case_lines(swift, e);
    push_str(&mut out, cases.as_str());
    push_str(&mut out, "}");
    if hsv {
        push_str(&mut out, "\n\nextension ");
        push_str(&mut out, name);
        push_str(&mut out, ": Codable {\n");
        push_str(
            &mut out,
            "    // struct-like variants of a string-backed enum keep raw-value coding\n",
        );
        push_str(&mut out, "}");
    }
    proof {
        reveal_strlit("}");
        assert(out@ =~= spec_enum_decl(
            *swift,
            Seq::empty(),
            *e,
            name@,
            generics@,
            indirect,
        )->Text_0);
    }
    out
}

/// Render a tagged enum declaration with variant structs and its
/// synthesized `Codable` extension.
#[verifier::rlimit(100)]
fn tagged_enum_decl_exec(
    swift: &Swift,
    types: &TypeCollection,
    e: &EnumType,
    name: &str,
    generics: &str,
    hsv: bool,
    indirect: bool,
) -> (r: Result<String, Error>)
    requires
        !e.string_enum,
        hsv == spec_has_struct_variants(*e),
    ensures
        render_of(r) == spec_enum_decl(*swift, types@, *e, name@, generics@, indirect),
{
    let adjacent = match &e.repr {
        crate::model::Repr::Adjacent { .. } => true,
        _ => false,
    };
    let mut out = String::new();
    if indirect {
        push_str(&mut out, "public indirect enum ");
    } else {
        push_str(&mut out, "public enum ");
    }
    push_str(&mut out, name);
    push_str(&mut out, generics);
    if !(hsv || adjacent) {
        push_str(&mut out, ": Codable");
    }
    push_str(&mut out, " {\n");
    let cases = match decl_case_lines(swift, types, name, e) {
        Result::Err(err) => {
            return Result::Err(err);
        },
        Result::Ok(c) => c,
    };
    push_str(&mut out, cases.as_str());
    push_str(&mut out, "}\n");
    if hsv {
        match generate_enum_variant_structs(swift, types, e, name) {
            Result::Err(err) => {
                return Result::Err(err);
            },
            Result::Ok(structs) => {
                push_str(&mut out, structs.as_str());
            },
        }
    }
    if hsv || adjacent {
        match generate_enum_codable_impl(swift, types, e, name) {
            Result::Err(err) => {
                return Result::Err(err);
            },
            Result::Ok(ext) => {
                push_str(&mut out, ext.as_str());
            },
        }
    }
    proof {
        assert(out@ =~= spec_enum_decl(*swift, types@, *e, name@, generics@, indirect)->Text_0);
    }
    Result::Ok(out)
}

/// Export a single type to Swift under a custom name.
#[verifier::rlimit(100)]
pub fn export_type_with_name(
    swift: &Swift,
    types: &TypeCollection,
    ndt: &NamedDataType,
    custom_name: &str,
) -> (r: Result<String, Error>)
    ensures
        render_of(r) == spec_export_type(*swift, types@, *ndt, custom_name@),
{
    let type_def = match datatype_to_swift(swift, types, &ndt.ty, Option::Some(ndt.sid)) {
        Result::Err(e) => {
            return Result::Err(e);
        },
        Result::Ok(t) => t,
    };
    let mut out = String::new();
    if crate::text::str_len(ndt.docs.as_str()) > 0 {
        let docs = format_doc_comment(ndt.docs.as_str());
        push_str(&mut out, docs.as_str());
    }
    match &ndt.deprecated {
        Option::Some(m) => {
            let dep = format_deprecated(m.as_str());
            push_str(&mut out, dep.as_str());
        },
        Option::None => {},
    }
    proof {
        assert(out@ =~= spec_header(*ndt));
    }
    let name = swift.naming.convert(custom_name);
    let generics = generics_suffix(&ndt.generics);
    match &ndt.ty {
        DataType::Struct(s) => {
            match struct_decl_exec(swift, types, s, name.as_str(), generics.as_str(),
                type_def.as_str()) {
                Result::Err(e) => Result::Err(e),
                Result::Ok(d) => {
                    push_str(&mut out, d.as_str());
                    Result::Ok(out)
                },
            }
        },
        DataType::Enum(e) => {
            let hsv = has_struct_variants(e);
            let indirect = is_recursive_type_reference(&ndt.ty, ndt.sid);
            if e.string_enum {
                let d = string_enum_decl_exec(swift, e, name.as_str(), generics.as_str(), hsv,
                    indirect);
                proof {
                    lemma_string_enum_decl_ctx(*swift, types@, *e, name@, generics@, indirect);
                }
                push_str(&mut out, d.as_str());
                Result::Ok(out)
            } else {
                match tagged_enum_decl_exec(swift, types, e, name.as_str(), generics.as_str(),
                    hsv, indirect) {
                    Result::Err(err) => Result::Err(err),
                    Result::Ok(d) => {
                        push_str(&mut out, d.as_str());
                        Result::Ok(out)
                    },
                }
            }
        },
        _ => {
            push_str(&mut out, type_def.as_str());
            Result::Ok(out)
        },
    }
}

/// A string-backed enum declaration reads no registered types, so its
/// rendering does not depend on the collection.
proof fn lemma_string_enum_decl_ctx(
    cfg: Swift,
    ts: Seq<NamedDataType>,
    e: EnumType,
    name: Seq<char>,
    generics: Seq<char>,
    indirect: bool,
)
    requires
        e.string_enum,
    ensures
        spec_enum_decl(cfg, ts, e, name, generics, indirect) == spec_enum_decl(
            cfg,
            Seq::empty(),
            e,
            name,
            generics,
            indirect,
        ),
{
}

} // verus!
