//! Synthesized `Codable` conformances.
//!
//! Swift's derived coding cannot express externally tagged unions,
//! adjacently tagged unions, positional tuple payloads or explicit
//! `null` for absent optionals, so explicit `init(from:)` and
//! `encode(to:)` procedures are emitted for those shapes.

use vstd::prelude::*;

use crate::config::{render_of, spec_convert_enum_case, spec_convert_field, ErrView, Error,
    Rendered, Swift};
use crate::export::{count_present, spec_datatype};
use crate::model::{DataType, EnumType, Field, Fields, NamedDataType, Repr, StructType,
    TypeCollection, Variant};
use crate::text::{push_str, spec_dec_int, str_to_string, u64_to_dec};
use crate::variant_naming::{generate_variant_struct_name, spec_variant_struct_name};

verus! {

/// The rendered Swift type of a field, with the enclosing identity
/// never in context.
pub open spec fn field_type_of(cfg: Swift, ts: Seq<NamedDataType>, f: Field) -> Rendered {
    match f.ty {
        Option::Some(t) => spec_datatype(cfg, ts, t, Option::None),
        Option::None => Rendered::Text(Seq::empty()),
    }
}

/// The base type of a nullable field: its rendered type with a
/// trailing `?` removed.
pub open spec fn base_type_of(f: Field, t: Seq<char>) -> Seq<char> {
    if (f.ty matches Some(ty) && ty is Nullable) && t.len() > 0 && t[t.len() - 1] == '?' {
        t.drop_last()
    } else {
        t
    }
}

/// `case name = "wire"` coding-key lines for the present named fields,
/// indented for an extension.
pub open spec fn spec_ext_key_lines(fs: Seq<(String, Field)>, i: int) -> Seq<char>
    decreases fs.len() - i,
{
    if i < 0 || i >= fs.len() {
        Seq::empty()
    } else if fs[i].1.ty is Some {
        "        case "@ + spec_convert_field(fs[i].0@) + " = \""@ + fs[i].0@ + "\"\n"@
            + spec_ext_key_lines(fs, i + 1)
    } else {
        spec_ext_key_lines(fs, i + 1)
    }
}

/// The decode lines of a struct's custom `init(from:)`: optionals use
/// `decodeIfPresent`, the rest `decode`, each on the base type.
pub open spec fn spec_struct_decode_lines(
    cfg: Swift,
    ts: Seq<NamedDataType>,
    fs: Seq<(String, Field)>,
    i: int,
) -> Rendered
    decreases fs.len() - i,
{
    if i < 0 || i >= fs.len() {
        Rendered::Text(Seq::empty())
    } else if fs[i].1.ty is Some {
        match field_type_of(cfg, ts, fs[i].1) {
            Rendered::Fail(f) => Rendered::Fail(f),
            Rendered::Text(t) => match spec_struct_decode_lines(cfg, ts, fs, i + 1) {
                Rendered::Fail(f) => Rendered::Fail(f),
                Rendered::Text(rest) => {
                    let cf = spec_convert_field(fs[i].0@);
                    let base = base_type_of(fs[i].1, t);
                    let op = if fs[i].1.ty->Some_0 is Nullable {
                        " = try container.decodeIfPresent("@
                    } else {
                        " = try container.decode("@
                    };
                    Rendered::Text(
                        "        "@ + cf + op + base + ".self, forKey: ."@ + cf + ")\n"@ + rest,
                    )
                },
            },
        }
    } else {
        spec_struct_decode_lines(cfg, ts, fs, i + 1)
    }
}

/// The encode lines of a struct's custom `encode(to:)`: plain
/// `encode` for every field, preserving `nil` as explicit `null`.
pub open spec fn spec_struct_encode_lines(fs: Seq<(String, Field)>, i: int) -> Seq<char>
    decreases fs.len() - i,
{
    if i < 0 || i >= fs.len() {
        Seq::empty()
    } else if fs[i].1.ty is Some {
        "        try container.encode("@ + spec_convert_field(fs[i].0@) + ", forKey: ."@
            + spec_convert_field(fs[i].0@) + ")\n"@ + spec_struct_encode_lines(fs, i + 1)
    } else {
        spec_struct_encode_lines(fs, i + 1)
    }
}

/// The custom `Codable` extension of a struct with nullable fields.
pub open spec fn spec_struct_codable(
    cfg: Swift,
    ts: Seq<NamedDataType>,
    s: StructType,
    name: Seq<char>,
) -> Rendered {
    match s.fields {
        Fields::Named(fs) => match spec_struct_decode_lines(cfg, ts, fs@, 0) {
            Rendered::Fail(f) => Rendered::Fail(f),
            Rendered::Text(decode_lines) => Rendered::Text(
                "\n// MARK: - "@ + name + " Custom Codable Implementation\n"@ + "extension "@
                    + name + " {\n"@ + "    private enum CodingKeys: String, CodingKey {\n"@
                    + spec_ext_key_lines(fs@, 0) + "    }\n\n"@
                    + "    public init(from decoder: Decoder) throws {\n"@
                    + "        let container = try decoder.container(keyedBy: CodingKeys.self)\n"@
                    + decode_lines + "    }\n\n"@
                    + "    public func encode(to encoder: Encoder) throws {\n"@
                    + "        var container = encoder.container(keyedBy: CodingKeys.self)\n"@
                    + spec_struct_encode_lines(fs@, 0) + "    }\n"@ + "}\n"@,
            ),
        },
        _ => Rendered::Text(Seq::empty()),
    }
}

/// Generate the custom `Codable` implementation that keeps absent
/// optionals as explicit `null` on the wire.
pub fn generate_struct_codable_impl(
    swift: &Swift,
    types: &TypeCollection,
    s: &StructType,
    struct_name: &str,
) -> (r: Result<String, Error>)
    ensures
        render_of(r) == spec_struct_codable(*swift, types@, *s, struct_name@),
{
    match &s.fields {
        Fields::Named(fs) => {
            let decode_lines = match struct_decode_lines(swift, types, fs) {
                Result::Err(e) => {
                    return Result::Err(e);
                },
                Result::Ok(d) => d,
            };
            let mut out = String::new();
            push_str(&mut out, "\n// MARK: - ");
            push_str(&mut out, struct_name);
            push_str(&mut out, " Custom Codable Implementation\n");
            push_str(&mut out, "extension ");
            push_str(&mut out, struct_name);
            push_str(&mut out, " {\n");
            push_str(&mut out, "    private enum CodingKeys: String, CodingKey {\n");
            let keys = ext_key_lines(swift, fs);
            push_str(&mut out, keys.as_str());
            push_str(&mut out, "    }\n\n");
            push_str(&mut out, "    public init(from decoder: Decoder) throws {\n");
            push_str(
                &mut out,
                "        let container = try decoder.container(keyedBy: CodingKeys.self)\n",
            );
            push_str(&mut out, decode_lines.as_str());
            push_str(&mut out, "    }\n\n");
            push_str(&mut out, "    public func encode(to encoder: Encoder) throws {\n");
            push_str(
                &mut out,
                "        var container = encoder.container(keyedBy: CodingKeys.self)\n",
            );
            let enc = struct_encode_lines(swift, fs);
            push_str(&mut out, enc.as_str());
            push_str(&mut out, "    }\n");
            push_str(&mut out, "}\n");
            proof {
                assert(out@ =~= spec_struct_codable(*swift, types@, *s, struct_name@)->Text_0);
            }
            Result::Ok(out)
        },
        _ => Result::Ok(String::new()),
    }
}

/// Render the coding-key lines of an extension.
fn ext_key_lines(swift: &Swift, fs: &Vec<(String, Field)>) -> (r: String)
    ensures
        r@ == spec_ext_key_lines(fs@, 0),
{
    let n = fs.len();
    let mut out = String::new();
    let mut i: usize = 0;
    while i < n
        invariant
            n == fs@.len(),
            i <= n,
            spec_ext_key_lines(fs@, 0) == out@ + spec_ext_key_lines(fs@, i as int),
        decreases n - i,
    {
        let present = match &fs[i].1.ty {
            Option::Some(_) => true,
            Option::None => false,
        };
        if present {
            push_str(&mut out, "        case ");
            let cf = swift.naming.convert_field(fs[i].0.as_str());
            push_str(&mut out, cf.as_str());
            push_str(&mut out, " = \"");
            push_str(&mut out, fs[i].0.as_str());
            push_str(&mut out, "\"\n");
            proof {
                assert(spec_ext_key_lines(fs@, 0) =~= out@ + spec_ext_key_lines(fs@, i + 1));
            }
        }
        i = i + 1;
    }
    out
}

/// Render the decode lines of a struct's custom initializer.
fn struct_decode_lines(swift: &Swift, types: &TypeCollection, fs: &Vec<(String, Field)>) -> (r:
    Result<String, Error>)
    ensures
        render_of(r) == spec_struct_decode_lines(*swift, types@, fs@, 0),
{
    let n = fs.len();
    let mut out = String::new();
    let mut i: usize = 0;
    while i < n
        invariant
            n == fs@.len(),
            i <= n,
            match spec_struct_decode_lines(*swift, types@, fs@, i as int) {
                Rendered::Text(rest) => spec_struct_decode_lines(*swift, types@, fs@, 0)
                    == Rendered::Text(out@ + rest),
                Rendered::Fail(f) => spec_struct_decode_lines(*swift, types@, fs@, 0)
                    == Rendered::Fail(f),
            },
        decreases n - i,
    {
        match &fs[i].1.ty {
            Option::None => {},
            Option::Some(t) => {
                let is_nullable = match t {
                    DataType::Nullable(_) => true,
                    _ => false,
                };
                match crate::export::datatype_to_swift(swift, types, t, Option::None) {
                    Result::Err(e) => {
                        return Result::Err(e);
                    },
                    Result::Ok(tt) => {
                        let cf = swift.naming.convert_field(fs[i].0.as_str());
                        let tlen = crate::text::str_len(tt.as_str());
                        let base: String = if is_nullable && tlen > 0 && crate::text::char_at(
                            tt.as_str(),
                            tlen - 1,
                        ) == '?' {
                            let b = tt.as_str().substring_char(0, tlen - 1);
                            str_to_string(b)
                        } else {
                            str_to_string(tt.as_str())
                        };
                        proof {
                            assert(base@ =~= base_type_of(fs@[i as int].1, tt@));
                        }
                        push_str(&mut out, "        ");
                        push_str(&mut out, cf.as_str());
                        if is_nullable {
                            push_str(&mut out, " = try container.decodeIfPresent(");
                        } else {
                            push_str(&mut out, " = try container.decode(");
                        }
                        push_str(&mut out, base.as_str());
                        push_str(&mut out, ".self, forKey: .");
                        push_str(&mut out, cf.as_str());
                        push_str(&mut out, ")\n");
                        proof {
                            match spec_struct_decode_lines(*swift, types@, fs@, i + 1) {
                                Rendered::Text(rest2) => {
                                    assert(out@ + rest2 =~= spec_struct_decode_lines(
                                        *swift,
                                        types@,
                                        fs@,
                                        0,
                                    )->Text_0);
                                },
                                Rendered::Fail(f) => {},
                            }
                        }
                    },
                }
            },
        }
        i = i + 1;
    }
    Result::Ok(out)
}

/// Render the encode lines of a struct's custom encoder.
fn struct_encode_lines(swift: &Swift, fs: &Vec<(String, Field)>) -> (r: String)
    ensures
        r@ == spec_struct_encode_lines(fs@, 0),
{
    let n = fs.len();
    let mut out = String::new();
    let mut i: usize = 0;
    while i < n
        invariant
            n == fs@.len(),
            i <= n,
            spec_struct_encode_lines(fs@, 0) == out@ + spec_struct_encode_lines(fs@, i as int),
        decreases n - i,
    {
        let present = match &fs[i].1.ty {
            Option::Some(_) => true,
            Option::None => false,
        };
        if present {
            push_str(&mut out, "        try container.encode(");
            let cf = swift.naming.convert_field(fs[i].0.as_str());
            push_str(&mut out, cf.as_str());
            push_str(&mut out, ", forKey: .");
            push_str(&mut out, cf.as_str());
            push_str(&mut out, ")\n");
            proof {
                assert(spec_struct_encode_lines(fs@, 0) =~= out@ + spec_struct_encode_lines(
                    fs@,
                    i + 1,
                ));
            }
        }
        i = i + 1;
    }
    out
}

/// `case name = "WireName"` lines of the unskipped variants, for a
/// coding-keys or raw-value enum at eight-space indent.
pub open spec fn spec_enum_key_lines(vs: Seq<(String, Variant)>, i: int) -> Seq<char>
    decreases vs.len() - i,
{
    if i < 0 || i >= vs.len() {
        Seq::empty()
    } else if vs[i].1.skip {
        spec_enum_key_lines(vs, i + 1)
    } else {
        "        case "@ + spec_convert_enum_case(vs[i].0@) + " = \""@ + vs[i].0@ + "\"\n"@
            + spec_enum_key_lines(vs, i + 1)
    }
}

/// Render the variant coding-key lines.
fn enum_key_lines(swift: &Swift, vs: &Vec<(String, Variant)>) -> (r: String)
    ensures
        r@ == spec_enum_key_lines(vs@, 0),
{
    let n = vs.len();
    let mut out = String::new();
    let mut i: usize = 0;
    while i < n
        invariant
            n == vs@.len(),
            i <= n,
            spec_enum_key_lines(vs@, 0) == out@ + spec_enum_key_lines(vs@, i as int),
        decreases n - i,
    {
        if !vs[i].1.skip {
            push_str(&mut out, "        case ");
            let c = swift.naming.convert_enum_case(vs[i].0.as_str());
            push_str(&mut out, c.as_str());
            push_str(&mut out, " = \"");
            push_str(&mut out, vs[i].0.as_str());
            push_str(&mut out, "\"\n");
            proof {
                assert(spec_enum_key_lines(vs@, 0) =~= out@ + spec_enum_key_lines(vs@, i + 1));
            }
        }
        i = i + 1;
    }
    out
}

/// `value{k}, value{k+1}, …, value{c-1}` joined with `, `.
pub open spec fn spec_value_list(k: int, c: int) -> Seq<char>
    decreases c - k,
{
    if k < 0 || k >= c {
        Seq::empty()
    } else if k == c - 1 {
        "value"@ + spec_dec_int(k)
    } else {
        "value"@ + spec_dec_int(k) + ", "@ + spec_value_list(k + 1, c)
    }
}

/// `let value{k}, …, let value{c-1}` joined with `, `.
pub open spec fn spec_value_bindings(k: int, c: int) -> Seq<char>
    decreases c - k,
{
    if k < 0 || k >= c {
        Seq::empty()
    } else if k == c - 1 {
        "let value"@ + spec_dec_int(k)
    } else {
        "let value"@ + spec_dec_int(k) + ", "@ + spec_value_bindings(k + 1, c)
    }
}

/// Render `value{k}..value{c-1}` joined with `, `, with `let `
/// prefixes when asked.
fn value_list_exec(c: usize, bindings: bool) -> (r: String)
    ensures
        bindings ==> r@ == spec_value_bindings(0, c as int),
        !bindings ==> r@ == spec_value_list(0, c as int),
{
    let mut out = String::new();
    let mut k: usize = 0;
    while k < c
        invariant
            k <= c,
            bindings ==> spec_value_bindings(0, c as int) == out@ + spec_value_bindings(
                k as int,
                c as int,
            ),
            !bindings ==> spec_value_list(0, c as int) == out@ + spec_value_list(
                k as int,
                c as int,
            ),
        decreases c - k,
    {
        if bindings {
            push_str(&mut out, "let value");
        } else {
            push_str(&mut out, "value");
        }
        let num = u64_to_dec(k as u64);
        push_str(&mut out, num.as_str());
        if k + 1 < c {
            push_str(&mut out, ", ");
        }
        proof {
            if bindings {
                assert(spec_value_bindings(0, c as int) =~= out@ + spec_value_bindings(
                    k + 1,
                    c as int,
                ));
            } else {
                assert(spec_value_list(0, c as int) =~= out@ + spec_value_list(k + 1, c as int));
            }
        }
        k = k + 1;
    }
    out
}

/// The `let value{k} = try arrayContainer.decode(T.self)` lines of a
/// tuple payload's present fields, at the given indent.
pub open spec fn spec_decode_value_lines(
    cfg: Swift,
    ts: Seq<NamedDataType>,
    fs: Seq<Field>,
    i: int,
    k: int,
    indent: Seq<char>,
) -> Rendered
    decreases fs.len() - i,
{
    if i < 0 || i >= fs.len() {
        Rendered::Text(Seq::empty())
    } else {
        match fs[i].ty {
            Option::None => spec_decode_value_lines(cfg, ts, fs, i + 1, k, indent),
            Option::Some(t) => match spec_datatype(cfg, ts, t, Option::None) {
                Rendered::Fail(f) => Rendered::Fail(f),
                Rendered::Text(tt) => match spec_decode_value_lines(
                    cfg,
                    ts,
                    fs,
                    i + 1,
                    k + 1,
                    indent,
                ) {
                    Rendered::Fail(f) => Rendered::Fail(f),
                    Rendered::Text(rest) => Rendered::Text(
                        indent + "let value"@ + spec_dec_int(k)
                            + " = try arrayContainer.decode("@ + tt + ".self)\n"@ + rest,
                    ),
                },
            },
        }
    }
}

/// Render the decode lines of a tuple payload.
fn decode_value_lines(
    swift: &Swift,
    types: &TypeCollection,
    fs: &Vec<Field>,
    indent: &str,
) -> (r: Result<String, Error>)
    ensures
        render_of(r) == spec_decode_value_lines(*swift, types@, fs@, 0, 0, indent@),
{
    let n = fs.len();
    let mut out = String::new();
    let mut k: usize = 0;
    let mut i: usize = 0;
    while i < n
        invariant
            n == fs@.len(),
            i <= n,
            k == count_present(fs@, i as int),
            k <= i,
            match spec_decode_value_lines(*swift, types@, fs@, i as int, k as int, indent@) {
                Rendered::Text(rest) => spec_decode_value_lines(*swift, types@, fs@, 0, 0, indent@)
                    == Rendered::Text(out@ + rest),
                Rendered::Fail(f) => spec_decode_value_lines(*swift, types@, fs@, 0, 0, indent@)
                    == Rendered::Fail(f),
            },
        decreases n - i,
    {
        match &fs[i].ty {
            Option::None => {},
            Option::Some(t) => {
                match crate::export::datatype_to_swift(swift, types, t, Option::None) {
                    Result::Err(e) => {
                        return Result::Err(e);
                    },
                    Result::Ok(tt) => {
                        push_str(&mut out, indent);
                        push_str(&mut out, "let value");
                        let num = u64_to_dec(k as u64);
                        push_str(&mut out, num.as_str());
                        push_str(&mut out, " = try arrayContainer.decode(");
                        push_str(&mut out, tt.as_str());
                        push_str(&mut out, ".self)\n");
                        proof {
                            match spec_decode_value_lines(*swift, types@, fs@, i + 1, k + 1,
                                indent@) {
                                Rendered::Text(rest2) => {
                                    assert(out@ + rest2 =~= spec_decode_value_lines(
                                        *swift,
                                        types@,
                                        fs@,
                                        0,
                                        0,
                                        indent@,
                                    )->Text_0);
                                },
                                Rendered::Fail(f) => {},
                            }
                        }
                        k = k + 1;
                    },
                }
            },
        }
        i = i + 1;
    }
    Result::Ok(out)
}

/// A variant is unit-like on the wire: unit fields, or an unnamed
/// payload with no present field.
pub open spec fn spec_unit_like(v: Variant) -> bool {
    match v.fields {
        Fields::Unit => true,
        Fields::Unnamed(fs) => count_present(fs@, fs@.len() as int) == 0,
        Fields::Named(fs) => false,
    }
}

pub fn unit_like_variant(v: &Variant) -> (r: bool)
    ensures
        r == spec_unit_like(*v),
{
    match &v.fields {
        Fields::Unit => true,
        Fields::Unnamed(fs) => {
            let n = fs.len();
            let mut i: usize = 0;
            while i < n
                invariant
                    v.fields == Fields::Unnamed(*fs),
                    n == fs@.len(),
                    i <= n,
                    count_present(fs@, i as int) == 0,
                decreases n - i,
            {
                match &fs[i].ty {
                    Option::Some(_) => {
                        proof {
                            crate::export::lemma_count_present_mono(fs@, i + 1, fs@.len() as int);
                        }
                        return false;
                    },
                    Option::None => {},
                }
                i = i + 1;
            }
            true
        },
        Fields::Named(_) => false,
    }
}

/// One arm of the externally tagged decoder's keyed switch.
pub open spec fn spec_ext_decode_arm(
    cfg: Swift,
    ts: Seq<NamedDataType>,
    enum_name: Seq<char>,
    name: Seq<char>,
    v: Variant,
) -> Rendered {
    let c = spec_convert_enum_case(name);
    if spec_unit_like(v) {
        Rendered::Text(
            "                case ."@ + c + ":\n"@ + "                    self = ."@ + c + "\n"@
                + "                    return\n"@,
        )
    } else {
        match v.fields {
            Fields::Unnamed(fs) => match spec_decode_value_lines(
                cfg,
                ts,
                fs@,
                0,
                0,
                "                    "@,
            ) {
                Rendered::Fail(f) => Rendered::Fail(f),
                Rendered::Text(lines) => Rendered::Text(
                    "                case ."@ + c + ":\n"@
                        + "                    var arrayContainer = try container.nestedUnkeyedContainer(forKey: ."@
                        + c + ")\n"@ + lines + "                    self = ."@ + c + seq!['(']
                        + spec_value_list(0, count_present(fs@, fs@.len() as int)) + ")\n"@
                        + "                    return\n"@,
                ),
            },
            Fields::Named(fs) => Rendered::Text(
                "                case ."@ + c + ":\n"@
                    + "                    let data = try container.decode("@
                    + spec_variant_struct_name(cfg.struct_naming, cfg.naming, enum_name, name)
                    + ".self, forKey: ."@ + c + ")\n"@ + "                    self = ."@ + c
                    + "(data)\n"@ + "                    return\n"@,
            ),
            Fields::Unit => Rendered::Text(Seq::empty()),
        }
    }
}

/// Render one arm of the externally tagged decoder's keyed switch.
fn ext_decode_arm(
    swift: &Swift,
    types: &TypeCollection,
    enum_name: &str,
    name: &String,
    v: &Variant,
) -> (r: Result<String, Error>)
    ensures
        render_of(r) == spec_ext_decode_arm(*swift, types@, enum_name@, name@, *v),
{
    let c = swift.naming.convert_enum_case(name.as_str());
    let mut out = String::new();
    if unit_like_variant(v) {
        push_str(&mut out, "                case .");
        push_str(&mut out, c.as_str());
        push_str(&mut out, ":\n");
        push_str(&mut out, "                    self = .");
        push_str(&mut out, c.as_str());
        push_str(&mut out, "\n");
        push_str(&mut out, "                    return\n");
        proof {
            assert(out@ =~= spec_ext_decode_arm(*swift, types@, enum_name@, name@, *v)->Text_0);
        }
        return Result::Ok(out);
    }
    match &v.fields {
        Fields::Unnamed(fs) => {
            let lines = match decode_value_lines(swift, types, fs, "                    ") {
                Result::Err(e) => {
                    return Result::Err(e);
                },
                Result::Ok(l) => l,
            };
            let present = crate::export::count_present_fields(fs);
            push_str(&mut out, "                case .");
            push_str(&mut out, c.as_str());
            push_str(&mut out, ":\n");
            push_str(
                &mut out,
                "                    var arrayContainer = try container.nestedUnkeyedContainer(forKey: .",
            );
            push_str(&mut out, c.as_str());
            push_str(&mut out, ")\n");
            push_str(&mut out, lines.as_str());
            push_str(&mut out, "                    self = .");
            push_str(&mut out, c.as_str());
            push_str(&mut out, "(");
            let vl = value_list_exec(present, false);
            push_str(&mut out, vl.as_str());
            push_str(&mut out, ")\n");
            push_str(&mut out, "                    return\n");
            proof {
                reveal_strlit("(");
                assert(out@ =~= spec_ext_decode_arm(
                    *swift,
                    types@,
                    enum_name@,
                    name@,
                    *v,
                )->Text_0);
            }
            Result::Ok(out)
        },
        Fields::Named(_) => {
            let sname = generate_variant_struct_name(swift, enum_name, name.as_str());
            push_str(&mut out, "                case .");
            push_str(&mut out, c.as_str());
            push_str(&mut out, ":\n");
            push_str(&mut out, "                    let data = try container.decode(");
            push_str(&mut out, sname.as_str());
            push_str(&mut out, ".self, forKey: .");
            push_str(&mut out, c.as_str());
            push_str(&mut out, ")\n");
            push_str(&mut out, "                    self = .");
            push_str(&mut out, c.as_str());
            push_str(&mut out, "(data)\n");
            push_str(&mut out, "                    return\n");
            proof {
                assert(out@ =~= spec_ext_decode_arm(
                    *swift,
                    types@,
                    enum_name@,
                    name@,
                    *v,
                )->Text_0);
            }
            Result::Ok(out)
        },
        Fields::Unit => Result::Ok(out),
    }
}

/// The arms of the externally tagged decoder's keyed switch, for the
/// unskipped variants from `i` on.
pub open spec fn spec_ext_decode_arms(
    cfg: Swift,
    ts: Seq<NamedDataType>,
    enum_name: Seq<char>,
    vs: Seq<(String, Variant)>,
    i: int,
) -> Rendered
    decreases vs.len() - i,
{
    if i < 0 || i >= vs.len() {
        Rendered::Text(Seq::empty())
    } else if vs[i].1.skip {
        spec_ext_decode_arms(cfg, ts, enum_name, vs, i + 1)
    } else {
        match spec_ext_decode_arm(cfg, ts, enum_name, vs[i].0@, vs[i].1) {
            Rendered::Fail(f) => Rendered::Fail(f),
            Rendered::Text(arm) => match spec_ext_decode_arms(cfg, ts, enum_name, vs, i + 1) {
                Rendered::Fail(f) => Rendered::Fail(f),
                Rendered::Text(rest) => Rendered::Text(arm + rest),
            },
        }
    }
}

/// Render the keyed-switch decode arms.
fn ext_decode_arms(
    swift: &Swift,
    types: &TypeCollection,
    enum_name: &str,
    vs: &Vec<(String, Variant)>,
) -> (r: Result<String, Error>)
    ensures
        render_of(r) == spec_ext_decode_arms(*swift, types@, enum_name@, vs@, 0),
{
    let n = vs.len();
    let mut out = String::new();
    let mut i: usize = 0;
    while i < n
        invariant
            n == vs@.len(),
            i <= n,
            match spec_ext_decode_arms(*swift, types@, enum_name@, vs@, i as int) {
                Rendered::Text(rest) => spec_ext_decode_arms(*swift, types@, enum_name@, vs@, 0)
                    == Rendered::Text(out@ + rest),
                Rendered::Fail(f) => spec_ext_decode_arms(*swift, types@, enum_name@, vs@, 0)
                    == Rendered::Fail(f),
            },
        decreases n - i,
    {
        if !vs[i].1.skip {
            match ext_decode_arm(swift, types, enum_name, &vs[i].0, &vs[i].1) {
                Result::Err(e) => {
                    return Result::Err(e);
                },
                Result::Ok(arm) => {
                    push_str(&mut out, arm.as_str());
                    proof {
                        match spec_ext_decode_arms(*swift, types@, enum_name@, vs@, i + 1) {
                            Rendered::Text(rest2) => {
                                assert(out@ + rest2 =~= spec_ext_decode_arms(
                                    *swift,
                                    types@,
                                    enum_name@,
                                    vs@,
                                    0,
                                )->Text_0);
                            },
                            Rendered::Fail(f) => {},
                        }
                    }
                },
            }
        }
        i = i + 1;
    }
    Result::Ok(out)
}

/// The bare-string fallback arms: each unit-like unskipped variant
/// decodes from its wire name.
pub open spec fn spec_string_fallback_arms(vs: Seq<(String, Variant)>, i: int) -> Seq<char>
    decreases vs.len() - i,
{
    if i < 0 || i >= vs.len() {
        Seq::empty()
    } else if !vs[i].1.skip && spec_unit_like(vs[i].1) {
        "                case \""@ + vs[i].0@ + "\":\n"@ + "                    self = ."@
            + spec_convert_enum_case(vs[i].0@) + "\n"@ + "                    return\n"@
            + spec_string_fallback_arms(vs, i + 1)
    } else {
        spec_string_fallback_arms(vs, i + 1)
    }
}

/// Render the bare-string fallback arms.
fn string_fallback_arms(swift: &Swift, vs: &Vec<(String, Variant)>) -> (r: String)
    ensures
        r@ == spec_string_fallback_arms(vs@, 0),
{
    let n = vs.len();
    let mut out = String::new();
    let mut i: usize = 0;
    while i < n
        invariant
            n == vs@.len(),
            i <= n,
            spec_string_fallback_arms(vs@, 0) == out@ + spec_string_fallback_arms(vs@, i as int),
        decreases n - i,
    {
        if !vs[i].1.skip && unit_like_variant(&vs[i].1) {
            push_str(&mut out, "                case \"");
            push_str(&mut out, vs[i].0.as_str());
            push_str(&mut out, "\":\n");
            push_str(&mut out, "                    self = .");
            let c = swift.naming.convert_enum_case(vs[i].0.as_str());
            push_str(&mut out, c.as_str());
            push_str(&mut out, "\n");
            push_str(&mut out, "                    return\n");
            proof {
                reveal_strlit("\n");
                assert(spec_string_fallback_arms(vs@, 0) =~= out@ + spec_string_fallback_arms(
                    vs@,
                    i + 1,
                ));
            }
        }
        i = i + 1;
    }
    out
}

/// One arm of the externally tagged encoder's switch.
pub open spec fn spec_ext_encode_arm(cfg: Swift, name: Seq<char>, v: Variant) -> Seq<char> {
    let c = spec_convert_enum_case(name);
    if spec_unit_like(v) {
        "        case ."@ + c + ":\n"@ + "            try container.encodeNil(forKey: ."@ + c
            + ")\n"@
    } else {
        match v.fields {
            Fields::Unnamed(fs) => {
                let cnt = count_present(fs@, fs@.len() as int);
                "        case ."@ + c + seq!['('] + spec_value_bindings(0, cnt) + "):\n"@
                    + "            var arrayContainer = container.nestedUnkeyedContainer(forKey: ."@
                    + c + ")\n"@ + spec_encode_value_lines(0, cnt)
            },
            Fields::Named(fs) => "        case ."@ + c + "(let data):\n"@
                + "            try container.encode(data, forKey: ."@ + c + ")\n"@,
            Fields::Unit => Seq::empty(),
        }
    }
}

/// The `try arrayContainer.encode(value{k})` lines.
pub open spec fn spec_encode_value_lines(k: int, c: int) -> Seq<char>
    decreases c - k,
{
    if k < 0 || k >= c {
        Seq::empty()
    } else {
        "            try arrayContainer.encode(value"@ + spec_dec_int(k) + ")\n"@
            + spec_encode_value_lines(k + 1, c)
    }
}

fn encode_value_lines(c: usize) -> (r: String)
    ensures
        r@ == spec_encode_value_lines(0, c as int),
{
    let mut out = String::new();
    let mut k: usize = 0;
    while k < c
        invariant
            k <= c,
            spec_encode_value_lines(0, c as int) == out@ + spec_encode_value_lines(
                k as int,
                c as int,
            ),
        decreases c - k,
    {
        push_str(&mut out, "            try arrayContainer.encode(value");
        let num = u64_to_dec(k as u64);
        push_str(&mut out, num.as_str());
        push_str(&mut out, ")\n");
        proof {
            assert(spec_encode_value_lines(0, c as int) =~= out@ + spec_encode_value_lines(
                k + 1,
                c as int,
            ));
        }
        k = k + 1;
    }
    out
}

/// Render one encode arm of the externally tagged encoder.
fn ext_encode_arm(swift: &Swift, name: &String, v: &Variant) -> (r: String)
    ensures
        r@ == spec_ext_encode_arm(*swift, name@, *v),
{
    let c = swift.naming.convert_enum_case(name.as_str());
    let mut out = String::new();
    if unit_like_variant(v) {
        push_str(&mut out, "        case .");
        push_str(&mut out, c.as_str());
        push_str(&mut out, ":\n");
        push_str(&mut out, "            try container.encodeNil(forKey: .");
        push_str(&mut out, c.as_str());
        push_str(&mut out, ")\n");
        proof {
            assert(out@ =~= spec_ext_encode_arm(*swift, name@, *v));
        }
        return out;
    }
    match &v.fields {
        Fields::Unnamed(fs) => {
            let present = crate::export::count_present_fields(fs);
            push_str(&mut out, "        case .");
            push_str(&mut out, c.as_str());
            push_str(&mut out, "(");
            let vb = value_list_exec(present, true);
            push_str(&mut out, vb.as_str());
            push_str(&mut out, "):\n");
            push_str(
                &mut out,
                "            var arrayContainer = container.nestedUnkeyedContainer(forKey: .",
            );
            push_str(&mut out, c.as_str());
            push_str(&mut out, ")\n");
            let evl = encode_value_lines(present);
            push_str(&mut out, evl.as_str());
            proof {
                reveal_strlit("(");
                assert(out@ =~= spec_ext_encode_arm(*swift, name@, *v));
            }
            out
        },
        Fields::Named(_) => {
            push_str(&mut out, "        case .");
            push_str(&mut out, c.as_str());
            push_str(&mut out, "(let data):\n");
            push_str(&mut out, "            try container.encode(data, forKey: .");
            push_str(&mut out, c.as_str());
            push_str(&mut out, ")\n");
            proof {
                assert(out@ =~= spec_ext_encode_arm(*swift, name@, *v));
            }
            out
        },
        Fields::Unit => out,
    }
}

/// The encode arms of the unskipped variants from `i` on.
pub open spec fn spec_ext_encode_arms(cfg: Swift, vs: Seq<(String, Variant)>, i: int) -> Seq<char>
    decreases vs.len() - i,
{
    if i < 0 || i >= vs.len() {
        Seq::empty()
    } else if vs[i].1.skip {
        spec_ext_encode_arms(cfg, vs, i + 1)
    } else {
        spec_ext_encode_arm(cfg, vs[i].0@, vs[i].1) + spec_ext_encode_arms(cfg, vs, i + 1)
    }
}

/// Render the encode arms.
fn ext_encode_arms(swift: &Swift, vs: &Vec<(String, Variant)>) -> (r: String)
    ensures
        r@ == spec_ext_encode_arms(*swift, vs@, 0),
{
    let n = vs.len();
    let mut out = String::new();
    let mut i: usize = 0;
    while i < n
        invariant
            n == vs@.len(),
            i <= n,
            spec_ext_encode_arms(*swift, vs@, 0) == out@ + spec_ext_encode_arms(
                *swift,
                vs@,
                i as int,
            ),
        decreases n - i,
    {
        if !vs[i].1.skip {
            let arm = ext_encode_arm(swift, &vs[i].0, &vs[i].1);
            push_str(&mut out, arm.as_str());
            proof {
                assert(spec_ext_encode_arms(*swift, vs@, 0) =~= out@ + spec_ext_encode_arms(
                    *swift,
                    vs@,
                    i + 1,
                ));
            }
        }
        i = i + 1;
    }
    out
}

/// The complete externally tagged `Codable` extension: keyed decode
/// with a single-key dispatch, a bare-string fallback for unit-like
/// variants, a corruption error otherwise, and an encoder that always
/// writes exactly one key with explicit `null` for unit payloads.
pub open spec fn spec_external_codable(
    cfg: Swift,
    ts: Seq<NamedDataType>,
    e: EnumType,
    name: Seq<char>,
) -> Rendered {
    match spec_ext_decode_arms(cfg, ts, name, e.variants@, 0) {
        Rendered::Fail(f) => Rendered::Fail(f),
        Rendered::Text(dec) => Rendered::Text(
            "\n// MARK: - "@ + name + " Codable Implementation\n"@ + "extension "@ + name
                + ": Codable {\n"@ + "    private enum CodingKeys: String, CodingKey {\n"@
                + spec_enum_key_lines(e.variants@, 0) + "    }\n\n"@
                + "    public init(from decoder: Decoder) throws {\n"@
                + "        // Try externally-tagged format first (e.g., {\"WaitingForConnection\": null})\n"@
                + "        if let container = try? decoder.container(keyedBy: CodingKeys.self) {\n"@
                + "            if container.allKeys.count == 1 {\n"@
                + "                let key = container.allKeys.first!\n"@
                + "                switch key {\n"@ + dec + "                }\n"@
                + "                return\n"@ + "            }\n"@ + "        }\n"@ + "        \n"@
                + "        // Fallback: try decoding as plain string for unit variants (serde default)\n"@
                + "        if let stringContainer = try? decoder.singleValueContainer() {\n"@
                + "            if let variantString = try? stringContainer.decode(String.self) {\n"@
                + "                switch variantString {\n"@ + spec_string_fallback_arms(
                e.variants@,
                0,
            ) + "                default:\n"@ + "                    break\n"@
                + "                }\n"@ + "            }\n"@ + "        }\n"@ + "        \n"@
                + "        throw DecodingError.dataCorrupted(\n"@
                + "            DecodingError.Context(codingPath: decoder.codingPath, debugDescription: \"Could not decode enum - expected externally-tagged object or string for unit variants\")\n"@
                + "        )\n"@ + "    }\n\n"@
                + "    public func encode(to encoder: Encoder) throws {\n"@
                + "        var container = encoder.container(keyedBy: CodingKeys.self)\n"@
                + "        \n"@ + "        switch self {\n"@ + spec_ext_encode_arms(
                cfg,
                e.variants@,
                0,
            ) + "        }\n"@ + "    }\n"@ + "}\n"@,
        ),
    }
}

/// The complete adjacently tagged `Codable` extension: a two-key
/// container whose tag holds the closed set of variant names and whose
/// content carries the payload; tuple payloads use an array-valued
/// content.  Any other representation is a contract violation.
pub open spec fn spec_adjacent_codable(
    cfg: Swift,
    ts: Seq<NamedDataType>,
    e: EnumType,
    name: Seq<char>,
) -> Rendered {
    match e.repr {
        Repr::Adjacent { tag, content } => match spec_adj_decode_arms(cfg, ts, name, e.variants@,
            0) {
            Rendered::Fail(f) => Rendered::Fail(f),
            Rendered::Text(dec) => Rendered::Text(
                "\n// MARK: - "@ + name + " Adjacently Tagged Codable Implementation\n"@
                    + "extension "@ + name + ": Codable {\n"@ + "    private enum "@ + name
                    + "TypeKeys: String, CodingKey {\n"@ + "        case tag = \""@ + tag@
                    + "\"\n"@ + "        case content = \""@ + content@ + "\"\n"@ + "    }\n\n"@
                    + "    private enum VariantType: String, Codable {\n"@ + spec_enum_key_lines(
                    e.variants@,
                    0,
                ) + "    }\n\n"@ + "    public init(from decoder: Decoder) throws {\n"@
                    + "        let container = try decoder.container(keyedBy: "@ + name
                    + "TypeKeys.self)\n"@
                    + "        let variantType = try container.decode(VariantType.self, forKey: .tag)\n"@
                    + "        \n"@ + "        switch variantType {\n"@ + dec + "        }\n"@
                    + "    }\n\n"@ + "    public func encode(to encoder: Encoder) throws {\n"@
                    + "        var container = encoder.container(keyedBy: "@ + name
                    + "TypeKeys.self)\n"@ + "        \n"@ + "        switch self {\n"@
                    + spec_adj_encode_arms(cfg, e.variants@, 0) + "        }\n"@ + "    }\n"@
                    + "}\n"@,
            ),
        },
        _ => Rendered::Fail(ErrView::Unsupported("Expected adjacently tagged enum"@)),
    }
}

/// One decode arm of the adjacently tagged decoder.
pub open spec fn spec_adj_decode_arm(
    cfg: Swift,
    ts: Seq<NamedDataType>,
    enum_name: Seq<char>,
    name: Seq<char>,
    v: Variant,
) -> Rendered {
    let c = spec_convert_enum_case(name);
    if spec_unit_like(v) {
        Rendered::Text(
            "        case ."@ + c + ":\n"@ + "            self = ."@ + c + "\n"@,
        )
    } else {
        match v.fields {
            Fields::Unnamed(fs) => match spec_decode_value_lines(
                cfg,
                ts,
                fs@,
                0,
                0,
                "            "@,
            ) {
                Rendered::Fail(f) => Rendered::Fail(f),
                Rendered::Text(lines) => Rendered::Text(
                    "        case ."@ + c + ":\n"@
                        + "            var arrayContainer = try container.nestedUnkeyedContainer(forKey: .content)\n"@
                        + lines + "            self = ."@ + c + seq!['('] + spec_value_list(
                        0,
                        count_present(fs@, fs@.len() as int),
                    ) + ")\n"@,
                ),
            },
            Fields::Named(fs) => Rendered::Text(
                "        case ."@ + c + ":\n"@ + "            let data = try container.decode("@
                    + spec_variant_struct_name(cfg.struct_naming, cfg.naming, enum_name, name)
                    + ".self, forKey: .content)\n"@ + "            self = ."@ + c + "(data)\n"@,
            ),
            Fields::Unit => Rendered::Text(Seq::empty()),
        }
    }
}

/// The adjacently tagged decode arms of the unskipped variants.
pub open spec fn spec_adj_decode_arms(
    cfg: Swift,
    ts: Seq<NamedDataType>,
    enum_name: Seq<char>,
    vs: Seq<(String, Variant)>,
    i: int,
) -> Rendered
    decreases vs.len() - i,
{
    if i < 0 || i >= vs.len() {
        Rendered::Text(Seq::empty())
    } else if vs[i].1.skip {
        spec_adj_decode_arms(cfg, ts, enum_name, vs, i + 1)
    } else {
        match spec_adj_decode_arm(cfg, ts, enum_name, vs[i].0@, vs[i].1) {
            Rendered::Fail(f) => Rendered::Fail(f),
            Rendered::Text(arm) => match spec_adj_decode_arms(cfg, ts, enum_name, vs, i + 1) {
                Rendered::Fail(f) => Rendered::Fail(f),
                Rendered::Text(rest) => Rendered::Text(arm + rest),
            },
        }
    }
}

/// One encode arm of the adjacently tagged encoder.
pub open spec fn spec_adj_encode_arm(cfg: Swift, name: Seq<char>, v: Variant) -> Seq<char> {
    let c = spec_convert_enum_case(name);
    if spec_unit_like(v) {
        "        case ."@ + c + ":\n"@ + "            try container.encode(VariantType."@ + c
            + ", forKey: .tag)\n"@ + "            try container.encodeNil(forKey: .content)\n"@
    } else {
        match v.fields {
            Fields::Unnamed(fs) => {
                let cnt = count_present(fs@, fs@.len() as int);
                "        case ."@ + c + seq!['('] + spec_value_bindings(0, cnt) + "):\n"@
                    + "            try container.encode(VariantType."@ + c + ", forKey: .tag)\n"@
                    + "            var arrayContainer = container.nestedUnkeyedContainer(forKey: .content)\n"@
                    + spec_encode_value_lines(0, cnt)
            },
            Fields::Named(fs) => "        case ."@ + c + "(let data):\n"@
                + "            try container.encode(VariantType."@ + c + ", forKey: .tag)\n"@
                + "            try container.encode(data, forKey: .content)\n"@,
            Fields::Unit => Seq::empty(),
        }
    }
}

/// The adjacently tagged encode arms of the unskipped variants.
pub open spec fn spec_adj_encode_arms(cfg: Swift, vs: Seq<(String, Variant)>, i: int) -> Seq<char>
    decreases vs.len() - i,
{
    if i < 0 || i >= vs.len() {
        Seq::empty()
    } else if vs[i].1.skip {
        spec_adj_encode_arms(cfg, vs, i + 1)
    } else {
        spec_adj_encode_arm(cfg, vs[i].0@, vs[i].1) + spec_adj_encode_arms(cfg, vs, i + 1)
    }
}

/// The routed enum `Codable` implementation: adjacently tagged enums
/// get the two-key form, everything else the externally tagged form.
pub open spec fn spec_enum_codable(
    cfg: Swift,
    ts: Seq<NamedDataType>,
    e: EnumType,
    name: Seq<char>,
) -> Rendered {
    if e.repr is Adjacent {
        spec_adjacent_codable(cfg, ts, e, name)
    } else {
        spec_external_codable(cfg, ts, e, name)
    }
}

/// Render one adjacently tagged decode arm.
fn adj_decode_arm(
    swift: &Swift,
    types: &TypeCollection,
    enum_name: &str,
    name: &String,
    v: &Variant,
) -> (r: Result<String, Error>)
    ensures
        render_of(r) == spec_adj_decode_arm(*swift, types@, enum_name@, name@, *v),
{
    let c = swift.naming.convert_enum_case(name.as_str());
    let mut out = String::new();
    if unit_like_variant(v) {
        push_str(&mut out, "        case .");
        push_str(&mut out, c.as_str());
        push_str(&mut out, ":\n");
        push_str(&mut out, "            self = .");
        push_str(&mut out, c.as_str());
        push_str(&mut out, "\n");
        proof {
            reveal_strlit("\n");
            assert(out@ =~= spec_adj_decode_arm(*swift, types@, enum_name@, name@, *v)->Text_0);
        }
        return Result::Ok(out);
    }
    match &v.fields {
        Fields::Unnamed(fs) => {
            let lines = match decode_value_lines(swift, types, fs, "            ") {
                Result::Err(e) => {
                    return Result::Err(e);
                },
                Result::Ok(l) => l,
            };
            let present = crate::export::count_present_fields(fs);
            push_str(&mut out, "        case .");
            push_str(&mut out, c.as_str());
            push_str(&mut out, ":\n");
            push_str(
                &mut out,
                "            var arrayContainer = try container.nestedUnkeyedContainer(forKey: .content)\n",
            );
            push_str(&mut out, lines.as_str());
            push_str(&mut out, "            self = .");
            push_str(&mut out, c.as_str());
            push_str(&mut out, "(");
            let vl = value_list_exec(present, false);
            push_str(&mut out, vl.as_str());
            push_str(&mut out, ")\n");
            proof {
                reveal_strlit("(");
                assert(out@ =~= spec_adj_decode_arm(
                    *swift,
                    types@,
                    enum_name@,
                    name@,
                    *v,
                )->Text_0);
            }
            Result::Ok(out)
        },
        Fields::Named(_) => {
            let sname = generate_variant_struct_name(swift, enum_name, name.as_str());
            push_str(&mut out, "        case .");
            push_str(&mut out, c.as_str());
            push_str(&mut out, ":\n");
            push_str(&mut out, "            let data = try container.decode(");
            push_str(&mut out, sname.as_str());
            push_str(&mut out, ".self, forKey: .content)\n");
            push_str(&mut out, "            self = .");
            push_str(&mut out, c.as_str());
            push_str(&mut out, "(data)\n");
            proof {
                assert(out@ =~= spec_adj_decode_arm(
                    *swift,
                    types@,
                    enum_name@,
                    name@,
                    *v,
                )->Text_0);
            }
            Result::Ok(out)
        },
        Fields::Unit => Result::Ok(out),
    }
}

/// Render the adjacently tagged decode arms.
fn adj_decode_arms(
    swift: &Swift,
    types: &TypeCollection,
    enum_name: &str,
    vs: &Vec<(String, Variant)>,
) -> (r: Result<String, Error>)
    ensures
        render_of(r) == spec_adj_decode_arms(*swift, types@, enum_name@, vs@, 0),
{
    let n = vs.len();
    let mut out = String::new();
    let mut i: usize = 0;
    while i < n
        invariant
            n == vs@.len(),
            i <= n,
            match spec_adj_decode_arms(*swift, types@, enum_name@, vs@, i as int) {
                Rendered::Text(rest) => spec_adj_decode_arms(*swift, types@, enum_name@, vs@, 0)
                    == Rendered::Text(out@ + rest),
                Rendered::Fail(f) => spec_adj_decode_arms(*swift, types@, enum_name@, vs@, 0)
                    == Rendered::Fail(f),
            },
        decreases n - i,
    {
        if !vs[i].1.skip {
            match adj_decode_arm(swift, types, enum_name, &vs[i].0, &vs[i].1) {
                Result::Err(e) => {
                    return Result::Err(e);
                },
                Result::Ok(arm) => {
                    push_str(&mut out, arm.as_str());
                    proof {
                        match spec_adj_decode_arms(*swift, types@, enum_name@, vs@, i + 1) {
                            Rendered::Text(rest2) => {
                                assert(out@ + rest2 =~= spec_adj_decode_arms(
                                    *swift,
                                    types@,
                                    enum_name@,
                                    vs@,
                                    0,
                                )->Text_0);
                            },
                            Rendered::Fail(f) => {},
                        }
                    }
                },
            }
        }
        i = i + 1;
    }
    Result::Ok(out)
}

/// Render one adjacently tagged encode arm.
fn adj_encode_arm(swift: &Swift, name: &String, v: &Variant) -> (r: String)
    ensures
        r@ == spec_adj_encode_arm(*swift, name@, *v),
{
    let c = swift.naming.convert_enum_case(name.as_str());
    let mut out = String::new();
    if unit_like_variant(v) {
        push_str(&mut out, "        case .");
        push_str(&mut out, c.as_str());
        push_str(&mut out, ":\n");
        push_str(&mut out, "            try container.encode(VariantType.");
        push_str(&mut out, c.as_str());
        push_str(&mut out, ", forKey: .tag)\n");
        push_str(&mut out, "            try container.encodeNil(forKey: .content)\n");
        proof {
            assert(out@ =~= spec_adj_encode_arm(*swift, name@, *v));
        }
        return out;
    }
    match &v.fields {
        Fields::Unnamed(fs) => {
            let present = crate::export::count_present_fields(fs);
            push_str(&mut out, "        case .");
            push_str(&mut out, c.as_str());
            push_str(&mut out, "(");
            let vb = value_list_exec(present, true);
            push_str(&mut out, vb.as_str());
            push_str(&mut out, "):\n");
            push_str(&mut out, "            try container.encode(VariantType.");
            push_str(&mut out, c.as_str());
            push_str(&mut out, ", forKey: .tag)\n");
            push_str(
                &mut out,
                "            var arrayContainer = container.nestedUnkeyedContainer(forKey: .content)\n",
            );
            let evl = encode_value_lines(present);
            push_str(&mut out, evl.as_str());
            proof {
                reveal_strlit("(");
                assert(out@ =~= spec_adj_encode_arm(*swift, name@, *v));
            }
            out
        },
        Fields::Named(_) => {
            push_str(&mut out, "        case .");
            push_str(&mut out, c.as_str());
            push_str(&mut out, "(let data):\n");
            push_str(&mut out, "            try container.encode(VariantType.");
            push_str(&mut out, c.as_str());
            push_str(&mut out, ", forKey: .tag)\n");
            push_str(&mut out, "            try container.encode(data, forKey: .content)\n");
            proof {
                assert(out@ =~= spec_adj_encode_arm(*swift, name@, *v));
            }
            out
        },
        Fields::Unit => out,
    }
}

/// Render the adjacently tagged encode arms.
fn adj_encode_arms(swift: &Swift, vs: &Vec<(String, Variant)>) -> (r: String)
    ensures
        r@ == spec_adj_encode_arms(*swift, vs@, 0),
{
    let n = vs.len();
    let mut out = String::new();
    let mut i: usize = 0;
    while i < n
        invariant
            n == vs@.len(),
            i <= n,
            spec_adj_encode_arms(*swift, vs@, 0) == out@ + spec_adj_encode_arms(
                *swift,
                vs@,
                i as int,
            ),
        decreases n - i,
    {
        if !vs[i].1.skip {
            let arm = adj_encode_arm(swift, &vs[i].0, &vs[i].1);
            push_str(&mut out, arm.as_str());
            proof {
                assert(spec_adj_encode_arms(*swift, vs@, 0) =~= out@ + spec_adj_encode_arms(
                    *swift,
                    vs@,
                    i + 1,
                ));
            }
        }
        i = i + 1;
    }
    out
}

/// Generate the `Codable` implementation for an adjacently tagged
/// enum; tuple-variant payloads use an array-valued content key.
pub fn generate_adjacently_tagged_codable(
    swift: &Swift,
    types: &TypeCollection,
    e: &EnumType,
    enum_name: &str,
) -> (r: Result<String, Error>)
    ensures
        render_of(r) == spec_adjacent_codable(*swift, types@, *e, enum_name@),
{
    let (tag, content) = match &e.repr {
        Repr::Adjacent { tag, content } => (tag, content),
        _ => {
            return Result::Err(
                Error::UnsupportedType(str_to_string("Expected adjacently tagged enum")),
            );
        },
    };
    let dec = match adj_decode_arms(swift, types, enum_name, &e.variants) {
        Result::Err(err) => {
            return Result::Err(err);
        },
        Result::Ok(d) => d,
    };
    let mut out = String::new();
    push_str(&mut out, "\n// MARK: - ");
    push_str(&mut out, enum_name);
    push_str(&mut out, " Adjacently Tagged Codable Implementation\n");
    push_str(&mut out, "extension ");
    push_str(&mut out, enum_name);
    push_str(&mut out, ": Codable {\n");
    push_str(&mut out, "    private enum ");
    push_str(&mut out, enum_name);
    push_str(&mut out, "TypeKeys: String, CodingKey {\n");
    push_str(&mut out, "        case tag = \"");
    push_str(&mut out, tag.as_str());
    push_str(&mut out, "\"\n");
    push_str(&mut out, "        case content = \"");
    push_str(&mut out, content.as_str());
    push_str(&mut out, "\"\n");
    push_str(&mut out, "    }\n\n");
    push_str(&mut out, "    private enum VariantType: String, Codable {\n");
    let keys = enum_key_lines(swift, &e.variants);
    push_str(&mut out, keys.as_str());
    push_str(&mut out, "    }\n\n");
    push_str(&mut out, "    public init(from decoder: Decoder) throws {\n");
    push_str(&mut out, "        let container = try decoder.container(keyedBy: ");
    push_str(&mut out, enum_name);
    push_str(&mut out, "TypeKeys.self)\n");
    push_str(
        &mut out,
        "        let variantType = try container.decode(VariantType.self, forKey: .tag)\n",
    );
    push_str(&mut out, "        \n");
    push_str(&mut out, "        switch variantType {\n");
    push_str(&mut out, dec.as_str());
    push_str(&mut out, "        }\n");
    push_str(&mut out, "    }\n\n");
    push_str(&mut out, "    public func encode(to encoder: Encoder) throws {\n");
    push_str(&mut out, "        var container = encoder.container(keyedBy: ");
    push_str(&mut out, enum_name);
    push_str(&mut out, "TypeKeys.self)\n");
    push_str(&mut out, "        \n");
    push_str(&mut out, "        switch self {\n");
    let enc = adj_encode_arms(swift, &e.variants);
    push_str(&mut out, enc.as_str());
    push_str(&mut out, "        }\n");
    push_str(&mut out, "    }\n");
    push_str(&mut out, "}\n");
    proof {
        assert(out@ =~= spec_adjacent_codable(*swift, types@, *e, enum_name@)->Text_0);
    }
    Result::Ok(out)
}

/// Generate the `Codable` implementation for an enum with payload
/// variants, routed by its representation.
pub fn generate_enum_codable_impl(
    swift: &Swift,
    types: &TypeCollection,
    e: &EnumType,
    enum_name: &str,
) -> (r: Result<String, Error>)
    ensures
        render_of(r) == spec_enum_codable(*swift, types@, *e, enum_name@),
{
    let adjacent = match &e.repr {
        Repr::Adjacent { .. } => true,
        _ => false,
    };
    if adjacent {
        return generate_adjacently_tagged_codable(swift, types, e, enum_name);
    }
    let dec = match ext_decode_arms(swift, types, enum_name, &e.variants) {
        Result::Err(err) => {
            return Result::Err(err);
        },
        Result::Ok(d) => d,
    };
    let mut out = String::new();
    push_str(&mut out, "\n// MARK: - ");
    push_str(&mut out, enum_name);
    push_str(&mut out, " Codable Implementation\n");
    push_str(&mut out, "extension ");
    push_str(&mut out, enum_name);
    push_str(&mut out, ": Codable {\n");
    push_str(&mut out, "    private enum CodingKeys: String, CodingKey {\n");
    let keys = enum_key_lines(swift, &e.variants);
    push_str(&mut out, keys.as_str());
    push_str(&mut out, "    }\n\n");
    push_str(&mut out, "    public init(from decoder: Decoder) throws {\n");
    push_str(
        &mut out,
        "        // Try externally-tagged format first (e.g., {\"WaitingForConnection\": null})\n",
    );
    push_str(
        &mut out,
        "        if let container = try? decoder.container(keyedBy: CodingKeys.self) {\n",
    );
    push_str(&mut out, "            if container.allKeys.count == 1 {\n");
    push_str(&mut out, "                let key = container.allKeys.first!\n");
    push_str(&mut out, "                switch key {\n");
    push_str(&mut out, dec.as_str());
    push_str(&mut out, "                }\n");
    push_str(&mut out, "                return\n");
    push_str(&mut out, "            }\n");
    push_str(&mut out, "        }\n");
    push_str(&mut out, "        \n");
    push_str(
        &mut out,
        "        // Fallback: try decoding as plain string for unit variants (serde default)\n",
    );
    push_str(
        &mut out,
        "        if let stringContainer = try? decoder.singleValueContainer() {\n",
    );
    push_str(
        &mut out,
        "            if let variantString = try? stringContainer.decode(String.self) {\n",
    );
    push_str(&mut out, "                switch variantString {\n");
    let fallback = string_fallback_arms(swift, &e.variants);
    push_str(&mut out, fallback.as_str());
    push_str(&mut out, "                default:\n");
    push_str(&mut out, "                    break\n");
    push_str(&mut out, "                }\n");
    push_str(&mut out, "            }\n");
    push_str(&mut out, "        }\n");
    push_str(&mut out, "        \n");
    push_str(&mut out, "        throw DecodingError.dataCorrupted(\n");
    push_str(
        &mut out,
        "            DecodingError.Context(codingPath: decoder.codingPath, debugDescription: \"Could not decode enum - expected externally-tagged object or string for unit variants\")\n",
    );
    push_str(&mut out, "        )\n");
    push_str(&mut out, "    }\n\n");
    push_str(&mut out, "    public func encode(to encoder: Encoder) throws {\n");
    push_str(
        &mut out,
        "        var container = encoder.container(keyedBy: CodingKeys.self)\n",
    );
    push_str(&mut out, "        \n");
    push_str(&mut out, "        switch self {\n");
    let enc = ext_encode_arms(swift, &e.variants);
    push_str(&mut out, enc.as_str());
    push_str(&mut out, "        }\n");
    push_str(&mut out, "    }\n");
    push_str(&mut out, "}\n");
    proof {
        assert(out@ =~= spec_external_codable(*swift, types@, *e, enum_name@)->Text_0);
    }
    Result::Ok(out)
}

/// The declaration lines of one auxiliary variant struct's fields; no
/// optional markers, as the payload carries every present field.
pub open spec fn spec_vs_field_lines(
    cfg: Swift,
    ts: Seq<NamedDataType>,
    fs: Seq<(String, Field)>,
    i: int,
) -> Rendered
    decreases fs.len() - i,
{
    if i < 0 || i >= fs.len() {
        Rendered::Text(Seq::empty())
    } else {
        match fs[i].1.ty {
            Option::None => spec_vs_field_lines(cfg, ts, fs, i + 1),
            Option::Some(t) => match spec_datatype(cfg, ts, t, Option::None) {
                Rendered::Fail(f) => Rendered::Fail(f),
                Rendered::Text(tt) => match spec_vs_field_lines(cfg, ts, fs, i + 1) {
                    Rendered::Fail(f) => Rendered::Fail(f),
                    Rendered::Text(rest) => Rendered::Text(
                        "    public let "@ + spec_convert_field(fs[i].0@) + ": "@ + tt + "\n"@
                            + rest,
                    ),
                },
            },
        }
    }
}

/// One auxiliary struct declaration for a variant with named fields.
pub open spec fn spec_variant_struct(
    cfg: Swift,
    ts: Seq<NamedDataType>,
    enum_name: Seq<char>,
    name: Seq<char>,
    fs: Seq<(String, Field)>,
) -> Rendered {
    match spec_vs_field_lines(cfg, ts, fs, 0) {
        Rendered::Fail(f) => Rendered::Fail(f),
        Rendered::Text(lines) => {
            let sname = spec_variant_struct_name(cfg.struct_naming, cfg.naming, enum_name, name);
            let keys = if crate::export::spec_needs_coding_keys(fs) {
                "\n    private enum CodingKeys: String, CodingKey {\n"@ + spec_ext_key_lines(fs, 0)
                    + "    }\n"@
            } else {
                Seq::empty()
            };
            Rendered::Text(
                "public struct "@ + sname + ": Codable {\n"@ + lines + keys + "}\n\n"@,
            )
        },
    }
}

/// The auxiliary struct declarations of every unskipped variant with
/// named fields, from `i` on.
pub open spec fn spec_variant_structs(
    cfg: Swift,
    ts: Seq<NamedDataType>,
    enum_name: Seq<char>,
    vs: Seq<(String, Variant)>,
    i: int,
) -> Rendered
    decreases vs.len() - i,
{
    if i < 0 || i >= vs.len() {
        Rendered::Text(Seq::empty())
    } else if !vs[i].1.skip && (vs[i].1.fields matches Fields::Named(fs) && fs@.len() > 0) {
        match spec_variant_struct(cfg, ts, enum_name, vs[i].0@, vs[i].1.fields->Named_0@) {
            Rendered::Fail(f) => Rendered::Fail(f),
            Rendered::Text(decl) => match spec_variant_structs(cfg, ts, enum_name, vs, i + 1) {
                Rendered::Fail(f) => Rendered::Fail(f),
                Rendered::Text(rest) => Rendered::Text(decl + rest),
            },
        }
    } else {
        spec_variant_structs(cfg, ts, enum_name, vs, i + 1)
    }
}

/// Render the field lines of one auxiliary variant struct.
fn vs_field_lines(swift: &Swift, types: &TypeCollection, fs: &Vec<(String, Field)>) -> (r: Result<
    String,
    Error,
>)
    ensures
        render_of(r) == spec_vs_field_lines(*swift, types@, fs@, 0),
{
    let n = fs.len();
    let mut out = String::new();
    let mut i: usize = 0;
    while i < n
        invariant
            n == fs@.len(),
            i <= n,
            match spec_vs_field_lines(*swift, types@, fs@, i as int) {
                Rendered::Text(rest) => spec_vs_field_lines(*swift, types@, fs@, 0)
                    == Rendered::Text(out@ + rest),
                Rendered::Fail(f) => spec_vs_field_lines(*swift, types@, fs@, 0)
                    == Rendered::Fail(f),
            },
        decreases n - i,
    {
        match &fs[i].1.ty {
            Option::None => {},
            Option::Some(t) => {
                match crate::export::datatype_to_swift(swift, types, t, Option::None) {
                    Result::Err(e) => {
                        return Result::Err(e);
                    },
                    Result::Ok(tt) => {
                        push_str(&mut out, "    public let ");
                        let cf = swift.naming.convert_field(fs[i].0.as_str());
                        push_str(&mut out, cf.as_str());
                        push_str(&mut out, ": ");
                        push_str(&mut out, tt.as_str());
                        push_str(&mut out, "\n");
                        proof {
                            reveal_strlit("\n");
                            match spec_vs_field_lines(*swift, types@, fs@, i + 1) {
                                Rendered::Text(rest2) => {
                                    assert(out@ + rest2 =~= spec_vs_field_lines(
                                        *swift,
                                        types@,
                                        fs@,
                                        0,
                                    )->Text_0);
                                },
                                Rendered::Fail(f) => {},
                            }
                        }
                    },
                }
            },
        }
        i = i + 1;
    }
    Result::Ok(out)
}

/// Render one auxiliary variant struct declaration.
fn variant_struct_decl(
    swift: &Swift,
    types: &TypeCollection,
    enum_name: &str,
    name: &String,
    fs: &Vec<(String, Field)>,
) -> (r: Result<String, Error>)
    ensures
        render_of(r) == spec_variant_struct(*swift, types@, enum_name@, name@, fs@),
{
    let lines = match vs_field_lines(swift, types, fs) {
        Result::Err(e) => {
            return Result::Err(e);
        },
        Result::Ok(l) => l,
    };
    let sname = generate_variant_struct_name(swift, enum_name, name.as_str());
    let mut out = String::new();
    push_str(&mut out, "public struct ");
    push_str(&mut out, sname.as_str());
    push_str(&mut out, ": Codable {\n");
    push_str(&mut out, lines.as_str());
    if crate::export::needs_coding_keys(swift, fs) {
        push_str(&mut out, "\n    private enum CodingKeys: String, CodingKey {\n");
        let keys = ext_key_lines(swift, fs);
        push_str(&mut out, keys.as_str());
        push_str(&mut out, "    }\n");
    }
    push_str(&mut out, "}\n\n");
    proof {
        assert(out@ =~= spec_variant_struct(*swift, types@, enum_name@, name@, fs@)->Text_0);
    }
    Result::Ok(out)
}

/// Generate the auxiliary struct declarations for every unskipped
/// variant with named fields.
pub fn generate_enum_variant_structs(
    swift: &Swift,
    types: &TypeCollection,
    e: &EnumType,
    enum_name: &str,
) -> (r: Result<String, Error>)
    ensures
        render_of(r) == spec_variant_structs(*swift, types@, enum_name@, e.variants@, 0),
{
    let n = e.variants.len();
    let mut out = String::new();
    let mut i: usize = 0;
    while i < n
        invariant
            n == e.variants@.len(),
            i <= n,
            match spec_variant_structs(*swift, types@, enum_name@, e.variants@, i as int) {
                Rendered::Text(rest) => spec_variant_structs(*swift, types@, enum_name@,
                    e.variants@, 0) == Rendered::Text(out@ + rest),
                Rendered::Fail(f) => spec_variant_structs(*swift, types@, enum_name@, e.variants@,
                    0) == Rendered::Fail(f),
            },
        decreases n - i,
    {
        let applicable = !e.variants[i].1.skip && match &e.variants[i].1.fields {
            Fields::Named(fs) => fs.len() > 0,
            _ => false,
        };
        if applicable {
            match &e.variants[i].1.fields {
                Fields::Named(fs) => {
                    match variant_struct_decl(swift, types, enum_name, &e.variants[i].0, fs) {
                        Result::Err(e) => {
                            return Result::Err(e);
                        },
                        Result::Ok(decl) => {
                            let ghost old_out = out@;
                            push_str(&mut out, decl.as_str());
                            proof {
                                match spec_variant_structs(*swift, types@, enum_name@,
                                    e.variants@, i + 1) {
                                    Rendered::Text(rest2) => {
                                        assert(out@ + rest2 =~= old_out + (decl@ + rest2));
                                    },
                                    Rendered::Fail(f) => {},
                                }
                            }
                        },
                    }
                },
                _ => {},
            }
        }
        i = i + 1;
    }
    Result::Ok(out)
}

} // verus!
