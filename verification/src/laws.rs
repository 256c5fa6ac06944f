//! Collection-wide laws of the exporter, stated and proved over the
//! same specification functions that the executable code satisfies.

use vstd::multiset::Multiset;
use vstd::prelude::*;

use crate::codable::{spec_struct_codable, spec_variant_struct};
use crate::config::{DuplicateNameStrategy, ErrView, Rendered, Swift, spec_convert_enum_case};
use crate::declaration::{spec_decl_case_line, spec_export_type, spec_header, spec_struct_decl};
use crate::export::spec_has_nullable;
use crate::model::{DataType, Field, Fields, NamedDataType, Sid, StructType, Variant};
use crate::orchestrator::{key_lt, lex_lt, spec_base, spec_default_custom, spec_dup_list,
    spec_export, spec_insert, spec_is_dup, spec_keep, spec_qualified, spec_sort};
use crate::validation::spec_is_recursive;
use crate::variant_naming::spec_variant_struct_name;

verus! {

/// Exporting the same collection under the same configuration always
/// yields the same text: the outcome is a pure function of the two.
pub proof fn lemma_export_deterministic(
    cfg: Swift,
    ts: Seq<NamedDataType>,
    r1: Rendered,
    r2: Rendered,
)
    requires
        r1 == spec_export(cfg, ts),
        r2 == spec_export(cfg, ts),
    ensures
        r1 == r2,
{
}

/// A run ordered by key: no later element is strictly below an
/// earlier one.
pub open spec fn sorted_by_key(s: Seq<(Seq<char>, int)>) -> bool {
    forall|a: int, b: int| 0 <= a < b < s.len() ==> !key_lt(#[trigger] s[b], #[trigger] s[a])
}

proof fn lemma_lex_lt_trans(a: Seq<char>, b: Seq<char>, c: Seq<char>)
    requires
        lex_lt(a, b),
        lex_lt(b, c),
    ensures
        lex_lt(a, c),
    decreases a.len(),
{
    if a.len() > 0 && b.len() > 0 && c.len() > 0 {
        if (a[0] as u32) == (b[0] as u32) && (b[0] as u32) == (c[0] as u32) {
            lemma_lex_lt_trans(a.skip(1), b.skip(1), c.skip(1));
        }
    }
}

/// Two runs of `lex_lt` never hold in both directions.
proof fn lemma_lex_lt_asym(a: Seq<char>, b: Seq<char>)
    requires
        lex_lt(a, b),
    ensures
        !lex_lt(b, a),
        a != b,
    decreases a.len(),
{
    if a.len() > 0 && b.len() > 0 && (a[0] as u32) == (b[0] as u32) {
        lemma_lex_lt_asym(a.skip(1), b.skip(1));
        assert(a != b) by {
            if a == b {
                assert(a.skip(1) =~= b.skip(1));
            }
        }
    } else if a.len() == 0 {
        assert(b.len() > 0);
    }
}

proof fn lemma_key_lt_trans(a: (Seq<char>, int), b: (Seq<char>, int), c: (Seq<char>, int))
    requires
        key_lt(a, b),
        key_lt(b, c),
    ensures
        key_lt(a, c),
{
    if lex_lt(a.0, b.0) && lex_lt(b.0, c.0) {
        lemma_lex_lt_trans(a.0, b.0, c.0);
    }
}

/// Inserting into an ordered run keeps it ordered, and adds no
/// element but the inserted one.
proof fn lemma_insert_sorted_stays(s: Seq<(Seq<char>, int)>, x: (Seq<char>, int))
    requires
        sorted_by_key(s),
    ensures
        sorted_by_key(spec_insert(s, x)),
        forall|k: int|
            0 <= k < spec_insert(s, x).len() ==> (#[trigger] spec_insert(s, x)[k]) == x
                || s.contains(spec_insert(s, x)[k]),
    decreases s.len(),
{
    if s.len() == 0 {
    } else if key_lt(x, s[0]) {
        let r = seq![x] + s;
        assert forall|a: int, b: int| 0 <= a < b < r.len() implies !key_lt(
            #[trigger] r[b],
            #[trigger] r[a],
        ) by {
            if a == 0 {
                if key_lt(r[b], x) {
                    lemma_key_lt_trans(r[b], x, s[0]);
                    if b == 1 {
                        assert(key_lt(s[0], s[0]));
                        if lex_lt(s[0].0, s[0].0) {
                            lemma_lex_lt_asym(s[0].0, s[0].0);
                        }
                        assert(false);
                    } else {
                        assert(!key_lt(s[b - 1], s[0]));
                        assert(false);
                    }
                }
            }
        }
        assert forall|k: int| 0 <= k < r.len() implies (#[trigger] r[k]) == x || s.contains(
            r[k],
        ) by {
            if k > 0 {
                assert(r[k] == s[k - 1]);
            }
        }
    } else {
        assert(sorted_by_key(s.skip(1))) by {
            assert forall|a: int, b: int| 0 <= a < b < s.skip(1).len() implies !key_lt(
                #[trigger] s.skip(1)[b],
                #[trigger] s.skip(1)[a],
            ) by {
                assert(s.skip(1)[a] == s[a + 1]);
                assert(s.skip(1)[b] == s[b + 1]);
            }
        }
        lemma_insert_sorted_stays(s.skip(1), x);
        let r = seq![s[0]] + spec_insert(s.skip(1), x);
        assert forall|a: int, b: int| 0 <= a < b < r.len() implies !key_lt(
            #[trigger] r[b],
            #[trigger] r[a],
        ) by {
            if a == 0 {
                let e = r[b];
                assert(e == spec_insert(s.skip(1), x)[b - 1]);
                if e == x {
                    assert(!key_lt(x, s[0]));
                } else {
                    assert(s.skip(1).contains(e));
                    let j = choose|j: int| 0 <= j < s.skip(1).len() && s.skip(1)[j] == e;
                    assert(s[j + 1] == e);
                    assert(!key_lt(e, s[0]));
                }
            } else {
                assert(r[a] == spec_insert(s.skip(1), x)[a - 1]);
                assert(r[b] == spec_insert(s.skip(1), x)[b - 1]);
            }
        }
        assert forall|k: int| 0 <= k < r.len() implies (#[trigger] r[k]) == x || s.contains(
            r[k],
        ) by {
            if k > 0 {
                let e = spec_insert(s.skip(1), x)[k - 1];
                if e != x {
                    assert(s.skip(1).contains(e));
                    let j = choose|j: int| 0 <= j < s.skip(1).len() && s.skip(1)[j] == e;
                    assert(s[j + 1] == e);
                }
            } else {
                assert(s.contains(s[0])) by {
                    assert(s[0] == s[0]);
                }
            }
        }
    }
}

/// Inserting adds exactly the inserted element to the run's
/// contents.
proof fn lemma_insert_multiset(s: Seq<(Seq<char>, int)>, x: (Seq<char>, int))
    ensures
        spec_insert(s, x).to_multiset() =~= s.to_multiset().insert(x),
    decreases s.len(),
{
    broadcast use vstd::seq_lib::group_to_multiset_ensures;
    broadcast use vstd::multiset::group_multiset_axioms;

    if s.len() == 0 {
        assert(spec_insert(s, x) =~= Seq::empty().push(x));
        assert(Seq::<(Seq<char>, int)>::empty().push(x).to_multiset() =~= Seq::<(
            Seq<char>,
            int,
        )>::empty().to_multiset().insert(x));
    } else if key_lt(x, s[0]) {
        vstd::seq_lib::lemma_multiset_commutative(seq![x], s);
        assert(seq![x].to_multiset() =~= Multiset::<(Seq<char>, int)>::empty().insert(x)) by {
            assert(seq![x] =~= Seq::empty().push(x));
        }
    } else {
        lemma_insert_multiset(s.skip(1), x);
        vstd::seq_lib::lemma_multiset_commutative(seq![s[0]], spec_insert(s.skip(1), x));
        vstd::seq_lib::lemma_multiset_commutative(seq![s[0]], s.skip(1));
        assert(seq![s[0]] + s.skip(1) =~= s);
        assert(seq![s[0]].to_multiset() =~= Multiset::<(Seq<char>, int)>::empty().insert(
            s[0],
        )) by {
            assert(seq![s[0]] =~= Seq::empty().push(s[0]));
        }
    }
}

/// The export emits declarations in ascending resolved-name order:
/// the ordering pass yields a run sorted by resolved name (then by
/// registration position) that holds exactly the registered items,
/// whatever order the types were registered in.
pub proof fn lemma_export_order_sorted(items: Seq<(Seq<char>, int)>, n: int)
    requires
        0 <= n <= items.len(),
    ensures
        sorted_by_key(spec_sort(items, n)),
        spec_sort(items, n).to_multiset() =~= items.take(n).to_multiset(),
    decreases n,
{
    broadcast use vstd::seq_lib::group_to_multiset_ensures;

    if n <= 0 {
        assert(items.take(0) =~= Seq::empty());
    } else {
        lemma_export_order_sorted(items, n - 1);
        lemma_insert_sorted_stays(spec_sort(items, n - 1), items[n - 1]);
        lemma_insert_multiset(spec_sort(items, n - 1), items[n - 1]);
        assert(items.take(n) =~= items.take(n - 1).push(items[n - 1]));
    }
}

/// A struct with any nullable field receives a synthesized
/// encode/decode pair: its declaration is never emitted bare, and the
/// synthesized encoder writes every field with the always-encode
/// operation, which serializes an absent optional as explicit `null`.
pub proof fn lemma_nullable_struct_codable(
    cfg: Swift,
    ts: Seq<NamedDataType>,
    s: StructType,
    name: Seq<char>,
    generics: Seq<char>,
    type_def: Seq<char>,
    fs: Vec<(String, Field)>,
)
    requires
        s.fields == Fields::Named(fs),
        fs.len() > 0,
        spec_has_nullable(fs@),
        spec_struct_decl(cfg, ts, s, name, generics, type_def) is Text,
    ensures
        spec_struct_codable(cfg, ts, s, name) is Text,
        spec_struct_decl(cfg, ts, s, name, generics, type_def)->Text_0 == ("public struct "@
            + name + generics + ": Codable {\n"@ + type_def + seq!['}']) + spec_struct_codable(
            cfg,
            ts,
            s,
            name,
        )->Text_0,
{
}

/// Warn keeps exactly the latest registration of a colliding name:
/// of two entries with the same resolved name, the earlier one is
/// dropped, and an entry with no later same-named entry is kept.
pub proof fn lemma_warn_keeps_latest(cfg: Swift, ts: Seq<NamedDataType>, i: int, j: int)
    requires
        cfg.duplicate_name_strategy == DuplicateNameStrategy::Warn,
        0 <= i < j < ts.len(),
        spec_base(cfg, ts, i) == spec_base(cfg, ts, j),
    ensures
        !spec_keep(cfg, ts, i),
        (forall|k: int| j < k < ts.len() ==> #[trigger] spec_base(cfg, ts, k) != spec_base(cfg, ts, j))
            ==> spec_keep(cfg, ts, j),
{
}

/// Error aborts and names the collision: a colliding entry's resolved
/// name stands in the reported list.
pub proof fn lemma_error_reports_collision(cfg: Swift, ts: Seq<NamedDataType>, i: int)
    requires
        cfg.duplicate_name_strategy == DuplicateNameStrategy::Error,
        0 <= i < ts.len(),
        spec_is_dup(cfg, ts, i),
    ensures
        spec_export(cfg, ts) == Rendered::Fail(ErrView::Duplicates(spec_dup_list(cfg, ts, 0))),
        spec_dup_list(cfg, ts, 0).contains(spec_base(cfg, ts, i)),
{
    lemma_dup_list_contains(cfg, ts, i, 0);
}

/// Some entry at or before `i` put `base(i)` into the collision list.
proof fn lemma_dup_list_contains(cfg: Swift, ts: Seq<NamedDataType>, i: int, lo: int)
    requires
        0 <= lo <= i < ts.len(),
        spec_is_dup(cfg, ts, i),
        forall|j: int| 0 <= j < lo ==> #[trigger] spec_base(cfg, ts, j) != spec_base(cfg, ts, i),
    ensures
        spec_dup_list(cfg, ts, lo).contains(spec_base(cfg, ts, i)),
    decreases ts.len() - lo,
{
    if spec_base(cfg, ts, lo) == spec_base(cfg, ts, i) {
        if lo == i {
            assert(spec_dup_list(cfg, ts, lo)[0] == spec_base(cfg, ts, i));
        } else {
            assert(spec_is_dup(cfg, ts, lo));
            assert(spec_dup_list(cfg, ts, lo)[0] == spec_base(cfg, ts, i));
        }
    } else {
        lemma_dup_list_contains(cfg, ts, i, lo + 1);
        let tail = spec_dup_list(cfg, ts, lo + 1);
        let k = choose|k: int| 0 <= k < tail.len() && tail[k] == spec_base(cfg, ts, i);
        if spec_is_dup(cfg, ts, lo) && (forall|j: int|
            0 <= j < lo ==> #[trigger] spec_base(cfg, ts, j) != spec_base(cfg, ts, lo)) {
            assert(spec_dup_list(cfg, ts, lo)[k + 1] == spec_base(cfg, ts, i));
        } else {
            assert(spec_dup_list(cfg, ts, lo)[k] == spec_base(cfg, ts, i));
        }
    }
}

/// Qualify renames each colliding entry by its module path and keeps
/// every entry, so both colliding definitions survive under distinct
/// qualified names whenever their module prefixes differ.
pub proof fn lemma_qualify_keeps_both(cfg: Swift, ts: Seq<NamedDataType>, i: int, j: int)
    requires
        cfg.duplicate_name_strategy == DuplicateNameStrategy::Qualify,
        0 <= i < ts.len(),
        0 <= j < ts.len(),
        i != j,
        spec_base(cfg, ts, i) == spec_base(cfg, ts, j),
    ensures
        spec_keep(cfg, ts, i),
        spec_keep(cfg, ts, j),
        spec_default_custom(cfg, ts, i) == spec_qualified(ts[i]),
        spec_default_custom(cfg, ts, j) == spec_qualified(ts[j]),
{
    assert(spec_is_dup(cfg, ts, i));
    assert(spec_is_dup(cfg, ts, j));
}

/// Reference site and definition site derive the variant struct name
/// from the same pure function of (enclosing name, variant name,
/// strategy), so the two always match, under either strategy.
pub proof fn lemma_variant_name_consistent(
    cfg: Swift,
    ts: Seq<NamedDataType>,
    enum_name: Seq<char>,
    variant_name: Seq<char>,
    v: Variant,
    fs: Vec<(String, Field)>,
)
    requires
        v.fields == Fields::Named(fs),
        fs.len() > 0,
    ensures
        spec_decl_case_line(cfg, ts, enum_name, variant_name, v) == Rendered::Text(
            "    case "@ + spec_convert_enum_case(variant_name) + seq!['(']
                + spec_variant_struct_name(cfg.struct_naming, cfg.naming, enum_name, variant_name)
                + ")\n"@,
        ),
        spec_variant_struct(cfg, ts, enum_name, variant_name, fs@) matches Rendered::Text(decl)
            ==> decl.subrange(
            14,
            14 + spec_variant_struct_name(
                cfg.struct_naming,
                cfg.naming,
                enum_name,
                variant_name,
            ).len() as int,
        ) == spec_variant_struct_name(cfg.struct_naming, cfg.naming, enum_name, variant_name),
{
    assert(!crate::codable::spec_unit_like(v));
    match spec_variant_struct(cfg, ts, enum_name, variant_name, fs@) {
        Rendered::Text(decl) => {
            let sname = spec_variant_struct_name(
                cfg.struct_naming,
                cfg.naming,
                enum_name,
                variant_name,
            );
            reveal_strlit("public struct ");
            assert("public struct "@.len() == 14);
            assert(decl.subrange(14, 14 + sname.len() as int) =~= sname);
        },
        Rendered::Fail(_) => {},
    }
}

/// A self-referential tagged enum is declared with Swift's `indirect`
/// keyword, and a non-recursive one is not: right after its doc
/// header, the exported declaration opens with the keyword exactly
/// when the recursion detector flags the type.
pub proof fn lemma_recursive_enum_declared_indirect(
    cfg: Swift,
    ts: Seq<NamedDataType>,
    ndt: NamedDataType,
    custom_name: Seq<char>,
    e: crate::model::EnumType,
)
    requires
        ndt.ty == DataType::Enum(e),
        !e.string_enum,
        spec_export_type(cfg, ts, ndt, custom_name) is Text,
    ensures
        spec_is_recursive(ndt.ty, ndt.sid) ==> spec_export_type(
            cfg,
            ts,
            ndt,
            custom_name,
        )->Text_0.subrange(
            spec_header(ndt).len() as int,
            spec_header(ndt).len() as int + 21,
        ) == "public indirect enum "@,
        !spec_is_recursive(ndt.ty, ndt.sid) ==> spec_export_type(
            cfg,
            ts,
            ndt,
            custom_name,
        )->Text_0.subrange(
            spec_header(ndt).len() as int,
            spec_header(ndt).len() as int + 12,
        ) == "public enum "@,
{
    reveal_strlit("public indirect enum ");
    reveal_strlit("public enum ");
    let t = spec_export_type(cfg, ts, ndt, custom_name)->Text_0;
    let h = spec_header(ndt);
    if spec_is_recursive(ndt.ty, ndt.sid) {
        assert(t.subrange(h.len() as int, h.len() as int + 21) =~= "public indirect enum "@);
    } else {
        assert(t.subrange(h.len() as int, h.len() as int + 12) =~= "public enum "@);
    }
}

/// A direct self-reference is flagged for indirect representation; a
/// reference to any other registered type is not.
pub proof fn lemma_recursion_flagging(own: Sid, other: Sid, generics: Vec<DataType>)
    requires
        own != other,
    ensures
        spec_is_recursive(DataType::Reference { sid: own, generics }, own),
        !spec_is_recursive(DataType::Reference { sid: other, generics }, own),
        !spec_is_recursive(DataType::Primitive(crate::model::Primitive::I32), own),
{
}

} // verus!
