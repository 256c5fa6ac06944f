//! The export orchestrator: collection-wide name resolution,
//! duplicate-name policy, deterministic ordering and final assembly.

use vstd::prelude::*;

use crate::case_conversion::{spec_to_pascal_case, to_pascal_case};
use crate::config::{render_of, spec_convert, DuplicateNameStrategy, DuplicateNamer, ErrView,
    Error, Rendered, Swift};
use crate::declaration::{export_type_with_name, spec_export_type};
use crate::model::{NamedDataType, TypeCollection};
use crate::text::{char_at, push_str, str_eq, str_len, str_to_string};
use vstd::string::StrSliceExecFns;

verus! {

/// The base resolved name of entry `i`: its registered name under the
/// configured convention.
pub open spec fn spec_base(cfg: Swift, ts: Seq<NamedDataType>, i: int) -> Seq<char> {
    spec_convert(cfg.naming, ts[i].name@)
}

/// Entry `i` collides: some other entry resolves to the same base
/// name.
pub open spec fn spec_is_dup(cfg: Swift, ts: Seq<NamedDataType>, i: int) -> bool {
    exists|j: int|
        0 <= j < ts.len() && j != i && #[trigger] spec_base(cfg, ts, j) == spec_base(cfg, ts, i)
}

/// Position of the next `::` separator at or after `i`, or the length.
pub open spec fn first_sep(s: Seq<char>, i: int) -> int
    decreases s.len() - i,
{
    if i < 0 || i >= s.len() - 1 {
        s.len() as int
    } else if s[i] == ':' && s[i + 1] == ':' {
        i
    } else {
        first_sep(s, i + 1)
    }
}

proof fn lemma_first_sep_bounds(s: Seq<char>, i: int)
    requires
        0 <= i <= s.len(),
    ensures
        i <= first_sep(s, i) <= s.len(),
        first_sep(s, i) < s.len() ==> first_sep(s, i) + 2 <= s.len(),
        forall|j: int|
            i <= j < first_sep(s, i) && j < s.len() - 1 ==> !(#[trigger] s[j] == ':' && s[j + 1]
                == ':'),
        first_sep(s, i) < s.len() ==> s[first_sep(s, i)] == ':' && s[first_sep(s, i) + 1] == ':',
    decreases s.len() - i,
{
    if !(i < 0 || i >= s.len() - 1) && !(s[i] == ':' && s[i + 1] == ':') {
        lemma_first_sep_bounds(s, i + 1);
    }
}

/// The `::`-separated segments of a module path.
pub open spec fn spec_segments(s: Seq<char>) -> Seq<Seq<char>>
    decreases s.len(),
    via spec_segments_dec
{
    let j = first_sep(s, 0);
    if j >= s.len() {
        seq![s]
    } else {
        seq![s.take(j)] + spec_segments(s.skip(j + 2))
    }
}

#[via_fn]
proof fn spec_segments_dec(s: Seq<char>) {
    lemma_first_sep_bounds(s, 0);
}

/// The PascalCase forms of the segments from `k` on, concatenated.
pub open spec fn spec_pascal_concat(segs: Seq<Seq<char>>, k: int) -> Seq<char>
    decreases segs.len() - k,
{
    if k < 0 || k >= segs.len() {
        Seq::empty()
    } else {
        spec_to_pascal_case(segs[k]) + spec_pascal_concat(segs, k + 1)
    }
}

/// The qualified name of an entry: the case-converted module path
/// without its crate segment, prefixed to the registered name.
pub open spec fn spec_qualified(ndt: NamedDataType) -> Seq<char> {
    spec_pascal_concat(spec_segments(ndt.module@), 1) + ndt.name@
}

/// Split a module path on `::`.
fn split_segments(s: &str) -> (r: Vec<String>)
    ensures
        r@.map_values(|x: String| x@) == spec_segments(s@),
{
    let n = str_len(s);
    let mut segs: Vec<String> = Vec::new();
    let mut pos: usize = 0;
    proof {
        assert(s@.skip(0) =~= s@);
        assert(segs@.map_values(|x: String| x@) + spec_segments(s@) =~= spec_segments(s@));
    }
    loop
        invariant_except_break
            pos <= n,
            n == s@.len(),
            segs@.map_values(|x: String| x@) + spec_segments(s@.skip(pos as int)) =~= spec_segments(
                s@,
            ),
        ensures
            segs@.map_values(|x: String| x@) =~= spec_segments(s@),
        decreases n - pos,
    {
        let ghost suffix = s@.skip(pos as int);
        let ghost p0 = pos as int;
        let mut j: usize = pos;
        while n > 0 && j < n - 1 && !(char_at(s, j) == ':' && char_at(s, j + 1) == ':')
            invariant
                n == s@.len(),
                pos <= j <= n,
                forall|k: int|
                    pos <= k < j && k < n - 1 ==> !(#[trigger] s@[k] == ':' && s@[k + 1] == ':'),
            decreases n - j,
        {
            j = j + 1;
        }
        let sep_found = if n > 0 && j < n - 1 {
            char_at(s, j) == ':' && char_at(s, j + 1) == ':'
        } else {
            false
        };
        proof {
            lemma_first_sep_bounds(suffix, 0);
            assert forall|k: int|
                0 <= k < j - p0 && k < suffix.len() - 1 implies !(#[trigger] suffix[k] == ':'
                && suffix[k + 1] == ':') by {
                assert(suffix[k] == s@[p0 + k]);
                assert(suffix[k + 1] == s@[p0 + k + 1]);
            }
            if sep_found {
                assert(suffix[j - p0] == s@[j as int]);
                assert(suffix[j - p0 + 1] == s@[j + 1]);
                assert(first_sep(suffix, 0) == j - p0) by {
                    if first_sep(suffix, 0) < j - p0 {
                        assert(suffix[first_sep(suffix, 0)] == ':' && suffix[first_sep(suffix, 0)
                            + 1] == ':');
                    }
                }
            } else {
                assert(first_sep(suffix, 0) >= suffix.len()) by {
                    if first_sep(suffix, 0) < suffix.len() {
                        assert(first_sep(suffix, 0) + 2 <= suffix.len());
                        assert(suffix[first_sep(suffix, 0)] == ':');
                        assert(suffix[first_sep(suffix, 0) + 1] == ':');
                        assert(s@[p0 + first_sep(suffix, 0)] == ':');
                        assert(s@[p0 + first_sep(suffix, 0) + 1] == ':');
                    }
                }
            }
        }
        let end: usize = if sep_found {
            j
        } else {
            n
        };
        let seg = s.substring_char(pos, end);
        let mut owned = String::new();
        push_str(&mut owned, seg);
        segs.push(owned);
        if sep_found {
            pos = j + 2;
            proof {
                assert(seg@ =~= suffix.take(j - p0)) by {
                    assert(suffix.take(j - p0) =~= s@.subrange(p0, j as int));
                }
                assert(suffix.skip(j - p0 + 2) =~= s@.skip(pos as int));
                assert(spec_segments(suffix) == seq![suffix.take(j - p0)] + spec_segments(
                    s@.skip(pos as int),
                ));
                assert(segs@.map_values(|x: String| x@) + spec_segments(s@.skip(pos as int))
                    =~= spec_segments(s@));
            }
        } else {
            proof {
                assert(seg@ =~= suffix) by {
                    assert(suffix =~= s@.subrange(p0, n as int));
                }
                assert(spec_segments(suffix) == seq![suffix]);
                assert(segs@.map_values(|x: String| x@) =~= spec_segments(s@));
            }
            break;
        }
    }
    segs
}

/// Build the qualified name of an entry.
fn qualified_name(ndt: &NamedDataType) -> (r: String)
    ensures
        r@ == spec_qualified(*ndt),
{
    let segs = split_segments(ndt.module.as_str());
    let mut out = String::new();
    let mut k: usize = 1;
    let n = segs.len();
    proof {
        assert(segs@.map_values(|x: String| x@).len() == n);
    }
    while k < n
        invariant
            n == segs@.len(),
            segs@.map_values(|x: String| x@) == spec_segments(ndt.module@),
            1 <= k <= n || (n == 0 && k == 1),
            spec_pascal_concat(spec_segments(ndt.module@), 1) == out@ + spec_pascal_concat(
                spec_segments(ndt.module@),
                k as int,
            ),
        decreases n - k,
    {
        proof {
            assert(spec_segments(ndt.module@)[k as int] == segs@[k as int]@);
        }
        let p = to_pascal_case(segs[k].as_str());
        push_str(&mut out, p.as_str());
        proof {
            assert(spec_pascal_concat(spec_segments(ndt.module@), 1) =~= out@
                + spec_pascal_concat(spec_segments(ndt.module@), k + 1));
        }
        k = k + 1;
    }
    push_str(&mut out, ndt.name.as_str());
    out
}

/// Strict lexicographic order on character sequences, by code point.
pub open spec fn lex_lt(a: Seq<char>, b: Seq<char>) -> bool
    decreases a.len(),
{
    if b.len() == 0 {
        false
    } else if a.len() == 0 {
        true
    } else if (a[0] as u32) < (b[0] as u32) {
        true
    } else if (a[0] as u32) > (b[0] as u32) {
        false
    } else {
        lex_lt(a.skip(1), b.skip(1))
    }
}

/// Compare two strings lexicographically by character.
pub fn str_lex_lt(a: &str, b: &str) -> (r: bool)
    ensures
        r == lex_lt(a@, b@),
{
    let n = str_len(a);
    let m = str_len(b);
    let mut i: usize = 0;
    proof {
        assert(a@.skip(0) =~= a@);
        assert(b@.skip(0) =~= b@);
    }
    loop
        invariant_except_break
            n == a@.len(),
            m == b@.len(),
            i <= n,
            i <= m,
            lex_lt(a@, b@) == lex_lt(a@.skip(i as int), b@.skip(i as int)),
        ensures
            lex_lt(a@, b@) == lex_lt(a@.skip(i as int), b@.skip(i as int)),
            i <= n && i <= m,
            (i >= m) || (i >= n) || (a@[i as int] != b@[i as int]),
        decreases n - i,
    {
        if i >= m || i >= n {
            break;
        }
        if char_at(a, i) != char_at(b, i) {
            break;
        }
        proof {
            assert(a@.skip(i as int)[0] == a@[i as int]);
            assert(b@.skip(i as int)[0] == b@[i as int]);
            assert(a@.skip(i as int).skip(1) =~= a@.skip(i + 1));
            assert(b@.skip(i as int).skip(1) =~= b@.skip(i + 1));
        }
        i = i + 1;
    }
    if i >= m {
        proof {
            assert(b@.skip(i as int).len() == 0);
        }
        false
    } else if i >= n {
        proof {
            assert(a@.skip(i as int).len() == 0);
            assert(b@.skip(i as int).len() > 0);
        }
        true
    } else {
        let ca = char_at(a, i);
        let cb = char_at(b, i);
        proof {
            assert(a@.skip(i as int)[0] == a@[i as int]);
            assert(b@.skip(i as int)[0] == b@[i as int]);
            assert(a@.skip(i as int).len() > 0);
            assert(b@.skip(i as int).len() > 0);
        }
        (ca as u32) < (cb as u32)
    }
}

/// Strict order on sort keys: by resolved name, then by registration
/// position, which makes the order total over distinct positions.
pub open spec fn key_lt(a: (Seq<char>, int), b: (Seq<char>, int)) -> bool {
    lex_lt(a.0, b.0) || (a.0 == b.0 && a.1 < b.1)
}

/// Insert a key into an ordered run, before the first strictly
/// greater element.
pub open spec fn spec_insert(sorted: Seq<(Seq<char>, int)>, x: (Seq<char>, int)) -> Seq<
    (Seq<char>, int),
>
    decreases sorted.len(),
{
    if sorted.len() == 0 {
        seq![x]
    } else if key_lt(x, sorted[0]) {
        seq![x] + sorted
    } else {
        seq![sorted[0]] + spec_insert(sorted.skip(1), x)
    }
}

/// Insertion sort of the first `i` items.
pub open spec fn spec_sort(items: Seq<(Seq<char>, int)>, i: int) -> Seq<(Seq<char>, int)>
    decreases i,
{
    if i <= 0 {
        Seq::empty()
    } else {
        spec_insert(spec_sort(items, i - 1), items[i - 1])
    }
}

/// The key views of a vector of `(name, position)` pairs.
pub open spec fn kviews(v: Seq<(String, usize)>) -> Seq<(Seq<char>, int)> {
    v.map_values(|p: (String, usize)| (p.0@, p.1 as int))
}

/// Inserting before the first strictly greater element is what
/// `spec_insert` does.
proof fn lemma_insert_at(s: Seq<(Seq<char>, int)>, x: (Seq<char>, int), pos: int)
    requires
        0 <= pos <= s.len(),
        forall|j: int| 0 <= j < pos ==> !key_lt(x, #[trigger] s[j]),
        pos < s.len() ==> key_lt(x, s[pos]),
    ensures
        spec_insert(s, x) =~= s.take(pos) + seq![x] + s.skip(pos),
    decreases pos,
{
    if s.len() == 0 {
    } else if pos == 0 {
    } else {
        assert forall|j: int| 0 <= j < pos - 1 implies !key_lt(x, #[trigger] s.skip(1)[j]) by {
            assert(s.skip(1)[j] == s[j + 1]);
        }
        if pos - 1 < s.skip(1).len() {
            assert(s.skip(1)[pos - 1] == s[pos]);
        }
        lemma_insert_at(s.skip(1), x, pos - 1);
        assert(s.skip(1).take(pos - 1) =~= s.take(pos).skip(1));
        assert(s.skip(1).skip(pos - 1) =~= s.skip(pos));
    }
}

/// Insert an item into a keyed vector kept in sorted order.
fn insert_sorted(v: &mut Vec<(String, usize)>, item: (String, usize)) -> (r: ())
    ensures
        kviews(final(v)@) =~= spec_insert(kviews(old(v)@), (item.0@, item.1 as int)),
{
    let ghost orig = v@;
    let ghost x = (item.0@, item.1 as int);
    let n = v.len();
    let mut pos: usize = 0;
    while pos < n
        invariant_except_break
            v@ == orig,
            x == (item.0@, item.1 as int),
            n == orig.len(),
            pos <= n,
            forall|j: int| 0 <= j < pos ==> !key_lt(x, #[trigger] kviews(orig)[j]),
        ensures
            v@ == orig,
            x == (item.0@, item.1 as int),
            n == orig.len(),
            pos <= n,
            forall|j: int| 0 <= j < pos ==> !key_lt(x, #[trigger] kviews(orig)[j]),
            pos < n ==> key_lt(x, kviews(orig)[pos as int]),
        decreases n - pos,
    {
        let name_lt = str_lex_lt(item.0.as_str(), v[pos].0.as_str());
        let name_eq = str_eq(item.0.as_str(), v[pos].0.as_str());
        let idx_lt = item.1 < v[pos].1;
        let before = name_lt || (name_eq && idx_lt);
        proof {
            assert(kviews(orig)[pos as int] == (orig[pos as int].0@, orig[pos as int].1 as int));
            assert(name_lt == lex_lt(x.0, kviews(orig)[pos as int].0));
            assert(name_eq == (x.0 == kviews(orig)[pos as int].0));
            assert(idx_lt == (x.1 < kviews(orig)[pos as int].1));
            assert(before == key_lt(x, kviews(orig)[pos as int]));
        }
        if before {
            break;
        }
        pos = pos + 1;
    }
    proof {
        lemma_insert_at(kviews(orig), x, pos as int);
    }
    v.insert(pos, item);
    proof {
        assert(kviews(v@) =~= kviews(orig).take(pos as int) + seq![x] + kviews(orig).skip(
            pos as int,
        )) by {
            assert(v@ == orig.insert(pos as int, item));
            assert forall|k: int| 0 <= k < kviews(v@).len() implies kviews(v@)[k] == (kviews(
                orig,
            ).take(pos as int) + seq![x] + kviews(orig).skip(pos as int))[k] by {
                if k < pos {
                    assert(v@[k] == orig[k]);
                } else if k == pos {
                    assert(v@[k] == item);
                } else {
                    assert(v@[k] == orig[k - 1]);
                }
            }
        }
    }
}

/// The name an entry exports under before any caller-supplied
/// renaming: its registered name, or its qualified name when it
/// collides under the `Qualify` strategy.
pub open spec fn spec_default_custom(cfg: Swift, ts: Seq<NamedDataType>, i: int) -> Seq<char> {
    if cfg.duplicate_name_strategy == DuplicateNameStrategy::Qualify && spec_is_dup(cfg, ts, i) {
        spec_qualified(ts[i])
    } else {
        ts[i].name@
    }
}

/// Entry `i` survives resolution: under `Warn` only the last
/// registration of a colliding name is kept.
pub open spec fn spec_keep(cfg: Swift, ts: Seq<NamedDataType>, i: int) -> bool {
    !(cfg.duplicate_name_strategy == DuplicateNameStrategy::Warn && exists|j: int|
        i < j < ts.len() && #[trigger] spec_base(cfg, ts, j) == spec_base(cfg, ts, i))
}

/// The colliding resolved names, each listed once, in registration
/// order of first occurrence.
pub open spec fn spec_dup_list(cfg: Swift, ts: Seq<NamedDataType>, i: int) -> Seq<Seq<char>>
    decreases ts.len() - i,
{
    if i < 0 || i >= ts.len() {
        Seq::empty()
    } else if spec_is_dup(cfg, ts, i) && (forall|j: int|
        0 <= j < i ==> #[trigger] spec_base(cfg, ts, j) != spec_base(cfg, ts, i)) {
        seq![spec_base(cfg, ts, i)] + spec_dup_list(cfg, ts, i + 1)
    } else {
        spec_dup_list(cfg, ts, i + 1)
    }
}

/// The kept entries from `i` on, as `(sort key, position)` pairs in
/// registration order; the key is the final converted name.
pub open spec fn spec_items(
    cfg: Swift,
    ts: Seq<NamedDataType>,
    names: Seq<Seq<char>>,
    i: int,
) -> Seq<(Seq<char>, int)>
    decreases ts.len() - i,
{
    if i < 0 || i >= ts.len() {
        Seq::empty()
    } else if spec_keep(cfg, ts, i) {
        seq![(spec_convert(cfg.naming, names[i]), i)] + spec_items(cfg, ts, names, i + 1)
    } else {
        spec_items(cfg, ts, names, i + 1)
    }
}

/// The declarations of the sorted entries from `k` on, joined with a
/// blank line; the first failure wins.
pub open spec fn spec_assemble(
    cfg: Swift,
    ts: Seq<NamedDataType>,
    names: Seq<Seq<char>>,
    sorted: Seq<(Seq<char>, int)>,
    k: int,
) -> Rendered
    decreases sorted.len() - k,
{
    if k < 0 || k >= sorted.len() {
        Rendered::Text(Seq::empty())
    } else {
        match spec_export_type(cfg, ts, ts[sorted[k].1], names[sorted[k].1]) {
            Rendered::Fail(f) => Rendered::Fail(f),
            Rendered::Text(d) => if k == sorted.len() - 1 {
                Rendered::Text(d)
            } else {
                match spec_assemble(cfg, ts, names, sorted, k + 1) {
                    Rendered::Fail(f) => Rendered::Fail(f),
                    Rendered::Text(rest) => Rendered::Text(d + "\n\n"@ + rest),
                }
            },
        }
    }
}

/// The whole export, given the collection and the custom name of
/// every entry: abort with the collision list under `Error`, else
/// emit the kept declarations in ascending resolved-name order, blank
/// lines between them and a final newline.
pub open spec fn spec_export_given(
    cfg: Swift,
    ts: Seq<NamedDataType>,
    names: Seq<Seq<char>>,
) -> Rendered {
    if cfg.duplicate_name_strategy == DuplicateNameStrategy::Error && (exists|i: int|
        0 <= i < ts.len() && spec_is_dup(cfg, ts, i)) {
        Rendered::Fail(ErrView::Duplicates(spec_dup_list(cfg, ts, 0)))
    } else {
        let items = spec_items(cfg, ts, names, 0);
        let sorted = spec_sort(items, items.len() as int);
        if sorted.len() == 0 {
            Rendered::Text(Seq::empty())
        } else {
            match spec_assemble(cfg, ts, names, sorted, 0) {
                Rendered::Fail(f) => Rendered::Fail(f),
                Rendered::Text(t) => Rendered::Text(t + "\n"@),
            }
        }
    }
}

/// The default custom names of every entry.
pub open spec fn spec_default_names(cfg: Swift, ts: Seq<NamedDataType>) -> Seq<Seq<char>> {
    Seq::new(ts.len(), |i: int| spec_default_custom(cfg, ts, i))
}

/// The export under the default names: the full text of
/// [`Swift::export`].
pub open spec fn spec_export(cfg: Swift, ts: Seq<NamedDataType>) -> Rendered {
    spec_export_given(cfg, ts, spec_default_names(cfg, ts))
}

/// The base resolved name of every entry.
fn base_names(swift: &Swift, types: &TypeCollection) -> (r: Vec<String>)
    ensures
        r@.len() == types@.len(),
        forall|i: int| 0 <= i < types@.len() ==> (#[trigger] r@[i])@ == spec_base(*swift, types@, i),
{
    let n = types.len();
    let mut out: Vec<String> = Vec::new();
    let mut i: usize = 0;
    while i < n
        invariant
            n == types@.len(),
            i <= n,
            out@.len() == i,
            forall|k: int|
                0 <= k < i ==> (#[trigger] out@[k])@ == spec_base(*swift, types@, k),
        decreases n - i,
    {
        let b = swift.naming.convert(types.entry(i).name.as_str());
        out.push(b);
        i = i + 1;
    }
    out
}

/// Which entries collide on their base resolved name.
fn dup_flags(swift: &Swift, types: &TypeCollection, bases: &Vec<String>) -> (r: Vec<bool>)
    requires
        bases@.len() == types@.len(),
        forall|i: int|
            0 <= i < types@.len() ==> (#[trigger] bases@[i])@ == spec_base(*swift, types@, i),
    ensures
        r@.len() == types@.len(),
        forall|i: int| 0 <= i < types@.len() ==> #[trigger] r@[i] == spec_is_dup(*swift, types@, i),
{
    let n = types.len();
    let mut out: Vec<bool> = Vec::new();
    let mut i: usize = 0;
    while i < n
        invariant
            n == types@.len(),
            bases@.len() == n,
            forall|k: int|
                0 <= k < n ==> (#[trigger] bases@[k])@ == spec_base(*swift, types@, k),
            i <= n,
            out@.len() == i,
            forall|k: int| 0 <= k < i ==> #[trigger] out@[k] == spec_is_dup(*swift, types@, k),
        decreases n - i,
    {
        let mut found = false;
        let mut j: usize = 0;
        while j < n
            invariant
                n == types@.len(),
                bases@.len() == n,
                forall|k: int|
                    0 <= k < n ==> (#[trigger] bases@[k])@ == spec_base(*swift, types@, k),
                i < n,
                j <= n,
                found == exists|k: int|
                    0 <= k < j && k != i && #[trigger] spec_base(*swift, types@, k) == spec_base(
                        *swift,
                        types@,
                        i as int,
                    ),
            decreases n - j,
        {
            if j != i && str_eq(bases[j].as_str(), bases[i].as_str()) {
                found = true;
            }
            j = j + 1;
        }
        out.push(found);
        i = i + 1;
    }
    out
}

/// The colliding resolved names, first occurrences in registration
/// order.
fn dup_name_list(
    swift: &Swift,
    types: &TypeCollection,
    bases: &Vec<String>,
    dups: &Vec<bool>,
) -> (r: Vec<String>)
    requires
        bases@.len() == types@.len(),
        dups@.len() == types@.len(),
        forall|i: int|
            0 <= i < types@.len() ==> (#[trigger] bases@[i])@ == spec_base(*swift, types@, i),
        forall|i: int|
            0 <= i < types@.len() ==> #[trigger] dups@[i] == spec_is_dup(*swift, types@, i),
    ensures
        r@.map_values(|x: String| x@) == spec_dup_list(*swift, types@, 0),
{
    let n = types.len();
    let mut out: Vec<String> = Vec::new();
    let mut i: usize = 0;
    while i < n
        invariant
            n == types@.len(),
            bases@.len() == n,
            dups@.len() == n,
            forall|k: int|
                0 <= k < n ==> (#[trigger] bases@[k])@ == spec_base(*swift, types@, k),
            forall|k: int|
                0 <= k < n ==> #[trigger] dups@[k] == spec_is_dup(*swift, types@, k),
            i <= n,
            spec_dup_list(*swift, types@, 0) =~= out@.map_values(|x: String| x@) + spec_dup_list(
                *swift,
                types@,
                i as int,
            ),
        decreases n - i,
    {
        if dups[i] {
            let mut seen = false;
            let mut j: usize = 0;
            while j < i
                invariant
                    n == types@.len(),
                    bases@.len() == n,
                    forall|k: int|
                        0 <= k < n ==> (#[trigger] bases@[k])@ == spec_base(*swift, types@, k),
                    i < n,
                    j <= i,
                    seen == exists|k: int|
                        0 <= k < j && #[trigger] spec_base(*swift, types@, k) == spec_base(
                            *swift,
                            types@,
                            i as int,
                        ),
                decreases i - j,
            {
                if str_eq(bases[j].as_str(), bases[i].as_str()) {
                    seen = true;
                }
                j = j + 1;
            }
            if !seen {
                let b = bases[i].clone();
                out.push(b);
                proof {
                    assert(spec_dup_list(*swift, types@, 0) =~= out@.map_values(|x: String| x@)
                        + spec_dup_list(*swift, types@, i + 1));
                }
            }
        }
        i = i + 1;
    }
    out
}

/// Every key of an insertion keeps its position inside the bound.
proof fn lemma_insert_range(s: Seq<(Seq<char>, int)>, x: (Seq<char>, int), n: int)
    requires
        forall|k: int| 0 <= k < s.len() ==> 0 <= (#[trigger] s[k]).1 < n,
        0 <= x.1 < n,
    ensures
        forall|k: int|
            0 <= k < spec_insert(s, x).len() ==> 0 <= (#[trigger] spec_insert(s, x)[k]).1 < n,
    decreases s.len(),
{
    if s.len() == 0 {
    } else if key_lt(x, s[0]) {
    } else {
        assert forall|k: int| 0 <= k < s.skip(1).len() implies 0 <= (#[trigger] s.skip(1)[k]).1
            < n by {
            assert(s.skip(1)[k] == s[k + 1]);
        }
        lemma_insert_range(s.skip(1), x, n);
        assert forall|k: int|
            0 <= k < spec_insert(s, x).len() implies 0 <= (#[trigger] spec_insert(s, x)[k]).1
            < n by {
            if k > 0 {
                assert(spec_insert(s, x)[k] == spec_insert(s.skip(1), x)[k - 1]);
            }
        }
    }
}

/// A namer that keeps every registered name, used when no custom
/// namer is supplied.
pub struct IdentityNamer;

impl DuplicateNamer for IdentityNamer {
    fn rename(&self, ndt: &NamedDataType) -> String {
        crate::text::str_to_string(ndt.name.as_str())
    }
}

/// Resolve custom names, sort, and assemble the whole export.
#[verifier::rlimit(100)]
fn export_core<N: DuplicateNamer>(
    swift: &Swift,
    types: &TypeCollection,
    namer: Option<&N>,
) -> (r: Result<String, Error>)
    ensures
        namer is None ==> render_of(r) == spec_export(*swift, types@),
        exists|names: Seq<Seq<char>>|
            #![auto]
            names.len() == types@.len() && (forall|i: int|
                0 <= i < types@.len() && (swift.duplicate_name_strategy
                    != DuplicateNameStrategy::Custom || !spec_is_dup(*swift, types@, i))
                    ==> names[i] == spec_default_custom(*swift, types@, i)) && render_of(r)
                == spec_export_given(*swift, types@, names),
{
    let cfg = *swift;
    let n = types.len();
    let bases = base_names(swift, types);
    let dups = dup_flags(swift, types, &bases);
    let is_error_strategy = match swift.duplicate_name_strategy {
        DuplicateNameStrategy::Error => true,
        _ => false,
    };
    if is_error_strategy {
        let mut any = false;
        let mut i: usize = 0;
        while i < n
            invariant
                n == types@.len(),
                dups@.len() == n,
                forall|k: int|
                    0 <= k < n ==> #[trigger] dups@[k] == spec_is_dup(*swift, types@, k),
                i <= n,
                any == exists|k: int| 0 <= k < i && spec_is_dup(*swift, types@, k),
            decreases n - i,
        {
            if dups[i] {
                any = true;
            }
            i = i + 1;
        }
        if any {
            let list = dup_name_list(swift, types, &bases, &dups);
            let err = Error::DuplicateNames(list);
            proof {
                let w = spec_default_names(cfg, types@);
                assert(w.len() == types@.len());
                assert(forall|i2: int|
                    0 <= i2 < types@.len() ==> w[i2] == spec_default_custom(cfg, types@, i2));
                assert(spec_export_given(cfg, types@, w) == Rendered::Fail(err@));
            }
            return Result::Err(err);
        }
    }
    // resolve the custom name of every entry
    let mut names: Vec<String> = Vec::new();
    let mut i: usize = 0;
    while i < n
        invariant
            n == types@.len(),
            dups@.len() == n,
            cfg == *swift,
            forall|k: int| 0 <= k < n ==> #[trigger] dups@[k] == spec_is_dup(*swift, types@, k),
            i <= n,
            names@.len() == i,
            forall|k: int|
                0 <= k < i && (cfg.duplicate_name_strategy != DuplicateNameStrategy::Custom
                    || !spec_is_dup(cfg, types@, k)) ==> (#[trigger] names@[k])@
                    == spec_default_custom(cfg, types@, k),
            namer is None ==> forall|k: int|
                0 <= k < i ==> (#[trigger] names@[k])@ == spec_default_custom(cfg, types@, k),
        decreases n - i,
    {
        let entry = types.entry(i);
        let is_qualify = match swift.duplicate_name_strategy {
            DuplicateNameStrategy::Qualify => true,
            _ => false,
        };
        let is_custom = match swift.duplicate_name_strategy {
            DuplicateNameStrategy::Custom => true,
            _ => false,
        };
        let name: String = if dups[i] && is_qualify {
            qualified_name(entry)
        } else if dups[i] && is_custom {
            match namer {
                Option::Some(nm) => nm.rename(entry),
                Option::None => crate::text::str_to_string(entry.name.as_str()),
            }
        } else {
            crate::text::str_to_string(entry.name.as_str())
        };
        names.push(name);
        i = i + 1;
    }
    let ghost names_view = names@.map_values(|x: String| x@);
    // keep only the surviving entries, keyed by final resolved name
    let is_warn = match swift.duplicate_name_strategy {
        DuplicateNameStrategy::Warn => true,
        _ => false,
    };
    let mut items: Vec<(String, usize)> = Vec::new();
    let mut i2: usize = 0;
    while i2 < n
        invariant
            n == types@.len(),
            bases@.len() == n,
            names@.len() == n,
            cfg == *swift,
            names_view == names@.map_values(|x: String| x@),
            is_warn == (cfg.duplicate_name_strategy == DuplicateNameStrategy::Warn),
            forall|k: int|
                0 <= k < n ==> (#[trigger] bases@[k])@ == spec_base(*swift, types@, k),
            i2 <= n,
            kviews(items@) + spec_items(cfg, types@, names_view, i2 as int) =~= spec_items(
                cfg,
                types@,
                names_view,
                0,
            ),
            forall|k: int|
                0 <= k < items@.len() ==> 0 <= (#[trigger] kviews(items@)[k]).1 < n as int,
        decreases n - i2,
    {
        let keep: bool = if is_warn {
            let mut later = false;
            let mut j: usize = i2 + 1;
            while j < n
                invariant
                    n == types@.len(),
                    bases@.len() == n,
                    forall|k: int|
                        0 <= k < n ==> (#[trigger] bases@[k])@ == spec_base(*swift, types@, k),
                    i2 < n,
                    i2 < j <= n,
                    later == exists|k: int|
                        i2 < k < j && #[trigger] spec_base(*swift, types@, k) == spec_base(
                            *swift,
                            types@,
                            i2 as int,
                        ),
                decreases n - j,
            {
                if str_eq(bases[j].as_str(), bases[i2].as_str()) {
                    later = true;
                }
                j = j + 1;
            }
            !later
        } else {
            true
        };
        proof {
            assert(keep == spec_keep(cfg, types@, i2 as int));
        }
        if keep {
            let key = swift.naming.convert(names[i2].as_str());
            let ghost old_items = kviews(items@);
            items.push((key, i2));
            proof {
                assert(names_view[i2 as int] == names@[i2 as int]@);
                assert(kviews(items@) =~= old_items + seq![
                    (spec_convert(cfg.naming, names_view[i2 as int]), i2 as int),
                ]);
                assert(kviews(items@) + spec_items(cfg, types@, names_view, i2 + 1)
                    =~= spec_items(cfg, types@, names_view, 0));
            }
        }
        i2 = i2 + 1;
    }
    proof {
        assert(spec_items(cfg, types@, names_view, n as int) =~= Seq::<(Seq<char>, int)>::empty());
        assert(kviews(items@) =~= spec_items(cfg, types@, names_view, 0));
    }
    // sort by resolved name, then registration position
    let m = items.len();
    let mut sorted: Vec<(String, usize)> = Vec::new();
    let mut k: usize = 0;
    while k < m
        invariant
            m == items@.len(),
            n == types@.len(),
            forall|t: int|
                0 <= t < items@.len() ==> 0 <= (#[trigger] kviews(items@)[t]).1 < n as int,
            k <= m,
            kviews(sorted@) =~= spec_sort(kviews(items@), k as int),
            forall|t: int|
                0 <= t < sorted@.len() ==> 0 <= (#[trigger] kviews(sorted@)[t]).1 < n as int,
        decreases m - k,
    {
        let key = items[k].0.clone();
        let idx = items[k].1;
        proof {
            assert(kviews(items@)[k as int] == (items@[k as int].0@, items@[k as int].1 as int));
        }
        let ghost pre = kviews(sorted@);
        insert_sorted(&mut sorted, (key, idx));
        proof {
            lemma_insert_range(pre, (items@[k as int].0@, items@[k as int].1 as int), n as int);
        }
        k = k + 1;
    }
    // assemble in sorted order
    let ghost sorted_spec = spec_sort(kviews(items@), items@.len() as int);
    proof {
        assert(kviews(sorted@) =~= sorted_spec);
    }
    let ghost items_spec = spec_items(cfg, types@, names_view, 0);
    proof {
        assert(sorted_spec == spec_sort(items_spec, items_spec.len() as int));
    }
    let mut out = String::new();
    let mut k2: usize = 0;
    let sn = sorted.len();
    while k2 < sn
        invariant
            sn == sorted@.len(),
            n == types@.len(),
            names@.len() == n,
            cfg == *swift,
            names_view == names@.map_values(|x: String| x@),
            kviews(sorted@) =~= sorted_spec,
            items_spec == spec_items(cfg, types@, names_view, 0),
            sorted_spec == spec_sort(items_spec, items_spec.len() as int),
            !(cfg.duplicate_name_strategy == DuplicateNameStrategy::Error && exists|t: int|
                0 <= t < types@.len() && spec_is_dup(cfg, types@, t)),
            forall|t: int|
                0 <= t < n && (cfg.duplicate_name_strategy != DuplicateNameStrategy::Custom
                    || !spec_is_dup(cfg, types@, t)) ==> names_view[t] == spec_default_custom(
                    cfg,
                    types@,
                    t,
                ),
            forall|t: int|
                0 <= t < sorted@.len() ==> 0 <= (#[trigger] kviews(sorted@)[t]).1 < n as int,
            namer is None ==> names_view =~~= spec_default_names(cfg, types@),
            k2 <= sn,
            match spec_assemble(cfg, types@, names_view, sorted_spec, k2 as int) {
                Rendered::Text(rest) => spec_assemble(cfg, types@, names_view, sorted_spec, 0)
                    == Rendered::Text(
                    if k2 == 0 {
                        rest
                    } else if k2 < sn {
                        out@ + "\n\n"@ + rest
                    } else {
                        out@
                    },
                ),
                Rendered::Fail(f) => spec_assemble(cfg, types@, names_view, sorted_spec, 0)
                    == Rendered::Fail(f),
            },
            k2 == 0 ==> out@ == Seq::<char>::empty(),
        decreases sn - k2,
    {
        let idx = sorted[k2].1;
        proof {
            assert(kviews(sorted@)[k2 as int] == (sorted@[k2 as int].0@, sorted@[
                k2 as int].1 as int));
            assert(sorted_spec[k2 as int].1 == idx as int);
            assert(names_view[idx as int] == names@[idx as int]@);
        }
        let entry = types.entry(idx);
        match export_type_with_name(swift, types, entry, names[idx].as_str()) {
            Result::Err(e) => {
                proof {
                    assert(spec_assemble(cfg, types@, names_view, sorted_spec, k2 as int)
                        == Rendered::Fail(e@));
                    assert(spec_assemble(cfg, types@, names_view, sorted_spec, 0)
                        == Rendered::Fail(e@));
                    assert(sorted_spec.len() > 0);
                    assert(spec_export_given(cfg, types@, names_view) == Rendered::Fail(e@));
                    assert(names_view.len() == types@.len());
                    if namer is None {
                        assert(names_view =~~= spec_default_names(cfg, types@));
                        assert(spec_export_given(cfg, types@, names_view) == spec_export(
                            cfg,
                            types@,
                        ));
                    }
                }
                return Result::Err(e);
            },
            Result::Ok(d) => {
                let ghost old_out = out@;
                if k2 > 0 {
                    push_str(&mut out, "\n\n");
                }
                push_str(&mut out, d.as_str());
                proof {
                    if k2 + 1 < sn {
                        match spec_assemble(cfg, types@, names_view, sorted_spec, k2 + 1) {
                            Rendered::Text(rest2) => {
                                assert((if k2 == 0 {
                                    d@ + "\n\n"@ + rest2
                                } else {
                                    old_out + "\n\n"@ + (d@ + "\n\n"@ + rest2)
                                }) =~= out@ + "\n\n"@ + rest2);
                            },
                            Rendered::Fail(f) => {},
                        }
                    } else {
                        assert((if k2 == 0 {
                            d@
                        } else {
                            old_out + "\n\n"@ + d@
                        }) =~= out@);
                    }
                }
            },
        }
        k2 = k2 + 1;
    }
    let ghost body = out@;
    if sn > 0 {
        push_str(&mut out, "\n");
    }
    proof {
        assert(names_view.len() == types@.len());
        if sn == 0 {
            assert(sorted_spec.len() == 0);
            assert(spec_export_given(cfg, types@, names_view) == Rendered::Text(out@));
        } else {
            assert(spec_assemble(cfg, types@, names_view, sorted_spec, sn as int)
                == Rendered::Text(Seq::<char>::empty()));
            assert(spec_assemble(cfg, types@, names_view, sorted_spec, 0) == Rendered::Text(body));
            assert(spec_export_given(cfg, types@, names_view) == Rendered::Text(body + "\n"@));
            assert(out@ == body + "\n"@);
        }
        if namer is None {
            assert(names_view =~~= spec_default_names(cfg, types@));
            assert(spec_export_given(cfg, types@, names_view) == spec_export(cfg, types@));
        }
    }
    Result::Ok(out)
}

impl Swift {
    /// Export a whole collection to Swift source text.  Under the
    /// `Custom` duplicate-name strategy this applies no renaming; use
    /// [`Swift::export_with_namer`] to supply one.
    pub fn export(&self, types: &TypeCollection) -> (r: Result<String, Error>)
        ensures
            render_of(r) == spec_export(*self, types@),
    {
        export_core::<IdentityNamer>(self, types, Option::None)
    }

    /// Export a whole collection, renaming colliding types through
    /// the given namer when the `Custom` strategy is configured.  The
    /// namer's output is not re-validated for uniqueness.
    pub fn export_with_namer<N: DuplicateNamer>(&self, types: &TypeCollection, namer: &N) -> (r:
        Result<String, Error>)
        ensures
            exists|names: Seq<Seq<char>>|
                #![auto]
                names.len() == types@.len() && (forall|i: int|
                    0 <= i < types@.len() && (self.duplicate_name_strategy
                        != DuplicateNameStrategy::Custom || !spec_is_dup(*self, types@, i))
                        ==> names[i] == spec_default_custom(*self, types@, i)) && render_of(r)
                    == spec_export_given(*self, types@, names),
    {
        export_core(self, types, Option::Some(namer))
    }

    /// The collision diagnostics of the collection: each colliding
    /// resolved name once, in registration order.  The export itself
    /// never embeds them in generated text.
    pub fn duplicate_diagnostics(&self, types: &TypeCollection) -> (r: Vec<String>)
        ensures
            r@.map_values(|x: String| x@) == spec_dup_list(*self, types@, 0),
    {
        let bases = base_names(self, types);
        let dups = dup_flags(self, types, &bases);
        dup_name_list(self, types, &bases, &dups)
    }
}

} // verus!
