//! Laws that relate several operator constructors, stated over the
//! spec functions their contracts use and proved from them.
use vstd::prelude::*;

use crate::expression::{OpaqueId, Predicate};
use crate::join::{EquiPair, EquiPairs, JoinOn};
use crate::limits::MAX_SCHEMA_ATTRIBUTES;
use crate::op::{
    concat_result, equi_from, header_op, join_collapses, join_result, keep_not_in, lens_target,
    natural_from, nest_result, pick_from, project_result, rename_attrs, rename_result, shared_from,
    splice, summarize_result, unnest_result, aggs_from, extend_result, modify_result,
    OpErrorV,
};
use crate::expression::{has_aggregate, Expression};
use crate::infer::infer_spec;
use crate::infer::{agg_spec, binop_spec, numeric, unop_spec, InferErrorV};
use crate::op_enums::{BinOp, JoinKind, NamedAgg, UnOp};
use crate::path::AnyPath;
use crate::refine::{dup_before, first_dup, is_first_dup, keys_unique, lemma_first_dup_unique};
use crate::schema::{
    attr_named, has_attr, header_ok, header_result, names_of, AttrV, SchemaError, TypeV,
};

verus! {

/// No attribute name occurs in both headers.
pub open spec fn names_disjoint(l: Seq<AttrV>, r: Seq<AttrV>) -> bool {
    forall|i: int, j: int| 0 <= i < l.len() && 0 <= j < r.len() ==> l[i].name != r[j].name
}

proof fn lemma_natural_disjoint(l: Seq<AttrV>, r: Seq<AttrV>, i: int, acc: Seq<Seq<char>>)
    requires
        names_disjoint(l, r),
        0 <= i,
    ensures
        natural_from(l, r, i, acc) == Ok::<Seq<Seq<char>>, OpErrorV>(acc),
    decreases l.len() - i,
{
    if i < l.len() {
        if has_attr(r, l[i].name) {
            let j = choose|j: int| 0 <= j < r.len() && #[trigger] r[j].name == l[i].name;
            assert(l[i].name != r[j].name);
        }
        lemma_natural_disjoint(l, r, i + 1, acc);
    }
}

proof fn lemma_shared_disjoint(l: Seq<AttrV>, r: Seq<AttrV>, i: int)
    requires
        names_disjoint(l, r),
        0 <= i,
    ensures
        shared_from(l, r, i) is None,
    decreases r.len() - i,
{
    if i < r.len() {
        if has_attr(l, r[i].name) {
            let j = choose|j: int| 0 <= j < l.len() && #[trigger] l[j].name == r[i].name;
            assert(l[j].name != r[i].name);
        }
        lemma_shared_disjoint(l, r, i + 1);
    }
}

proof fn lemma_keep_none(r: Seq<AttrV>)
    ensures
        keep_not_in(r, Seq::empty()) == r,
    decreases r.len(),
{
    if r.len() > 0 {
        lemma_keep_none(r.drop_last());
        assert(r.drop_last().push(r.last()) =~= r);
    }
}

/// A natural inner join of operands that share no attribute name has
/// the outcome of their Cartesian product, and the constructor builds a
/// product node for it.
pub proof fn law_natural_inner_join_of_disjoint_is_product(l: Seq<AttrV>, r: Seq<AttrV>)
    requires
        names_disjoint(l, r),
    ensures
        join_collapses(l, r, JoinKind::Inner, JoinOn::Natural),
        join_result(l, r, JoinKind::Inner, JoinOn::Natural) == concat_result(l, r),
{
    lemma_natural_disjoint(l, r, 0, Seq::empty());
}

/// A natural outer join of operands that share no attribute name keeps
/// its join shape and has the outcome of their product: every
/// attribute of both sides, left first.
pub proof fn law_natural_outer_join_of_disjoint_keeps_all(
    l: Seq<AttrV>,
    r: Seq<AttrV>,
    kind: JoinKind,
)
    requires
        names_disjoint(l, r),
        !(kind is Inner),
    ensures
        !join_collapses(l, r, kind, JoinOn::Natural),
        join_result(l, r, kind, JoinOn::Natural) == header_op(l + r),
        join_result(l, r, kind, JoinOn::Natural) == concat_result(l, r),
{
    lemma_natural_disjoint(l, r, 0, Seq::empty());
    lemma_keep_none(r);
    lemma_shared_disjoint(l, r, 0);
}

proof fn lemma_header_of_valid(s: Seq<AttrV>)
    requires
        header_ok(s),
    ensures
        header_op(s) == Ok::<Seq<AttrV>, OpErrorV>(s),
{
}

/// Renaming `a` to a fresh name `b` succeeds, and renaming `b` back to
/// `a` restores the original header.
pub proof fn law_rename_round_trip(s: Seq<AttrV>, a: Seq<char>, b: Seq<char>)
    requires
        header_ok(s),
        has_attr(s, a),
        !has_attr(s, b),
    ensures
        rename_result(s, a, b) == Ok::<Seq<AttrV>, OpErrorV>(rename_attrs(s, a, b)),
        rename_result(rename_attrs(s, a, b), b, a) == Ok::<Seq<AttrV>, OpErrorV>(s),
{
    let t = rename_attrs(s, a, b);
    let i = choose|i: int| 0 <= i < s.len() && #[trigger] s[i].name == a;
    assert(a != b) by {
        assert(s[i].name == a);
    }
    // the renamed header is still valid: one name changed to a fresh one
    assert(keys_unique(names_of(t))) by {
        assert forall|x: int, y: int|
            0 <= x < names_of(t).len() && 0 <= y < names_of(t).len() && x != y implies names_of(
            t,
        )[x] != names_of(t)[y] by {
            assert(names_of(s)[x] != names_of(s)[y]);
            if s[x].name == a {
                assert(s[y].name != b);
            }
            if s[y].name == a {
                assert(s[x].name != b);
            }
        }
    }
    lemma_header_of_valid(t);
    // renaming back
    assert(t[i].name == b);
    assert(has_attr(t, b));
    assert(!has_attr(t, a)) by {
        if has_attr(t, a) {
            let k = choose|k: int| 0 <= k < t.len() && #[trigger] t[k].name == a;
            assert(s[k].name != a);
            assert(s[k].name == a);
        }
    }
    assert(rename_attrs(t, b, a) =~= s) by {
        assert forall|k: int| 0 <= k < s.len() implies rename_attrs(t, b, a)[k] == s[k] by {
            if s[k].name == a {
            } else {
                assert(s[k].name != b);
            }
        }
    }
    lemma_header_of_valid(s);
}

proof fn lemma_splice_absent(s: Seq<AttrV>, t: Seq<char>, sub: Seq<AttrV>)
    requires
        forall|k: int| 0 <= k < s.len() ==> #[trigger] s[k].name != t,
    ensures
        splice(s, t, sub) == s,
    decreases s.len(),
{
    if s.len() > 0 {
        lemma_splice_absent(s.drop_last(), t, sub);
        assert(s.drop_last() + seq![s.last()] =~= s);
    }
}

proof fn lemma_keep_excludes(s: Seq<AttrV>, names: Seq<Seq<char>>, k: int)
    requires
        0 <= k < keep_not_in(s, names).len(),
    ensures
        !names.contains(keep_not_in(s, names)[k].name),
        exists|j: int| 0 <= j < s.len() && #[trigger] s[j] == keep_not_in(s, names)[k],
    decreases s.len(),
{
    if s.len() > 0 {
        let rest = keep_not_in(s.drop_last(), names);
        if names.contains(s.last().name) {
            lemma_keep_excludes(s.drop_last(), names, k);
            let j = choose|j: int| 0 <= j < s.drop_last().len() && #[trigger] s.drop_last()[j]
                == keep_not_in(s, names)[k];
            assert(s[j] == s.drop_last()[j]);
        } else if k < rest.len() {
            lemma_keep_excludes(s.drop_last(), names, k);
            let j = choose|j: int| 0 <= j < s.drop_last().len() && #[trigger] s.drop_last()[j]
                == keep_not_in(s, names)[k];
            assert(s[j] == s.drop_last()[j]);
        } else {
            assert(s[s.len() - 1] == keep_not_in(s, names)[k]);
        }
    }
}

/// Unnesting the column that a nest just built gives back the attributes
/// that stayed, followed by the nested ones in the order they were
/// named; `into` must be fresh or one of the nested names.
pub proof fn law_unnest_after_nest(
    s: Seq<AttrV>,
    names: Seq<Seq<char>>,
    into: Seq<char>,
    path: AnyPath,
    nested: Seq<AttrV>,
)
    requires
        header_ok(s),
        !has_attr(s, into) || names.contains(into),
        pick_from(s, names, 0, Seq::empty()) == Ok::<Seq<AttrV>, OpErrorV>(nested),
        header_ok(nested),
        lens_target(path) == Some(into),
    ensures
        nest_result(s, names, into) == header_op(
            keep_not_in(s, names).push(AttrV { name: into, ty: TypeV::Relation(nested) }),
        ),
        nest_result(s, names, into) matches Ok(n) ==> unnest_result(n, path) == header_op(
            keep_not_in(s, names) + nested,
        ),
{
    let keep = keep_not_in(s, names);
    let n = keep.push(AttrV { name: into, ty: TypeV::Relation(nested) });
    lemma_header_of_valid(nested);
    if nest_result(s, names, into) is Ok {
        assert(header_ok(n));
        assert forall|k: int| 0 <= k < keep.len() implies #[trigger] keep[k].name != into by {
            lemma_keep_excludes(s, names, k);
            let j = choose|j: int| 0 <= j < s.len() && #[trigger] s[j] == keep[k];
            if keep[k].name == into {
                assert(s[j].name == into);
                assert(has_attr(s, into));
            }
        }
        let last = n.len() - 1;
        assert(n[last].name == into);
        lemma_attr_named_last(n, into);
        lemma_splice_absent(keep, into, nested);
        assert(n.drop_last() =~= keep);
        assert(splice(n, into, nested) == splice(keep, into, nested) + nested);
    }
}

proof fn lemma_attr_named_last(n: Seq<AttrV>, into: Seq<char>)
    requires
        header_ok(n),
        n.len() > 0,
        n.last().name == into,
    ensures
        has_attr(n, into),
        attr_named(n, into) == n.last(),
{
    crate::schema::lemma_attr_named(n, into, n.len() - 1);
}

/// The attributes of `s` named by `names`, in the order of `names`.
pub open spec fn picked(s: Seq<AttrV>, names: Seq<Seq<char>>) -> Seq<AttrV> {
    Seq::new(names.len(), |k: int| attr_named(s, names[k]))
}

/// Every name of `names` is the name of an attribute of `s`.
pub open spec fn all_present(s: Seq<AttrV>, names: Seq<Seq<char>>) -> bool {
    forall|k: int| 0 <= k < names.len() ==> has_attr(s, #[trigger] names[k])
}

proof fn lemma_pick(s: Seq<AttrV>, names: Seq<Seq<char>>, i: int, acc: Seq<AttrV>)
    requires
        0 <= i <= names.len(),
        all_present(s, names),
    ensures
        pick_from(s, names, i, acc) == Ok::<Seq<AttrV>, OpErrorV>(
            acc + picked(s, names).subrange(i, names.len() as int),
        ),
    decreases names.len() - i,
{
    let p = picked(s, names);
    if i < names.len() {
        assert(has_attr(s, names[i]));
        lemma_pick(s, names, i + 1, acc.push(attr_named(s, names[i])));
        assert(acc.push(attr_named(s, names[i])) + p.subrange(i + 1, names.len() as int) =~= acc
            + p.subrange(i, names.len() as int));
    } else {
        assert(acc + p.subrange(i, names.len() as int) =~= acc);
    }
}

proof fn lemma_picked_names(s: Seq<AttrV>, names: Seq<Seq<char>>)
    requires
        all_present(s, names),
    ensures
        names_of(picked(s, names)) == names,
{
    assert forall|k: int| 0 <= k < names.len() implies #[trigger] names_of(picked(s, names))[k]
        == names[k] by {
        assert(has_attr(s, names[k]));
    }
    assert(names_of(picked(s, names)) =~= names);
}

proof fn lemma_concat_unique(a: Seq<AttrV>, b: Seq<AttrV>)
    requires
        keys_unique(names_of(a)),
        keys_unique(names_of(b)),
        names_disjoint(a, b),
    ensures
        keys_unique(names_of(a + b)),
{
    let c = a + b;
    assert forall|x: int, y: int|
        0 <= x < names_of(c).len() && 0 <= y < names_of(c).len() && x != y implies names_of(c)[x]
        != names_of(c)[y] by {
        if x < a.len() && y < a.len() {
            assert(names_of(a)[x] != names_of(a)[y]);
        } else if x >= a.len() && y >= a.len() {
            assert(names_of(b)[x - a.len()] != names_of(b)[y - a.len()]);
        } else if x < a.len() {
            assert(a[x].name != b[y - a.len()].name);
        } else {
            assert(a[y].name != b[x - a.len()].name);
        }
    }
}

proof fn lemma_keep_unique(s: Seq<AttrV>, names: Seq<Seq<char>>)
    requires
        keys_unique(names_of(s)),
    ensures
        keys_unique(names_of(keep_not_in(s, names))),
        keep_not_in(s, names).len() <= s.len(),
    decreases s.len(),
{
    if s.len() > 0 {
        let d = s.drop_last();
        assert(keys_unique(names_of(d))) by {
            assert forall|x: int, y: int|
                0 <= x < names_of(d).len() && 0 <= y < names_of(d).len() && x != y implies names_of(
                d,
            )[x] != names_of(d)[y] by {
                assert(names_of(s)[x] != names_of(s)[y]);
            }
        }
        lemma_keep_unique(d, names);
        let kd = keep_not_in(d, names);
        assert forall|k: int| 0 <= k < kd.len() implies #[trigger] kd[k].name != s.last().name by {
            lemma_keep_excludes(d, names, k);
            let j = choose|j: int| 0 <= j < d.len() && #[trigger] d[j] == kd[k];
            assert(names_of(s)[j] != names_of(s)[s.len() - 1]);
        }
        if !names.contains(s.last().name) {
            let kk = kd.push(s.last());
            assert forall|x: int, y: int|
                0 <= x < names_of(kk).len() && 0 <= y < names_of(kk).len() && x != y implies names_of(
                kk,
            )[x] != names_of(kk)[y] by {
                if x < kd.len() && y < kd.len() {
                    assert(names_of(kd)[x] != names_of(kd)[y]);
                } else if x < kd.len() {
                    assert(kd[x].name != s.last().name);
                } else {
                    assert(kd[y].name != s.last().name);
                }
            }
        }
    }
}

/// Among the first-repeat positions of `keys` there is one as soon as
/// the keys are not pairwise distinct.
proof fn lemma_first_dup_exists(keys: Seq<Seq<char>>)
    requires
        !keys_unique(keys),
    ensures
        is_first_dup(keys, first_dup(keys)),
    decreases keys.len(),
{
    let n = keys.len();
    let d = keys.drop_last();
    if keys_unique(d) {
        let (x, y) = choose|x: int, y: int|
            0 <= x < n && 0 <= y < n && x != y && keys[x] == keys[y];
        if x < n - 1 && y < n - 1 {
            assert(d[x] == d[y]);
        }
        let lo = if x < y { x } else { y };
        assert(keys[lo] == keys[n - 1]);
        assert(dup_before(keys, n - 1));
        assert(keys.take(n - 1) =~= d);
        assert(is_first_dup(keys, n - 1));
    } else {
        lemma_first_dup_exists(d);
        let j = first_dup(d);
        assert(keys.take(j) =~= d.take(j));
        let i = choose|i: int| 0 <= i < j && #[trigger] d[i] == d[j];
        assert(keys[i] == keys[j]);
        assert(is_first_dup(keys, j));
    }
    let j0 = choose|j: int| is_first_dup(keys, j);
    lemma_first_dup_unique(keys, j0);
}

/// A header of admissible length whose names repeat is reported at
/// the least position whose name already occurred earlier.
pub proof fn law_schema_reports_least_duplicate(s: Seq<AttrV>)
    requires
        1 <= s.len() <= MAX_SCHEMA_ATTRIBUTES,
        !keys_unique(names_of(s)),
    ensures
        header_result(s) matches Err(SchemaError::DuplicateAttribute { index }) && dup_before(
            names_of(s),
            index as int,
        ) && forall|k: int| 0 <= k < index ==> !#[trigger] dup_before(names_of(s), k),
{
    let keys = names_of(s);
    lemma_first_dup_exists(keys);
    let j = first_dup(keys);
    assert forall|k: int| 0 <= k < j implies !#[trigger] dup_before(keys, k) by {
        if dup_before(keys, k) {
            let i = choose|i: int| 0 <= i < k && #[trigger] keys[i] == keys[k];
            assert(keys.take(j)[i] == keys.take(j)[k]);
        }
    }
}

/// Projecting onto names that are distinct, at most
/// `MAX_SCHEMA_ATTRIBUTES`, at least one, and all present in a valid
/// header succeeds with the named attributes in the order given; and
/// projecting that result onto the same names gives it back.
pub proof fn law_project_valid_and_idempotent(s: Seq<AttrV>, names: Seq<Seq<char>>)
    requires
        header_ok(s),
        1 <= names.len() <= MAX_SCHEMA_ATTRIBUTES,
        keys_unique(names),
        all_present(s, names),
    ensures
        project_result(s, names) == Ok::<Seq<AttrV>, OpErrorV>(picked(s, names)),
        project_result(picked(s, names), names) == Ok::<Seq<AttrV>, OpErrorV>(picked(s, names)),
{
    let h = picked(s, names);
    lemma_pick(s, names, 0, Seq::empty());
    assert(Seq::<AttrV>::empty() + h.subrange(0, names.len() as int) =~= h);
    lemma_picked_names(s, names);
    lemma_header_of_valid(h);
    assert(all_present(h, names)) by {
        assert forall|k: int| 0 <= k < names.len() implies has_attr(h, #[trigger] names[k]) by {
            assert(h[k].name == names[k]);
        }
    }
    assert(picked(h, names) =~= h) by {
        assert forall|k: int| 0 <= k < names.len() implies picked(h, names)[k] == h[k] by {
            crate::schema::lemma_attr_named(h, names[k], k);
        }
    }
    lemma_pick(h, names, 0, Seq::empty());
}

proof fn lemma_natural_collects(
    l: Seq<AttrV>,
    r: Seq<AttrV>,
    i: int,
    acc: Seq<Seq<char>>,
    shared: Seq<Seq<char>>,
)
    requires
        0 <= i,
        natural_from(l, r, i, acc) == Ok::<Seq<Seq<char>>, OpErrorV>(shared),
    ensures
        forall|k: int| i <= k < l.len() && has_attr(r, #[trigger] l[k].name) ==> shared.contains(
            l[k].name,
        ),
        forall|m: Seq<char>| acc.contains(m) ==> shared.contains(m),
    decreases l.len() - i,
{
    if i < l.len() {
        if has_attr(r, l[i].name) {
            let acc2 = acc.push(l[i].name);
            lemma_natural_collects(l, r, i + 1, acc2, shared);
            assert(acc2.contains(l[i].name)) by {
                assert(acc2[acc.len() as int] == l[i].name);
            }
            assert forall|m: Seq<char>| acc.contains(m) implies shared.contains(m) by {
                let x = choose|x: int| 0 <= x < acc.len() && acc[x] == m;
                assert(acc2[x] == m);
            }
        } else {
            lemma_natural_collects(l, r, i + 1, acc, shared);
        }
    }
}

proof fn lemma_shared_none(l: Seq<AttrV>, r: Seq<AttrV>, i: int)
    requires
        0 <= i,
        shared_from(l, r, i) is None,
    ensures
        forall|j: int| i <= j < r.len() ==> !has_attr(l, #[trigger] r[j].name),
    decreases r.len() - i,
{
    if i < r.len() {
        lemma_shared_none(l, r, i + 1);
    }
}

proof fn lemma_disjoint_concat(l: Seq<AttrV>, r: Seq<AttrV>)
    requires
        header_ok(l),
        header_ok(r),
        l.len() + r.len() <= MAX_SCHEMA_ATTRIBUTES,
    ensures
        concat_result(l, r) == match shared_from(l, r, 0) {
            Some(n) => Err::<Seq<AttrV>, OpErrorV>(OpErrorV::DuplicateAcrossOperands(n)),
            None => Ok::<Seq<AttrV>, OpErrorV>(l + r),
        },
{
    if shared_from(l, r, 0) is None {
        lemma_shared_none(l, r, 0);
        assert forall|i: int, j: int| 0 <= i < l.len() && 0 <= j < r.len() implies l[i].name
            != r[j].name by {
            assert(!has_attr(l, r[j].name));
        }
        lemma_concat_unique(l, r);
        lemma_header_of_valid(l + r);
    }
}

/// Joining valid headers whose lengths add up to at most
/// `MAX_SCHEMA_ATTRIBUTES` naturally, once the shared names agree in
/// type: a natural inner join sharing no name is the product of the two
/// headers; otherwise the result is the left header followed by the
/// right attributes that are not shared. Either header is valid.
pub proof fn law_natural_join_header(
    l: Seq<AttrV>,
    r: Seq<AttrV>,
    kind: JoinKind,
    shared: Seq<Seq<char>>,
)
    requires
        header_ok(l),
        header_ok(r),
        l.len() + r.len() <= MAX_SCHEMA_ATTRIBUTES,
        natural_from(l, r, 0, Seq::empty()) == Ok::<Seq<Seq<char>>, OpErrorV>(shared),
    ensures
        join_result(l, r, kind, JoinOn::Natural) == if shared.len() == 0 && kind is Inner {
            Ok::<Seq<AttrV>, OpErrorV>(l + r)
        } else {
            Ok::<Seq<AttrV>, OpErrorV>(l + keep_not_in(r, shared))
        },
{
    lemma_natural_collects(l, r, 0, Seq::empty(), shared);
    if shared.len() == 0 && kind is Inner {
        assert forall|i: int, j: int| 0 <= i < l.len() && 0 <= j < r.len() implies l[i].name
            != r[j].name by {
            if l[i].name == r[j].name {
                assert(has_attr(r, l[i].name));
                assert(shared.contains(l[i].name));
            }
        }
        lemma_shared_disjoint(l, r, 0);
        lemma_disjoint_concat(l, r);
    } else {
        let kr = keep_not_in(r, shared);
        lemma_keep_unique(r, shared);
        assert forall|i: int, k: int| 0 <= i < l.len() && 0 <= k < kr.len() implies l[i].name
            != kr[k].name by {
            lemma_keep_excludes(r, shared, k);
            let j = choose|j: int| 0 <= j < r.len() && #[trigger] r[j] == kr[k];
            if l[i].name == kr[k].name {
                assert(r[j].name == l[i].name);
                assert(has_attr(r, l[i].name));
            }
        }
        lemma_concat_unique(l, kr);
        lemma_header_of_valid(l + kr);
    }
}

/// Joining valid headers whose lengths add up to at most
/// `MAX_SCHEMA_ATTRIBUTES` on equi-pairs that check, or on an opaque
/// predicate: the first right-hand name the left side also holds is
/// reported, and otherwise the result is the left header followed by
/// the right one.
pub proof fn law_disjoint_join_header(
    l: Seq<AttrV>,
    r: Seq<AttrV>,
    kind: JoinKind,
    pairs: EquiPairs,
    id: OpaqueId,
)
    requires
        header_ok(l),
        header_ok(r),
        l.len() + r.len() <= MAX_SCHEMA_ATTRIBUTES,
    ensures
        concat_result(l, r) == match shared_from(l, r, 0) {
            Some(n) => Err::<Seq<AttrV>, OpErrorV>(OpErrorV::DuplicateAcrossOperands(n)),
            None => Ok::<Seq<AttrV>, OpErrorV>(l + r),
        },
        equi_from(l, r, pairs@, 0) is Ok ==> join_result(l, r, kind, JoinOn::Equi(pairs))
            == concat_result(l, r),
        join_result(l, r, kind, JoinOn::Theta(Predicate::Opaque(id))) == concat_result(l, r),
{
    lemma_disjoint_concat(l, r);
}

/// Flattening the nested relation `t` of a valid header, where the
/// nested header is valid too: the result is the header with `t`
/// replaced in place by the nested attributes, never empty; within the
/// length bound it is accepted exactly when its names are distinct,
/// and a repeated name is reported as a duplicate.
pub proof fn law_unnest_header(s: Seq<AttrV>, p: AnyPath, t: Seq<char>, sub: Seq<AttrV>)
    requires
        header_ok(s),
        lens_target(p) == Some(t),
        has_attr(s, t),
        attr_named(s, t).ty == TypeV::Relation(sub),
        header_ok(sub),
    ensures
        splice(s, t, sub).len() >= 1,
        unnest_result(s, p) == header_op(splice(s, t, sub)),
        splice(s, t, sub).len() <= MAX_SCHEMA_ATTRIBUTES ==> (unnest_result(s, p) == Ok::<
            Seq<AttrV>,
            OpErrorV,
        >(splice(s, t, sub)) <==> keys_unique(names_of(splice(s, t, sub)))),
        splice(s, t, sub).len() <= MAX_SCHEMA_ATTRIBUTES && !keys_unique(
            names_of(splice(s, t, sub)),
        ) ==> unnest_result(s, p) matches Err(
            OpErrorV::Schema(SchemaError::DuplicateAttribute { .. }),
        ),
{
    let h = splice(s, t, sub);
    assert(h == splice(s.drop_last(), t, sub) + if s.last().name == t {
        sub
    } else {
        seq![s.last()]
    });
}

spec fn count_in(s: Seq<AttrV>, names: Seq<Seq<char>>) -> nat
    decreases s.len(),
{
    if s.len() == 0 {
        0
    } else {
        count_in(s.drop_last(), names) + if names.contains(s.last().name) {
            1nat
        } else {
            0nat
        }
    }
}

spec fn occ(s: Seq<AttrV>, n: Seq<char>) -> nat
    decreases s.len(),
{
    if s.len() == 0 {
        0
    } else {
        occ(s.drop_last(), n) + if s.last().name == n {
            1nat
        } else {
            0nat
        }
    }
}

proof fn lemma_keep_count(s: Seq<AttrV>, names: Seq<Seq<char>>)
    ensures
        keep_not_in(s, names).len() + count_in(s, names) == s.len(),
    decreases s.len(),
{
    if s.len() > 0 {
        lemma_keep_count(s.drop_last(), names);
    }
}

proof fn lemma_count_empty(s: Seq<AttrV>)
    ensures
        count_in(s, Seq::empty()) == 0,
    decreases s.len(),
{
    if s.len() > 0 {
        lemma_count_empty(s.drop_last());
    }
}

proof fn lemma_count_push(s: Seq<AttrV>, a: Seq<Seq<char>>, n: Seq<char>)
    requires
        !a.contains(n),
    ensures
        count_in(s, a.push(n)) == count_in(s, a) + occ(s, n),
    decreases s.len(),
{
    if s.len() > 0 {
        lemma_count_push(s.drop_last(), a, n);
        let x = s.last().name;
        if a.contains(x) {
            let k = choose|k: int| 0 <= k < a.len() && a[k] == x;
            assert(a.push(n)[k] == x);
        }
        if x == n {
            assert(a.push(n)[a.len() as int] == x);
        }
        if a.push(n).contains(x) {
            let k = choose|k: int| 0 <= k < a.push(n).len() && a.push(n)[k] == x;
            if k < a.len() {
                assert(a[k] == x);
            }
        }
    }
}

proof fn lemma_occ_absent(s: Seq<AttrV>, n: Seq<char>)
    requires
        forall|j: int| 0 <= j < s.len() ==> #[trigger] s[j].name != n,
    ensures
        occ(s, n) == 0,
    decreases s.len(),
{
    if s.len() > 0 {
        assert(s[s.len() - 1].name != n);
        lemma_occ_absent(s.drop_last(), n);
    }
}

proof fn lemma_occ_one(s: Seq<AttrV>, n: Seq<char>)
    requires
        keys_unique(names_of(s)),
        has_attr(s, n),
    ensures
        occ(s, n) == 1,
    decreases s.len(),
{
    let d = s.drop_last();
    let last = s.len() - 1;
    if s[last].name == n {
        assert forall|j: int| 0 <= j < d.len() implies #[trigger] d[j].name != n by {
            assert(names_of(s)[j] != names_of(s)[last]);
        }
        lemma_occ_absent(d, n);
    } else {
        let j = choose|j: int| 0 <= j < s.len() && #[trigger] s[j].name == n;
        assert(d[j].name == n);
        assert(keys_unique(names_of(d))) by {
            assert forall|x: int, y: int|
                0 <= x < names_of(d).len() && 0 <= y < names_of(d).len() && x != y implies names_of(
                d,
            )[x] != names_of(d)[y] by {
                assert(names_of(s)[x] != names_of(s)[y]);
            }
        }
        lemma_occ_one(d, n);
    }
}

proof fn lemma_count_all(s: Seq<AttrV>, names: Seq<Seq<char>>)
    requires
        keys_unique(names_of(s)),
        keys_unique(names),
        all_present(s, names),
    ensures
        count_in(s, names) == names.len(),
    decreases names.len(),
{
    if names.len() == 0 {
        assert(names =~= Seq::<Seq<char>>::empty());
        lemma_count_empty(s);
    } else {
        let d = names.drop_last();
        let n = names.last();
        assert(d.push(n) =~= names);
        assert(keys_unique(d)) by {
            assert forall|x: int, y: int| 0 <= x < d.len() && 0 <= y < d.len() && x != y implies d[x]
                != d[y] by {
                assert(names[x] != names[y]);
            }
        }
        assert(all_present(s, d)) by {
            assert forall|k: int| 0 <= k < d.len() implies has_attr(s, #[trigger] d[k]) by {
                assert(has_attr(s, names[k]));
            }
        }
        assert(!d.contains(n)) by {
            if d.contains(n) {
                let k = choose|k: int| 0 <= k < d.len() && d[k] == n;
                assert(names[k] == names[names.len() - 1]);
            }
        }
        assert(has_attr(s, names[names.len() - 1]));
        lemma_count_all(s, d);
        lemma_count_push(s, d, n);
        lemma_occ_one(s, n);
    }
}

/// Nesting distinct attributes (at least one, all present) of a valid
/// header into a fresh name, or into one of the nested names, succeeds:
/// the attributes that stay come first, then the new nested-relation
/// attribute, whose header is the nested attributes in the order
/// named. Unnesting that attribute then succeeds too, with the
/// attributes that stayed followed by the nested ones.
pub proof fn law_nest_then_unnest(
    s: Seq<AttrV>,
    names: Seq<Seq<char>>,
    into: Seq<char>,
    path: AnyPath,
)
    requires
        header_ok(s),
        1 <= names.len() <= MAX_SCHEMA_ATTRIBUTES,
        keys_unique(names),
        all_present(s, names),
        !has_attr(s, into) || names.contains(into),
        lens_target(path) == Some(into),
    ensures
        nest_result(s, names, into) == Ok::<Seq<AttrV>, OpErrorV>(
            keep_not_in(s, names).push(
                AttrV { name: into, ty: TypeV::Relation(picked(s, names)) },
            ),
        ),
        unnest_result(
            keep_not_in(s, names).push(
                AttrV { name: into, ty: TypeV::Relation(picked(s, names)) },
            ),
            path,
        ) == Ok::<Seq<AttrV>, OpErrorV>(keep_not_in(s, names) + picked(s, names)),
{
    let nested = picked(s, names);
    let keep = keep_not_in(s, names);
    let n = keep.push(AttrV { name: into, ty: TypeV::Relation(nested) });
    lemma_pick(s, names, 0, Seq::empty());
    assert(Seq::<AttrV>::empty() + nested.subrange(0, names.len() as int) =~= nested);
    lemma_picked_names(s, names);
    lemma_header_of_valid(nested);
    lemma_keep_unique(s, names);
    lemma_keep_count(s, names);
    lemma_count_all(s, names);
    assert forall|k: int| 0 <= k < keep.len() implies #[trigger] keep[k].name != into
        && !names.contains(keep[k].name) by {
        lemma_keep_excludes(s, names, k);
        let j = choose|j: int| 0 <= j < s.len() && #[trigger] s[j] == keep[k];
        if keep[k].name == into {
            assert(s[j].name == into);
            assert(has_attr(s, into));
        }
    }
    assert(keys_unique(names_of(n))) by {
        assert forall|x: int, y: int|
            0 <= x < names_of(n).len() && 0 <= y < names_of(n).len() && x != y implies names_of(
            n,
        )[x] != names_of(n)[y] by {
            if x < keep.len() && y < keep.len() {
                assert(names_of(keep)[x] != names_of(keep)[y]);
            } else if x < keep.len() {
                assert(keep[x].name != into);
            } else {
                assert(keep[y].name != into);
            }
        }
    }
    lemma_header_of_valid(n);
    law_unnest_after_nest(s, names, into, path, nested);
    assert forall|i: int, j: int| 0 <= i < keep.len() && 0 <= j < nested.len() implies keep[i].name
        != nested[j].name by {
        assert(names_of(nested)[j] == names[j]);
        assert(names.contains(names[j]));
    }
    lemma_concat_unique(keep, nested);
    lemma_header_of_valid(keep + nested);
}

/// The output attributes of `aggs` against `s`: each output name with
/// the type its aggregate infers to.
pub open spec fn agg_attrs(s: Seq<AttrV>, aggs: Seq<NamedAgg>) -> Seq<AttrV> {
    Seq::new(aggs.len(), |k: int| AttrV { name: aggs[k].name@, ty: agg_spec(aggs[k].agg, s)->Ok_0 })
}

/// Every aggregate infers against `s` and no output name is a grouping
/// name.
pub open spec fn aggs_admissible(s: Seq<AttrV>, by: Seq<Seq<char>>, aggs: Seq<NamedAgg>) -> bool {
    forall|k: int|
        0 <= k < aggs.len() ==> !by.contains(#[trigger] aggs[k].name@) && agg_spec(aggs[k].agg, s) is Ok
}

proof fn lemma_aggs(
    s: Seq<AttrV>,
    by: Seq<Seq<char>>,
    aggs: Seq<NamedAgg>,
    i: int,
    acc: Seq<AttrV>,
)
    requires
        0 <= i <= aggs.len(),
        aggs_admissible(s, by, aggs),
    ensures
        aggs_from(s, by, aggs, i, acc) == Ok::<Seq<AttrV>, OpErrorV>(
            acc + agg_attrs(s, aggs).subrange(i, aggs.len() as int),
        ),
    decreases aggs.len() - i,
{
    let a = agg_attrs(s, aggs);
    if i < aggs.len() {
        assert(!by.contains(aggs[i].name@) && agg_spec(aggs[i].agg, s) is Ok);
        lemma_aggs(s, by, aggs, i + 1, acc.push(a[i]));
        assert(acc.push(a[i]) + a.subrange(i + 1, aggs.len() as int) =~= acc + a.subrange(
            i,
            aggs.len() as int,
        ));
    } else {
        assert(acc + a.subrange(i, aggs.len() as int) =~= acc);
    }
}

/// Summarising a valid header by distinct grouping names, all present,
/// with at least one aggregate whose output names are distinct, none a
/// grouping name, each inferring against the header, and within the
/// length bound in all: the result is the grouping attributes in the
/// order named followed by the aggregate outputs, a valid header.
pub proof fn law_summarize_header(s: Seq<AttrV>, by: Seq<Seq<char>>, aggs: Seq<NamedAgg>)
    requires
        header_ok(s),
        keys_unique(by),
        all_present(s, by),
        1 <= aggs.len(),
        by.len() + aggs.len() <= MAX_SCHEMA_ATTRIBUTES,
        keys_unique(Seq::new(aggs.len(), |k: int| aggs[k].name@)),
        aggs_admissible(s, by, aggs),
    ensures
        summarize_result(s, by, aggs) == Ok::<Seq<AttrV>, OpErrorV>(
            picked(s, by) + agg_attrs(s, aggs),
        ),
        header_ok(picked(s, by) + agg_attrs(s, aggs)),
{
    let g = picked(s, by);
    let a = agg_attrs(s, aggs);
    lemma_pick(s, by, 0, Seq::empty());
    assert(Seq::<AttrV>::empty() + g.subrange(0, by.len() as int) =~= g);
    lemma_aggs(s, by, aggs, 0, g);
    assert(a.subrange(0, aggs.len() as int) =~= a);
    lemma_picked_names(s, by);
    let an = Seq::new(aggs.len(), |k: int| aggs[k].name@);
    assert(names_of(a) =~= an);
    assert forall|i: int, j: int| 0 <= i < g.len() && 0 <= j < a.len() implies g[i].name
        != a[j].name by {
        assert(names_of(g)[i] == by[i]);
        assert(!by.contains(aggs[j].name@));
        assert(by.contains(by[i]));
    }
    lemma_concat_unique(g, a);
    lemma_header_of_valid(g + a);
}

/// Typing of arithmetic and concatenation (the rule `infer` applies to a
/// binary node once both operands have types): operands of different
/// types are a mismatch; arithmetic keeps a numeric operand type and
/// rejects any other; concatenation gives `String` on strings and
/// rejects any other type.
pub proof fn law_arithmetic_and_concat_typing(op: BinOp, lt: TypeV, rt: TypeV)
    ensures
        (op is Add || op is Sub || op is Mul || op is Div) ==> binop_spec(op, lt, rt) == if lt != rt {
            Err::<TypeV, InferErrorV>(InferErrorV::BinOpTypeMismatch { left: lt, right: rt })
        } else if numeric(lt) {
            Ok::<TypeV, InferErrorV>(lt)
        } else {
            Err::<TypeV, InferErrorV>(InferErrorV::OperatorNotApplicable { got: lt })
        },
        op is Concat ==> binop_spec(op, lt, rt) == if lt != rt {
            Err::<TypeV, InferErrorV>(InferErrorV::BinOpTypeMismatch { left: lt, right: rt })
        } else if lt is String {
            Ok::<TypeV, InferErrorV>(TypeV::String)
        } else {
            Err::<TypeV, InferErrorV>(InferErrorV::OperatorNotApplicable { got: lt })
        },
        op is Concat ==> (binop_spec(op, lt, rt) is Ok <==> lt is String && rt is String),
{
}

/// Typing of comparisons and connectives: a comparison of operands of
/// different types is a mismatch and otherwise, when admitted, has type
/// `Bool`; `And`/`Or` require `Bool` on the left, then on the right, and
/// give `Bool`.
pub proof fn law_comparison_and_connective_typing(op: BinOp, lt: TypeV, rt: TypeV)
    ensures
        (op is Eq || op is Ne || op is Lt || op is Le || op is Gt || op is Ge) ==> {
            &&& lt != rt ==> binop_spec(op, lt, rt) == Err::<TypeV, InferErrorV>(
                InferErrorV::BinOpTypeMismatch { left: lt, right: rt },
            )
            &&& binop_spec(op, lt, rt) matches Ok(t) ==> t is Bool
        },
        (op is And || op is Or) ==> binop_spec(op, lt, rt) == if !(lt is Bool) {
            Err::<TypeV, InferErrorV>(InferErrorV::TypeMismatch { expected: TypeV::Bool, got: lt })
        } else if !(rt is Bool) {
            Err::<TypeV, InferErrorV>(InferErrorV::TypeMismatch { expected: TypeV::Bool, got: rt })
        } else {
            Ok::<TypeV, InferErrorV>(TypeV::Bool)
        },
{
}

/// Typing of unary operators: negation keeps a numeric operand type and
/// rejects any other; `Not` requires `Bool` and gives `Bool`.
pub proof fn law_unary_typing(t: TypeV)
    ensures
        unop_spec(UnOp::Neg, t) == if numeric(t) {
            Ok::<TypeV, InferErrorV>(t)
        } else {
            Err::<TypeV, InferErrorV>(InferErrorV::OperatorNotApplicable { got: t })
        },
        unop_spec(UnOp::Not, t) == if t is Bool {
            Ok::<TypeV, InferErrorV>(TypeV::Bool)
        } else {
            Err::<TypeV, InferErrorV>(InferErrorV::TypeMismatch { expected: TypeV::Bool, got: t })
        },
{
}

/// Replacing the nested relation `t` by a sub-operator's header `sub`:
/// on success the header keeps its length, every name and its order,
/// every other attribute unchanged, and `t` takes type
/// `Relation(sub)`. It succeeds on every valid header whose `t` is a
/// nested relation; a missing `t` and a `t` of another type are
/// reported.
pub proof fn law_modify_header(s: Seq<AttrV>, p: AnyPath, t: Seq<char>, sub: Seq<AttrV>)
    requires
        lens_target(p) == Some(t),
    ensures
        modify_result(s, p, sub) matches Ok(out) ==> {
            &&& out.len() == s.len()
            &&& forall|i: int|
                0 <= i < s.len() ==> (#[trigger] out[i]).name == s[i].name && (s[i].name != t
                    ==> out[i] == s[i]) && (s[i].name == t ==> out[i].ty == TypeV::Relation(sub))
        },
        header_ok(s) && has_attr(s, t) && attr_named(s, t).ty is Relation ==> modify_result(
            s,
            p,
            sub,
        ) is Ok,
        !has_attr(s, t) ==> modify_result(s, p, sub) == Err::<Seq<AttrV>, OpErrorV>(
            OpErrorV::UnknownAttribute(t),
        ),
        has_attr(s, t) && !(attr_named(s, t).ty is Relation) ==> modify_result(s, p, sub) == Err::<
            Seq<AttrV>,
            OpErrorV,
        >(OpErrorV::NotARelation(t)),
{
    if header_ok(s) && has_attr(s, t) && attr_named(s, t).ty is Relation {
        let out = crate::op::replace_type(s, t, TypeV::Relation(sub));
        assert(names_of(out) =~= names_of(s));
        lemma_header_of_valid(out);
    }
}

/// Renaming `from` to `to`: on success the header keeps its length and
/// every type, and only the attribute named `from` changes name, to
/// `to`. It succeeds on every valid header holding `from` where `to` is
/// `from` or fresh.
pub proof fn law_rename_header(s: Seq<AttrV>, from: Seq<char>, to: Seq<char>)
    ensures
        rename_result(s, from, to) matches Ok(out) ==> {
            &&& out.len() == s.len()
            &&& forall|i: int|
                0 <= i < s.len() ==> (#[trigger] out[i]).ty == s[i].ty && out[i].name == if s[i].name
                    == from {
                    to
                } else {
                    s[i].name
                }
        },
        header_ok(s) && has_attr(s, from) && (from == to || !has_attr(s, to)) ==> rename_result(
            s,
            from,
            to,
        ) is Ok,
{
    if header_ok(s) && has_attr(s, from) && (from == to || !has_attr(s, to)) {
        let t = rename_attrs(s, from, to);
        if from == to {
            assert(t =~= s);
        } else {
            assert(keys_unique(names_of(t))) by {
                assert forall|x: int, y: int|
                    0 <= x < names_of(t).len() && 0 <= y < names_of(t).len() && x != y implies names_of(
                    t,
                )[x] != names_of(t)[y] by {
                    assert(names_of(s)[x] != names_of(s)[y]);
                    if s[x].name == from {
                        assert(s[y].name != to);
                    }
                    if s[y].name == from {
                        assert(s[x].name != to);
                    }
                }
            }
        }
        lemma_header_of_valid(t);
    }
}

/// Extending with `name` computed by `e`: on success the header is the
/// input followed by one attribute, named `name`, whose type is the one
/// `e` infers to. It succeeds on every valid header below the length
/// bound that lacks `name`, when `e` is aggregate-free and infers.
pub proof fn law_extend_header(s: Seq<AttrV>, name: Seq<char>, e: Expression)
    ensures
        extend_result(s, name, e) matches Ok(out) ==> {
            &&& out.len() == s.len() + 1
            &&& out.take(s.len() as int) == s
            &&& out.last().name == name
            &&& infer_spec(e, s) == Ok::<TypeV, crate::infer::InferErrorV>(out.last().ty)
        },
        header_ok(s) && s.len() < MAX_SCHEMA_ATTRIBUTES && !has_attr(s, name) && !has_aggregate(e)
            && infer_spec(e, s) is Ok ==> extend_result(s, name, e) is Ok,
{
    if extend_result(s, name, e) is Ok {
        let t = infer_spec(e, s)->Ok_0;
        assert(s.push(AttrV { name, ty: t }).take(s.len() as int) =~= s);
    }
    if header_ok(s) && s.len() < MAX_SCHEMA_ATTRIBUTES && !has_attr(s, name) && !has_aggregate(e)
        && infer_spec(e, s) is Ok {
        let t = infer_spec(e, s)->Ok_0;
        let out = s.push(AttrV { name, ty: t });
        assert forall|i: int, j: int| 0 <= i < s.len() && 0 <= j < seq![AttrV { name, ty: t }].len()
            implies s[i].name != seq![AttrV { name, ty: t }][j].name by {
            if s[i].name == name {
                assert(has_attr(s, name));
            }
        }
        lemma_concat_unique(s, seq![AttrV { name, ty: t }]);
        assert(s + seq![AttrV { name, ty: t }] =~= out);
        lemma_header_of_valid(out);
    }
}

/// The attributes a nest leaves in place are exactly those whose names
/// are not nested, in their original order.
pub proof fn law_keep_is_filter(s: Seq<AttrV>, names: Seq<Seq<char>>)
    ensures
        keep_not_in(s, names) == s.filter(|a: AttrV| !names.contains(a.name)),
    decreases s.len(),
{
    reveal(Seq::filter);
    if s.len() > 0 {
        law_keep_is_filter(s.drop_last(), names);
    }
}

/// Flattening the nested relation `t`, at position `i` of a name-unique
/// header: the nested attributes take `t`'s place, with the attributes
/// before and after it unchanged.
pub proof fn law_splice_in_place(s: Seq<AttrV>, t: Seq<char>, sub: Seq<AttrV>, i: int)
    requires
        keys_unique(names_of(s)),
        0 <= i < s.len(),
        s[i].name == t,
    ensures
        splice(s, t, sub) == s.take(i) + sub + s.skip(i + 1),
    decreases s.len(),
{
    let d = s.drop_last();
    let last = s.len() - 1;
    if i == last {
        assert forall|k: int| 0 <= k < d.len() implies #[trigger] d[k].name != t by {
            assert(names_of(s)[k] != names_of(s)[last]);
        }
        lemma_splice_absent(d, t, sub);
        assert(s.take(i) =~= d);
        assert(s.skip(i + 1) =~= Seq::<AttrV>::empty());
        assert(d + sub + Seq::<AttrV>::empty() =~= d + sub);
    } else {
        assert(keys_unique(names_of(d))) by {
            assert forall|x: int, y: int|
                0 <= x < names_of(d).len() && 0 <= y < names_of(d).len() && x != y implies names_of(
                d,
            )[x] != names_of(d)[y] by {
                assert(names_of(s)[x] != names_of(s)[y]);
            }
        }
        assert(d[i].name == t);
        law_splice_in_place(d, t, sub, i);
        assert(s.last().name != t) by {
            assert(names_of(s)[i] != names_of(s)[last]);
        }
        assert(d.take(i) =~= s.take(i));
        assert(d.skip(i + 1).push(s.last()) =~= s.skip(i + 1));
        assert(d.take(i) + sub + d.skip(i + 1) + seq![s.last()] =~= s.take(i) + sub + s.skip(i + 1));
    }
}

/// The names of `l[i..]` that `r` also holds, in `l`'s order.
pub open spec fn names_shared(l: Seq<AttrV>, r: Seq<AttrV>, i: int) -> Seq<Seq<char>>
    decreases l.len() - i,
{
    if i < 0 || i >= l.len() {
        Seq::empty()
    } else if has_attr(r, l[i].name) {
        seq![l[i].name] + names_shared(l, r, i + 1)
    } else {
        names_shared(l, r, i + 1)
    }
}

/// Every name of `l[i..]` that `r` also holds has the same type on both
/// sides.
pub open spec fn shared_types_agree(l: Seq<AttrV>, r: Seq<AttrV>, i: int) -> bool {
    forall|k: int|
        i <= k < l.len() && has_attr(r, #[trigger] l[k].name) ==> attr_named(r, l[k].name).ty
            == l[k].ty
}

/// The shared names a natural join equates: the check succeeds exactly
/// when every name the two headers share has the same type on both
/// sides, and then gives the shared names in the left header's order.
pub proof fn law_natural_shared_names(
    l: Seq<AttrV>,
    r: Seq<AttrV>,
    i: int,
    acc: Seq<Seq<char>>,
)
    requires
        0 <= i <= l.len(),
    ensures
        natural_from(l, r, i, acc) is Ok <==> shared_types_agree(l, r, i),
        shared_types_agree(l, r, i) ==> natural_from(l, r, i, acc) == Ok::<
            Seq<Seq<char>>,
            OpErrorV,
        >(acc + names_shared(l, r, i)),
    decreases l.len() - i,
{
    if i < l.len() {
        if has_attr(r, l[i].name) {
            law_natural_shared_names(l, r, i + 1, acc.push(l[i].name));
            assert(acc.push(l[i].name) + names_shared(l, r, i + 1) =~= acc + (seq![l[i].name]
                + names_shared(l, r, i + 1)));
        } else {
            law_natural_shared_names(l, r, i + 1, acc);
        }
        if shared_types_agree(l, r, i + 1) && !(has_attr(r, l[i].name) && attr_named(
            r,
            l[i].name,
        ).ty != l[i].ty) {
            assert forall|k: int|
                i <= k < l.len() && has_attr(r, #[trigger] l[k].name) implies attr_named(
                r,
                l[k].name,
            ).ty == l[k].ty by {
                if k > i {
                    assert(has_attr(r, l[k].name));
                }
            }
        }
        if shared_types_agree(l, r, i) && has_attr(r, l[i].name) {
            assert(attr_named(r, l[i].name).ty == l[i].ty);
        }
    } else {
        assert(acc + Seq::<Seq<char>>::empty() =~= acc);
    }
}

/// The schema-header rule: a header is accepted unchanged exactly when
/// it has 1 to `MAX_SCHEMA_ATTRIBUTES` attributes with pairwise
/// different names; a header of another length is reported with its
/// length.
pub proof fn law_schema_rule(s: Seq<AttrV>)
    ensures
        header_result(s) == Ok::<Seq<AttrV>, SchemaError>(s) <==> {
            &&& 1 <= s.len() <= MAX_SCHEMA_ATTRIBUTES
            &&& forall|i: int, j: int| 0 <= i < j < s.len() ==> s[i].name != s[j].name
        },
        header_result(s) is Ok ==> header_result(s) == Ok::<Seq<AttrV>, SchemaError>(s),
        !(1 <= s.len() <= MAX_SCHEMA_ATTRIBUTES) ==> header_result(s) == Err::<
            Seq<AttrV>,
            SchemaError,
        >(SchemaError::Cardinality { actual: s.len() as usize }),
{
    if 1 <= s.len() <= MAX_SCHEMA_ATTRIBUTES && forall|i: int, j: int|
        0 <= i < j < s.len() ==> s[i].name != s[j].name {
        assert forall|x: int, y: int|
            0 <= x < names_of(s).len() && 0 <= y < names_of(s).len() && x != y implies names_of(
            s,
        )[x] != names_of(s)[y] by {
            if x < y {
                assert(s[x].name != s[y].name);
            } else {
                assert(s[y].name != s[x].name);
            }
        }
    }
    if header_result(s) == Ok::<Seq<AttrV>, SchemaError>(s) {
        assert forall|i: int, j: int| 0 <= i < j < s.len() implies s[i].name != s[j].name by {
            assert(names_of(s)[i] != names_of(s)[j]);
        }
    }
}

/// The keys' first repeat: when keys repeat, the reported position is
/// the least one whose key already occurred earlier.
pub proof fn law_first_repeat(keys: Seq<Seq<char>>)
    requires
        !keys_unique(keys),
    ensures
        0 <= first_dup(keys) < keys.len(),
        dup_before(keys, first_dup(keys)),
        forall|k: int| 0 <= k < first_dup(keys) ==> !#[trigger] dup_before(keys, k),
{
    lemma_first_dup_exists(keys);
    let j = first_dup(keys);
    assert forall|k: int| 0 <= k < j implies !#[trigger] dup_before(keys, k) by {
        if dup_before(keys, k) {
            let i = choose|i: int| 0 <= i < k && #[trigger] keys[i] == keys[k];
            assert(keys.take(j)[i] == keys.take(j)[k]);
        }
    }
}

/// The equi-join check passes exactly when every pair names an attribute
/// of each side and the two have the same type.
pub proof fn law_equi_pairs(l: Seq<AttrV>, r: Seq<AttrV>, pairs: Seq<EquiPair>, i: int)
    requires
        0 <= i <= pairs.len(),
    ensures
        equi_from(l, r, pairs, i) is Ok <==> forall|k: int|
            i <= k < pairs.len() ==> has_attr(l, (#[trigger] pairs[k]).left@) && has_attr(
                r,
                pairs[k].right@,
            ) && attr_named(l, pairs[k].left@).ty == attr_named(r, pairs[k].right@).ty,
    decreases pairs.len() - i,
{
    if i < pairs.len() {
        law_equi_pairs(l, r, pairs, i + 1);
        let p = pairs[i];
        if has_attr(l, p.left@) && has_attr(r, p.right@) && attr_named(l, p.left@).ty
            == attr_named(r, p.right@).ty {
            assert forall|k: int| i <= k < pairs.len() && (forall|m: int|
                i + 1 <= m < pairs.len() ==> has_attr(l, (#[trigger] pairs[m]).left@) && has_attr(
                    r,
                    pairs[m].right@,
                ) && attr_named(l, pairs[m].left@).ty == attr_named(r, pairs[m].right@).ty)
                implies has_attr(l, (#[trigger] pairs[k]).left@) && has_attr(r, pairs[k].right@)
                && attr_named(l, pairs[k].left@).ty == attr_named(r, pairs[k].right@).ty by {
                if k != i {
                    assert(has_attr(l, pairs[k].left@));
                }
            }
        }
    }
}

/// Projecting onto a list with a name the header lacks reports the first
/// such name in the list.
pub proof fn law_project_reports_first_missing(s: Seq<AttrV>, names: Seq<Seq<char>>, k: int)
    requires
        0 <= k < names.len(),
        !has_attr(s, names[k]),
        forall|j: int| 0 <= j < k ==> has_attr(s, #[trigger] names[j]),
    ensures
        project_result(s, names) == Err::<Seq<AttrV>, OpErrorV>(
            OpErrorV::UnknownAttribute(names[k]),
        ),
{
    lemma_pick_missing(s, names, 0, Seq::empty(), k);
}

proof fn lemma_pick_missing(
    s: Seq<AttrV>,
    names: Seq<Seq<char>>,
    i: int,
    acc: Seq<AttrV>,
    k: int,
)
    requires
        0 <= i <= k < names.len(),
        !has_attr(s, names[k]),
        forall|j: int| 0 <= j < k ==> has_attr(s, #[trigger] names[j]),
    ensures
        pick_from(s, names, i, acc) == Err::<Seq<AttrV>, OpErrorV>(
            OpErrorV::UnknownAttribute(names[k]),
        ),
    decreases k - i,
{
    if i < k {
        assert(has_attr(s, names[i]));
        lemma_pick_missing(s, names, i + 1, acc.push(attr_named(s, names[i])), k);
    }
}

/// The name a product reports: none exactly when the two headers share
/// no name; otherwise the first right-hand name the left header holds.
pub proof fn law_first_shared_name(l: Seq<AttrV>, r: Seq<AttrV>, i: int)
    requires
        0 <= i <= r.len(),
    ensures
        shared_from(l, r, i) is None <==> forall|j: int|
            i <= j < r.len() ==> !has_attr(l, #[trigger] r[j].name),
        shared_from(l, r, i) matches Some(n) ==> exists|j: int|
            i <= j < r.len() && #[trigger] r[j].name == n && has_attr(l, n) && forall|k: int|
                i <= k < j ==> !has_attr(l, #[trigger] r[k].name),
    decreases r.len() - i,
{
    if i < r.len() {
        law_first_shared_name(l, r, i + 1);
        if !has_attr(l, r[i].name) {
            if shared_from(l, r, i + 1) is Some {
                let n = shared_from(l, r, i + 1)->Some_0;
                let j = choose|j: int|
                    i + 1 <= j < r.len() && #[trigger] r[j].name == n && has_attr(l, n) && forall|
                        k: int,
                    | i + 1 <= k < j ==> !has_attr(l, #[trigger] r[k].name);
                assert forall|k: int| i <= k < j implies !has_attr(l, #[trigger] r[k].name) by {}
            }
            assert forall|j: int| i <= j < r.len() && (forall|m: int|
                i + 1 <= m < r.len() ==> !has_attr(l, #[trigger] r[m].name)) implies !has_attr(
                l,
                #[trigger] r[j].name,
            ) by {
                if j != i {
                    assert(!has_attr(l, r[j].name));
                }
            }
        }
    }
}

} // verus!
