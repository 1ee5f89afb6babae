//! `CanonicalPredicate`: a Bool-typed, aggregate-free predicate,
//! suitable for use as a constraint.
use vstd::prelude::*;

use crate::expression::{contains_aggregate, has_aggregate, BoolExpression, Expression};
use crate::identifier::{chars_lt, lemma_chars_lt_total, lemma_chars_lt_trans, AttributeName};
use crate::infer::{bool_check, InferError, InferErrorV};
use crate::op_enums::Agg;
use crate::refine::keys_of;
use crate::schema::{AttrV, Schema};

verus! {

/// Boolean expression narrowed to canonical form: Bool-typed and free
/// of aggregates.
#[derive(Debug, PartialEq)]
pub struct CanonicalPredicate {
    inner: BoolExpression,
}

/// Construction error for `CanonicalPredicate`.
#[derive(Debug, PartialEq, Eq)]
pub enum CanonicalPredicateError {
    /// Expression failed Bool-typing against the schema.
    Infer(InferError),
    /// Expression contained an aggregate.
    ContainsAggregate,
}

/// The attribute names an aggregate reads.
pub open spec fn agg_names(a: Agg) -> Set<Seq<char>> {
    match a {
        Agg::Count(None) => Set::empty(),
        Agg::Count(Some(n)) => set![n@],
        Agg::Sum(n) => set![n@],
        Agg::Min(n) => set![n@],
        Agg::Max(n) => set![n@],
        Agg::Avg(n) => set![n@],
    }
}

/// Every attribute name an expression references, directly or
/// through an aggregate.
pub open spec fn free_names(e: Expression) -> Set<Seq<char>>
    decreases e,
{
    match e {
        Expression::Attr(n) => set![n@],
        Expression::Lit(_) => Set::empty(),
        Expression::BinOp(_, l, r) => free_names(*l) + free_names(*r),
        Expression::UnOp(_, x) => free_names(*x),
        Expression::Like(x, _) => free_names(*x),
        Expression::IsNull(x) => free_names(*x),
        Expression::Cast(x, _) => free_names(*x),
        Expression::InList(x, _) => free_names(*x),
        Expression::Agg(a) => agg_names(a),
    }
}

/// Strictly ascending (hence duplicate-free) names.
pub open spec fn sorted_names(v: Seq<Seq<char>>) -> bool {
    forall|i: int, j: int| 0 <= i < j < v.len() ==> chars_lt(#[trigger] v[i], #[trigger] v[j])
}

/// The names `v` holds are exactly `s`.
pub open spec fn holds_exactly(v: Seq<Seq<char>>, s: Set<Seq<char>>) -> bool {
    forall|n: Seq<char>| v.contains(n) <==> #[trigger] s.contains(n)
}

proof fn lemma_insert_sorted(v: Seq<Seq<char>>, i: int, x: Seq<char>)
    requires
        sorted_names(v),
        0 <= i <= v.len(),
        forall|k: int| 0 <= k < i ==> chars_lt(#[trigger] v[k], x),
        i < v.len() ==> chars_lt(x, v[i]),
    ensures
        sorted_names(v.insert(i, x)),
{
    let w = v.insert(i, x);
    assert forall|a: int, b: int| 0 <= a < b < w.len() implies chars_lt(
        #[trigger] w[a],
        #[trigger] w[b],
    ) by {
        if b < i {
            assert(w[a] == v[a] && w[b] == v[b]);
        } else if b == i {
            assert(w[a] == v[a]);
        } else if a < i {
            assert(w[a] == v[a] && w[b] == v[b - 1]);
            assert(chars_lt(x, v[i]));
            if b - 1 > i {
                lemma_chars_lt_trans(x, v[i], v[b - 1]);
            }
            lemma_chars_lt_trans(v[a], x, v[b - 1]);
        } else if a == i {
            assert(w[b] == v[b - 1]);
            if b - 1 > i {
                lemma_chars_lt_trans(x, v[i], v[b - 1]);
            }
        } else {
            assert(w[a] == v[a - 1] && w[b] == v[b - 1]);
        }
    }
}

/// Insert `name` into the ascending list `out` unless it is already
/// there.
fn insert_sorted(out: &mut Vec<AttributeName>, name: &AttributeName)
    requires
        sorted_names(keys_of(old(out)@)),
    ensures
        sorted_names(keys_of(final(out)@)),
        forall|n: Seq<char>| #[trigger]
            keys_of(final(out)@).contains(n) <==> keys_of(old(out)@).contains(n) || n == name@,
{
    let ghost v = keys_of(out@);
    let n = out.len();
    let mut i: usize = 0;
    while i < n && out[i].less_than(name)
        invariant
            n == out@.len(),
            v == keys_of(out@),
            i <= n,
            forall|k: int| 0 <= k < i ==> chars_lt(#[trigger] v[k], name@),
        decreases n - i,
    {
        i = i + 1;
    }
    if i < n && out[i].equals(name) {
        proof {
            assert(v[i as int] == name@);
        }
        return;
    }
    proof {
        if i < n {
            assert(!chars_lt(v[i as int], name@));
            lemma_chars_lt_total(v[i as int], name@);
        }
        lemma_insert_sorted(v, i as int, name@);
    }
    let ghost prev = out@;
    let nm = name.clone();
    out.insert(i, nm);
    proof {
        assert(keys_of(out@) =~= v.insert(i as int, name@));
        assert forall|m: Seq<char>| #[trigger]
            keys_of(out@).contains(m) <==> v.contains(m) || m == name@ by {
            if v.contains(m) {
                let k = choose|k: int| 0 <= k < v.len() && v[k] == m;
                if k < i {
                    assert(keys_of(out@)[k] == m);
                } else {
                    assert(keys_of(out@)[k + 1] == m);
                }
            }
            if m == name@ {
                assert(keys_of(out@)[i as int] == m);
            }
            if keys_of(out@).contains(m) {
                let k = choose|k: int| 0 <= k < keys_of(out@).len() && keys_of(out@)[k] == m;
                if k < i {
                    assert(v[k] == m);
                } else if k > i {
                    assert(v[k - 1] == m);
                }
            }
        }
    }
}

fn agg_names_into(agg: &Agg, out: &mut Vec<AttributeName>)
    requires
        sorted_names(keys_of(old(out)@)),
    ensures
        sorted_names(keys_of(final(out)@)),
        forall|n: Seq<char>| #[trigger]
            keys_of(final(out)@).contains(n) <==> keys_of(old(out)@).contains(n) || agg_names(
                *agg,
            ).contains(n),
{
    match agg {
        Agg::Count(None) => {},
        Agg::Count(Some(name)) => insert_sorted(out, name),
        Agg::Sum(name) => insert_sorted(out, name),
        Agg::Min(name) => insert_sorted(out, name),
        Agg::Max(name) => insert_sorted(out, name),
        Agg::Avg(name) => insert_sorted(out, name),
    }
}

fn free_attrs_into(expr: &Expression, out: &mut Vec<AttributeName>)
    requires
        sorted_names(keys_of(old(out)@)),
    ensures
        sorted_names(keys_of(final(out)@)),
        forall|n: Seq<char>| #[trigger]
            keys_of(final(out)@).contains(n) <==> keys_of(old(out)@).contains(n) || free_names(
                *expr,
            ).contains(n),
    decreases expr,
{
    match expr {
        Expression::Attr(name) => insert_sorted(out, name),
        Expression::Lit(_) => {},
        Expression::BinOp(_, lhs, rhs) => {
            free_attrs_into(lhs, out);
            free_attrs_into(rhs, out);
        },
        Expression::UnOp(_, operand) => free_attrs_into(operand, out),
        Expression::Like(operand, _) => free_attrs_into(operand, out),
        Expression::IsNull(operand) => free_attrs_into(operand, out),
        Expression::Cast(operand, _) => free_attrs_into(operand, out),
        Expression::InList(operand, _) => free_attrs_into(operand, out),
        Expression::Agg(agg) => agg_names_into(agg, out),
    }
}

impl Clone for CanonicalPredicate {
    /// A copy with the same free attribute names.
    fn clone(&self) -> (r: Self)
        ensures
            free_names(r.spec_expr()) == free_names(self.spec_expr()),
            forall|s: Seq<AttrV>| #[trigger] crate::infer::infer_spec(r.spec_expr(), s)
                == crate::infer::infer_spec(self.spec_expr(), s),
            crate::expression::same_expr(r.spec_expr(), self.spec_expr()),
    {
        proof {
            use_type_invariant(self);
        }
        CanonicalPredicate { inner: self.inner.clone() }
    }
}

impl CanonicalPredicate {
    #[verifier::type_invariant]
    spec fn inv(self) -> bool {
        !has_aggregate(self.inner.spec_expr())
    }

    /// The wrapped expression.
    pub closed spec fn spec_expr(&self) -> Expression {
        self.inner.spec_expr()
    }

    /// Narrow `expr` into a canonical predicate against `schema`:
    /// `ContainsAggregate` if it holds an aggregate, else `Infer` if it
    /// is not Bool-typed against `schema`.
    pub fn try_new(schema: &Schema, expr: Expression) -> (r: Result<Self, CanonicalPredicateError>)
        ensures
            match r {
                Ok(p) => !has_aggregate(expr) && bool_check(expr, schema@) is Ok && p.spec_expr()
                    == expr,
                Err(CanonicalPredicateError::ContainsAggregate) => has_aggregate(expr),
                Err(CanonicalPredicateError::Infer(e)) => !has_aggregate(expr) && bool_check(
                    expr,
                    schema@,
                ) == Err::<(), InferErrorV>(e@),
            },
    {
        if contains_aggregate(&expr) {
            return Err(CanonicalPredicateError::ContainsAggregate);
        }
        match BoolExpression::try_new(schema, expr) {
            Ok(inner) => Ok(CanonicalPredicate { inner }),
            Err(e) => Err(CanonicalPredicateError::Infer(e)),
        }
    }

    /// Narrow `expr` into a canonical predicate without a schema: only
    /// the aggregate-free rule is checked here; Bool typing is left to
    /// the schema the predicate is later used against.
    pub fn try_from_expression(expr: Expression) -> (r: Result<Self, CanonicalPredicateError>)
        ensures
            match r {
                Ok(p) => !has_aggregate(expr) && p.spec_expr() == expr,
                Err(CanonicalPredicateError::ContainsAggregate) => has_aggregate(expr),
                Err(CanonicalPredicateError::Infer(_)) => false,
            },
    {
        if contains_aggregate(&expr) {
            return Err(CanonicalPredicateError::ContainsAggregate);
        }
        Ok(CanonicalPredicate { inner: BoolExpression::deferred(expr) })
    }

    /// Borrow the underlying Bool-typed expression.
    pub fn as_bool_expression(&self) -> (r: &BoolExpression)
        ensures
            r.spec_expr() == self.spec_expr(),
            !has_aggregate(r.spec_expr()),
    {
        proof {
            use_type_invariant(self);
        }
        &self.inner
    }

    /// Borrow the underlying raw expression.
    pub fn as_expression(&self) -> (r: &Expression)
        ensures
            *r == self.spec_expr(),
            !has_aggregate(*r),
    {
        proof {
            use_type_invariant(self);
        }
        self.inner.as_expression()
    }

    /// Every attribute the predicate references, in ascending name
    /// order, each once.
    pub fn free_attributes(&self) -> (r: Vec<AttributeName>)
        ensures
            sorted_names(keys_of(r@)),
            holds_exactly(keys_of(r@), free_names(self.spec_expr())),
    {
        let mut out: Vec<AttributeName> = Vec::new();
        proof {
            assert(keys_of(out@) =~= Seq::<Seq<char>>::empty());
        }
        free_attrs_into(self.inner.as_expression(), &mut out);
        out
    }
}

} // verus!
