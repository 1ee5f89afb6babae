//! Expression algebra and the `Predicate` boundary.
use vstd::prelude::*;

use crate::identifier::{AttributeName, Pattern};
use crate::infer::{
    infer, infer_spec, bool_check, lemma_inlist_congruent, same_checks, same_value, same_values,
    value_type, InferError, InferErrorV,
};
use crate::limits::MAX_IN_LIST;
use crate::op_enums::{Agg, BinOp, UnOp};
use crate::schema::{AttrV, Schema, Type, TypeV};
use crate::ty::Value;

verus! {

/// Length-bounded list of literals for an `IN` list:
/// 1..=`MAX_IN_LIST` values.
#[derive(Debug, PartialEq)]
pub struct InListValues {
    values: Vec<Value>,
}

/// Constructor error for `InListValues`.
#[derive(Debug, Clone, Copy, PartialEq, Eq)]
#[non_exhaustive]
pub enum InListValuesError {
    /// Value count fell outside `1..=MAX_IN_LIST`.
    ValueCount {
        /// Observed value count.
        actual: usize,
    },
}

impl View for InListValues {
    type V = Seq<Value>;

    closed spec fn view(&self) -> Seq<Value> {
        self.values@
    }
}

impl InListValues {
    #[verifier::type_invariant]
    spec fn inv(self) -> bool {
        1 <= self.values@.len() <= MAX_IN_LIST
    }

    /// Validate the value count and wrap; `ValueCount` iff it lies
    /// outside `1..=MAX_IN_LIST`.
    pub fn try_new(values: Vec<Value>) -> (r: Result<Self, InListValuesError>)
        ensures
            match r {
                Ok(l) => 1 <= values@.len() <= MAX_IN_LIST && l@ == values@,
                Err(InListValuesError::ValueCount { actual }) => actual == values@.len() && !(1
                    <= values@.len() <= MAX_IN_LIST),
            },
    {
        let n = values.len();
        if n < 1 || n > MAX_IN_LIST {
            return Err(InListValuesError::ValueCount { actual: n });
        }
        Ok(InListValues { values })
    }

    /// Borrow the values.
    pub fn as_slice(&self) -> (r: &[Value])
        ensures
            r@ == self@,
    {
        self.values.as_slice()
    }

    /// Consume the wrapper and return the inner values.
    pub fn into_inner(self) -> (r: Vec<Value>)
        ensures
            r@ == self@,
    {
        self.values
    }
}

impl Clone for InListValues {
    /// A copy whose values, position by position, have the same literal
    /// types and inhabit the same types as the original's.
    fn clone(&self) -> (r: Self)
        ensures
            r@.len() == self@.len(),
            forall|j: int| 0 <= j < self@.len() ==> #[trigger] value_type(r@[j]) == value_type(self@[j]),
            same_checks(r@, self@),
            same_values(r@, self@),
    {
        proof {
            use_type_invariant(self);
        }
        let values = crate::infer::duplicate_values(&self.values);
        InListValues { values }
    }
}

/// Boolean-or-other-typed expression; its static type is inferred
/// against a schema.
#[derive(Debug, PartialEq)]
#[non_exhaustive]
pub enum Expression {
    /// Reference to a schema attribute by name.
    Attr(AttributeName),
    /// Literal value.
    Lit(Value),
    /// Binary operation.
    BinOp(BinOp, Box<Expression>, Box<Expression>),
    /// Unary operation.
    UnOp(UnOp, Box<Expression>),
    /// `lhs LIKE pattern`.
    Like(Box<Expression>, Pattern),
    /// `expr IN (literals...)`.
    InList(Box<Expression>, InListValues),
    /// `expr IS NULL`.
    IsNull(Box<Expression>),
    /// `CAST(expr AS ty)`.
    Cast(Box<Expression>, Type),
    /// Aggregate function (admissible only inside summarisation).
    Agg(Agg),
}

/// `true` iff the expression or any sub-expression is an aggregate.
pub open spec fn has_aggregate(e: Expression) -> bool
    decreases e,
{
    match e {
        Expression::Attr(_) | Expression::Lit(_) => false,
        Expression::BinOp(_, l, r) => has_aggregate(*l) || has_aggregate(*r),
        Expression::UnOp(_, x) => has_aggregate(*x),
        Expression::Like(x, _) => has_aggregate(*x),
        Expression::IsNull(x) => has_aggregate(*x),
        Expression::Cast(x, _) => has_aggregate(*x),
        Expression::InList(x, _) => has_aggregate(*x),
        Expression::Agg(_) => true,
    }
}

/// `a` and `b` are the same expression: the same shape, operators,
/// names, patterns and aggregates, types with equal views, and the same
/// literal values (see `same_value`).
pub open spec fn same_expr(a: Expression, b: Expression) -> bool
    decreases a,
{
    match (a, b) {
        (Expression::Attr(x), Expression::Attr(y)) => x == y,
        (Expression::Lit(x), Expression::Lit(y)) => same_value(x, y),
        (Expression::BinOp(o1, l1, r1), Expression::BinOp(o2, l2, r2)) => o1 == o2 && same_expr(
            *l1,
            *l2,
        ) && same_expr(*r1, *r2),
        (Expression::UnOp(o1, x1), Expression::UnOp(o2, x2)) => o1 == o2 && same_expr(*x1, *x2),
        (Expression::Like(x1, p1), Expression::Like(x2, p2)) => p1 == p2 && same_expr(*x1, *x2),
        (Expression::InList(x1, v1), Expression::InList(x2, v2)) => same_expr(*x1, *x2)
            && same_values(v1@, v2@),
        (Expression::IsNull(x1), Expression::IsNull(x2)) => same_expr(*x1, *x2),
        (Expression::Cast(x1, t1), Expression::Cast(x2, t2)) => t1@ == t2@ && same_expr(*x1, *x2),
        (Expression::Agg(a1), Expression::Agg(a2)) => a1 == a2,
        _ => false,
    }
}

impl Clone for Expression {
    /// A copy with the same shape, attribute names, operators and types.
    fn clone(&self) -> (r: Self)
        ensures
            has_aggregate(r) == has_aggregate(*self),
            crate::canonical::free_names(r) == crate::canonical::free_names(*self),
            forall|s: Seq<AttrV>| #[trigger] infer_spec(r, s) == infer_spec(*self, s),
            same_expr(r, *self),
        decreases self,
    {
        match self {
            Expression::Attr(name) => Expression::Attr(name.clone()),
            Expression::Lit(v) => {
                let c = v.clone();
                let r = Expression::Lit(c);
                assert(forall|s: Seq<AttrV>| #[trigger] infer_spec(r, s) == infer_spec(*self, s));
                r
            },
            Expression::BinOp(op, l, r) => {
                let lc = (&**l).clone();
                let rc = (&**r).clone();
                let e = Expression::BinOp(*op, Box::new(lc), Box::new(rc));
                assert forall|s: Seq<AttrV>| #[trigger] infer_spec(e, s) == infer_spec(*self, s) by {
                    assert(infer_spec(lc, s) == infer_spec(**l, s));
                    assert(infer_spec(rc, s) == infer_spec(**r, s));
                }
                e
            },
            Expression::UnOp(op, x) => {
                let xc = (&**x).clone();
                let e = Expression::UnOp(*op, Box::new(xc));
                assert forall|s: Seq<AttrV>| #[trigger] infer_spec(e, s) == infer_spec(*self, s) by {
                    assert(infer_spec(xc, s) == infer_spec(**x, s));
                }
                e
            },
            Expression::Like(x, p) => {
                let xc = (&**x).clone();
                let e = Expression::Like(Box::new(xc), p.clone());
                assert forall|s: Seq<AttrV>| #[trigger] infer_spec(e, s) == infer_spec(*self, s) by {
                    assert(infer_spec(xc, s) == infer_spec(**x, s));
                }
                e
            },
            Expression::InList(x, vs) => {
                let operand = (&**x).clone();
                let values = vs.clone();
                let r = Expression::InList(Box::new(operand), values);
                proof {
                    assert forall|s: Seq<AttrV>| #[trigger] infer_spec(r, s) == infer_spec(*self, s) by {
                        if let Ok(ot) = infer_spec(operand, s) {
                            lemma_inlist_congruent(values@, vs@, ot, 0);
                        }
                    }
                }
                r
            },
            Expression::IsNull(x) => {
                let xc = (&**x).clone();
                let e = Expression::IsNull(Box::new(xc));
                assert forall|s: Seq<AttrV>| #[trigger] infer_spec(e, s) == infer_spec(*self, s) by {
                    assert(infer_spec(xc, s) == infer_spec(**x, s));
                }
                e
            },
            Expression::Cast(x, t) => {
                let xc = (&**x).clone();
                let e = Expression::Cast(Box::new(xc), t.clone());
                assert forall|s: Seq<AttrV>| #[trigger] infer_spec(e, s) == infer_spec(*self, s) by {
                    assert(infer_spec(xc, s) == infer_spec(**x, s));
                }
                e
            },
            Expression::Agg(a) => Expression::Agg(a.clone()),
        }
    }
}

/// `true` iff `expr` (or any sub-expression) is an `Expression::Agg`.
/// Aggregates are admissible only inside `Summarize`.
pub fn contains_aggregate(expr: &Expression) -> (r: bool)
    ensures
        r == has_aggregate(*expr),
    decreases expr,
{
    match expr {
        Expression::Attr(_) | Expression::Lit(_) => false,
        Expression::BinOp(_, lhs, rhs) => contains_aggregate(lhs) || contains_aggregate(rhs),
        Expression::UnOp(_, operand) => contains_aggregate(operand),
        Expression::Like(operand, _) => contains_aggregate(operand),
        Expression::IsNull(operand) => contains_aggregate(operand),
        Expression::Cast(operand, _) => contains_aggregate(operand),
        Expression::InList(operand, _) => contains_aggregate(operand),
        Expression::Agg(_) => true,
    }
}

/// Opaque-predicate registry id.
#[derive(Debug, Clone, Copy, Hash, PartialEq, Eq, PartialOrd, Ord)]
pub struct OpaqueId {
    id: u32,
}

impl OpaqueId {
    /// The wrapped id.
    pub closed spec fn spec_get(self) -> u32 {
        self.id
    }

    /// Mint an id (for backend code).
    pub fn new(raw: u32) -> (r: Self)
        ensures
            r.spec_get() == raw,
    {
        OpaqueId { id: raw }
    }

    /// Read the underlying id.
    #[verifier::when_used_as_spec(spec_get)]
    pub fn get(self) -> (r: u32)
        ensures
            r == self.spec_get(),
    {
        self.id
    }
}

/// An `Expression` proved, at construction, to infer to `Type::Bool`
/// against some schema.
#[derive(Debug, PartialEq)]
pub struct BoolExpression {
    expr: Expression,
}

impl BoolExpression {
    /// The wrapped expression.
    pub closed spec fn spec_expr(&self) -> Expression {
        self.expr
    }

    /// Type-check `expr` against `schema` and require `Type::Bool`:
    /// the inference error if inference fails, `TypeMismatch` with
    /// the inferred type if it is not `Bool`.
    pub fn try_new(schema: &Schema, expr: Expression) -> (r: Result<Self, InferError>)
        ensures
            match r {
                Ok(b) => bool_check(expr, schema@) is Ok && b.spec_expr() == expr,
                Err(e) => bool_check(expr, schema@) == Err::<(), InferErrorV>(e@),
            },
    {
        let ty = infer(&expr, schema)?;
        match ty {
            Type::Bool => Ok(BoolExpression { expr }),
            _ => Err(InferError::TypeMismatch { expected: Type::Bool, got: ty }),
        }
    }

    /// Wrap an expression whose Bool typing is left to the schema it
    /// is later checked against (used for schema-free constraints).
    pub(crate) fn deferred(expr: Expression) -> (r: Self)
        ensures
            r.spec_expr() == expr,
    {
        BoolExpression { expr }
    }

    /// Borrow the underlying expression.
    pub fn as_expression(&self) -> (r: &Expression)
        ensures
            *r == self.spec_expr(),
    {
        &self.expr
    }

    /// Consume and return the underlying expression.
    pub fn into_expression(self) -> (r: Expression)
        ensures
            r == self.spec_expr(),
    {
        self.expr
    }
}

impl Clone for BoolExpression {
    /// A copy of the wrapped expression (see `Expression::clone`).
    fn clone(&self) -> (r: Self)
        ensures
            has_aggregate(r.spec_expr()) == has_aggregate(self.spec_expr()),
            crate::canonical::free_names(r.spec_expr()) == crate::canonical::free_names(
                self.spec_expr(),
            ),
            forall|s: Seq<AttrV>| #[trigger] infer_spec(r.spec_expr(), s) == infer_spec(
                self.spec_expr(),
                s,
            ),
            same_expr(r.spec_expr(), self.spec_expr()),
    {
        BoolExpression { expr: self.expr.clone() }
    }
}

/// A predicate: a Bool-typed expression, or an opaque predicate
/// registered with an execution context.
#[derive(Debug, PartialEq)]
#[non_exhaustive]
pub enum Predicate {
    /// Bool-typed expression.
    Expr(BoolExpression),
    /// Opaque closure-backed predicate.
    Opaque(OpaqueId),
}

/// `a` and `b` are the same predicate: the same expression (see
/// `same_expr`) or the same opaque id.
pub open spec fn same_predicate(a: Predicate, b: Predicate) -> bool {
    match (a, b) {
        (Predicate::Expr(x), Predicate::Expr(y)) => same_expr(x.spec_expr(), y.spec_expr()),
        (Predicate::Opaque(x), Predicate::Opaque(y)) => x == y,
        _ => false,
    }
}

impl Clone for Predicate {
    fn clone(&self) -> (r: Self)
        ensures
            same_predicate(r, *self),
    {
        match self {
            Predicate::Expr(b) => Predicate::Expr(b.clone()),
            Predicate::Opaque(id) => Predicate::Opaque(*id),
        }
    }
}

} // verus!
