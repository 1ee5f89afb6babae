//! Expression type inference, and the check of values against types.
//!
//! The static type of an expression is inferred against a schema:
//! `Attr(name)` looks the attribute up, `Lit(value)` is determined by
//! the variant, everything else dispatches on operator and operand
//! types. Each exec function here is tied to a spec function of the
//! same shape over the views of types and schemas.
use vstd::prelude::*;

use crate::expression::Expression;
use crate::identifier::AttributeName;
use crate::op_enums::{Agg, BinOp, UnOp};
use crate::schema::{attr_named, has_attr, view_attrs, AttrV, Attribute, Schema, Type, TypeV};
use crate::row::{lemma_row_view, Row};
use crate::source::{lemma_rows_view, Rows};
use crate::ty::{lemma_array_view, ArrayValues, Value};

verus! {

/// Failure modes for type inference.
#[derive(Debug, PartialEq, Eq)]
#[non_exhaustive]
pub enum InferError {
    /// `Attr(name)` referenced an attribute that is not in the schema.
    UnknownAttribute(AttributeName),
    /// A compound literal (`Optional`, `Array`, `Relation`) whose type
    /// cannot be determined from the value alone.
    AmbiguousLiteral,
    /// Operator received an operand of the wrong type.
    TypeMismatch {
        /// Type the operator required.
        expected: Type,
        /// Type the operand actually produced.
        got: Type,
    },
    /// Operator does not admit an operand of this type.
    OperatorNotApplicable {
        /// The offending operand type.
        got: Type,
    },
    /// Binary operator received operands of disagreeing types.
    BinOpTypeMismatch {
        /// Left operand's inferred type.
        left: Type,
        /// Right operand's inferred type.
        right: Type,
    },
    /// A comparison whose operands share a type outside every
    /// comparable class (`Json`, nested relations, arrays, optionals;
    /// `Bool` admits equality only).
    IncomparableTypes {
        /// Left operand's inferred type.
        left: Type,
        /// Right operand's inferred type.
        right: Type,
    },
    /// `IN (list)` had an element whose type disagrees with the
    /// scrutinee.
    InListElementMismatch {
        /// Index of the offending list element.
        index: usize,
        /// Scrutinee's inferred type.
        scrutinee: Type,
        /// The list element's type.
        got: Type,
    },
}

/// The view of an `InferError`.
pub enum InferErrorV {
    UnknownAttribute(Seq<char>),
    AmbiguousLiteral,
    TypeMismatch { expected: TypeV, got: TypeV },
    OperatorNotApplicable { got: TypeV },
    BinOpTypeMismatch { left: TypeV, right: TypeV },
    IncomparableTypes { left: TypeV, right: TypeV },
    InListElementMismatch { index: usize, scrutinee: TypeV, got: TypeV },
}

impl View for InferError {
    type V = InferErrorV;

    open spec fn view(&self) -> InferErrorV {
        match self {
            InferError::UnknownAttribute(n) => InferErrorV::UnknownAttribute(n@),
            InferError::AmbiguousLiteral => InferErrorV::AmbiguousLiteral,
            InferError::TypeMismatch { expected, got } => InferErrorV::TypeMismatch {
                expected: expected@,
                got: got@,
            },
            InferError::OperatorNotApplicable { got } => InferErrorV::OperatorNotApplicable {
                got: got@,
            },
            InferError::BinOpTypeMismatch { left, right } => InferErrorV::BinOpTypeMismatch {
                left: left@,
                right: right@,
            },
            InferError::IncomparableTypes { left, right } => InferErrorV::IncomparableTypes {
                left: left@,
                right: right@,
            },
            InferError::InListElementMismatch { index, scrutinee, got } =>
                InferErrorV::InListElementMismatch { index: *index, scrutinee: scrutinee@, got: got@ },
        }
    }
}

/// The view of an inference result.
pub open spec fn view_res(r: Result<Type, InferError>) -> Result<TypeV, InferErrorV> {
    match r {
        Ok(t) => Ok(t@),
        Err(e) => Err(e@),
    }
}

/// Arithmetic-admissible types.
pub open spec fn numeric(t: TypeV) -> bool {
    t is Int32 || t is Int64 || t is Float64 || t is Decimal
}

/// Types whose values are totally ordered among themselves: the
/// numeric types, strings, bytes and date-times.
pub open spec fn ordered(t: TypeV) -> bool {
    numeric(t) || t is String || t is Bytes || t is DateTime
}

/// Types whose values can be compared for equality: the ordered
/// types and `Bool`.
pub open spec fn equatable(t: TypeV) -> bool {
    t is Bool || ordered(t)
}

/// The type of attribute `n` in `s`, or `UnknownAttribute`.
pub open spec fn lookup_spec(s: Seq<AttrV>, n: Seq<char>) -> Result<TypeV, InferErrorV> {
    if has_attr(s, n) {
        Ok(attr_named(s, n).ty)
    } else {
        Err(InferErrorV::UnknownAttribute(n))
    }
}

/// The type of a literal; compound literals are ambiguous.
pub open spec fn value_type(v: Value) -> Result<TypeV, InferErrorV> {
    match v {
        Value::Bool(_) => Ok(TypeV::Bool),
        Value::Int32(_) => Ok(TypeV::Int32),
        Value::Int64(_) => Ok(TypeV::Int64),
        Value::Float64(_) => Ok(TypeV::Float64),
        Value::Decimal(_) => Ok(TypeV::Decimal),
        Value::String(_) => Ok(TypeV::String),
        Value::Bytes(_) => Ok(TypeV::Bytes),
        Value::DateTime(_) => Ok(TypeV::DateTime),
        Value::Json(_) => Ok(TypeV::Json),
        Value::Relation(_) | Value::Array(_) | Value::Optional(_) => Err(
            InferErrorV::AmbiguousLiteral,
        ),
    }
}

/// The result type of a binary operator on operand types `lt`, `rt`.
pub open spec fn binop_spec(op: BinOp, lt: TypeV, rt: TypeV) -> Result<TypeV, InferErrorV> {
    match op {
        BinOp::Add | BinOp::Sub | BinOp::Mul | BinOp::Div => {
            if lt != rt {
                Err(InferErrorV::BinOpTypeMismatch { left: lt, right: rt })
            } else if numeric(lt) {
                Ok(lt)
            } else {
                Err(InferErrorV::OperatorNotApplicable { got: lt })
            }
        },
        BinOp::Concat => {
            if lt != rt {
                Err(InferErrorV::BinOpTypeMismatch { left: lt, right: rt })
            } else if lt is String {
                Ok(TypeV::String)
            } else {
                Err(InferErrorV::OperatorNotApplicable { got: lt })
            }
        },
        BinOp::Eq | BinOp::Ne => {
            if lt != rt {
                Err(InferErrorV::BinOpTypeMismatch { left: lt, right: rt })
            } else if equatable(lt) {
                Ok(TypeV::Bool)
            } else {
                Err(InferErrorV::IncomparableTypes { left: lt, right: rt })
            }
        },
        BinOp::Lt | BinOp::Le | BinOp::Gt | BinOp::Ge => {
            if lt != rt {
                Err(InferErrorV::BinOpTypeMismatch { left: lt, right: rt })
            } else if ordered(lt) {
                Ok(TypeV::Bool)
            } else {
                Err(InferErrorV::IncomparableTypes { left: lt, right: rt })
            }
        },
        BinOp::And | BinOp::Or => {
            if !(lt is Bool) {
                Err(InferErrorV::TypeMismatch { expected: TypeV::Bool, got: lt })
            } else if !(rt is Bool) {
                Err(InferErrorV::TypeMismatch { expected: TypeV::Bool, got: rt })
            } else {
                Ok(TypeV::Bool)
            }
        },
    }
}

/// The result type of a unary operator on operand type `ot`.
pub open spec fn unop_spec(op: UnOp, ot: TypeV) -> Result<TypeV, InferErrorV> {
    match op {
        UnOp::Neg => if numeric(ot) {
            Ok(ot)
        } else {
            Err(InferErrorV::OperatorNotApplicable { got: ot })
        },
        UnOp::Not => if ot is Bool {
            Ok(TypeV::Bool)
        } else {
            Err(InferErrorV::TypeMismatch { expected: TypeV::Bool, got: ot })
        },
    }
}

/// The result type of an aggregate against `s`.
pub open spec fn agg_spec(a: Agg, s: Seq<AttrV>) -> Result<TypeV, InferErrorV> {
    match a {
        Agg::Count(None) => Ok(TypeV::Int64),
        Agg::Count(Some(n)) => match lookup_spec(s, n@) {
            Err(e) => Err(e),
            Ok(_) => Ok(TypeV::Int64),
        },
        Agg::Sum(n) => match lookup_spec(s, n@) {
            Err(e) => Err(e),
            Ok(t) => match t {
                TypeV::Int32 | TypeV::Int64 => Ok(TypeV::Int64),
                TypeV::Float64 => Ok(TypeV::Float64),
                TypeV::Decimal => Ok(TypeV::Decimal),
                _ => Err(InferErrorV::OperatorNotApplicable { got: t }),
            },
        },
        Agg::Min(n) | Agg::Max(n) => match lookup_spec(s, n@) {
            Err(e) => Err(e),
            Ok(t) => match t {
                TypeV::Json | TypeV::Relation(_) => Err(
                    InferErrorV::OperatorNotApplicable { got: t },
                ),
                _ => Ok(t),
            },
        },
        Agg::Avg(n) => match lookup_spec(s, n@) {
            Err(e) => Err(e),
            Ok(t) => match t {
                TypeV::Int32 | TypeV::Int64 | TypeV::Float64 => Ok(TypeV::Float64),
                TypeV::Decimal => Ok(TypeV::Decimal),
                _ => Err(InferErrorV::OperatorNotApplicable { got: t }),
            },
        },
    }
}

/// The check of `IN`-list elements from position `i` on against the
/// scrutinee type `ot`: the first element that is ambiguous or of
/// another type is reported.
pub open spec fn inlist_spec(vals: Seq<Value>, ot: TypeV, i: int) -> Result<(), InferErrorV>
    decreases vals.len() - i,
{
    if i < 0 || i >= vals.len() {
        Ok(())
    } else {
        match value_type(vals[i]) {
            Err(e) => Err(e),
            Ok(vt) => if vt != ot {
                Err(InferErrorV::InListElementMismatch { index: i as usize, scrutinee: ot, got: vt })
            } else {
                inlist_spec(vals, ot, i + 1)
            },
        }
    }
}

/// Element lists whose literals have the same types, position by
/// position, check the same against any scrutinee type.
pub proof fn lemma_inlist_congruent(a: Seq<Value>, b: Seq<Value>, ot: TypeV, i: int)
    requires
        a.len() == b.len(),
        forall|j: int| 0 <= j < a.len() ==> #[trigger] value_type(a[j]) == value_type(b[j]),
    ensures
        inlist_spec(a, ot, i) == inlist_spec(b, ot, i),
    decreases a.len() - i,
{
    if 0 <= i < a.len() {
        assert(value_type(a[i]) == value_type(b[i]));
        lemma_inlist_congruent(a, b, ot, i + 1);
    }
}

/// The inferred type of `e` against the schema view `s`.
pub open spec fn infer_spec(e: Expression, s: Seq<AttrV>) -> Result<TypeV, InferErrorV>
    decreases e,
{
    match e {
        Expression::Attr(n) => lookup_spec(s, n@),
        Expression::Lit(v) => value_type(v),
        Expression::BinOp(op, l, r) => match infer_spec(*l, s) {
            Err(e) => Err(e),
            Ok(lt) => match infer_spec(*r, s) {
                Err(e) => Err(e),
                Ok(rt) => binop_spec(op, lt, rt),
            },
        },
        Expression::UnOp(op, x) => match infer_spec(*x, s) {
            Err(e) => Err(e),
            Ok(ot) => unop_spec(op, ot),
        },
        Expression::Like(x, _) => match infer_spec(*x, s) {
            Err(e) => Err(e),
            Ok(ot) => if ot is String {
                Ok(TypeV::Bool)
            } else {
                Err(InferErrorV::TypeMismatch { expected: TypeV::String, got: ot })
            },
        },
        Expression::InList(x, vals) => match infer_spec(*x, s) {
            Err(e) => Err(e),
            Ok(ot) => match inlist_spec(vals@, ot, 0) {
                Err(e) => Err(e),
                Ok(_) => Ok(TypeV::Bool),
            },
        },
        Expression::IsNull(x) => match infer_spec(*x, s) {
            Err(e) => Err(e),
            Ok(_) => Ok(TypeV::Bool),
        },
        Expression::Cast(x, to) => match infer_spec(*x, s) {
            Err(e) => Err(e),
            Ok(_) => Ok(to@),
        },
        Expression::Agg(a) => agg_spec(a, s),
    }
}

/// Bool-typing of `e` against `s`: the inference error, or
/// `TypeMismatch` when the inferred type is not `Bool`.
pub open spec fn bool_check(e: Expression, s: Seq<AttrV>) -> Result<(), InferErrorV> {
    match infer_spec(e, s) {
        Err(x) => Err(x),
        Ok(t) => if t is Bool {
            Ok(())
        } else {
            Err(InferErrorV::TypeMismatch { expected: TypeV::Bool, got: t })
        },
    }
}

/// Infer the static type of an expression against `schema`.
pub fn infer(expr: &Expression, schema: &Schema) -> (r: Result<Type, InferError>)
    ensures
        view_res(r) == infer_spec(*expr, schema@),
    decreases expr,
{
    match expr {
        Expression::Attr(name) => lookup(schema, name),
        Expression::Lit(value) => infer_value(value),
        Expression::BinOp(op, lhs, rhs) => {
            let lt = infer(lhs, schema)?;
            let rt = infer(rhs, schema)?;
            infer_binop(*op, lt, rt)
        },
        Expression::UnOp(op, operand) => {
            let ot = infer(operand, schema)?;
            infer_unop(*op, ot)
        },
        Expression::Like(operand, _) => {
            let ot = infer(operand, schema)?;
            match ot {
                Type::String => Ok(Type::Bool),
                _ => Err(InferError::TypeMismatch { expected: Type::String, got: ot }),
            }
        },
        Expression::InList(operand, list) => {
            let ot = infer(operand, schema)?;
            let values = list.as_slice();
            let n = values.len();
            let mut index: usize = 0;
            while index < n
                invariant
                    n == values@.len(),
                    index <= n,
                    inlist_spec(values@, ot@, 0) == inlist_spec(values@, ot@, index as int),
                    infer_spec(*expr, schema@) == (match inlist_spec(values@, ot@, 0) {
                        Err(e) => Err(e),
                        Ok(_) => Ok::<TypeV, InferErrorV>(TypeV::Bool),
                    }),
                decreases n - index,
            {
                let vt = infer_value(&values[index])?;
                if !vt.same_as(&ot) {
                    return Err(
                        InferError::InListElementMismatch { index, scrutinee: ot, got: vt },
                    );
                }
                index = index + 1;
            }
            Ok(Type::Bool)
        },
        Expression::IsNull(operand) => {
            let _ = infer(operand, schema)?;
            Ok(Type::Bool)
        },
        Expression::Cast(operand, to) => {
            let _ = infer(operand, schema)?;
            Ok(to.duplicate())
        },
        Expression::Agg(agg) => agg_ty(agg, schema),
    }
}

/// Infer the type of a literal; compound values report
/// `AmbiguousLiteral`.
pub fn infer_value(value: &Value) -> (r: Result<Type, InferError>)
    ensures
        view_res(r) == value_type(*value),
{
    match value {
        Value::Bool(_) => Ok(Type::Bool),
        Value::Int32(_) => Ok(Type::Int32),
        Value::Int64(_) => Ok(Type::Int64),
        Value::Float64(_) => Ok(Type::Float64),
        Value::Decimal(_) => Ok(Type::Decimal),
        Value::String(_) => Ok(Type::String),
        Value::Bytes(_) => Ok(Type::Bytes),
        Value::DateTime(_) => Ok(Type::DateTime),
        Value::Json(_) => Ok(Type::Json),
        Value::Relation(_) | Value::Array(_) | Value::Optional(_) => Err(
            InferError::AmbiguousLiteral,
        ),
    }
}

/// Infer the result type of an aggregate against `schema`.
pub fn agg_ty(agg: &Agg, schema: &Schema) -> (r: Result<Type, InferError>)
    ensures
        view_res(r) == agg_spec(*agg, schema@),
{
    match agg {
        Agg::Count(None) => Ok(Type::Int64),
        Agg::Count(Some(name)) => {
            let _ = lookup(schema, name)?;
            Ok(Type::Int64)
        },
        Agg::Sum(name) => {
            let input = lookup(schema, name)?;
            match input {
                Type::Int32 | Type::Int64 => Ok(Type::Int64),
                Type::Float64 => Ok(Type::Float64),
                Type::Decimal => Ok(Type::Decimal),
                other => Err(InferError::OperatorNotApplicable { got: other }),
            }
        },
        Agg::Min(name) | Agg::Max(name) => {
            let input = lookup(schema, name)?;
            match input {
                Type::Json | Type::Relation(_) => Err(
                    InferError::OperatorNotApplicable { got: input },
                ),
                other => Ok(other),
            }
        },
        Agg::Avg(name) => {
            let input = lookup(schema, name)?;
            match input {
                Type::Int32 | Type::Int64 | Type::Float64 => Ok(Type::Float64),
                Type::Decimal => Ok(Type::Decimal),
                other => Err(InferError::OperatorNotApplicable { got: other }),
            }
        },
    }
}

fn lookup(schema: &Schema, name: &AttributeName) -> (r: Result<Type, InferError>)
    ensures
        view_res(r) == lookup_spec(schema@, name@),
{
    match schema.find(name) {
        Some(a) => Ok(a.ty.duplicate()),
        None => Err(InferError::UnknownAttribute(name.clone())),
    }
}

fn infer_binop(op: BinOp, lt: Type, rt: Type) -> (r: Result<Type, InferError>)
    ensures
        view_res(r) == binop_spec(op, lt@, rt@),
{
    match op {
        BinOp::Add | BinOp::Sub | BinOp::Mul | BinOp::Div => {
            require_same(&lt, &rt)?;
            if is_numeric(&lt) {
                Ok(lt)
            } else {
                Err(InferError::OperatorNotApplicable { got: lt })
            }
        },
        BinOp::Concat => {
            require_same(&lt, &rt)?;
            match lt {
                Type::String => Ok(Type::String),
                _ => Err(InferError::OperatorNotApplicable { got: lt }),
            }
        },
        BinOp::Eq | BinOp::Ne => {
            require_same(&lt, &rt)?;
            if is_equatable(&lt) {
                Ok(Type::Bool)
            } else {
                Err(InferError::IncomparableTypes { left: lt, right: rt })
            }
        },
        BinOp::Lt | BinOp::Le | BinOp::Gt | BinOp::Ge => {
            require_same(&lt, &rt)?;
            if is_ordered(&lt) {
                Ok(Type::Bool)
            } else {
                Err(InferError::IncomparableTypes { left: lt, right: rt })
            }
        },
        BinOp::And | BinOp::Or => {
            if !matches!(lt, Type::Bool) {
                return Err(InferError::TypeMismatch { expected: Type::Bool, got: lt });
            }
            if !matches!(rt, Type::Bool) {
                return Err(InferError::TypeMismatch { expected: Type::Bool, got: rt });
            }
            Ok(Type::Bool)
        },
    }
}

fn infer_unop(op: UnOp, ot: Type) -> (r: Result<Type, InferError>)
    ensures
        view_res(r) == unop_spec(op, ot@),
{
    match op {
        UnOp::Neg => {
            if is_numeric(&ot) {
                Ok(ot)
            } else {
                Err(InferError::OperatorNotApplicable { got: ot })
            }
        },
        UnOp::Not => {
            match ot {
                Type::Bool => Ok(Type::Bool),
                _ => Err(InferError::TypeMismatch { expected: Type::Bool, got: ot }),
            }
        },
    }
}

fn require_same(lt: &Type, rt: &Type) -> (r: Result<(), InferError>)
    ensures
        match r {
            Ok(_) => lt@ == rt@,
            Err(e) => lt@ != rt@ && e@ == (InferErrorV::BinOpTypeMismatch {
                left: lt@,
                right: rt@,
            }),
        },
{
    if lt.same_as(rt) {
        Ok(())
    } else {
        Err(InferError::BinOpTypeMismatch { left: lt.duplicate(), right: rt.duplicate() })
    }
}

fn is_ordered(ty: &Type) -> (r: bool)
    ensures
        r == ordered(ty@),
{
    matches!(
        ty,
        Type::Int32 | Type::Int64 | Type::Float64 | Type::Decimal | Type::String | Type::Bytes
            | Type::DateTime
    )
}

fn is_equatable(ty: &Type) -> (r: bool)
    ensures
        r == equatable(ty@),
{
    matches!(ty, Type::Bool) || is_ordered(ty)
}

fn is_numeric(ty: &Type) -> (r: bool)
    ensures
        r == numeric(ty@),
{
    matches!(ty, Type::Int32 | Type::Int64 | Type::Float64 | Type::Decimal)
}

/// Why a value does not inhabit a type.
#[derive(Debug, PartialEq, Eq)]
#[non_exhaustive]
pub enum ValueTypeError {
    /// A row's width differs from the schema's.
    RowWidth {
        /// Attribute count of the schema.
        expected: usize,
        /// Value count of the row.
        actual: usize,
    },
    /// The value at a row position does not inhabit that attribute's
    /// type.
    RelationField {
        /// Position in the row.
        position: usize,
        /// Why the value at that position fails.
        source: Box<ValueTypeError>,
    },
    /// A row of a nested relation value does not match the nested
    /// schema.
    RelationRow {
        /// Index of the row in the nested relation value.
        index: usize,
        /// Why that row fails.
        source: Box<ValueTypeError>,
    },
    /// An array element does not inhabit the element type.
    ArrayElement {
        /// Index of the element.
        index: usize,
        /// Why that element fails.
        source: Box<ValueTypeError>,
    },
    /// The value's variant does not correspond to the type.
    Mismatch,
}

/// Whether `v` inhabits the type `t`: scalars by variant, arrays and
/// optionals element-wise, nested relations row by row. The first
/// failing element (or row, or field) is reported.
pub open spec fn value_check(v: Value, t: TypeV) -> Result<(), ValueTypeError>
    decreases v, 0int,
    via value_check_decreases
{
    match (v, t) {
        (Value::Bool(_), TypeV::Bool) => Ok(()),
        (Value::Int32(_), TypeV::Int32) => Ok(()),
        (Value::Int64(_), TypeV::Int64) => Ok(()),
        (Value::Float64(_), TypeV::Float64) => Ok(()),
        (Value::Decimal(_), TypeV::Decimal) => Ok(()),
        (Value::String(_), TypeV::String) => Ok(()),
        (Value::Bytes(_), TypeV::Bytes) => Ok(()),
        (Value::DateTime(_), TypeV::DateTime) => Ok(()),
        (Value::Json(_), TypeV::Json) => Ok(()),
        (Value::Relation(rows), TypeV::Relation(s)) => rows_check(rows@, s, 0),
        (Value::Array(a), TypeV::Array(inner)) => elems_check(a.spec_values(), *inner, 0),
        (Value::Optional(None), TypeV::Optional(_)) => Ok(()),
        (Value::Optional(Some(b)), TypeV::Optional(inner)) => value_check(*b, *inner),
        _ => Err(ValueTypeError::Mismatch),
    }
}

#[via_fn]
proof fn value_check_decreases(v: Value, t: TypeV) {
    match (v, t) {
        (Value::Relation(rows), TypeV::Relation(_)) => {
            lemma_rows_view(rows);
        },
        (Value::Array(a), TypeV::Array(_)) => {
            lemma_array_view(a);
        },
        _ => {},
    }
}

/// Array elements from position `i` on, against element type `t`.
pub open spec fn elems_check(es: Seq<Value>, t: TypeV, i: int) -> Result<(), ValueTypeError>
    decreases es, es.len() - i,
{
    if i < 0 || i >= es.len() {
        Ok(())
    } else {
        match value_check(es[i], t) {
            Err(e) => Err(ValueTypeError::ArrayElement { index: i as usize, source: Box::new(e) }),
            Ok(_) => elems_check(es, t, i + 1),
        }
    }
}

/// Nested-relation rows from position `i` on, against schema `s`.
pub open spec fn rows_check(rs: Seq<Row>, s: Seq<AttrV>, i: int) -> Result<(), ValueTypeError>
    decreases rs, rs.len() - i,
    via rows_check_decreases
{
    if i < 0 || i >= rs.len() {
        Ok(())
    } else {
        match row_check(rs[i]@, s) {
            Err(e) => Err(ValueTypeError::RelationRow { index: i as usize, source: Box::new(e) }),
            Ok(_) => rows_check(rs, s, i + 1),
        }
    }
}

#[via_fn]
proof fn rows_check_decreases(rs: Seq<Row>, s: Seq<AttrV>, i: int) {
    if 0 <= i < rs.len() {
        lemma_row_view(rs[i]);
    }
}

/// A row's values against a schema: the width first, then each
/// position in order.
pub open spec fn row_check(vals: Seq<Value>, s: Seq<AttrV>) -> Result<(), ValueTypeError>
    decreases vals, s.len() + 1,
{
    if vals.len() != s.len() {
        Err(ValueTypeError::RowWidth { expected: s.len() as usize, actual: vals.len() as usize })
    } else {
        fields_check(vals, s, 0)
    }
}

/// Row positions from `i` on, against the attribute types of `s`.
pub open spec fn fields_check(vals: Seq<Value>, s: Seq<AttrV>, i: int) -> Result<
    (),
    ValueTypeError,
>
    decreases vals, s.len() - i,
{
    if i < 0 || i >= s.len() || i >= vals.len() {
        Ok(())
    } else {
        match value_check(vals[i], s[i].ty) {
            Err(e) => Err(
                ValueTypeError::RelationField { position: i as usize, source: Box::new(e) },
            ),
            Ok(_) => fields_check(vals, s, i + 1),
        }
    }
}

/// `a` and `b` are the same value: the same variant with equal
/// payloads, strings and byte strings compared by their contents, nested
/// rows and elements compared position by position.
pub open spec fn same_value(a: Value, b: Value) -> bool
    decreases a, 0int,
    via same_value_decreases
{
    match (a, b) {
        (Value::Bool(x), Value::Bool(y)) => x == y,
        (Value::Int32(x), Value::Int32(y)) => x == y,
        (Value::Int64(x), Value::Int64(y)) => x == y,
        (Value::Float64(x), Value::Float64(y)) => x == y,
        (Value::Decimal(x), Value::Decimal(y)) => x == y,
        (Value::String(x), Value::String(y)) => x@ == y@,
        (Value::Bytes(x), Value::Bytes(y)) => x@ == y@,
        (Value::DateTime(x), Value::DateTime(y)) => x == y,
        (Value::Json(x), Value::Json(y)) => x == y,
        (Value::Relation(x), Value::Relation(y)) => x@.len() == y@.len() && same_rows_from(
            x@,
            y@,
            0,
        ),
        (Value::Array(x), Value::Array(y)) => x.spec_values().len() == y.spec_values().len()
            && same_values_from(x.spec_values(), y.spec_values(), 0),
        (Value::Optional(None), Value::Optional(None)) => true,
        (Value::Optional(Some(x)), Value::Optional(Some(y))) => same_value(*x, *y),
        _ => false,
    }
}

#[via_fn]
proof fn same_value_decreases(a: Value, b: Value) {
    match (a, b) {
        (Value::Relation(x), Value::Relation(_)) => {
            lemma_rows_view(x);
        },
        (Value::Array(x), Value::Array(_)) => {
            lemma_array_view(x);
        },
        _ => {},
    }
}

/// Positions `i..` of `a` hold the same values as in `b`.
pub open spec fn same_values_from(a: Seq<Value>, b: Seq<Value>, i: int) -> bool
    decreases a, a.len() - i,
{
    if i < 0 || i >= a.len() {
        true
    } else {
        same_value(a[i], b[i]) && same_values_from(a, b, i + 1)
    }
}

/// Rows `i..` of `a` hold, position by position, the same values as in
/// `b`.
pub open spec fn same_rows_from(a: Seq<Row>, b: Seq<Row>, i: int) -> bool
    decreases a, a.len() - i,
    via same_rows_decreases
{
    if i < 0 || i >= a.len() {
        true
    } else {
        a[i]@.len() == b[i]@.len() && same_values_from(a[i]@, b[i]@, 0) && same_rows_from(
            a,
            b,
            i + 1,
        )
    }
}

#[via_fn]
proof fn same_rows_decreases(a: Seq<Row>, b: Seq<Row>, i: int) {
    if 0 <= i < a.len() {
        lemma_row_view(a[i]);
    }
}

/// Two value lists of the same length holding the same values.
pub open spec fn same_values(a: Seq<Value>, b: Seq<Value>) -> bool {
    a.len() == b.len() && same_values_from(a, b, 0)
}

/// Two row lists of the same length whose rows hold the same values.
pub open spec fn same_rows(a: Seq<Row>, b: Seq<Row>) -> bool {
    a.len() == b.len() && same_rows_from(a, b, 0)
}

proof fn lemma_same_values_from(a: Seq<Value>, b: Seq<Value>, i: int)
    requires
        a.len() == b.len(),
        0 <= i,
        forall|j: int| i <= j < a.len() ==> same_value(#[trigger] a[j], b[j]),
    ensures
        same_values_from(a, b, i),
    decreases a.len() - i,
{
    if i < a.len() {
        assert(same_value(a[i], b[i]));
        lemma_same_values_from(a, b, i + 1);
    }
}

proof fn lemma_same_rows_from(a: Seq<Row>, b: Seq<Row>, i: int)
    requires
        a.len() == b.len(),
        0 <= i,
        forall|j: int|
            i <= j < a.len() ==> (#[trigger] a[j])@.len() == b[j]@.len() && same_values_from(
                a[j]@,
                b[j]@,
                0,
            ),
    ensures
        same_rows_from(a, b, i),
    decreases a.len() - i,
{
    if i < a.len() {
        assert(a[i]@.len() == b[i]@.len());
        lemma_same_rows_from(a, b, i + 1);
    }
}

/// `row` has the width of `s` and each value inhabits the type of
/// the attribute at its position.
pub open spec fn row_fits(row: Row, s: Seq<AttrV>) -> bool {
    &&& row@.len() == s.len()
    &&& forall|i: int| 0 <= i < s.len() ==> #[trigger] value_check(row@[i], s[i].ty) is Ok
}

proof fn lemma_fields_ok(vals: Seq<Value>, s: Seq<AttrV>, i: int)
    requires
        vals.len() == s.len(),
        0 <= i <= s.len(),
    ensures
        fields_check(vals, s, i) is Ok <==> forall|j: int|
            i <= j < s.len() ==> #[trigger] value_check(vals[j], s[j].ty) is Ok,
    decreases s.len() - i,
{
    if i < s.len() {
        lemma_fields_ok(vals, s, i + 1);
        if value_check(vals[i], s[i].ty) is Ok {
            assert(fields_check(vals, s, i) == fields_check(vals, s, i + 1));
            assert forall|j: int| i <= j < s.len() && (forall|k: int|
                i + 1 <= k < s.len() ==> #[trigger] value_check(vals[k], s[k].ty) is Ok) implies
                #[trigger] value_check(vals[j], s[j].ty) is Ok by {
                if j == i {
                } else {
                    assert(value_check(vals[j], s[j].ty) is Ok);
                }
            }
        } else {
            assert(fields_check(vals, s, i) is Err);
        }
    }
}

/// A row is accepted by `row_matches_spec` exactly when it fits.
pub proof fn lemma_row_matches_ok(row: Row, s: Seq<AttrV>)
    ensures
        row_matches_spec(row, s) is Ok <==> row_fits(row, s),
{
    if row@.len() == s.len() {
        lemma_fields_ok(row@, s, 0);
    }
}

/// Whether `row` matches `schema` in width and, position by position,
/// in value type.
pub open spec fn row_matches_spec(row: Row, s: Seq<AttrV>) -> Result<(), ValueTypeError> {
    row_check(row@, s)
}

/// Check that `row` matches `schema`: the width first
/// (`RowWidth`), then each position in order (`RelationField` around
/// the first failing value).
pub fn row_matches_schema(row: &Row, schema: &Schema) -> (r: Result<(), ValueTypeError>)
    ensures
        r == row_matches_spec(*row, schema@),
{
    let attrs = schema.attributes();
    proof {
        lemma_row_view(*row);
    }
    row_values_match(&row.values, attrs)
}

fn row_values_match(vals: &Vec<Value>, attrs: &[Attribute]) -> (r: Result<(), ValueTypeError>)
    ensures
        r == row_check(vals@, view_attrs(attrs@)),
    decreases vals, 1int,
{
    let ghost s = view_attrs(attrs@);
    let n = attrs.len();
    if vals.len() != n {
        return Err(ValueTypeError::RowWidth { expected: n, actual: vals.len() });
    }
    let mut i: usize = 0;
    while i < n
        invariant
            n == attrs@.len(),
            n == vals@.len(),
            s == view_attrs(attrs@),
            i <= n,
            row_check(vals@, s) == fields_check(vals@, s, i as int),
        decreases n - i,
    {
        match value_matches(&vals[i], &attrs[i].ty) {
            Err(e) => {
                return Err(ValueTypeError::RelationField { position: i, source: Box::new(e) });
            },
            Ok(_) => {},
        }
        i = i + 1;
    }
    Ok(())
}

fn value_matches(v: &Value, t: &Type) -> (r: Result<(), ValueTypeError>)
    ensures
        r == value_check(*v, t@),
    decreases v, 0int,
{
    match (v, t) {
        (Value::Bool(_), Type::Bool) => Ok(()),
        (Value::Int32(_), Type::Int32) => Ok(()),
        (Value::Int64(_), Type::Int64) => Ok(()),
        (Value::Float64(_), Type::Float64) => Ok(()),
        (Value::Decimal(_), Type::Decimal) => Ok(()),
        (Value::String(_), Type::String) => Ok(()),
        (Value::Bytes(_), Type::Bytes) => Ok(()),
        (Value::DateTime(_), Type::DateTime) => Ok(()),
        (Value::Json(_), Type::Json) => Ok(()),
        (Value::Relation(rows), Type::Relation(schema)) => {
            let attrs = schema.attributes();
            let ghost s = schema@;
            proof {
                lemma_rows_view(*rows);
            }
            let n = rows.rows.len();
            let mut i: usize = 0;
            while i < n
                invariant
                    n == rows.rows@.len(),
                    s == view_attrs(attrs@),
                    i <= n,
                    value_check(*v, t@) == rows_check(rows.rows@, s, i as int),
                    *v == Value::Relation(*rows),
                decreases n - i,
            {
                proof {
                    lemma_row_view(rows.rows@[i as int]);
                }
                match row_values_match(&rows.rows[i].values, attrs) {
                    Err(e) => {
                        return Err(ValueTypeError::RelationRow { index: i, source: Box::new(e) });
                    },
                    Ok(_) => {},
                }
                i = i + 1;
            }
            Ok(())
        },
        (Value::Array(a), Type::Array(inner)) => {
            proof {
                lemma_array_view(*a);
            }
            let n = a.values.len();
            let mut i: usize = 0;
            while i < n
                invariant
                    n == a.values@.len(),
                    i <= n,
                    value_check(*v, t@) == elems_check(a.values@, inner@, i as int),
                    *v == Value::Array(*a),
                decreases n - i,
            {
                match value_matches(&a.values[i], inner) {
                    Err(e) => {
                        return Err(ValueTypeError::ArrayElement { index: i, source: Box::new(e) });
                    },
                    Ok(_) => {},
                }
                i = i + 1;
            }
            Ok(())
        },
        (Value::Optional(None), Type::Optional(_)) => Ok(()),
        (Value::Optional(Some(b)), Type::Optional(inner)) => value_matches(b, inner),
        _ => Err(ValueTypeError::Mismatch),
    }
}

/// Position by position, `a` and `b` inhabit the same types.
pub open spec fn same_checks(a: Seq<Value>, b: Seq<Value>) -> bool {
    &&& a.len() == b.len()
    &&& forall|j: int, u: TypeV|
        0 <= j < a.len() ==> #[trigger] value_check(a[j], u) == value_check(b[j], u)
}

/// Row by row, `a` and `b` match the same schemas.
spec fn same_row_checks(a: Seq<Row>, b: Seq<Row>) -> bool {
    &&& a.len() == b.len()
    &&& forall|j: int, u: Seq<AttrV>|
        0 <= j < a.len() ==> #[trigger] row_check(a[j].values@, u) == row_check(b[j].values@, u)
}

proof fn lemma_elems_congruent(a: Seq<Value>, b: Seq<Value>, t: TypeV, i: int)
    requires
        same_checks(a, b),
    ensures
        elems_check(a, t, i) == elems_check(b, t, i),
    decreases a.len() - i,
{
    if 0 <= i < a.len() {
        assert(value_check(a[i], t) == value_check(b[i], t));
        lemma_elems_congruent(a, b, t, i + 1);
    }
}

proof fn lemma_fields_congruent(a: Seq<Value>, b: Seq<Value>, s: Seq<AttrV>, i: int)
    requires
        same_checks(a, b),
    ensures
        fields_check(a, s, i) == fields_check(b, s, i),
    decreases s.len() - i,
{
    if 0 <= i < s.len() && i < a.len() {
        assert(value_check(a[i], s[i].ty) == value_check(b[i], s[i].ty));
        lemma_fields_congruent(a, b, s, i + 1);
    }
}

proof fn lemma_row_congruent(a: Seq<Value>, b: Seq<Value>)
    requires
        same_checks(a, b),
    ensures
        forall|s: Seq<AttrV>| #[trigger] row_check(a, s) == row_check(b, s),
{
    assert forall|s: Seq<AttrV>| #[trigger] row_check(a, s) == row_check(b, s) by {
        lemma_fields_congruent(a, b, s, 0);
    }
}

proof fn lemma_rows_congruent(a: Seq<Row>, b: Seq<Row>, s: Seq<AttrV>, i: int)
    requires
        same_row_checks(a, b),
    ensures
        rows_check(a, s, i) == rows_check(b, s, i),
    decreases a.len() - i,
{
    if 0 <= i < a.len() {
        lemma_row_view(a[i]);
        lemma_row_view(b[i]);
        assert(row_check(a[i].values@, s) == row_check(b[i].values@, s));
        lemma_rows_congruent(a, b, s, i + 1);
    }
}

impl Value {
    /// A copy that inhabits exactly the types the original inhabits.
    pub fn duplicate(&self) -> (r: Value)
        ensures
            forall|t: TypeV| #[trigger] value_check(r, t) == value_check(*self, t),
            value_type(r) == value_type(*self),
            same_value(r, *self),
        decreases self, 1int,
    {
        match self {
            Value::Bool(b) => Value::Bool(*b),
            Value::Int32(i) => Value::Int32(*i),
            Value::Int64(i) => Value::Int64(*i),
            Value::Float64(f) => Value::Float64(*f),
            Value::Decimal(p) => Value::Decimal(p.clone()),
            Value::String(s) => Value::String(s.clone()),
            Value::Bytes(b) => {
                let c = b.clone();
                proof {
                    assert(c@ =~= b@);
                }
                Value::Bytes(c)
            },
            Value::DateTime(p) => Value::DateTime(p.clone()),
            Value::Json(p) => Value::Json(p.clone()),
            Value::Relation(rows) => {
                proof {
                    use_type_invariant(rows);
                }
                let copy = duplicate_rows(&rows.rows);
                let new_rows = Rows { rows: copy };
                proof {
                    lemma_rows_view(new_rows);
                    lemma_rows_view(*rows);
                }
                let r = Value::Relation(new_rows);
                proof {
                    assert forall|t: TypeV| #[trigger] value_check(r, t) == value_check(*self, t) by {
                        if let TypeV::Relation(s) = t {
                            lemma_rows_congruent(copy@, rows.rows@, s, 0);
                        }
                    }
                }
                r
            },
            Value::Array(a) => {
                proof {
                    use_type_invariant(a);
                }
                let copy = duplicate_values(&a.values);
                let new_array = ArrayValues { values: copy };
                proof {
                    lemma_array_view(new_array);
                    lemma_array_view(*a);
                }
                let r = Value::Array(new_array);
                proof {
                    assert forall|t: TypeV| #[trigger] value_check(r, t) == value_check(*self, t) by {
                        if let TypeV::Array(inner) = t {
                            lemma_elems_congruent(copy@, a.values@, *inner, 0);
                        }
                    }
                }
                r
            },
            Value::Optional(None) => Value::Optional(None),
            Value::Optional(Some(b)) => {
                let inner_copy = b.duplicate();
                let r = Value::Optional(Some(Box::new(inner_copy)));
                proof {
                    assert forall|t: TypeV| #[trigger] value_check(r, t) == value_check(*self, t) by {
                        if let TypeV::Optional(inner) = t {
                            assert(value_check(inner_copy, *inner) == value_check(**b, *inner));
                        }
                    }
                }
                r
            }
        }
    }
}

pub(crate) fn duplicate_values(v: &Vec<Value>) -> (r: Vec<Value>)
    ensures
        same_checks(r@, v@),
        same_values(r@, v@),
        forall|j: int| 0 <= j < v@.len() ==> #[trigger] value_type(r@[j]) == value_type(v@[j]),
    decreases v, 0int,
{
    let mut out: Vec<Value> = Vec::new();
    let mut i: usize = 0;
    while i < v.len()
        invariant
            i <= v@.len(),
            out@.len() == i,
            forall|j: int, u: TypeV|
                0 <= j < i ==> #[trigger] value_check(out@[j], u) == value_check(v@[j], u),
            forall|j: int| 0 <= j < i ==> same_value(#[trigger] out@[j], v@[j]),
            forall|j: int| 0 <= j < i ==> #[trigger] value_type(out@[j]) == value_type(v@[j]),
        decreases v@.len() - i,
    {
        out.push(v[i].duplicate());
        i = i + 1;
    }
    proof {
        lemma_same_values_from(out@, v@, 0);
    }
    out
}

fn duplicate_rows(v: &Vec<Row>) -> (r: Vec<Row>)
    ensures
        same_row_checks(r@, v@),
        same_rows(r@, v@),
    decreases v, 0int,
{
    let mut out: Vec<Row> = Vec::new();
    let mut i: usize = 0;
    while i < v.len()
        invariant
            i <= v@.len(),
            out@.len() == i,
            forall|j: int, u: Seq<AttrV>|
                0 <= j < i ==> #[trigger] row_check(out@[j].values@, u) == row_check(
                    v@[j].values@,
                    u,
                ),
            forall|j: int|
                0 <= j < i ==> (#[trigger] out@[j])@.len() == v@[j]@.len() && same_values_from(
                    out@[j]@,
                    v@[j]@,
                    0,
                ),
        decreases v@.len() - i,
    {
        let row = &v[i];
        proof {
            use_type_invariant(row);
        }
        let copy = duplicate_values(&row.values);
        proof {
            lemma_row_congruent(copy@, row.values@);
        }
        let new_row = Row { values: copy };
        proof {
            lemma_row_view(new_row);
            lemma_row_view(*row);
        }
        out.push(new_row);
        i = i + 1;
    }
    proof {
        lemma_same_rows_from(out@, v@, 0);
    }
    out
}

impl Clone for Value {
    /// The same value, which therefore inhabits exactly the types the
    /// original inhabits.
    fn clone(&self) -> (r: Self)
        ensures
            same_value(r, *self),
            forall|t: TypeV| #[trigger] value_check(r, t) == value_check(*self, t),
            value_type(r) == value_type(*self),
    {
        self.duplicate()
    }
}

impl Clone for Row {
    /// A row holding the same values, which therefore matches exactly
    /// the schemas the original matches.
    fn clone(&self) -> (r: Self)
        ensures
            r@.len() == self@.len(),
            same_values(r@, self@),
            forall|s: Seq<AttrV>| #[trigger] row_matches_spec(r, s) == row_matches_spec(*self, s),
    {
        proof {
            use_type_invariant(self);
            lemma_row_view(*self);
        }
        let copy = duplicate_values(&self.values);
        proof {
            lemma_row_congruent(copy@, self.values@);
        }
        let r = Row { values: copy };
        proof {
            lemma_row_view(r);
        }
        r
    }
}

impl Clone for Rows {
    /// Rows holding the same values, position by position, which
    /// therefore match exactly the schemas the original's rows match.
    fn clone(&self) -> (r: Self)
        ensures
            r@.len() == self@.len(),
            same_rows(r@, self@),
            forall|i: int, s: Seq<AttrV>|
                0 <= i < self@.len() ==> #[trigger] row_matches_spec(r@[i], s) == row_matches_spec(
                    self@[i],
                    s,
                ),
    {
        proof {
            use_type_invariant(self);
            lemma_rows_view(*self);
        }
        let copy = duplicate_rows(&self.rows);
        let r = Rows { rows: copy };
        proof {
            lemma_rows_view(r);
            assert forall|i: int, s: Seq<AttrV>| 0 <= i < self@.len() implies #[trigger] row_matches_spec(
                r@[i],
                s,
            ) == row_matches_spec(self@[i], s) by {
                lemma_row_view(r@[i]);
                lemma_row_view(self@[i]);
                assert(row_check(copy@[i].values@, s) == row_check(self.rows@[i].values@, s));
            }
        }
        r
    }
}

impl Clone for ArrayValues {
    /// The same elements, position by position, which therefore inhabit
    /// exactly the types the original's elements inhabit.
    fn clone(&self) -> (r: Self)
        ensures
            same_values(r.spec_values(), self.spec_values()),
            same_checks(r.spec_values(), self.spec_values()),
    {
        proof {
            use_type_invariant(self);
            lemma_array_view(*self);
        }
        let r = ArrayValues { values: duplicate_values(&self.values) };
        proof {
            lemma_array_view(r);
        }
        r
    }
}

} // verus!
