//! Laws of typing: what aggregates, operators and literals type to, which
//! values inhabit which types, and which names an expression reads.
//! Each is stated over the kinds of the inputs, type by type.
use vstd::prelude::*;

use crate::canonical::free_names;
use crate::expression::Expression;
use crate::identifier::AttributeName;
use crate::expression::InListValues;
use crate::identifier::{chars_lt, valid_attribute_name, Pattern};
use crate::infer::{
    agg_spec, binop_spec, bool_check, elems_check, infer_spec, inlist_spec, unop_spec,
    value_check, value_type, InferErrorV,
};
use crate::limits::MAX_ATTRIBUTE_NAME_LEN;
use crate::schema::Type;
use crate::op_enums::{Agg, BinOp, UnOp};
use crate::refine::keys_unique;
use crate::schema::{has_attr, lemma_attr_named, names_of, AttrV, TypeV};
use crate::ty::{ArrayValues, Finite64, Value};
use crate::source::Rows;
use crate::row::Row;
use crate::infer::{lemma_row_matches_ok, row_fits, row_matches_spec, rows_check};

verus! {

/// The types on which arithmetic is defined.
pub open spec fn arithmetic_type(t: TypeV) -> bool {
    t is Int32 || t is Int64 || t is Float64 || t is Decimal
}

/// The types whose values are totally ordered among themselves.
pub open spec fn totally_ordered_type(t: TypeV) -> bool {
    arithmetic_type(t) || t is String || t is Bytes || t is DateTime
}

/// The six comparison operators.
pub open spec fn comparison_op(op: BinOp) -> bool {
    op is Eq || op is Ne || op is Lt || op is Le || op is Gt || op is Ge
}

/// The arithmetic operators.
pub open spec fn arithmetic_op(op: BinOp) -> bool {
    op is Add || op is Sub || op is Mul || op is Div
}

/// Aggregating the attribute at position `i` of a name-unique header:
/// `COUNT` gives `Int64`; `SUM` widens integers to `Int64` and keeps
/// `Float64` and `Decimal`; `AVG` gives `Float64` on integers and
/// floats and keeps `Decimal`; `MIN`/`MAX` keep the attribute's type
/// except on `Json` and nested relations. Every other input type is not
/// applicable.
pub proof fn law_aggregate_types(s: Seq<AttrV>, i: int, n: AttributeName)
    requires
        keys_unique(names_of(s)),
        0 <= i < s.len(),
        s[i].name == n@,
    ensures
        agg_spec(Agg::Count(Some(n)), s) == Ok::<TypeV, InferErrorV>(TypeV::Int64),
        (s[i].ty is Int32 || s[i].ty is Int64) ==> agg_spec(Agg::Sum(n), s) == Ok::<
            TypeV,
            InferErrorV,
        >(TypeV::Int64),
        s[i].ty is Float64 ==> agg_spec(Agg::Sum(n), s) == Ok::<TypeV, InferErrorV>(TypeV::Float64),
        s[i].ty is Decimal ==> agg_spec(Agg::Sum(n), s) == Ok::<TypeV, InferErrorV>(TypeV::Decimal),
        !arithmetic_type(s[i].ty) ==> agg_spec(Agg::Sum(n), s) == Err::<TypeV, InferErrorV>(
            InferErrorV::OperatorNotApplicable { got: s[i].ty },
        ),
        (s[i].ty is Int32 || s[i].ty is Int64 || s[i].ty is Float64) ==> agg_spec(Agg::Avg(n), s)
            == Ok::<TypeV, InferErrorV>(TypeV::Float64),
        s[i].ty is Decimal ==> agg_spec(Agg::Avg(n), s) == Ok::<TypeV, InferErrorV>(TypeV::Decimal),
        !arithmetic_type(s[i].ty) ==> agg_spec(Agg::Avg(n), s) == Err::<TypeV, InferErrorV>(
            InferErrorV::OperatorNotApplicable { got: s[i].ty },
        ),
        !(s[i].ty is Json || s[i].ty is Relation) ==> agg_spec(Agg::Min(n), s) == Ok::<
            TypeV,
            InferErrorV,
        >(s[i].ty) && agg_spec(Agg::Max(n), s) == Ok::<TypeV, InferErrorV>(s[i].ty),
        (s[i].ty is Json || s[i].ty is Relation) ==> agg_spec(Agg::Min(n), s) == Err::<
            TypeV,
            InferErrorV,
        >(InferErrorV::OperatorNotApplicable { got: s[i].ty }) && agg_spec(Agg::Max(n), s) == Err::<
            TypeV,
            InferErrorV,
        >(InferErrorV::OperatorNotApplicable { got: s[i].ty }),
{
    lemma_attr_named(s, n@, i);
}

/// Aggregating a name the header lacks reports that name, for every
/// aggregate that reads one; `COUNT(*)` reads none and gives `Int64`.
pub proof fn law_aggregate_of_missing_attribute(s: Seq<AttrV>, n: AttributeName)
    requires
        forall|j: int| 0 <= j < s.len() ==> #[trigger] s[j].name != n@,
    ensures
        agg_spec(Agg::Count(None), s) == Ok::<TypeV, InferErrorV>(TypeV::Int64),
        agg_spec(Agg::Count(Some(n)), s) == Err::<TypeV, InferErrorV>(
            InferErrorV::UnknownAttribute(n@),
        ),
        agg_spec(Agg::Sum(n), s) == Err::<TypeV, InferErrorV>(InferErrorV::UnknownAttribute(n@)),
        agg_spec(Agg::Min(n), s) == Err::<TypeV, InferErrorV>(InferErrorV::UnknownAttribute(n@)),
        agg_spec(Agg::Max(n), s) == Err::<TypeV, InferErrorV>(InferErrorV::UnknownAttribute(n@)),
        agg_spec(Agg::Avg(n), s) == Err::<TypeV, InferErrorV>(InferErrorV::UnknownAttribute(n@)),
{
    assert(!has_attr(s, n@));
}

/// Comparing two operands of one type: every numeric type, strings,
/// bytes and date-times compare under all six operators; `Bool` admits
/// `=` and `<>` only; `Json`, nested relations, arrays and optionals
/// compare under none. An admitted comparison has type `Bool`.
pub proof fn law_comparison_classes(op: BinOp, t: TypeV)
    requires
        comparison_op(op),
    ensures
        totally_ordered_type(t) ==> binop_spec(op, t, t) == Ok::<TypeV, InferErrorV>(TypeV::Bool),
        t is Bool ==> binop_spec(op, t, t) == if op is Eq || op is Ne {
            Ok::<TypeV, InferErrorV>(TypeV::Bool)
        } else {
            Err::<TypeV, InferErrorV>(InferErrorV::IncomparableTypes { left: t, right: t })
        },
        (t is Json || t is Relation || t is Array || t is Optional) ==> binop_spec(op, t, t) == Err::<
            TypeV,
            InferErrorV,
        >(InferErrorV::IncomparableTypes { left: t, right: t }),
{
}

/// Operands of two different types never compare, add or concatenate:
/// the pair is reported as a mismatch.
pub proof fn law_mixed_operands_mismatch(op: BinOp, lt: TypeV, rt: TypeV)
    requires
        comparison_op(op) || arithmetic_op(op) || op is Concat,
        lt != rt,
    ensures
        binop_spec(op, lt, rt) == Err::<TypeV, InferErrorV>(
            InferErrorV::BinOpTypeMismatch { left: lt, right: rt },
        ),
{
}

/// Arithmetic on two operands of one numeric type keeps that type;
/// on any other type it is not applicable. Negation likewise.
pub proof fn law_arithmetic_types(op: BinOp, t: TypeV)
    requires
        arithmetic_op(op),
    ensures
        arithmetic_type(t) ==> binop_spec(op, t, t) == Ok::<TypeV, InferErrorV>(t),
        !arithmetic_type(t) ==> binop_spec(op, t, t) == Err::<TypeV, InferErrorV>(
            InferErrorV::OperatorNotApplicable { got: t },
        ),
        arithmetic_type(t) ==> unop_spec(UnOp::Neg, t) == Ok::<TypeV, InferErrorV>(t),
        !arithmetic_type(t) ==> unop_spec(UnOp::Neg, t) == Err::<TypeV, InferErrorV>(
            InferErrorV::OperatorNotApplicable { got: t },
        ),
{
}

/// A comparison whose two sides infer to one totally ordered type
/// infers to `Bool`; so does `=`/`<>` on two `Bool` sides.
pub proof fn law_infer_comparison(op: BinOp, l: Expression, r: Expression, s: Seq<AttrV>, t: TypeV)
    requires
        comparison_op(op),
        infer_spec(l, s) == Ok::<TypeV, InferErrorV>(t),
        infer_spec(r, s) == Ok::<TypeV, InferErrorV>(t),
        totally_ordered_type(t) || (t is Bool && (op is Eq || op is Ne)),
    ensures
        infer_spec(Expression::BinOp(op, Box::new(l), Box::new(r)), s) == Ok::<TypeV, InferErrorV>(
            TypeV::Bool,
        ),
{
}

/// Every scalar literal has the type of its own variant; compound
/// literals are ambiguous.
pub proof fn law_literal_types(v: Value)
    ensures
        v is Bool ==> value_type(v) == Ok::<TypeV, InferErrorV>(TypeV::Bool),
        v is Int32 ==> value_type(v) == Ok::<TypeV, InferErrorV>(TypeV::Int32),
        v is Int64 ==> value_type(v) == Ok::<TypeV, InferErrorV>(TypeV::Int64),
        v is Float64 ==> value_type(v) == Ok::<TypeV, InferErrorV>(TypeV::Float64),
        v is Decimal ==> value_type(v) == Ok::<TypeV, InferErrorV>(TypeV::Decimal),
        v is String ==> value_type(v) == Ok::<TypeV, InferErrorV>(TypeV::String),
        v is Bytes ==> value_type(v) == Ok::<TypeV, InferErrorV>(TypeV::Bytes),
        v is DateTime ==> value_type(v) == Ok::<TypeV, InferErrorV>(TypeV::DateTime),
        v is Json ==> value_type(v) == Ok::<TypeV, InferErrorV>(TypeV::Json),
        (v is Relation || v is Array || v is Optional) ==> value_type(v) == Err::<
            TypeV,
            InferErrorV,
        >(InferErrorV::AmbiguousLiteral),
{
}

/// A value inhabits the type its literal has; in particular every
/// scalar value inhabits the type of its own variant (a finite float
/// inhabits `Float64`), `None` inhabits every optional type, `Some(x)`
/// inhabits `Optional(t)` exactly when `x` inhabits `t`, and no scalar
/// value inhabits a type of another variant.
pub proof fn law_values_inhabit_their_types(v: Value, t: TypeV)
    ensures
        value_type(v) == Ok::<TypeV, InferErrorV>(t) ==> value_check(v, t) == Ok::<
            (),
            crate::infer::ValueTypeError,
        >(()),
        forall|f: Finite64| #[trigger] value_check(Value::Float64(f), TypeV::Float64) is Ok,
        forall|b: bool| #[trigger] value_check(Value::Bool(b), TypeV::Bool) is Ok,
        forall|x: i32| #[trigger] value_check(Value::Int32(x), TypeV::Int32) is Ok,
        forall|x: i64| #[trigger] value_check(Value::Int64(x), TypeV::Int64) is Ok,
        value_check(Value::Optional(None), TypeV::Optional(Box::new(t))) is Ok,
        forall|x: Value| #[trigger] value_check(Value::Optional(Some(Box::new(x))), TypeV::Optional(Box::new(t)))
            == value_check(x, t),
        value_type(v) matches Ok(u) && u != t && !(t is Optional) ==> value_check(v, t) is Err,
{
    assert forall|f: Finite64| #[trigger] value_check(Value::Float64(f), TypeV::Float64) is Ok by {
    }
    assert forall|x: Value| #[trigger] value_check(Value::Optional(Some(Box::new(x))), TypeV::Optional(Box::new(t)))
        == value_check(x, t) by {
    }
}

/// An array inhabits `Array(t)` exactly when each of its elements
/// inhabits `t`.
pub proof fn law_array_elements(es: Seq<Value>, t: TypeV, i: int)
    requires
        0 <= i <= es.len(),
    ensures
        elems_check(es, t, i) is Ok <==> forall|j: int|
            i <= j < es.len() ==> #[trigger] value_check(es[j], t) is Ok,
    decreases es.len() - i,
{
    if i < es.len() {
        law_array_elements(es, t, i + 1);
        if value_check(es[i], t) is Ok {
            assert forall|j: int| i <= j < es.len() && (forall|k: int|
                i + 1 <= k < es.len() ==> #[trigger] value_check(es[k], t) is Ok) implies
                #[trigger] value_check(es[j], t) is Ok by {
                if j != i {
                    assert(value_check(es[j], t) is Ok);
                }
            }
        }
    }
}

/// The names an expression reads: its attribute references, at any
/// depth, and the attribute each aggregate reads.
pub open spec fn reads(e: Expression, n: Seq<char>) -> bool
    decreases e,
{
    match e {
        Expression::Attr(x) => x@ == n,
        Expression::Lit(_) => false,
        Expression::BinOp(_, l, r) => reads(*l, n) || reads(*r, n),
        Expression::UnOp(_, x) => reads(*x, n),
        Expression::Like(x, _) => reads(*x, n),
        Expression::InList(x, _) => reads(*x, n),
        Expression::IsNull(x) => reads(*x, n),
        Expression::Cast(x, _) => reads(*x, n),
        Expression::Agg(a) => match a {
            Agg::Count(None) => false,
            Agg::Count(Some(x)) => x@ == n,
            Agg::Sum(x) => x@ == n,
            Agg::Min(x) => x@ == n,
            Agg::Max(x) => x@ == n,
            Agg::Avg(x) => x@ == n,
        },
    }
}

/// The free names of an expression are exactly the names it reads,
/// wherever they occur: under a `LIKE`, `IS NULL`, cast, `IN` list,
/// unary or binary operator, or inside an aggregate.
pub proof fn law_free_names_are_reads(e: Expression, n: Seq<char>)
    ensures
        free_names(e).contains(n) <==> reads(e, n),
    decreases e,
{
    match e {
        Expression::BinOp(_, l, r) => {
            law_free_names_are_reads(*l, n);
            law_free_names_are_reads(*r, n);
        },
        Expression::UnOp(_, x) => law_free_names_are_reads(*x, n),
        Expression::Like(x, _) => law_free_names_are_reads(*x, n),
        Expression::InList(x, _) => law_free_names_are_reads(*x, n),
        Expression::IsNull(x) => law_free_names_are_reads(*x, n),
        Expression::Cast(x, _) => law_free_names_are_reads(*x, n),
        _ => {},
    }
}

/// An attribute reference types to the attribute's type; a reference
/// to a name the header lacks is reported.
pub proof fn law_infer_attribute(s: Seq<AttrV>, n: AttributeName, i: int)
    requires
        keys_unique(names_of(s)),
        0 <= i < s.len(),
        s[i].name == n@,
    ensures
        infer_spec(Expression::Attr(n), s) == Ok::<TypeV, InferErrorV>(s[i].ty),
{
    lemma_attr_named(s, n@, i);
}

/// A reference to a name the header lacks is reported.
pub proof fn law_infer_missing_attribute(s: Seq<AttrV>, n: AttributeName)
    requires
        forall|j: int| 0 <= j < s.len() ==> #[trigger] s[j].name != n@,
    ensures
        infer_spec(Expression::Attr(n), s) == Err::<TypeV, InferErrorV>(
            InferErrorV::UnknownAttribute(n@),
        ),
{
    assert(!has_attr(s, n@));
}

/// The predicate forms type to `Bool`: `LIKE` on a string, `IS NULL` on
/// anything that types, `IN` when every listed literal has the
/// scrutinee's type; a cast types to its target; `LIKE` on a non-string
/// is a mismatch; and an operand's error is the form's error.
pub proof fn law_infer_forms(x: Expression, s: Seq<AttrV>, p: Pattern, to: Type, list: InListValues)
    ensures
        infer_spec(x, s) == Ok::<TypeV, InferErrorV>(TypeV::String) ==> infer_spec(
            Expression::Like(Box::new(x), p),
            s,
        ) == Ok::<TypeV, InferErrorV>(TypeV::Bool),
        infer_spec(x, s) matches Ok(t) && !(t is String) ==> infer_spec(
            Expression::Like(Box::new(x), p),
            s,
        ) == Err::<TypeV, InferErrorV>(
            InferErrorV::TypeMismatch { expected: TypeV::String, got: infer_spec(x, s)->Ok_0 },
        ),
        infer_spec(x, s) is Ok ==> infer_spec(Expression::IsNull(Box::new(x)), s) == Ok::<
            TypeV,
            InferErrorV,
        >(TypeV::Bool),
        infer_spec(x, s) is Ok ==> infer_spec(Expression::Cast(Box::new(x), to), s) == Ok::<
            TypeV,
            InferErrorV,
        >(to@),
        infer_spec(x, s) matches Ok(t) && (forall|j: int|
            0 <= j < list@.len() ==> #[trigger] value_type(list@[j]) == Ok::<TypeV, InferErrorV>(t))
            ==> infer_spec(Expression::InList(Box::new(x), list), s) == Ok::<TypeV, InferErrorV>(
            TypeV::Bool,
        ),
        infer_spec(x, s) is Err ==> {
            &&& infer_spec(Expression::Like(Box::new(x), p), s) == infer_spec(x, s)
            &&& infer_spec(Expression::IsNull(Box::new(x)), s) == infer_spec(x, s)
            &&& infer_spec(Expression::Cast(Box::new(x), to), s) == infer_spec(x, s)
            &&& infer_spec(Expression::InList(Box::new(x), list), s) == infer_spec(x, s)
        },
{
    if infer_spec(x, s) is Ok {
        let t = infer_spec(x, s)->Ok_0;
        if forall|j: int|
            0 <= j < list@.len() ==> #[trigger] value_type(list@[j]) == Ok::<TypeV, InferErrorV>(t) {
            lemma_inlist_all(list@, t, 0);
        }
    }
}

proof fn lemma_inlist_all(vals: Seq<Value>, t: TypeV, i: int)
    requires
        0 <= i,
        forall|j: int| 0 <= j < vals.len() ==> #[trigger] value_type(vals[j]) == Ok::<TypeV, InferErrorV>(t),
    ensures
        inlist_spec(vals, t, i) is Ok,
    decreases vals.len() - i,
{
    if i < vals.len() {
        assert(value_type(vals[i]) == Ok::<TypeV, InferErrorV>(t));
        lemma_inlist_all(vals, t, i + 1);
    }
}

/// A predicate passes the Bool check exactly when it types to `Bool`.
pub proof fn law_bool_check(e: Expression, s: Seq<AttrV>)
    ensures
        bool_check(e, s) is Ok <==> infer_spec(e, s) == Ok::<TypeV, InferErrorV>(TypeV::Bool),
{
}

/// An ASCII letter, digit or underscore.
pub open spec fn ascii_word_char(c: char) -> bool {
    ('a' <= c && c <= 'z') || ('A' <= c && c <= 'Z') || ('0' <= c && c <= '9') || c == '_'
}

/// The attribute-name rule: a name is valid exactly when it has 1 to
/// `MAX_ATTRIBUTE_NAME_LEN` characters, all ASCII letters, digits or
/// underscores, and does not start with a digit.
pub proof fn law_attribute_name_rule(s: Seq<char>)
    ensures
        valid_attribute_name(s) <==> {
            &&& 1 <= s.len() <= MAX_ATTRIBUTE_NAME_LEN
            &&& forall|i: int| 0 <= i < s.len() ==> ascii_word_char(#[trigger] s[i])
            &&& !('0' <= s[0] && s[0] <= '9')
        },
{
}

proof fn lemma_rows_all(rs: Seq<Row>, s: Seq<AttrV>, i: int)
    requires
        0 <= i <= rs.len(),
    ensures
        rows_check(rs, s, i) is Ok <==> forall|j: int|
            i <= j < rs.len() ==> #[trigger] row_fits(rs[j], s),
    decreases rs.len() - i,
{
    if i < rs.len() {
        lemma_rows_all(rs, s, i + 1);
        lemma_row_matches_ok(rs[i], s);
        assert(row_matches_spec(rs[i], s) == crate::infer::row_check(rs[i]@, s));
        if row_fits(rs[i], s) {
            assert forall|j: int| i <= j < rs.len() && (forall|k: int|
                i + 1 <= k < rs.len() ==> #[trigger] row_fits(rs[k], s)) implies #[trigger] row_fits(
                rs[j],
                s,
            ) by {
                if j != i {
                    assert(row_fits(rs[j], s));
                }
            }
        }
    }
}

/// An array value inhabits `Array(t)` exactly when each element
/// inhabits `t`; a nested-relation value inhabits `Relation(s)` exactly
/// when each of its rows fits `s`.
pub proof fn law_nested_values(a: ArrayValues, t: TypeV, rows: Rows, s: Seq<AttrV>)
    ensures
        value_check(Value::Array(a), TypeV::Array(Box::new(t))) is Ok <==> forall|j: int|
            0 <= j < a.spec_values().len() ==> #[trigger] value_check(a.spec_values()[j], t) is Ok,
        value_check(Value::Relation(rows), TypeV::Relation(s)) is Ok <==> forall|i: int|
            0 <= i < rows@.len() ==> #[trigger] row_fits(rows@[i], s),
{
    law_array_elements(a.spec_values(), t, 0);
    lemma_rows_all(rows@, s, 0);
}

/// The order on names (which `free_attributes` sorts by): after a common
/// prefix of length `k`, a name that ends there comes before a longer
/// one, the name with the smaller next code point comes first, and a
/// name never comes before one it extends.
pub proof fn law_name_order(a: Seq<char>, b: Seq<char>, k: int)
    requires
        0 <= k <= a.len(),
        k <= b.len(),
        a.take(k) == b.take(k),
    ensures
        k == a.len() && k < b.len() ==> chars_lt(a, b),
        k == b.len() ==> !chars_lt(a, b),
        k < a.len() && k < b.len() && a[k] < b[k] ==> chars_lt(a, b),
        k < a.len() && k < b.len() && b[k] < a[k] ==> !chars_lt(a, b),
    decreases k,
{
    if k > 0 {
        assert(a[0] == a.take(k)[0] && b[0] == b.take(k)[0]);
        assert(a.drop_first().take(k - 1) =~= a.take(k).drop_first());
        assert(b.drop_first().take(k - 1) =~= b.take(k).drop_first());
        law_name_order(a.drop_first(), b.drop_first(), k - 1);
    }
}

} // verus!
