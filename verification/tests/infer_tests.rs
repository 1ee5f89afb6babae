use axiom_core::infer::agg_ty;
use axiom_core::infer::infer;
use axiom_core::infer::infer_value;
use axiom_core::infer::InferError;
use axiom_core::expression::Expression;
use axiom_core::expression::InListValues;
use axiom_core::identifier::AttributeName;
use axiom_core::op_enums::Agg;
use axiom_core::op_enums::BinOp;
use axiom_core::op_enums::UnOp;
use axiom_core::schema::Attribute;
use axiom_core::schema::Schema;
use axiom_core::ty::Type;
use axiom_core::ty::Value;
use axiom_core::identifier::Pattern;

fn attr(name: &str) -> AttributeName {
    AttributeName::try_new(name.to_string()).unwrap()
}

fn two_attr_schema() -> Schema {
    Schema::try_new(vec![
        Attribute { name: attr("age"), ty: Type::Int32 },
        Attribute { name: attr("name"), ty: Type::String },
    ])
    .unwrap()
}

// ─── infer_value: scalar literals. ───────────────────────────

#[test]
fn literal_bool_infers_bool() {
    assert_eq!(
        infer_value(&Value::Bool(true)).unwrap(),
        Type::Bool,
    );
}

#[test]
fn literal_int32_infers_int32() {
    assert_eq!(
        infer_value(&Value::Int32(42_i32)).unwrap(),
        Type::Int32,
    );
}

#[test]
fn compound_literal_is_ambiguous() {
    assert_eq!(
        infer_value(&Value::Optional(None)).unwrap_err(),
        InferError::AmbiguousLiteral,
    );
}

// ─── infer: attribute lookups. ───────────────────────────────

#[test]
fn attr_resolved_from_schema() {
    let s = two_attr_schema();
    let ty = infer(&Expression::Attr(attr("age")), &s).unwrap();
    assert_eq!(ty, Type::Int32);
}

#[test]
fn unknown_attr_reported() {
    let s = two_attr_schema();
    let err = infer(&Expression::Attr(attr("missing")), &s)
        .unwrap_err();
    let InferError::UnknownAttribute(name) = err else {
        unreachable!();
    };
    assert_eq!(name.as_str(), "missing");
}

// ─── BinOp. ──────────────────────────────────────────────────

#[test]
fn arithmetic_admits_matching_numeric() {
    let s = two_attr_schema();
    let expr = Expression::BinOp(
        BinOp::Add,
        Box::new(Expression::Attr(attr("age"))),
        Box::new(Expression::Lit(Value::Int32(1))),
    );
    assert_eq!(infer(&expr, &s).unwrap(), Type::Int32);
}

#[test]
fn arithmetic_rejects_string_operand() {
    let s = two_attr_schema();
    let expr = Expression::BinOp(
        BinOp::Add,
        Box::new(Expression::Attr(attr("name"))),
        Box::new(Expression::Lit(Value::String("x".to_string()))),
    );
    assert!(matches!(
        infer(&expr, &s).unwrap_err(),
        InferError::OperatorNotApplicable { got: Type::String },
    ));
}

#[test]
fn arithmetic_rejects_mismatched_widths() {
    let s = two_attr_schema();
    let expr = Expression::BinOp(
        BinOp::Add,
        Box::new(Expression::Attr(attr("age"))),
        Box::new(Expression::Lit(Value::Int64(1))),
    );
    let err = infer(&expr, &s).unwrap_err();
    assert!(matches!(err, InferError::BinOpTypeMismatch { .. }));
}

#[test]
fn comparison_returns_bool() {
    let s = two_attr_schema();
    let expr = Expression::BinOp(
        BinOp::Ge,
        Box::new(Expression::Attr(attr("age"))),
        Box::new(Expression::Lit(Value::Int32(18))),
    );
    assert_eq!(infer(&expr, &s).unwrap(), Type::Bool);
}

#[test]
fn logical_rejects_non_bool_operand() {
    let s = two_attr_schema();
    let expr = Expression::BinOp(
        BinOp::And,
        Box::new(Expression::Attr(attr("age"))),
        Box::new(Expression::Lit(Value::Bool(true))),
    );
    assert!(matches!(
        infer(&expr, &s).unwrap_err(),
        InferError::TypeMismatch { expected: Type::Bool, .. },
    ));
}

// ─── UnOp. ───────────────────────────────────────────────────

#[test]
fn neg_admits_numeric() {
    let s = two_attr_schema();
    let expr = Expression::UnOp(
        UnOp::Neg,
        Box::new(Expression::Attr(attr("age"))),
    );
    assert_eq!(infer(&expr, &s).unwrap(), Type::Int32);
}

#[test]
fn not_admits_bool() {
    let s = two_attr_schema();
    let expr = Expression::UnOp(
        UnOp::Not,
        Box::new(Expression::Lit(Value::Bool(true))),
    );
    assert_eq!(infer(&expr, &s).unwrap(), Type::Bool);
}

// ─── Like / IsNull / Cast / InList. ──────────────────────────

#[test]
fn like_requires_string_operand() {
    let s = two_attr_schema();
    let pat = Pattern::try_new("Mr.%".to_string()).unwrap();
    let expr =
        Expression::Like(Box::new(Expression::Attr(attr("name"))), pat);
    assert_eq!(infer(&expr, &s).unwrap(), Type::Bool);
}

#[test]
fn isnull_returns_bool() {
    let s = two_attr_schema();
    let expr =
        Expression::IsNull(Box::new(Expression::Attr(attr("age"))));
    assert_eq!(infer(&expr, &s).unwrap(), Type::Bool);
}

#[test]
fn cast_returns_target_type() {
    let s = two_attr_schema();
    let expr = Expression::Cast(
        Box::new(Expression::Attr(attr("age"))),
        Type::Int64,
    );
    assert_eq!(infer(&expr, &s).unwrap(), Type::Int64);
}

#[test]
fn in_list_returns_bool_when_elements_match() {
    let s = two_attr_schema();
    let expr = Expression::InList(
        Box::new(Expression::Attr(attr("age"))),
        InListValues::try_new(vec![Value::Int32(1), Value::Int32(2)]).unwrap(),
    );
    assert_eq!(infer(&expr, &s).unwrap(), Type::Bool);
}

#[test]
fn in_list_rejects_element_mismatch() {
    let s = two_attr_schema();
    let expr = Expression::InList(
        Box::new(Expression::Attr(attr("age"))),
        InListValues::try_new(vec![Value::Int32(1), Value::String("x".to_string())]).unwrap(),
    );
    assert!(matches!(
        infer(&expr, &s).unwrap_err(),
        InferError::InListElementMismatch { index: 1, .. },
    ));
}

// ─── Agg. ────────────────────────────────────────────────────

#[test]
fn count_is_int64() {
    let s = two_attr_schema();
    assert_eq!(
        agg_ty(&Agg::Count(None), &s).unwrap(),
        Type::Int64,
    );
}

#[test]
fn sum_widens_int32_to_int64() {
    let s = two_attr_schema();
    assert_eq!(
        agg_ty(&Agg::Sum(attr("age")), &s).unwrap(),
        Type::Int64,
    );
}

#[test]
fn avg_returns_float64_for_int_input() {
    let s = two_attr_schema();
    assert_eq!(
        agg_ty(&Agg::Avg(attr("age")), &s).unwrap(),
        Type::Float64,
    );
}

#[test]
fn min_returns_input_type() {
    let s = two_attr_schema();
    assert_eq!(
        agg_ty(&Agg::Min(attr("name")), &s).unwrap(),
        Type::String,
    );
}

#[test]
fn sum_rejects_string() {
    let s = two_attr_schema();
    assert!(matches!(
        agg_ty(&Agg::Sum(attr("name")), &s).unwrap_err(),
        InferError::OperatorNotApplicable { got: Type::String },
    ));
}
