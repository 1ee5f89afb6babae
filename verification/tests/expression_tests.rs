use axiom_core::expression::BoolExpression;
use axiom_core::expression::Expression;
use axiom_core::expression::OpaqueId;
use axiom_core::expression::Predicate;
use axiom_core::identifier::AttributeName;
use axiom_core::infer::InferError;
use axiom_core::op_enums::BinOp;
use axiom_core::schema::Attribute;
use axiom_core::schema::Schema;
use axiom_core::ty::Type;
use axiom_core::ty::Value;

#[test]
fn expression_attr_and_literal() {
    let attr = AttributeName::try_new("age".to_string()).unwrap();
    let expr = Expression::BinOp(
        BinOp::Ge,
        Box::new(Expression::Attr(attr)),
        Box::new(Expression::Lit(Value::Int32(18))),
    );
    let Expression::BinOp(BinOp::Ge, ..) = expr else {
        unreachable!();
    };
}

fn attr(name: &str) -> AttributeName {
    AttributeName::try_new(name.to_string()).unwrap()
}

fn bool_schema() -> Schema {
    Schema::try_new(vec![Attribute {
        name: attr("flag"),
        ty: Type::Bool,
    }])
    .unwrap()
}

#[test]
fn bool_expression_accepts_bool_typed_expression() {
    let e = BoolExpression::try_new(
        &bool_schema(),
        Expression::Lit(Value::Bool(true)),
    )
    .unwrap();
    assert!(matches!(
        e.as_expression(),
        Expression::Lit(Value::Bool(true)),
    ));
}

#[test]
fn bool_expression_rejects_non_bool_expression() {
    let err = BoolExpression::try_new(
        &bool_schema(),
        Expression::Lit(Value::Int32(0)),
    )
    .unwrap_err();
    assert!(matches!(
        err,
        InferError::TypeMismatch {
            expected: Type::Bool,
            got: Type::Int32,
        },
    ));
}

#[test]
fn bool_expression_rejects_unknown_attribute() {
    let err = BoolExpression::try_new(
        &bool_schema(),
        Expression::Attr(attr("missing")),
    )
    .unwrap_err();
    assert!(matches!(err, InferError::UnknownAttribute(_)));
}

#[test]
fn predicate_expr_wraps_bool_expression() {
    let e = BoolExpression::try_new(
        &bool_schema(),
        Expression::Attr(attr("flag")),
    )
    .unwrap();
    let p = Predicate::Expr(e);
    let Predicate::Expr(_) = p else { unreachable!() };
}

#[test]
fn predicate_opaque_carries_id() {
    // OpaqueId::new is crate-private; this test uses it because
    // the test module is inside the same crate.
    let id = OpaqueId::new(42);
    let p = Predicate::Opaque(id);
    let Predicate::Opaque(got) = p else { unreachable!() };
    assert_eq!(got.get(), 42);
}
