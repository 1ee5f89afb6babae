use axiom_core::canonical::CanonicalPredicate;
use axiom_core::canonical::CanonicalPredicateError;
use axiom_core::expression::Expression;
use axiom_core::identifier::AttributeName;
use axiom_core::infer::InferError;
use axiom_core::op_enums::Agg;
use axiom_core::op_enums::BinOp;
use axiom_core::schema::Attribute;
use axiom_core::schema::Schema;
use axiom_core::ty::Type;
use axiom_core::ty::Value;

fn attr(name: &str) -> AttributeName {
    AttributeName::try_new(name.to_string()).unwrap()
}

fn person_schema() -> Schema {
    Schema::try_new(vec![
        Attribute {
            name: attr("age"),
            ty: Type::Int32,
        },
        Attribute {
            name: attr("retire_at"),
            ty: Type::Int32,
        },
        Attribute {
            name: attr("amount"),
            ty: Type::Int32,
        },
        Attribute {
            name: attr("x"),
            ty: Type::Int32,
        },
    ])
    .unwrap()
}

#[test]
fn literal_predicate_admissible() {
    let p = CanonicalPredicate::try_new(&person_schema(), Expression::Lit(Value::Bool(true)))
        .unwrap();
    let Expression::Lit(Value::Bool(true)) = p.as_expression() else {
        unreachable!();
    };
}

#[test]
fn comparison_predicate_admissible() {
    let expr = Expression::BinOp(
        BinOp::Ge,
        Box::new(Expression::Attr(attr("age"))),
        Box::new(Expression::Lit(Value::Int32(18))),
    );
    CanonicalPredicate::try_new(&person_schema(), expr).unwrap();
}

#[test]
fn non_bool_expression_rejected() {
    let result =
        CanonicalPredicate::try_new(&person_schema(), Expression::Lit(Value::Int32(0)));
    assert!(matches!(
        result.unwrap_err(),
        CanonicalPredicateError::Infer(InferError::TypeMismatch {
            expected: Type::Bool,
            got: Type::Int32,
        }),
    ));
}

#[test]
fn aggregate_predicate_rejected() {
    let expr = Expression::Agg(Agg::Sum(attr("amount")));
    let result = CanonicalPredicate::try_new(&person_schema(), expr);
    assert_eq!(
        result.unwrap_err(),
        CanonicalPredicateError::ContainsAggregate,
    );
}

#[test]
fn aggregate_inside_binop_rejected() {
    let expr = Expression::BinOp(
        BinOp::Gt,
        Box::new(Expression::Agg(Agg::Sum(attr("x")))),
        Box::new(Expression::Lit(Value::Int32(0))),
    );
    let result = CanonicalPredicate::try_new(&person_schema(), expr);
    assert_eq!(
        result.unwrap_err(),
        CanonicalPredicateError::ContainsAggregate,
    );
}

#[test]
fn free_attributes_collects_referenced_names() {
    let expr = Expression::BinOp(
        BinOp::And,
        Box::new(Expression::BinOp(
            BinOp::Ge,
            Box::new(Expression::Attr(attr("age"))),
            Box::new(Expression::Lit(Value::Int32(18))),
        )),
        Box::new(Expression::BinOp(
            BinOp::Lt,
            Box::new(Expression::Attr(attr("age"))),
            Box::new(Expression::Attr(attr("retire_at"))),
        )),
    );
    let p = CanonicalPredicate::try_new(&person_schema(), expr).unwrap();
    let attrs = p.free_attributes();
    assert_eq!(attrs.len(), 2);
    assert!(attrs.contains(&attr("age")));
    assert!(attrs.contains(&attr("retire_at")));
}
