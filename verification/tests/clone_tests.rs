use axiom_core::canonical::CanonicalPredicate;
use axiom_core::constraint::AttributeConstraint;
use axiom_core::expression::Expression;
use axiom_core::identifier::{AttributeName, TableName};
use axiom_core::infer::row_matches_schema;
use axiom_core::op::{AttributeSet, Op};
use axiom_core::op_enums::BinOp;
use axiom_core::path::{LensPath, PathStep, TraversalPath};
use axiom_core::row::Row;
use axiom_core::schema::{Attribute, Schema};
use axiom_core::source::{Rows, Source};
use axiom_core::ty::{ArrayValues, Type, Value};

fn attr(name: &str) -> AttributeName {
    AttributeName::try_new(name.to_string()).unwrap()
}

fn schema_of(cols: &[(&str, Type)]) -> Schema {
    Schema::try_new(cols.iter().map(|(n, t)| Attribute { name: attr(n), ty: t.clone() }).collect())
        .unwrap()
}

#[test]
fn cloned_value_is_equal_and_inhabits_the_same_types() {
    let inner = schema_of(&[("id", Type::Int64)]);
    let rows = Rows::try_new(vec![Row::try_new(vec![Value::Int64(7)]).unwrap()]).unwrap();
    let nested = Value::Relation(rows);
    let copy = nested.clone();
    assert_eq!(copy, nested);
    let outer = schema_of(&[("items", Type::Relation(Box::new(inner)))]);
    let row = Row::try_new(vec![copy]).unwrap();
    assert_eq!(row_matches_schema(&row, &outer), Ok(()));

    let array = Value::Array(ArrayValues::try_new(vec![Value::Bool(true), Value::Bool(false)]).unwrap());
    assert_eq!(array.clone(), array);
    let optional = Value::Optional(Some(Box::new(Value::String("x".to_string()))));
    assert_eq!(optional.clone(), optional);
}

#[test]
fn cloned_memory_source_keeps_schema_and_rows() {
    let schema = schema_of(&[("id", Type::Int64), ("name", Type::String)]);
    let rows = vec![
        Row::try_new(vec![Value::Int64(1), Value::String("a".to_string())]).unwrap(),
        Row::try_new(vec![Value::Int64(2), Value::String("b".to_string())]).unwrap(),
    ];
    let source = Source::try_memory(schema.clone(), rows).unwrap();
    let copy = source.clone();
    assert_eq!(copy, source);
    assert_eq!(copy.schema(), &schema);
}

#[test]
fn cloned_op_keeps_its_output_schema_and_shape() {
    let table = Op::source(Source::Table {
        schema: schema_of(&[("id", Type::Int64), ("name", Type::String)]),
        name: TableName::try_new("people".to_string()).unwrap(),
    });
    let projected = Op::project(table, AttributeSet::try_new(vec![attr("name")]).unwrap()).unwrap();
    let copy = projected.clone();
    assert_eq!(copy, projected);
    assert_eq!(copy.schema(), projected.schema());
}

#[test]
fn cloned_expression_and_constraint_are_equal() {
    let expr = Expression::BinOp(
        BinOp::Gt,
        Box::new(Expression::Attr(attr("age"))),
        Box::new(Expression::Lit(Value::Int64(18))),
    );
    assert_eq!(expr.clone(), expr);
    let schema = schema_of(&[("age", Type::Int64)]);
    let predicate = CanonicalPredicate::try_new(&schema, expr).unwrap();
    let constraint = AttributeConstraint::try_new(attr("age"), predicate).unwrap();
    let copy = constraint.clone();
    assert_eq!(copy, constraint);
    assert_eq!(copy.attribute(), &attr("age"));
}

#[test]
fn cloned_paths_keep_their_steps() {
    let lens = LensPath::try_new(vec![PathStep::Field(attr("a"))]).unwrap();
    assert_eq!(lens.clone(), lens);
    let traversal = TraversalPath::try_new(vec![PathStep::Field(attr("a")), PathStep::Each]).unwrap();
    assert_eq!(traversal.clone().steps(), traversal.steps());
}
