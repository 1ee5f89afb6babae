use axiom_core::constraint::RowConstraint;
use axiom_core::expression::BoolExpression;
use axiom_core::expression::OpaqueId;
use axiom_core::expression::Predicate;
use axiom_core::infer::infer;
use axiom_core::path::TraversalPath;
use axiom_core::canonical::CanonicalPredicate;
use axiom_core::constraint::{AttributeConstraint, AttributeConstraintError, ConstraintSet, ConstraintSetError};
use axiom_core::expression::{contains_aggregate, Expression};
use axiom_core::identifier::{AttributeName, AttributeNameError, Pattern, TableName};
use axiom_core::infer::{row_matches_schema, InferError, ValueTypeError};
use axiom_core::join::JoinOn;
use axiom_core::limit::{LimitCount, Offset};
use axiom_core::op::{AttributeSet, GroupingSet, NamedAggSet, Op, OpError, OpKind};
use axiom_core::op_enums::{Agg, BinOp, JoinKind, NamedAgg, UnOp};
use axiom_core::order::{Direction, NullOrder, OrderKey, OrderKeys};
use axiom_core::path::{AnyPath, LensPath, PathStep};
use axiom_core::refine::CollectionError;
use axiom_core::row::Row;
use axiom_core::schema::{Attribute, Schema, SchemaError};
use axiom_core::source::{Rows, Source};
use axiom_core::ty::{ArrayValues, Finite64, Type, Value};

fn attr(name: &str) -> AttributeName {
    AttributeName::try_new(name.to_string()).unwrap()
}

fn schema_of(cols: &[(&str, Type)]) -> Schema {
    Schema::try_new(cols.iter().map(|(n, t)| Attribute { name: attr(n), ty: t.clone() }).collect())
        .unwrap()
}

fn table(cols: &[(&str, Type)]) -> Op {
    Op::source(Source::Table {
        schema: schema_of(cols),
        name: TableName::try_new("t".to_string()).unwrap(),
    })
}

fn names(op: &Op) -> Vec<String> {
    op.schema().attributes().iter().map(|a| a.name.as_str().to_string()).collect()
}

#[test]
fn rename_then_rename_back_restores_schema() {
    let input = table(&[("id", Type::Int64), ("name", Type::String)]);
    let original = input.schema().clone();
    let once = Op::rename(input, attr("name"), attr("label")).unwrap();
    assert_eq!(names(&once), vec!["id", "label"]);
    let back = Op::rename(once, attr("label"), attr("name")).unwrap();
    assert_eq!(back.schema(), &original);
}

#[test]
fn rename_to_itself_is_admitted() {
    let op = Op::rename(table(&[("id", Type::Int64)]), attr("id"), attr("id")).unwrap();
    assert_eq!(names(&op), vec!["id"]);
}

#[test]
fn unnest_after_nest_puts_nested_attributes_last() {
    let input = table(&[("a", Type::Int32), ("b", Type::String), ("c", Type::Bool)]);
    let nested =
        Op::nest(input, AttributeSet::try_new(vec![attr("a"), attr("c")]).unwrap(), attr("n")).unwrap();
    assert_eq!(names(&nested), vec!["b", "n"]);
    let path = AnyPath::Lens(LensPath::try_new(vec![PathStep::Field(attr("n"))]).unwrap());
    let flat = Op::unnest(nested, path).unwrap();
    assert_eq!(names(&flat), vec!["b", "a", "c"]);
}

#[test]
fn natural_inner_join_of_disjoint_is_product() {
    let left = table(&[("id", Type::Int64)]);
    let right = table(&[("city", Type::String)]);
    let joined = Op::join(left, right, JoinKind::Inner, JoinOn::Natural).unwrap();
    assert!(matches!(joined.kind(), OpKind::Product { .. }));
    let product = Op::product(table(&[("id", Type::Int64)]), table(&[("city", Type::String)])).unwrap();
    assert_eq!(joined.schema(), product.schema());
}

#[test]
fn restrict_order_limit_keep_the_schema() {
    let input = table(&[("id", Type::Int64), ("ok", Type::Bool)]);
    let original = input.schema().clone();
    let pred = BoolExpression::try_new(input.schema(), Expression::Attr(attr("ok"))).unwrap();
    let restricted = Op::restrict(input, Predicate::Expr(pred)).unwrap();
    let keys = OrderKeys::try_new(vec![OrderKey {
        attr: attr("id"),
        direction: Direction::Descending,
        nulls: NullOrder::NullsFirst,
    }])
    .unwrap();
    let ordered = Op::order(restricted, keys);
    let limited = Op::limit(ordered, Offset::try_new(5).unwrap(), LimitCount::Unbounded);
    assert_eq!(limited.schema(), &original);
}

#[test]
fn union_intersect_difference_agree_on_admissible_operands() {
    let a = || table(&[("id", Type::Int64)]);
    let b = || table(&[("id", Type::Int32)]);
    assert!(Op::union(a(), a()).is_ok());
    assert!(Op::intersect(a(), a()).is_ok());
    assert!(Op::difference(a(), a()).is_ok());
    assert_eq!(Op::union(a(), b()).unwrap_err(), OpError::SchemaMismatch);
    assert_eq!(Op::intersect(a(), b()).unwrap_err(), OpError::SchemaMismatch);
    assert_eq!(Op::difference(a(), b()).unwrap_err(), OpError::SchemaMismatch);
}

#[test]
fn extend_appends_one_attribute_with_inferred_type() {
    let expr = Expression::BinOp(
        BinOp::Lt,
        Box::new(Expression::Attr(attr("x"))),
        Box::new(Expression::Lit(Value::Int32(3))),
    );
    let op = Op::extend(table(&[("x", Type::Int32)]), attr("small"), expr).unwrap();
    assert_eq!(names(&op), vec!["x", "small"]);
    assert_eq!(op.schema().attributes()[1].ty, Type::Bool);
}

#[test]
fn summarize_rejects_unknown_aggregate_input() {
    let by = GroupingSet::try_new(vec![]).unwrap();
    let aggs = NamedAggSet::try_new(vec![NamedAgg { name: attr("m"), agg: Agg::Max(attr("nope")) }]).unwrap();
    let err = Op::summarize(table(&[("x", Type::Int32)]), by, aggs).unwrap_err();
    assert_eq!(err, OpError::Infer(InferError::UnknownAttribute(attr("nope"))));
}

#[test]
fn summarize_max_of_json_is_not_applicable() {
    let by = GroupingSet::try_new(vec![]).unwrap();
    let aggs = NamedAggSet::try_new(vec![NamedAgg { name: attr("m"), agg: Agg::Max(attr("j")) }]).unwrap();
    let err = Op::summarize(table(&[("j", Type::Json)]), by, aggs).unwrap_err();
    assert_eq!(err, OpError::Infer(InferError::OperatorNotApplicable { got: Type::Json }));
}

#[test]
fn avg_of_decimal_is_decimal() {
    let by = GroupingSet::try_new(vec![attr("k")]).unwrap();
    let aggs = NamedAggSet::try_new(vec![NamedAgg { name: attr("v"), agg: Agg::Avg(attr("d")) }]).unwrap();
    let op = Op::summarize(table(&[("k", Type::String), ("d", Type::Decimal)]), by, aggs).unwrap();
    assert_eq!(names(&op), vec!["k", "v"]);
    assert_eq!(op.schema().attributes()[1].ty, Type::Decimal);
}

#[test]
fn join_theta_opaque_predicate_is_admitted() {
    let op = Op::join(
        table(&[("a", Type::Int32)]),
        table(&[("b", Type::Int32)]),
        JoinKind::LeftOuter,
        JoinOn::Theta(Predicate::Opaque(OpaqueId::new(7))),
    )
    .unwrap();
    assert_eq!(names(&op), vec!["a", "b"]);
}

#[test]
fn modify_rejects_traversal_path() {
    let path = AnyPath::Traversal(TraversalPath::try_new(vec![PathStep::Each]).unwrap());
    let err = Op::modify(table(&[("a", Type::Int32)]), path, table(&[("b", Type::Int32)])).unwrap_err();
    assert_eq!(err, OpError::UnsupportedPathShape);
}

#[test]
fn unnest_rejects_two_step_lens() {
    let path = AnyPath::Lens(LensPath::try_new(vec![PathStep::Field(attr("a")), PathStep::Field(attr("b"))]).unwrap());
    let err = Op::unnest(table(&[("a", Type::Int32)]), path).unwrap_err();
    assert_eq!(err, OpError::UnsupportedPathShape);
}

#[test]
fn product_over_schema_limit_reports_cardinality() {
    let left_cols: Vec<Attribute> = (0..200).map(|i| Attribute { name: attr(&format!("l{i}")), ty: Type::Bool }).collect();
    let right_cols: Vec<Attribute> = (0..100).map(|i| Attribute { name: attr(&format!("r{i}")), ty: Type::Bool }).collect();
    let l = Op::source(Source::Table { schema: Schema::try_new(left_cols).unwrap(), name: TableName::try_new("l".to_string()).unwrap() });
    let r = Op::source(Source::Table { schema: Schema::try_new(right_cols).unwrap(), name: TableName::try_new("r".to_string()).unwrap() });
    let err = Op::product(l, r).unwrap_err();
    assert_eq!(err, OpError::Schema(SchemaError::Cardinality { actual: 300 }));
}

#[test]
fn attribute_name_rejects_leading_dash_as_body_char() {
    assert_eq!(
        AttributeName::try_new("-x".to_string()).unwrap_err(),
        AttributeNameError::BodyChar { offset: 0 },
    );
}

#[test]
fn attribute_name_rejects_non_ascii() {
    assert_eq!(
        AttributeName::try_new("abé".to_string()).unwrap_err(),
        AttributeNameError::BodyChar { offset: 2 },
    );
}

#[test]
fn pattern_length_counts_characters() {
    assert!(Pattern::try_new("é".repeat(1024)).is_ok());
}

#[test]
fn free_attributes_are_sorted_and_unique() {
    let expr = Expression::BinOp(
        BinOp::Or,
        Box::new(Expression::BinOp(
            BinOp::Lt,
            Box::new(Expression::Attr(attr("zeta"))),
            Box::new(Expression::Attr(attr("alpha"))),
        )),
        Box::new(Expression::IsNull(Box::new(Expression::Attr(attr("zeta"))))),
    );
    let p = CanonicalPredicate::try_from_expression(expr).unwrap();
    let got: Vec<String> = p.free_attributes().iter().map(|n| n.as_str().to_string()).collect();
    assert_eq!(got, vec!["alpha", "zeta"]);
}

#[test]
fn attribute_constraint_reports_least_foreign_name() {
    let expr = Expression::BinOp(
        BinOp::And,
        Box::new(Expression::Attr(attr("zz"))),
        Box::new(Expression::BinOp(
            BinOp::Eq,
            Box::new(Expression::Attr(attr("mm"))),
            Box::new(Expression::Attr(attr("bb"))),
        )),
    );
    let p = CanonicalPredicate::try_from_expression(expr).unwrap();
    let err = AttributeConstraint::try_new(attr("mm"), p).unwrap_err();
    assert_eq!(err, AttributeConstraintError::ForeignAttribute { scope: attr("mm"), foreign: attr("bb") });
}

#[test]
fn constraint_set_rejects_overlong_row_list() {
    let rows: Vec<RowConstraint> = (0..257)
        .map(|_| RowConstraint::new(CanonicalPredicate::try_from_expression(Expression::Lit(Value::Bool(true))).unwrap()))
        .collect();
    let err = ConstraintSet::try_new(Vec::new(), rows).unwrap_err();
    assert_eq!(err, ConstraintSetError::PerRow(CollectionError::LenOutOfRange { actual: 257 }));
}

#[test]
fn contains_aggregate_finds_nested_aggregate() {
    let expr = Expression::UnOp(UnOp::Not, Box::new(Expression::Cast(Box::new(Expression::Agg(Agg::Count(None))), Type::Bool)));
    assert!(contains_aggregate(&expr));
    assert!(!contains_aggregate(&Expression::Lit(Value::Int32(1))));
}

#[test]
fn row_check_descends_into_optional_and_relation() {
    let inner = schema_of(&[("v", Type::Int32)]);
    let s = schema_of(&[("o", Type::Optional(Box::new(Type::Int32))), ("r", Type::Relation(Box::new(inner)))]);
    let good_rel = Rows::try_new(vec![Row::try_new(vec![Value::Int32(1)]).unwrap()]).unwrap();
    let good = Row::try_new(vec![Value::Optional(None), Value::Relation(good_rel)]).unwrap();
    assert!(row_matches_schema(&good, &s).is_ok());
    let bad_rel = Rows::try_new(vec![
        Row::try_new(vec![Value::Int32(1)]).unwrap(),
        Row::try_new(vec![Value::Bool(false)]).unwrap(),
    ])
    .unwrap();
    let bad = Row::try_new(vec![Value::Optional(Some(Box::new(Value::Int32(2)))), Value::Relation(bad_rel)]).unwrap();
    assert_eq!(
        row_matches_schema(&bad, &s).unwrap_err(),
        ValueTypeError::RelationField {
            position: 1,
            source: Box::new(ValueTypeError::RelationRow {
                index: 1,
                source: Box::new(ValueTypeError::RelationField { position: 0, source: Box::new(ValueTypeError::Mismatch) }),
            }),
        },
    );
}

#[test]
fn finite_float_rejects_nan_and_infinity() {
    assert!(Finite64::from_bits(f64::NAN.to_bits()).is_none());
    assert!(Finite64::from_bits(f64::INFINITY.to_bits()).is_none());
    assert!(Finite64::from_bits(f64::NEG_INFINITY.to_bits()).is_none());
    let f = Finite64::from_bits(1.5f64.to_bits()).unwrap();
    assert_eq!(f64::from_bits(f.to_bits()), 1.5);
}

#[test]
fn array_values_bounded() {
    let ok = ArrayValues::try_new(vec![Value::Int32(1), Value::Int32(2)]).unwrap();
    assert_eq!(ok.len(), 2);
    let err = ArrayValues::try_new((0..16385).map(|_| Value::Bool(true)).collect()).unwrap_err();
    assert_eq!(err, CollectionError::LenOutOfRange { actual: 16385 });
}

#[test]
fn offset_round_trips() {
    assert_eq!(Offset::try_new(17).unwrap().get(), 17);
    assert_eq!(LimitCount::bounded(9).unwrap().get(), Some(9));
}

#[test]
fn schema_find_and_contains_agree() {
    let s = schema_of(&[("a", Type::Int32), ("b", Type::Bytes)]);
    assert_eq!(s.find(&attr("b")).unwrap().ty, Type::Bytes);
    assert!(s.contains(&attr("a")));
    assert!(s.find(&attr("c")).is_none());
    assert!(!s.contains(&attr("c")));
}

#[test]
fn infer_concat_and_like() {
    let s = schema_of(&[("t", Type::String), ("n", Type::Int32)]);
    let cat = Expression::BinOp(BinOp::Concat, Box::new(Expression::Attr(attr("t"))), Box::new(Expression::Attr(attr("t"))));
    assert_eq!(infer(&cat, &s).unwrap(), Type::String);
    let bad = Expression::BinOp(BinOp::Concat, Box::new(Expression::Attr(attr("n"))), Box::new(Expression::Attr(attr("n"))));
    assert_eq!(infer(&bad, &s).unwrap_err(), InferError::OperatorNotApplicable { got: Type::Int32 });
    let like = Expression::Like(Box::new(Expression::Attr(attr("n"))), Pattern::try_new("1%".to_string()).unwrap());
    assert_eq!(infer(&like, &s).unwrap_err(), InferError::TypeMismatch { expected: Type::String, got: Type::Int32 });
    let neg = Expression::UnOp(UnOp::Neg, Box::new(Expression::Attr(attr("t"))));
    assert_eq!(infer(&neg, &s).unwrap_err(), InferError::OperatorNotApplicable { got: Type::String });
}

#[test]
fn project_twice_gives_the_same_schema() {
    let input = table(&[("a", Type::Int32), ("b", Type::String), ("c", Type::Bool)]);
    let once = Op::project(input, AttributeSet::try_new(vec![attr("c"), attr("a")]).unwrap()).unwrap();
    assert_eq!(names(&once), vec!["c", "a"]);
    let first = once.schema().clone();
    let twice = Op::project(once, AttributeSet::try_new(vec![attr("c"), attr("a")]).unwrap()).unwrap();
    assert_eq!(twice.schema(), &first);
}

#[test]
fn nest_into_a_nested_name_then_unnest_succeeds() {
    let input = table(&[("a", Type::Int32), ("b", Type::String)]);
    let nested = Op::nest(input, AttributeSet::try_new(vec![attr("b")]).unwrap(), attr("b")).unwrap();
    assert_eq!(names(&nested), vec!["a", "b"]);
    let path = AnyPath::Lens(LensPath::try_new(vec![PathStep::Field(attr("b"))]).unwrap());
    let flat = Op::unnest(nested, path).unwrap();
    assert_eq!(names(&flat), vec!["a", "b"]);
    assert_eq!(flat.schema().attributes()[1].ty, Type::String);
}

#[test]
fn natural_outer_join_coalesces_shared_names() {
    let left = table(&[("id", Type::Int64), ("name", Type::String)]);
    let right = table(&[("city", Type::String), ("id", Type::Int64)]);
    let joined = Op::join(left, right, JoinKind::LeftOuter, JoinOn::Natural).unwrap();
    assert_eq!(names(&joined), vec!["id", "name", "city"]);
}

#[test]
fn unnest_rejects_nested_name_colliding_with_sibling() {
    let inner = schema_of(&[("a", Type::Int32)]);
    let input = table(&[("a", Type::Int32), ("r", Type::Relation(Box::new(inner)))]);
    let path = AnyPath::Lens(LensPath::try_new(vec![PathStep::Field(attr("r"))]).unwrap());
    let err = Op::unnest(input, path).unwrap_err();
    assert!(matches!(err, OpError::Schema(SchemaError::DuplicateAttribute { .. })));
}

#[test]
fn schema_reports_the_least_duplicate_position() {
    let err = Schema::try_new(vec![
        Attribute { name: attr("a"), ty: Type::Int32 },
        Attribute { name: attr("b"), ty: Type::Int32 },
        Attribute { name: attr("b"), ty: Type::Int32 },
        Attribute { name: attr("a"), ty: Type::Int32 },
    ])
    .unwrap_err();
    assert_eq!(err, SchemaError::DuplicateAttribute { index: 2 });
}

#[test]
fn summarize_groups_then_aggregates() {
    let by = GroupingSet::try_new(vec![attr("k")]).unwrap();
    let aggs = NamedAggSet::try_new(vec![
        NamedAgg { name: attr("n"), agg: Agg::Count(None) },
        NamedAgg { name: attr("total"), agg: Agg::Sum(attr("v")) },
    ])
    .unwrap();
    let op = Op::summarize(table(&[("v", Type::Int32), ("k", Type::String)]), by, aggs).unwrap();
    assert_eq!(names(&op), vec!["k", "n", "total"]);
    assert_eq!(op.schema().attributes()[2].ty, Type::Int64);
}
