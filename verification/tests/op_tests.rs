use axiom_core::op::AttributeSet;
use axiom_core::op::AttributeSetError;
use axiom_core::op::GroupingSet;
use axiom_core::op::GroupingSetError;
use axiom_core::op::NamedAggSet;
use axiom_core::op::NamedAggSetError;
use axiom_core::op::Op;
use axiom_core::op::OpKind;
use axiom_core::identifier::AttributeName;
use axiom_core::identifier::TableName;
use axiom_core::op_enums::Agg;
use axiom_core::op_enums::NamedAgg;
use axiom_core::schema::Attribute;
use axiom_core::schema::Schema;
use axiom_core::source::Source;
use axiom_core::ty::Type;
use axiom_core::op::OpError;
use axiom_core::expression::BoolExpression;
use axiom_core::expression::Expression;
use axiom_core::expression::Predicate;
use axiom_core::op_enums::BinOp;
use axiom_core::ty::Value;
use axiom_core::path::AnyPath;
use axiom_core::path::LensPath;
use axiom_core::path::PathStep;
use axiom_core::path::TraversalPath;

fn attr(name: &str) -> AttributeName {
    AttributeName::try_new(name.to_string()).unwrap()
}

fn schema() -> Schema {
    Schema::try_new(vec![Attribute {
        name: attr("id"),
        ty: Type::Int64,
    }])
    .unwrap()
}

// ─── AttributeSet. ───────────────────────────────────────────

#[test]
fn attribute_set_admits_distinct_names() {
    let s = AttributeSet::try_new(vec![attr("a"), attr("b")]).unwrap();
    assert_eq!(s.as_slice().len(), 2);
}

#[test]
fn attribute_set_rejects_empty() {
    let result = AttributeSet::try_new(Vec::new());
    assert_eq!(
        result.unwrap_err(),
        AttributeSetError::AttributeCount { actual: 0 },
    );
}

#[test]
fn attribute_set_rejects_duplicate_names() {
    let result = AttributeSet::try_new(vec![attr("a"), attr("a")]);
    assert_eq!(
        result.unwrap_err(),
        AttributeSetError::DuplicateAttribute { index: 1 },
    );
}

// ─── GroupingSet. ────────────────────────────────────────────

#[test]
fn grouping_set_admits_empty() {
    let s = GroupingSet::try_new(Vec::new()).unwrap();
    assert!(s.as_slice().is_empty());
}

#[test]
fn grouping_set_rejects_duplicates() {
    let result = GroupingSet::try_new(vec![attr("k"), attr("k")]);
    assert_eq!(
        result.unwrap_err(),
        GroupingSetError::DuplicateAttribute { index: 1 },
    );
}

// ─── NamedAggSet. ────────────────────────────────────────────

#[test]
fn named_agg_set_rejects_duplicate_output_names() {
    let aggs = vec![
        NamedAgg {
            name: attr("total"),
            agg: Agg::Sum(attr("x")),
        },
        NamedAgg {
            name: attr("total"),
            agg: Agg::Avg(attr("y")),
        },
    ];
    let result = NamedAggSet::try_new(aggs);
    assert_eq!(
        result.unwrap_err(),
        NamedAggSetError::DuplicateOutputName { index: 1 },
    );
}

// ─── Op constructors. ────────────────────────────────────────

fn two_attr_schema() -> Schema {
    Schema::try_new(vec![
        Attribute {
            name: attr("id"),
            ty: Type::Int64,
        },
        Attribute {
            name: attr("name"),
            ty: Type::String,
        },
    ])
    .unwrap()
}

fn two_attr_source() -> Op {
    Op::source(Source::Table {
        schema: two_attr_schema(),
        name: TableName::try_new("users".to_string()).unwrap(),
    })
}

#[test]
fn op_source_builds_a_leaf() {
    let src = Source::Table {
        schema: schema(),
        name: TableName::try_new("orders".to_string()).unwrap(),
    };
    let op = Op::source(src);
    let OpKind::Source(_) = op.kind() else {
        unreachable!();
    };
    assert_eq!(op.schema().cardinality(), 1);
}

#[test]
fn op_project_admits_known_attrs() {
    let input = two_attr_source();
    let attrs = AttributeSet::try_new(vec![attr("name")]).unwrap();
    let op = Op::project(input, attrs).unwrap();
    assert_eq!(op.schema().cardinality(), 1);
    assert_eq!(op.schema().attributes()[0].name.as_str(), "name",);
}

#[test]
fn op_project_rejects_unknown_attr() {
    let input = two_attr_source();
    let attrs = AttributeSet::try_new(vec![attr("missing")]).unwrap();
    let result = Op::project(input, attrs);
    let Err(OpError::UnknownAttribute { attribute }) = result else {
        unreachable!();
    };
    assert_eq!(attribute.as_str(), "missing");
}

#[test]
fn op_restrict_preserves_schema() {
    let input = two_attr_source();
    let bool_expr = BoolExpression::try_new(
        input.schema(),
        Expression::BinOp(
            BinOp::Gt,
            Box::new(Expression::Attr(attr("id"))),
            Box::new(Expression::Lit(Value::Int64(0))),
        ),
    )
    .unwrap();
    let op = Op::restrict(input, Predicate::Expr(bool_expr)).unwrap();
    assert_eq!(op.schema().cardinality(), 2);
}

#[test]
fn op_restrict_rejects_predicate_from_incompatible_schema() {
    // Build BoolExpression against a schema that has 'flag: Bool'
    // — Op::restrict's input schema (two_attr_source: id / name)
    // does not, so re-verification on use fails.
    let other_schema = Schema::try_new(vec![Attribute {
        name: attr("flag"),
        ty: Type::Bool,
    }])
    .unwrap();
    let bool_expr =
        BoolExpression::try_new(&other_schema, Expression::Attr(attr("flag"))).unwrap();
    let result = Op::restrict(two_attr_source(), Predicate::Expr(bool_expr));
    let Err(OpError::Infer(_)) = result else {
        unreachable!();
    };
}

#[test]
fn op_rename_swaps_attribute_in_schema() {
    let input = two_attr_source();
    let op = Op::rename(input, attr("name"), attr("full_name")).unwrap();
    let names: Vec<_> = op
        .schema()
        .attributes()
        .iter()
        .map(|a| a.name.as_str())
        .collect();
    assert_eq!(names, vec!["id", "full_name"]);
}

#[test]
fn op_rename_rejects_unknown_source() {
    let input = two_attr_source();
    let result = Op::rename(input, attr("missing"), attr("x"));
    let Err(OpError::UnknownAttribute { attribute }) = result else {
        unreachable!();
    };
    assert_eq!(attribute.as_str(), "missing");
}

#[test]
fn op_rename_rejects_target_collision() {
    let input = two_attr_source();
    let result = Op::rename(input, attr("name"), attr("id"));
    let Err(OpError::AttributeAlreadyExists { attribute }) = result else {
        unreachable!();
    };
    assert_eq!(attribute.as_str(), "id");
}

// ─── Set operators and product. ──────────────────────────────

#[test]
fn op_union_accepts_matching_schemas() {
    let op = Op::union(two_attr_source(), two_attr_source()).unwrap();
    assert_eq!(op.schema().cardinality(), 2);
}

#[test]
fn op_union_rejects_mismatched_schemas() {
    let other = Op::source(Source::Table {
        schema: Schema::try_new(vec![Attribute {
            name: attr("only"),
            ty: Type::Int64,
        }])
        .unwrap(),
        name: TableName::try_new("solo".to_string()).unwrap(),
    });
    let result = Op::union(two_attr_source(), other);
    assert_eq!(result.unwrap_err(), OpError::SchemaMismatch);
}

#[test]
fn op_intersect_accepts_matching_schemas() {
    Op::intersect(two_attr_source(), two_attr_source()).unwrap();
}

#[test]
fn op_difference_accepts_matching_schemas() {
    Op::difference(two_attr_source(), two_attr_source()).unwrap();
}

#[test]
fn op_product_concatenates_disjoint_schemas() {
    let other = Op::source(Source::Table {
        schema: Schema::try_new(vec![Attribute {
            name: attr("city"),
            ty: Type::String,
        }])
        .unwrap(),
        name: TableName::try_new("places".to_string()).unwrap(),
    });
    let op = Op::product(two_attr_source(), other).unwrap();
    assert_eq!(op.schema().cardinality(), 3);
    let names: Vec<_> = op
        .schema()
        .attributes()
        .iter()
        .map(|a| a.name.as_str())
        .collect();
    assert_eq!(names, vec!["id", "name", "city"]);
}

#[test]
fn op_product_rejects_overlapping_schemas() {
    let result = Op::product(two_attr_source(), two_attr_source());
    let Err(OpError::DuplicateAcrossOperands { attribute }) = result else {
        unreachable!();
    };
    assert_eq!(attribute.as_str(), "id");
}

// ─── Join. ───────────────────────────────────────────────────

fn right_orders_source() -> Op {
    Op::source(Source::Table {
        schema: Schema::try_new(vec![
            Attribute {
                name: attr("order_id"),
                ty: Type::Int64,
            },
            Attribute {
                name: attr("user_id"),
                ty: Type::Int64,
            },
        ])
        .unwrap(),
        name: TableName::try_new("orders".to_string()).unwrap(),
    })
}

#[test]
fn op_join_natural_coalesces_shared_column() {
    // Left has (id, name); right has (id, total).
    let right = Op::source(Source::Table {
        schema: Schema::try_new(vec![
            Attribute {
                name: attr("id"),
                ty: Type::Int64,
            },
            Attribute {
                name: attr("total"),
                ty: Type::Int64,
            },
        ])
        .unwrap(),
        name: TableName::try_new("orders".to_string()).unwrap(),
    });
    let op = Op::join(
        two_attr_source(),
        right,
        axiom_core::op_enums::JoinKind::Inner,
        axiom_core::join::JoinOn::Natural,
    )
    .unwrap();
    let names: Vec<_> = op
        .schema()
        .attributes()
        .iter()
        .map(|a| a.name.as_str())
        .collect();
    assert_eq!(names, vec!["id", "name", "total"]);
}

#[test]
fn op_join_natural_rejects_type_mismatch_on_shared() {
    // Left has id: Int64; right's id is String.
    let right = Op::source(Source::Table {
        schema: Schema::try_new(vec![Attribute {
            name: attr("id"),
            ty: Type::String,
        }])
        .unwrap(),
        name: TableName::try_new("other".to_string()).unwrap(),
    });
    let result = Op::join(
        two_attr_source(),
        right,
        axiom_core::op_enums::JoinKind::Inner,
        axiom_core::join::JoinOn::Natural,
    );
    let Err(OpError::JoinTypeMismatch { attribute }) = result else {
        unreachable!();
    };
    assert_eq!(attribute.as_str(), "id");
}

#[test]
fn op_join_equi_concatenates_when_disjoint() {
    let pairs = axiom_core::join::EquiPairs::try_new(vec![axiom_core::join::EquiPair {
        left: attr("id"),
        right: attr("user_id"),
    }])
    .unwrap();
    let op = Op::join(
        two_attr_source(),
        right_orders_source(),
        axiom_core::op_enums::JoinKind::Inner,
        axiom_core::join::JoinOn::Equi(pairs),
    )
    .unwrap();
    assert_eq!(op.schema().cardinality(), 4);
}

#[test]
fn op_join_equi_rejects_unknown_attr() {
    let pairs = axiom_core::join::EquiPairs::try_new(vec![axiom_core::join::EquiPair {
        left: attr("missing"),
        right: attr("user_id"),
    }])
    .unwrap();
    let result = Op::join(
        two_attr_source(),
        right_orders_source(),
        axiom_core::op_enums::JoinKind::Inner,
        axiom_core::join::JoinOn::Equi(pairs),
    );
    let Err(OpError::UnknownAttribute { attribute }) = result else {
        unreachable!();
    };
    assert_eq!(attribute.as_str(), "missing");
}

#[test]
fn op_join_equi_rejects_type_mismatch() {
    // Left.name: String, right.user_id: Int64 — mismatched.
    let pairs = axiom_core::join::EquiPairs::try_new(vec![axiom_core::join::EquiPair {
        left: attr("name"),
        right: attr("user_id"),
    }])
    .unwrap();
    let result = Op::join(
        two_attr_source(),
        right_orders_source(),
        axiom_core::op_enums::JoinKind::Inner,
        axiom_core::join::JoinOn::Equi(pairs),
    );
    let Err(OpError::JoinTypeMismatch { attribute }) = result else {
        unreachable!();
    };
    assert_eq!(attribute.as_str(), "name");
}

fn disjoint_right_source() -> Op {
    Op::source(Source::Table {
        schema: Schema::try_new(vec![Attribute {
            name: attr("city"),
            ty: Type::String,
        }])
        .unwrap(),
        name: TableName::try_new("places".to_string()).unwrap(),
    })
}

#[test]
fn op_join_natural_inner_with_no_shared_attrs_normalises_to_product() {
    // Inner natural join over disjoint schemas IS a Cartesian
    // product — normalise to the canonical operator.
    let op = Op::join(
        two_attr_source(),
        disjoint_right_source(),
        axiom_core::op_enums::JoinKind::Inner,
        axiom_core::join::JoinOn::Natural,
    )
    .unwrap();
    assert!(matches!(op.kind(), OpKind::Product { .. }));
    assert_eq!(op.schema().cardinality(), 3);
}

#[test]
fn op_join_natural_outer_with_no_shared_attrs_preserves_natural_shape() {
    // LeftOuter / RightOuter / FullOuter natural-join over
    // disjoint schemas does NOT collapse to product: when one
    // side is empty, the outer kind still emits padded rows
    // which product would drop. The smart constructor must
    // preserve the Natural shape so the outerness survives.
    for kind in [
        axiom_core::op_enums::JoinKind::LeftOuter,
        axiom_core::op_enums::JoinKind::RightOuter,
        axiom_core::op_enums::JoinKind::FullOuter,
    ] {
        let op = Op::join(
            two_attr_source(),
            disjoint_right_source(),
            kind,
            axiom_core::join::JoinOn::Natural,
        )
        .unwrap();
        assert!(
            matches!(op.kind(), OpKind::Join { .. }),
            "outer-join natural over disjoint schemas must \
             not collapse to Product (kind: {kind:?})",
        );
        assert_eq!(op.schema().cardinality(), 3);
    }
}

#[test]
fn op_join_theta_admits_bool_predicate_over_combined_schema() {

    let left = two_attr_source();
    let right = right_orders_source();
    let combined = Schema::try_new(vec![
        Attribute {
            name: attr("id"),
            ty: Type::Int64,
        },
        Attribute {
            name: attr("name"),
            ty: Type::String,
        },
        Attribute {
            name: attr("order_id"),
            ty: Type::Int64,
        },
        Attribute {
            name: attr("user_id"),
            ty: Type::Int64,
        },
    ])
    .unwrap();
    let bool_expr = BoolExpression::try_new(
        &combined,
        Expression::BinOp(
            BinOp::Eq,
            Box::new(Expression::Attr(attr("id"))),
            Box::new(Expression::Attr(attr("user_id"))),
        ),
    )
    .unwrap();
    let op = Op::join(
        left,
        right,
        axiom_core::op_enums::JoinKind::Inner,
        axiom_core::join::JoinOn::Theta(Predicate::Expr(bool_expr)),
    )
    .unwrap();
    assert_eq!(op.schema().cardinality(), 4);
}

#[test]
fn op_join_theta_rejects_predicate_with_unknown_attr() {

    // Predicate refers to 'flag' which is in neither side's
    // schema. The BoolExpression built against an unrelated
    // schema reaches Op::join's re-verification on the
    // combined schema and fails.
    let other_schema = Schema::try_new(vec![Attribute {
        name: attr("flag"),
        ty: Type::Bool,
    }])
    .unwrap();
    let bool_expr =
        BoolExpression::try_new(&other_schema, Expression::Attr(attr("flag"))).unwrap();
    let result = Op::join(
        two_attr_source(),
        right_orders_source(),
        axiom_core::op_enums::JoinKind::Inner,
        axiom_core::join::JoinOn::Theta(Predicate::Expr(bool_expr)),
    );
    let Err(OpError::Infer(_)) = result else {
        unreachable!();
    };
}

#[test]
fn op_join_theta_rejects_aggregate_predicate() {

    // BoolExpression with an Agg sub-expression. The proof at
    // BoolExpression construction passed only because the
    // wrapping comparison still infers Bool against a schema
    // that has 'count' as Int64. Op::join's theta branch
    // rejects the aggregate in this non-summarize context.
    let bool_expr_schema = Schema::try_new(vec![Attribute {
        name: attr("count"),
        ty: Type::Int64,
    }])
    .unwrap();
    let expr = Expression::BinOp(
        BinOp::Gt,
        Box::new(Expression::Agg(Agg::Sum(attr("count")))),
        Box::new(Expression::Lit(Value::Int64(0))),
    );
    let bool_expr = BoolExpression::try_new(&bool_expr_schema, expr).unwrap();
    let result = Op::join(
        two_attr_source(),
        right_orders_source(),
        axiom_core::op_enums::JoinKind::Inner,
        axiom_core::join::JoinOn::Theta(Predicate::Expr(bool_expr)),
    );
    assert_eq!(result.unwrap_err(), OpError::AggregateOutsideSummarize);
}

// ─── Extend. ─────────────────────────────────────────────────

#[test]
fn op_extend_adds_inferred_attribute() {
    let expr = Expression::BinOp(
        BinOp::Add,
        Box::new(Expression::Attr(attr("id"))),
        Box::new(Expression::Lit(Value::Int64(1))),
    );
    let op = Op::extend(two_attr_source(), attr("plus_one"), expr).unwrap();
    assert_eq!(op.schema().cardinality(), 3);
    let added = op.schema().find(&attr("plus_one")).unwrap();
    assert_eq!(added.ty, axiom_core::ty::Type::Int64);
}

#[test]
fn op_extend_rejects_existing_name() {
    let expr = Expression::Lit(Value::Int64(0));
    let result = Op::extend(two_attr_source(), attr("id"), expr);
    let Err(OpError::AttributeAlreadyExists { attribute }) = result else {
        unreachable!();
    };
    assert_eq!(attribute.as_str(), "id");
}

#[test]
fn op_extend_propagates_infer_error() {
    // age does not exist on `two_attr_source()` (which has id /
    // name) → infer reports UnknownAttribute, Op::extend wraps
    // it in OpError::Infer.
    let expr = Expression::Attr(attr("age"));
    let result = Op::extend(two_attr_source(), attr("new"), expr);
    let Err(OpError::Infer(_)) = result else {
        unreachable!();
    };
}

#[test]
fn op_extend_rejects_aggregate_expression() {
    let expr = Expression::Agg(Agg::Sum(attr("id")));
    let result = Op::extend(two_attr_source(), attr("total"), expr);
    assert_eq!(result.unwrap_err(), OpError::AggregateOutsideSummarize);
}

#[test]
fn op_restrict_rejects_aggregate_predicate() {
    // Build a Bool-typed expression that contains an aggregate
    // against a schema where 'id' is Int64.
    let bool_expr = BoolExpression::try_new(
        two_attr_source().schema(),
        Expression::BinOp(
            BinOp::Gt,
            Box::new(Expression::Agg(Agg::Sum(attr("id")))),
            Box::new(Expression::Lit(Value::Int64(0))),
        ),
    )
    .unwrap();
    let result = Op::restrict(two_attr_source(), Predicate::Expr(bool_expr));
    assert_eq!(result.unwrap_err(), OpError::AggregateOutsideSummarize);
}

// ─── Summarize. ──────────────────────────────────────────────

#[test]
fn op_summarize_builds_schema_with_by_and_aggs() {
    let by = GroupingSet::try_new(vec![attr("name")]).unwrap();
    let aggs = NamedAggSet::try_new(vec![
        NamedAgg {
            name: attr("count"),
            agg: Agg::Count(None),
        },
        NamedAgg {
            name: attr("total"),
            agg: Agg::Sum(attr("id")),
        },
    ])
    .unwrap();
    let op = Op::summarize(two_attr_source(), by, aggs).unwrap();
    let names: Vec<_> = op
        .schema()
        .attributes()
        .iter()
        .map(|a| a.name.as_str())
        .collect();
    assert_eq!(names, vec!["name", "count", "total"]);
    let total = op.schema().find(&attr("total")).unwrap();
    assert_eq!(total.ty, axiom_core::ty::Type::Int64);
}

#[test]
fn op_summarize_admits_empty_by() {
    let by = GroupingSet::try_new(vec![]).unwrap();
    let aggs = NamedAggSet::try_new(vec![NamedAgg {
        name: attr("count"),
        agg: Agg::Count(None),
    }])
    .unwrap();
    let op = Op::summarize(two_attr_source(), by, aggs).unwrap();
    assert_eq!(op.schema().cardinality(), 1);
}

#[test]
fn op_summarize_rejects_unknown_by_attr() {
    let by = GroupingSet::try_new(vec![attr("missing")]).unwrap();
    let aggs = NamedAggSet::try_new(vec![NamedAgg {
        name: attr("count"),
        agg: Agg::Count(None),
    }])
    .unwrap();
    let result = Op::summarize(two_attr_source(), by, aggs);
    let Err(OpError::UnknownAttribute { attribute }) = result else {
        unreachable!();
    };
    assert_eq!(attribute.as_str(), "missing");
}

#[test]
fn op_summarize_rejects_agg_name_colliding_with_by() {
    let by = GroupingSet::try_new(vec![attr("name")]).unwrap();
    let aggs = NamedAggSet::try_new(vec![NamedAgg {
        name: attr("name"),
        agg: Agg::Count(None),
    }])
    .unwrap();
    let result = Op::summarize(two_attr_source(), by, aggs);
    let Err(OpError::AttributeAlreadyExists { attribute }) = result else {
        unreachable!();
    };
    assert_eq!(attribute.as_str(), "name");
}

#[test]
fn op_summarize_propagates_infer_error_for_string_sum() {
    let by = GroupingSet::try_new(vec![]).unwrap();
    let aggs = NamedAggSet::try_new(vec![NamedAgg {
        name: attr("total_names"),
        agg: Agg::Sum(attr("name")),
    }])
    .unwrap();
    let result = Op::summarize(two_attr_source(), by, aggs);
    let Err(OpError::Infer(_)) = result else {
        unreachable!();
    };
}

// ─── Nest. ───────────────────────────────────────────────────

fn three_attr_source() -> Op {
    Op::source(Source::Table {
        schema: Schema::try_new(vec![
            Attribute {
                name: attr("id"),
                ty: Type::Int64,
            },
            Attribute {
                name: attr("name"),
                ty: Type::String,
            },
            Attribute {
                name: attr("city"),
                ty: Type::String,
            },
        ])
        .unwrap(),
        name: TableName::try_new("users".to_string()).unwrap(),
    })
}

#[test]
fn op_nest_bundles_attributes_under_target_name() {
    let attrs = AttributeSet::try_new(vec![attr("name"), attr("city")]).unwrap();
    let op = Op::nest(three_attr_source(), attrs, attr("profile")).unwrap();
    let names: Vec<_> = op
        .schema()
        .attributes()
        .iter()
        .map(|a| a.name.as_str())
        .collect();
    assert_eq!(names, vec!["id", "profile"]);
    let profile = op.schema().find(&attr("profile")).unwrap();
    let axiom_core::ty::Type::Relation(sub) = &profile.ty else {
        unreachable!();
    };
    let sub_names: Vec<_> =
        sub.attributes().iter().map(|a| a.name.as_str()).collect();
    assert_eq!(sub_names, vec!["name", "city"]);
}

#[test]
fn op_nest_rejects_unknown_attr() {
    let attrs = AttributeSet::try_new(vec![attr("missing")]).unwrap();
    let result = Op::nest(three_attr_source(), attrs, attr("nested"));
    let Err(OpError::UnknownAttribute { attribute }) = result else {
        unreachable!();
    };
    assert_eq!(attribute.as_str(), "missing");
}

#[test]
fn op_nest_rejects_into_colliding_with_kept_attr() {
    let attrs = AttributeSet::try_new(vec![attr("name"), attr("city")]).unwrap();
    let result = Op::nest(three_attr_source(), attrs, attr("id"));
    let Err(OpError::AttributeAlreadyExists { attribute }) = result else {
        unreachable!();
    };
    assert_eq!(attribute.as_str(), "id");
}

#[test]
fn op_nest_allows_into_reusing_a_nested_name() {
    // When 'name' is itself being nested, reusing 'name' as
    // the target name does not collide (the old 'name' attr is
    // removed before the new nested attr is appended).
    let attrs = AttributeSet::try_new(vec![attr("name"), attr("city")]).unwrap();
    let op = Op::nest(three_attr_source(), attrs, attr("name")).unwrap();
    let names: Vec<_> = op
        .schema()
        .attributes()
        .iter()
        .map(|a| a.name.as_str())
        .collect();
    assert_eq!(names, vec!["id", "name"]);
}

// ─── Unnest. ─────────────────────────────────────────────────

fn nested_source() -> Op {
    // Build via Op::nest so the nested-relation shape is
    // identical to what a user would produce.
    let attrs = AttributeSet::try_new(vec![attr("name"), attr("city")]).unwrap();
    Op::nest(three_attr_source(), attrs, attr("profile")).unwrap()
}

#[test]
fn op_unnest_flattens_nested_relation() {
    let path =
        AnyPath::Lens(LensPath::try_new(vec![PathStep::Field(attr("profile"))]).unwrap());
    let op = Op::unnest(nested_source(), path).unwrap();
    let names: Vec<_> = op
        .schema()
        .attributes()
        .iter()
        .map(|a| a.name.as_str())
        .collect();
    assert_eq!(names, vec!["id", "name", "city"]);
}

#[test]
fn op_unnest_rejects_traversal_path() {
    let path = AnyPath::Traversal(
        TraversalPath::try_new(vec![PathStep::Field(attr("profile")), PathStep::Each]).unwrap(),
    );
    let result = Op::unnest(nested_source(), path);
    assert_eq!(result.unwrap_err(), OpError::UnsupportedPathShape);
}

#[test]
fn op_unnest_rejects_unknown_attr() {
    let path =
        AnyPath::Lens(LensPath::try_new(vec![PathStep::Field(attr("missing"))]).unwrap());
    let result = Op::unnest(nested_source(), path);
    let Err(OpError::UnknownAttribute { attribute }) = result else {
        unreachable!();
    };
    assert_eq!(attribute.as_str(), "missing");
}

#[test]
fn op_unnest_rejects_scalar_target() {
    // three_attr_source has `id` as Int64 — not a relation.
    let path = AnyPath::Lens(LensPath::try_new(vec![PathStep::Field(attr("id"))]).unwrap());
    let result = Op::unnest(three_attr_source(), path);
    let Err(OpError::NotARelation { attribute }) = result else {
        unreachable!();
    };
    assert_eq!(attribute.as_str(), "id");
}

// ─── Modify. ─────────────────────────────────────────────────

#[test]
fn op_modify_replaces_nested_subschema() {
    let input = nested_source();
    // Build a sub-Op whose output schema is just `city`. Use a
    // freshly-constructed source so the test doesn't care
    // about how the user gets to that schema.
    let sub = Op::source(Source::Table {
        schema: Schema::try_new(vec![Attribute {
            name: attr("city"),
            ty: Type::String,
        }])
        .unwrap(),
        name: TableName::try_new("inner".to_string()).unwrap(),
    });
    let path =
        AnyPath::Lens(LensPath::try_new(vec![PathStep::Field(attr("profile"))]).unwrap());
    let op = Op::modify(input, path, sub).unwrap();
    let profile = op.schema().find(&attr("profile")).unwrap();
    let axiom_core::ty::Type::Relation(sub_schema) = &profile.ty else {
        unreachable!();
    };
    let inner_names: Vec<_> = sub_schema
        .attributes()
        .iter()
        .map(|a| a.name.as_str())
        .collect();
    assert_eq!(inner_names, vec!["city"]);
}

#[test]
fn op_modify_rejects_unknown_attr() {
    let sub = Op::source(Source::Table {
        schema: Schema::try_new(vec![Attribute {
            name: attr("x"),
            ty: Type::Int64,
        }])
        .unwrap(),
        name: TableName::try_new("inner".to_string()).unwrap(),
    });
    let path =
        AnyPath::Lens(LensPath::try_new(vec![PathStep::Field(attr("missing"))]).unwrap());
    let result = Op::modify(nested_source(), path, sub);
    let Err(OpError::UnknownAttribute { attribute }) = result else {
        unreachable!();
    };
    assert_eq!(attribute.as_str(), "missing");
}

#[test]
fn op_modify_rejects_scalar_target() {
    let sub = Op::source(Source::Table {
        schema: Schema::try_new(vec![Attribute {
            name: attr("x"),
            ty: Type::Int64,
        }])
        .unwrap(),
        name: TableName::try_new("inner".to_string()).unwrap(),
    });
    let path = AnyPath::Lens(LensPath::try_new(vec![PathStep::Field(attr("id"))]).unwrap());
    let result = Op::modify(three_attr_source(), path, sub);
    let Err(OpError::NotARelation { attribute }) = result else {
        unreachable!();
    };
    assert_eq!(attribute.as_str(), "id");
}
