use axiom_core::expression::{Expression, InListValues, InListValuesError};
use axiom_core::identifier::{AttributeName, Pattern};
use axiom_core::infer::{agg_ty, infer, InferError, ValueTypeError};
use axiom_core::op_enums::{Agg, BinOp, UnOp};
use axiom_core::row::Row;
use axiom_core::schema::{Attribute, Schema, Type};
use axiom_core::source::{MemorySource, MemorySourceError};
use axiom_core::ty::Value;

fn attr(name: &str) -> AttributeName {
    AttributeName::try_new(name.to_string()).unwrap()
}

fn schema_of(cols: &[(&str, Type)]) -> Schema {
    Schema::try_new(cols.iter().map(|(n, t)| Attribute { name: attr(n), ty: t.clone() }).collect())
        .unwrap()
}

fn cmp(op: BinOp, l: Expression, r: Expression) -> Expression {
    Expression::BinOp(op, Box::new(l), Box::new(r))
}

#[test]
fn count_of_missing_attribute_is_unknown() {
    let s = schema_of(&[("age", Type::Int32), ("name", Type::String)]);
    assert_eq!(
        agg_ty(&Agg::Count(Some(attr("missing"))), &s),
        Err(InferError::UnknownAttribute(attr("missing")))
    );
    assert_eq!(agg_ty(&Agg::Count(Some(attr("name"))), &s), Ok(Type::Int64));
    assert_eq!(agg_ty(&Agg::Count(None), &s), Ok(Type::Int64));
}

#[test]
fn json_compares_with_nothing() {
    let s = schema_of(&[("doc", Type::Json)]);
    let doc = || Expression::Attr(attr("doc"));
    for op in [BinOp::Eq, BinOp::Ne, BinOp::Lt, BinOp::Le, BinOp::Gt, BinOp::Ge] {
        assert_eq!(
            infer(&cmp(op, doc(), doc()), &s),
            Err(InferError::IncomparableTypes { left: Type::Json, right: Type::Json })
        );
    }
    let lit = Expression::Lit(Value::Json(Pattern::try_new("{}".to_string()).unwrap()));
    assert!(infer(&cmp(BinOp::Eq, lit, doc()), &s).is_err());
}

#[test]
fn bool_admits_equality_only() {
    let s = schema_of(&[("flag", Type::Bool)]);
    let flag = || Expression::Attr(attr("flag"));
    assert_eq!(infer(&cmp(BinOp::Eq, flag(), flag()), &s), Ok(Type::Bool));
    assert_eq!(infer(&cmp(BinOp::Ne, flag(), flag()), &s), Ok(Type::Bool));
    assert_eq!(
        infer(&cmp(BinOp::Gt, flag(), flag()), &s),
        Err(InferError::IncomparableTypes { left: Type::Bool, right: Type::Bool })
    );
}

#[test]
fn ordered_classes_compare_within_themselves() {
    let s = schema_of(&[
        ("i", Type::Int64),
        ("d", Type::Decimal),
        ("s", Type::String),
        ("b", Type::Bytes),
        ("t", Type::DateTime),
        ("r", Type::Relation(Box::new(schema_of(&[("x", Type::Int32)])))),
    ]);
    let a = |n: &str| Expression::Attr(attr(n));
    for n in ["i", "d", "s", "b", "t"] {
        assert_eq!(infer(&cmp(BinOp::Le, a(n), a(n)), &s), Ok(Type::Bool));
    }
    assert_eq!(
        infer(&cmp(BinOp::Lt, a("b"), a("s")), &s),
        Err(InferError::BinOpTypeMismatch { left: Type::Bytes, right: Type::String })
    );
    assert!(matches!(
        infer(&cmp(BinOp::Eq, a("r"), a("r")), &s),
        Err(InferError::IncomparableTypes { .. })
    ));
}

#[test]
fn memory_source_accepts_matching_rows_and_reports_the_first_bad_one() {
    let s = schema_of(&[("id", Type::Int64)]);
    let ok = MemorySource::try_new(s.clone(), vec![Row::try_new(vec![Value::Int64(1)]).unwrap()]).unwrap();
    assert_eq!(ok.schema().cardinality(), 1);
    assert_eq!(ok.rows().len(), 1);
    assert_eq!(
        MemorySource::try_new(
            s.clone(),
            vec![Row::try_new(vec![Value::Int64(1), Value::Int64(2)]).unwrap()]
        ),
        Err(MemorySourceError::RowMismatch {
            row_index: 0,
            source: ValueTypeError::RowWidth { expected: 1, actual: 2 },
        })
    );
    assert!(matches!(
        MemorySource::try_new(s, vec![Row::try_new(vec![Value::Bool(true)]).unwrap()]),
        Err(MemorySourceError::RowMismatch {
            row_index: 0,
            source: ValueTypeError::RelationField { position: 0, .. },
        })
    ));
}

#[test]
fn arithmetic_concat_and_unary_typing() {
    let s = schema_of(&[("n", Type::Int32), ("s", Type::String), ("f", Type::Bool)]);
    let a = |n: &str| Expression::Attr(attr(n));
    assert_eq!(infer(&cmp(BinOp::Mul, a("n"), a("n")), &s), Ok(Type::Int32));
    assert_eq!(
        infer(&cmp(BinOp::Add, a("s"), a("s")), &s),
        Err(InferError::OperatorNotApplicable { got: Type::String })
    );
    assert_eq!(infer(&cmp(BinOp::Concat, a("s"), a("s")), &s), Ok(Type::String));
    assert_eq!(
        infer(&cmp(BinOp::Concat, a("n"), a("n")), &s),
        Err(InferError::OperatorNotApplicable { got: Type::Int32 })
    );
    assert_eq!(
        infer(&cmp(BinOp::And, a("n"), a("f")), &s),
        Err(InferError::TypeMismatch { expected: Type::Bool, got: Type::Int32 })
    );
    assert_eq!(infer(&Expression::UnOp(UnOp::Neg, Box::new(a("n"))), &s), Ok(Type::Int32));
    assert_eq!(
        infer(&Expression::UnOp(UnOp::Not, Box::new(a("n"))), &s),
        Err(InferError::TypeMismatch { expected: Type::Bool, got: Type::Int32 })
    );
}

#[test]
fn in_list_requires_a_bounded_non_empty_list() {
    assert_eq!(InListValues::try_new(vec![]), Err(InListValuesError::ValueCount { actual: 0 }));
    let s = schema_of(&[("n", Type::Int32)]);
    let list = InListValues::try_new(vec![Value::Int32(1)]).unwrap();
    let e = Expression::InList(Box::new(Expression::Attr(attr("n"))), list);
    assert_eq!(infer(&e, &s), Ok(Type::Bool));
    assert_eq!(e.clone(), e);
}
