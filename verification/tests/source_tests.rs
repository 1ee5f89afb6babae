use axiom_core::refine::CollectionError;
use axiom_core::source::MemorySource;
use axiom_core::source::MemorySourceError;
use axiom_core::source::Rows;
use axiom_core::source::Source;
use axiom_core::identifier::AttributeName;
use axiom_core::identifier::TableName;
use axiom_core::infer::ValueTypeError;
use axiom_core::limits::MAX_ROWS_IN_AST;
use axiom_core::row::Row;
use axiom_core::schema::Attribute;
use axiom_core::schema::Schema;
use axiom_core::ty::Type;
use axiom_core::ty::Value;
use axiom_core::ty::ArrayValues;

fn schema() -> Schema {
    Schema::try_new(vec![Attribute {
        name: AttributeName::try_new("id".to_string()).unwrap(),
        ty: Type::Int64,
    }])
    .unwrap()
}

#[test]
fn empty_rows_admissible() {
    let rows = Rows::try_new(Vec::new()).unwrap();
    assert!(rows.is_empty());
}

#[test]
fn single_row_admissible() {
    let row = Row::try_new(vec![Value::Int64(1)]).unwrap();
    let rows = Rows::try_new(vec![row]).unwrap();
    assert_eq!(rows.len(), 1);
}

#[test]
fn overlength_rows_rejected() {
    let row = Row::try_new(vec![Value::Int64(1)]).unwrap();
    let too_many: Vec<Row> = (0..=MAX_ROWS_IN_AST).map(|_| row.clone()).collect();
    let result = Rows::try_new(too_many);
    assert!(matches!(
        result.unwrap_err(),
        CollectionError::LenOutOfRange { .. },
    ));
}

#[test]
fn memory_source_admits_matching_rows() {
    let row = Row::try_new(vec![Value::Int64(1)]).unwrap();
    let src = Source::try_memory(schema(), vec![row]).unwrap();
    let Source::Memory(memory) = &src else {
        unreachable!();
    };
    assert_eq!(memory.rows().len(), 1);
}

#[test]
fn memory_source_rejects_row_with_wrong_width() {
    // schema() has one Int64 attr. A two-value row mismatches.
    let bad_row = Row::try_new(vec![Value::Int64(1), Value::Int64(2)]).unwrap();
    let result = Source::try_memory(schema(), vec![bad_row]);
    let Err(MemorySourceError::RowMismatch {
        row_index: 0,
        source,
    }) = result
    else {
        unreachable!();
    };
    assert!(matches!(
        source,
        ValueTypeError::RowWidth {
            expected: 1,
            actual: 2
        },
    ));
}

#[test]
fn memory_source_rejects_row_with_wrong_value_type() {
    // schema() has one Int64 attr; we hand in a Bool.
    let bad_row = Row::try_new(vec![Value::Bool(true)]).unwrap();
    let result = Source::try_memory(schema(), vec![bad_row]);
    let Err(MemorySourceError::RowMismatch {
        row_index: 0,
        source: ValueTypeError::RelationField { position: 0, .. },
    }) = result
    else {
        unreachable!();
    };
}

#[test]
fn memory_source_construct_via_typed_constructor() {
    // Round-trip via MemorySource::try_new directly.
    let row = Row::try_new(vec![Value::Int64(1)]).unwrap();
    let memory = MemorySource::try_new(schema(), vec![row]).unwrap();
    assert_eq!(memory.schema().cardinality(), 1);
    assert_eq!(memory.rows().len(), 1);
}

#[test]
fn memory_source_rejects_nested_array_element_type_mismatch() {
    // Schema declares position 0 is Array<Int32>; supply a row
    // whose array element is a String. The walk should descend
    // into the array and report a RelationField -> ArrayElement
    // -> Mismatch path.
    let nested_schema = Schema::try_new(vec![Attribute {
        name: AttributeName::try_new("tags".to_string()).unwrap(),
        ty: Type::Array(Box::new(Type::Int32)),
    }])
    .unwrap();
    let bad_value =
        Value::Array(ArrayValues::try_new(vec![Value::String("oops".to_string())]).unwrap());
    let bad_row = Row::try_new(vec![bad_value]).unwrap();
    let result = Source::try_memory(nested_schema, vec![bad_row]);
    let Err(MemorySourceError::RowMismatch {
        row_index: 0,
        source:
            ValueTypeError::RelationField {
                position: 0,
                source: nested,
            },
    }) = result
    else {
        unreachable!();
    };
    let ValueTypeError::ArrayElement {
        index: 0,
        source: leaf,
    } = *nested
    else {
        unreachable!();
    };
    assert!(matches!(*leaf, ValueTypeError::Mismatch));
}

#[test]
fn table_source_carries_schema_and_name() {
    let src = Source::Table {
        schema: schema(),
        name: TableName::try_new("orders".to_string()).unwrap(),
    };
    let Source::Table { name, .. } = src else {
        unreachable!();
    };
    assert_eq!(name.as_str(), "orders");
}
