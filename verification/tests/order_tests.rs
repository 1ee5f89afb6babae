use axiom_core::order::Direction;
use axiom_core::order::NullOrder;
use axiom_core::order::OrderKey;
use axiom_core::order::OrderKeys;
use axiom_core::order::OrderKeysError;
use axiom_core::identifier::AttributeName;
use axiom_core::limits::MAX_SCHEMA_ATTRIBUTES;

fn key(name: &str, dir: Direction) -> OrderKey {
    OrderKey {
        attr: AttributeName::try_new(name.to_string()).unwrap(),
        direction: dir,
        nulls: NullOrder::NullsLast,
    }
}

#[test]
fn single_key_admitted() {
    let keys = OrderKeys::try_new(vec![key("id", Direction::Ascending)]).unwrap();
    assert_eq!(keys.as_slice().len(), 1);
}

#[test]
fn empty_keys_rejected() {
    let result = OrderKeys::try_new(Vec::new());
    assert_eq!(result.unwrap_err(), OrderKeysError::KeyCount { actual: 0 },);
}

#[test]
fn overlength_keys_rejected() {
    let mut raw = Vec::with_capacity(MAX_SCHEMA_ATTRIBUTES + 1);
    for index in 0..=MAX_SCHEMA_ATTRIBUTES {
        let name = format!("c{index}");
        raw.push(key(&name, Direction::Ascending));
    }
    let result = OrderKeys::try_new(raw);
    assert!(matches!(
        result.unwrap_err(),
        OrderKeysError::KeyCount { .. },
    ));
}

#[test]
fn duplicate_attribute_rejected() {
    let result = OrderKeys::try_new(vec![
        key("id", Direction::Ascending),
        key("id", Direction::Descending),
    ]);
    assert!(matches!(
        result.unwrap_err(),
        OrderKeysError::DuplicateKey { .. },
    ));
}
