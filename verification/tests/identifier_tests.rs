use axiom_core::identifier::AttributeName;
use axiom_core::identifier::AttributeNameError;
use axiom_core::identifier::Pattern;
use axiom_core::identifier::PatternError;
use axiom_core::identifier::TableName;
use axiom_core::identifier::TableNameError;
use axiom_core::limits::MAX_ATTRIBUTE_NAME_LEN;
use axiom_core::limits::MAX_PATTERN_LEN;
use axiom_core::limits::MAX_TABLE_NAME_LEN;

// ─── AttributeName. ──────────────────────────────────────────

#[test]
fn attribute_name_accepts_identifier_body() {
    let n = AttributeName::try_new("user_id".to_string()).unwrap();
    assert_eq!(n.as_str(), "user_id");
}

#[test]
fn attribute_name_rejects_empty() {
    let result = AttributeName::try_new(String::new());
    assert_eq!(
        result.unwrap_err(),
        AttributeNameError::Length { actual: 0 },
    );
}

#[test]
fn attribute_name_rejects_overlength() {
    let raw = "a".repeat(MAX_ATTRIBUTE_NAME_LEN + 1);
    let result = AttributeName::try_new(raw);
    assert!(matches!(
        result.unwrap_err(),
        AttributeNameError::Length { .. },
    ));
}

#[test]
fn attribute_name_rejects_bad_character() {
    let result = AttributeName::try_new("has-dash".to_string());
    // EachChar<IdentChar> rejects on the dash at byte offset 3.
    assert_eq!(
        result.unwrap_err(),
        AttributeNameError::BodyChar { offset: 3 },
    );
}

#[test]
fn attribute_name_rejects_leading_digit() {
    let result = AttributeName::try_new("1abc".to_string());
    // FirstChar<IdentStart> rejects the leading digit; the rule
    // surfaces `StringError::BadFirstChar` (no offset — head
    // failure is a single position by construction).
    assert_eq!(
        result.unwrap_err(),
        AttributeNameError::FirstChar,
    );
}

#[test]
fn attribute_name_admits_leading_underscore() {
    let n = AttributeName::try_new("_internal".to_string()).unwrap();
    assert_eq!(n.as_str(), "_internal");
}

#[test]
fn attribute_name_accepts_max_length_inclusive() {
    let raw = "x".repeat(MAX_ATTRIBUTE_NAME_LEN);
    let n = AttributeName::try_new(raw).unwrap();
    assert_eq!(n.as_str().len(), MAX_ATTRIBUTE_NAME_LEN);
}

// ─── TableName. ──────────────────────────────────────────────

#[test]
fn table_name_accepts_non_empty() {
    let t = TableName::try_new("orders".to_string()).unwrap();
    assert_eq!(t.as_str(), "orders");
}

#[test]
fn table_name_rejects_empty() {
    let result = TableName::try_new(String::new());
    assert_eq!(
        result.unwrap_err(),
        TableNameError::Length { actual: 0 },
    );
}

#[test]
fn table_name_rejects_overlength() {
    let raw = "x".repeat(MAX_TABLE_NAME_LEN + 1);
    let result = TableName::try_new(raw);
    assert!(matches!(
        result.unwrap_err(),
        TableNameError::Length { .. },
    ));
}

// ─── Pattern. ────────────────────────────────────────────────

#[test]
fn pattern_accepts_non_empty() {
    let p = Pattern::try_new("user_%".to_string()).unwrap();
    assert_eq!(p.as_str(), "user_%");
}

#[test]
fn pattern_rejects_empty() {
    let result = Pattern::try_new(String::new());
    assert_eq!(
        result.unwrap_err(),
        PatternError::Length { actual: 0 },
    );
}

#[test]
fn pattern_rejects_overlength() {
    let raw = "x".repeat(MAX_PATTERN_LEN + 1);
    let result = Pattern::try_new(raw);
    assert!(matches!(
        result.unwrap_err(),
        PatternError::Length { .. },
    ));
}
