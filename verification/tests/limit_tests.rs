use axiom_core::refine::NumericError;
use axiom_core::limit::BoundedIndex;
use axiom_core::limit::LimitCount;
use axiom_core::limit::Offset;
use axiom_core::limits::MAX_LIMIT_COUNT;
use axiom_core::limits::MAX_OFFSET;
use axiom_core::limits::MAX_PATH_INDEX;

#[test]
fn offset_accepts_zero() {
    let o = Offset::try_new(0).unwrap();
    assert_eq!(o.get(), 0);
}

#[test]
fn offset_accepts_max_inclusive() {
    let o = Offset::try_new(MAX_OFFSET).unwrap();
    assert_eq!(o.get(), MAX_OFFSET);
}

#[test]
fn offset_rejects_above_max() {
    // u64::MAX > MAX_OFFSET = u64::MAX / 2
    let result = Offset::try_new(u64::MAX);
    assert!(matches!(
        result.unwrap_err(),
        NumericError::OutOfRange { .. },
    ));
}

#[test]
fn limit_count_unbounded_has_no_inner_value() {
    let lc = LimitCount::Unbounded;
    assert!(lc.get().is_none());
}

#[test]
fn limit_count_bounded_zero_is_admissible() {
    let zero = LimitCount::zero();
    assert_eq!(zero.get(), Some(0));
    let zero_explicit = LimitCount::bounded(0).unwrap();
    assert_eq!(zero, zero_explicit);
}

#[test]
fn limit_count_bounded_round_trips_admissible() {
    let lc = LimitCount::bounded(42).unwrap();
    assert_eq!(lc.get(), Some(42));
}

#[test]
fn limit_count_bounded_rejects_above_max() {
    let result = LimitCount::bounded(MAX_LIMIT_COUNT + 1);
    assert!(matches!(
        result.unwrap_err(),
        NumericError::OutOfRange { .. },
    ));
}

#[test]
fn bounded_index_accepts_zero() {
    let i = BoundedIndex::try_new(0).unwrap();
    assert_eq!(i.get(), 0);
}

#[test]
fn bounded_index_accepts_max_inclusive() {
    let i = BoundedIndex::try_new(MAX_PATH_INDEX).unwrap();
    assert_eq!(i.get(), MAX_PATH_INDEX);
}

#[test]
fn bounded_index_rejects_above_max() {
    let result = BoundedIndex::try_new(MAX_PATH_INDEX + 1);
    assert!(matches!(
        result.unwrap_err(),
        NumericError::OutOfRange { .. },
    ));
}
