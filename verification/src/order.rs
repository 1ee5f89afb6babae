//! Order key types: `Direction`, `NullOrder`, `OrderKey`, `OrderKeys`.
use vstd::prelude::*;

use crate::identifier::AttributeName;
use crate::limits::MAX_SCHEMA_ATTRIBUTES;
use crate::refine::{first_duplicate, is_first_dup, keys_of, keys_unique, NameKeyed};

verus! {

/// Sort direction for an `OrderKey`.
#[derive(Debug, Clone, Copy, Hash, PartialEq, Eq, PartialOrd, Ord)]
#[non_exhaustive]
pub enum Direction {
    /// Ascending order.
    Ascending,
    /// Descending order.
    Descending,
}

/// Null placement for an `OrderKey`.
#[derive(Debug, Clone, Copy, Hash, PartialEq, Eq, PartialOrd, Ord)]
#[non_exhaustive]
pub enum NullOrder {
    /// Nulls sort before non-null values.
    NullsFirst,
    /// Nulls sort after non-null values.
    NullsLast,
}

/// A single ordering directive: attribute, direction, null placement.
#[derive(Debug, Hash, PartialEq, Eq, PartialOrd, Ord)]
pub struct OrderKey {
    /// Attribute being ordered.
    pub attr: AttributeName,
    /// Ascending or descending.
    pub direction: Direction,
    /// How nulls sort relative to non-null values.
    pub nulls: NullOrder,
}

impl Clone for OrderKey {
    fn clone(&self) -> (r: Self)
        ensures
            r == *self,
    {
        OrderKey { attr: self.attr.clone(), direction: self.direction, nulls: self.nulls }
    }
}

impl NameKeyed for OrderKey {
    open spec fn key_view(&self) -> Seq<char> {
        self.attr@
    }

    fn key(&self) -> (k: &AttributeName) {
        &self.attr
    }
}

/// Key extractor for order keys: uniqueness is on `attr` only
/// (`[id ASC, id DESC]` is still a redundant pair of orderings).
pub struct OrderKeyAttrKey {
    _private: (),
}

impl OrderKeyAttrKey {
    /// The key of an order key: its attribute name.
    pub fn key_of(value: &OrderKey) -> (r: AttributeName)
        ensures
            r@ == value.attr@,
    {
        value.attr.clone()
    }
}

/// Bounded, attribute-unique list of order keys:
/// 1..=`MAX_SCHEMA_ATTRIBUTES` keys, pairwise-distinct attributes.
#[derive(Debug, Hash, PartialEq, Eq, PartialOrd, Ord)]
pub struct OrderKeys {
    keys: Vec<OrderKey>,
}

/// Constructor error for `OrderKeys`.
#[derive(Debug, Clone, Copy, PartialEq, Eq)]
#[non_exhaustive]
pub enum OrderKeysError {
    /// Key count fell outside `1..=MAX_SCHEMA_ATTRIBUTES`.
    KeyCount {
        /// Observed key count.
        actual: usize,
    },
    /// Two keys referred to the same attribute; `index` is the second
    /// occurrence.
    DuplicateKey {
        /// Position of the duplicate (the second occurrence).
        index: usize,
    },
}

impl View for OrderKeys {
    type V = Seq<OrderKey>;

    closed spec fn view(&self) -> Seq<OrderKey> {
        self.keys@
    }
}

impl OrderKeys {
    #[verifier::type_invariant]
    spec fn inv(self) -> bool {
        &&& 1 <= self.keys@.len() <= MAX_SCHEMA_ATTRIBUTES
        &&& keys_unique(keys_of(self.keys@))
    }

    /// Validate `keys` and wrap: `KeyCount` if the length is outside
    /// `1..=MAX_SCHEMA_ATTRIBUTES`, else `DuplicateKey` at the first
    /// repeated attribute.
    pub fn try_new(keys: Vec<OrderKey>) -> (r: Result<Self, OrderKeysError>)
        ensures
            match r {
                Ok(k) => 1 <= keys@.len() <= MAX_SCHEMA_ATTRIBUTES && keys_unique(keys_of(keys@))
                    && k@ == keys@,
                Err(OrderKeysError::KeyCount { actual }) => actual == keys@.len() && !(1
                    <= keys@.len() <= MAX_SCHEMA_ATTRIBUTES),
                Err(OrderKeysError::DuplicateKey { index }) => 1 <= keys@.len()
                    <= MAX_SCHEMA_ATTRIBUTES && is_first_dup(keys_of(keys@), index as int),
            },
    {
        let n = keys.len();
        if n < 1 || n > MAX_SCHEMA_ATTRIBUTES {
            return Err(OrderKeysError::KeyCount { actual: n });
        }
        match first_duplicate(&keys) {
            Some(index) => Err(OrderKeysError::DuplicateKey { index }),
            None => Ok(OrderKeys { keys }),
        }
    }

    /// Borrow the key list.
    pub fn as_slice(&self) -> (r: &[OrderKey])
        ensures
            r@ == self@,
    {
        self.keys.as_slice()
    }

    /// Consume the wrapper and return the inner key list.
    pub fn into_inner(self) -> (r: Vec<OrderKey>)
        ensures
            r@ == self@,
    {
        self.keys
    }
}

impl Clone for OrderKeys {
    fn clone(&self) -> (r: Self)
        ensures
            r@ == self@,
    {
        proof {
            use_type_invariant(self);
        }
        OrderKeys { keys: crate::refine::clone_all(&self.keys) }
    }
}

} // verus!
