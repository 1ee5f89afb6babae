//! `Row`: a positional value list of 1..=`MAX_SCHEMA_ATTRIBUTES`
//! values.
use vstd::prelude::*;

use crate::limits::MAX_SCHEMA_ATTRIBUTES;
use crate::refine::CollectionError;
use crate::ty::Value;

verus! {

/// Length-bounded row: 1..=`MAX_SCHEMA_ATTRIBUTES` values.
#[derive(Debug, PartialEq)]
pub struct Row {
    pub(crate) values: Vec<Value>,
}

/// Constructor error for `Row`.
pub type RowError = CollectionError;

impl View for Row {
    type V = Seq<Value>;

    closed spec fn view(&self) -> Seq<Value> {
        self.values@
    }
}

/// A row's view is its value vector's view.
pub(crate) proof fn lemma_row_view(row: Row)
    ensures
        row@ == row.values@,
{
}

impl Row {
    #[verifier::type_invariant]
    pub(crate) open spec fn inv(self) -> bool {
        1 <= self.values@.len() <= MAX_SCHEMA_ATTRIBUTES
    }

    /// Validate the value count and wrap; `LenOutOfRange` iff it lies
    /// outside `1..=MAX_SCHEMA_ATTRIBUTES`.
    pub fn try_new(values: Vec<Value>) -> (r: Result<Self, RowError>)
        ensures
            match r {
                Ok(row) => 1 <= values@.len() <= MAX_SCHEMA_ATTRIBUTES && row@ == values@,
                Err(CollectionError::LenOutOfRange { actual }) => actual == values@.len() && !(1
                    <= values@.len() <= MAX_SCHEMA_ATTRIBUTES),
                Err(CollectionError::DuplicateKey { .. }) => false,
            },
    {
        let n = values.len();
        if n < 1 || n > MAX_SCHEMA_ATTRIBUTES {
            return Err(CollectionError::LenOutOfRange { actual: n });
        }
        Ok(Row { values })
    }

    /// Borrow the inner value vector.
    pub fn as_inner(&self) -> (r: &Vec<Value>)
        ensures
            r@ == self@,
    {
        &self.values
    }

    /// Borrow the values.
    pub fn as_slice(&self) -> (r: &[Value])
        ensures
            r@ == self@,
    {
        self.values.as_slice()
    }

    /// Number of values in the row (never zero).
    pub fn len(&self) -> (r: usize)
        ensures
            r == self@.len(),
            1 <= r <= MAX_SCHEMA_ATTRIBUTES,
    {
        proof {
            use_type_invariant(self);
        }
        self.values.len()
    }

    /// `false`: a row is never empty.
    pub fn is_empty(&self) -> (r: bool)
        ensures
            r == (self@.len() == 0),
            !r,
    {
        proof {
            use_type_invariant(self);
        }
        false
    }

    /// Consume the wrapper and return the inner values.
    pub fn into_inner(self) -> (r: Vec<Value>)
        ensures
            r@ == self@,
    {
        self.values
    }
}

} // verus!
