//! Numeric domain types: `Offset`, `LimitCount`, `BoundedIndex`.
use vstd::prelude::*;

use crate::limits::{MAX_LIMIT_COUNT, MAX_OFFSET, MAX_PATH_INDEX};
use crate::refine::NumericError;

verus! {

/// `OFFSET` value in a `Limit` operator: `0..=MAX_OFFSET`.
#[derive(Debug, Clone, Copy, Hash, PartialEq, Eq, PartialOrd, Ord)]
pub struct Offset {
    value: u64,
}

/// Constructor error for `Offset`.
pub type OffsetError = NumericError;

impl Offset {
    /// Construct an `Offset` from a raw `u64`; `OutOfRange` iff
    /// `raw > MAX_OFFSET`.
    pub fn try_new(raw: u64) -> (r: Result<Self, OffsetError>)
        ensures
            match r {
                Ok(o) => raw <= MAX_OFFSET && o.spec_get() == raw,
                Err(NumericError::OutOfRange { value }) => raw > MAX_OFFSET && value == raw,
            },
    {
        if raw > MAX_OFFSET {
            Err(NumericError::OutOfRange { value: raw as i128 })
        } else {
            Ok(Offset { value: raw })
        }
    }

    /// The wrapped value.
    pub closed spec fn spec_get(&self) -> u64 {
        self.value
    }

    /// Borrow the inner `u64`.
    #[verifier::when_used_as_spec(spec_get)]
    pub fn get(&self) -> (r: u64)
        ensures
            r == self.spec_get(),
            r <= MAX_OFFSET,
    {
        proof {
            use_type_invariant(self);
        }
        self.value
    }

    #[verifier::type_invariant]
    spec fn inv(self) -> bool {
        self.value <= MAX_OFFSET
    }
}

/// `LIMIT n` count in the `Limit` operator. `Bounded(0)` is
/// admissible and denotes `LIMIT 0`.
#[derive(Debug, Clone, Copy, Hash, PartialEq, Eq, PartialOrd, Ord)]
pub enum LimitCount {
    /// No limit (the entire input passes through).
    Unbounded,
    /// At most this many tuples.
    Bounded(BoundedCount),
}

/// A count in `0..=MAX_LIMIT_COUNT`.
#[derive(Debug, Clone, Copy, Hash, PartialEq, Eq, PartialOrd, Ord)]
pub struct BoundedCount {
    value: u64,
}

impl BoundedCount {
    /// The wrapped value.
    pub closed spec fn spec_get(&self) -> u64 {
        self.value
    }

    /// Borrow the inner count.
    #[verifier::when_used_as_spec(spec_get)]
    pub fn get(&self) -> (r: u64)
        ensures
            r == self.spec_get(),
            r <= MAX_LIMIT_COUNT,
    {
        proof {
            use_type_invariant(self);
        }
        self.value
    }

    #[verifier::type_invariant]
    spec fn inv(self) -> bool {
        self.value <= MAX_LIMIT_COUNT
    }
}

/// Constructor error for `LimitCount::Bounded`.
pub type LimitCountError = NumericError;

impl LimitCount {
    /// The count as an optional number: `None` for `Unbounded`.
    pub open spec fn spec_get(&self) -> Option<u64> {
        match self {
            LimitCount::Unbounded => None,
            LimitCount::Bounded(c) => Some(c.spec_get()),
        }
    }

    /// Build a `Bounded` variant from a raw `u64`; `OutOfRange` iff
    /// `raw > MAX_LIMIT_COUNT`.
    pub fn bounded(raw: u64) -> (r: Result<Self, LimitCountError>)
        ensures
            match r {
                Ok(c) => raw <= MAX_LIMIT_COUNT && c.spec_get() == Some(raw),
                Err(NumericError::OutOfRange { value }) => raw > MAX_LIMIT_COUNT && value == raw,
            },
    {
        if raw > MAX_LIMIT_COUNT {
            Err(NumericError::OutOfRange { value: raw as i128 })
        } else {
            Ok(LimitCount::Bounded(BoundedCount { value: raw }))
        }
    }

    /// `LIMIT 0`.
    pub fn zero() -> (r: Self)
        ensures
            r.spec_get() == Some(0u64),
    {
        LimitCount::Bounded(BoundedCount { value: 0 })
    }

    /// The inner count, `None` for `Unbounded`.
    #[verifier::when_used_as_spec(spec_get)]
    pub fn get(&self) -> (r: Option<u64>)
        ensures
            r == self.spec_get(),
    {
        match self {
            LimitCount::Unbounded => None,
            LimitCount::Bounded(c) => Some(c.get()),
        }
    }
}

/// Positional index inside a path step: `0..=MAX_PATH_INDEX`.
#[derive(Debug, Clone, Copy, Hash, PartialEq, Eq, PartialOrd, Ord)]
pub struct BoundedIndex {
    value: usize,
}

/// Constructor error for `BoundedIndex`.
pub type BoundedIndexError = NumericError;

impl BoundedIndex {
    /// Validate `raw` and wrap; `OutOfRange` iff `raw > MAX_PATH_INDEX`.
    pub fn try_new(raw: usize) -> (r: Result<Self, BoundedIndexError>)
        ensures
            match r {
                Ok(i) => raw <= MAX_PATH_INDEX && i.spec_get() == raw,
                Err(NumericError::OutOfRange { value }) => raw > MAX_PATH_INDEX && value == raw,
            },
    {
        if raw > MAX_PATH_INDEX {
            Err(NumericError::OutOfRange { value: raw as i128 })
        } else {
            Ok(BoundedIndex { value: raw })
        }
    }

    /// The wrapped value.
    pub closed spec fn spec_get(&self) -> usize {
        self.value
    }

    /// Borrow the inner `usize`.
    #[verifier::when_used_as_spec(spec_get)]
    pub fn get(&self) -> (r: usize)
        ensures
            r == self.spec_get(),
            r <= MAX_PATH_INDEX,
    {
        proof {
            use_type_invariant(self);
        }
        self.value
    }

    #[verifier::type_invariant]
    spec fn inv(self) -> bool {
        self.value <= MAX_PATH_INDEX
    }
}

} // verus!
