//! Attribute types and the values that inhabit them.
//!
//! `Type` lives beside `Schema` (the two are mutually recursive) and is
//! re-exported here. `Value` carries refined payloads: a finite float,
//! bounded nested collections, and so on.
use vstd::prelude::*;

pub use crate::schema::{Type, TypeV};

use crate::identifier::Pattern;
use crate::limits::MAX_ARRAY_LEN;
use crate::refine::CollectionError;
use crate::row::Row;
use crate::source::Rows;

verus! {

/// `true` iff the IEEE-754 bit pattern is neither a NaN nor an
/// infinity (its exponent field is not all ones).
pub open spec fn finite_bits(bits: u64) -> bool {
    (bits >> 52u64) & 0x7ffu64 != 0x7ffu64
}

/// A finite 64-bit float, held as its IEEE-754 bit pattern. NaN and
/// the infinities are not admissible.
#[derive(Debug, Clone, Copy, PartialEq, Eq)]
pub struct Finite64 {
    bits: u64,
}

impl Finite64 {
    /// The wrapped bit pattern.
    pub closed spec fn spec_bits(&self) -> u64 {
        self.bits
    }

    /// Wrap a bit pattern; `None` iff it encodes a NaN or an infinity.
    pub fn from_bits(bits: u64) -> (r: Option<Finite64>)
        ensures
            match r {
                Some(f) => finite_bits(bits) && f.spec_bits() == bits,
                None => !finite_bits(bits),
            },
    {
        if (bits >> 52u64) & 0x7ffu64 != 0x7ffu64 {
            Some(Finite64 { bits })
        } else {
            None
        }
    }

    /// The IEEE-754 bit pattern.
    pub fn to_bits(&self) -> (r: u64)
        ensures
            r == self.spec_bits(),
            finite_bits(r),
    {
        proof {
            use_type_invariant(self);
        }
        self.bits
    }

    #[verifier::type_invariant]
    spec fn inv(self) -> bool {
        finite_bits(self.bits)
    }
}

/// An array value: 0..=`MAX_ARRAY_LEN` elements.
#[derive(Debug, PartialEq)]
pub struct ArrayValues {
    pub(crate) values: Vec<Value>,
}

/// The elements of an `ArrayValues` are its value vector's view.
pub(crate) proof fn lemma_array_view(a: ArrayValues)
    ensures
        a.spec_values() == a.values@,
{
}

impl ArrayValues {
    #[verifier::type_invariant]
    pub(crate) open spec fn inv(self) -> bool {
        self.values@.len() <= MAX_ARRAY_LEN
    }

    /// The elements.
    pub closed spec fn spec_values(&self) -> Seq<Value> {
        self.values@
    }

    /// Validate the element count and wrap; `LenOutOfRange` iff there
    /// are more than `MAX_ARRAY_LEN` elements.
    pub fn try_new(values: Vec<Value>) -> (r: Result<Self, CollectionError>)
        ensures
            match r {
                Ok(a) => values@.len() <= MAX_ARRAY_LEN && a.spec_values() == values@,
                Err(CollectionError::LenOutOfRange { actual }) => actual == values@.len()
                    && values@.len() > MAX_ARRAY_LEN,
                Err(CollectionError::DuplicateKey { .. }) => false,
            },
    {
        if values.len() > MAX_ARRAY_LEN {
            return Err(CollectionError::LenOutOfRange { actual: values.len() });
        }
        Ok(ArrayValues { values })
    }

    /// Borrow the elements.
    pub fn as_slice(&self) -> (r: &[Value])
        ensures
            r@ == self.spec_values(),
    {
        self.values.as_slice()
    }

    /// Number of elements.
    pub fn len(&self) -> (r: usize)
        ensures
            r == self.spec_values().len(),
    {
        self.values.len()
    }
}

/// A value matching some `Type`.
#[derive(Debug, PartialEq)]
#[non_exhaustive]
pub enum Value {
    /// `Type::Bool`.
    Bool(bool),
    /// `Type::Int32`.
    Int32(i32),
    /// `Type::Int64`.
    Int64(i64),
    /// `Type::Float64`; NaN and the infinities are not admissible.
    Float64(Finite64),
    /// `Type::Decimal`, in canonical string form.
    Decimal(Pattern),
    /// `Type::String`.
    String(String),
    /// `Type::Bytes`.
    Bytes(Vec<u8>),
    /// `Type::DateTime`, as an ISO-8601 string.
    DateTime(Pattern),
    /// `Type::Json`, as raw JSON text.
    Json(Pattern),
    /// Nested relation rows, bounded by `MAX_ROWS_IN_AST`.
    Relation(Rows),
    /// Array, bounded by `MAX_ARRAY_LEN`.
    Array(ArrayValues),
    /// `Type::Optional`.
    Optional(Option<Box<Value>>),
}

} // verus!
