//! `JoinOn`: how a `Join` operator equates rows.
use vstd::prelude::*;

use crate::expression::{same_predicate, Predicate};
use crate::identifier::AttributeName;
use crate::limits::MAX_SCHEMA_ATTRIBUTES;
use crate::refine::{first_duplicate, is_first_dup, keys_of, keys_unique, NameKeyed};

verus! {

/// Pair of attributes to be equated by an equi-join.
#[derive(Debug, PartialEq, Eq, PartialOrd, Ord)]
pub struct EquiPair {
    /// Attribute from the left input.
    pub left: AttributeName,
    /// Attribute from the right input.
    pub right: AttributeName,
}

impl Clone for EquiPair {
    fn clone(&self) -> (r: Self)
        ensures
            r == *self,
    {
        EquiPair { left: self.left.clone(), right: self.right.clone() }
    }
}

impl NameKeyed for EquiPair {
    open spec fn key_view(&self) -> Seq<char> {
        self.left@
    }

    fn key(&self) -> (k: &AttributeName) {
        &self.left
    }
}

/// Key extractor for equi-pairs: uniqueness is on the left attribute.
pub struct EquiPairLeftKey {
    _private: (),
}

impl EquiPairLeftKey {
    /// The key of a pair: its left attribute name.
    pub fn key_of(pair: &EquiPair) -> (r: AttributeName)
        ensures
            r@ == pair.left@,
    {
        pair.left.clone()
    }
}

/// Bounded equi-join pair set: 1..=`MAX_SCHEMA_ATTRIBUTES` pairs with
/// pairwise-distinct left attributes (right-side repeats are admitted).
#[derive(Debug, PartialEq, Eq)]
pub struct EquiPairs {
    pairs: Vec<EquiPair>,
}

/// Constructor error for `EquiPairs`.
#[derive(Debug, Clone, Copy, PartialEq, Eq)]
#[non_exhaustive]
pub enum EquiPairsError {
    /// Pair count fell outside `1..=MAX_SCHEMA_ATTRIBUTES`.
    PairCount {
        /// Observed pair count.
        actual: usize,
    },
    /// Two pairs shared a left attribute; `index` is the second
    /// occurrence.
    DuplicateLeftAttribute {
        /// Position of the duplicate (the second occurrence).
        index: usize,
    },
}

impl View for EquiPairs {
    type V = Seq<EquiPair>;

    closed spec fn view(&self) -> Seq<EquiPair> {
        self.pairs@
    }
}

impl EquiPairs {
    #[verifier::type_invariant]
    spec fn inv(self) -> bool {
        &&& 1 <= self.pairs@.len() <= MAX_SCHEMA_ATTRIBUTES
        &&& keys_unique(keys_of(self.pairs@))
    }

    /// Validate `pairs` and wrap: `PairCount` if the length is outside
    /// `1..=MAX_SCHEMA_ATTRIBUTES`, else `DuplicateLeftAttribute` at the
    /// first repeated left attribute.
    pub fn try_new(pairs: Vec<EquiPair>) -> (r: Result<Self, EquiPairsError>)
        ensures
            match r {
                Ok(p) => 1 <= pairs@.len() <= MAX_SCHEMA_ATTRIBUTES && keys_unique(
                    keys_of(pairs@),
                ) && p@ == pairs@,
                Err(EquiPairsError::PairCount { actual }) => actual == pairs@.len() && !(1
                    <= pairs@.len() <= MAX_SCHEMA_ATTRIBUTES),
                Err(EquiPairsError::DuplicateLeftAttribute { index }) => 1 <= pairs@.len()
                    <= MAX_SCHEMA_ATTRIBUTES && is_first_dup(keys_of(pairs@), index as int),
            },
    {
        let n = pairs.len();
        if n < 1 || n > MAX_SCHEMA_ATTRIBUTES {
            return Err(EquiPairsError::PairCount { actual: n });
        }
        match first_duplicate(&pairs) {
            Some(index) => Err(EquiPairsError::DuplicateLeftAttribute { index }),
            None => Ok(EquiPairs { pairs }),
        }
    }

    /// Borrow the pair list.
    pub fn as_slice(&self) -> (r: &[EquiPair])
        ensures
            r@ == self@,
    {
        self.pairs.as_slice()
    }

    /// Consume the wrapper and return the inner pair list.
    pub fn into_inner(self) -> (r: Vec<EquiPair>)
        ensures
            r@ == self@,
    {
        self.pairs
    }
}

/// How a `Join` operator equates rows.
#[derive(Debug, PartialEq)]
#[non_exhaustive]
pub enum JoinOn {
    /// Natural join: equate the columns that share a name.
    Natural,
    /// Equi-join on a bounded set of (left, right) attribute pairs.
    Equi(EquiPairs),
    /// Theta-join on a boolean predicate.
    Theta(Predicate),
}

/// `a` and `b` equate rows the same way: both natural, the same
/// equi-pairs, or the same theta predicate (see `same_predicate`).
pub open spec fn same_join_on(a: JoinOn, b: JoinOn) -> bool {
    match (a, b) {
        (JoinOn::Natural, JoinOn::Natural) => true,
        (JoinOn::Equi(x), JoinOn::Equi(y)) => x@ == y@,
        (JoinOn::Theta(x), JoinOn::Theta(y)) => same_predicate(x, y),
        _ => false,
    }
}

impl Clone for JoinOn {
    fn clone(&self) -> (r: Self)
        ensures
            same_join_on(r, *self),
    {
        match self {
            JoinOn::Natural => JoinOn::Natural,
            JoinOn::Equi(p) => JoinOn::Equi(p.clone()),
            JoinOn::Theta(p) => JoinOn::Theta(p.clone()),
        }
    }
}

impl Clone for EquiPairs {
    fn clone(&self) -> (r: Self)
        ensures
            r@ == self@,
    {
        proof {
            use_type_invariant(self);
        }
        EquiPairs { pairs: crate::refine::clone_all(&self.pairs) }
    }
}

} // verus!
