//! Constraints: predicates that must hold for every row of a relation,
//! scoped to one attribute or to the whole row.
use vstd::prelude::*;

use crate::canonical::{free_names, holds_exactly, sorted_names, CanonicalPredicate};
use crate::expression::same_expr;
use crate::identifier::{chars_lt, lemma_chars_lt_total, AttributeName};
use crate::limits::MAX_SCHEMA_ATTRIBUTES;
use crate::refine::{keys_of, CollectionError};

verus! {

/// A constraint over a single attribute: its predicate references no
/// attribute other than `attr` (it may be constant).
#[derive(Debug, PartialEq)]
pub struct AttributeConstraint {
    attr: AttributeName,
    predicate: CanonicalPredicate,
}

/// Construction error for `AttributeConstraint`.
#[derive(Debug, PartialEq, Eq)]
#[non_exhaustive]
pub enum AttributeConstraintError {
    /// The predicate mentions an attribute other than the scoped one.
    ForeignAttribute {
        /// The attribute this constraint is scoped to.
        scope: AttributeName,
        /// The least (in name order) foreign attribute referenced.
        foreign: AttributeName,
    },
}

impl Clone for AttributeConstraint {
    /// A copy scoped to the same attribute, with the same free names.
    fn clone(&self) -> (r: Self)
        ensures
            r.spec_attr() == self.spec_attr(),
            free_names(r.spec_predicate().spec_expr()) == free_names(
                self.spec_predicate().spec_expr(),
            ),
            same_expr(r.spec_predicate().spec_expr(), self.spec_predicate().spec_expr()),
    {
        proof {
            use_type_invariant(self);
        }
        AttributeConstraint { attr: self.attr.clone(), predicate: self.predicate.clone() }
    }
}

impl AttributeConstraint {
    #[verifier::type_invariant]
    spec fn inv(self) -> bool {
        forall|n: Seq<char>| #[trigger]
            free_names(self.predicate.spec_expr()).contains(n) ==> n == self.attr@
    }

    /// The scoped attribute.
    pub closed spec fn spec_attr(&self) -> AttributeName {
        self.attr
    }

    /// The predicate.
    pub closed spec fn spec_predicate(&self) -> CanonicalPredicate {
        self.predicate
    }

    /// Build a per-attribute constraint: `ForeignAttribute` iff the
    /// predicate references some other attribute, reporting the least
    /// such name.
    pub fn try_new(attr: AttributeName, predicate: CanonicalPredicate) -> (r: Result<
        Self,
        AttributeConstraintError,
    >)
        ensures
            match r {
                Ok(c) => (forall|n: Seq<char>| #[trigger]
                    free_names(predicate.spec_expr()).contains(n) ==> n == attr@)
                    && c.spec_attr() == attr && c.spec_predicate() == predicate,
                Err(AttributeConstraintError::ForeignAttribute { scope, foreign }) => {
                    let fs = free_names(predicate.spec_expr());
                    &&& scope@ == attr@
                    &&& fs.contains(foreign@)
                    &&& foreign@ != attr@
                    &&& forall|n: Seq<char>| #[trigger] fs.contains(n) && n != attr@ ==> !chars_lt(
                        n,
                        foreign@,
                    )
                },
            },
    {
        let free = predicate.free_attributes();
        let ghost v = keys_of(free@);
        let ghost fs = free_names(predicate.spec_expr());
        let n = free.len();
        let mut i: usize = 0;
        while i < n
            invariant
                n == free@.len(),
                v == keys_of(free@),
                sorted_names(v),
                holds_exactly(v, fs),
                fs == free_names(predicate.spec_expr()),
                i <= n,
                forall|k: int| 0 <= k < i ==> #[trigger] v[k] == attr@,
            decreases n - i,
        {
            if !free[i].equals(&attr) {
                let foreign = free[i].clone();
                proof {
                    assert(v.contains(v[i as int]));
                    assert forall|m: Seq<char>| #[trigger] fs.contains(m) && m != attr@ implies !chars_lt(
                        m,
                        foreign@,
                    ) by {
                        assert(v.contains(m));
                        let j = choose|j: int| 0 <= j < v.len() && v[j] == m;
                        if j > i {
                            assert(chars_lt(v[i as int], v[j]));
                            lemma_chars_lt_total(v[i as int], v[j]);
                        } else if j == i {
                            lemma_chars_lt_total(m, m);
                        }
                    }
                }
                return Err(AttributeConstraintError::ForeignAttribute { scope: attr, foreign });
            }
            i = i + 1;
        }
        proof {
            assert forall|m: Seq<char>| #[trigger] fs.contains(m) implies m == attr@ by {
                assert(v.contains(m));
            }
        }
        Ok(AttributeConstraint { attr, predicate })
    }

    /// Borrow the scoped attribute.
    pub fn attribute(&self) -> (r: &AttributeName)
        ensures
            *r == self.spec_attr(),
    {
        &self.attr
    }

    /// Borrow the predicate.
    pub fn predicate(&self) -> (r: &CanonicalPredicate)
        ensures
            *r == self.spec_predicate(),
            forall|n: Seq<char>| #[trigger]
                free_names(r.spec_expr()).contains(n) ==> n == self.spec_attr()@,
    {
        proof {
            use_type_invariant(self);
        }
        &self.predicate
    }
}

/// A constraint over an entire row: its predicate may reference any
/// attribute.
#[derive(Debug, PartialEq)]
pub struct RowConstraint {
    predicate: CanonicalPredicate,
}

impl Clone for RowConstraint {
    /// A constraint with the same predicate expression.
    fn clone(&self) -> (r: Self)
        ensures
            same_expr(r.spec_predicate().spec_expr(), self.spec_predicate().spec_expr()),
    {
        RowConstraint { predicate: self.predicate.clone() }
    }
}

impl RowConstraint {
    /// The predicate.
    pub closed spec fn spec_predicate(&self) -> CanonicalPredicate {
        self.predicate
    }

    /// Wrap a predicate as a row-level constraint.
    pub fn new(predicate: CanonicalPredicate) -> (r: Self)
        ensures
            r.spec_predicate() == predicate,
    {
        RowConstraint { predicate }
    }

    /// Borrow the predicate.
    pub fn predicate(&self) -> (r: &CanonicalPredicate)
        ensures
            *r == self.spec_predicate(),
    {
        &self.predicate
    }
}

/// Set of constraints attached to a relation: at most
/// `MAX_SCHEMA_ATTRIBUTES` per-attribute and at most
/// `MAX_SCHEMA_ATTRIBUTES` per-row constraints.
#[derive(Debug, PartialEq)]
pub struct ConstraintSet {
    per_attr: Vec<AttributeConstraint>,
    per_row: Vec<RowConstraint>,
}

/// Constructor error for `ConstraintSet`.
#[derive(Debug, Clone, Copy, PartialEq, Eq)]
#[non_exhaustive]
pub enum ConstraintSetError {
    /// The per-attribute list exceeded its bound.
    PerAttribute(CollectionError),
    /// The per-row list exceeded its bound.
    PerRow(CollectionError),
}

impl Clone for ConstraintSet {
    fn clone(&self) -> (r: Self)
        ensures
            r.spec_per_attr().len() == self.spec_per_attr().len(),
            r.spec_per_row().len() == self.spec_per_row().len(),
            forall|i: int|
                0 <= i < self.spec_per_attr().len() ==> (#[trigger] r.spec_per_attr()[i]).spec_attr()
                    == self.spec_per_attr()[i].spec_attr() && same_expr(
                    r.spec_per_attr()[i].spec_predicate().spec_expr(),
                    self.spec_per_attr()[i].spec_predicate().spec_expr(),
                ),
            forall|i: int|
                0 <= i < self.spec_per_row().len() ==> same_expr(
                    (#[trigger] r.spec_per_row()[i]).spec_predicate().spec_expr(),
                    self.spec_per_row()[i].spec_predicate().spec_expr(),
                ),
    {
        proof {
            use_type_invariant(self);
        }
        let mut per_attr: Vec<AttributeConstraint> = Vec::new();
        let mut i: usize = 0;
        while i < self.per_attr.len()
            invariant
                i <= self.per_attr@.len(),
                per_attr@.len() == i,
                forall|j: int|
                    0 <= j < i ==> (#[trigger] per_attr@[j]).spec_attr() == self.per_attr@[j].spec_attr()
                        && same_expr(
                        per_attr@[j].spec_predicate().spec_expr(),
                        self.per_attr@[j].spec_predicate().spec_expr(),
                    ),
            decreases self.per_attr@.len() - i,
        {
            per_attr.push(self.per_attr[i].clone());
            i = i + 1;
        }
        let mut per_row: Vec<RowConstraint> = Vec::new();
        let mut k: usize = 0;
        while k < self.per_row.len()
            invariant
                k <= self.per_row@.len(),
                per_row@.len() == k,
                forall|j: int|
                    0 <= j < k ==> same_expr(
                        (#[trigger] per_row@[j]).spec_predicate().spec_expr(),
                        self.per_row@[j].spec_predicate().spec_expr(),
                    ),
            decreases self.per_row@.len() - k,
        {
            per_row.push(self.per_row[k].clone());
            k = k + 1;
        }
        ConstraintSet { per_attr, per_row }
    }
}

impl ConstraintSet {
    #[verifier::type_invariant]
    spec fn inv(self) -> bool {
        &&& self.per_attr@.len() <= MAX_SCHEMA_ATTRIBUTES
        &&& self.per_row@.len() <= MAX_SCHEMA_ATTRIBUTES
    }

    /// The per-attribute constraints.
    pub closed spec fn spec_per_attr(&self) -> Seq<AttributeConstraint> {
        self.per_attr@
    }

    /// The per-row constraints.
    pub closed spec fn spec_per_row(&self) -> Seq<RowConstraint> {
        self.per_row@
    }

    /// Build a constraint set: `PerAttribute` if the per-attribute list
    /// is too long, else `PerRow` if the per-row list is.
    pub fn try_new(per_attr: Vec<AttributeConstraint>, per_row: Vec<RowConstraint>) -> (r: Result<
        Self,
        ConstraintSetError,
    >)
        ensures
            match r {
                Ok(c) => per_attr@.len() <= MAX_SCHEMA_ATTRIBUTES && per_row@.len()
                    <= MAX_SCHEMA_ATTRIBUTES && c.spec_per_attr() == per_attr@ && c.spec_per_row()
                    == per_row@,
                Err(ConstraintSetError::PerAttribute(e)) => per_attr@.len() > MAX_SCHEMA_ATTRIBUTES
                    && e == CollectionError::LenOutOfRange { actual: per_attr@.len() as usize },
                Err(ConstraintSetError::PerRow(e)) => per_attr@.len() <= MAX_SCHEMA_ATTRIBUTES
                    && per_row@.len() > MAX_SCHEMA_ATTRIBUTES && e == CollectionError::LenOutOfRange {
                    actual: per_row@.len() as usize,
                },
            },
    {
        if per_attr.len() > MAX_SCHEMA_ATTRIBUTES {
            return Err(
                ConstraintSetError::PerAttribute(
                    CollectionError::LenOutOfRange { actual: per_attr.len() },
                ),
            );
        }
        if per_row.len() > MAX_SCHEMA_ATTRIBUTES {
            return Err(
                ConstraintSetError::PerRow(CollectionError::LenOutOfRange { actual: per_row.len() }),
            );
        }
        Ok(ConstraintSet { per_attr, per_row })
    }

    /// The empty constraint set.
    pub fn empty() -> (r: Self)
        ensures
            r.spec_per_attr().len() == 0,
            r.spec_per_row().len() == 0,
    {
        ConstraintSet { per_attr: Vec::new(), per_row: Vec::new() }
    }

    /// Per-attribute constraints.
    pub fn per_attribute(&self) -> (r: &[AttributeConstraint])
        ensures
            r@ == self.spec_per_attr(),
    {
        self.per_attr.as_slice()
    }

    /// Per-row constraints.
    pub fn per_row(&self) -> (r: &[RowConstraint])
        ensures
            r@ == self.spec_per_row(),
    {
        self.per_row.as_slice()
    }

    /// `true` iff both constraint lists are empty.
    pub fn is_empty(&self) -> (r: bool)
        ensures
            r == (self.spec_per_attr().len() == 0 && self.spec_per_row().len() == 0),
    {
        self.per_attr.len() == 0 && self.per_row.len() == 0
    }
}

} // verus!
