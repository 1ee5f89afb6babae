//! Closed-sum companion enums for the operator AST.
use vstd::prelude::*;

use crate::identifier::AttributeName;

verus! {

/// Aggregate function over a single named attribute. `Count(None)`
/// is `COUNT(*)`; `Count(Some(attr))` counts the non-null values of
/// `attr`.
#[derive(Debug, PartialEq, Eq)]
#[non_exhaustive]
pub enum Agg {
    /// `COUNT(*)` when `None`, `COUNT(attr)` when `Some`.
    Count(Option<AttributeName>),
    /// `SUM(attr)`.
    Sum(AttributeName),
    /// `MIN(attr)`.
    Min(AttributeName),
    /// `MAX(attr)`.
    Max(AttributeName),
    /// `AVG(attr)`.
    Avg(AttributeName),
}

/// Named aggregate: output attribute name plus aggregate function.
#[derive(Debug, PartialEq, Eq)]
pub struct NamedAgg {
    /// Output attribute name.
    pub name: AttributeName,
    /// Aggregate function.
    pub agg: Agg,
}

/// Binary operators in the expression algebra.
#[derive(Debug, Clone, Copy, Hash, PartialEq, Eq)]
#[non_exhaustive]
pub enum BinOp {
    /// `a + b`.
    Add,
    /// `a - b`.
    Sub,
    /// `a * b`.
    Mul,
    /// `a / b`.
    Div,
    /// `a = b`.
    Eq,
    /// `a != b`.
    Ne,
    /// `a < b`.
    Lt,
    /// `a <= b`.
    Le,
    /// `a > b`.
    Gt,
    /// `a >= b`.
    Ge,
    /// `a AND b`.
    And,
    /// `a OR b`.
    Or,
    /// `a || b` (string concatenation).
    Concat,
}

/// Unary operators in the expression algebra.
#[derive(Debug, Clone, Copy, Hash, PartialEq, Eq)]
#[non_exhaustive]
pub enum UnOp {
    /// `-a`.
    Neg,
    /// `NOT a`.
    Not,
}

/// Join kind: an outerness/innerness tag.
#[derive(Debug, Clone, Copy, Hash, PartialEq, Eq)]
#[non_exhaustive]
pub enum JoinKind {
    /// Inner join.
    Inner,
    /// Left outer join.
    LeftOuter,
    /// Right outer join.
    RightOuter,
    /// Full outer join.
    FullOuter,
}

impl Agg {
    /// A copy with equal names.
    pub fn duplicate(&self) -> (r: Agg)
        ensures
            r == *self,
    {
        match self {
            Agg::Count(None) => Agg::Count(None),
            Agg::Count(Some(n)) => Agg::Count(Some(n.clone())),
            Agg::Sum(n) => Agg::Sum(n.clone()),
            Agg::Min(n) => Agg::Min(n.clone()),
            Agg::Max(n) => Agg::Max(n.clone()),
            Agg::Avg(n) => Agg::Avg(n.clone()),
        }
    }
}

impl Clone for Agg {
    fn clone(&self) -> (r: Self)
        ensures
            r == *self,
    {
        self.duplicate()
    }
}

impl Clone for NamedAgg {
    fn clone(&self) -> (r: Self)
        ensures
            r == *self,
    {
        NamedAgg { name: self.name.clone(), agg: self.agg.duplicate() }
    }
}

impl crate::refine::NameKeyed for NamedAgg {
    open spec fn key_view(&self) -> Seq<char> {
        self.name@
    }

    fn key(&self) -> (k: &AttributeName) {
        &self.name
    }
}

} // verus!
