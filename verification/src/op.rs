//! Operator AST.
//!
//! `Op` is an operator node together with its cached output schema.
//! The only construction path is the smart constructors on `Op`; each
//! one validates its operator's invariants against the input schemas
//! and states, over schema views, exactly which output schema it
//! computes or which error it reports.
use vstd::prelude::*;

use crate::expression::{
    contains_aggregate, has_aggregate, same_expr, same_predicate, BoolExpression, Expression,
    Predicate,
};
use crate::identifier::AttributeName;
use crate::infer::{agg_spec, agg_ty, bool_check, infer, infer_spec, InferError, InferErrorV};
use crate::join::{same_join_on, EquiPair, EquiPairs, JoinOn};
use crate::limit::{LimitCount, Offset};
use crate::limits::MAX_SCHEMA_ATTRIBUTES;
use crate::op_enums::{JoinKind, NamedAgg};
use crate::order::OrderKeys;
use crate::path::{same_path, AnyPath, LensPath, PathStep};
use crate::refine::{first_duplicate, is_first_dup, keys_of, keys_unique};
use crate::schema::{
    attr_named, has_attr, header_result, lemma_view_attrs_push, view_attrs, AttrV, Attribute, Schema, SchemaError, Type,
    TypeV,
};
use crate::source::{same_source, Source};

verus! {

/// Bounded, ordered, name-unique set of attributes used by `Project`
/// and `Nest`: 1..=`MAX_SCHEMA_ATTRIBUTES` distinct names.
#[derive(Debug, PartialEq, Eq)]
pub struct AttributeSet {
    names: Vec<AttributeName>,
}

/// Constructor error for `AttributeSet`.
#[derive(Debug, Clone, Copy, PartialEq, Eq)]
#[non_exhaustive]
pub enum AttributeSetError {
    /// Attribute count fell outside `1..=MAX_SCHEMA_ATTRIBUTES`.
    AttributeCount {
        /// Observed attribute count.
        actual: usize,
    },
    /// Two entries shared a name; `index` is the second occurrence.
    DuplicateAttribute {
        /// Position of the duplicate (the second occurrence).
        index: usize,
    },
}

impl View for AttributeSet {
    type V = Seq<Seq<char>>;

    closed spec fn view(&self) -> Seq<Seq<char>> {
        keys_of(self.names@)
    }
}

impl Clone for AttributeSet {
    fn clone(&self) -> (r: Self)
        ensures
            r@ == self@,
    {
        proof {
            use_type_invariant(self);
        }
        AttributeSet { names: crate::refine::clone_all(&self.names) }
    }
}

impl AttributeSet {
    #[verifier::type_invariant]
    spec fn inv(self) -> bool {
        &&& 1 <= self.names@.len() <= MAX_SCHEMA_ATTRIBUTES
        &&& keys_unique(keys_of(self.names@))
    }

    /// Validate `attrs` and wrap: `AttributeCount` if the length is
    /// outside `1..=MAX_SCHEMA_ATTRIBUTES`, else `DuplicateAttribute` at
    /// the first repeated name.
    pub fn try_new(attrs: Vec<AttributeName>) -> (r: Result<Self, AttributeSetError>)
        ensures
            match r {
                Ok(s) => 1 <= attrs@.len() <= MAX_SCHEMA_ATTRIBUTES && keys_unique(
                    keys_of(attrs@),
                ) && s@ == keys_of(attrs@),
                Err(AttributeSetError::AttributeCount { actual }) => actual == attrs@.len() && !(1
                    <= attrs@.len() <= MAX_SCHEMA_ATTRIBUTES),
                Err(AttributeSetError::DuplicateAttribute { index }) => 1 <= attrs@.len()
                    <= MAX_SCHEMA_ATTRIBUTES && is_first_dup(keys_of(attrs@), index as int),
            },
    {
        let n = attrs.len();
        if n < 1 || n > MAX_SCHEMA_ATTRIBUTES {
            return Err(AttributeSetError::AttributeCount { actual: n });
        }
        match first_duplicate(&attrs) {
            Some(index) => Err(AttributeSetError::DuplicateAttribute { index }),
            None => Ok(AttributeSet { names: attrs }),
        }
    }

    /// Borrow the name list.
    pub fn as_slice(&self) -> (r: &[AttributeName])
        ensures
            keys_of(r@) == self@,
            1 <= self@.len() <= MAX_SCHEMA_ATTRIBUTES,
            keys_unique(self@),
    {
        proof {
            use_type_invariant(self);
        }
        self.names.as_slice()
    }

    /// Consume the wrapper and return the inner name list.
    pub fn into_inner(self) -> (r: Vec<AttributeName>)
        ensures
            keys_of(r@) == self@,
    {
        self.names
    }
}

/// `Summarize.by` set: like `AttributeSet` but the empty set is
/// admissible (grand-total grouping): 0..=`MAX_SCHEMA_ATTRIBUTES`
/// distinct names.
#[derive(Debug, PartialEq, Eq)]
pub struct GroupingSet {
    names: Vec<AttributeName>,
}

/// Constructor error for `GroupingSet`.
#[derive(Debug, Clone, Copy, PartialEq, Eq)]
#[non_exhaustive]
pub enum GroupingSetError {
    /// Grouping-key count exceeded `MAX_SCHEMA_ATTRIBUTES`.
    GroupCount {
        /// Observed grouping-key count.
        actual: usize,
    },
    /// Two entries shared a name; `index` is the second occurrence.
    DuplicateAttribute {
        /// Position of the duplicate (the second occurrence).
        index: usize,
    },
}

impl View for GroupingSet {
    type V = Seq<Seq<char>>;

    closed spec fn view(&self) -> Seq<Seq<char>> {
        keys_of(self.names@)
    }
}

impl Clone for GroupingSet {
    fn clone(&self) -> (r: Self)
        ensures
            r@ == self@,
    {
        proof {
            use_type_invariant(self);
        }
        GroupingSet { names: crate::refine::clone_all(&self.names) }
    }
}

impl GroupingSet {
    #[verifier::type_invariant]
    spec fn inv(self) -> bool {
        &&& self.names@.len() <= MAX_SCHEMA_ATTRIBUTES
        &&& keys_unique(keys_of(self.names@))
    }

    /// Validate `keys` and wrap: `GroupCount` if there are more than
    /// `MAX_SCHEMA_ATTRIBUTES`, else `DuplicateAttribute` at the first
    /// repeated name.
    pub fn try_new(keys: Vec<AttributeName>) -> (r: Result<Self, GroupingSetError>)
        ensures
            match r {
                Ok(s) => keys@.len() <= MAX_SCHEMA_ATTRIBUTES && keys_unique(keys_of(keys@)) && s@
                    == keys_of(keys@),
                Err(GroupingSetError::GroupCount { actual }) => actual == keys@.len() && keys@.len()
                    > MAX_SCHEMA_ATTRIBUTES,
                Err(GroupingSetError::DuplicateAttribute { index }) => keys@.len()
                    <= MAX_SCHEMA_ATTRIBUTES && is_first_dup(keys_of(keys@), index as int),
            },
    {
        let n = keys.len();
        if n > MAX_SCHEMA_ATTRIBUTES {
            return Err(GroupingSetError::GroupCount { actual: n });
        }
        match first_duplicate(&keys) {
            Some(index) => Err(GroupingSetError::DuplicateAttribute { index }),
            None => Ok(GroupingSet { names: keys }),
        }
    }

    /// Borrow the name list.
    pub fn as_slice(&self) -> (r: &[AttributeName])
        ensures
            keys_of(r@) == self@,
            self@.len() <= MAX_SCHEMA_ATTRIBUTES,
            keys_unique(self@),
    {
        proof {
            use_type_invariant(self);
        }
        self.names.as_slice()
    }

    /// Consume the wrapper and return the inner name list.
    pub fn into_inner(self) -> (r: Vec<AttributeName>)
        ensures
            keys_of(r@) == self@,
    {
        self.names
    }
}

/// Key extractor for named aggregates: uniqueness is on the output
/// attribute name.
pub struct NamedAggKey {
    _private: (),
}

impl NamedAggKey {
    /// The key of a named aggregate: its output name.
    pub fn key_of(value: &NamedAgg) -> (r: AttributeName)
        ensures
            r@ == value.name@,
    {
        value.name.clone()
    }
}

/// Bounded, output-name-unique aggregate list used by `Summarize`:
/// 1..=`MAX_SCHEMA_ATTRIBUTES` aggregates with distinct output names.
#[derive(Debug, PartialEq, Eq)]
pub struct NamedAggSet {
    aggs: Vec<NamedAgg>,
}

/// Constructor error for `NamedAggSet`.
#[derive(Debug, Clone, Copy, PartialEq, Eq)]
#[non_exhaustive]
pub enum NamedAggSetError {
    /// Aggregate count fell outside `1..=MAX_SCHEMA_ATTRIBUTES`.
    AggregateCount {
        /// Observed aggregate count.
        actual: usize,
    },
    /// Two aggregates produced the same output name; `index` is the
    /// second occurrence.
    DuplicateOutputName {
        /// Position of the duplicate (the second occurrence).
        index: usize,
    },
}

impl View for NamedAggSet {
    type V = Seq<NamedAgg>;

    closed spec fn view(&self) -> Seq<NamedAgg> {
        self.aggs@
    }
}

impl Clone for NamedAggSet {
    fn clone(&self) -> (r: Self)
        ensures
            r@ == self@,
    {
        proof {
            use_type_invariant(self);
        }
        NamedAggSet { aggs: crate::refine::clone_all(&self.aggs) }
    }
}

impl NamedAggSet {
    #[verifier::type_invariant]
    spec fn inv(self) -> bool {
        &&& 1 <= self.aggs@.len() <= MAX_SCHEMA_ATTRIBUTES
        &&& keys_unique(keys_of(self.aggs@))
    }

    /// Validate `aggs` and wrap: `AggregateCount` if the length is
    /// outside `1..=MAX_SCHEMA_ATTRIBUTES`, else `DuplicateOutputName`
    /// at the first repeated output name.
    pub fn try_new(aggs: Vec<NamedAgg>) -> (r: Result<Self, NamedAggSetError>)
        ensures
            match r {
                Ok(s) => 1 <= aggs@.len() <= MAX_SCHEMA_ATTRIBUTES && keys_unique(keys_of(aggs@))
                    && s@ == aggs@,
                Err(NamedAggSetError::AggregateCount { actual }) => actual == aggs@.len() && !(1
                    <= aggs@.len() <= MAX_SCHEMA_ATTRIBUTES),
                Err(NamedAggSetError::DuplicateOutputName { index }) => 1 <= aggs@.len()
                    <= MAX_SCHEMA_ATTRIBUTES && is_first_dup(keys_of(aggs@), index as int),
            },
    {
        let n = aggs.len();
        if n < 1 || n > MAX_SCHEMA_ATTRIBUTES {
            return Err(NamedAggSetError::AggregateCount { actual: n });
        }
        match first_duplicate(&aggs) {
            Some(index) => Err(NamedAggSetError::DuplicateOutputName { index }),
            None => Ok(NamedAggSet { aggs }),
        }
    }

    /// Borrow the aggregate list.
    pub fn as_slice(&self) -> (r: &[NamedAgg])
        ensures
            r@ == self@,
            1 <= self@.len() <= MAX_SCHEMA_ATTRIBUTES,
            keys_unique(keys_of(self@)),
    {
        proof {
            use_type_invariant(self);
        }
        self.aggs.as_slice()
    }

    /// Consume the wrapper and return the inner aggregate list.
    pub fn into_inner(self) -> (r: Vec<NamedAgg>)
        ensures
            r@ == self@,
    {
        self.aggs
    }
}

/// Operator AST node with its cached output schema.
#[derive(Debug, PartialEq)]
pub struct Op {
    kind: OpKind,
    schema: Schema,
}

/// Errors of the schema-aware `Op` smart constructors.
#[derive(Debug, PartialEq, Eq)]
#[non_exhaustive]
pub enum OpError {
    /// A referenced attribute is not in the input schema.
    UnknownAttribute {
        /// The offending name.
        attribute: AttributeName,
    },
    /// A target name is already present in the input schema.
    AttributeAlreadyExists {
        /// The colliding name.
        attribute: AttributeName,
    },
    /// Set operators require the two operands to share a schema.
    SchemaMismatch,
    /// Joined attributes have different types on the two sides.
    JoinTypeMismatch {
        /// The attribute whose types disagree.
        attribute: AttributeName,
    },
    /// An expression failed type inference.
    Infer(InferError),
    /// An aggregate appeared outside `Summarize`.
    AggregateOutsideSummarize,
    /// A path reached an attribute whose type is not a nested relation.
    NotARelation {
        /// The offending attribute name.
        attribute: AttributeName,
    },
    /// The path is not a single-field lens.
    UnsupportedPathShape,
    /// An attribute name is present in both operands of a product.
    DuplicateAcrossOperands {
        /// The first shared name (in the right operand's order).
        attribute: AttributeName,
    },
    /// The computed output header violated the schema rule.
    Schema(SchemaError),
}

/// The view of an `OpError`.
pub enum OpErrorV {
    UnknownAttribute(Seq<char>),
    AttributeAlreadyExists(Seq<char>),
    SchemaMismatch,
    JoinTypeMismatch(Seq<char>),
    Infer(InferErrorV),
    AggregateOutsideSummarize,
    NotARelation(Seq<char>),
    UnsupportedPathShape,
    DuplicateAcrossOperands(Seq<char>),
    Schema(SchemaError),
}

impl View for OpError {
    type V = OpErrorV;

    open spec fn view(&self) -> OpErrorV {
        match self {
            OpError::UnknownAttribute { attribute } => OpErrorV::UnknownAttribute(attribute@),
            OpError::AttributeAlreadyExists { attribute } => OpErrorV::AttributeAlreadyExists(
                attribute@,
            ),
            OpError::SchemaMismatch => OpErrorV::SchemaMismatch,
            OpError::JoinTypeMismatch { attribute } => OpErrorV::JoinTypeMismatch(attribute@),
            OpError::Infer(e) => OpErrorV::Infer(e@),
            OpError::AggregateOutsideSummarize => OpErrorV::AggregateOutsideSummarize,
            OpError::NotARelation { attribute } => OpErrorV::NotARelation(attribute@),
            OpError::UnsupportedPathShape => OpErrorV::UnsupportedPathShape,
            OpError::DuplicateAcrossOperands { attribute } => OpErrorV::DuplicateAcrossOperands(
                attribute@,
            ),
            OpError::Schema(e) => OpErrorV::Schema(*e),
        }
    }
}

/// Discriminated sum of operator shapes.
#[allow(inconsistent_fields)]
#[derive(Debug, PartialEq)]
#[non_exhaustive]
pub enum OpKind {
    Source(Source),
    Project { input: Box<Op>, attrs: AttributeSet },
    Restrict { input: Box<Op>, predicate: Predicate },
    Rename { input: Box<Op>, from: AttributeName, to: AttributeName },
    Extend { input: Box<Op>, name: AttributeName, expr: Expression },
    Join { left: Box<Op>, right: Box<Op>, kind: JoinKind, on: JoinOn },
    Product { left: Box<Op>, right: Box<Op> },
    Union { left: Box<Op>, right: Box<Op> },
    Intersect { left: Box<Op>, right: Box<Op> },
    Difference { left: Box<Op>, right: Box<Op> },
    Summarize { input: Box<Op>, by: GroupingSet, aggs: NamedAggSet },
    Order { input: Box<Op>, by: OrderKeys },
    Limit { input: Box<Op>, offset: Offset, count: LimitCount },
    Modify { input: Box<Op>, path: AnyPath, sub: Box<Op> },
    Unnest { input: Box<Op>, path: AnyPath },
    Nest { input: Box<Op>, attrs: AttributeSet, into: AttributeName },
}

/// `a` and `b` are the same operator tree: equal output-schema views
/// and the same shape (see `same_kind`).
pub open spec fn same_op(a: Op, b: Op) -> bool
    decreases a, 1int,
    via same_op_decreases
{
    a.spec_schema()@ == b.spec_schema()@ && same_kind(a.spec_kind(), b.spec_kind())
}

#[via_fn]
proof fn same_op_decreases(a: Op, b: Op) {
    assert(a.spec_kind() == a.kind);
}

/// `a` and `b` are the same operator shape: the same variant, the same
/// operands (see `same_op`), and arguments with equal views, or the same
/// predicate, expression, source, join condition or path.
pub open spec fn same_kind(a: OpKind, b: OpKind) -> bool
    decreases a, 0int,
{
    match (a, b) {
        (OpKind::Source(x), OpKind::Source(y)) => same_source(x, y),
        (OpKind::Project { input: i1, attrs: a1 }, OpKind::Project { input: i2, attrs: a2 }) =>
            same_op(*i1, *i2) && a1@ == a2@,
        (
            OpKind::Restrict { input: i1, predicate: p1 },
            OpKind::Restrict { input: i2, predicate: p2 },
        ) => same_op(*i1, *i2) && same_predicate(p1, p2),
        (
            OpKind::Rename { input: i1, from: f1, to: t1 },
            OpKind::Rename { input: i2, from: f2, to: t2 },
        ) => same_op(*i1, *i2) && f1 == f2 && t1 == t2,
        (
            OpKind::Extend { input: i1, name: n1, expr: e1 },
            OpKind::Extend { input: i2, name: n2, expr: e2 },
        ) => same_op(*i1, *i2) && n1 == n2 && same_expr(e1, e2),
        (
            OpKind::Join { left: l1, right: r1, kind: k1, on: o1 },
            OpKind::Join { left: l2, right: r2, kind: k2, on: o2 },
        ) => same_op(*l1, *l2) && same_op(*r1, *r2) && k1 == k2 && same_join_on(o1, o2),
        (OpKind::Product { left: l1, right: r1 }, OpKind::Product { left: l2, right: r2 }) =>
            same_op(*l1, *l2) && same_op(*r1, *r2),
        (OpKind::Union { left: l1, right: r1 }, OpKind::Union { left: l2, right: r2 }) => same_op(
            *l1,
            *l2,
        ) && same_op(*r1, *r2),
        (OpKind::Intersect { left: l1, right: r1 }, OpKind::Intersect { left: l2, right: r2 }) =>
            same_op(*l1, *l2) && same_op(*r1, *r2),
        (OpKind::Difference { left: l1, right: r1 }, OpKind::Difference { left: l2, right: r2 }) =>
            same_op(*l1, *l2) && same_op(*r1, *r2),
        (
            OpKind::Summarize { input: i1, by: b1, aggs: g1 },
            OpKind::Summarize { input: i2, by: b2, aggs: g2 },
        ) => same_op(*i1, *i2) && b1@ == b2@ && g1@ == g2@,
        (OpKind::Order { input: i1, by: b1 }, OpKind::Order { input: i2, by: b2 }) => same_op(
            *i1,
            *i2,
        ) && b1@ == b2@,
        (
            OpKind::Limit { input: i1, offset: o1, count: c1 },
            OpKind::Limit { input: i2, offset: o2, count: c2 },
        ) => same_op(*i1, *i2) && o1 == o2 && c1 == c2,
        (
            OpKind::Modify { input: i1, path: p1, sub: s1 },
            OpKind::Modify { input: i2, path: p2, sub: s2 },
        ) => same_op(*i1, *i2) && same_path(p1, p2) && same_op(*s1, *s2),
        (OpKind::Unnest { input: i1, path: p1 }, OpKind::Unnest { input: i2, path: p2 }) =>
            same_op(*i1, *i2) && same_path(p1, p2),
        (
            OpKind::Nest { input: i1, attrs: a1, into: n1 },
            OpKind::Nest { input: i2, attrs: a2, into: n2 },
        ) => same_op(*i1, *i2) && a1@ == a2@ && n1 == n2,
        _ => false,
    }
}

impl Clone for Op {
    /// The same operator tree.
    fn clone(&self) -> (r: Self)
        ensures
            r.spec_schema()@ == self.spec_schema()@,
            same_op(r, *self),
        decreases self,
    {
        Op { kind: self.kind.clone(), schema: self.schema.clone() }
    }
}

impl Clone for OpKind {
    /// The same operator shape.
    fn clone(&self) -> (r: Self)
        ensures
            same_kind(r, *self),
        decreases self,
    {
        match self {
            OpKind::Source(src) => OpKind::Source(src.clone()),
            OpKind::Project { input, attrs } => OpKind::Project {
                input: Box::new((&**input).clone()),
                attrs: attrs.clone(),
            },
            OpKind::Restrict { input, predicate } => OpKind::Restrict {
                input: Box::new((&**input).clone()),
                predicate: predicate.clone(),
            },
            OpKind::Rename { input, from, to } => OpKind::Rename {
                input: Box::new((&**input).clone()),
                from: from.clone(),
                to: to.clone(),
            },
            OpKind::Extend { input, name, expr } => OpKind::Extend {
                input: Box::new((&**input).clone()),
                name: name.clone(),
                expr: expr.clone(),
            },
            OpKind::Join { left, right, kind, on } => OpKind::Join {
                left: Box::new((&**left).clone()),
                right: Box::new((&**right).clone()),
                kind: *kind,
                on: on.clone(),
            },
            OpKind::Product { left, right } => OpKind::Product {
                left: Box::new((&**left).clone()),
                right: Box::new((&**right).clone()),
            },
            OpKind::Union { left, right } => OpKind::Union {
                left: Box::new((&**left).clone()),
                right: Box::new((&**right).clone()),
            },
            OpKind::Intersect { left, right } => OpKind::Intersect {
                left: Box::new((&**left).clone()),
                right: Box::new((&**right).clone()),
            },
            OpKind::Difference { left, right } => OpKind::Difference {
                left: Box::new((&**left).clone()),
                right: Box::new((&**right).clone()),
            },
            OpKind::Summarize { input, by, aggs } => OpKind::Summarize {
                input: Box::new((&**input).clone()),
                by: by.clone(),
                aggs: aggs.clone(),
            },
            OpKind::Order { input, by } => OpKind::Order {
                input: Box::new((&**input).clone()),
                by: by.clone(),
            },
            OpKind::Limit { input, offset, count } => OpKind::Limit {
                input: Box::new((&**input).clone()),
                offset: *offset,
                count: *count,
            },
            OpKind::Modify { input, path, sub } => OpKind::Modify {
                input: Box::new((&**input).clone()),
                path: path.clone(),
                sub: Box::new((&**sub).clone()),
            },
            OpKind::Unnest { input, path } => OpKind::Unnest {
                input: Box::new((&**input).clone()),
                path: path.clone(),
            },
            OpKind::Nest { input, attrs, into } => OpKind::Nest {
                input: Box::new((&**input).clone()),
                attrs: attrs.clone(),
                into: into.clone(),
            },
        }
    }
}

/// `r` is the outcome `expect` describes: the output schema's view on
/// success, the error's view on failure.
pub open spec fn op_result(r: Result<Op, OpError>, expect: Result<Seq<AttrV>, OpErrorV>) -> bool {
    match r {
        Ok(op) => expect == Ok::<Seq<AttrV>, OpErrorV>(op.spec_schema()@),
        Err(e) => expect == Err::<Seq<AttrV>, OpErrorV>(e@),
    }
}

/// Lift a header check into an operator result.
pub open spec fn header_op(s: Seq<AttrV>) -> Result<Seq<AttrV>, OpErrorV> {
    match header_result(s) {
        Err(e) => Err(OpErrorV::Schema(e)),
        Ok(h) => Ok(h),
    }
}

/// The first name of `r[i..]` that `l` also holds, if any.
pub open spec fn shared_from(l: Seq<AttrV>, r: Seq<AttrV>, i: int) -> Option<Seq<char>>
    decreases r.len() - i,
{
    if i < 0 || i >= r.len() {
        None
    } else if has_attr(l, r[i].name) {
        Some(r[i].name)
    } else {
        shared_from(l, r, i + 1)
    }
}

/// Concatenation of two name-disjoint headers: the first right-hand
/// name the left side also holds is reported, then the header rule is
/// applied to `l + r`.
pub open spec fn concat_result(l: Seq<AttrV>, r: Seq<AttrV>) -> Result<Seq<AttrV>, OpErrorV> {
    match shared_from(l, r, 0) {
        Some(n) => Err(OpErrorV::DuplicateAcrossOperands(n)),
        None => header_op(l + r),
    }
}

fn schema_error(e: SchemaError) -> (r: OpError)
    ensures
        r@ == OpErrorV::Schema(e),
{
    OpError::Schema(e)
}

fn build_schema(attrs: Vec<Attribute>) -> (r: Result<Schema, OpError>)
    ensures
        match r {
            Ok(s) => header_op(view_attrs(attrs@)) == Ok::<Seq<AttrV>, OpErrorV>(s@),
            Err(e) => header_op(view_attrs(attrs@)) == Err::<Seq<AttrV>, OpErrorV>(e@),
        },
{
    match Schema::try_new(attrs) {
        Ok(s) => Ok(s),
        Err(e) => Err(schema_error(e)),
    }
}

fn push_all(out: &mut Vec<Attribute>, from: &[Attribute])
    ensures
        view_attrs(final(out)@) == view_attrs(old(out)@) + view_attrs(from@),
{
    let ghost start = view_attrs(out@);
    let mut i: usize = 0;
    while i < from.len()
        invariant
            i <= from@.len(),
            view_attrs(out@) == start + view_attrs(from@).take(i as int),
        decreases from@.len() - i,
    {
        let ghost prev = out@;
        let d = from[i].duplicate();
        out.push(d);
        proof {
            lemma_view_attrs_push(prev, d);
            assert(view_attrs(from@).take(i + 1) =~= view_attrs(from@).take(i as int).push(
                from@[i as int]@,
            ));
            assert(view_attrs(out@) =~= start + view_attrs(from@).take(i + 1));
        }
        i = i + 1;
    }
    proof {
        assert(view_attrs(from@).take(from@.len() as int) =~= view_attrs(from@));
    }
}

fn concat_disjoint_schemas(left: &Schema, right: &Schema) -> (r: Result<Schema, OpError>)
    ensures
        match r {
            Ok(s) => concat_result(left@, right@) == Ok::<Seq<AttrV>, OpErrorV>(s@),
            Err(e) => concat_result(left@, right@) == Err::<Seq<AttrV>, OpErrorV>(e@),
        },
{
    let rattrs = right.attributes();
    let n = rattrs.len();
    let mut i: usize = 0;
    while i < n
        invariant
            n == rattrs@.len(),
            view_attrs(rattrs@) == right@,
            i <= n,
            shared_from(left@, right@, 0) == shared_from(left@, right@, i as int),
        decreases n - i,
    {
        let r = &rattrs[i];
        if left.contains(&r.name) {
            return Err(OpError::DuplicateAcrossOperands { attribute: r.name.clone() });
        }
        i = i + 1;
    }
    let mut combined: Vec<Attribute> = Vec::new();
    push_all(&mut combined, left.attributes());
    push_all(&mut combined, rattrs);
    proof {
        assert(view_attrs(combined@) =~= left@ + right@);
    }
    build_schema(combined)
}

/// The check a restriction (or theta-join) predicate undergoes
/// against `s`: an expression predicate must be aggregate-free and
/// Bool-typed against `s`; an opaque predicate passes.
pub open spec fn predicate_check(p: Predicate, s: Seq<AttrV>) -> Result<(), OpErrorV> {
    match p {
        Predicate::Expr(b) => if has_aggregate(b.spec_expr()) {
            Err(OpErrorV::AggregateOutsideSummarize)
        } else {
            match bool_check(b.spec_expr(), s) {
                Err(e) => Err(OpErrorV::Infer(e)),
                Ok(_) => Ok(()),
            }
        },
        Predicate::Opaque(_) => Ok(()),
    }
}

/// Picking the attributes named `names[i..]` out of `s`, appended to
/// `acc`: the first missing name is reported.
pub open spec fn pick_from(s: Seq<AttrV>, names: Seq<Seq<char>>, i: int, acc: Seq<AttrV>) -> Result<
    Seq<AttrV>,
    OpErrorV,
>
    decreases names.len() - i,
{
    if i < 0 || i >= names.len() {
        Ok(acc)
    } else if !has_attr(s, names[i]) {
        Err(OpErrorV::UnknownAttribute(names[i]))
    } else {
        pick_from(s, names, i + 1, acc.push(attr_named(s, names[i])))
    }
}

/// The outcome of projecting `s` onto `names`, in the order given.
pub open spec fn project_result(s: Seq<AttrV>, names: Seq<Seq<char>>) -> Result<Seq<AttrV>, OpErrorV> {
    match pick_from(s, names, 0, Seq::empty()) {
        Err(e) => Err(e),
        Ok(l) => header_op(l),
    }
}

/// `s` with the attribute named `from` renamed to `to`.
pub open spec fn rename_attrs(s: Seq<AttrV>, from: Seq<char>, to: Seq<char>) -> Seq<AttrV> {
    Seq::new(
        s.len(),
        |i: int|
            if s[i].name == from {
                AttrV { name: to, ty: s[i].ty }
            } else {
                s[i]
            },
    )
}

/// The outcome of renaming `from` to `to` in `s`.
pub open spec fn rename_result(s: Seq<AttrV>, from: Seq<char>, to: Seq<char>) -> Result<
    Seq<AttrV>,
    OpErrorV,
> {
    if !has_attr(s, from) {
        Err(OpErrorV::UnknownAttribute(from))
    } else if from != to && has_attr(s, to) {
        Err(OpErrorV::AttributeAlreadyExists(to))
    } else {
        header_op(rename_attrs(s, from, to))
    }
}

/// The outcome of extending `s` with attribute `name` computed by `e`.
pub open spec fn extend_result(s: Seq<AttrV>, name: Seq<char>, e: Expression) -> Result<
    Seq<AttrV>,
    OpErrorV,
> {
    if has_attr(s, name) {
        Err(OpErrorV::AttributeAlreadyExists(name))
    } else if has_aggregate(e) {
        Err(OpErrorV::AggregateOutsideSummarize)
    } else {
        match infer_spec(e, s) {
            Err(x) => Err(OpErrorV::Infer(x)),
            Ok(t) => header_op(s.push(AttrV { name, ty: t })),
        }
    }
}

/// The attribute a path names, when the path is a single-field lens
/// (the only path shape `Modify` and `Unnest` accept).
pub open spec fn lens_target(p: AnyPath) -> Option<Seq<char>> {
    match p {
        AnyPath::Lens(l) => if l@.len() == 1 {
            match l@[0] {
                PathStep::Field(n) => Some(n@),
                _ => None,
            }
        } else {
            None
        },
        AnyPath::Traversal(_) => None,
    }
}

/// `s` with the type of the attribute named `t` replaced by `ty`.
pub open spec fn replace_type(s: Seq<AttrV>, t: Seq<char>, ty: TypeV) -> Seq<AttrV> {
    Seq::new(
        s.len(),
        |i: int|
            if s[i].name == t {
                AttrV { name: s[i].name, ty }
            } else {
                s[i]
            },
    )
}

/// The outcome of replacing the nested relation at `p` in `s` by the
/// output of a sub-operator whose schema view is `sub`.
pub open spec fn modify_result(s: Seq<AttrV>, p: AnyPath, sub: Seq<AttrV>) -> Result<
    Seq<AttrV>,
    OpErrorV,
> {
    match lens_target(p) {
        None => Err(OpErrorV::UnsupportedPathShape),
        Some(t) => if !has_attr(s, t) {
            Err(OpErrorV::UnknownAttribute(t))
        } else if !(attr_named(s, t).ty is Relation) {
            Err(OpErrorV::NotARelation(t))
        } else {
            header_op(replace_type(s, t, TypeV::Relation(sub)))
        },
    }
}

/// `s` with the attribute named `t` replaced, in place, by the
/// attributes `sub`.
pub open spec fn splice(s: Seq<AttrV>, t: Seq<char>, sub: Seq<AttrV>) -> Seq<AttrV>
    decreases s.len(),
{
    if s.len() == 0 {
        Seq::empty()
    } else {
        splice(s.drop_last(), t, sub) + if s.last().name == t {
            sub
        } else {
            seq![s.last()]
        }
    }
}

/// The outcome of flattening the nested relation at `p` in `s`.
pub open spec fn unnest_result(s: Seq<AttrV>, p: AnyPath) -> Result<Seq<AttrV>, OpErrorV> {
    match lens_target(p) {
        None => Err(OpErrorV::UnsupportedPathShape),
        Some(t) => if !has_attr(s, t) {
            Err(OpErrorV::UnknownAttribute(t))
        } else {
            match attr_named(s, t).ty {
                TypeV::Relation(sub) => header_op(splice(s, t, sub)),
                _ => Err(OpErrorV::NotARelation(t)),
            }
        },
    }
}

/// The attributes of `s` whose names are not in `names`, in order.
pub open spec fn keep_not_in(s: Seq<AttrV>, names: Seq<Seq<char>>) -> Seq<AttrV>
    decreases s.len(),
{
    if s.len() == 0 {
        Seq::empty()
    } else if names.contains(s.last().name) {
        keep_not_in(s.drop_last(), names)
    } else {
        keep_not_in(s.drop_last(), names).push(s.last())
    }
}

/// The outcome of nesting the attributes `names` of `s` into a new
/// nested-relation attribute `into`, appended after the attributes
/// that stay.
pub open spec fn nest_result(s: Seq<AttrV>, names: Seq<Seq<char>>, into: Seq<char>) -> Result<
    Seq<AttrV>,
    OpErrorV,
> {
    match pick_from(s, names, 0, Seq::empty()) {
        Err(e) => Err(e),
        Ok(nested) => match header_op(nested) {
            Err(e) => Err(e),
            Ok(sub) => if has_attr(s, into) && !names.contains(into) {
                Err(OpErrorV::AttributeAlreadyExists(into))
            } else {
                header_op(keep_not_in(s, names).push(AttrV { name: into, ty: TypeV::Relation(sub) }))
            },
        },
    }
}

/// The aggregate attributes for `aggs[i..]`, appended to `acc`: the
/// first aggregate whose output name is a grouping name, or whose input
/// type is not admissible, is reported.
pub open spec fn aggs_from(
    s: Seq<AttrV>,
    by: Seq<Seq<char>>,
    aggs: Seq<NamedAgg>,
    i: int,
    acc: Seq<AttrV>,
) -> Result<Seq<AttrV>, OpErrorV>
    decreases aggs.len() - i,
{
    if i < 0 || i >= aggs.len() {
        Ok(acc)
    } else if by.contains(aggs[i].name@) {
        Err(OpErrorV::AttributeAlreadyExists(aggs[i].name@))
    } else {
        match agg_spec(aggs[i].agg, s) {
            Err(e) => Err(OpErrorV::Infer(e)),
            Ok(t) => aggs_from(s, by, aggs, i + 1, acc.push(AttrV { name: aggs[i].name@, ty: t })),
        }
    }
}

/// The outcome of grouping `s` by `by` and computing `aggs`: the
/// grouping attributes (with their input types) followed by the
/// aggregates (with their inferred types).
pub open spec fn summarize_result(s: Seq<AttrV>, by: Seq<Seq<char>>, aggs: Seq<NamedAgg>) -> Result<
    Seq<AttrV>,
    OpErrorV,
> {
    match pick_from(s, by, 0, Seq::empty()) {
        Err(e) => Err(e),
        Ok(l) => match aggs_from(s, by, aggs, 0, l) {
            Err(e) => Err(e),
            Ok(c) => header_op(c),
        },
    }
}

/// The names of `l[i..]` that `r` also holds, appended to `acc`: the
/// first shared name whose two types differ is reported.
pub open spec fn natural_from(l: Seq<AttrV>, r: Seq<AttrV>, i: int, acc: Seq<Seq<char>>) -> Result<
    Seq<Seq<char>>,
    OpErrorV,
>
    decreases l.len() - i,
{
    if i < 0 || i >= l.len() {
        Ok(acc)
    } else if has_attr(r, l[i].name) {
        if attr_named(r, l[i].name).ty != l[i].ty {
            Err(OpErrorV::JoinTypeMismatch(l[i].name))
        } else {
            natural_from(l, r, i + 1, acc.push(l[i].name))
        }
    } else {
        natural_from(l, r, i + 1, acc)
    }
}

/// The check of equi-join pairs from position `i` on: both attributes
/// must exist on their sides and have equal types.
pub open spec fn equi_from(l: Seq<AttrV>, r: Seq<AttrV>, pairs: Seq<EquiPair>, i: int) -> Result<
    (),
    OpErrorV,
>
    decreases pairs.len() - i,
{
    if i < 0 || i >= pairs.len() {
        Ok(())
    } else if !has_attr(l, pairs[i].left@) {
        Err(OpErrorV::UnknownAttribute(pairs[i].left@))
    } else if !has_attr(r, pairs[i].right@) {
        Err(OpErrorV::UnknownAttribute(pairs[i].right@))
    } else if attr_named(l, pairs[i].left@).ty != attr_named(r, pairs[i].right@).ty {
        Err(OpErrorV::JoinTypeMismatch(pairs[i].left@))
    } else {
        equi_from(l, r, pairs, i + 1)
    }
}

/// A natural inner join of operands that share no name is the
/// Cartesian product of the two.
pub open spec fn join_collapses(l: Seq<AttrV>, r: Seq<AttrV>, kind: JoinKind, on: JoinOn) -> bool {
    &&& on is Natural
    &&& kind is Inner
    &&& natural_from(l, r, 0, Seq::empty()) == Ok::<Seq<Seq<char>>, OpErrorV>(Seq::empty())
}

/// The outcome of joining operands with schema views `l` and `r`.
pub open spec fn join_result(l: Seq<AttrV>, r: Seq<AttrV>, kind: JoinKind, on: JoinOn) -> Result<
    Seq<AttrV>,
    OpErrorV,
> {
    match on {
        JoinOn::Natural => match natural_from(l, r, 0, Seq::empty()) {
            Err(e) => Err(e),
            Ok(shared) => if shared.len() == 0 && kind is Inner {
                concat_result(l, r)
            } else {
                header_op(l + keep_not_in(r, shared))
            },
        },
        JoinOn::Equi(pairs) => match equi_from(l, r, pairs@, 0) {
            Err(e) => Err(e),
            Ok(_) => concat_result(l, r),
        },
        JoinOn::Theta(pred) => match concat_result(l, r) {
            Err(e) => Err(e),
            Ok(c) => match predicate_check(pred, c) {
                Err(e) => Err(e),
                Ok(_) => Ok(c),
            },
        },
    }
}

fn lens_field(path: &AnyPath) -> (r: Option<&AttributeName>)
    ensures
        match r {
            None => lens_target(*path) is None,
            Some(n) => lens_target(*path) == Some(n@),
        },
{
    match path {
        AnyPath::Lens(lens) => {
            let steps = lens.steps();
            if steps.len() != 1 {
                return None;
            }
            match &steps[0] {
                PathStep::Field(target) => Some(target),
                _ => None,
            }
        },
        AnyPath::Traversal(_) => None,
    }
}

fn names_contain(names: &[AttributeName], n: &AttributeName) -> (r: bool)
    ensures
        r == keys_of(names@).contains(n@),
{
    let mut i: usize = 0;
    while i < names.len()
        invariant
            i <= names@.len(),
            forall|k: int| 0 <= k < i ==> keys_of(names@)[k] != n@,
        decreases names@.len() - i,
    {
        if names[i].equals(n) {
            proof {
                assert(keys_of(names@)[i as int] == n@);
            }
            return true;
        }
        i = i + 1;
    }
    false
}

fn check_predicate(p: &Predicate, schema: &Schema) -> (r: Result<(), OpError>)
    ensures
        match r {
            Ok(_) => predicate_check(*p, schema@) is Ok,
            Err(e) => predicate_check(*p, schema@) == Err::<(), OpErrorV>(e@),
        },
{
    match p {
        Predicate::Expr(bool_expr) => {
            let expr = bool_expr.as_expression();
            if contains_aggregate(expr) {
                return Err(OpError::AggregateOutsideSummarize);
            }
            match infer(expr, schema) {
                Err(e) => Err(OpError::Infer(e)),
                Ok(ty) => match ty {
                    Type::Bool => Ok(()),
                    _ => Err(OpError::Infer(InferError::TypeMismatch { expected: Type::Bool, got: ty })),
                },
            }
        },
        Predicate::Opaque(_) => Ok(()),
    }
}

impl Op {
    /// The cached output schema.
    pub closed spec fn spec_schema(&self) -> Schema {
        self.schema
    }

    /// The operator shape.
    pub closed spec fn spec_kind(&self) -> OpKind {
        self.kind
    }

    /// Build a leaf from a `Source`; the output schema is the
    /// source's.
    pub fn source(src: Source) -> (r: Self)
        ensures
            r.spec_schema()@ == src.spec_schema()@,
            r.spec_kind() == OpKind::Source(src),
    {
        let schema = src.schema().duplicate();
        Op { kind: OpKind::Source(src), schema }
    }

    /// Order the input by `by`; the output schema is the input's.
    pub fn order(input: Self, by: OrderKeys) -> (r: Self)
        ensures
            r.spec_schema()@ == input.spec_schema()@,
            r.spec_kind() == (OpKind::Order { input: Box::new(input), by }),
    {
        let schema = input.schema.duplicate();
        Op { kind: OpKind::Order { input: Box::new(input), by }, schema }
    }

    /// Window over the input; the output schema is the input's.
    pub fn limit(input: Self, offset: Offset, count: LimitCount) -> (r: Self)
        ensures
            r.spec_schema()@ == input.spec_schema()@,
            r.spec_kind() == (OpKind::Limit { input: Box::new(input), offset, count }),
    {
        let schema = input.schema.duplicate();
        Op { kind: OpKind::Limit { input: Box::new(input), offset, count }, schema }
    }

    /// Set union: `SchemaMismatch` iff the operand schemas differ;
    /// otherwise the output schema is the left operand's.
    pub fn union(left: Self, right: Self) -> (r: Result<Self, OpError>)
        ensures
            op_result(
                r,
                if left.spec_schema()@ == right.spec_schema()@ {
                    Ok(left.spec_schema()@)
                } else {
                    Err(OpErrorV::SchemaMismatch)
                },
            ),
            r matches Ok(op) ==> op.spec_kind() == (OpKind::Union {
                left: Box::new(left),
                right: Box::new(right),
            }),
    {
        if !left.schema.same_as(&right.schema) {
            return Err(OpError::SchemaMismatch);
        }
        let schema = left.schema.duplicate();
        Ok(Op { kind: OpKind::Union { left: Box::new(left), right: Box::new(right) }, schema })
    }

    /// Set intersection; the schema rule is `union`'s.
    pub fn intersect(left: Self, right: Self) -> (r: Result<Self, OpError>)
        ensures
            op_result(
                r,
                if left.spec_schema()@ == right.spec_schema()@ {
                    Ok(left.spec_schema()@)
                } else {
                    Err(OpErrorV::SchemaMismatch)
                },
            ),
            r matches Ok(op) ==> op.spec_kind() == (OpKind::Intersect {
                left: Box::new(left),
                right: Box::new(right),
            }),
    {
        if !left.schema.same_as(&right.schema) {
            return Err(OpError::SchemaMismatch);
        }
        let schema = left.schema.duplicate();
        Ok(Op { kind: OpKind::Intersect { left: Box::new(left), right: Box::new(right) }, schema })
    }

    /// Set difference (left minus right); the schema rule is `union`'s.
    pub fn difference(left: Self, right: Self) -> (r: Result<Self, OpError>)
        ensures
            op_result(
                r,
                if left.spec_schema()@ == right.spec_schema()@ {
                    Ok(left.spec_schema()@)
                } else {
                    Err(OpErrorV::SchemaMismatch)
                },
            ),
            r matches Ok(op) ==> op.spec_kind() == (OpKind::Difference {
                left: Box::new(left),
                right: Box::new(right),
            }),
    {
        if !left.schema.same_as(&right.schema) {
            return Err(OpError::SchemaMismatch);
        }
        let schema = left.schema.duplicate();
        Ok(
            Op {
                kind: OpKind::Difference { left: Box::new(left), right: Box::new(right) },
                schema,
            },
        )
    }

    /// Cartesian product: the output schema is the concatenation of
    /// the operands' headers, whose names must be disjoint.
    pub fn product(left: Self, right: Self) -> (r: Result<Self, OpError>)
        ensures
            op_result(r, concat_result(left.spec_schema()@, right.spec_schema()@)),
            r matches Ok(op) ==> op.spec_kind() == (OpKind::Product {
                left: Box::new(left),
                right: Box::new(right),
            }),
    {
        let schema = concat_disjoint_schemas(&left.schema, &right.schema)?;
        Ok(Op { kind: OpKind::Product { left: Box::new(left), right: Box::new(right) }, schema })
    }

    /// Borrow the cached output schema.
    pub fn schema(&self) -> (r: &Schema)
        ensures
            *r == self.spec_schema(),
    {
        &self.schema
    }

    /// Borrow the operator shape.
    pub fn kind(&self) -> (r: &OpKind)
        ensures
            *r == self.spec_kind(),
    {
        &self.kind
    }

    /// Restrict the input's rows by a predicate. An expression
    /// predicate is re-verified against the input schema (it must be
    /// aggregate-free and Bool-typed); the output schema is the
    /// input's.
    pub fn restrict(input: Self, predicate: Predicate) -> (r: Result<Self, OpError>)
        ensures
            op_result(
                r,
                match predicate_check(predicate, input.spec_schema()@) {
                    Err(e) => Err(e),
                    Ok(_) => Ok(input.spec_schema()@),
                },
            ),
            r matches Ok(op) ==> op.spec_kind() == (OpKind::Restrict {
                input: Box::new(input),
                predicate,
            }),
    {
        check_predicate(&predicate, &input.schema)?;
        let schema = input.schema.duplicate();
        Ok(Op { kind: OpKind::Restrict { input: Box::new(input), predicate }, schema })
    }

    /// Project the input's rows down to `attrs`, in the order given.
    pub fn project(input: Self, attrs: AttributeSet) -> (r: Result<Self, OpError>)
        ensures
            op_result(r, project_result(input.spec_schema()@, attrs@)),
            r matches Ok(op) ==> op.spec_kind() == (OpKind::Project {
                input: Box::new(input),
                attrs,
            }),
    {
        let ghost s = input.schema@;
        let names = attrs.as_slice();
        let n = names.len();
        let mut projected: Vec<Attribute> = Vec::new();
        proof {
            assert(view_attrs(projected@) =~= Seq::<AttrV>::empty());
        }
        let mut i: usize = 0;
        while i < n
            invariant
                n == names@.len(),
                keys_of(names@) == attrs@,
                s == input.schema@,
                i <= n,
                pick_from(s, attrs@, 0, Seq::empty()) == pick_from(
                    s,
                    attrs@,
                    i as int,
                    view_attrs(projected@),
                ),
            decreases n - i,
        {
            let name = &names[i];
            match input.schema.find(name) {
                None => {
                    return Err(OpError::UnknownAttribute { attribute: name.clone() });
                },
                Some(a) => {
                    let ghost prev = projected@;
                    let d = a.duplicate();
                    projected.push(d);
                    proof {
                        lemma_view_attrs_push(prev, d);
                    }
                },
            }
            i = i + 1;
        }
        let schema = build_schema(projected)?;
        Ok(Op { kind: OpKind::Project { input: Box::new(input), attrs }, schema })
    }

    /// Rename `from` to `to`, preserving order and types.
    pub fn rename(input: Self, from: AttributeName, to: AttributeName) -> (r: Result<Self, OpError>)
        ensures
            op_result(r, rename_result(input.spec_schema()@, from@, to@)),
            r matches Ok(op) ==> op.spec_kind() == (OpKind::Rename {
                input: Box::new(input),
                from,
                to,
            }),
    {
        let ghost s = input.schema@;
        if !input.schema.contains(&from) {
            return Err(OpError::UnknownAttribute { attribute: from });
        }
        if !from.equals(&to) && input.schema.contains(&to) {
            return Err(OpError::AttributeAlreadyExists { attribute: to });
        }
        let attrs = input.schema.attributes();
        let n = attrs.len();
        let mut renamed: Vec<Attribute> = Vec::new();
        let mut i: usize = 0;
        while i < n
            invariant
                n == attrs@.len(),
                view_attrs(attrs@) == s,
                i <= n,
                view_attrs(renamed@) == rename_attrs(s, from@, to@).take(i as int),
            decreases n - i,
        {
            let a = &attrs[i];
            let d = if a.name.equals(&from) {
                Attribute { name: to.clone(), ty: a.ty.duplicate() }
            } else {
                a.duplicate()
            };
            let ghost prev = renamed@;
            renamed.push(d);
            proof {
                lemma_view_attrs_push(prev, d);
                assert(view_attrs(renamed@) =~= rename_attrs(s, from@, to@).take(i + 1));
            }
            i = i + 1;
        }
        proof {
            assert(rename_attrs(s, from@, to@).take(n as int) =~= rename_attrs(s, from@, to@));
        }
        let schema = build_schema(renamed)?;
        Ok(Op { kind: OpKind::Rename { input: Box::new(input), from, to }, schema })
    }

    /// Extend the input with attribute `name`, whose type is `expr`'s
    /// inferred type; aggregates are rejected.
    pub fn extend(input: Self, name: AttributeName, expr: Expression) -> (r: Result<Self, OpError>)
        ensures
            op_result(r, extend_result(input.spec_schema()@, name@, expr)),
            r matches Ok(op) ==> op.spec_kind() == (OpKind::Extend {
                input: Box::new(input),
                name,
                expr,
            }),
    {
        if input.schema.contains(&name) {
            return Err(OpError::AttributeAlreadyExists { attribute: name });
        }
        if contains_aggregate(&expr) {
            return Err(OpError::AggregateOutsideSummarize);
        }
        let ty = match infer(&expr, &input.schema) {
            Ok(ty) => ty,
            Err(e) => {
                return Err(OpError::Infer(e));
            },
        };
        let mut combined: Vec<Attribute> = Vec::new();
        push_all(&mut combined, input.schema.attributes());
        let ghost prev = combined@;
        let added = Attribute { name: name.clone(), ty };
        combined.push(added);
        proof {
            lemma_view_attrs_push(prev, added);
        }
        let schema = build_schema(combined)?;
        Ok(Op { kind: OpKind::Extend { input: Box::new(input), name, expr }, schema })
    }

    /// Replace the nested relation at a single-field lens path by the
    /// output of `sub`: the attribute keeps its name and position and
    /// takes type `Relation(sub.schema())`.
    pub fn modify(input: Self, path: AnyPath, sub: Self) -> (r: Result<Self, OpError>)
        ensures
            op_result(r, modify_result(input.spec_schema()@, path, sub.spec_schema()@)),
            r matches Ok(op) ==> op.spec_kind() == (OpKind::Modify {
                input: Box::new(input),
                path,
                sub: Box::new(sub),
            }),
    {
        let ghost s = input.schema@;
        let target = match lens_field(&path) {
            None => {
                return Err(OpError::UnsupportedPathShape);
            },
            Some(t) => t,
        };
        match input.schema.find(target) {
            None => {
                return Err(OpError::UnknownAttribute { attribute: target.clone() });
            },
            Some(a) => {
                if !matches!(a.ty, Type::Relation(_)) {
                    return Err(OpError::NotARelation { attribute: target.clone() });
                }
            },
        }
        let ghost new_ty = TypeV::Relation(sub.schema@);
        let attrs = input.schema.attributes();
        let n = attrs.len();
        let mut new_attrs: Vec<Attribute> = Vec::new();
        let mut i: usize = 0;
        while i < n
            invariant
                n == attrs@.len(),
                view_attrs(attrs@) == s,
                new_ty == TypeV::Relation(sub.schema@),
                i <= n,
                view_attrs(new_attrs@) == replace_type(s, target@, new_ty).take(i as int),
            decreases n - i,
        {
            let a = &attrs[i];
            let d = if a.name.equals(target) {
                Attribute { name: a.name.clone(), ty: Type::Relation(Box::new(sub.schema.duplicate())) }
            } else {
                a.duplicate()
            };
            let ghost prev = new_attrs@;
            new_attrs.push(d);
            proof {
                lemma_view_attrs_push(prev, d);
                assert(view_attrs(new_attrs@) =~= replace_type(s, target@, new_ty).take(i + 1));
            }
            i = i + 1;
        }
        proof {
            assert(replace_type(s, target@, new_ty).take(n as int) =~= replace_type(s, target@, new_ty));
        }
        let schema = build_schema(new_attrs)?;
        Ok(Op { kind: OpKind::Modify { input: Box::new(input), path, sub: Box::new(sub) }, schema })
    }

    /// Flatten the nested relation at a single-field lens path: the
    /// column is replaced, in place, by the nested schema's attributes.
    pub fn unnest(input: Self, path: AnyPath) -> (r: Result<Self, OpError>)
        ensures
            op_result(r, unnest_result(input.spec_schema()@, path)),
            r matches Ok(op) ==> op.spec_kind() == (OpKind::Unnest { input: Box::new(input), path }),
    {
        let ghost s = input.schema@;
        let target = match lens_field(&path) {
            None => {
                return Err(OpError::UnsupportedPathShape);
            },
            Some(t) => t,
        };
        let sub = match input.schema.find(target) {
            None => {
                return Err(OpError::UnknownAttribute { attribute: target.clone() });
            },
            Some(a) => match &a.ty {
                Type::Relation(sub) => sub,
                _ => {
                    return Err(OpError::NotARelation { attribute: target.clone() });
                },
            },
        };
        let ghost subv = sub@;
        let attrs = input.schema.attributes();
        let n = attrs.len();
        let mut flattened: Vec<Attribute> = Vec::new();
        proof {
            assert(view_attrs(flattened@) =~= splice(s.take(0), target@, subv));
        }
        let mut i: usize = 0;
        while i < n
            invariant
                n == attrs@.len(),
                view_attrs(attrs@) == s,
                subv == sub@,
                i <= n,
                view_attrs(flattened@) == splice(s.take(i as int), target@, subv),
            decreases n - i,
        {
            let a = &attrs[i];
            proof {
                assert(s.take(i + 1).drop_last() =~= s.take(i as int));
            }
            if a.name.equals(target) {
                push_all(&mut flattened, sub.attributes());
            } else {
                let ghost prev = flattened@;
                let d = a.duplicate();
                flattened.push(d);
                proof {
                    lemma_view_attrs_push(prev, d);
                    assert(view_attrs(flattened@) =~= splice(s.take(i + 1), target@, subv));
                }
            }
            i = i + 1;
        }
        proof {
            assert(s.take(n as int) =~= s);
        }
        let schema = build_schema(flattened)?;
        Ok(Op { kind: OpKind::Unnest { input: Box::new(input), path }, schema })
    }

    /// Nest the attributes `attrs` into a single nested-relation column
    /// `into`, appended after the attributes that stay; `into` may reuse
    /// a name that is being nested.
    pub fn nest(input: Self, attrs: AttributeSet, into: AttributeName) -> (r: Result<Self, OpError>)
        ensures
            op_result(r, nest_result(input.spec_schema()@, attrs@, into@)),
            r matches Ok(op) ==> op.spec_kind() == (OpKind::Nest {
                input: Box::new(input),
                attrs,
                into,
            }),
    {
        let ghost s = input.schema@;
        let names = attrs.as_slice();
        let n = names.len();
        let mut nested: Vec<Attribute> = Vec::new();
        proof {
            assert(view_attrs(nested@) =~= Seq::<AttrV>::empty());
        }
        let mut i: usize = 0;
        while i < n
            invariant
                n == names@.len(),
                keys_of(names@) == attrs@,
                s == input.schema@,
                i <= n,
                pick_from(s, attrs@, 0, Seq::empty()) == pick_from(
                    s,
                    attrs@,
                    i as int,
                    view_attrs(nested@),
                ),
            decreases n - i,
        {
            let name = &names[i];
            match input.schema.find(name) {
                None => {
                    return Err(OpError::UnknownAttribute { attribute: name.clone() });
                },
                Some(a) => {
                    let ghost prev = nested@;
                    let d = a.duplicate();
                    nested.push(d);
                    proof {
                        lemma_view_attrs_push(prev, d);
                    }
                },
            }
            i = i + 1;
        }
        let sub_schema = build_schema(nested)?;
        if input.schema.contains(&into) && !names_contain(names, &into) {
            return Err(OpError::AttributeAlreadyExists { attribute: into });
        }
        let all = input.schema.attributes();
        let m = all.len();
        let mut remaining: Vec<Attribute> = Vec::new();
        proof {
            assert(view_attrs(remaining@) =~= keep_not_in(s.take(0), attrs@));
        }
        let mut j: usize = 0;
        while j < m
            invariant
                m == all@.len(),
                view_attrs(all@) == s,
                keys_of(names@) == attrs@,
                j <= m,
                view_attrs(remaining@) == keep_not_in(s.take(j as int), attrs@),
            decreases m - j,
        {
            let a = &all[j];
            proof {
                assert(s.take(j + 1).drop_last() =~= s.take(j as int));
            }
            if !names_contain(names, &a.name) {
                let ghost prev = remaining@;
                let d = a.duplicate();
                remaining.push(d);
                proof {
                    lemma_view_attrs_push(prev, d);
                }
            }
            j = j + 1;
        }
        proof {
            assert(s.take(m as int) =~= s);
        }
        let ghost prev = remaining@;
        let added = Attribute { name: into.clone(), ty: Type::Relation(Box::new(sub_schema)) };
        remaining.push(added);
        proof {
            lemma_view_attrs_push(prev, added);
        }
        let schema = build_schema(remaining)?;
        Ok(Op { kind: OpKind::Nest { input: Box::new(input), attrs, into }, schema })
    }

    /// Group the input by `by` and compute the named aggregates: the
    /// output is the grouping attributes (input types) followed by the
    /// aggregates (inferred types).
    pub fn summarize(input: Self, by: GroupingSet, aggs: NamedAggSet) -> (r: Result<Self, OpError>)
        ensures
            op_result(r, summarize_result(input.spec_schema()@, by@, aggs@)),
            r matches Ok(op) ==> op.spec_kind() == (OpKind::Summarize {
                input: Box::new(input),
                by,
                aggs,
            }),
    {
        let ghost s = input.schema@;
        let names = by.as_slice();
        let n = names.len();
        let mut combined: Vec<Attribute> = Vec::new();
        proof {
            assert(view_attrs(combined@) =~= Seq::<AttrV>::empty());
        }
        let mut i: usize = 0;
        while i < n
            invariant
                n == names@.len(),
                keys_of(names@) == by@,
                s == input.schema@,
                i <= n,
                pick_from(s, by@, 0, Seq::empty()) == pick_from(
                    s,
                    by@,
                    i as int,
                    view_attrs(combined@),
                ),
            decreases n - i,
        {
            let name = &names[i];
            match input.schema.find(name) {
                None => {
                    return Err(OpError::UnknownAttribute { attribute: name.clone() });
                },
                Some(a) => {
                    let ghost prev = combined@;
                    let d = a.duplicate();
                    combined.push(d);
                    proof {
                        lemma_view_attrs_push(prev, d);
                    }
                },
            }
            i = i + 1;
        }
        let list = aggs.as_slice();
        let m = list.len();
        let mut j: usize = 0;
        while j < m
            invariant
                m == list@.len(),
                list@ == aggs@,
                keys_of(names@) == by@,
                s == input.schema@,
                j <= m,
                summarize_result(s, by@, aggs@) == (match pick_from(s, by@, 0, Seq::empty()) {
                    Err(e) => Err(e),
                    Ok(_) => match aggs_from(s, by@, aggs@, j as int, view_attrs(combined@)) {
                        Err(e) => Err(e),
                        Ok(c) => header_op(c),
                    },
                }),
                pick_from(s, by@, 0, Seq::empty()) is Ok,
            decreases m - j,
        {
            let agg = &list[j];
            if names_contain(names, &agg.name) {
                return Err(OpError::AttributeAlreadyExists { attribute: agg.name.clone() });
            }
            let ty = match agg_ty(&agg.agg, &input.schema) {
                Ok(ty) => ty,
                Err(e) => {
                    return Err(OpError::Infer(e));
                },
            };
            let ghost prev = combined@;
            let added = Attribute { name: agg.name.clone(), ty };
            combined.push(added);
            proof {
                lemma_view_attrs_push(prev, added);
            }
            j = j + 1;
        }
        let schema = build_schema(combined)?;
        Ok(Op { kind: OpKind::Summarize { input: Box::new(input), by, aggs }, schema })
    }

    /// Join two relations. A natural join equates the shared names
    /// (their types must agree) and appends the right operand's other
    /// attributes; a natural inner join over disjoint schemas is
    /// normalised to `product`. Equi- and theta-joins concatenate
    /// name-disjoint headers; a theta predicate is re-verified against
    /// the combined header.
    pub fn join(left: Self, right: Self, kind: JoinKind, on: JoinOn) -> (r: Result<Self, OpError>)
        ensures
            op_result(r, join_result(left.spec_schema()@, right.spec_schema()@, kind, on)),
            r matches Ok(op) ==> if join_collapses(
                left.spec_schema()@,
                right.spec_schema()@,
                kind,
                on,
            ) {
                op.spec_kind() == (OpKind::Product { left: Box::new(left), right: Box::new(right) })
            } else {
                op.spec_kind() == (OpKind::Join {
                    left: Box::new(left),
                    right: Box::new(right),
                    kind,
                    on,
                })
            },
    {
        let ghost l = left.schema@;
        let ghost rv = right.schema@;
        let schema = match &on {
            JoinOn::Natural => {
                let lattrs = left.schema.attributes();
                let n = lattrs.len();
                let mut shared: Vec<AttributeName> = Vec::new();
                proof {
                    assert(keys_of(shared@) =~= Seq::<Seq<char>>::empty());
                }
                let mut i: usize = 0;
                while i < n
                    invariant
                        n == lattrs@.len(),
                        view_attrs(lattrs@) == l,
                        l == left.schema@,
                        rv == right.schema@,
                        on == JoinOn::Natural,
                        i <= n,
                        natural_from(l, rv, 0, Seq::empty()) == natural_from(
                            l,
                            rv,
                            i as int,
                            keys_of(shared@),
                        ),
                    decreases n - i,
                {
                    let la = &lattrs[i];
                    match right.schema.find(&la.name) {
                        Some(ra) => {
                            if !ra.ty.same_as(&la.ty) {
                                return Err(OpError::JoinTypeMismatch { attribute: la.name.clone() });
                            }
                            let ghost prev = shared@;
                            let nm = la.name.clone();
                            shared.push(nm);
                            proof {
                                assert(keys_of(shared@) =~= keys_of(prev).push(nm@));
                            }
                        },
                        None => {},
                    }
                    i = i + 1;
                }
                if shared.len() == 0 && matches!(kind, JoinKind::Inner) {
                    proof {
                        assert(keys_of(shared@) =~= Seq::<Seq<char>>::empty());
                    }
                    return Self::product(left, right);
                }
                let mut combined: Vec<Attribute> = Vec::new();
                push_all(&mut combined, lattrs);
                let rattrs = right.schema.attributes();
                let m = rattrs.len();
                let mut kept: Vec<Attribute> = Vec::new();
                proof {
                    assert(view_attrs(kept@) =~= keep_not_in(rv.take(0), keys_of(shared@)));
                }
                let mut j: usize = 0;
                while j < m
                    invariant
                        m == rattrs@.len(),
                        view_attrs(rattrs@) == rv,
                        j <= m,
                        view_attrs(kept@) == keep_not_in(rv.take(j as int), keys_of(shared@)),
                    decreases m - j,
                {
                    let ra = &rattrs[j];
                    proof {
                        assert(rv.take(j + 1).drop_last() =~= rv.take(j as int));
                    }
                    if !names_contain(shared.as_slice(), &ra.name) {
                        let ghost prev = kept@;
                        let d = ra.duplicate();
                        kept.push(d);
                        proof {
                            lemma_view_attrs_push(prev, d);
                        }
                    }
                    j = j + 1;
                }
                proof {
                    assert(rv.take(m as int) =~= rv);
                }
                push_all(&mut combined, kept.as_slice());
                build_schema(combined)?
            },
            JoinOn::Equi(pairs) => {
                let list = pairs.as_slice();
                let n = list.len();
                let mut i: usize = 0;
                while i < n
                    invariant
                        n == list@.len(),
                        list@ == pairs@,
                        on == JoinOn::Equi(*pairs),
                        l == left.schema@,
                        rv == right.schema@,
                        i <= n,
                        equi_from(l, rv, pairs@, 0) == equi_from(l, rv, pairs@, i as int),
                    decreases n - i,
                {
                    let pair = &list[i];
                    let lt = match left.schema.find(&pair.left) {
                        Some(a) => a,
                        None => {
                            return Err(OpError::UnknownAttribute { attribute: pair.left.clone() });
                        },
                    };
                    let rt = match right.schema.find(&pair.right) {
                        Some(a) => a,
                        None => {
                            return Err(OpError::UnknownAttribute { attribute: pair.right.clone() });
                        },
                    };
                    if !lt.ty.same_as(&rt.ty) {
                        return Err(OpError::JoinTypeMismatch { attribute: pair.left.clone() });
                    }
                    i = i + 1;
                }
                concat_disjoint_schemas(&left.schema, &right.schema)?
            },
            JoinOn::Theta(pred) => {
                let combined = concat_disjoint_schemas(&left.schema, &right.schema)?;
                check_predicate(pred, &combined)?;
                combined
            },
        };
        Ok(Op { kind: OpKind::Join { left: Box::new(left), right: Box::new(right), kind, on }, schema })
    }
}

} // verus!
