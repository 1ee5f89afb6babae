//! Attribute types, attributes and relation schemas, together with
//! their mathematical views.
//!
//! A `Schema` is a bounded, name-unique, ordered list of attributes;
//! its view is the sequence of `(name, type)` pairs it holds.
use vstd::prelude::*;

use crate::identifier::AttributeName;
use crate::limits::MAX_SCHEMA_ATTRIBUTES;
use crate::refine::{
    first_dup, first_duplicate, is_first_dup, keys_of, keys_unique, lemma_first_dup_unique,
    NameKeyed, NumericError,
};

verus! {

broadcast use vstd::std_specs::vec::axiom_vec_index_decreases;

/// Attribute type. The nested variants (`Relation`, `Array`,
/// `Optional`) recurse over `Schema` and `Type`.
#[derive(Debug, PartialEq, Eq)]
#[non_exhaustive]
pub enum Type {
    /// Boolean.
    Bool,
    /// Signed 32-bit integer.
    Int32,
    /// Signed 64-bit integer.
    Int64,
    /// 64-bit IEEE-754 float.
    Float64,
    /// Exact decimal.
    Decimal,
    /// UTF-8 string.
    String,
    /// Opaque byte sequence.
    Bytes,
    /// Absolute instant.
    DateTime,
    /// JSON value.
    Json,
    /// Nested relation; carries its own schema header.
    Relation(Box<Schema>),
    /// Ordered collection of homogeneous values.
    Array(Box<Type>),
    /// `Some` / `None` over an inner type.
    Optional(Box<Type>),
}

/// The view of a `Type`: the same shape, with nested schemas seen as
/// sequences of attribute views.
pub enum TypeV {
    Bool,
    Int32,
    Int64,
    Float64,
    Decimal,
    String,
    Bytes,
    DateTime,
    Json,
    Relation(Seq<AttrV>),
    Array(Box<TypeV>),
    Optional(Box<TypeV>),
}

/// The view of an `Attribute`: its name's characters and its type's
/// view.
pub struct AttrV {
    pub name: Seq<char>,
    pub ty: TypeV,
}

/// One column in a relation schema: its name and type.
#[derive(Debug, PartialEq, Eq)]
pub struct Attribute {
    /// Column name.
    pub name: AttributeName,
    /// Column type.
    pub ty: Type,
}

/// Relation header: ordered list of 1..=`MAX_SCHEMA_ATTRIBUTES`
/// attributes with pairwise-distinct names.
#[derive(Debug, PartialEq, Eq)]
pub struct Schema {
    attrs: Vec<Attribute>,
}

/// The view of a type.
pub open spec fn type_view(t: Type) -> TypeV
    decreases t,
{
    match t {
        Type::Bool => TypeV::Bool,
        Type::Int32 => TypeV::Int32,
        Type::Int64 => TypeV::Int64,
        Type::Float64 => TypeV::Float64,
        Type::Decimal => TypeV::Decimal,
        Type::String => TypeV::String,
        Type::Bytes => TypeV::Bytes,
        Type::DateTime => TypeV::DateTime,
        Type::Json => TypeV::Json,
        Type::Relation(s) => TypeV::Relation(schema_view(*s)),
        Type::Array(inner) => TypeV::Array(Box::new(type_view(*inner))),
        Type::Optional(inner) => TypeV::Optional(Box::new(type_view(*inner))),
    }
}

/// The view of a schema: the views of its attributes, in order.
pub closed spec fn schema_view(s: Schema) -> Seq<AttrV>
    decreases s,
{
    attrs_view(s.attrs@)
}

spec fn attrs_view(v: Seq<Attribute>) -> Seq<AttrV>
    decreases v,
{
    if v.len() == 0 {
        Seq::empty()
    } else {
        attrs_view(v.drop_last()).push(
            AttrV { name: v.last().name@, ty: type_view(v.last().ty) },
        )
    }
}

impl View for Type {
    type V = TypeV;

    open spec fn view(&self) -> TypeV {
        type_view(*self)
    }
}

impl View for Attribute {
    type V = AttrV;

    open spec fn view(&self) -> AttrV {
        AttrV { name: self.name@, ty: self.ty@ }
    }
}

impl View for Schema {
    type V = Seq<AttrV>;

    open spec fn view(&self) -> Seq<AttrV> {
        schema_view(*self)
    }
}

/// The views of a sequence of attributes.
pub open spec fn view_attrs(v: Seq<Attribute>) -> Seq<AttrV> {
    Seq::new(v.len(), |i: int| v[i]@)
}

/// Views distribute over pushing one attribute.
pub proof fn lemma_view_attrs_push(v: Seq<Attribute>, a: Attribute)
    ensures
        view_attrs(v.push(a)) == view_attrs(v).push(a@),
{
    assert(view_attrs(v.push(a)) =~= view_attrs(v).push(a@));
}

/// The names in a sequence of attribute views.
pub open spec fn names_of(s: Seq<AttrV>) -> Seq<Seq<char>> {
    Seq::new(s.len(), |i: int| s[i].name)
}

/// The schema-header rule: 1..=`MAX_SCHEMA_ATTRIBUTES` attributes
/// with pairwise-distinct names.
pub open spec fn header_ok(s: Seq<AttrV>) -> bool {
    &&& 1 <= s.len() <= MAX_SCHEMA_ATTRIBUTES
    &&& keys_unique(names_of(s))
}

/// What `Schema::try_new` makes of a list of attributes: the length
/// is checked first, then name uniqueness.
pub open spec fn header_result(s: Seq<AttrV>) -> Result<Seq<AttrV>, SchemaError> {
    if !(1 <= s.len() <= MAX_SCHEMA_ATTRIBUTES) {
        Err(SchemaError::Cardinality { actual: s.len() as usize })
    } else if !keys_unique(names_of(s)) {
        Err(SchemaError::DuplicateAttribute { index: first_dup(names_of(s)) as usize })
    } else {
        Ok(s)
    }
}

/// `s` holds an attribute named `n`.
pub open spec fn has_attr(s: Seq<AttrV>, n: Seq<char>) -> bool {
    exists|i: int| 0 <= i < s.len() && #[trigger] s[i].name == n
}

/// The attribute named `n` in `s` (the only one, when names are
/// distinct).
pub open spec fn attr_named(s: Seq<AttrV>, n: Seq<char>) -> AttrV {
    s[choose|i: int| 0 <= i < s.len() && #[trigger] s[i].name == n]
}

/// In a name-unique sequence, the attribute at a position holding
/// name `n` is the one `attr_named` picks.
pub proof fn lemma_attr_named(s: Seq<AttrV>, n: Seq<char>, i: int)
    requires
        keys_unique(names_of(s)),
        0 <= i < s.len(),
        s[i].name == n,
    ensures
        has_attr(s, n),
        attr_named(s, n) == s[i],
{
    let k = choose|k: int| 0 <= k < s.len() && #[trigger] s[k].name == n;
    assert(names_of(s)[k] == names_of(s)[i]);
}

proof fn lemma_attrs_view(v: Seq<Attribute>)
    ensures
        attrs_view(v) == view_attrs(v),
    decreases v.len(),
{
    if v.len() > 0 {
        lemma_attrs_view(v.drop_last());
        assert(attrs_view(v) =~= view_attrs(v));
    } else {
        assert(attrs_view(v) =~= view_attrs(v));
    }
}

proof fn lemma_schema_view(s: Schema)
    ensures
        s@ == view_attrs(s.attrs@),
{
    lemma_attrs_view(s.attrs@);
}

impl NameKeyed for Attribute {
    open spec fn key_view(&self) -> Seq<char> {
        self.name@
    }

    fn key(&self) -> (k: &AttributeName) {
        &self.name
    }
}

/// Key extractor for attributes: uniqueness in a schema is on the
/// attribute name.
pub struct AttributeKey {
    _private: (),
}

impl AttributeKey {
    /// The key of an attribute: its name.
    pub fn key_of(attr: &Attribute) -> (r: AttributeName)
        ensures
            r@ == attr.name@,
    {
        attr.name.clone()
    }
}

proof fn lemma_keys_names(v: Seq<Attribute>)
    ensures
        keys_of(v) == names_of(view_attrs(v)),
{
    assert(keys_of(v) =~= names_of(view_attrs(v)));
}

/// Number of attributes in a `Schema`: `1..=MAX_SCHEMA_ATTRIBUTES`.
#[derive(Debug, Clone, Copy, PartialEq, Eq)]
pub struct SchemaCardinality {
    value: usize,
}

/// Constructor error for `SchemaCardinality`.
pub type SchemaCardinalityError = NumericError;

impl SchemaCardinality {
    /// The wrapped count.
    pub closed spec fn spec_value(&self) -> usize {
        self.value
    }

    /// Validate a count; `OutOfRange` iff it lies outside
    /// `1..=MAX_SCHEMA_ATTRIBUTES`.
    pub fn try_new(raw: usize) -> (r: Result<Self, SchemaCardinalityError>)
        ensures
            match r {
                Ok(c) => 1 <= raw <= MAX_SCHEMA_ATTRIBUTES && c.spec_value() == raw,
                Err(NumericError::OutOfRange { value }) => !(1 <= raw <= MAX_SCHEMA_ATTRIBUTES)
                    && value == raw,
            },
    {
        if raw < 1 || raw > MAX_SCHEMA_ATTRIBUTES {
            Err(NumericError::OutOfRange { value: raw as i128 })
        } else {
            Ok(SchemaCardinality { value: raw })
        }
    }

    /// Borrow the inner count.
    pub fn as_inner(&self) -> (r: &usize)
        ensures
            *r == self.spec_value(),
    {
        &self.value
    }
}

/// Constructor error for `Schema`.
#[derive(Debug, Clone, Copy, PartialEq, Eq)]
pub enum SchemaError {
    /// Attribute count fell outside `1..=MAX_SCHEMA_ATTRIBUTES`.
    Cardinality {
        /// Observed attribute count.
        actual: usize,
    },
    /// Two attributes shared a name; `index` is the second occurrence.
    DuplicateAttribute {
        /// Position of the duplicate (the second occurrence).
        index: usize,
    },
}

impl Type {
    /// A copy with the same view.
    pub fn duplicate(&self) -> (r: Type)
        ensures
            r@ == self@,
        decreases self,
    {
        match self {
            Type::Bool => Type::Bool,
            Type::Int32 => Type::Int32,
            Type::Int64 => Type::Int64,
            Type::Float64 => Type::Float64,
            Type::Decimal => Type::Decimal,
            Type::String => Type::String,
            Type::Bytes => Type::Bytes,
            Type::DateTime => Type::DateTime,
            Type::Json => Type::Json,
            Type::Relation(s) => Type::Relation(Box::new(s.duplicate())),
            Type::Array(inner) => Type::Array(Box::new(inner.duplicate())),
            Type::Optional(inner) => Type::Optional(Box::new(inner.duplicate())),
        }
    }

    /// `true` iff the two types have the same view.
    pub fn same_as(&self, other: &Type) -> (r: bool)
        ensures
            r == (self@ == other@),
        decreases self,
    {
        match (self, other) {
            (Type::Bool, Type::Bool) => true,
            (Type::Int32, Type::Int32) => true,
            (Type::Int64, Type::Int64) => true,
            (Type::Float64, Type::Float64) => true,
            (Type::Decimal, Type::Decimal) => true,
            (Type::String, Type::String) => true,
            (Type::Bytes, Type::Bytes) => true,
            (Type::DateTime, Type::DateTime) => true,
            (Type::Json, Type::Json) => true,
            (Type::Relation(a), Type::Relation(b)) => a.same_as(b),
            (Type::Array(a), Type::Array(b)) => a.same_as(b),
            (Type::Optional(a), Type::Optional(b)) => a.same_as(b),
            _ => false,
        }
    }
}

impl Clone for Type {
    fn clone(&self) -> (r: Self)
        ensures
            r@ == self@,
    {
        self.duplicate()
    }
}

impl Attribute {
    /// A copy with the same view.
    pub fn duplicate(&self) -> (r: Attribute)
        ensures
            r@ == self@,
    {
        Attribute { name: self.name.clone(), ty: self.ty.duplicate() }
    }
}

impl Clone for Attribute {
    fn clone(&self) -> (r: Self)
        ensures
            r@ == self@,
    {
        self.duplicate()
    }
}

/// Copy a list of attributes, keeping every view.
pub fn duplicate_attrs(v: &[Attribute]) -> (r: Vec<Attribute>)
    ensures
        view_attrs(r@) == view_attrs(v@),
{
    let mut out: Vec<Attribute> = Vec::new();
    let mut i: usize = 0;
    while i < v.len()
        invariant
            i <= v@.len(),
            out@.len() == i,
            forall|k: int| 0 <= k < i ==> #[trigger] out@[k]@ == v@[k]@,
        decreases v@.len() - i,
    {
        out.push(v[i].duplicate());
        i = i + 1;
    }
    assert(view_attrs(out@) =~= view_attrs(v@));
    out
}

impl Schema {
    #[verifier::type_invariant]
    spec fn inv(self) -> bool {
        &&& 1 <= self.attrs@.len() <= MAX_SCHEMA_ATTRIBUTES
        &&& keys_unique(keys_of(self.attrs@))
    }

    /// Validate `attributes` against the schema-header rule and wrap.
    pub fn try_new(attributes: Vec<Attribute>) -> (r: Result<Self, SchemaError>)
        ensures
            match r {
                Ok(s) => header_result(view_attrs(attributes@)) == Ok::<Seq<AttrV>, SchemaError>(s@),
                Err(e) => header_result(view_attrs(attributes@)) == Err::<Seq<AttrV>, SchemaError>(e),
            },
    {
        let ghost v = view_attrs(attributes@);
        proof {
            lemma_keys_names(attributes@);
        }
        let n = attributes.len();
        if n < 1 || n > MAX_SCHEMA_ATTRIBUTES {
            return Err(SchemaError::Cardinality { actual: n });
        }
        match first_duplicate(&attributes) {
            Some(j) => {
                proof {
                    lemma_first_dup_unique(names_of(v), j as int);
                }
                Err(SchemaError::DuplicateAttribute { index: j })
            },
            None => {
                let s = Schema { attrs: attributes };
                proof {
                    lemma_schema_view(s);
                }
                Ok(s)
            },
        }
    }

    /// A copy with the same view.
    pub fn duplicate(&self) -> (r: Schema)
        ensures
            r@ == self@,
        decreases self,
    {
        proof {
            use_type_invariant(self);
            lemma_schema_view(*self);
        }
        let mut out: Vec<Attribute> = Vec::new();
        let mut i: usize = 0;
        while i < self.attrs.len()
            invariant
                i <= self.attrs@.len(),
                out@.len() == i,
                forall|k: int| 0 <= k < i ==> #[trigger] out@[k]@ == self.attrs@[k]@,
            decreases self.attrs@.len() - i,
        {
            let a = &self.attrs[i];
            let d = Attribute { name: a.name.clone(), ty: a.ty.duplicate() };
            out.push(d);
            i = i + 1;
        }
        proof {
            assert(view_attrs(out@) =~= view_attrs(self.attrs@));
            lemma_keys_names(out@);
            lemma_keys_names(self.attrs@);
        }
        let s = Schema { attrs: out };
        proof {
            lemma_schema_view(s);
        }
        s
    }

    /// `true` iff the two schemas have the same view.
    pub fn same_as(&self, other: &Schema) -> (r: bool)
        ensures
            r == (self@ == other@),
        decreases self,
    {
        proof {
            lemma_schema_view(*self);
            lemma_schema_view(*other);
        }
        let n = self.attrs.len();
        if n != other.attrs.len() {
            proof {
                assert(self@.len() != other@.len());
            }
            return false;
        }
        let mut i: usize = 0;
        while i < n
            invariant
                n == self.attrs@.len(),
                n == other.attrs@.len(),
                self@ == view_attrs(self.attrs@),
                other@ == view_attrs(other.attrs@),
                i <= n,
                forall|k: int| 0 <= k < i ==> #[trigger] self.attrs@[k]@ == other.attrs@[k]@,
            decreases n - i,
        {
            let a = &self.attrs[i];
            let b = &other.attrs[i];
            if !a.name.equals(&b.name) {
                proof {
                    assert(self@[i as int] != other@[i as int]);
                }
                return false;
            }
            if !a.ty.same_as(&b.ty) {
                proof {
                    assert(self@[i as int] != other@[i as int]);
                }
                return false;
            }
            i = i + 1;
        }
        proof {
            assert(self@ =~= other@);
        }
        true
    }

    /// Borrow the attribute list.
    pub fn attributes(&self) -> (r: &[Attribute])
        ensures
            view_attrs(r@) == self@,
            header_ok(self@),
    {
        proof {
            use_type_invariant(self);
            lemma_schema_view(*self);
            lemma_keys_names(self.attrs@);
        }
        self.attrs.as_slice()
    }

    /// Number of attributes in the schema (never zero).
    pub fn cardinality(&self) -> (r: usize)
        ensures
            r == self@.len(),
            header_ok(self@),
    {
        proof {
            use_type_invariant(self);
            lemma_schema_view(*self);
            lemma_keys_names(self.attrs@);
        }
        self.attrs.len()
    }

    /// Consume the wrapper and return the inner attribute list.
    pub fn into_inner(self) -> (r: Vec<Attribute>)
        ensures
            view_attrs(r@) == self@,
    {
        proof {
            lemma_schema_view(self);
        }
        self.attrs
    }

    /// Look up an attribute by name; `None` if absent.
    pub fn find(&self, name: &AttributeName) -> (r: Option<&Attribute>)
        ensures
            header_ok(self@),
            match r {
                None => !has_attr(self@, name@),
                Some(a) => has_attr(self@, name@) && a@ == attr_named(self@, name@),
            },
    {
        proof {
            use_type_invariant(self);
            lemma_schema_view(*self);
            lemma_keys_names(self.attrs@);
        }
        let n = self.attrs.len();
        let mut i: usize = 0;
        while i < n
            invariant
                n == self.attrs@.len(),
                self@ == view_attrs(self.attrs@),
                header_ok(self@),
                i <= n,
                forall|k: int| 0 <= k < i ==> #[trigger] self@[k].name != name@,
            decreases n - i,
        {
            let a = &self.attrs[i];
            if a.name.equals(name) {
                proof {
                    lemma_attr_named(self@, name@, i as int);
                }
                return Some(a);
            }
            i = i + 1;
        }
        None
    }

    /// `true` iff an attribute with this name is in the schema.
    pub fn contains(&self, name: &AttributeName) -> (r: bool)
        ensures
            header_ok(self@),
            r == has_attr(self@, name@),
    {
        self.find(name).is_some()
    }
}

impl Clone for Schema {
    fn clone(&self) -> (r: Self)
        ensures
            r@ == self@,
    {
        self.duplicate()
    }
}

} // verus!
