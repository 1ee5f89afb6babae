//! Optic-like paths for nested-data navigation.
//!
//! A `Path<K>` is a bounded sequence of `PathStep`s. `K` is a sealed
//! `Kind` marker: `Lens` (no `Each` step) or `Traversal` (at least one
//! `Each` step). `AnyPath` is the sum used where either kind is
//! admissible.
use vstd::prelude::*;

use core::marker::PhantomData;

use crate::identifier::AttributeName;
use crate::limit::BoundedIndex;
use crate::limits::MAX_PATH_STEPS;
use crate::refine::CollectionError;

mod sealed;

verus! {

/// A single step in a path.
#[derive(Debug, PartialEq, Eq)]
#[non_exhaustive]
pub enum PathStep {
    /// `.field`: named attribute access.
    Field(AttributeName),
    /// `[i]`: positional index into an ordered collection.
    Index(BoundedIndex),
    /// `[*]`: promotes the path to a traversal over every element.
    Each,
}

/// `true` iff some step is `Each`.
pub open spec fn has_each(steps: Seq<PathStep>) -> bool {
    exists|i: int| 0 <= i < steps.len() && #[trigger] steps[i] is Each
}

/// `index` is the position of the first `Each` step.
pub open spec fn first_each(steps: Seq<PathStep>, index: int) -> bool {
    &&& 0 <= index < steps.len()
    &&& steps[index] is Each
    &&& !has_each(steps.take(index))
}

/// The optic kind of a path. Cannot be implemented outside this crate.
pub trait Kind: sealed::Kind {
    /// The step sequences a path of this kind admits.
    spec fn admits(steps: Seq<PathStep>) -> bool;
}

/// Lens kind: no `Each` step; focuses a single position.
#[derive(Debug, PartialEq, Eq)]
pub struct Lens {
    _private: (),
}

impl sealed::Kind for Lens {}

impl Kind for Lens {
    open spec fn admits(steps: Seq<PathStep>) -> bool {
        !has_each(steps)
    }
}

/// Traversal kind: at least one `Each` step; focuses every element of
/// the addressed collection.
#[derive(Debug, PartialEq, Eq)]
pub struct Traversal {
    _private: (),
}

impl sealed::Kind for Traversal {}

impl Kind for Traversal {
    open spec fn admits(steps: Seq<PathStep>) -> bool {
        has_each(steps)
    }
}

/// Kinded path: at most `MAX_PATH_STEPS` steps, tagged with its optic
/// kind.
#[derive(Debug, PartialEq, Eq)]
pub struct Path<K: Kind> {
    steps: Vec<PathStep>,
    kind: PhantomData<K>,
}

/// Path that focuses a single position (no `Each` step).
pub type LensPath = Path<Lens>;

/// Path that focuses every element of a collection (at least one
/// `Each` step).
pub type TraversalPath = Path<Traversal>;

/// AST-side path carrier: either kind.
#[derive(Debug, PartialEq, Eq)]
pub enum AnyPath {
    /// A `LensPath`.
    Lens(LensPath),
    /// A `TraversalPath`.
    Traversal(TraversalPath),
}

/// Errors raised by path construction.
#[derive(Debug, Clone, Copy, PartialEq, Eq)]
pub enum PathError {
    /// The step count exceeded `MAX_PATH_STEPS`.
    Length(CollectionError),
    /// A lens path contained an `Each` step.
    LensWithEach {
        /// Position of the first `Each` step.
        index: usize,
    },
    /// A traversal path contained no `Each` step.
    TraversalWithoutEach,
}

impl From<CollectionError> for PathError {
    fn from(err: CollectionError) -> (r: Self) {
        PathError::Length(err)
    }
}

impl vstd::std_specs::convert::FromSpecImpl<CollectionError> for PathError {
    open spec fn obeys_from_spec() -> bool {
        true
    }

    open spec fn from_spec(err: CollectionError) -> Self {
        PathError::Length(err)
    }
}

impl Clone for PathStep {
    fn clone(&self) -> (r: Self)
        ensures
            r == *self,
    {
        match self {
            PathStep::Field(name) => PathStep::Field(name.clone()),
            PathStep::Index(i) => PathStep::Index(*i),
            PathStep::Each => PathStep::Each,
        }
    }
}

impl<K: Kind> Clone for Path<K> {
    fn clone(&self) -> (r: Self)
        ensures
            r@ == self@,
    {
        proof {
            use_type_invariant(self);
        }
        Path { steps: crate::refine::clone_all(&self.steps), kind: PhantomData }
    }
}

/// `a` and `b` are paths of the same kind with the same steps.
pub open spec fn same_path(a: AnyPath, b: AnyPath) -> bool {
    match (a, b) {
        (AnyPath::Lens(x), AnyPath::Lens(y)) => x@ == y@,
        (AnyPath::Traversal(x), AnyPath::Traversal(y)) => x@ == y@,
        _ => false,
    }
}

impl Clone for AnyPath {
    fn clone(&self) -> (r: Self)
        ensures
            same_path(r, *self),
    {
        match self {
            AnyPath::Lens(p) => AnyPath::Lens(p.clone()),
            AnyPath::Traversal(p) => AnyPath::Traversal(p.clone()),
        }
    }
}

impl<K: Kind> View for Path<K> {
    type V = Seq<PathStep>;

    closed spec fn view(&self) -> Seq<PathStep> {
        self.steps@
    }
}

fn find_each(steps: &Vec<PathStep>) -> (r: Option<usize>)
    ensures
        match r {
            None => !has_each(steps@),
            Some(index) => first_each(steps@, index as int),
        },
{
    let n = steps.len();
    let mut i: usize = 0;
    while i < n
        invariant
            n == steps@.len(),
            i <= n,
            !has_each(steps@.take(i as int)),
        decreases n - i,
    {
        if matches!(steps[i], PathStep::Each) {
            return Some(i);
        }
        assert(steps@.take(i + 1) =~= steps@.take(i as int).push(steps@[i as int]));
        i = i + 1;
    }
    assert(steps@.take(n as int) =~= steps@);
    None
}

impl Path<Lens> {
    /// Validate `steps` as a lens path: `Length` if there are more than
    /// `MAX_PATH_STEPS` steps, else `LensWithEach` at the first `Each`.
    pub fn try_new(steps: Vec<PathStep>) -> (r: Result<Self, PathError>)
        ensures
            match r {
                Ok(p) => steps@.len() <= MAX_PATH_STEPS && !has_each(steps@) && p@ == steps@,
                Err(PathError::Length(e)) => steps@.len() > MAX_PATH_STEPS && e
                    == CollectionError::LenOutOfRange { actual: steps@.len() as usize },
                Err(PathError::LensWithEach { index }) => steps@.len() <= MAX_PATH_STEPS
                    && first_each(steps@, index as int),
                Err(PathError::TraversalWithoutEach) => false,
            },
    {
        if steps.len() > MAX_PATH_STEPS {
            return Err(PathError::Length(CollectionError::LenOutOfRange { actual: steps.len() }));
        }
        match find_each(&steps) {
            Some(index) => Err(PathError::LensWithEach { index }),
            None => Ok(Path { steps, kind: PhantomData }),
        }
    }
}

impl Path<Traversal> {
    /// Validate `steps` as a traversal path: `Length` if there are more
    /// than `MAX_PATH_STEPS` steps, else `TraversalWithoutEach` if no
    /// step is `Each`.
    pub fn try_new(steps: Vec<PathStep>) -> (r: Result<Self, PathError>)
        ensures
            match r {
                Ok(p) => steps@.len() <= MAX_PATH_STEPS && has_each(steps@) && p@ == steps@,
                Err(PathError::Length(e)) => steps@.len() > MAX_PATH_STEPS && e
                    == CollectionError::LenOutOfRange { actual: steps@.len() as usize },
                Err(PathError::TraversalWithoutEach) => steps@.len() <= MAX_PATH_STEPS
                    && !has_each(steps@),
                Err(PathError::LensWithEach { .. }) => false,
            },
    {
        if steps.len() > MAX_PATH_STEPS {
            return Err(PathError::Length(CollectionError::LenOutOfRange { actual: steps.len() }));
        }
        match find_each(&steps) {
            None => Err(PathError::TraversalWithoutEach),
            Some(_) => Ok(Path { steps, kind: PhantomData }),
        }
    }
}

impl<K: Kind> Path<K> {
    #[verifier::type_invariant]
    spec fn inv(self) -> bool {
        &&& self.steps@.len() <= MAX_PATH_STEPS
        &&& K::admits(self.steps@)
    }

    /// Borrow the step sequence.
    pub fn steps(&self) -> (r: &[PathStep])
        ensures
            r@ == self@,
            r@.len() <= MAX_PATH_STEPS,
            K::admits(r@),
    {
        proof {
            use_type_invariant(self);
        }
        self.steps.as_slice()
    }

    /// Number of steps.
    pub fn len(&self) -> (r: usize)
        ensures
            r == self@.len(),
    {
        self.steps.len()
    }

    /// `true` iff the path has no steps (the identity path).
    pub fn is_empty(&self) -> (r: bool)
        ensures
            r == (self@.len() == 0),
    {
        self.steps.len() == 0
    }
}

} // verus!
