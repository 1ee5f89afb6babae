//! The sealed supertrait of `Kind`: only this crate can name it, so no
//! third optic kind can be introduced downstream.
use vstd::prelude::*;

verus! {

/// Sealed marker; implemented only for `Lens` and `Traversal`.
pub trait Kind {}

} // verus!
