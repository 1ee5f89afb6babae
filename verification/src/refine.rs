//! Shared refinement vocabulary: the numeric and collection error
//! types, and the duplicate-key scan used by every name-unique
//! collection in the crate.
use vstd::prelude::*;

verus! {

/// A bounded number fell outside its admissible range.
#[derive(Debug, Clone, Copy, PartialEq, Eq)]
pub enum NumericError {
    /// The offending value.
    OutOfRange {
        /// Observed value.
        value: i128,
    },
}

/// A bounded collection failed its length or uniqueness rule.
#[derive(Debug, Clone, Copy, PartialEq, Eq)]
pub enum CollectionError {
    /// The item count fell outside the admissible range.
    LenOutOfRange {
        /// Observed item count.
        actual: usize,
    },
    /// Two items shared a key; `index` is the second occurrence.
    DuplicateKey {
        /// Position of the duplicate (the second occurrence).
        index: usize,
    },
}

/// `true` iff some key before position `j` equals the key at `j`.
pub open spec fn dup_before(keys: Seq<Seq<char>>, j: int) -> bool {
    exists|i: int| 0 <= i < j && #[trigger] keys[i] == keys[j]
}

/// `true` iff the keys are pairwise distinct.
pub open spec fn keys_unique(keys: Seq<Seq<char>>) -> bool {
    forall|i: int, j: int| 0 <= i < keys.len() && 0 <= j < keys.len() && i != j ==> keys[i] != keys[j]
}

/// The position of the first item whose key already occurred
/// earlier, if there is one.
pub open spec fn is_first_dup(keys: Seq<Seq<char>>, j: int) -> bool {
    &&& 0 <= j < keys.len()
    &&& dup_before(keys, j)
    &&& keys_unique(keys.take(j))
}

/// The position of the first repeated key (meaningful when the keys
/// are not pairwise distinct).
pub open spec fn first_dup(keys: Seq<Seq<char>>) -> int {
    choose|j: int| is_first_dup(keys, j)
}

/// At most one position is the first repeated key, and a repeated key
/// means the keys are not distinct.
pub proof fn lemma_first_dup_unique(keys: Seq<Seq<char>>, j: int)
    requires
        is_first_dup(keys, j),
    ensures
        first_dup(keys) == j,
        !keys_unique(keys),
{
    let k = first_dup(keys);
    assert(is_first_dup(keys, k));
    if k < j {
        let i = choose|i: int| 0 <= i < k && #[trigger] keys[i] == keys[k];
        assert(keys.take(j)[i] == keys.take(j)[k]);
    } else if j < k {
        let i = choose|i: int| 0 <= i < j && #[trigger] keys[i] == keys[j];
        assert(keys.take(k)[i] == keys.take(k)[j]);
    }
    let i = choose|i: int| 0 <= i < j && #[trigger] keys[i] == keys[j];
    assert(keys[i] == keys[j]);
}

/// An item that carries an attribute-name key.
pub trait NameKeyed {
    /// The key, as characters.
    spec fn key_view(&self) -> Seq<char>;

    /// Borrow the key.
    fn key(&self) -> (k: &crate::identifier::AttributeName)
        ensures
            k@ == self.key_view(),
    ;
}

/// The keys of a sequence of keyed items.
pub open spec fn keys_of<T: NameKeyed>(items: Seq<T>) -> Seq<Seq<char>> {
    Seq::new(items.len(), |i: int| items[i].key_view())
}

/// Scan for the first item whose key already occurred earlier.
pub fn first_duplicate<T: NameKeyed>(items: &Vec<T>) -> (r: Option<usize>)
    ensures
        match r {
            None => keys_unique(keys_of(items@)),
            Some(j) => is_first_dup(keys_of(items@), j as int),
        },
{
    let ghost keys = keys_of(items@);
    let n = items.len();
    let mut j: usize = 0;
    while j < n
        invariant
            n == items@.len(),
            keys == keys_of(items@),
            j <= n,
            keys_unique(keys.take(j as int)),
        decreases n - j,
    {
        let kj = items[j].key();
        let mut i: usize = 0;
        while i < j
            invariant
                n == items@.len(),
                keys == keys_of(items@),
                j < n,
                i <= j,
                kj@ == keys[j as int],
                keys_unique(keys.take(j as int)),
                forall|k: int| 0 <= k < i ==> keys[k] != keys[j as int],
            decreases j - i,
        {
            let ki = items[i].key();
            if ki.equals(kj) {
                assert(keys[i as int] == keys[j as int]);
                assert(keys_unique(keys.take(j as int)));
                assert(dup_before(keys, j as int));
                return Some(j);
            }
            i = i + 1;
        }
        assert(keys_unique(keys.take(j + 1))) by {
            let t = keys.take(j + 1);
            assert forall|a: int, b: int|
                0 <= a < t.len() && 0 <= b < t.len() && a != b implies #[trigger] t[a] != #[trigger] t[b] by {
                if a < j && b < j {
                    assert(keys.take(j as int)[a] == keys[a]);
                    assert(keys.take(j as int)[b] == keys[b]);
                }
            }
        }
        j = j + 1;
    }
    assert(keys.take(n as int) =~= keys);
    None
}

/// Clone every item of a vector, for item types whose clone is equal
/// to the original.
pub fn clone_all<T: Clone>(v: &Vec<T>) -> (r: Vec<T>)
    requires
        forall|a: T, b: T| #[trigger] cloned::<T>(a, b) ==> a == b,
    ensures
        r@ == v@,
{
    let mut out: Vec<T> = Vec::new();
    let mut i: usize = 0;
    while i < v.len()
        invariant
            i <= v@.len(),
            out@ == v@.take(i as int),
            forall|a: T, b: T| #[trigger] cloned::<T>(a, b) ==> a == b,
        decreases v@.len() - i,
    {
        let c = v[i].clone();
        proof {
            assert(cloned::<T>(v@[i as int], c));
        }
        out.push(c);
        proof {
            assert(out@ =~= v@.take(i + 1));
        }
        i = i + 1;
    }
    proof {
        assert(v@.take(v@.len() as int) =~= v@);
    }
    out
}

} // verus!
