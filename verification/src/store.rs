//! The boundary to `ndarray`: the one-dimensional owned array that holds a
//! node's values, and the few operations the library performs on it.
//!
//! Nothing in this file is proved. Each contract restates what the `ndarray`
//! sources show of the function that the body calls.

use ndarray::Array1;
use vstd::prelude::*;

verus! {

/// An `ndarray::Array1` of 32-bit words.
///
/// `ndarray` defines its array type under a bound by one of its own traits,
/// which the verifier cannot be told of, so the array is kept inside this
/// struct and the verifier sees none of it. What the array holds is spoken
/// of through [`array_words`].
#[verifier::external_body]
pub struct WordArray {
    inner: Array1<u32>,
}

/// The elements of the array, in index order.
pub uninterp spec fn array_words(a: WordArray) -> Seq<u32>;

/// `ndarray::arr1`: a new array that holds a copy of the slice's elements,
/// in the slice's order. The length check that `ndarray` makes on the way
/// applies to elements of size zero only.
#[verifier::external_body]
pub(crate) fn array_from_slice(words: &[u32]) -> (a: WordArray)
    ensures
        array_words(a) == words@,
{
    WordArray { inner: ndarray::arr1(words) }
}

/// `ArrayBase::len`: the number of elements. It reads the array's one
/// dimension and cannot panic.
#[verifier::external_body]
pub(crate) fn array_len(a: &WordArray) -> (n: usize)
    ensures
        n == array_words(*a).len(),
    no_unwind
{
    a.inner.len()
}

/// `Index<usize>` of a one-dimensional array: the element at `i`. Indexing
/// panics out of bounds, so the index is required to be in bounds.
#[verifier::external_body]
pub(crate) fn array_get(a: &WordArray, i: usize) -> (w: u32)
    requires
        i < array_words(*a).len(),
    ensures
        w == array_words(*a)[i as int],
{
    a.inner[i]
}

/// `IndexMut<usize>` of a one-dimensional array: the element at `i` is
/// replaced and every other element stays. Indexing panics out of bounds
/// and nowhere else, so the index is required to be in bounds.
#[verifier::external_body]
pub(crate) fn array_set(a: &mut WordArray, i: usize, w: u32)
    requires
        i < array_words(*old(a)).len(),
    ensures
        array_words(*final(a)) == array_words(*old(a)).update(i as int, w),
    no_unwind
{
    a.inner[i] = w;
}

/// `Clone` of an owned array: a new array with the same elements in the same
/// order.
#[verifier::external_body]
pub(crate) fn array_clone(a: &WordArray) -> (b: WordArray)
    ensures
        array_words(b) == array_words(*a),
{
    WordArray { inner: a.inner.clone() }
}

} // verus!
