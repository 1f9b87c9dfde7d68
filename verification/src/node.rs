//! A node: one candidate point of the search space.
//!
//! A node is a vector of 32-bit values whose width is fixed when it is made
//! and is never zero. The library stores, copies and replaces the values and
//! never looks inside one: what a value means is the caller's business, and
//! so is the arithmetic that turns an old value into a new one.
//!
//! A mutation replaces exactly one value. Its two ingredients come from the
//! caller: `draw` is handed the node's width and returns an amount together
//! with a drawn index, and `perturb` is handed the value at the index that
//! the draw stands for, with the amount, and returns the new value. A drawn
//! index that lies past the end stands for the last index.

use crate::store::{array_clone, array_from_slice, array_get, array_len, array_set, array_words, WordArray};
use vstd::prelude::*;

verus! {

/// The values of a freshly made node of the given width: all zero.
pub open spec fn zeros(width: nat) -> Seq<u32> {
    Seq::new(width, |i: int| 0u32)
}

/// The index that a drawn index stands for among `len` values: itself when
/// it is in bounds, the last index otherwise.
pub open spec fn clamped(raw: int, len: int) -> int {
    if raw < len {
        raw
    } else {
        len - 1
    }
}

/// `after` has the width of `before` and agrees with it everywhere but,
/// possibly, at index `k`.
pub open spec fn differs_only_at(before: Seq<u32>, after: Seq<u32>, k: int) -> bool {
    &&& after.len() == before.len()
    &&& 0 <= k < before.len()
    &&& forall|j: int| 0 <= j < before.len() && j != k ==> after[j] == before[j]
}

/// `after` has the width of `before` and differs from it at one index at
/// most.
pub open spec fn differs_at_most_once(before: Seq<u32>, after: Seq<u32>) -> bool {
    exists|k: int| differs_only_at(before, after, k)
}

/// `draw` may be asked about a node of `width` values, and `perturb` about
/// every value with every amount.
pub open spec fn can_mutate<D: Fn(usize) -> (u32, usize), P: Fn(u32, u32) -> u32>(
    draw: &D,
    perturb: &P,
    width: nat,
) -> bool {
    &&& call_requires(*draw, (width as usize,))
    &&& forall|value: u32, amount: u32| call_requires(*perturb, (value, amount))
}

/// For a node that holds `values`, `draw` may return the index `raw` with
/// an amount from which `perturb` may make `value`.
pub open spec fn proposed<D: Fn(usize) -> (u32, usize), P: Fn(u32, u32) -> u32>(
    draw: &D,
    perturb: &P,
    values: Seq<u32>,
    raw: usize,
    value: u32,
) -> bool {
    exists|amount: u32|
        call_ensures(*draw, (values.len() as usize,), (amount, raw)) && call_ensures(
            *perturb,
            (values[clamped(raw as int, values.len() as int)], amount),
            value,
        )
}

/// One mutation by `draw` and `perturb` may turn `before` into `after`.
pub open spec fn mutation<D: Fn(usize) -> (u32, usize), P: Fn(u32, u32) -> u32>(
    draw: &D,
    perturb: &P,
    before: Seq<u32>,
    after: Seq<u32>,
) -> bool {
    exists|raw: usize, value: u32|
        proposed(draw, perturb, before, raw, value) && after == before.update(
            clamped(raw as int, before.len() as int),
            value,
        )
}

/// A fixed-width vector of values.
pub struct Node {
    words: WordArray,
}

impl View for Node {
    type V = Seq<u32>;

    closed spec fn view(&self) -> Seq<u32> {
        array_words(self.words)
    }
}

impl Clone for Node {
    /// An independent copy with the same values.
    fn clone(&self) -> (copy: Node)
        ensures
            copy@ == self@,
    {
        proof {
            use_type_invariant(self);
        }
        Node { words: array_clone(&self.words) }
    }
}

impl Node {
    /// Every node holds at least one value.
    #[verifier::type_invariant]
    pub open spec fn inv(&self) -> bool {
        self@.len() > 0
    }

    /// A node of `width` values, all zero.
    pub fn new(width: usize) -> (node: Node)
        requires
            width > 0,
        ensures
            node@ == zeros(width as nat),
    {
        let mut words: Vec<u32> = Vec::new();
        while words.len() < width
            invariant
                words.len() <= width,
                forall|i: int| 0 <= i < words.len() ==> words[i] == 0u32,
            decreases width - words.len(),
        {
            words.push(0u32);
        }
        Node { words: array_from_slice(words.as_slice()) }
    }

    /// The number of values, which is never zero.
    pub fn len(&self) -> (n: usize)
        ensures
            n == self@.len(),
            n > 0,
        no_unwind
    {
        proof {
            use_type_invariant(self);
        }
        array_len(&self.words)
    }

    /// The value at `index`, if there is one.
    pub fn get(&self, index: usize) -> (value: Option<u32>)
        ensures
            value == if index < self@.len() {
                Some(self@[index as int])
            } else {
                None
            },
    {
        if index < array_len(&self.words) {
            Some(array_get(&self.words, index))
        } else {
            None
        }
    }

    /// All the values, in order.
    pub fn values(&self) -> (values: Vec<u32>)
        ensures
            values@ == self@,
    {
        let len = array_len(&self.words);
        let mut values: Vec<u32> = Vec::new();
        while values.len() < len
            invariant
                len == self@.len(),
                values.len() <= len,
                forall|i: int| 0 <= i < values.len() ==> values[i] == self@[i],
            decreases len - values.len(),
        {
            values.push(array_get(&self.words, values.len()));
        }
        values
    }

    /// The index that the drawn index `raw` stands for in this node.
    pub fn target_index(&self, raw: usize) -> (index: usize)
        ensures
            index == clamped(raw as int, self@.len() as int),
            index < self@.len(),
        no_unwind
    {
        let len = self.len();
        if raw < len {
            raw
        } else {
            len - 1
        }
    }

    /// Replaces the value at the index that `raw` stands for by `value`, and
    /// leaves every other value as it is.
    pub fn mutate_at(&mut self, raw: usize, value: u32)
        ensures
            final(self)@ == old(self)@.update(clamped(raw as int, old(self)@.len() as int), value),
            final(self)@[clamped(raw as int, old(self)@.len() as int)] == value,
            differs_only_at(old(self)@, final(self)@, clamped(raw as int, old(self)@.len() as int)),
        no_unwind
    {
        let index = self.target_index(raw);
        array_set(&mut self.words, index, value);
    }

    /// Asks `draw` for an amount and an index, and `perturb` for the value
    /// that is to replace the one at the index that the draw stands for.
    /// Returns the drawn index and the new value; the node stays as it is.
    pub fn propose<D: Fn(usize) -> (u32, usize), P: Fn(u32, u32) -> u32>(
        &self,
        draw: &D,
        perturb: &P,
    ) -> (proposal: (usize, u32))
        requires
            can_mutate(draw, perturb, self@.len()),
        ensures
            proposed(draw, perturb, self@, proposal.0, proposal.1),
    {
        let (amount, raw) = draw(self.len());
        let index = self.target_index(raw);
        let value = perturb(array_get(&self.words, index), amount);
        (raw, value)
    }

    /// Mutates the node in place: one value is replaced by what `draw` and
    /// `perturb` propose for it, and every other value stays.
    pub fn mutate<D: Fn(usize) -> (u32, usize), P: Fn(u32, u32) -> u32>(
        &mut self,
        draw: &D,
        perturb: &P,
    )
        requires
            can_mutate(draw, perturb, old(self)@.len()),
        ensures
            mutation(draw, perturb, old(self)@, final(self)@),
            differs_at_most_once(old(self)@, final(self)@),
    {
        let (raw, value) = self.propose(draw, perturb);
        self.mutate_at(raw, value);
    }
}

} // verus!
