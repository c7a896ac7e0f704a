//! One axis of a variable.

use vstd::prelude::*;

verus! {

/// One axis of a variable: how long it is now, and whether it may grow.
///
/// The length of an unlimited dimension is the one that was current when
/// the value was made; a write past it is what makes the dimension grow.
#[derive(Debug, Clone, Copy, PartialEq, Eq)]
pub struct Dimension {
    /// The current length.
    pub len: usize,
    /// Whether a write may extend the dimension.
    pub unlimited: bool,
    /// The identifier by which the backend knows the dimension.
    pub id: i32,
}

impl Dimension {
    /// A dimension of fixed length.
    pub fn fixed(len: usize, id: i32) -> (d: Dimension)
        ensures
            d == (Dimension { len, unlimited: false, id }),
    {
        Dimension { len, unlimited: false, id }
    }

    /// An unlimited dimension whose length is `len` at the moment.
    pub fn unlimited(len: usize, id: i32) -> (d: Dimension)
        ensures
            d == (Dimension { len, unlimited: true, id }),
    {
        Dimension { len, unlimited: true, id }
    }

    /// The current length.
    pub fn len(&self) -> (n: usize)
        ensures
            n == self.len,
    {
        self.len
    }

    /// Whether the dimension may grow.
    pub fn is_unlimited(&self) -> (b: bool)
        ensures
            b == self.unlimited,
    {
        self.unlimited
    }
}

/// How many of the dimensions are unlimited.
pub open spec fn count_unlimited(dims: Seq<Dimension>) -> nat
    decreases dims.len(),
{
    if dims.len() == 0 {
        0
    } else {
        count_unlimited(dims.drop_last()) + if dims.last().unlimited {
            1nat
        } else {
            0nat
        }
    }
}

/// An unlimited dimension is counted.
pub proof fn lemma_count_unlimited_one(dims: Seq<Dimension>, a: int)
    requires
        0 <= a < dims.len(),
        dims[a].unlimited,
    ensures
        count_unlimited(dims) >= 1,
    decreases dims.len(),
{
    if a < dims.len() - 1 {
        lemma_count_unlimited_one(dims.drop_last(), a);
    }
}

/// Two unlimited dimensions are counted as two.
pub proof fn lemma_count_unlimited_two(dims: Seq<Dimension>, a: int, b: int)
    requires
        0 <= a < b < dims.len(),
        dims[a].unlimited,
        dims[b].unlimited,
    ensures
        count_unlimited(dims) >= 2,
    decreases dims.len(),
{
    if b < dims.len() - 1 {
        lemma_count_unlimited_two(dims.drop_last(), a, b);
    } else {
        lemma_count_unlimited_one(dims.drop_last(), a);
    }
}

/// The lengths of the dimensions, in order.
pub open spec fn lengths(dims: Seq<Dimension>) -> Seq<usize> {
    Seq::new(dims.len(), |k: int| dims[k].len)
}

} // verus!
