//! The extents that a request gets when it names none.
//!
//! An axis runs from its index to the end of its dimension. The one
//! exception is a write that starts at or past the current length of an
//! unlimited dimension: that is the open axis, and its extent is whatever
//! the buffer's length leaves, the length divided by the product of the
//! other extents. A write that starts below the current length of an
//! unlimited dimension, and any read, finds an axis like the others.

use crate::dimension::{count_unlimited, lemma_count_unlimited_two, Dimension};
use crate::error::Error;
use crate::product::product;
use vstd::prelude::*;

verus! {

/// Whether `d` is the axis whose extent the buffer decides: an unlimited
/// dimension that a write enters at its current length or past it.
pub open spec fn is_open(d: Dimension, index: usize, putting: bool) -> bool {
    putting && d.unlimited && index >= d.len
}

/// Whether any axis is open.
pub open spec fn has_open(dims: Seq<Dimension>, indices: Seq<usize>, putting: bool) -> bool {
    exists|k: int| 0 <= k < dims.len() && is_open(#[trigger] dims[k], indices[k], putting)
}

/// Whether a region that starts at `index` has a cell of `d` to hold.
pub open spec fn has_room(d: Dimension, index: usize, putting: bool) -> bool {
    is_open(d, index, putting) || index < d.len
}

/// Where at most one dimension is unlimited, no axis is open beside the
/// open one.
pub proof fn lemma_open_axis_is_alone(
    dims: Seq<Dimension>,
    indices: Seq<usize>,
    putting: bool,
    pos: int,
)
    requires
        count_unlimited(dims) <= 1,
        0 <= pos < dims.len(),
        is_open(dims[pos], indices[pos], putting),
    ensures
        forall|j: int|
            0 <= j < dims.len() && j != pos ==> !is_open(#[trigger] dims[j], indices[j], putting),
{
    assert forall|j: int| 0 <= j < dims.len() && j != pos implies !is_open(
        #[trigger] dims[j],
        indices[j],
        putting,
    ) by {
        if dims[j].unlimited {
            if j < pos {
                lemma_count_unlimited_two(dims, j, pos);
            } else {
                lemma_count_unlimited_two(dims, pos, j);
            }
        }
    }
}

/// The cells of `d` from `index` to its end.
pub open spec fn remaining(d: Dimension, index: usize) -> usize {
    (d.len - index) as usize
}

/// The extents of the axes that are not open, with a one in the place of
/// the open axis.
pub open spec fn fixed_extents(dims: Seq<Dimension>, indices: Seq<usize>, putting: bool) -> Seq<
    usize,
> {
    Seq::new(
        dims.len(),
        |k: int|
            if is_open(dims[k], indices[k], putting) {
                1usize
            } else {
                remaining(dims[k], indices[k])
            },
    )
}

/// The extent of the open axis for a buffer of `total` elements.
pub open spec fn open_extent(
    dims: Seq<Dimension>,
    total: usize,
    indices: Seq<usize>,
    putting: bool,
) -> usize {
    (total as nat / product(fixed_extents(dims, indices, putting))) as usize
}

/// The extents of all axes for a buffer of `total` elements.
pub open spec fn inferred_extents(
    dims: Seq<Dimension>,
    total: usize,
    indices: Seq<usize>,
    putting: bool,
) -> Seq<usize> {
    Seq::new(
        dims.len(),
        |k: int|
            if is_open(dims[k], indices[k], putting) {
                open_extent(dims, total, indices, putting)
            } else {
                remaining(dims[k], indices[k])
            },
    )
}

/// The extents that a request without extents gets, or why it gets none.
///
/// With more than one unlimited dimension there is no telling which one
/// the buffer should fill. A product that reaches `usize::MAX` counts as
/// overflow. `BufferLen` carries the buffer's length first and the product
/// of the inferred extents second.
pub open spec fn default_extents_verdict(
    dims: Seq<Dimension>,
    total: usize,
    indices: Seq<usize>,
    putting: bool,
) -> Result<Seq<usize>, Error> {
    let extents = inferred_extents(dims, total, indices, putting);
    if count_unlimited(dims) > 1 {
        Err(Error::Ambiguous)
    } else if !(forall|k: int| 0 <= k < dims.len() ==> has_room(dims[k], indices[k], putting)) {
        Err(Error::SliceMismatch)
    } else if has_open(dims, indices, putting) && product(fixed_extents(dims, indices, putting))
        >= usize::MAX {
        Err(Error::Overflow)
    } else if product(extents) >= usize::MAX {
        Err(Error::Overflow)
    } else if total != product(extents) {
        Err(Error::BufferLen(total, product(extents) as usize))
    } else {
        Ok(extents)
    }
}

} // verus!
