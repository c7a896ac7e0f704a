//! Regions that skip cells: one signed stride per axis.
//!
//! A region of `count` cells from `start` with stride `stride` touches the
//! offsets `start`, `start + stride`, and so on up to
//! `start + (count - 1) * stride`; the step after that would land on
//! `start + count * stride`. None of them may lie before the origin, and
//! only a write to an unlimited dimension may reach past the current length.

use crate::bounds::first_fault;
use crate::dimension::Dimension;
use crate::error::Error;
use crate::product::product;
use vstd::prelude::*;

verus! {

/// The offset of the last cell that the region touches.
pub open spec fn last_offset(start: usize, count: usize, stride: isize) -> int {
    start + (count - 1) * stride
}

/// The offset on which the step after the last cell would land.
pub open spec fn next_offset(start: usize, count: usize, stride: isize) -> int {
    start + count * stride
}

/// What is wrong with a strided region on `d`.
///
/// A stride of zero stays on one cell, so it goes with an extent of one
/// only.
pub open spec fn stride_fault(
    d: Dimension,
    start: usize,
    count: usize,
    stride: isize,
    putting: bool,
) -> Option<Error> {
    if stride == 0 && count != 1 {
        Some(Error::StrideError)
    } else if count == 0 {
        Some(Error::ZeroSlice)
    } else if last_offset(start, count, stride) < 0 || next_offset(start, count, stride) < 0 {
        Some(Error::IndexMismatch)
    } else if last_offset(start, count, stride) > d.len && !(putting && d.unlimited) {
        Some(Error::IndexMismatch)
    } else {
        None
    }
}

/// The verdict of `stride_fault` on each axis.
pub open spec fn stride_faults(
    dims: Seq<Dimension>,
    indices: Seq<usize>,
    extents: Seq<usize>,
    strides: Seq<isize>,
    putting: bool,
) -> Seq<Option<Error>> {
    Seq::new(
        dims.len(),
        |k: int| stride_fault(dims[k], indices[k], extents[k], strides[k], putting),
    )
}

/// The extent that an axis gets when the request names none.
///
/// With a positive stride it is the number of steps that fit between
/// `start` and the end of the dimension, rounded up. A stride of zero
/// stays on one cell. For a negative stride nothing tells how far towards
/// the origin the caller means to go, so the extent is one: whoever wants
/// more names the extents.
pub open spec fn strided_extent(d: Dimension, start: usize, stride: isize) -> usize {
    if stride <= 0 {
        1
    } else if start >= d.len {
        0
    } else {
        ((d.len - start + stride - 1) / (stride as int)) as usize
    }
}

/// The extent of each axis when the request names none.
pub open spec fn strided_extents(dims: Seq<Dimension>, indices: Seq<usize>, strides: Seq<isize>) -> Seq<
    usize,
> {
    Seq::new(dims.len(), |k: int| strided_extent(dims[k], indices[k], strides[k]))
}

/// The extents of a strided request, named or inferred, or the fault of
/// the first axis that has one. Named extents of another number than
/// dimensions are a slice mismatch.
pub open spec fn strided_extents_verdict(
    dims: Seq<Dimension>,
    indices: Seq<usize>,
    extents: Option<Seq<usize>>,
    strides: Seq<isize>,
    putting: bool,
) -> Result<Seq<usize>, Error> {
    let resolved = match extents {
        Some(named) => named,
        None => strided_extents(dims, indices, strides),
    };
    if resolved.len() != dims.len() {
        Err(Error::SliceMismatch)
    } else if let Some(e) = first_fault(stride_faults(dims, indices, resolved, strides, putting)) {
        Err(e)
    } else {
        Ok(resolved)
    }
}

/// How many elements a strided region of `extents` moves, for a buffer of
/// `buffer_len` elements.
///
/// The buffer may be longer than the region. A product that reaches
/// `usize::MAX` counts as overflow.
pub open spec fn strided_count_verdict(buffer_len: usize, extents: Seq<usize>) -> Result<
    usize,
    Error,
> {
    if product(extents) >= usize::MAX {
        Err(Error::Overflow)
    } else if buffer_len < product(extents) {
        Err(Error::InsufficientBuffer)
    } else {
        Ok(product(extents) as usize)
    }
}

/// The size of a negative stride.
fn magnitude(stride: isize) -> (m: usize)
    requires
        stride < 0,
    ensures
        m == -stride,
{
    let below: isize = -(stride + 1);
    let m: usize = below as usize;
    m + 1
}

/// Whether `a * s <= room`, decided without forming the product.
fn steps_fit(a: usize, s: usize, room: usize) -> (b: bool)
    requires
        s > 0,
    ensures
        b == (a * s <= room),
{
    let q = room / s;
    assert((a <= q) == (a * s <= room)) by (nonlinear_arith)
        requires
            s > 0,
            q == room / s,
    ;
    a <= q
}

/// Examines one axis of a strided region.
pub fn check_stride(d: &Dimension, start: usize, count: usize, stride: isize, putting: bool) -> (r:
    Option<Error>)
    ensures
        r == stride_fault(*d, start, count, stride, putting),
{
    if stride == 0 && count != 1 {
        return Some(Error::StrideError);
    }
    if count == 0 {
        return Some(Error::ZeroSlice);
    }
    let open = putting && d.is_unlimited();
    let steps = count - 1;
    if stride == 0 {
        assert(last_offset(start, count, stride) == start && next_offset(start, count, stride)
            == start) by (nonlinear_arith)
            requires
                stride == 0,
        ;
        if !open && start > d.len() {
            Some(Error::IndexMismatch)
        } else {
            None
        }
    } else if stride > 0 {
        let s = stride as usize;
        assert(last_offset(start, count, stride) >= start && next_offset(start, count, stride)
            >= 0) by (nonlinear_arith)
            requires
                stride > 0,
                count >= 1,
        ;
        if open {
            None
        } else if start > d.len() {
            Some(Error::IndexMismatch)
        } else if steps_fit(steps, s, d.len() - start) {
            None
        } else {
            Some(Error::IndexMismatch)
        }
    } else {
        let m = magnitude(stride);
        assert(last_offset(start, count, stride) == start - steps * m && next_offset(
            start,
            count,
            stride,
        ) == start - count * m && start - steps * m <= start && start - count * m <= start - steps
            * m) by (nonlinear_arith)
            requires
                m == -stride,
                m > 0,
                steps == count - 1,
                count >= 1,
        ;
        if !steps_fit(count, m, start) {
            Some(Error::IndexMismatch)
        } else if open || start <= d.len() {
            None
        } else if steps_fit(steps, m, start - d.len() - 1) {
            Some(Error::IndexMismatch)
        } else {
            None
        }
    }
}

/// The extent of one axis when the request names none.
pub fn default_stride_extent(d: &Dimension, start: usize, stride: isize) -> (n: usize)
    ensures
        n == strided_extent(*d, start, stride),
{
    if stride <= 0 {
        1
    } else if start >= d.len() {
        0
    } else {
        let room = d.len() - start;
        let s = stride as usize;
        let n = (room - 1) / s + 1;
        assert(n == (room + s - 1) / (s as int)) by {
            vstd::arithmetic::div_mod::lemma_div_plus_one(room - 1, s as int);
        }
        n
    }
}

} // verus!
