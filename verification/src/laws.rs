//! What holds of every request, whatever the dimensions.

use crate::bounds::{
    extent_fault, extent_faults, extents_verdict, first_fault, indices_verdict,
    lemma_first_fault_is, lemma_first_fault_none,
};
use crate::dimension::{count_unlimited, lemma_count_unlimited_two, Dimension};
use crate::error::Error;
use crate::hyperslab::Region;
use crate::infer::{
    default_extents_verdict, fixed_extents, has_open, has_room, inferred_extents, is_open,
    lemma_open_axis_is_alone, open_extent,
};
use crate::product::{lemma_product_positive, lemma_product_update, product};
use crate::resolve::{
    array_verdict, region_verdict, start_verdict, strided_from, strided_get_verdict,
    strided_put_verdict,
};
use crate::strided::{stride_fault, stride_faults, strided_count_verdict};
use vstd::prelude::*;

verus! {

/// Extents that pass the check at legal indices make a region that is
/// well formed and lies within the dimensions.
pub proof fn lemma_checked_extents_fit(
    dims: Seq<Dimension>,
    total: usize,
    start: Seq<usize>,
    extents: Seq<usize>,
    putting: bool,
)
    requires
        indices_verdict(dims, start, putting) is Ok,
        extents_verdict(dims, total, start, extents, putting) is Ok,
    ensures
        (Region { start, extent: extents, stride: None, total_elements: total }).legal(
            dims,
            putting,
        ),
{
    let faults = extent_faults(dims, start, extents, putting);
    lemma_first_fault_none(faults);
    assert forall|k: int| 0 <= k < dims.len() implies extent_fault(
        dims[k],
        start[k],
        extents[k],
        putting,
    ) is None by {
        assert(faults[k] is None);
    }
}

/// A resolved region is well formed and lies within the dimensions.
pub proof fn lemma_region_fits(
    dims: Seq<Dimension>,
    total: usize,
    indices: Option<Seq<usize>>,
    extents: Option<Seq<usize>>,
    putting: bool,
)
    ensures
        region_verdict(dims, total, indices, extents, putting) matches Ok(h) ==> h.legal(
            dims,
            putting,
        ),
{
    if let Ok(h) = region_verdict(dims, total, indices, extents, putting) {
        lemma_checked_extents_fit(dims, total, h.start, h.extent, putting);
    }
}

/// A region resolved for a buffer made to measure is well formed and lies
/// within the dimensions.
pub proof fn lemma_array_region_fits(
    dims: Seq<Dimension>,
    indices: Option<Seq<usize>>,
    extents: Option<Seq<usize>>,
)
    ensures
        array_verdict(dims, indices, extents) matches Ok(h) ==> h.legal(dims, false),
{
    if let Ok(h) = array_verdict(dims, indices, extents) {
        lemma_checked_extents_fit(dims, h.total_elements, h.start, h.extent, false);
    }
}

/// A resolved strided region is well formed, lies within the dimensions
/// and moves no more elements than the buffer holds.
pub proof fn lemma_strided_region_fits(
    dims: Seq<Dimension>,
    buffer_len: usize,
    start: Seq<usize>,
    extents: Option<Seq<usize>>,
    strides: Seq<isize>,
    putting: bool,
)
    requires
        strides.len() == dims.len(),
        indices_verdict(dims, start, putting) is Ok,
    ensures
        strided_from(dims, buffer_len, start, extents, strides, putting) matches Ok(h) ==> h.legal(
            dims,
            putting,
        ) && h.total_elements <= buffer_len,
{
    if let Ok(h) = strided_from(dims, buffer_len, start, extents, strides, putting) {
        lemma_first_fault_none(stride_faults(dims, start, h.extent, strides, putting));
        assert forall|k: int| 0 <= k < dims.len() implies stride_fault(
            dims[k],
            start[k],
            h.extent[k],
            strides[k],
            putting,
        ) is None by {
            assert(stride_faults(dims, start, h.extent, strides, putting)[k] is None);
        }
    }
}

/// Extents with a zero entry are refused as an empty slice, in either
/// direction, unless an axis before the zero is refused for another
/// reason.
pub proof fn lemma_zero_extent_is_refused(
    dims: Seq<Dimension>,
    total: usize,
    indices: Seq<usize>,
    extents: Seq<usize>,
    putting: bool,
    k: int,
)
    requires
        extents.len() == dims.len(),
        0 <= k < dims.len(),
        extents[k] == 0,
        forall|j: int|
            0 <= j < k ==> extents[j] == 0 || extent_fault(
                dims[j],
                indices[j],
                extents[j],
                putting,
            ) is None,
    ensures
        extents_verdict(dims, total, indices, extents, putting) == Err::<(), Error>(
            Error::ZeroSlice,
        ),
{
    lemma_first_fault_is(extent_faults(dims, indices, extents, putting), k, Error::ZeroSlice);
}

/// Under a stride that is not zero, an extent of zero is refused as an
/// empty slice, in either direction, unless an axis before it is refused
/// for another reason.
pub proof fn lemma_zero_extent_under_stride_is_refused(
    dims: Seq<Dimension>,
    buffer_len: usize,
    start: Seq<usize>,
    extents: Seq<usize>,
    strides: Seq<isize>,
    putting: bool,
    k: int,
)
    requires
        extents.len() == dims.len(),
        0 <= k < dims.len(),
        extents[k] == 0,
        strides[k] != 0,
        forall|j: int|
            0 <= j < k ==> (extents[j] == 0 && strides[j] != 0) || stride_fault(
                dims[j],
                start[j],
                extents[j],
                strides[j],
                putting,
            ) is None,
    ensures
        strided_from(dims, buffer_len, start, Some(extents), strides, putting) == Err::<
            Region,
            Error,
        >(Error::ZeroSlice),
{
    lemma_first_fault_is(
        stride_faults(dims, start, extents, strides, putting),
        k,
        Error::ZeroSlice,
    );
}

/// A stride of zero with an extent other than one is refused as a stride
/// error, unless an axis before it is refused for another reason.
pub proof fn lemma_zero_stride_is_refused(
    dims: Seq<Dimension>,
    buffer_len: usize,
    start: Seq<usize>,
    extents: Seq<usize>,
    strides: Seq<isize>,
    putting: bool,
    k: int,
)
    requires
        extents.len() == dims.len(),
        0 <= k < dims.len(),
        strides[k] == 0,
        extents[k] != 1,
        forall|j: int|
            0 <= j < k ==> (strides[j] == 0 && extents[j] != 1) || stride_fault(
                dims[j],
                start[j],
                extents[j],
                strides[j],
                putting,
            ) is None,
    ensures
        strided_from(dims, buffer_len, start, Some(extents), strides, putting) == Err::<
            Region,
            Error,
        >(Error::StrideError),
{
    lemma_first_fault_is(
        stride_faults(dims, start, extents, strides, putting),
        k,
        Error::StrideError,
    );
}

/// The same of a whole strided read: with one stride per dimension and
/// legal indices, a stride of zero with an extent other than one is
/// refused as a stride error.
pub proof fn lemma_zero_stride_get_is_refused(
    dims: Seq<Dimension>,
    buffer_len: usize,
    indices: Option<Seq<usize>>,
    extents: Seq<usize>,
    strides: Seq<isize>,
    k: int,
)
    requires
        strides.len() == dims.len(),
        extents.len() == dims.len(),
        start_verdict(dims, indices, false) is Ok,
        0 <= k < dims.len(),
        strides[k] == 0,
        extents[k] != 1,
        forall|j: int|
            0 <= j < k ==> (strides[j] == 0 && extents[j] != 1) || stride_fault(
                dims[j],
                start_verdict(dims, indices, false)->Ok_0[j],
                extents[j],
                strides[j],
                false,
            ) is None,
    ensures
        strided_get_verdict(dims, buffer_len, indices, Some(extents), strides) == Err::<
            Region,
            Error,
        >(Error::StrideError),
{
    let start = start_verdict(dims, indices, false)->Ok_0;
    lemma_zero_stride_is_refused(dims, buffer_len, start, extents, strides, false, k);
}

/// The same of a whole strided write.
pub proof fn lemma_zero_stride_put_is_refused(
    dims: Seq<Dimension>,
    buffer_len: usize,
    indices: Option<Seq<usize>>,
    extents: Seq<usize>,
    strides: Seq<isize>,
    k: int,
)
    requires
        strides.len() == dims.len(),
        extents.len() == dims.len(),
        start_verdict(dims, indices, true) is Ok,
        0 <= k < dims.len(),
        strides[k] == 0,
        extents[k] != 1,
        forall|j: int|
            0 <= j < k ==> (strides[j] == 0 && extents[j] != 1) || stride_fault(
                dims[j],
                start_verdict(dims, indices, true)->Ok_0[j],
                extents[j],
                strides[j],
                true,
            ) is None,
    ensures
        strided_put_verdict(dims, buffer_len, indices, Some(extents), strides) == Err::<
            Region,
            Error,
        >(Error::StrideError),
{
    let start = start_verdict(dims, indices, true)->Ok_0;
    lemma_zero_stride_is_refused(dims, buffer_len, start, extents, strides, true, k);
}

/// Extents whose product does not fit a `usize` are refused as overflow,
/// unless an axis is refused for another reason first.
pub proof fn lemma_product_overflow_is_refused(
    dims: Seq<Dimension>,
    total: usize,
    indices: Seq<usize>,
    extents: Seq<usize>,
    putting: bool,
)
    requires
        extents.len() == dims.len(),
        product(extents) > usize::MAX,
        first_fault(extent_faults(dims, indices, extents, putting)) matches Some(e) ==> e
            == Error::Overflow,
    ensures
        extents_verdict(dims, total, indices, extents, putting) == Err::<(), Error>(
            Error::Overflow,
        ),
{
}

/// The same of a strided region and of a request that brings no buffer:
/// a product that does not fit a `usize` is overflow, whatever the buffer.
pub proof fn lemma_count_overflow_is_refused(
    dims: Seq<Dimension>,
    buffer_len: usize,
    indices: Option<Seq<usize>>,
    extents: Seq<usize>,
)
    requires
        product(extents) > usize::MAX,
    ensures
        strided_count_verdict(buffer_len, extents) == Err::<usize, Error>(Error::Overflow),
        start_verdict(dims, indices, false) is Ok ==> array_verdict(dims, indices, Some(extents))
            == Err::<Region, Error>(Error::Overflow),
{
}

/// With two unlimited dimensions no extents are inferred: the request is
/// ambiguous, in either direction and whatever the buffer.
pub proof fn lemma_two_unlimited_is_ambiguous(
    dims: Seq<Dimension>,
    total: usize,
    start: Seq<usize>,
    putting: bool,
    a: int,
    b: int,
)
    requires
        0 <= a < b < dims.len(),
        dims[a].unlimited,
        dims[b].unlimited,
    ensures
        default_extents_verdict(dims, total, start, putting) == Err::<Seq<usize>, Error>(
            Error::Ambiguous,
        ),
{
    lemma_count_unlimited_two(dims, a, b);
}

/// The same of a whole request that names no extents, once its indices
/// are legal.
pub proof fn lemma_two_unlimited_region_is_ambiguous(
    dims: Seq<Dimension>,
    total: usize,
    indices: Option<Seq<usize>>,
    putting: bool,
    a: int,
    b: int,
)
    requires
        0 <= a < b < dims.len(),
        dims[a].unlimited,
        dims[b].unlimited,
        start_verdict(dims, indices, putting) is Ok,
    ensures
        region_verdict(dims, total, indices, None, putting) == Err::<Region, Error>(
            Error::Ambiguous,
        ),
{
    lemma_count_unlimited_two(dims, a, b);
}

/// Where at most one dimension is unlimited, a buffer as long as the
/// product of the cells that remain on each axis gets exactly those
/// extents.
///
/// `extents` holds, for every axis that is not open, the cells from the
/// index to the end of the dimension, of which there is at least one; on
/// the open axis it holds any number. The products have to lie below
/// `usize::MAX`.
pub proof fn lemma_default_extents_fill_buffer(
    dims: Seq<Dimension>,
    indices: Seq<usize>,
    extents: Seq<usize>,
    putting: bool,
)
    requires
        count_unlimited(dims) <= 1,
        indices.len() == dims.len(),
        extents.len() == dims.len(),
        forall|k: int|
            #![trigger dims[k]]
            0 <= k < dims.len() && !is_open(dims[k], indices[k], putting) ==> indices[k]
                < dims[k].len && extents[k] == dims[k].len - indices[k],
        product(extents) < usize::MAX,
        product(fixed_extents(dims, indices, putting)) < usize::MAX,
    ensures
        default_extents_verdict(dims, product(extents) as usize, indices, putting) == Ok::<
            Seq<usize>,
            Error,
        >(extents),
{
    let total = product(extents) as usize;
    let fixed = fixed_extents(dims, indices, putting);
    let inferred = inferred_extents(dims, total, indices, putting);
    assert forall|k: int| 0 <= k < fixed.len() implies fixed[k] != 0 by {
        assert(is_open(dims[k], indices[k], putting) || indices[k] < dims[k].len);
    }
    lemma_product_positive(fixed);
    assert forall|k: int| 0 <= k < dims.len() implies has_room(dims[k], indices[k], putting) by {
        assert(is_open(dims[k], indices[k], putting) || indices[k] < dims[k].len);
    }
    if has_open(dims, indices, putting) {
        let pos = choose|k: int|
            0 <= k < dims.len() && is_open(#[trigger] dims[k], indices[k], putting);
        lemma_open_axis_is_alone(dims, indices, putting, pos);
        assert(extents =~= fixed.update(pos, extents[pos]));
        lemma_product_update(fixed, pos, extents[pos]);
        let f = product(fixed);
        let e = extents[pos] as nat;
        assert((f * e) / f == e) by (nonlinear_arith)
            requires
                f >= 1,
        ;
        assert(open_extent(dims, total, indices, putting) == extents[pos]);
        assert(inferred =~= extents);
    } else {
        assert(inferred =~= extents);
    }
}

/// A region that can be read can be written back: with the same indices,
/// extents and buffer length, the write resolves to the region that the
/// read resolved to.
pub proof fn lemma_read_region_is_write_region(
    dims: Seq<Dimension>,
    total: usize,
    indices: Option<Seq<usize>>,
    extents: Option<Seq<usize>>,
)
    requires
        region_verdict(dims, total, indices, extents, false) is Ok,
    ensures
        region_verdict(dims, total, indices, extents, true) == region_verdict(
            dims,
            total,
            indices,
            extents,
            false,
        ),
{
    let h = region_verdict(dims, total, indices, extents, false)->Ok_0;
    let start = h.start;
    assert(start_verdict(dims, indices, true) == Ok::<Seq<usize>, Error>(start));
    let read_faults = extent_faults(dims, start, h.extent, false);
    let write_faults = extent_faults(dims, start, h.extent, true);
    lemma_first_fault_none(read_faults);
    assert forall|k: int| 0 <= k < write_faults.len() implies write_faults[k] is None by {
        assert(read_faults[k] is None);
    }
    lemma_first_fault_none(write_faults);
    assert(extents_verdict(dims, total, start, h.extent, true) is Ok);
    if extents is None {
        assert forall|k: int| 0 <= k < dims.len() implies !is_open(
            #[trigger] dims[k],
            start[k],
            true,
        ) && h.extent[k] == dims[k].len - start[k] by {
            assert(has_room(dims[k], start[k], false));
        }
        assert(fixed_extents(dims, start, true) =~= h.extent);
        lemma_default_extents_fill_buffer(dims, start, h.extent, true);
    }
}

} // verus!
