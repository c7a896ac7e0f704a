//! What it means for indices and extents to be legal for a list of
//! dimensions.
//!
//! An axis is examined on its own, and the axes are examined in order: the
//! verdict on a request is the fault of the first axis that has one.

use crate::dimension::Dimension;
use crate::error::Error;
use crate::product::product;
use vstd::prelude::*;

verus! {

/// The first fault in a list of per-axis verdicts, if there is any.
pub open spec fn first_fault(faults: Seq<Option<Error>>) -> Option<Error>
    decreases faults.len(),
{
    if faults.len() == 0 {
        None
    } else {
        match first_fault(faults.drop_last()) {
            Some(e) => Some(e),
            None => faults.last(),
        }
    }
}

/// There is no first fault exactly when no axis has a fault.
pub proof fn lemma_first_fault_none(faults: Seq<Option<Error>>)
    ensures
        first_fault(faults) is None <==> forall|k: int| 0 <= k < faults.len() ==> faults[k] is None,
    decreases faults.len(),
{
    if faults.len() > 0 {
        lemma_first_fault_none(faults.drop_last());
        let d = faults.drop_last();
        if first_fault(faults) is None {
            assert forall|k: int| 0 <= k < faults.len() implies faults[k] is None by {
                if k < d.len() {
                    assert(d[k] is None);
                }
            }
        } else if first_fault(d) is None {
            assert(faults[faults.len() - 1] is Some);
        } else {
            let k = choose|k: int| 0 <= k < d.len() && !(d[k] is None);
            assert(!(faults[k] is None));
        }
    }
}

/// The first fault is that of axis `k` when no axis before `k` has one.
pub proof fn lemma_first_fault_at(faults: Seq<Option<Error>>, k: int)
    requires
        0 <= k < faults.len(),
        faults[k] is Some,
        forall|j: int| 0 <= j < k ==> faults[j] is None,
    ensures
        first_fault(faults) == faults[k],
    decreases faults.len(),
{
    let d = faults.drop_last();
    if k == faults.len() - 1 {
        lemma_first_fault_none(d);
        assert forall|j: int| 0 <= j < d.len() implies d[j] is None by {
            assert(d[j] == faults[j]);
        }
    } else {
        assert(d[k] == faults[k]);
        assert forall|j: int| 0 <= j < k implies d[j] is None by {
            assert(d[j] == faults[j]);
        }
        lemma_first_fault_at(d, k);
    }
}

/// Where every fault up to and including axis `k` is `e` or none, and
/// axis `k` has the fault `e`, the first fault is `e`.
pub proof fn lemma_first_fault_is(faults: Seq<Option<Error>>, k: int, e: Error)
    requires
        0 <= k < faults.len(),
        faults[k] == Some(e),
        forall|j: int| 0 <= j < k ==> faults[j] is None || faults[j] == Some(e),
    ensures
        first_fault(faults) == Some(e),
    decreases k,
{
    if forall|j: int| 0 <= j < k ==> faults[j] is None {
        lemma_first_fault_at(faults, k);
    } else {
        let j = choose|j: int| 0 <= j < k && !(faults[j] is None);
        lemma_first_fault_is(faults, j, e);
    }
}

/// Whether `index` may start a region on `d`.
///
/// On an unlimited dimension a write may start anywhere. Otherwise the
/// index may be at most the length: the length itself is the position just
/// past the last element.
pub open spec fn index_ok(d: Dimension, index: usize, putting: bool) -> bool {
    (d.unlimited && putting) || index <= d.len
}

/// The verdict on a list of indices.
pub open spec fn indices_verdict(dims: Seq<Dimension>, indices: Seq<usize>, putting: bool) -> Result<
    (),
    Error,
> {
    if indices.len() != dims.len() {
        Err(Error::IndexLen)
    } else if forall|k: int| 0 <= k < dims.len() ==> index_ok(dims[k], indices[k], putting) {
        Ok(())
    } else {
        Err(Error::IndexMismatch)
    }
}

/// What is wrong with a region of `extent` cells from `index` on `d`.
///
/// Only a write to an unlimited dimension may reach past the current
/// length.
pub open spec fn extent_fault(d: Dimension, index: usize, extent: usize, putting: bool) -> Option<
    Error,
> {
    if extent == 0 {
        Some(Error::ZeroSlice)
    } else if index + extent > usize::MAX {
        Some(Error::Overflow)
    } else if index + extent > d.len && !(putting && d.unlimited) {
        Some(Error::SliceMismatch)
    } else {
        None
    }
}

/// The verdict of `extent_fault` on each axis.
pub open spec fn extent_faults(
    dims: Seq<Dimension>,
    indices: Seq<usize>,
    extents: Seq<usize>,
    putting: bool,
) -> Seq<Option<Error>> {
    Seq::new(dims.len(), |k: int| extent_fault(dims[k], indices[k], extents[k], putting))
}

/// The verdict on a list of extents that go with `indices`, for a buffer of
/// `total` elements.
///
/// A product that reaches `usize::MAX` counts as overflow. `BufferLen`
/// carries the buffer's length first and the product of the extents second.
pub open spec fn extents_verdict(
    dims: Seq<Dimension>,
    total: usize,
    indices: Seq<usize>,
    extents: Seq<usize>,
    putting: bool,
) -> Result<(), Error> {
    if extents.len() != dims.len() {
        Err(Error::SliceLen)
    } else if let Some(e) = first_fault(extent_faults(dims, indices, extents, putting)) {
        Err(e)
    } else if product(extents) >= usize::MAX {
        Err(Error::Overflow)
    } else if total != product(extents) {
        Err(Error::BufferLen(total, product(extents) as usize))
    } else {
        Ok(())
    }
}

} // verus!
