//! From a request to a region: indices and extents are checked where the
//! request names them and inferred where it does not, and a request that
//! is refused is refused before anything is handed to the backend.

use crate::bounds::{
    extents_verdict, first_fault, indices_verdict, lemma_first_fault_at, lemma_first_fault_none,
};
use crate::dimension::{lengths, Dimension};
use crate::error::{agrees, Error};
use crate::hyperslab::{Hyperslab, Region};
use crate::infer::default_extents_verdict;
use crate::laws::{lemma_array_region_fits, lemma_region_fits, lemma_strided_region_fits};
use crate::product::{product, saturating_product};
use crate::strided::{
    check_stride, default_stride_extent, stride_faults, strided_count_verdict, strided_extents,
    strided_extents_verdict,
};
use crate::variable::{origin, Variable};
use vstd::prelude::*;
use vstd::slice::slice_to_vec;

verus! {

/// What an optional list of numbers names.
pub open spec fn named(x: Option<&[usize]>) -> Option<Seq<usize>> {
    match x {
        Some(s) => Some(s@),
        None => None,
    }
}

/// Where a request starts: at the indices it names, if they are legal, or
/// at the origin.
pub open spec fn start_verdict(dims: Seq<Dimension>, indices: Option<Seq<usize>>, putting: bool) -> Result<
    Seq<usize>,
    Error,
> {
    match indices {
        Some(x) => match indices_verdict(dims, x, putting) {
            Ok(()) => Ok(x),
            Err(e) => Err(e),
        },
        None => Ok(origin(dims.len())),
    }
}

/// The extents of a request, named or inferred, once they have passed the
/// check against the dimensions and the buffer.
pub open spec fn size_verdict(
    dims: Seq<Dimension>,
    total: usize,
    start: Seq<usize>,
    extents: Option<Seq<usize>>,
    putting: bool,
) -> Result<Seq<usize>, Error> {
    let resolved = match extents {
        Some(x) => Ok(x),
        None => default_extents_verdict(dims, total, start, putting),
    };
    match resolved {
        Err(e) => Err(e),
        Ok(x) => match extents_verdict(dims, total, start, x, putting) {
            Err(e) => Err(e),
            Ok(()) => Ok(x),
        },
    }
}

/// The region of a request for a buffer of `total` elements, or the reason
/// why the request is refused.
pub open spec fn region_verdict(
    dims: Seq<Dimension>,
    total: usize,
    indices: Option<Seq<usize>>,
    extents: Option<Seq<usize>>,
    putting: bool,
) -> Result<Region, Error> {
    match start_verdict(dims, indices, putting) {
        Err(e) => Err(e),
        Ok(start) => match size_verdict(dims, total, start, extents, putting) {
            Err(e) => Err(e),
            Ok(extent) => Ok(Region { start, extent, stride: None, total_elements: total }),
        },
    }
}

/// The region of a request that brings no buffer: the buffer is made to
/// measure, as long as the product of the named extents, or as the whole
/// variable where the request names none.
pub open spec fn array_verdict(
    dims: Seq<Dimension>,
    indices: Option<Seq<usize>>,
    extents: Option<Seq<usize>>,
) -> Result<Region, Error> {
    let wanted = match extents {
        Some(x) => product(x),
        None => product(lengths(dims)),
    };
    match start_verdict(dims, indices, false) {
        Err(e) => Err(e),
        Ok(start) => if wanted >= usize::MAX {
            Err(Error::Overflow)
        } else {
            match size_verdict(dims, wanted as usize, start, extents, false) {
                Err(e) => Err(e),
                Ok(extent) => Ok(
                    Region { start, extent, stride: None, total_elements: wanted as usize },
                ),
            }
        },
    }
}

/// The strided region that starts at `start`, for a buffer of `buffer_len`
/// elements.
pub open spec fn strided_from(
    dims: Seq<Dimension>,
    buffer_len: usize,
    start: Seq<usize>,
    extents: Option<Seq<usize>>,
    strides: Seq<isize>,
    putting: bool,
) -> Result<Region, Error> {
    match strided_extents_verdict(dims, start, extents, strides, putting) {
        Err(e) => Err(e),
        Ok(extent) => match strided_count_verdict(buffer_len, extent) {
            Err(e) => Err(e),
            Ok(n) => Ok(Region { start, extent, stride: Some(strides), total_elements: n }),
        },
    }
}

/// The region of a strided read into a buffer of `buffer_len` elements.
///
/// The strides are counted before anything else is looked at: a read
/// with another number of strides than dimensions is a stride error.
pub open spec fn strided_get_verdict(
    dims: Seq<Dimension>,
    buffer_len: usize,
    indices: Option<Seq<usize>>,
    extents: Option<Seq<usize>>,
    strides: Seq<isize>,
) -> Result<Region, Error> {
    if strides.len() != dims.len() {
        Err(Error::StrideError)
    } else {
        match start_verdict(dims, indices, false) {
            Err(e) => Err(e),
            Ok(start) => strided_from(dims, buffer_len, start, extents, strides, false),
        }
    }
}

/// The region of a strided write from a buffer of `buffer_len` elements.
///
/// The indices are examined first. A write with another number of strides
/// than dimensions is refused as an index mismatch.
pub open spec fn strided_put_verdict(
    dims: Seq<Dimension>,
    buffer_len: usize,
    indices: Option<Seq<usize>>,
    extents: Option<Seq<usize>>,
    strides: Seq<isize>,
) -> Result<Region, Error> {
    match start_verdict(dims, indices, true) {
        Err(e) => Err(e),
        Ok(start) => if strides.len() != dims.len() {
            Err(Error::IndexMismatch)
        } else {
            strided_from(dims, buffer_len, start, extents, strides, true)
        },
    }
}

impl Variable {
    /// Where a request starts: at `indices`, once they are checked, or at
    /// the origin.
    pub fn resolve_indices(&self, indices: Option<&[usize]>, putting: bool) -> (r: Result<
        Vec<usize>,
        Error,
    >)
        ensures
            agrees(r, start_verdict(self.dimensions@, named(indices), putting)),
            r matches Ok(start) ==> indices_verdict(self.dimensions@, start@, putting) is Ok,
    {
        match indices {
            Some(x) => {
                match self.check_indices(x, putting) {
                    Ok(()) => Ok(slice_to_vec(x)),
                    Err(e) => Err(e),
                }
            },
            None => self.default_indices(putting),
        }
    }

    /// The extents of a request that starts at `start`, for a buffer of
    /// `total` elements: `slice_len`, or the inferred extents, checked
    /// either way.
    pub fn resolve_sizelen(
        &self,
        total: usize,
        start: &[usize],
        slice_len: Option<&[usize]>,
        putting: bool,
    ) -> (r: Result<Vec<usize>, Error>)
        requires
            start@.len() == self.dimensions@.len(),
        ensures
            agrees(r, size_verdict(self.dimensions@, total, start@, named(slice_len), putting)),
    {
        let extent = match slice_len {
            Some(x) => slice_to_vec(x),
            None => match self.default_sizelen(total, start, putting) {
                Ok(x) => x,
                Err(e) => {
                    return Err(e);
                },
            },
        };
        match self.check_sizelen(total, start, extent.as_slice(), putting) {
            Ok(()) => Ok(extent),
            Err(e) => Err(e),
        }
    }

    /// Resolves a request against a buffer of `total` elements into the
    /// region that the backend is to move.
    pub fn region(
        &self,
        total: usize,
        indices: Option<&[usize]>,
        slice_len: Option<&[usize]>,
        putting: bool,
    ) -> (r: Result<Hyperslab, Error>)
        ensures
            agrees(
                r,
                region_verdict(self.dimensions@, total, named(indices), named(slice_len), putting),
            ),
            r matches Ok(h) ==> h@.legal(self.dimensions@, putting),
    {
        proof {
            lemma_region_fits(self.dimensions@, total, named(indices), named(slice_len), putting);
        }
        let start = match self.resolve_indices(indices, putting) {
            Ok(x) => x,
            Err(e) => {
                return Err(e);
            },
        };
        let extent = match self.resolve_sizelen(total, start.as_slice(), slice_len, putting) {
            Ok(x) => x,
            Err(e) => {
                return Err(e);
            },
        };
        Ok(Hyperslab { start, extent, stride: None, total_elements: total })
    }

    /// Resolves a request that brings no buffer into the region to read and
    /// the length of the buffer to make for it.
    pub fn array_region(&self, indices: Option<&[usize]>, slice_len: Option<&[usize]>) -> (r:
        Result<Hyperslab, Error>)
        ensures
            agrees(r, array_verdict(self.dimensions@, named(indices), named(slice_len))),
            r matches Ok(h) ==> h@.legal(self.dimensions@, false),
    {
        proof {
            lemma_array_region_fits(self.dimensions@, named(indices), named(slice_len));
        }
        let start = match self.resolve_indices(indices, false) {
            Ok(x) => x,
            Err(e) => {
                return Err(e);
            },
        };
        let full_length = match slice_len {
            Some(x) => saturating_product(x),
            None => self.len(),
        };
        if full_length == usize::MAX {
            return Err(Error::Overflow);
        }
        let extent = match self.resolve_sizelen(full_length, start.as_slice(), slice_len, false) {
            Ok(x) => x,
            Err(e) => {
                return Err(e);
            },
        };
        Ok(Hyperslab { start, extent, stride: None, total_elements: full_length })
    }

    /// The extents of a strided request that names none.
    pub fn default_strided_sizelen(&self, start: &[usize], strides: &[isize]) -> (v: Vec<usize>)
        requires
            start@.len() == self.dimensions@.len(),
            strides@.len() == self.dimensions@.len(),
        ensures
            v@ == strided_extents(self.dimensions@, start@, strides@),
    {
        let ghost all = strided_extents(self.dimensions@, start@, strides@);
        let mut v: Vec<usize> = Vec::with_capacity(self.dimensions.len());
        let mut k: usize = 0;
        while k < self.dimensions.len()
            invariant
                start@.len() == self.dimensions@.len(),
                strides@.len() == self.dimensions@.len(),
                all == strided_extents(self.dimensions@, start@, strides@),
                0 <= k <= self.dimensions@.len(),
                v@ == all.take(k as int),
            decreases self.dimensions@.len() - k,
        {
            v.push(default_stride_extent(&self.dimensions[k], start[k], strides[k]));
            k += 1;
            assert(v@ =~= all.take(k as int));
        }
        assert(v@ =~= all);
        v
    }

    /// Examines the axes of a strided region in order and reports the
    /// fault of the first that has one.
    pub fn check_strides(
        &self,
        start: &[usize],
        sizelen: &[usize],
        strides: &[isize],
        putting: bool,
    ) -> (r: Option<Error>)
        requires
            start@.len() == self.dimensions@.len(),
            sizelen@.len() == self.dimensions@.len(),
            strides@.len() == self.dimensions@.len(),
        ensures
            r == first_fault(stride_faults(self.dimensions@, start@, sizelen@, strides@, putting)),
    {
        let ghost faults = stride_faults(self.dimensions@, start@, sizelen@, strides@, putting);
        let mut k: usize = 0;
        while k < self.dimensions.len()
            invariant
                start@.len() == self.dimensions@.len(),
                sizelen@.len() == self.dimensions@.len(),
                strides@.len() == self.dimensions@.len(),
                faults == stride_faults(self.dimensions@, start@, sizelen@, strides@, putting),
                0 <= k <= self.dimensions@.len(),
                forall|j: int| 0 <= j < k ==> faults[j] is None,
            decreases self.dimensions@.len() - k,
        {
            let fault = check_stride(
                &self.dimensions[k],
                start[k],
                sizelen[k],
                strides[k],
                putting,
            );
            if fault.is_some() {
                proof {
                    lemma_first_fault_at(faults, k as int);
                }
                return fault;
            }
            k += 1;
        }
        proof {
            lemma_first_fault_none(faults);
        }
        None
    }

    /// Resolves the extents of a strided request that starts at `start`
    /// and counts the elements that it moves. Where `start` is legal, so is
    /// the region.
    pub fn strided_region(
        &self,
        buffer_len: usize,
        start: Vec<usize>,
        slice_len: Option<&[usize]>,
        strides: &[isize],
        putting: bool,
    ) -> (r: Result<Hyperslab, Error>)
        requires
            start@.len() == self.dimensions@.len(),
            strides@.len() == self.dimensions@.len(),
        ensures
            agrees(
                r,
                strided_from(
                    self.dimensions@,
                    buffer_len,
                    start@,
                    named(slice_len),
                    strides@,
                    putting,
                ),
            ),
            r matches Ok(h) ==> h.total_elements <= buffer_len,
            indices_verdict(self.dimensions@, start@, putting) is Ok ==> (r matches Ok(h)
                ==> h@.legal(self.dimensions@, putting)),
    {
        proof {
            if indices_verdict(self.dimensions@, start@, putting) is Ok {
                lemma_strided_region_fits(
                    self.dimensions@,
                    buffer_len,
                    start@,
                    named(slice_len),
                    strides@,
                    putting,
                );
            }
        }
        let extent = match slice_len {
            Some(x) => {
                if x.len() != self.dimensions.len() {
                    return Err(Error::SliceMismatch);
                }
                slice_to_vec(x)
            },
            None => self.default_strided_sizelen(start.as_slice(), strides),
        };
        match self.check_strides(start.as_slice(), extent.as_slice(), strides, putting) {
            Some(e) => {
                return Err(e);
            },
            None => {},
        }
        let count = saturating_product(extent.as_slice());
        if count == usize::MAX {
            return Err(Error::Overflow);
        }
        if buffer_len < count {
            return Err(Error::InsufficientBuffer);
        }
        Ok(Hyperslab { start, extent, stride: Some(slice_to_vec(strides)), total_elements: count })
    }

    /// Resolves a strided read into a buffer of `buffer_len` elements.
    pub fn strided_get_region(
        &self,
        buffer_len: usize,
        indices: Option<&[usize]>,
        slice_len: Option<&[usize]>,
        strides: &[isize],
    ) -> (r: Result<Hyperslab, Error>)
        ensures
            agrees(
                r,
                strided_get_verdict(
                    self.dimensions@,
                    buffer_len,
                    named(indices),
                    named(slice_len),
                    strides@,
                ),
            ),
            r matches Ok(h) ==> h@.legal(self.dimensions@, false) && h.total_elements
                <= buffer_len,
    {
        if strides.len() != self.dimensions.len() {
            return Err(Error::StrideError);
        }
        let start = match self.resolve_indices(indices, false) {
            Ok(x) => x,
            Err(e) => {
                return Err(e);
            },
        };
        self.strided_region(buffer_len, start, slice_len, strides, false)
    }

    /// Resolves a strided write from a buffer of `buffer_len` elements.
    pub fn strided_put_region(
        &self,
        buffer_len: usize,
        indices: Option<&[usize]>,
        slice_len: Option<&[usize]>,
        strides: &[isize],
    ) -> (r: Result<Hyperslab, Error>)
        ensures
            agrees(
                r,
                strided_put_verdict(
                    self.dimensions@,
                    buffer_len,
                    named(indices),
                    named(slice_len),
                    strides@,
                ),
            ),
            r matches Ok(h) ==> h@.legal(self.dimensions@, true) && h.total_elements
                <= buffer_len,
    {
        let start = match self.resolve_indices(indices, true) {
            Ok(x) => x,
            Err(e) => {
                return Err(e);
            },
        };
        if strides.len() != self.dimensions.len() {
            return Err(Error::IndexMismatch);
        }
        self.strided_region(buffer_len, start, slice_len, strides, true)
    }
}

} // verus!
