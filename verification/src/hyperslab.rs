//! The resolved description of one access: where it starts, how far it
//! reaches on each axis, with what stride, and how many elements it moves.

use crate::bounds::{extent_fault, index_ok};
use crate::dimension::Dimension;
use crate::product::product;
use crate::strided::stride_fault;
use vstd::prelude::*;

verus! {


/// What a `Hyperslab` stands for.
pub struct Region {
    /// The index of the first cell, one number per axis.
    pub start: Seq<usize>,
    /// The number of cells on each axis.
    pub extent: Seq<usize>,
    /// The step between cells on each axis, where the region is strided.
    pub stride: Option<Seq<isize>>,
    /// The number of elements that the access moves.
    pub total_elements: usize,
}

impl Region {
    /// The region of `extent` cells from `start`, cell after cell.
    pub open spec fn plain(start: Seq<usize>, extent: Seq<usize>) -> Region {
        Region { start, extent, stride: None, total_elements: product(extent) as usize }
    }

    /// The region of `extent` cells from `start`, `stride` apart.
    pub open spec fn strided(start: Seq<usize>, extent: Seq<usize>, stride: Seq<isize>) -> Region {
        Region { start, extent, stride: Some(stride), total_elements: product(extent) as usize }
    }

    /// The region is well formed and lies within the dimensions.
    pub open spec fn legal(self, dims: Seq<Dimension>, putting: bool) -> bool {
        self.wf() && self.fits(dims, putting)
    }

    /// There is one start and one extent per axis, and a stride per axis
    /// where there are strides; no extent is zero; the element count is the
    /// product of the extents and lies below `usize::MAX`.
    pub open spec fn wf(self) -> bool {
        &&& self.extent.len() == self.start.len()
        &&& self.stride matches Some(s) ==> s.len() == self.start.len()
        &&& forall|k: int| 0 <= k < self.extent.len() ==> self.extent[k] != 0
        &&& self.total_elements == product(self.extent)
        &&& self.total_elements < usize::MAX
    }

    /// Every axis of the region is legal for its dimension.
    pub open spec fn fits(self, dims: Seq<Dimension>, putting: bool) -> bool {
        &&& self.start.len() == dims.len()
        &&& self.extent.len() == dims.len()
        &&& forall|k: int| 0 <= k < dims.len() ==> index_ok(dims[k], self.start[k], putting)
        &&& match self.stride {
            None => forall|k: int|
                0 <= k < dims.len() ==> extent_fault(
                    dims[k],
                    self.start[k],
                    self.extent[k],
                    putting,
                ) is None,
            Some(s) => s.len() == dims.len() && forall|k: int|
                0 <= k < dims.len() ==> stride_fault(
                    dims[k],
                    self.start[k],
                    self.extent[k],
                    s[k],
                    putting,
                ) is None,
        }
    }
}

/// A validated region of a variable, ready to be handed to the backend.
#[derive(Debug, PartialEq, Eq)]
pub struct Hyperslab {
    /// The index of the first cell, one number per axis.
    pub start: Vec<usize>,
    /// The number of cells on each axis.
    pub extent: Vec<usize>,
    /// The step between cells on each axis, where the region is strided.
    pub stride: Option<Vec<isize>>,
    /// The number of elements that the access moves.
    pub total_elements: usize,
}

impl View for Hyperslab {
    type V = Region;

    open spec fn view(&self) -> Region {
        Region {
            start: self.start@,
            extent: self.extent@,
            stride: match self.stride {
                Some(s) => Some(s@),
                None => None,
            },
            total_elements: self.total_elements,
        }
    }
}

} // verus!
