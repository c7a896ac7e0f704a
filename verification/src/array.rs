//! Values in the shape of the region that they were read from.

use crate::error::Error;
use crate::numeric::Numeric;
use crate::product::product;
use crate::resolve::{array_verdict, named};
use crate::variable::Variable;
use vstd::prelude::*;
use vstd::slice::slice_to_vec;

verus! {

/// The product of the entries of `shape` that are not zero.
pub open spec fn product_nonzero(shape: Seq<usize>) -> nat
    decreases shape.len(),
{
    if shape.len() == 0 {
        1
    } else if shape.last() == 0 {
        product_nonzero(shape.drop_last())
    } else {
        product_nonzero(shape.drop_last()) * (shape.last() as nat)
    }
}

/// Whether `len` values make an array of the given shape: there is one
/// value per cell, and the axes that are not empty span no more than
/// `isize::MAX` cells.
pub open spec fn fills(shape: Seq<usize>, len: nat) -> bool {
    product_nonzero(shape) <= isize::MAX && product(shape) == len
}

/// Without a zero entry the two products are one.
pub proof fn lemma_product_nonzero(shape: Seq<usize>)
    requires
        forall|k: int| 0 <= k < shape.len() ==> shape[k] != 0,
    ensures
        product_nonzero(shape) == product(shape),
    decreases shape.len(),
{
    if shape.len() > 0 {
        lemma_product_nonzero(shape.drop_last());
    }
}

/// `ndarray::ArrayD::from_shape_vec` with a shape in the default, row-major
/// order, and what `shape` and `into_raw_vec_and_offset` then say of the
/// array. `ndarray` makes the array exactly when the shape has one cell
/// per value and the product of its axis lengths that are not zero does
/// not exceed `isize::MAX`; otherwise it reports a shape error, which is
/// dropped here. The array it makes has the shape that was asked for and
/// keeps the vector that was handed in, the values in their order.
#[verifier::external_body]
fn from_shape_vec<T>(shape: &[usize], v: Vec<T>) -> (r: Option<(Vec<usize>, Vec<T>)>)
    ensures
        r is Some <==> fills(shape@, v@.len()),
        r matches Some(made) ==> made.0@ == shape@,
        r matches Some(made) ==> made.1@ == v@,
{
    match ndarray::ArrayD::from_shape_vec(shape, v) {
        Ok(a) => Some((a.shape().to_vec(), a.into_raw_vec_and_offset().0)),
        Err(_) => None,
    }
}

/// An n-dimensional array of values in row-major order, as `ndarray` has
/// accepted it: there is one value per cell of the shape.
pub struct Array<T> {
    shape: Vec<usize>,
    cells: Vec<T>,
}

impl<T> Array<T> {
    /// The length of each axis.
    pub closed spec fn spec_shape(&self) -> Seq<usize> {
        self.shape@
    }

    /// The values, the last axis running fastest.
    pub closed spec fn spec_cells(&self) -> Seq<T> {
        self.cells@
    }

    /// The values fill the shape.
    #[verifier::type_invariant]
    pub closed spec fn wf(&self) -> bool {
        fills(self.shape@, self.cells@.len())
    }

    /// The length of each axis.
    pub fn shape(&self) -> (r: Vec<usize>)
        ensures
            r@ == self.spec_shape(),
            fills(r@, self.spec_cells().len()),
    {
        proof {
            use_type_invariant(self);
        }
        slice_to_vec(self.shape.as_slice())
    }

    /// The values, in the order in which the array keeps them: row by
    /// row, the last axis running fastest.
    pub fn into_raw_vec(self) -> (r: Vec<T>)
        ensures
            r@ == self.spec_cells(),
            r@.len() == product(self.spec_shape()),
    {
        proof {
            use_type_invariant(&self);
        }
        self.cells
    }
}

/// A buffer of `n` default values.
fn filled<T: Default>(n: usize) -> (v: Vec<T>)
    ensures
        v@.len() == n,
{
    let mut v: Vec<T> = Vec::with_capacity(n);
    let mut k: usize = 0;
    while k < n
        invariant
            0 <= k <= n,
            v@.len() == k,
        decreases n - k,
    {
        v.push(T::default());
        k += 1;
    }
    v
}

impl Variable {
    /// Reads a region into an array of its shape: the region of
    /// `slice_len` cells from `indices`, or what the defaults make of the
    /// whole variable.
    ///
    /// A request that is refused is answered with its error, and so is a
    /// region of more than `isize::MAX` cells, which no array holds: that
    /// is overflow. Any other request goes to the backend as the region it
    /// resolved to. The backend's error is returned, or an array of the
    /// region's shape that holds what the backend read.
    pub fn values<T: Numeric + Default>(
        &self,
        indices: Option<&[usize]>,
        slice_len: Option<&[usize]>,
    ) -> (r: Result<Array<T>, Error>)
        ensures
            match array_verdict(self.dimensions@, named(indices), named(slice_len)) {
                Err(e) => r == Err::<Array<T>, Error>(e),
                Ok(h) => if h.total_elements > isize::MAX {
                    r == Err::<Array<T>, Error>(Error::Overflow)
                } else {
                    match r {
                        Ok(a) => a.spec_shape() == h.extent && T::read_region(
                            *self,
                            h.start,
                            h.extent,
                            a.spec_cells(),
                            None,
                        ),
                        Err(e) => exists|after: Seq<T>| #[trigger]
                            T::read_region(*self, h.start, h.extent, after, Some(e)),
                    }
                },
            },
    {
        let h = match self.array_region(indices, slice_len) {
            Ok(x) => x,
            Err(e) => {
                return Err(e);
            },
        };
        if h.total_elements > isize::MAX as usize {
            return Err(Error::Overflow);
        }
        proof {
            lemma_product_nonzero(h.extent@);
        }
        let mut values: Vec<T> = filled(h.total_elements);
        match T::variable_to_ptr(
            self,
            h.start.as_slice(),
            h.extent.as_slice(),
            values.as_mut_slice(),
        ) {
            Ok(()) => {},
            Err(e) => {
                return Err(e);
            },
        }
        match from_shape_vec(h.extent.as_slice(), values) {
            Some((shape, cells)) => Ok(Array { shape, cells }),
            None => unreached(),
        }
    }
}

} // verus!
