//! Element types, and the six operations that move their values between a
//! buffer and a variable.
//!
//! Each operation resolves the request first and goes to the backend only
//! with a region that lies within the dimensions; a request that is
//! refused never reaches the backend. A request that is accepted is
//! handed to the backend once, as the region it resolved to, and the
//! backend's answer is the operation's answer.

use crate::bounds::indices_verdict;
use crate::error::{failure, Error};
use crate::hyperslab::Region;
use crate::product::product;
use crate::resolve::{
    named, region_verdict, start_verdict, strided_get_verdict, strided_put_verdict,
};
use crate::variable::Variable;
use vstd::prelude::*;
use vstd::slice::slice_subrange;

verus! {

/// An element type that the backend can move.
///
/// The executable methods are the backend's entry points. Each says in
/// `requires` what it may rely on: the indices are legal, the region lies
/// within the dimensions, the buffer is exactly as long as the region.
///
/// Nothing is promised of what the backend answers. Each entry point has
/// a relation beside it that stands for whatever it did on a call: the
/// relation holds of the arguments, of what the call left behind and of
/// its answer. An implementation gives the relations their meaning; one
/// that gives none lets them hold of every outcome. The operations on a
/// variable are stated in them, for every implementation alike. The one
/// other `ensures`, on the two methods that fill a buffer, holds of every
/// implementation: a slice keeps its length, whatever is written through
/// the reference.
pub trait Numeric: Sized {
    /// The tag of the element type.
    const NCTYPE: i32;

    /// A read of the value at `indices` was answered with `r`.
    open spec fn read_one(variable: Variable, indices: Seq<usize>, r: Result<Self, Error>) -> bool {
        true
    }

    /// A read of the region of `slice_len` cells from `indices` left
    /// `after` in the buffer and ended in `failure`, or in success where
    /// that is none.
    open spec fn read_region(
        variable: Variable,
        indices: Seq<usize>,
        slice_len: Seq<usize>,
        after: Seq<Self>,
        failure: Option<Error>,
    ) -> bool {
        true
    }

    /// A read of the strided region left `after` in the buffer and ended
    /// in `failure`, or in success where that is none.
    open spec fn read_strided(
        variable: Variable,
        indices: Seq<usize>,
        slice_len: Seq<usize>,
        strides: Seq<isize>,
        after: Seq<Self>,
        failure: Option<Error>,
    ) -> bool {
        true
    }

    /// A write of `value` at `indices` turned the variable `before` into
    /// `after` and ended in `failure`, or in success where that is none.
    open spec fn wrote_one(
        before: Variable,
        indices: Seq<usize>,
        value: Self,
        after: Variable,
        failure: Option<Error>,
    ) -> bool {
        true
    }

    /// A write of `values` to the region of `slice_len` cells from
    /// `indices` turned the variable `before` into `after` and ended in
    /// `failure`, or in success where that is none.
    open spec fn wrote_region(
        before: Variable,
        indices: Seq<usize>,
        slice_len: Seq<usize>,
        values: Seq<Self>,
        after: Variable,
        failure: Option<Error>,
    ) -> bool {
        true
    }

    /// A write of `values` to the strided region turned the variable
    /// `before` into `after` and ended in `failure`, or in success where
    /// that is none.
    open spec fn wrote_strided(
        before: Variable,
        indices: Seq<usize>,
        slice_len: Seq<usize>,
        strides: Seq<isize>,
        values: Seq<Self>,
        after: Variable,
        failure: Option<Error>,
    ) -> bool {
        true
    }

    /// Reads the value at `indices`.
    fn single_value_from_variable(variable: &Variable, indices: &[usize]) -> (r: Result<
        Self,
        Error,
    >)
        requires
            indices_verdict(variable.dimensions@, indices@, false) is Ok,
        ensures
            Self::read_one(*variable, indices@, r),
    ;

    /// Reads the region of `slice_len` cells from `indices` into `values`.
    fn variable_to_ptr(
        variable: &Variable,
        indices: &[usize],
        slice_len: &[usize],
        values: &mut [Self],
    ) -> (r: Result<(), Error>)
        requires
            Region::plain(indices@, slice_len@).legal(variable.dimensions@, false),
            old(values)@.len() == product(slice_len@),
        ensures
            final(values)@.len() == old(values)@.len(),
            Self::read_region(*variable, indices@, slice_len@, final(values)@, failure(r)),
    ;

    /// Writes `value` at `indices`.
    fn put_value_at(variable: &mut Variable, indices: &[usize], value: Self) -> (r: Result<
        (),
        Error,
    >)
        requires
            indices_verdict(old(variable).dimensions@, indices@, true) is Ok,
        ensures
            Self::wrote_one(*old(variable), indices@, value, *final(variable), failure(r)),
    ;

    /// Writes `values` to the region of `slice_len` cells from `indices`.
    fn put_values_at(
        variable: &mut Variable,
        indices: &[usize],
        slice_len: &[usize],
        values: &[Self],
    ) -> (r: Result<(), Error>)
        requires
            Region::plain(indices@, slice_len@).legal(old(variable).dimensions@, true),
            values@.len() == product(slice_len@),
        ensures
            Self::wrote_region(
                *old(variable),
                indices@,
                slice_len@,
                values@,
                *final(variable),
                failure(r),
            ),
    ;

    /// Reads the strided region into `values`.
    fn get_values_strided(
        variable: &Variable,
        indices: &[usize],
        slice_len: &[usize],
        strides: &[isize],
        values: &mut [Self],
    ) -> (r: Result<(), Error>)
        requires
            Region::strided(indices@, slice_len@, strides@).legal(variable.dimensions@, false),
            old(values)@.len() == product(slice_len@),
        ensures
            final(values)@.len() == old(values)@.len(),
            Self::read_strided(
                *variable,
                indices@,
                slice_len@,
                strides@,
                final(values)@,
                failure(r),
            ),
    ;

    /// Writes `values` to the strided region.
    fn put_values_strided(
        variable: &mut Variable,
        indices: &[usize],
        slice_len: &[usize],
        strides: &[isize],
        values: &[Self],
    ) -> (r: Result<(), Error>)
        requires
            Region::strided(indices@, slice_len@, strides@).legal(
                old(variable).dimensions@,
                true,
            ),
            values@.len() == product(slice_len@),
        ensures
            Self::wrote_strided(
                *old(variable),
                indices@,
                slice_len@,
                strides@,
                values@,
                *final(variable),
                failure(r),
            ),
    ;
}

impl Variable {
    /// Reads the value at `indices`, or at the origin where none are
    /// given.
    ///
    /// Illegal indices are refused. Legal ones go to the backend, whose
    /// answer is returned.
    pub fn value<T: Numeric>(&self, indices: Option<&[usize]>) -> (r: Result<T, Error>)
        ensures
            match start_verdict(self.dimensions@, named(indices), false) {
                Err(e) => r == Err::<T, Error>(e),
                Ok(start) => T::read_one(*self, start, r),
            },
    {
        let start = match self.resolve_indices(indices, false) {
            Ok(x) => x,
            Err(e) => {
                return Err(e);
            },
        };
        T::single_value_from_variable(self, start.as_slice())
    }

    /// Reads a region into `buffer`, which the region has to fill
    /// exactly.
    ///
    /// A request that is refused leaves `buffer` as it was. One that is
    /// accepted goes to the backend as the region it resolved to; the
    /// backend fills `buffer`, and its answer is returned.
    pub fn values_to<T: Numeric>(
        &self,
        buffer: &mut [T],
        indices: Option<&[usize]>,
        slice_len: Option<&[usize]>,
    ) -> (r: Result<(), Error>)
        ensures
            final(buffer)@.len() == old(buffer)@.len(),
            match region_verdict(
                self.dimensions@,
                old(buffer)@.len() as usize,
                named(indices),
                named(slice_len),
                false,
            ) {
                Err(e) => r == Err::<(), Error>(e) && final(buffer)@ == old(buffer)@,
                Ok(h) => T::read_region(*self, h.start, h.extent, final(buffer)@, failure(r)),
            },
    {
        let h = match self.region(buffer.len(), indices, slice_len, false) {
            Ok(x) => x,
            Err(e) => {
                return Err(e);
            },
        };
        T::variable_to_ptr(self, h.start.as_slice(), h.extent.as_slice(), buffer)
    }

    /// Reads a strided region into the front of `buffer` and says how
    /// many elements that is.
    ///
    /// A request that is refused leaves `buffer` as it was. One that is
    /// accepted goes to the backend as the region it resolved to, with the
    /// front of `buffer` that the region fills: what lies behind it stays
    /// as it was. The backend's error is returned, or the element count.
    pub fn values_strided_to<T: Numeric>(
        &self,
        buffer: &mut [T],
        indices: Option<&[usize]>,
        slice_len: Option<&[usize]>,
        strides: &[isize],
    ) -> (r: Result<usize, Error>)
        ensures
            final(buffer)@.len() == old(buffer)@.len(),
            match strided_get_verdict(
                self.dimensions@,
                old(buffer)@.len() as usize,
                named(indices),
                named(slice_len),
                strides@,
            ) {
                Err(e) => r == Err::<usize, Error>(e) && final(buffer)@ == old(buffer)@,
                Ok(h) => {
                    &&& T::read_strided(
                        *self,
                        h.start,
                        h.extent,
                        strides@,
                        final(buffer)@.take(h.total_elements as int),
                        failure(r),
                    )
                    &&& final(buffer)@.skip(h.total_elements as int) == old(buffer)@.skip(
                        h.total_elements as int,
                    )
                    &&& r matches Ok(n) ==> n == h.total_elements
                },
            },
    {
        let h = match self.strided_get_region(buffer.len(), indices, slice_len, strides) {
            Ok(x) => x,
            Err(e) => {
                return Err(e);
            },
        };
        let (front, rest) = buffer.split_at_mut(h.total_elements);
        let answered = T::get_values_strided(
            self,
            h.start.as_slice(),
            h.extent.as_slice(),
            strides,
            front,
        );
        proof {
            let n = h.total_elements as int;
            assert(final(buffer)@.take(n) =~= final(front)@);
            assert(final(buffer)@.skip(n) =~= old(buffer)@.skip(n));
        }
        match answered {
            Ok(()) => Ok(h.total_elements),
            Err(e) => Err(e),
        }
    }

    /// Writes `value` at `indices`, or at the origin where none are given.
    ///
    /// Illegal indices are refused and leave the variable as it was.
    /// Legal ones go to the backend, whose answer is returned.
    pub fn put_value<T: Numeric>(&mut self, value: T, indices: Option<&[usize]>) -> (r: Result<
        (),
        Error,
    >)
        ensures
            match start_verdict(old(self).dimensions@, named(indices), true) {
                Err(e) => r == Err::<(), Error>(e) && *final(self) == *old(self),
                Ok(start) => T::wrote_one(*old(self), start, value, *final(self), failure(r)),
            },
    {
        let start = match self.resolve_indices(indices, true) {
            Ok(x) => x,
            Err(e) => {
                return Err(e);
            },
        };
        T::put_value_at(self, start.as_slice(), value)
    }

    /// Writes `values` to a region, which they have to fill exactly.
    ///
    /// A request that is refused leaves the variable as it was. One that
    /// is accepted goes to the backend as the region it resolved to, with
    /// all of `values`; the backend's answer is returned.
    pub fn put_values<T: Numeric>(
        &mut self,
        values: &[T],
        indices: Option<&[usize]>,
        slice_len: Option<&[usize]>,
    ) -> (r: Result<(), Error>)
        ensures
            match region_verdict(
                old(self).dimensions@,
                values@.len() as usize,
                named(indices),
                named(slice_len),
                true,
            ) {
                Err(e) => r == Err::<(), Error>(e) && *final(self) == *old(self),
                Ok(h) => T::wrote_region(
                    *old(self),
                    h.start,
                    h.extent,
                    values@,
                    *final(self),
                    failure(r),
                ),
            },
    {
        let h = match self.region(values.len(), indices, slice_len, true) {
            Ok(x) => x,
            Err(e) => {
                return Err(e);
            },
        };
        T::put_values_at(self, h.start.as_slice(), h.extent.as_slice(), values)
    }

    /// Writes the front of `values` to a strided region and says how many
    /// elements that is.
    ///
    /// A request that is refused leaves the variable as it was. One that
    /// is accepted goes to the backend as the region it resolved to, with
    /// as many of `values` as the region holds. The backend's error is
    /// returned, or the element count.
    pub fn put_values_strided<T: Numeric>(
        &mut self,
        values: &[T],
        indices: Option<&[usize]>,
        slice_len: Option<&[usize]>,
        strides: &[isize],
    ) -> (r: Result<usize, Error>)
        ensures
            match strided_put_verdict(
                old(self).dimensions@,
                values@.len() as usize,
                named(indices),
                named(slice_len),
                strides@,
            ) {
                Err(e) => r == Err::<usize, Error>(e) && *final(self) == *old(self),
                Ok(h) => {
                    &&& T::wrote_strided(
                        *old(self),
                        h.start,
                        h.extent,
                        strides@,
                        values@.take(h.total_elements as int),
                        *final(self),
                        failure(r),
                    )
                    &&& r matches Ok(n) ==> n == h.total_elements
                },
            },
    {
        let h = match self.strided_put_region(values.len(), indices, slice_len, strides) {
            Ok(x) => x,
            Err(e) => {
                return Err(e);
            },
        };
        let front = slice_subrange(values, 0, h.total_elements);
        assert(front@ =~= values@.take(h.total_elements as int));
        match T::put_values_strided(
            self,
            h.start.as_slice(),
            h.extent.as_slice(),
            strides,
            front,
        ) {
            Ok(()) => Ok(h.total_elements),
            Err(e) => Err(e),
        }
    }
}

} // verus!
