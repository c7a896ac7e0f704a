//! The ways in which a request against a variable can be refused.

use vstd::prelude::*;

verus! {

/// Why a request was refused.
#[derive(Debug, Clone, Copy, PartialEq, Eq)]
pub enum Error {
    /// The storage backend reported this status code.
    Netcdf(i32),
    /// The number of indices differs from the number of dimensions.
    IndexLen,
    /// The number of extents differs from the number of dimensions.
    SliceLen,
    /// The buffer holds the first number of elements, the region the second.
    BufferLen(usize, usize),
    /// An index lies beyond its dimension.
    IndexMismatch,
    /// A region reaches beyond its dimension.
    SliceMismatch,
    /// An extent is zero.
    ZeroSlice,
    /// A stride of zero goes with an extent other than one.
    StrideError,
    /// The element type differs from the type the variable was declared with.
    TypeMismatch,
    /// More than one dimension is unlimited, so no extent can be inferred.
    Ambiguous,
    /// A sum or a product does not fit the platform's unsigned range.
    Overflow,
    /// The buffer holds fewer elements than the strided region.
    InsufficientBuffer,
    /// A count does not fit the integer type that the backend takes.
    Conversion,
}

/// Whether `r` is the outcome that `verdict` describes: the same error, or
/// a value whose view `verdict` holds.
pub open spec fn agrees<T: View>(r: Result<T, Error>, verdict: Result<T::V, Error>) -> bool {
    match r {
        Ok(x) => verdict == Ok::<T::V, Error>(x@),
        Err(e) => verdict == Err::<T::V, Error>(e),
    }
}

/// The error that `r` holds, if it holds one.
pub open spec fn failure<V>(r: Result<V, Error>) -> Option<Error> {
    match r {
        Ok(_) => None,
        Err(e) => Some(e),
    }
}

} // verus!
