//! Hyperslab indexing for the variables of a netCDF file.
//!
//! A request against a variable names a start, extents and strides, or
//! leaves them out. Before anything reaches the backend the request is
//! resolved into a region that is proved to lie within the variable's
//! dimensions, or it is refused with the reason.

pub mod array;
pub mod bounds;
pub mod dimension;
pub mod endian;
pub mod error;
pub mod hyperslab;
pub mod infer;
pub mod laws;
pub mod numeric;
pub mod product;
pub mod resolve;
pub mod strided;
pub mod variable;

pub use array::Array;
pub use dimension::Dimension;
pub use endian::Endianness;
pub use error::Error;
pub use hyperslab::Hyperslab;
pub use numeric::Numeric;
pub use variable::Variable;
