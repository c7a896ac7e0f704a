//! The byte order in which a variable is stored.

use crate::error::Error;
use vstd::prelude::*;

verus! {

/// The backend's code for the byte order of the machine.
pub const NC_ENDIAN_NATIVE: i32 = 0;

/// The backend's code for little endian.
pub const NC_ENDIAN_LITTLE: i32 = 1;

/// The backend's code for big endian.
pub const NC_ENDIAN_BIG: i32 = 2;

/// The backend's status for metadata of a variable that it cannot make
/// sense of.
pub const NC_EVARMETA: i32 = -108;

/// The byte order of a variable.
#[derive(Debug, Copy, Clone, PartialEq, Eq)]
pub enum Endianness {
    /// The byte order of the machine.
    Native,
    /// Little endian.
    Little,
    /// Big endian.
    Big,
}

impl Endianness {
    /// The code under which the backend knows the byte order.
    pub open spec fn spec_code(self) -> i32 {
        match self {
            Endianness::Native => NC_ENDIAN_NATIVE,
            Endianness::Little => NC_ENDIAN_LITTLE,
            Endianness::Big => NC_ENDIAN_BIG,
        }
    }

    /// The byte order that the backend's code `e` stands for; another
    /// code is metadata gone wrong.
    pub open spec fn spec_from_code(e: i32) -> Result<Endianness, Error> {
        if e == NC_ENDIAN_NATIVE {
            Ok(Endianness::Native)
        } else if e == NC_ENDIAN_LITTLE {
            Ok(Endianness::Little)
        } else if e == NC_ENDIAN_BIG {
            Ok(Endianness::Big)
        } else {
            Err(Error::Netcdf(NC_EVARMETA))
        }
    }

    /// The code to hand to the backend.
    pub fn code(self) -> (e: i32)
        ensures
            e == self.spec_code(),
    {
        match self {
            Endianness::Native => NC_ENDIAN_NATIVE,
            Endianness::Little => NC_ENDIAN_LITTLE,
            Endianness::Big => NC_ENDIAN_BIG,
        }
    }

    /// Reads the code that the backend handed out.
    pub fn from_code(e: i32) -> (r: Result<Endianness, Error>)
        ensures
            r == Endianness::spec_from_code(e),
    {
        if e == NC_ENDIAN_NATIVE {
            Ok(Endianness::Native)
        } else if e == NC_ENDIAN_LITTLE {
            Ok(Endianness::Little)
        } else if e == NC_ENDIAN_BIG {
            Ok(Endianness::Big)
        } else {
            Err(Error::Netcdf(NC_EVARMETA))
        }
    }
}

/// A byte order is read back from its own code, and a code that stands
/// for a byte order is the code of that byte order.
pub proof fn lemma_code_round_trip(order: Endianness, e: i32)
    ensures
        Endianness::spec_from_code(order.spec_code()) == Ok::<Endianness, Error>(order),
        Endianness::spec_from_code(e) matches Ok(o) ==> o.spec_code() == e,
{
}

} // verus!
