//! A variable and the checks that a request against it has to pass.

use crate::bounds::{
    extent_faults, extents_verdict, index_ok, indices_verdict, lemma_first_fault_at,
    lemma_first_fault_none,
};
use crate::dimension::{count_unlimited, lengths, Dimension};
use crate::error::{agrees, Error};
use crate::infer::{
    default_extents_verdict, fixed_extents, has_open, has_room, inferred_extents, is_open,
    lemma_open_axis_is_alone,
};
use crate::numeric::Numeric;
use crate::product::{lemma_product_positive, product, saturated, saturating_product};
use vstd::prelude::*;

verus! {

/// A multi-dimensional array variable: its name, its dimensions in their
/// fixed order, and the identifiers under which the backend keeps it.
#[derive(Debug)]
pub struct Variable {
    /// The variable's name.
    pub name: String,
    /// The dimensions, outermost first.
    pub dimensions: Vec<Dimension>,
    /// The tag of the element type that the variable was declared with.
    pub vartype: i32,
    /// The identifier of the group that holds the variable.
    pub ncid: i32,
    /// The identifier of the variable within its group.
    pub varid: i32,
}

impl Variable {
    /// A variable as the backend knows it.
    pub fn new(name: String, dimensions: Vec<Dimension>, vartype: i32, ncid: i32, varid: i32) -> (v:
        Variable)
        ensures
            v == (Variable { name, dimensions, vartype, ncid, varid }),
    {
        Variable { name, dimensions, vartype, ncid, varid }
    }

    /// The variable's name.
    pub fn name(&self) -> (s: &str)
        ensures
            s@ == self.name@,
    {
        self.name.as_str()
    }

    /// The dimensions, outermost first.
    pub fn dimensions(&self) -> (d: &[Dimension])
        ensures
            d@ == self.dimensions@,
    {
        self.dimensions.as_slice()
    }

    /// The tag of the element type that the variable was declared with.
    pub fn vartype(&self) -> (t: i32)
        ensures
            t == self.vartype,
    {
        self.vartype
    }

    /// The number of cells of the whole variable, clipped to the largest
    /// `usize`.
    pub fn len(&self) -> (n: usize)
        ensures
            n == saturated(product(lengths(self.dimensions@))),
    {
        let mut all: Vec<usize> = Vec::with_capacity(self.dimensions.len());
        let mut k: usize = 0;
        while k < self.dimensions.len()
            invariant
                0 <= k <= self.dimensions@.len(),
                all@ == lengths(self.dimensions@).take(k as int),
            decreases self.dimensions@.len() - k,
        {
            all.push(self.dimensions[k].len());
            k += 1;
            assert(all@ =~= lengths(self.dimensions@).take(k as int));
        }
        assert(all@ =~= lengths(self.dimensions@));
        saturating_product(all.as_slice())
    }

    /// Whether `T` is the element type that the variable was declared
    /// with.
    pub fn check_type<T: Numeric>(&self) -> (r: Result<(), Error>)
        ensures
            r == (if T::NCTYPE == self.vartype {
                Ok::<(), Error>(())
            } else {
                Err::<(), Error>(Error::TypeMismatch)
            }),
    {
        if T::NCTYPE != self.vartype {
            return Err(Error::TypeMismatch);
        }
        Ok(())
    }

    /// Checks the sizes of the chunks in which the variable is to be
    /// stored: one per dimension, with a product below `usize::MAX`.
    pub fn check_chunking(&self, chunksize: &[usize]) -> (r: Result<(), Error>)
        ensures
            r == chunking_verdict(self.dimensions@, chunksize@),
    {
        if chunksize.len() != self.dimensions.len() {
            return Err(Error::SliceLen);
        }
        let len = saturating_product(chunksize);
        if len == usize::MAX {
            return Err(Error::Overflow);
        }
        Ok(())
    }

    /// Checks `indices` against the dimensions.
    pub fn check_indices(&self, indices: &[usize], putting: bool) -> (r: Result<(), Error>)
        ensures
            r == indices_verdict(self.dimensions@, indices@, putting),
    {
        if indices.len() != self.dimensions.len() {
            return Err(Error::IndexLen);
        }
        let mut k: usize = 0;
        while k < indices.len()
            invariant
                indices@.len() == self.dimensions@.len(),
                0 <= k <= indices@.len(),
                forall|j: int| 0 <= j < k ==> index_ok(self.dimensions@[j], indices@[j], putting),
            decreases indices@.len() - k,
        {
            let d = &self.dimensions[k];
            if !(d.is_unlimited() && putting) && indices[k] > d.len() {
                assert(!index_ok(self.dimensions@[k as int], indices@[k as int], putting));
                return Err(Error::IndexMismatch);
            }
            k += 1;
        }
        Ok(())
    }

    /// Checks `sizelen`, the extents of a region that starts at `indices`,
    /// against the dimensions and against a buffer of `totallen` elements.
    pub fn check_sizelen(
        &self,
        totallen: usize,
        indices: &[usize],
        sizelen: &[usize],
        putting: bool,
    ) -> (r: Result<(), Error>)
        requires
            indices@.len() == self.dimensions@.len(),
        ensures
            r == extents_verdict(self.dimensions@, totallen, indices@, sizelen@, putting),
    {
        if sizelen.len() != self.dimensions.len() {
            return Err(Error::SliceLen);
        }
        let ghost faults = extent_faults(self.dimensions@, indices@, sizelen@, putting);
        let mut k: usize = 0;
        while k < sizelen.len()
            invariant
                indices@.len() == self.dimensions@.len(),
                sizelen@.len() == self.dimensions@.len(),
                faults == extent_faults(self.dimensions@, indices@, sizelen@, putting),
                0 <= k <= sizelen@.len(),
                forall|j: int| 0 <= j < k ==> faults[j] is None,
            decreases sizelen@.len() - k,
        {
            let d = &self.dimensions[k];
            let i = indices[k];
            let s = sizelen[k];
            if s == 0 {
                proof {
                    lemma_first_fault_at(faults, k as int);
                }
                return Err(Error::ZeroSlice);
            }
            match i.checked_add(s) {
                None => {
                    proof {
                        lemma_first_fault_at(faults, k as int);
                    }
                    return Err(Error::Overflow);
                },
                Some(end) => {
                    if end > d.len() && !(putting && d.is_unlimited()) {
                        proof {
                            lemma_first_fault_at(faults, k as int);
                        }
                        return Err(Error::SliceMismatch);
                    }
                },
            }
            k += 1;
        }
        proof {
            lemma_first_fault_none(faults);
        }
        let thislen = saturating_product(sizelen);
        if thislen == usize::MAX {
            return Err(Error::Overflow);
        }
        if totallen != thislen {
            return Err(Error::BufferLen(totallen, thislen));
        }
        Ok(())
    }

    /// The indices of a request that names none: the origin.
    ///
    /// The origin is a legal start in either direction, whatever the
    /// lengths of the dimensions.
    pub fn default_indices(&self, putting: bool) -> (r: Result<Vec<usize>, Error>)
        ensures
            r matches Ok(v) && v@ == origin(self.dimensions@.len()),
            indices_verdict(self.dimensions@, origin(self.dimensions@.len()), putting) is Ok,
    {
        let mut v: Vec<usize> = Vec::with_capacity(self.dimensions.len());
        let mut k: usize = 0;
        while k < self.dimensions.len()
            invariant
                0 <= k <= self.dimensions@.len(),
                v@ == origin(k as nat),
            decreases self.dimensions@.len() - k,
        {
            v.push(0);
            k += 1;
            assert(v@ =~= origin(k as nat));
        }
        Ok(v)
    }

    /// How many of the dimensions are unlimited.
    pub fn num_unlimited(&self) -> (n: usize)
        ensures
            n == count_unlimited(self.dimensions@),
    {
        let mut n: usize = 0;
        let mut k: usize = 0;
        assert(self.dimensions@.take(0) =~= Seq::<Dimension>::empty());
        while k < self.dimensions.len()
            invariant
                0 <= k <= self.dimensions@.len(),
                n <= k,
                n == count_unlimited(self.dimensions@.take(k as int)),
            decreases self.dimensions@.len() - k,
        {
            assert(self.dimensions@.take(k + 1).drop_last() =~= self.dimensions@.take(k as int));
            if self.dimensions[k].is_unlimited() {
                n += 1;
            }
            k += 1;
        }
        assert(self.dimensions@.take(self.dimensions@.len() as int) =~= self.dimensions@);
        n
    }

    /// The extents of a request that names none, for a region that starts
    /// at `indices` and a buffer of `totallen` elements.
    pub fn default_sizelen(&self, totallen: usize, indices: &[usize], putting: bool) -> (r: Result<
        Vec<usize>,
        Error,
    >)
        requires
            indices@.len() == self.dimensions@.len(),
        ensures
            agrees(r, default_extents_verdict(self.dimensions@, totallen, indices@, putting)),
    {
        if self.num_unlimited() > 1 {
            return Err(Error::Ambiguous);
        }
        let ghost dims = self.dimensions@;
        let ghost fixed = fixed_extents(dims, indices@, putting);
        let mut sizelen: Vec<usize> = Vec::with_capacity(self.dimensions.len());
        let mut unlim_pos: Option<usize> = None;
        let mut k: usize = 0;
        while k < self.dimensions.len()
            invariant
                dims == self.dimensions@,
                indices@.len() == dims.len(),
                count_unlimited(dims) <= 1,
                fixed == fixed_extents(dims, indices@, putting),
                0 <= k <= dims.len(),
                sizelen@ == fixed.take(k as int),
                forall|j: int| 0 <= j < k ==> has_room(dims[j], indices@[j], putting),
                forall|j: int| 0 <= j < k ==> sizelen@[j] != 0,
                match unlim_pos {
                    Some(pos) => pos < k && is_open(dims[pos as int], indices@[pos as int], putting),
                    None => forall|j: int|
                        0 <= j < k ==> !is_open(#[trigger] dims[j], indices@[j], putting),
                },
            decreases dims.len() - k,
        {
            let d = &self.dimensions[k];
            let i = indices[k];
            if i < d.len() {
                sizelen.push(d.len() - i);
            } else if putting && d.is_unlimited() {
                unlim_pos = Some(k);
                sizelen.push(1);
            } else {
                assert(!has_room(dims[k as int], indices@[k as int], putting));
                return Err(Error::SliceMismatch);
            }
            k += 1;
            assert(sizelen@ =~= fixed.take(k as int));
        }
        assert(fixed.take(dims.len() as int) =~= fixed);
        proof {
            lemma_product_positive(fixed);
        }
        let ghost inferred = inferred_extents(dims, totallen, indices@, putting);
        match unlim_pos {
            Some(pos) => {
                assert(has_open(dims, indices@, putting));
                let l = saturating_product(sizelen.as_slice());
                if l == usize::MAX {
                    return Err(Error::Overflow);
                }
                sizelen.set(pos, totallen / l);
                proof {
                    lemma_open_axis_is_alone(dims, indices@, putting, pos as int);
                }
                assert(sizelen@ =~= inferred);
            },
            None => {
                assert(!has_open(dims, indices@, putting));
                assert(sizelen@ =~= inferred);
            },
        }
        let wantedlen = saturating_product(sizelen.as_slice());
        if wantedlen == usize::MAX {
            return Err(Error::Overflow);
        }
        if totallen != wantedlen {
            return Err(Error::BufferLen(totallen, wantedlen));
        }
        Ok(sizelen)
    }
}

/// The verdict on the chunk sizes for a variable.
pub open spec fn chunking_verdict(dims: Seq<Dimension>, chunksize: Seq<usize>) -> Result<(), Error> {
    if chunksize.len() != dims.len() {
        Err(Error::SliceLen)
    } else if product(chunksize) >= usize::MAX {
        Err(Error::Overflow)
    } else {
        Ok(())
    }
}

/// The identifiers of the dimensions, in order.
pub open spec fn ids(dims: Seq<Dimension>) -> Seq<i32> {
    Seq::new(dims.len(), |k: int| dims[k].id)
}

/// The number of dimensions as the backend takes it when a variable is
/// defined: in an `i32`, where it fits one.
pub fn dimension_count(n: usize) -> (r: Result<i32, Error>)
    ensures
        r == (if n <= i32::MAX {
            Ok::<i32, Error>(n as i32)
        } else {
            Err::<i32, Error>(Error::Conversion)
        }),
{
    if n > 0x7fff_ffff {
        Err(Error::Conversion)
    } else {
        Ok(n as i32)
    }
}

/// The identifiers of `dims`, in order, as the backend takes them when a
/// variable is defined.
pub fn dimension_ids(dims: &[Dimension]) -> (v: Vec<i32>)
    ensures
        v@ == ids(dims@),
{
    let mut v: Vec<i32> = Vec::with_capacity(dims.len());
    let mut k: usize = 0;
    while k < dims.len()
        invariant
            0 <= k <= dims@.len(),
            v@ == ids(dims@).take(k as int),
        decreases dims@.len() - k,
    {
        v.push(dims[k].id);
        k += 1;
        assert(v@ =~= ids(dims@).take(k as int));
    }
    assert(v@ =~= ids(dims@));
    v
}

/// The fill value of a variable, from what the backend reports: none
/// where the variable was set not to be filled.
pub fn fill_from<T>(nofill: i32, value: T) -> (r: Option<T>)
    ensures
        r == (if nofill == 1 {
            None::<T>
        } else {
            Some(value)
        }),
{
    if nofill == 1 {
        None
    } else {
        Some(value)
    }
}

/// The index of the first cell: `n` zeros.
pub open spec fn origin(n: nat) -> Seq<usize> {
    Seq::new(n, |k: int| 0usize)
}

} // verus!
