//! The incremental output stream: a builder fixes element kind, shape and
//! storage order and, on build, yields the formatted header bytes and an
//! open stream.  The stream turns successive element chunks into their
//! serialization and enforces the exact element-count contract: it can never
//! be over-filled, and closing an under-filled stream fails.  The caller
//! appends the returned byte chunks to its destination.

use crate::elements::{
    spec_elem_width, spec_elems_bounded, spec_encode, spec_write_descr, write_slice, ElemType,
};
use crate::error::{FormatHeaderError, WriteDataError, WriteNpyError};
use crate::files::{elem_count, spec_elem_count};
use crate::header::{
    spec_header_bytes, spec_record_of, spec_version_choice, Header, HeaderVal,
};
use crate::record::{rendered_record, PyExprVal};
use vstd::prelude::*;

verus! {

/// An open output stream bound to one array's worth of declared elements.
pub struct NpyOutStream {
    elem_type: ElemType,
    tot_elems: usize,
    written_elems: usize,
}

impl NpyOutStream {
    /// The element kind the stream was declared with.
    pub closed spec fn spec_elem_type(&self) -> ElemType {
        self.elem_type
    }

    /// The total number of elements the stream was declared with.
    pub closed spec fn spec_total(&self) -> usize {
        self.tot_elems
    }

    /// How many elements have been written so far.
    pub closed spec fn spec_written(&self) -> usize {
        self.written_elems
    }

    /// The stream invariant: the written count never passes the declared
    /// total.
    pub open spec fn wf(&self) -> bool {
        self.spec_written() <= self.spec_total()
    }

    /// Serializes one more chunk of elements, or refuses it: a chunk that
    /// would take the cumulative count past the declared total leaves the
    /// stream unchanged.  On success, returns the new cumulative count and
    /// the chunk's bytes, which the caller appends to the destination.
    pub fn write_slice(&mut self, slice: &Vec<u64>) -> (r: Result<(usize, Vec<u8>), WriteNpyError>)
        requires
            old(self).wf(),
            spec_elems_bounded(slice@, old(self).spec_elem_type()),
            old(self).spec_written() + slice@.len() <= usize::MAX,
        ensures
            final(self).wf(),
            final(self).spec_elem_type() == old(self).spec_elem_type(),
            final(self).spec_total() == old(self).spec_total(),
            match r {
                Ok((count, bytes)) => {
                    &&& old(self).spec_written() + slice@.len() <= old(self).spec_total()
                    &&& final(self).spec_written() == old(self).spec_written() + slice@.len()
                    &&& count == final(self).spec_written()
                    &&& bytes@ == spec_encode(slice@, spec_elem_width(old(self).spec_elem_type()))
                },
                Err(e) => {
                    &&& old(self).spec_written() + slice@.len() > old(self).spec_total()
                    &&& final(self).spec_written() == old(self).spec_written()
                    &&& e matches WriteNpyError::WriteData(WriteDataError::TooManyElements(t, a))
                        && t == old(self).spec_total() && a == old(self).spec_written()
                        + slice@.len()
                },
            },
    {
        if self.written_elems + slice.len() > self.tot_elems {
            Err(
                WriteNpyError::WriteData(
                    WriteDataError::TooManyElements(
                        self.tot_elems,
                        self.written_elems + slice.len(),
                    ),
                ),
            )
        } else {
            let bytes = write_slice(self.elem_type, slice);
            self.written_elems = self.written_elems + slice.len();
            Ok((self.written_elems, bytes))
        }
    }

    /// The total number of elements expected to be put into the stream.
    pub fn tot_elems(&self) -> (r: usize)
        ensures
            r == self.spec_total(),
    {
        self.tot_elems
    }

    /// Whether all the expected elements have been written into the stream.
    pub fn finished(&self) -> (r: bool)
        ensures
            r == (self.spec_total() == self.spec_written()),
    {
        self.tot_elems == self.written_elems
    }

    /// Closes the stream: succeeds exactly when the declared total has been
    /// reached.
    pub fn close(self) -> (r: Result<(), WriteDataError>)
        requires
            self.wf(),
        ensures
            match r {
                Ok(()) => self.spec_written() == self.spec_total(),
                Err(e) => {
                    &&& self.spec_written() < self.spec_total()
                    &&& e matches WriteDataError::TooFewElements(t, a) && t == self.spec_total()
                        && a == self.spec_written()
                },
            },
    {
        if self.written_elems < self.tot_elems {
            Err(WriteDataError::TooFewElements(self.tot_elems, self.written_elems))
        } else {
            Ok(())
        }
    }
}

/// The builder for an output stream: pure configuration of element kind,
/// shape and storage order.
pub struct NpyOutStreamBuilder {
    /// The element kind of the stream.
    pub elem_type: ElemType,
    /// The header to be written: the kind's own descriptor, the configured
    /// storage order, and the configured shape.
    pub header: Header,
}

impl NpyOutStreamBuilder {
    /// Starts a configuration for the given element kind: row-major order
    /// and an empty (rank-0) shape until set otherwise.
    pub fn new(t: ElemType) -> (r: NpyOutStreamBuilder)
        ensures
            r.elem_type == t,
            r.header@ == (HeaderVal {
                descr: PyExprVal::Str(spec_write_descr(t)),
                fortran_order: false,
                shape: Seq::<usize>::empty(),
            }),
    {
        let r = NpyOutStreamBuilder {
            elem_type: t,
            header: Header {
                type_descriptor: t.type_descriptor(),
                fortran_order: false,
                shape: Vec::new(),
            },
        };
        proof {
            assert(r.header@.shape =~= Seq::<usize>::empty());
        }
        r
    }

    /// Replaces the configured shape.
    pub fn for_dim(self, dim: &Vec<usize>) -> (r: NpyOutStreamBuilder)
        ensures
            r.elem_type == self.elem_type,
            r.header@.descr == self.header@.descr,
            r.header@.fortran_order == self.header@.fortran_order,
            r.header@.shape == dim@,
    {
        let mut b = self;
        let d = dim.clone();
        proof {
            assert(d@ =~= dim@);
        }
        b.header.shape = d;
        b
    }

    /// Sets the shape to a 1-dimensional array of the given length.
    pub fn for_arr1(self, len: usize) -> (r: NpyOutStreamBuilder)
        ensures
            r.elem_type == self.elem_type,
            r.header@.descr == self.header@.descr,
            r.header@.fortran_order == self.header@.fortran_order,
            r.header@.shape == seq![len],
    {
        let mut b = self;
        let mut d: Vec<usize> = Vec::new();
        d.push(len);
        proof {
            assert(d@ =~= seq![len]);
        }
        b.header.shape = d;
        b
    }

    /// Sets the shape to a 2-dimensional array of the given size.
    pub fn for_arr2(self, dim: [usize; 2]) -> (r: NpyOutStreamBuilder)
        ensures
            r.elem_type == self.elem_type,
            r.header@.descr == self.header@.descr,
            r.header@.fortran_order == self.header@.fortran_order,
            r.header@.shape == seq![dim@[0], dim@[1]],
    {
        let mut b = self;
        let mut d: Vec<usize> = Vec::new();
        d.push(dim[0]);
        d.push(dim[1]);
        proof {
            assert(d@ =~= seq![dim@[0], dim@[1]]);
        }
        b.header.shape = d;
        b
    }

    /// Sets the shape to a 3-dimensional array of the given size.
    pub fn for_arr3(self, dim: [usize; 3]) -> (r: NpyOutStreamBuilder)
        ensures
            r.elem_type == self.elem_type,
            r.header@.descr == self.header@.descr,
            r.header@.fortran_order == self.header@.fortran_order,
            r.header@.shape == seq![dim@[0], dim@[1], dim@[2]],
    {
        let mut b = self;
        let mut d: Vec<usize> = Vec::new();
        d.push(dim[0]);
        d.push(dim[1]);
        d.push(dim[2]);
        proof {
            assert(d@ =~= seq![dim@[0], dim@[1], dim@[2]]);
        }
        b.header.shape = d;
        b
    }

    /// Sets column-major (Fortran) storage order.
    pub fn f(self) -> (r: NpyOutStreamBuilder)
        ensures
            r.elem_type == self.elem_type,
            r.header@.descr == self.header@.descr,
            r.header@.shape == self.header@.shape,
            r.header@.fortran_order == true,
    {
        let mut b = self;
        b.header.fortran_order = true;
        b
    }

    /// Sets row-major (C) storage order.
    pub fn c(self) -> (r: NpyOutStreamBuilder)
        ensures
            r.elem_type == self.elem_type,
            r.header@.descr == self.header@.descr,
            r.header@.shape == self.header@.shape,
            r.header@.fortran_order == false,
    {
        let mut b = self;
        b.header.fortran_order = false;
        b
    }

    /// Opens the stream: formats the header bytes (which the caller writes
    /// to the destination first) and fixes the declared total as the product
    /// of the configured shape.  The product must fit in `usize`.
    pub fn build(self) -> (r: Result<(Vec<u8>, NpyOutStream), WriteNpyError>)
        requires
            spec_elem_count(self.header@.shape) is Some,
        ensures
            ({
                let fr = rendered_record(spec_record_of(self.header@));
                match r {
                    Ok((hb, stream)) => {
                        &&& match fr {
                            Some(fmt) => match spec_version_choice(fmt.len()) {
                                Some(v) => hb@ == spec_header_bytes(v, fmt),
                                None => false,
                            },
                            None => false,
                        }
                        &&& stream.wf()
                        &&& stream.spec_elem_type() == self.elem_type
                        &&& Some(stream.spec_total() as nat) == spec_elem_count(
                            self.header@.shape,
                        )
                        &&& stream.spec_written() == 0
                    },
                    Err(WriteNpyError::FormatHeader(FormatHeaderError::PyValue)) => fr is None,
                    Err(WriteNpyError::FormatHeader(FormatHeaderError::HeaderTooLong)) => {
                        &&& fr is Some
                        &&& spec_version_choice(fr->0.len()) is None
                    },
                    Err(WriteNpyError::WriteData(_)) => false,
                }
            }),
    {
        let hb = match self.header.to_bytes() {
            Ok(b) => b,
            Err(e) => {
                return Err(WriteNpyError::FormatHeader(e));
            },
        };
        let tot_elems = match elem_count(&self.header.shape) {
            Some(n) => n,
            None => vstd::pervasive::unreached(),
        };
        Ok(
            (
                hb,
                NpyOutStream { elem_type: self.elem_type, tot_elems, written_elems: 0 },
            ),
        )
    }
}

} // verus!
