//! The whole-file codec: a formatted header followed by the serialized
//! element data, and the reverse, with the element count computed from the
//! header's shape.

use crate::elements::{
    read_to_end_exact_vec, spec_elem_width, spec_elems_bounded, spec_encode, spec_read_elems,
    spec_elems_read_matches, spec_write_descr, write_slice, ElemReadOutcome, ElemType,
};
use crate::error::{FormatHeaderError, ReadNpyError, WriteNpyError};
use crate::header::{
    spec_header_bytes, spec_read_header, spec_read_matches, spec_record_of, spec_version_choice,
    Header, HeaderReadOutcome, HeaderVal,
};
use crate::record::{rendered_record, PyExprVal};
use crate::wire::push_bytes;
use vstd::prelude::*;
use vstd::slice::slice_subrange;

verus! {

/// The number of elements a shape declares, folded left to right with an
/// overflow check at every step: `None` as soon as a partial product
/// exceeds `usize`.
pub open spec fn spec_prod_acc(dims: Seq<usize>, acc: nat) -> Option<nat>
    decreases dims.len(),
{
    if dims.len() == 0 {
        Some(acc)
    } else {
        let p = acc * dims[0];
        if p > usize::MAX {
            None
        } else {
            spec_prod_acc(dims.drop_first(), p as nat)
        }
    }
}

/// The element count of a shape (1 for the empty shape, 0 when a dimension
/// is 0), or `None` when a partial product overflows `usize`.
pub open spec fn spec_elem_count(shape: Seq<usize>) -> Option<nat> {
    spec_prod_acc(shape, 1)
}

/// Computes the element count a shape declares, or reports overflow.
pub fn elem_count(shape: &Vec<usize>) -> (r: Option<usize>)
    ensures
        match r {
            Some(n) => spec_elem_count(shape@) == Some(n as nat),
            None => spec_elem_count(shape@) is None,
        },
{
    let mut acc: usize = 1;
    let n = shape.len();
    let mut i: usize = 0;
    proof {
        assert(shape@.skip(0) =~= shape@);
    }
    while i < n
        invariant
            i <= n,
            n == shape@.len(),
            spec_elem_count(shape@) == spec_prod_acc(shape@.skip(i as int), acc as nat),
        decreases n - i,
    {
        proof {
            assert(shape@.skip(i as int)[0] == shape@[i as int]);
            assert(shape@.skip(i as int).drop_first() =~= shape@.skip(i + 1));
        }
        let d = shape[i];
        if d != 0 && acc > usize::MAX / d {
            proof {
                let q = (usize::MAX as int) / (d as int);
                vstd::arithmetic::div_mod::lemma_fundamental_div_mod(usize::MAX as int, d as int);
                assert((acc as int) * (d as int) > usize::MAX) by (nonlinear_arith)
                    requires
                        d >= 1,
                        (acc as int) > q,
                        q == (usize::MAX as int) / (d as int),
                        (d as int) * q + (usize::MAX as int) % (d as int) == usize::MAX,
                        0 <= (usize::MAX as int) % (d as int) < (d as int),
                ;
            }
            return None;
        }
        proof {
            if d != 0 {
                let q = (usize::MAX as int) / (d as int);
                vstd::arithmetic::div_mod::lemma_fundamental_div_mod(usize::MAX as int, d as int);
                assert((acc as int) * (d as int) <= usize::MAX) by (nonlinear_arith)
                    requires
                        d >= 1,
                        (acc as int) <= q,
                        q == (usize::MAX as int) / (d as int),
                        (d as int) * q + (usize::MAX as int) % (d as int) == usize::MAX,
                        0 <= (usize::MAX as int) % (d as int) < (d as int),
                ;
            }
        }
        acc = acc * d;
        i = i + 1;
    }
    proof {
        assert(shape@.skip(n as int) =~= Seq::<usize>::empty());
    }
    Some(acc)
}

/// The header value a whole-file write uses for the given kind, order and
/// shape.
pub open spec fn spec_file_header(t: ElemType, fortran_order: bool, shape: Seq<usize>) -> HeaderVal {
    HeaderVal {
        descr: PyExprVal::Str(spec_write_descr(t)),
        fortran_order,
        shape,
    }
}

/// Serializes a whole file: the formatted header followed by the element
/// data.  The declared shape must account for exactly the elements given.
pub fn encode_npy(t: ElemType, fortran_order: bool, shape: &Vec<usize>, elems: &Vec<u64>) -> (r:
    Result<Vec<u8>, WriteNpyError>)
    requires
        spec_elems_bounded(elems@, t),
        spec_elem_count(shape@) == Some(elems@.len() as nat),
    ensures
        ({
            let fr = rendered_record(spec_record_of(spec_file_header(t, fortran_order, shape@)));
            match r {
                Ok(out) => match fr {
                    Some(fmt) => match spec_version_choice(fmt.len()) {
                        Some(v) => out@ == spec_header_bytes(v, fmt) + spec_encode(
                            elems@,
                            spec_elem_width(t),
                        ),
                        None => false,
                    },
                    None => false,
                },
                Err(WriteNpyError::FormatHeader(FormatHeaderError::PyValue)) => fr is None,
                Err(WriteNpyError::FormatHeader(FormatHeaderError::HeaderTooLong)) => {
                    &&& fr is Some
                    &&& spec_version_choice(fr->0.len()) is None
                },
                Err(WriteNpyError::WriteData(_)) => false,
            }
        }),
{
    let sh = shape.clone();
    proof {
        assert(sh@ =~= shape@);
    }
    let header = Header { type_descriptor: t.type_descriptor(), fortran_order, shape: sh };
    let mut out = match header.to_bytes() {
        Ok(b) => b,
        Err(e) => {
            return Err(WriteNpyError::FormatHeader(e));
        },
    };
    let data = write_slice(t, elems);
    push_bytes(&mut out, data.as_slice());
    Ok(out)
}

/// The outcome of reading a whole file, at the model level.
pub enum NpyReadOutcome {
    /// The parsed header and the decoded element values.
    Complete { header: HeaderVal, elems: Seq<u64> },
    /// The header stage failed.
    Header(HeaderReadOutcome),
    /// The element count computed from the shape overflows.
    CountOverflow,
    /// The element stage failed.
    Data(ElemReadOutcome),
}

/// What a whole byte string denotes as a file of kind `t`: the header, the
/// element count from its shape (which must also fit `isize`), and the
/// element data in the remaining bytes.
pub open spec fn spec_read_npy(t: ElemType, bytes: Seq<u8>) -> NpyReadOutcome {
    match spec_read_header(bytes) {
        HeaderReadOutcome::Complete { header, consumed } => match spec_elem_count(header.shape) {
            None => NpyReadOutcome::CountOverflow,
            Some(len) => if len > isize::MAX {
                NpyReadOutcome::CountOverflow
            } else {
                let rest = bytes.subrange(consumed, bytes.len() as int);
                match spec_read_elems(t, header.descr, len, rest) {
                    ElemReadOutcome::Complete(es) => NpyReadOutcome::Complete {
                        header,
                        elems: es,
                    },
                    other => NpyReadOutcome::Data(other),
                }
            },
        },
        other => NpyReadOutcome::Header(other),
    }
}

/// Whether a whole-file read result reports exactly the model outcome.
pub open spec fn spec_npy_read_matches(
    o: NpyReadOutcome,
    r: Result<(Header, Vec<u64>), ReadNpyError>,
) -> bool {
    match r {
        Ok((h, es)) => o == (NpyReadOutcome::Complete { header: h@, elems: es@ }),
        Err(ReadNpyError::ReadHeader(e)) => {
            &&& o matches NpyReadOutcome::Header(ho) && spec_read_matches(
                ho,
                Result::<(Header, usize), _>::Err(e),
            )
        },
        Err(ReadNpyError::LengthOverflow) => o == NpyReadOutcome::CountOverflow,
        Err(ReadNpyError::ReadData(e)) => {
            &&& o matches NpyReadOutcome::Data(eo) && spec_elems_read_matches(
                eo,
                Result::<Vec<u64>, _>::Err(e),
            )
        },
    }
}

/// Reads a whole file of kind `t`: parses the header, computes the element
/// count from its shape, and decodes exactly that many elements from the
/// remaining bytes, detecting truncation and trailing garbage.
pub fn decode_npy(t: ElemType, bytes: &[u8]) -> (r: Result<(Header, Vec<u64>), ReadNpyError>)
    ensures
        spec_npy_read_matches(spec_read_npy(t, bytes@), r),
{
    let (header, consumed) = match Header::from_reader(bytes) {
        Ok(p) => p,
        Err(e) => {
            return Err(ReadNpyError::ReadHeader(e));
        },
    };
    let len = match elem_count(&header.shape) {
        Some(l) => l,
        None => {
            return Err(ReadNpyError::LengthOverflow);
        },
    };
    if len > (isize::MAX as usize) {
        return Err(ReadNpyError::LengthOverflow);
    }
    let rest = slice_subrange(bytes, consumed, bytes.len());
    match read_to_end_exact_vec(t, &header.type_descriptor, len, rest) {
        Ok(es) => Ok((header, es)),
        Err(e) => Err(ReadNpyError::ReadData(e)),
    }
}

/// Round trip of the whole-file codec: for every supported element kind,
/// every storage order, every shape, and every in-range element sequence
/// the shape accounts for, the bytes [`encode_npy`] produces read back as
/// exactly the same header and element values.
///
/// The `spec_record_text_round_trips` hypothesis is the collaborator
/// contract assumed of the outside literal formatter and parser (the record
/// renders to ASCII text, and that text, with its trailing padding, parses
/// back to the same record value); everything else — framing, version
/// selection, length and padding arithmetic, descriptor matching, the
/// boolean validity scan, and the element byte codec — is proved.
pub proof fn lemma_npy_round_trip(
    t: ElemType,
    fortran_order: bool,
    shape: Seq<usize>,
    es: Seq<u64>,
    v: crate::version::Version,
    fmt: Seq<u8>,
)
    requires
        spec_elems_bounded(es, t),
        t == ElemType::Bool ==> forall|i: int| 0 <= i < es.len() ==> es[i] <= 1,
        spec_elem_count(shape) == Some(es.len() as nat),
        es.len() <= isize::MAX,
        crate::header::spec_record_text_round_trips(
            spec_file_header(t, fortran_order, shape),
            fmt,
            v,
        ),
    ensures
        spec_read_npy(t, spec_header_bytes(v, fmt) + spec_encode(es, spec_elem_width(t)))
            == (NpyReadOutcome::Complete { header: spec_file_header(t, fortran_order, shape), elems: es }),
{
    let hv = spec_file_header(t, fortran_order, shape);
    let w = spec_elem_width(t);
    let data = spec_encode(es, w);
    let bytes = spec_header_bytes(v, fmt) + data;
    let total = crate::version::spec_total_len(v, fmt.len());
    crate::header::lemma_header_bytes_parse(hv, fmt, v, data);
    assert(spec_read_header(bytes) == (HeaderReadOutcome::Complete {
        header: hv,
        consumed: total as int,
    }));
    crate::wire::lemma_le_bytes_len(
        ((total - crate::version::spec_prefix_len(v)) as u64),
        crate::version::spec_header_len_width(v),
    );
    assert(spec_header_bytes(v, fmt).len() == total);
    assert(bytes.subrange(total as int, bytes.len() as int) =~= data);
    crate::elements::lemma_elements_round_trip(t, es);
    assert(spec_read_elems(t, hv.descr, es.len(), data) == ElemReadOutcome::Complete(es));
}

} // verus!
