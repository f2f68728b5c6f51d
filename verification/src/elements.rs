//! The element codec: one shared binary read/write routine over a closed set
//! of primitive element kinds, carrying each element as its fixed-width bit
//! pattern in a `u64`.  Multi-byte kinds are written little-endian and read
//! in the byte order their descriptor names; the one-byte boolean kind gets
//! its extra validity check.

use crate::error::ReadDataError;
use crate::record::{PyExpr, PyExprVal};
use crate::text::str_eq;
use crate::wire::{
    be_val, le_bytes, le_val, lemma_le_bytes_len, lemma_le_roundtrip, lemma_pow256_vals, pow256,
    push_le_bytes, read_be_val, read_le_val,
};
use vstd::prelude::*;

verus! {

/// A supported primitive element kind.  The two float kinds are carried as
/// their IEEE bit patterns; this codec never does float arithmetic.
#[derive(Clone, Copy, Debug, PartialEq, Eq, Structural)]
pub enum ElemType {
    Bool,
    I8,
    U8,
    I16,
    U16,
    I32,
    U32,
    I64,
    U64,
    F32,
    F64,
}

/// The width in bytes of one element of this kind.
pub open spec fn spec_elem_width(t: ElemType) -> nat {
    match t {
        ElemType::Bool | ElemType::I8 | ElemType::U8 => 1,
        ElemType::I16 | ElemType::U16 => 2,
        ElemType::I32 | ElemType::U32 | ElemType::F32 => 4,
        ElemType::I64 | ElemType::U64 | ElemType::F64 => 8,
    }
}

/// The descriptor string written for this kind: `|` for one-byte kinds,
/// little-endian `<` for the rest.
pub open spec fn spec_write_descr(t: ElemType) -> Seq<char> {
    match t {
        ElemType::Bool => "|b1"@,
        ElemType::I8 => "|i1"@,
        ElemType::U8 => "|u1"@,
        ElemType::I16 => "<i2"@,
        ElemType::U16 => "<u2"@,
        ElemType::I32 => "<i4"@,
        ElemType::U32 => "<u4"@,
        ElemType::I64 => "<i8"@,
        ElemType::U64 => "<u8"@,
        ElemType::F32 => "<f4"@,
        ElemType::F64 => "<f8"@,
    }
}

/// Whether a record value denotes this kind when reading, and in which byte
/// order: `Some(true)` is big-endian, `Some(false)` little-endian (or a
/// one-byte kind), `None` a foreign descriptor.  One-byte integer kinds also
/// accept their legacy aliases.
pub open spec fn spec_descr_match(t: ElemType, d: PyExprVal) -> Option<bool> {
    match d {
        PyExprVal::Str(s) => match t {
            ElemType::Bool => if s == "|b1"@ {
                Some(false)
            } else {
                None
            },
            ElemType::I8 => if s == "|i1"@ || s == "i1"@ || s == "b"@ {
                Some(false)
            } else {
                None
            },
            ElemType::U8 => if s == "|u1"@ || s == "u1"@ || s == "B"@ {
                Some(false)
            } else {
                None
            },
            ElemType::I16 => spec_multi_match(s, "<i2"@, ">i2"@),
            ElemType::U16 => spec_multi_match(s, "<u2"@, ">u2"@),
            ElemType::I32 => spec_multi_match(s, "<i4"@, ">i4"@),
            ElemType::U32 => spec_multi_match(s, "<u4"@, ">u4"@),
            ElemType::I64 => spec_multi_match(s, "<i8"@, ">i8"@),
            ElemType::U64 => spec_multi_match(s, "<u8"@, ">u8"@),
            ElemType::F32 => spec_multi_match(s, "<f4"@, ">f4"@),
            ElemType::F64 => spec_multi_match(s, "<f8"@, ">f8"@),
        },
        _ => None,
    }
}

/// The little/big descriptor pair of a multi-byte kind.
pub open spec fn spec_multi_match(s: Seq<char>, little: Seq<char>, big: Seq<char>) -> Option<bool> {
    if s == little {
        Some(false)
    } else if s == big {
        Some(true)
    } else {
        None
    }
}

/// Every element value fits in this kind's width.
pub open spec fn spec_elems_bounded(es: Seq<u64>, t: ElemType) -> bool {
    forall|i: int| 0 <= i < es.len() ==> (es[i] as nat) < pow256(spec_elem_width(t))
}

/// The little-endian serialization of a sequence of element values.
pub open spec fn spec_encode(es: Seq<u64>, w: nat) -> Seq<u8>
    decreases es.len(),
{
    if es.len() == 0 {
        Seq::empty()
    } else {
        le_bytes(es[0], w) + spec_encode(es.drop_first(), w)
    }
}

pub proof fn lemma_encode_len(es: Seq<u64>, w: nat)
    ensures
        spec_encode(es, w).len() == es.len() * w,
    decreases es.len(),
{
    if es.len() == 0 {
    } else {
        lemma_le_bytes_len(es[0], w);
        lemma_encode_len(es.drop_first(), w);
        assert((es.len() - 1) * w == es.len() * w - w) by (nonlinear_arith);
    }
}

pub proof fn lemma_encode_push(es: Seq<u64>, x: u64, w: nat)
    ensures
        spec_encode(es.push(x), w) == spec_encode(es, w) + le_bytes(x, w),
    decreases es.len(),
{
    if es.len() == 0 {
        assert(es.push(x)[0] == x);
        assert(es.push(x).drop_first() =~= Seq::<u64>::empty());
        assert(spec_encode(es.push(x), w) == le_bytes(x, w) + spec_encode(
            Seq::<u64>::empty(),
            w,
        ));
        assert(le_bytes(x, w) + Seq::<u8>::empty() =~= le_bytes(x, w));
        assert(spec_encode(Seq::<u64>::empty(), w) == Seq::<u8>::empty());
        assert(spec_encode(es, w) + le_bytes(x, w) =~= le_bytes(x, w));
    } else {
        assert(es.push(x).drop_first() =~= es.drop_first().push(x));
        lemma_encode_push(es.drop_first(), x, w);
        assert(spec_encode(es.push(x), w) =~= spec_encode(es, w) + le_bytes(x, w));
    }
}

impl ElemType {
    /// The width in bytes of one element of this kind.
    pub fn width(self) -> (r: usize)
        ensures
            r == spec_elem_width(self),
    {
        match self {
            ElemType::Bool | ElemType::I8 | ElemType::U8 => 1,
            ElemType::I16 | ElemType::U16 => 2,
            ElemType::I32 | ElemType::U32 | ElemType::F32 => 4,
            ElemType::I64 | ElemType::U64 | ElemType::F64 => 8,
        }
    }

    /// The descriptor string written for this kind.
    pub fn type_descriptor(self) -> (r: PyExpr)
        ensures
            r@ == PyExprVal::Str(spec_write_descr(self)),
    {
        let s: &str = match self {
            ElemType::Bool => "|b1",
            ElemType::I8 => "|i1",
            ElemType::U8 => "|u1",
            ElemType::I16 => "<i2",
            ElemType::U16 => "<u2",
            ElemType::I32 => "<i4",
            ElemType::U32 => "<u4",
            ElemType::I64 => "<i8",
            ElemType::U64 => "<u8",
            ElemType::F32 => "<f4",
            ElemType::F64 => "<f8",
        };
        PyExpr::Str(s.to_owned())
    }

    /// Whether a descriptor denotes this kind when reading, and in which
    /// byte order.
    pub fn descriptor_match(self, d: &PyExpr) -> (r: Option<bool>)
        ensures
            r == spec_descr_match(self, d@),
    {
        let s: &str = match d {
            PyExpr::Str(s) => s.as_str(),
            _ => {
                return None;
            },
        };
        match self {
            ElemType::Bool => if str_eq(s, "|b1") {
                Some(false)
            } else {
                None
            },
            ElemType::I8 => if str_eq(s, "|i1") || str_eq(s, "i1") || str_eq(s, "b") {
                Some(false)
            } else {
                None
            },
            ElemType::U8 => if str_eq(s, "|u1") || str_eq(s, "u1") || str_eq(s, "B") {
                Some(false)
            } else {
                None
            },
            ElemType::I16 => multi_match(s, "<i2", ">i2"),
            ElemType::U16 => multi_match(s, "<u2", ">u2"),
            ElemType::I32 => multi_match(s, "<i4", ">i4"),
            ElemType::U32 => multi_match(s, "<u4", ">u4"),
            ElemType::I64 => multi_match(s, "<i8", ">i8"),
            ElemType::U64 => multi_match(s, "<u8", ">u8"),
            ElemType::F32 => multi_match(s, "<f4", ">f4"),
            ElemType::F64 => multi_match(s, "<f8", ">f8"),
        }
    }
}

/// Tests a descriptor against the little/big pair of a multi-byte kind.
fn multi_match(s: &str, little: &str, big: &str) -> (r: Option<bool>)
    ensures
        r == spec_multi_match(s@, little@, big@),
{
    if str_eq(s, little) {
        Some(false)
    } else if str_eq(s, big) {
        Some(true)
    } else {
        None
    }
}

/// The value of the `i`-th `w`-byte word of `data`, in the given byte order.
pub open spec fn spec_word(data: Seq<u8>, w: nat, big: bool, i: int) -> u64 {
    let chunk = data.subrange(i * w, i * w + w);
    if big {
        be_val(chunk) as u64
    } else {
        le_val(chunk) as u64
    }
}

/// The element values of a byte string cut into `w`-byte words.
pub open spec fn spec_decode(data: Seq<u8>, w: nat, big: bool) -> Seq<u64> {
    Seq::new((data.len() as int / w as int) as nat, |i: int| spec_word(data, w, big, i))
}

/// The first byte that is not a legal boolean (neither 0 nor 1), if any.
pub open spec fn spec_first_nonbool(data: Seq<u8>) -> Option<u8>
    decreases data.len(),
{
    if data.len() == 0 {
        None
    } else if data[0] > 1 {
        Some(data[0])
    } else {
        spec_first_nonbool(data.drop_first())
    }
}

/// When no byte is flagged, every byte is 0 or 1.
pub proof fn lemma_first_nonbool_none(data: Seq<u8>)
    requires
        spec_first_nonbool(data) is None,
    ensures
        forall|i: int| 0 <= i < data.len() ==> data[i] <= 1,
    decreases data.len(),
{
    if data.len() > 0 {
        lemma_first_nonbool_none(data.drop_first());
        assert forall|i: int| 0 <= i < data.len() implies data[i] <= 1 by {
            if i > 0 {
                assert(data.drop_first()[i - 1] == data[i]);
            }
        }
    }
}

/// The outcome of decoding element data, at the model level.
pub enum ElemReadOutcome {
    /// The decoded element values.
    Complete(Seq<u64>),
    /// The descriptor does not denote the requested kind.
    WrongDescriptor(PyExprVal),
    /// Fewer bytes than the declared element count needs.
    Truncated,
    /// More bytes than the declared element count needs (how many more).
    Extra(int),
    /// A boolean element holds an illegal byte (the first such byte).
    BadBool(u8),
}

/// What a byte string denotes as `len` elements of kind `t` declared by
/// descriptor `d`: descriptor check, then exact length, then (for booleans)
/// the validity scan over the whole buffer, then the word decoding.
pub open spec fn spec_read_elems(t: ElemType, d: PyExprVal, len: nat, data: Seq<u8>) -> ElemReadOutcome {
    match spec_descr_match(t, d) {
        None => ElemReadOutcome::WrongDescriptor(d),
        Some(big) => {
            let w = spec_elem_width(t);
            if data.len() < len * w {
                ElemReadOutcome::Truncated
            } else if data.len() > len * w {
                ElemReadOutcome::Extra(data.len() - len * w)
            } else if t == ElemType::Bool && spec_first_nonbool(data) is Some {
                ElemReadOutcome::BadBool(spec_first_nonbool(data)->0)
            } else {
                ElemReadOutcome::Complete(spec_decode(data, w, big))
            }
        },
    }
}

/// Whether a decode result reports exactly the model outcome.
pub open spec fn spec_elems_read_matches(
    o: ElemReadOutcome,
    r: Result<Vec<u64>, ReadDataError>,
) -> bool {
    match r {
        Ok(es) => o == ElemReadOutcome::Complete(es@),
        Err(e) => match e {
            ReadDataError::WrongDescriptor(d) => o == ElemReadOutcome::WrongDescriptor(d@),
            ReadDataError::MissingData => o == ElemReadOutcome::Truncated,
            ReadDataError::ExtraBytes(n) => o == ElemReadOutcome::Extra(n as int),
            ReadDataError::ParseBoolError(b) => o == ElemReadOutcome::BadBool(b),
        },
    }
}

/// Reads exactly `len` elements of kind `t` from the whole of `data`: the
/// descriptor must denote `t`, the byte count must match exactly (missing
/// data and trailing extra bytes are distinct terminal conditions), and for
/// booleans every byte must be 0 or 1 before any value is produced.
pub fn read_to_end_exact_vec(t: ElemType, type_desc: &PyExpr, len: usize, data: &[u8]) -> (r:
    Result<Vec<u64>, ReadDataError>)
    ensures
        spec_elems_read_matches(spec_read_elems(t, type_desc@, len as nat, data@), r),
{
    let big = match t.descriptor_match(type_desc) {
        Some(b) => b,
        None => {
            return Err(ReadDataError::WrongDescriptor(type_desc.clone()));
        },
    };
    let w = t.width();
    let dl = data.len();
    let needed: u128 = (len as u128) * (w as u128);
    proof {
        assert((len as u128) * (w as u128) == (len as int) * (w as int)) by (nonlinear_arith)
            requires w <= 8;
    }
    if (dl as u128) < needed {
        return Err(ReadDataError::MissingData);
    }
    if (dl as u128) > needed {
        return Err(ReadDataError::ExtraBytes(dl - ((needed) as usize)));
    }
    if t == ElemType::Bool {
        let mut i: usize = 0;
        proof {
            assert(data@.skip(0) =~= data@);
        }
        while i < dl
            invariant
                i <= dl,
                dl == data@.len(),
                t == ElemType::Bool,
                spec_descr_match(t, type_desc@) == Some(big),
                dl == len * spec_elem_width(t),
                spec_first_nonbool(data@) == spec_first_nonbool(data@.skip(i as int)),
            decreases dl - i,
        {
            proof {
                assert(data@.skip(i as int)[0] == data@[i as int]);
                assert(data@.skip(i as int).drop_first() =~= data@.skip(i + 1));
            }
            if data[i] > 1 {
                proof {
                    assert(spec_first_nonbool(data@.skip(i as int)) == Some(data@[i as int]));
                }
                return Err(ReadDataError::ParseBoolError(data[i]));
            }
            i = i + 1;
        }
        proof {
            assert(data@.skip(dl as int) =~= Seq::<u8>::empty());
        }
    }
    let mut out: Vec<u64> = Vec::new();
    let mut i: usize = 0;
    while i < len
        invariant
            i <= len,
            out@.len() == i,
            w == spec_elem_width(t),
            1 <= w <= 8,
            dl == data@.len(),
            dl == len * w,
            forall|j: int| 0 <= j < i ==> out@[j] == spec_word(data@, w as nat, big, j),
        decreases len - i,
    {
        proof {
            assert((i + 1) * (w as int) <= (len as int) * (w as int) && (i as int) * (w as int)
                + w == (i + 1) * (w as int)) by (nonlinear_arith)
                requires i < len, 1 <= w;
        }
        let off = i * w;
        let v = if big {
            read_be_val(data, off, w)
        } else {
            read_le_val(data, off, w)
        };
        out.push(v);
        i = i + 1;
    }
    proof {
        assert((len as int) * (w as int) / (w as int) == len) by (nonlinear_arith)
            requires 1 <= w;
        assert(out@ =~= spec_decode(data@, w as nat, big));
    }
    Ok(out)
}

/// Returns `Ok(())` iff no bytes remained past the element data.
pub fn check_for_extra_bytes(num_extra_bytes: usize) -> (r: Result<(), ReadDataError>)
    ensures
        match r {
            Ok(()) => num_extra_bytes == 0,
            Err(e) => {
                &&& num_extra_bytes > 0
                &&& e matches ReadDataError::ExtraBytes(n) && n == num_extra_bytes
            },
        },
{
    if num_extra_bytes == 0 {
        Ok(())
    } else {
        Err(ReadDataError::ExtraBytes(num_extra_bytes))
    }
}

/// Serializes the given element values contiguously, little-endian.
pub fn write_slice(t: ElemType, elems: &Vec<u64>) -> (r: Vec<u8>)
    requires
        spec_elems_bounded(elems@, t),
    ensures
        r@ == spec_encode(elems@, spec_elem_width(t)),
        r@.len() == elems@.len() * spec_elem_width(t),
{
    let w = t.width();
    let n = elems.len();
    let mut out: Vec<u8> = Vec::new();
    let mut i: usize = 0;
    proof {
        assert(elems@.take(0) =~= Seq::<u64>::empty());
    }
    while i < n
        invariant
            i <= n,
            n == elems@.len(),
            w == spec_elem_width(t),
            w <= 8,
            out@ == spec_encode(elems@.take(i as int), spec_elem_width(t)),
        decreases n - i,
    {
        proof {
            assert(elems@.take(i + 1) =~= elems@.take(i as int).push(elems@[i as int]));
            lemma_encode_push(elems@.take(i as int), elems@[i as int], spec_elem_width(t));
        }
        push_le_bytes(&mut out, elems[i], w);
        i = i + 1;
    }
    proof {
        assert(elems@.take(n as int) =~= elems@);
        lemma_encode_len(elems@, spec_elem_width(t));
    }
    out
}

/// Reads `len` boolean elements: like [`read_to_end_exact_vec`] for the
/// boolean kind, with the values handed out as `bool`s.
pub fn decode_bools(type_desc: &PyExpr, len: usize, data: &[u8]) -> (r: Result<
    Vec<bool>,
    ReadDataError,
>)
    ensures
        ({
            let o = spec_read_elems(ElemType::Bool, type_desc@, len as nat, data@);
            match r {
                Ok(bs) => {
                    &&& o matches ElemReadOutcome::Complete(es)
                    &&& bs@.len() == es.len()
                    &&& forall|i: int| 0 <= i < es.len() ==> bs@[i] == (es[i] == 1)
                },
                Err(e) => spec_elems_read_matches(o, Err(e)),
            }
        }),
{
    let es = match read_to_end_exact_vec(ElemType::Bool, type_desc, len, data) {
        Ok(es) => es,
        Err(e) => {
            return Err(e);
        },
    };
    let mut bs: Vec<bool> = Vec::new();
    let n = es.len();
    let mut i: usize = 0;
    while i < n
        invariant
            i <= n,
            n == es@.len(),
            bs@.len() == i,
            forall|j: int| 0 <= j < i ==> bs@[j] == (es@[j] == 1),
        decreases n - i,
    {
        bs.push(es[i] == 1);
        i = i + 1;
    }
    Ok(bs)
}

/// The element values of a sequence of booleans: 1 for true, 0 for false.
pub fn bools_to_elems(vals: &Vec<bool>) -> (r: Vec<u64>)
    ensures
        r@.len() == vals@.len(),
        forall|i: int| 0 <= i < vals@.len() ==> r@[i] == if vals@[i] {
            1u64
        } else {
            0u64
        },
        spec_elems_bounded(r@, ElemType::Bool),
        forall|i: int| 0 <= i < r@.len() ==> r@[i] <= 1,
{
    let mut r: Vec<u64> = Vec::new();
    let n = vals.len();
    let mut i: usize = 0;
    while i < n
        invariant
            i <= n,
            n == vals@.len(),
            r@.len() == i,
            forall|j: int| 0 <= j < i ==> r@[j] == if vals@[j] {
                1u64
            } else {
                0u64
            },
        decreases n - i,
    {
        r.push(if vals[i] {
            1
        } else {
            0
        });
        i = i + 1;
    }
    proof {
        lemma_pow256_vals();
    }
    r
}

/// Each element's bytes stand at their place in the serialization.
pub proof fn lemma_encode_index(es: Seq<u64>, w: nat, i: int)
    requires
        1 <= w,
        0 <= i < es.len(),
    ensures
        spec_encode(es, w).subrange(i * w, i * w + w) == le_bytes(es[i], w),
    decreases i,
{
    lemma_encode_len(es, w);
    lemma_le_bytes_len(es[0], w);
    lemma_encode_len(es.drop_first(), w);
    assert((es.len() - 1) * w == es.len() * w - w) by (nonlinear_arith);
    if i == 0 {
        assert(i * w == 0);
        assert(spec_encode(es, w).subrange(0, w as int) =~= le_bytes(es[0], w));
        assert(spec_encode(es, w).subrange(i * w, i * w + w) == le_bytes(es[i], w));
    } else {
        lemma_encode_index(es.drop_first(), w, i - 1);
        assert((i - 1) * w == i * w - w) by (nonlinear_arith);
        assert(i * w >= w) by (nonlinear_arith)
            requires 1 <= w, i >= 1;
        assert(i * w + w <= es.len() * w) by (nonlinear_arith)
            requires 1 <= w, i < es.len();
        assert(spec_encode(es, w).subrange(i * w, i * w + w) =~= spec_encode(
            es.drop_first(),
            w,
        ).subrange((i - 1) * w, (i - 1) * w + w));
        assert(es.drop_first()[i - 1] == es[i]);
        assert(spec_encode(es, w).subrange(i * w, i * w + w) == le_bytes(es[i], w));
    }
}

/// Cutting the serialization back into words recovers the element values.
pub proof fn lemma_decode_encode(es: Seq<u64>, w: nat)
    requires
        1 <= w,
        forall|i: int| 0 <= i < es.len() ==> (es[i] as nat) < pow256(w),
    ensures
        spec_decode(spec_encode(es, w), w, false) == es,
{
    lemma_encode_len(es, w);
    assert((es.len() as int) * (w as int) / (w as int) == es.len()) by (nonlinear_arith)
        requires 1 <= w;
    assert forall|i: int| 0 <= i < es.len() implies spec_word(
        spec_encode(es, w),
        w,
        false,
        i,
    ) == es[i] by {
        lemma_encode_index(es, w, i);
        lemma_le_roundtrip(es[i], w);
    }
    assert(spec_decode(spec_encode(es, w), w, false) =~= es);
}

/// A serialization of legal boolean values passes the validity scan.
pub proof fn lemma_encode_bools_valid(es: Seq<u64>)
    requires
        forall|i: int| 0 <= i < es.len() ==> es[i] <= 1,
    ensures
        spec_first_nonbool(spec_encode(es, 1)) is None,
    decreases es.len(),
{
    if es.len() > 0 {
        let enc = spec_encode(es, 1);
        assert(le_bytes(es[0] / 256, 0) == Seq::<u8>::empty());
        assert(le_bytes(es[0], 1) =~= seq![(es[0] % 256) as u8]);
        assert(enc[0] == (es[0] % 256) as u8);
        assert(enc[0] <= 1);
        lemma_encode_len(es.drop_first(), 1);
        assert(enc.drop_first() =~= spec_encode(es.drop_first(), 1));
        lemma_encode_bools_valid(es.drop_first());
    }
}

/// Boolean validity: whenever a boolean read completes, it decoded one
/// element per input byte, every produced value is the byte at its place,
/// and every such value is 0 or 1 — no byte other than 0 or 1 ever becomes
/// a boolean element.
pub proof fn lemma_bool_elements_are_bits(d: PyExprVal, len: nat, data: Seq<u8>)
    ensures
        spec_read_elems(ElemType::Bool, d, len, data) matches ElemReadOutcome::Complete(es)
            ==> es.len() == len && forall|i: int|
            0 <= i < es.len() ==> es[i] == data[i] && es[i] <= 1,
{
    match spec_read_elems(ElemType::Bool, d, len, data) {
        ElemReadOutcome::Complete(es) => {
            lemma_first_nonbool_none(data);
            assert(spec_elem_width(ElemType::Bool) == 1);
            assert(!(data.len() < len * spec_elem_width(ElemType::Bool)) && !(data.len() > len
                * spec_elem_width(ElemType::Bool)));
            assert(data.len() == len * 1) by (nonlinear_arith)
                requires !(data.len() < len * 1) && !(data.len() > len * 1);
            assert(data.len() == len);
            assert(es.len() == len);
            assert forall|i: int| 0 <= i < es.len() implies es[i] == data[i] && es[i] <= 1 by {
                assert(es[i] == spec_word(data, 1, false, i));
                let chunk = data.subrange(i, i + 1);
                assert(chunk.len() == 1);
                assert(chunk[0] == data[i]);
                assert(chunk.drop_first() =~= Seq::<u8>::empty());
                assert(le_val(Seq::<u8>::empty()) == 0);
                assert(le_val(chunk) == data[i]);
            }
        },
        _ => {},
    }
}

/// Round trip of the element codec: for every kind and every in-range
/// element sequence, serializing and then reading back with the kind's own
/// descriptor and exact count yields exactly the original values.
pub proof fn lemma_elements_round_trip(t: ElemType, es: Seq<u64>)
    requires
        spec_elems_bounded(es, t),
        t == ElemType::Bool ==> forall|i: int| 0 <= i < es.len() ==> es[i] <= 1,
    ensures
        spec_read_elems(
            t,
            PyExprVal::Str(spec_write_descr(t)),
            es.len(),
            spec_encode(es, spec_elem_width(t)),
        ) == ElemReadOutcome::Complete(es),
{
    let w = spec_elem_width(t);
    assert(spec_descr_match(t, PyExprVal::Str(spec_write_descr(t))) == Some(false));
    lemma_encode_len(es, w);
    if t == ElemType::Bool {
        lemma_encode_bools_valid(es);
    }
    lemma_decode_encode(es, w);
}

/// Descriptor strictness: a descriptor written for one kind is never
/// accepted when reading any other kind, whatever the count and data; the
/// read reports exactly a wrong descriptor.
#[verifier::rlimit(100)]
#[verifier::spinoff_prover]
pub proof fn lemma_descriptor_strictness(t1: ElemType, t2: ElemType, len: nat, data: Seq<u8>)
    requires
        t1 != t2,
    ensures
        spec_descr_match(t2, PyExprVal::Str(spec_write_descr(t1))) is None,
        spec_read_elems(t2, PyExprVal::Str(spec_write_descr(t1)), len, data)
            == ElemReadOutcome::WrongDescriptor(PyExprVal::Str(spec_write_descr(t1))),
{
    reveal_strlit("|b1");
    reveal_strlit("|i1");
    reveal_strlit("|u1");
    reveal_strlit("i1");
    reveal_strlit("u1");
    reveal_strlit("b");
    reveal_strlit("B");
    reveal_strlit("<i2");
    reveal_strlit("<u2");
    reveal_strlit("<i4");
    reveal_strlit("<u4");
    reveal_strlit("<i8");
    reveal_strlit("<u8");
    reveal_strlit("<f4");
    reveal_strlit("<f8");
    reveal_strlit(">i2");
    reveal_strlit(">u2");
    reveal_strlit(">i4");
    reveal_strlit(">u4");
    reveal_strlit(">i8");
    reveal_strlit(">u8");
    reveal_strlit(">f4");
    reveal_strlit(">f8");
    assert(("|b1"@).len() == 3 && ("|b1"@)[0] == '|' && ("|b1"@)[1] == 'b' && ("|b1"@)[2] == '1');
    assert(("|i1"@).len() == 3 && ("|i1"@)[0] == '|' && ("|i1"@)[1] == 'i' && ("|i1"@)[2] == '1');
    assert(("|u1"@).len() == 3 && ("|u1"@)[0] == '|' && ("|u1"@)[1] == 'u' && ("|u1"@)[2] == '1');
    assert(("i1"@).len() == 2 && ("i1"@)[0] == 'i' && ("i1"@)[1] == '1');
    assert(("u1"@).len() == 2 && ("u1"@)[0] == 'u' && ("u1"@)[1] == '1');
    assert(("b"@).len() == 1 && ("b"@)[0] == 'b');
    assert(("B"@).len() == 1 && ("B"@)[0] == 'B');
    assert(("<i2"@).len() == 3 && ("<i2"@)[0] == '<' && ("<i2"@)[1] == 'i' && ("<i2"@)[2] == '2');
    assert(("<u2"@).len() == 3 && ("<u2"@)[0] == '<' && ("<u2"@)[1] == 'u' && ("<u2"@)[2] == '2');
    assert(("<i4"@).len() == 3 && ("<i4"@)[0] == '<' && ("<i4"@)[1] == 'i' && ("<i4"@)[2] == '4');
    assert(("<u4"@).len() == 3 && ("<u4"@)[0] == '<' && ("<u4"@)[1] == 'u' && ("<u4"@)[2] == '4');
    assert(("<i8"@).len() == 3 && ("<i8"@)[0] == '<' && ("<i8"@)[1] == 'i' && ("<i8"@)[2] == '8');
    assert(("<u8"@).len() == 3 && ("<u8"@)[0] == '<' && ("<u8"@)[1] == 'u' && ("<u8"@)[2] == '8');
    assert(("<f4"@).len() == 3 && ("<f4"@)[0] == '<' && ("<f4"@)[1] == 'f' && ("<f4"@)[2] == '4');
    assert(("<f8"@).len() == 3 && ("<f8"@)[0] == '<' && ("<f8"@)[1] == 'f' && ("<f8"@)[2] == '8');
    assert((">i2"@).len() == 3 && (">i2"@)[0] == '>' && (">i2"@)[1] == 'i' && (">i2"@)[2] == '2');
    assert((">u2"@).len() == 3 && (">u2"@)[0] == '>' && (">u2"@)[1] == 'u' && (">u2"@)[2] == '2');
    assert((">i4"@).len() == 3 && (">i4"@)[0] == '>' && (">i4"@)[1] == 'i' && (">i4"@)[2] == '4');
    assert((">u4"@).len() == 3 && (">u4"@)[0] == '>' && (">u4"@)[1] == 'u' && (">u4"@)[2] == '4');
    assert((">i8"@).len() == 3 && (">i8"@)[0] == '>' && (">i8"@)[1] == 'i' && (">i8"@)[2] == '8');
    assert((">u8"@).len() == 3 && (">u8"@)[0] == '>' && (">u8"@)[1] == 'u' && (">u8"@)[2] == '8');
    assert((">f4"@).len() == 3 && (">f4"@)[0] == '>' && (">f4"@)[1] == 'f' && (">f4"@)[2] == '4');
    assert((">f8"@).len() == 3 && (">f8"@)[0] == '>' && (">f8"@)[1] == 'f' && (">f8"@)[2] == '8');
    if t1 == ElemType::Bool {
        assert(spec_descr_match(t2, PyExprVal::Str(spec_write_descr(t1))) is None);
    }
    if t1 == ElemType::I8 {
        assert(spec_descr_match(t2, PyExprVal::Str(spec_write_descr(t1))) is None);
    }
    if t1 == ElemType::U8 {
        assert(spec_descr_match(t2, PyExprVal::Str(spec_write_descr(t1))) is None);
    }
    if t1 == ElemType::I16 {
        assert(spec_descr_match(t2, PyExprVal::Str(spec_write_descr(t1))) is None);
    }
    if t1 == ElemType::U16 {
        assert(spec_descr_match(t2, PyExprVal::Str(spec_write_descr(t1))) is None);
    }
    if t1 == ElemType::I32 {
        assert(spec_descr_match(t2, PyExprVal::Str(spec_write_descr(t1))) is None);
    }
    if t1 == ElemType::U32 {
        assert(spec_descr_match(t2, PyExprVal::Str(spec_write_descr(t1))) is None);
    }
    if t1 == ElemType::I64 {
        assert(spec_descr_match(t2, PyExprVal::Str(spec_write_descr(t1))) is None);
    }
    if t1 == ElemType::U64 {
        assert(spec_descr_match(t2, PyExprVal::Str(spec_write_descr(t1))) is None);
    }
    if t1 == ElemType::F32 {
        assert(spec_descr_match(t2, PyExprVal::Str(spec_write_descr(t1))) is None);
    }
    if t1 == ElemType::F64 {
        assert(spec_descr_match(t2, PyExprVal::Str(spec_write_descr(t1))) is None);
    }
}

} // verus!
