//! The header codec: parsing the versioned binary preamble and its embedded
//! descriptive record from bytes, and formatting a header back into padded,
//! newline-terminated bytes with automatic version selection.

use crate::error::{FormatHeaderError, ParseHeaderError, ReadHeaderError};
use crate::record::{
    parse_record, parsed_record, render_record, rendered_record, PyExpr, PyExprVal, PyRecord,
    PyRecordVal,
};
use crate::text::{
    all_ascii, ascii_chars_of, bytes_all_ascii, bytes_to_str, lemma_ascii_decode, str_eq,
};
use crate::version::{
    spec_header_len_width, spec_major_version, spec_max_header_len, spec_prefix_len,
    spec_total_len, spec_version_of_bytes, Version,
};
use crate::wire::{le_bytes, le_val, push_bytes};
use vstd::prelude::*;
use vstd::slice::slice_subrange;
use vstd::utf8::{decode_utf8, valid_utf8};

verus! {

/// The magic marker every file starts with.
pub open spec fn spec_magic() -> Seq<u8> {
    seq![0x93u8, 0x4eu8, 0x55u8, 0x4du8, 0x50u8, 0x59u8]
}

/// A parsed or to-be-written header: the element type descriptor, the
/// storage-order flag (`true` for column-major), and the shape.
#[derive(Debug)]
pub struct Header {
    pub type_descriptor: PyExpr,
    pub fortran_order: bool,
    pub shape: Vec<usize>,
}

/// The mathematical value of a [`Header`].
pub struct HeaderVal {
    pub descr: PyExprVal,
    pub fortran_order: bool,
    pub shape: Seq<usize>,
}

impl View for Header {
    type V = HeaderVal;

    open spec fn view(&self) -> HeaderVal {
        HeaderVal {
            descr: self.type_descriptor@,
            fortran_order: self.fortran_order,
            shape: self.shape@,
        }
    }
}

impl Clone for Header {
    fn clone(&self) -> (res: Self)
        ensures
            res@ == self@,
    {
        let res = Header {
            type_descriptor: self.type_descriptor.clone(),
            fortran_order: self.fortran_order,
            shape: self.shape.clone(),
        };
        proof {
            assert(res.shape@ =~= self.shape@);
        }
        res
    }
}

/// The outcome of interpreting a record value as a header, at the model
/// level.
pub enum RecordOutcome {
    Complete(HeaderVal),
    NotDict(PyExprVal),
    UnknownKey(PyExprVal),
    IllegalValue { key: Seq<char>, value: PyExprVal },
    MissingKey(Seq<char>),
}

/// Scans the record's key/value pairs in order, filling the three recognized
/// slots; a later binding of a key replaces an earlier one.  The first
/// unrecognized key or ill-typed value is the outcome; a missing slot is
/// reported in the fixed order of the keys.
pub open spec fn scan_entries(
    es: Seq<(PyExprVal, PyExprVal)>,
    d: Option<PyExprVal>,
    f: Option<bool>,
    s: Option<Seq<usize>>,
) -> RecordOutcome
    decreases es.len(),
{
    if es.len() == 0 {
        if d is None {
            RecordOutcome::MissingKey("descr"@)
        } else if f is None {
            RecordOutcome::MissingKey("fortran_order"@)
        } else if s is None {
            RecordOutcome::MissingKey("shape"@)
        } else {
            RecordOutcome::Complete(
                HeaderVal { descr: d->0, fortran_order: f->0, shape: s->0 },
            )
        }
    } else {
        let kv = es[0];
        if kv.0 == PyExprVal::Str("descr"@) {
            scan_entries(es.drop_first(), Some(kv.1), f, s)
        } else if kv.0 == PyExprVal::Str("fortran_order"@) {
            match kv.1 {
                PyExprVal::Bool(b) => scan_entries(es.drop_first(), d, Some(b), s),
                _ => RecordOutcome::IllegalValue { key: "fortran_order"@, value: kv.1 },
            }
        } else if kv.0 == PyExprVal::Str("shape"@) {
            match kv.1 {
                PyExprVal::IntTuple(t) => scan_entries(es.drop_first(), d, f, Some(t)),
                _ => RecordOutcome::IllegalValue { key: "shape"@, value: kv.1 },
            }
        } else {
            RecordOutcome::UnknownKey(kv.0)
        }
    }
}

/// What a whole record value denotes as a header.
pub open spec fn spec_interpret_record(rec: PyRecordVal) -> RecordOutcome {
    match rec {
        PyRecordVal::Scalar(e) => RecordOutcome::NotDict(e),
        PyRecordVal::Dict(es) => scan_entries(es, None, None, None),
    }
}

/// Whether the result of [`Header::from_py_value`] reports exactly the model
/// outcome of its argument.
pub open spec fn spec_from_py_matches(
    rec: PyRecordVal,
    r: Result<Header, ParseHeaderError>,
) -> bool {
    let o = spec_interpret_record(rec);
    match r {
        Ok(h) => o == RecordOutcome::Complete(h@),
        Err(e) => match e {
            ParseHeaderError::MetaNotDict(v) => o == RecordOutcome::NotDict(v@),
            ParseHeaderError::UnknownKey(k) => o == RecordOutcome::UnknownKey(k@),
            ParseHeaderError::IllegalValue { key, value } => o == (RecordOutcome::IllegalValue {
                key: key@,
                value: value@,
            }),
            ParseHeaderError::MissingKey(k) => o == RecordOutcome::MissingKey(k@),
            _ => false,
        },
    }
}

/// The record value a header is written as: a dictionary binding the three
/// recognized keys in their fixed order.
pub open spec fn spec_record_of(h: HeaderVal) -> PyRecordVal {
    PyRecordVal::Dict(
        seq![
            (PyExprVal::Str("descr"@), h.descr),
            (PyExprVal::Str("fortran_order"@), PyExprVal::Bool(h.fortran_order)),
            (PyExprVal::Str("shape"@), PyExprVal::IntTuple(h.shape)),
        ],
    )
}

/// The view of an optional descriptor slot.
pub open spec fn opt_expr_view(o: Option<PyExpr>) -> Option<PyExprVal> {
    match o {
        Some(e) => Some(e@),
        None => None,
    }
}

/// The view of an optional shape slot.
pub open spec fn opt_shape_view(o: Option<Vec<usize>>) -> Option<Seq<usize>> {
    match o {
        Some(v) => Some(v@),
        None => None,
    }
}

/// The outcome of reading a header from a byte string, at the model level.
pub enum HeaderReadOutcome {
    /// A well-formed header of `consumed` bytes.
    Complete { header: HeaderVal, consumed: int },
    /// The input ended before the header was complete.
    TruncatedInput,
    /// The input does not start with the magic marker.
    BadMagic,
    /// Unknown version bytes.
    BadVersion { major: u8, minor: u8 },
    /// The declared record length does not fit in `usize`.
    LengthOverflow(u32),
    /// The header block does not end with a newline.
    NoNewline,
    /// Non-ASCII record text under a legacy version.
    NotAscii,
    /// Record text of the newest version is not valid UTF-8.
    BadUtf8,
    /// The record text is not a well-formed literal.
    Syntax,
    /// The record parsed but does not denote a header.
    Record(RecordOutcome),
}

/// The record-text stage of reading a header: text rules per version, then
/// the outside literal parser, then the record interpretation.
pub open spec fn spec_read_text(v: Version, text_bytes: Seq<u8>, consumed: int) -> HeaderReadOutcome {
    if (v == Version::V1_0 || v == Version::V2_0) && !all_ascii(text_bytes) {
        HeaderReadOutcome::NotAscii
    } else if v == Version::V3_0 && !valid_utf8(text_bytes) {
        HeaderReadOutcome::BadUtf8
    } else {
        match parsed_record(decode_utf8(text_bytes)) {
            None => HeaderReadOutcome::Syntax,
            Some(rec) => match spec_interpret_record(rec) {
                RecordOutcome::Complete(h) => HeaderReadOutcome::Complete { header: h, consumed },
                other => HeaderReadOutcome::Record(other),
            },
        }
    }
}

/// What the front of a byte string denotes as a header: the staged parse of
/// magic marker, version bytes, length field, record block and trailing
/// newline, then the record text.
pub open spec fn spec_read_header(bytes: Seq<u8>) -> HeaderReadOutcome {
    if bytes.len() < 6 {
        HeaderReadOutcome::TruncatedInput
    } else if bytes.subrange(0, 6) != spec_magic() {
        HeaderReadOutcome::BadMagic
    } else if bytes.len() < 8 {
        HeaderReadOutcome::TruncatedInput
    } else {
        match spec_version_of_bytes(bytes[6], bytes[7]) {
            None => HeaderReadOutcome::BadVersion { major: bytes[6], minor: bytes[7] },
            Some(v) => {
                let w = spec_header_len_width(v);
                if bytes.len() < 8 + w as int {
                    HeaderReadOutcome::TruncatedInput
                } else {
                    let lv = le_val(bytes.subrange(8, 8 + w as int));
                    if lv > usize::MAX {
                        HeaderReadOutcome::LengthOverflow(lv as u32)
                    } else {
                        let start = 8 + w;
                        if bytes.len() < start + lv {
                            HeaderReadOutcome::TruncatedInput
                        } else {
                            let block = bytes.subrange(start as int, (start + lv) as int);
                            if lv == 0 || block.last() != 10 {
                                HeaderReadOutcome::NoNewline
                            } else {
                                spec_read_text(v, block.drop_last(), (start + lv) as int)
                            }
                        }
                    }
                }
            },
        }
    }
}

/// Whether the result of [`Header::from_reader`] reports exactly the model
/// outcome of its input.
pub open spec fn spec_read_matches(
    o: HeaderReadOutcome,
    r: Result<(Header, usize), ReadHeaderError>,
) -> bool {
    match r {
        Ok((h, n)) => o == (HeaderReadOutcome::Complete { header: h@, consumed: n as int }),
        Err(ReadHeaderError::Io) => o == HeaderReadOutcome::TruncatedInput,
        Err(ReadHeaderError::Parse(p)) => match p {
            ParseHeaderError::MagicString => o == HeaderReadOutcome::BadMagic,
            ParseHeaderError::Version { major, minor } => o == (HeaderReadOutcome::BadVersion {
                major,
                minor,
            }),
            ParseHeaderError::HeaderLengthOverflow(v) => o == HeaderReadOutcome::LengthOverflow(v),
            ParseHeaderError::MissingNewline => o == HeaderReadOutcome::NoNewline,
            ParseHeaderError::NonAscii => o == HeaderReadOutcome::NotAscii,
            ParseHeaderError::Utf8Parse => o == HeaderReadOutcome::BadUtf8,
            ParseHeaderError::DictParse => o == HeaderReadOutcome::Syntax,
            ParseHeaderError::MetaNotDict(v) => o == HeaderReadOutcome::Record(
                RecordOutcome::NotDict(v@),
            ),
            ParseHeaderError::UnknownKey(k) => o == HeaderReadOutcome::Record(
                RecordOutcome::UnknownKey(k@),
            ),
            ParseHeaderError::IllegalValue { key, value } => o == HeaderReadOutcome::Record(
                RecordOutcome::IllegalValue { key: key@, value: value@ },
            ),
            ParseHeaderError::MissingKey(k) => o == HeaderReadOutcome::Record(
                RecordOutcome::MissingKey(k@),
            ),
        },
    }
}

impl Header {
    /// Interprets a parsed record value as a header: the record must be a
    /// dictionary holding exactly the keys `descr`, `fortran_order` (a
    /// boolean) and `shape` (a tuple of non-negative integers), each at least
    /// once.
    pub fn from_py_value(value: PyRecord) -> (r: Result<Header, ParseHeaderError>)
        ensures
            spec_from_py_matches(value@, r),
    {
        let ghost rec0 = value@;
        let entries: &Vec<(PyExpr, PyExpr)> = match &value {
            PyRecord::Dict(entries) => entries,
            PyRecord::Scalar(e) => {
                return Err(ParseHeaderError::MetaNotDict(e.clone()));
            },
        };
        let ghost evs = rec0->Dict_0;
        let mut type_descriptor: Option<PyExpr> = None;
        let mut fortran_order: Option<bool> = None;
        let mut shape: Option<Vec<usize>> = None;
        let n = entries.len();
        let mut i: usize = 0;
        proof {
            assert(evs.skip(0) =~= evs);
        }
        while i < n
            invariant
                i <= n,
                n == entries@.len(),
                rec0 == value@,
                rec0 is Dict,
                evs == rec0->Dict_0,
                evs == Seq::new(entries@.len(), |k: int| (entries@[k].0@, entries@[k].1@)),
                spec_interpret_record(rec0) == scan_entries(
                    evs.skip(i as int),
                    opt_expr_view(type_descriptor),
                    fortran_order,
                    opt_shape_view(shape),
                ),
            decreases n - i,
        {
            proof {
                assert(evs.skip(i as int)[0] == evs[i as int]);
                assert(evs.skip(i as int).drop_first() =~= evs.skip(i + 1));
            }
            match &entries[i].0 {
                PyExpr::Str(k) => {
                    if str_eq(k.as_str(), "descr") {
                        type_descriptor = Some(entries[i].1.clone());
                    } else if str_eq(k.as_str(), "fortran_order") {
                        match &entries[i].1 {
                            PyExpr::Bool(b) => {
                                fortran_order = Some(*b);
                            },
                            _ => {
                                return Err(
                                    ParseHeaderError::IllegalValue {
                                        key: ("fortran_order").to_owned(),
                                        value: entries[i].1.clone(),
                                    },
                                );
                            },
                        }
                    } else if str_eq(k.as_str(), "shape") {
                        match &entries[i].1 {
                            PyExpr::IntTuple(t) => {
                                let w = t.clone();
                                proof {
                                    assert(w@ =~= t@);
                                }
                                shape = Some(w);
                            },
                            _ => {
                                return Err(
                                    ParseHeaderError::IllegalValue {
                                        key: ("shape").to_owned(),
                                        value: entries[i].1.clone(),
                                    },
                                );
                            },
                        }
                    } else {
                        return Err(ParseHeaderError::UnknownKey(entries[i].0.clone()));
                    }
                },
                _ => {
                    return Err(ParseHeaderError::UnknownKey(entries[i].0.clone()));
                },
            }
            i = i + 1;
        }
        proof {
            assert(evs.skip(n as int) =~= Seq::<(PyExprVal, PyExprVal)>::empty());
        }
        match (type_descriptor, fortran_order, shape) {
            (Some(type_descriptor), Some(fortran_order), Some(shape)) => Ok(
                Header { type_descriptor, fortran_order, shape },
            ),
            (None, _, _) => Err(ParseHeaderError::MissingKey(("descr").to_owned())),
            (_, None, _) => Err(ParseHeaderError::MissingKey(("fortran_order").to_owned())),
            (_, _, None) => Err(ParseHeaderError::MissingKey(("shape").to_owned())),
        }
    }

    /// Reads a header from the front of `bytes`, returning it together with
    /// the number of bytes the whole header occupies (the element data starts
    /// right after).  Every way the input can be malformed is classified by
    /// [`spec_read_header`].
    pub fn from_reader(bytes: &[u8]) -> (r: Result<(Header, usize), ReadHeaderError>)
        ensures
            spec_read_matches(spec_read_header(bytes@), r),
    {
        let n = bytes.len();
        if n < 6 {
            return Err(ReadHeaderError::Io);
        }
        if !(bytes[0] == 0x93 && bytes[1] == 0x4e && bytes[2] == 0x55 && bytes[3] == 0x4d
            && bytes[4] == 0x50 && bytes[5] == 0x59) {
            proof {
                assert(bytes@.subrange(0, 6) != spec_magic());
            }
            return Err(ReadHeaderError::Parse(ParseHeaderError::MagicString));
        }
        proof {
            assert(bytes@.subrange(0, 6) =~= spec_magic());
        }
        if n < 8 {
            return Err(ReadHeaderError::Io);
        }
        let version = match Version::from_bytes(slice_subrange(bytes, 6, 8)) {
            Ok(v) => v,
            Err(e) => {
                return Err(ReadHeaderError::Parse(e));
            },
        };
        let w = version.header_len_num_bytes();
        if n - 8 < w {
            return Err(ReadHeaderError::Io);
        }
        let header_len = match version.read_header_len(slice_subrange(bytes, 8, 8 + w)) {
            Ok(l) => l,
            Err(e) => {
                return Err(e);
            },
        };
        let start = 8 + w;
        if n - start < header_len {
            return Err(ReadHeaderError::Io);
        }
        let ghost block = bytes@.subrange(start as int, start + header_len);
        if header_len == 0 {
            return Err(ReadHeaderError::Parse(ParseHeaderError::MissingNewline));
        }
        if bytes[start + header_len - 1] != 10 {
            proof {
                assert(block.last() == bytes@[start + header_len - 1]);
            }
            return Err(ReadHeaderError::Parse(ParseHeaderError::MissingNewline));
        }
        let text_bytes = slice_subrange(bytes, start, start + header_len - 1);
        proof {
            assert(block.last() == bytes@[start + header_len - 1]);
            assert(text_bytes@ =~= block.drop_last());
        }
        let is_legacy = match version {
            Version::V1_0 | Version::V2_0 => true,
            Version::V3_0 => false,
        };
        let text: &str = if is_legacy {
            if !bytes_all_ascii(text_bytes) {
                return Err(ReadHeaderError::Parse(ParseHeaderError::NonAscii));
            }
            proof {
                lemma_ascii_decode(text_bytes@);
            }
            match bytes_to_str(text_bytes) {
                Some(s) => s,
                None => vstd::pervasive::unreached(),
            }
        } else {
            match bytes_to_str(text_bytes) {
                Some(s) => s,
                None => {
                    return Err(ReadHeaderError::Parse(ParseHeaderError::Utf8Parse));
                },
            }
        };
        let rec = match parse_record(text) {
            Some(rec) => rec,
            None => {
                return Err(ReadHeaderError::Parse(ParseHeaderError::DictParse));
            },
        };
        match Header::from_py_value(rec) {
            Ok(h) => Ok((h, start + header_len)),
            Err(e) => Err(ReadHeaderError::Parse(e)),
        }
    }

    /// The record value this header is written as.
    pub fn to_py_value(&self) -> (r: PyRecord)
        ensures
            r@ == spec_record_of(self@),
    {
        let mut entries: Vec<(PyExpr, PyExpr)> = Vec::new();
        entries.push((PyExpr::Str(("descr").to_owned()), self.type_descriptor.clone()));
        entries.push((PyExpr::Str(("fortran_order").to_owned()), PyExpr::Bool(self.fortran_order)));
        let sh = self.shape.clone();
        proof {
            assert(sh@ =~= self.shape@);
        }
        entries.push((PyExpr::Str(("shape").to_owned()), PyExpr::IntTuple(sh)));
        let r = PyRecord::Dict(entries);
        proof {
            assert(r@->Dict_0 =~= spec_record_of(self@)->Dict_0);
        }
        r
    }

    /// Formats this header as padded, newline-terminated bytes, selecting the
    /// lowest version whose length field can hold the record: the total
    /// length is always a multiple of 64 and the final byte is the newline.
    pub fn to_bytes(&self) -> (r: Result<Vec<u8>, FormatHeaderError>)
        ensures
            ({
                let fr = rendered_record(spec_record_of(self@));
                match r {
                    Ok(out) => match fr {
                        Some(fmt) => match spec_version_choice(fmt.len()) {
                            Some(v) => {
                                &&& out@ == spec_header_bytes(v, fmt)
                                &&& out@.len() == spec_total_len(v, fmt.len())
                                &&& out@.len() % 64 == 0
                                &&& out@.len() > 0
                                &&& out@.last() == 10u8
                            },
                            None => false,
                        },
                        None => false,
                    },
                    Err(FormatHeaderError::PyValue) => fr is None,
                    Err(FormatHeaderError::HeaderTooLong) => fr is Some && spec_version_choice(
                        fr->0.len(),
                    ) is None,
                }
            }),
    {
        let rec = self.to_py_value();
        let arr_format = match render_record(&rec) {
            Some(b) => b,
            None => {
                return Err(FormatHeaderError::PyValue);
            },
        };
        let (version, info) = match Version::V1_0.compute_lengths(arr_format.as_slice()) {
            Some(info) => (Version::V1_0, info),
            None => match Version::V2_0.compute_lengths(arr_format.as_slice()) {
                Some(info) => (Version::V2_0, info),
                None => {
                    return Err(FormatHeaderError::HeaderTooLong);
                },
            },
        };
        let w = version.header_len_num_bytes();
        let total_len = info.total_len;
        let mut out: Vec<u8> = Vec::new();
        out.push(0x93);
        out.push(0x4e);
        out.push(0x55);
        out.push(0x4d);
        out.push(0x50);
        out.push(0x59);
        out.push(version.major_version());
        out.push(version.minor_version());
        proof {
            assert(out@ =~= spec_magic() + seq![spec_major_version(version), 0u8]);
        }
        push_bytes(&mut out, info.formatted_header_len.as_slice());
        push_bytes(&mut out, arr_format.as_slice());
        let ghost unpadded = out@;
        proof {
            crate::wire::lemma_le_bytes_len(
                (total_len - spec_prefix_len(version)) as u64,
                spec_header_len_width(version),
            );
            assert(unpadded.len() == spec_prefix_len(version) + arr_format@.len());
        }
        while out.len() < total_len - 1
            invariant
                unpadded.len() <= out@.len() <= total_len - 1,
                out@ == unpadded + spec_spaces(out@.len() - unpadded.len()),
            decreases total_len - out@.len(),
        {
            proof {
                assert(unpadded + spec_spaces(out@.len() - unpadded.len() + 1) =~= (unpadded
                    + spec_spaces(out@.len() - unpadded.len())).push(32u8));
            }
            out.push(32);
        }
        out.push(10);
        proof {
            assert(out@ =~= spec_header_bytes(version, arr_format@));
            assert(out@.last() == 10u8);
        }
        Ok(out)
    }
}

/// Round trip of the record mapping: the record value a header is written
/// as always reads back as exactly that header, for every descriptor,
/// order and shape.
pub proof fn lemma_record_round_trip(hv: HeaderVal)
    ensures
        spec_interpret_record(spec_record_of(hv)) == RecordOutcome::Complete(hv),
{
    reveal_strlit("descr");
    reveal_strlit("fortran_order");
    reveal_strlit("shape");
    assert(("descr"@).len() == 5 && ("descr"@)[0] == 'd');
    assert(("fortran_order"@).len() == 13 && ("fortran_order"@)[0] == 'f');
    assert(("shape"@).len() == 5 && ("shape"@)[0] == 's');
    let es = spec_record_of(hv)->Dict_0;
    let e0 = (PyExprVal::Str("descr"@), hv.descr);
    let e1 = (PyExprVal::Str("fortran_order"@), PyExprVal::Bool(hv.fortran_order));
    let e2 = (PyExprVal::Str("shape"@), PyExprVal::IntTuple(hv.shape));
    assert(es =~= seq![e0, e1, e2]);
    assert(es[0] == e0);
    assert(es.drop_first() =~= seq![e1, e2]);
    assert(es.drop_first().drop_first() =~= seq![e2]);
    assert(seq![e2].drop_first() =~= Seq::<(PyExprVal, PyExprVal)>::empty());
    assert(scan_entries(es, None, None, None) == scan_entries(
        es.drop_first(),
        Some(hv.descr),
        None,
        None,
    ));
    assert(scan_entries(es.drop_first(), Some(hv.descr), None, None) == scan_entries(
        es.drop_first().drop_first(),
        Some(hv.descr),
        Some(hv.fortran_order),
        None,
    ));
    assert(scan_entries(
        Seq::<(PyExprVal, PyExprVal)>::empty(),
        Some(hv.descr),
        Some(hv.fortran_order),
        Some(hv.shape),
    ) == RecordOutcome::Complete(hv));
}

/// The version auto-selection rule: the lowest version that can represent a
/// header with an unpadded record text of `fmt_len` bytes.
pub open spec fn spec_version_choice(fmt_len: nat) -> Option<Version> {
    if spec_total_len(Version::V1_0, fmt_len) <= usize::MAX && spec_total_len(Version::V1_0, fmt_len)
        - spec_prefix_len(Version::V1_0) <= spec_max_header_len(Version::V1_0) {
        Some(Version::V1_0)
    } else if spec_total_len(Version::V2_0, fmt_len) <= usize::MAX && spec_total_len(
        Version::V2_0,
        fmt_len,
    ) - spec_prefix_len(Version::V2_0) <= spec_max_header_len(Version::V2_0) {
        Some(Version::V2_0)
    } else {
        None
    }
}

/// A run of `n` ASCII space bytes.
pub open spec fn spec_spaces(n: int) -> Seq<u8> {
    Seq::new(n as nat, |i: int| 32u8)
}

/// The exact bytes a header is written as for a given version and unpadded
/// record text: magic marker, version bytes, little-endian length field, the
/// record text, space padding, and the final newline.
pub open spec fn spec_header_bytes(v: Version, fmt: Seq<u8>) -> Seq<u8> {
    let total = spec_total_len(v, fmt.len());
    spec_magic() + seq![spec_major_version(v), 0u8] + le_bytes(
        (total - spec_prefix_len(v)) as u64,
        spec_header_len_width(v),
    ) + fmt + spec_spaces(total - spec_prefix_len(v) - fmt.len() - 1) + seq![10u8]
}

/// The contract assumed of the outside literal formatter and parser for one
/// header: the record renders to the ASCII text `fmt`, that text selects
/// version `v`, and the text followed by the space padding the chosen
/// version adds parses back to the same record value.
pub open spec fn spec_record_text_round_trips(hv: HeaderVal, fmt: Seq<u8>, v: Version) -> bool {
    &&& rendered_record(spec_record_of(hv)) == Some(fmt)
    &&& all_ascii(fmt)
    &&& spec_version_choice(fmt.len()) == Some(v)
    &&& parsed_record(
        ascii_chars_of(
            fmt + spec_spaces(spec_total_len(v, fmt.len()) - spec_prefix_len(v) - fmt.len() - 1),
        ),
    ) == Some(spec_record_of(hv))
}

/// Round trip of the header framing: formatted header bytes, followed by
/// anything, always read back as the header they were formatted from and
/// consume exactly their own length.
///
/// The hypothesis is the collaborator contract assumed of the outside
/// literal parser and formatter ([`spec_record_text_round_trips`]).
/// Everything else — framing, version selection, length arithmetic, padding,
/// text rules, and the record interpretation — is proved here.
pub proof fn lemma_header_bytes_parse(hv: HeaderVal, fmt: Seq<u8>, v: Version, tail: Seq<u8>)
    requires
        spec_record_text_round_trips(hv, fmt, v),
    ensures
        spec_read_header(spec_header_bytes(v, fmt) + tail) == (HeaderReadOutcome::Complete {
            header: hv,
            consumed: spec_total_len(v, fmt.len()) as int,
        }),
{
    let total = spec_total_len(v, fmt.len());
    let w = spec_header_len_width(v);
    let prefix = spec_prefix_len(v);
    let hlen = (total - prefix) as nat;
    let pad = (total - prefix - fmt.len() - 1) as int;
    let hb = spec_header_bytes(v, fmt);
    let bytes = hb + tail;
    crate::wire::lemma_le_bytes_len((hlen as u64), w);
    crate::wire::lemma_pow256_vals();
    assert(hlen <= spec_max_header_len(v));
    assert(hb.len() == total);
    assert(bytes.subrange(0, 6) =~= spec_magic());
    assert(bytes[6] == spec_major_version(v) && bytes[7] == 0u8);
    assert(spec_version_of_bytes(bytes[6], bytes[7]) == Some(v));
    assert(bytes.subrange(8, 8 + w as int) =~= le_bytes((hlen as u64), w));
    crate::wire::lemma_le_roundtrip((hlen as u64), w);
    assert(le_val(bytes.subrange(8, 8 + w as int)) == hlen);
    assert(hlen <= usize::MAX);
    let start = 8 + w as int;
    assert(bytes.len() >= start + hlen);
    let block = bytes.subrange(start, start + hlen);
    assert(block =~= fmt + spec_spaces(pad) + seq![10u8]);
    assert(block.last() == 10u8);
    let text = block.drop_last();
    assert(text =~= fmt + spec_spaces(pad));
    assert(all_ascii(text));
    lemma_ascii_decode(text);
    assert(v == Version::V1_0 || v == Version::V2_0);
    assert(parsed_record(decode_utf8(text)) == Some(spec_record_of(hv)));
    lemma_record_round_trip(hv);
    assert(spec_read_text(v, text, start + hlen) == (HeaderReadOutcome::Complete {
        header: hv,
        consumed: start + hlen,
    }));
    assert(start + hlen == total);
}

} // verus!
