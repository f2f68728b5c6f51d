use npy_codec::error::{ParseHeaderError, ReadHeaderError};
use npy_codec::header::Header;
use npy_codec::record::PyExpr;

const MAGIC: [u8; 6] = [0x93, 0x4e, 0x55, 0x4d, 0x50, 0x59];

/// Builds raw header bytes: magic, version bytes, little-endian length
/// field, the given block (record text, padding, newline) verbatim.
fn raw_header(major: u8, minor: u8, block: &[u8]) -> Vec<u8> {
    let mut out = Vec::new();
    out.extend_from_slice(&MAGIC);
    out.push(major);
    out.push(minor);
    let n = block.len();
    if major == 1 {
        out.push((n & 0xff) as u8);
        out.push(((n >> 8) & 0xff) as u8);
    } else {
        out.push((n & 0xff) as u8);
        out.push(((n >> 8) & 0xff) as u8);
        out.push(((n >> 16) & 0xff) as u8);
        out.push(((n >> 24) & 0xff) as u8);
    }
    out.extend_from_slice(block);
    out
}

fn sample_header() -> Header {
    Header {
        type_descriptor: PyExpr::Str(String::from("<i4")),
        fortran_order: false,
        shape: vec![2, 3],
    }
}

#[test]
fn format_is_aligned_and_newline_terminated() {
    for shape in [vec![], vec![0], vec![2, 3], vec![7, 1, 9, 4]] {
        let h = Header {
            type_descriptor: PyExpr::Str(String::from("<f8")),
            fortran_order: true,
            shape,
        };
        let bytes = h.to_bytes().unwrap();
        assert_eq!(bytes.len() % 64, 0);
        assert_eq!(*bytes.last().unwrap(), b'\n');
    }
}

#[test]
fn header_round_trip() {
    let h = sample_header();
    let bytes = h.to_bytes().unwrap();
    let (back, consumed) = Header::from_reader(&bytes).unwrap();
    assert_eq!(consumed, bytes.len());
    assert_eq!(back.fortran_order, false);
    assert_eq!(back.shape, vec![2, 3]);
    match back.type_descriptor {
        PyExpr::Str(s) => assert_eq!(s, "<i4"),
        _ => panic!(),
    }
}

#[test]
fn header_round_trip_fortran_empty_shape() {
    let h = Header {
        type_descriptor: PyExpr::Str(String::from("|u1")),
        fortran_order: true,
        shape: vec![],
    };
    let bytes = h.to_bytes().unwrap();
    let (back, _) = Header::from_reader(&bytes).unwrap();
    assert!(back.fortran_order);
    assert_eq!(back.shape, Vec::<usize>::new());
}

#[test]
fn small_header_selects_oldest_version() {
    let bytes = sample_header().to_bytes().unwrap();
    assert_eq!(bytes[6], 1);
    assert_eq!(bytes[7], 0);
}

#[test]
fn large_header_selects_next_version() {
    // A record text past a 2-byte length field forces the 4-byte version.
    let h = Header {
        type_descriptor: PyExpr::Str(String::from("|u1")),
        fortran_order: false,
        shape: vec![1; 30000],
    };
    let bytes = h.to_bytes().unwrap();
    assert_eq!(bytes[6], 2);
    assert_eq!(bytes[7], 0);
    assert_eq!(bytes.len() % 64, 0);
    let (back, _) = Header::from_reader(&bytes).unwrap();
    assert_eq!(back.shape.len(), 30000);
}

#[test]
fn magic_mismatch() {
    let mut bytes = sample_header().to_bytes().unwrap();
    bytes[0] = b'X';
    match Header::from_reader(&bytes) {
        Err(ReadHeaderError::Parse(ParseHeaderError::MagicString)) => {}
        _ => panic!(),
    }
}

#[test]
fn unknown_version() {
    let bytes = raw_header(4, 0, b"{'descr': '<i4', 'fortran_order': False, 'shape': (2, 3)}\n");
    match Header::from_reader(&bytes) {
        Err(ReadHeaderError::Parse(ParseHeaderError::Version { major: 4, minor: 0 })) => {}
        _ => panic!(),
    }
}

#[test]
fn truncated_input_is_io() {
    let bytes = sample_header().to_bytes().unwrap();
    match Header::from_reader(&bytes[..bytes.len() - 1]) {
        Err(ReadHeaderError::Io) => {}
        _ => panic!(),
    }
    match Header::from_reader(&bytes[..4]) {
        Err(ReadHeaderError::Io) => {}
        _ => panic!(),
    }
}

#[test]
fn missing_trailing_newline() {
    let bytes = raw_header(1, 0, b"{'descr': '<i4', 'fortran_order': False, 'shape': (2, 3)}");
    match Header::from_reader(&bytes) {
        Err(ReadHeaderError::Parse(ParseHeaderError::MissingNewline)) => {}
        _ => panic!(),
    }
}

#[test]
fn non_ascii_rejected_in_legacy_versions() {
    let mut block = b"{'descr': '<i4', 'fortran_order': False, 'shape': (2, 3)}".to_vec();
    block.push(0xff);
    block.push(b'\n');
    let bytes = raw_header(1, 0, &block);
    match Header::from_reader(&bytes) {
        Err(ReadHeaderError::Parse(ParseHeaderError::NonAscii)) => {}
        _ => panic!(),
    }
}

#[test]
fn invalid_utf8_rejected_in_newest_version() {
    let mut block = b"{'descr': '<i4'".to_vec();
    block.push(0xff);
    block.push(b'\n');
    let bytes = raw_header(3, 0, &block);
    match Header::from_reader(&bytes) {
        Err(ReadHeaderError::Parse(ParseHeaderError::Utf8Parse)) => {}
        _ => panic!(),
    }
}

#[test]
fn newest_version_parses_ascii_record() {
    let bytes = raw_header(3, 0, b"{'descr': '<i4', 'fortran_order': True, 'shape': (5,)}\n");
    let (back, _) = Header::from_reader(&bytes).unwrap();
    assert!(back.fortran_order);
    assert_eq!(back.shape, vec![5]);
}

#[test]
fn unicode_record_needs_newest_version() {
    // A descriptor string holding a non-ASCII character: valid UTF-8, so the
    // newest version takes it, while a legacy version refuses the same text.
    let mut block = Vec::new();
    block.extend_from_slice("{'descr': 'µ', 'fortran_order': True, 'shape': ()}".as_bytes());
    block.push(b'\n');
    let bytes = raw_header(3, 0, &block);
    let (back, _) = Header::from_reader(&bytes).unwrap();
    match back.type_descriptor {
        PyExpr::Str(s) => assert_eq!(s, "µ"),
        _ => panic!(),
    }
    assert_eq!(back.shape, Vec::<usize>::new());
    let bytes = raw_header(1, 0, &block);
    match Header::from_reader(&bytes) {
        Err(ReadHeaderError::Parse(ParseHeaderError::NonAscii)) => {}
        _ => panic!(),
    }
}

#[test]
fn record_syntax_error() {
    let bytes = raw_header(1, 0, b"not a literal at all!\n");
    match Header::from_reader(&bytes) {
        Err(ReadHeaderError::Parse(ParseHeaderError::DictParse)) => {}
        _ => panic!(),
    }
}

#[test]
fn record_not_a_dict() {
    let bytes = raw_header(1, 0, b"42\n");
    match Header::from_reader(&bytes) {
        Err(ReadHeaderError::Parse(ParseHeaderError::MetaNotDict(PyExpr::Int(42)))) => {}
        _ => panic!(),
    }
}

#[test]
fn unknown_key_rejected() {
    let bytes = raw_header(
        1,
        0,
        b"{'descr': '<i4', 'fortran_order': False, 'shape': (2, 3), 'foo': 1}\n",
    );
    match Header::from_reader(&bytes) {
        Err(ReadHeaderError::Parse(ParseHeaderError::UnknownKey(PyExpr::Str(k)))) => {
            assert_eq!(k, "foo")
        }
        _ => panic!(),
    }
}

#[test]
fn missing_key_reported() {
    let bytes = raw_header(1, 0, b"{'descr': '<i4', 'fortran_order': False}\n");
    match Header::from_reader(&bytes) {
        Err(ReadHeaderError::Parse(ParseHeaderError::MissingKey(k))) => assert_eq!(k, "shape"),
        _ => panic!(),
    }
    let bytes = raw_header(1, 0, b"{'shape': (2, 3)}\n");
    match Header::from_reader(&bytes) {
        Err(ReadHeaderError::Parse(ParseHeaderError::MissingKey(k))) => assert_eq!(k, "descr"),
        _ => panic!(),
    }
}

#[test]
fn illegal_value_reported() {
    let bytes = raw_header(1, 0, b"{'descr': '<i4', 'fortran_order': 1, 'shape': (2, 3)}\n");
    match Header::from_reader(&bytes) {
        Err(ReadHeaderError::Parse(ParseHeaderError::IllegalValue { key, value })) => {
            assert_eq!(key, "fortran_order");
            assert!(matches!(value, PyExpr::Int(1)));
        }
        _ => panic!(),
    }
    let bytes = raw_header(1, 0, b"{'descr': '<i4', 'fortran_order': False, 'shape': (2, -3)}\n");
    match Header::from_reader(&bytes) {
        Err(ReadHeaderError::Parse(ParseHeaderError::IllegalValue { key, .. })) => {
            assert_eq!(key, "shape");
        }
        _ => panic!(),
    }
}

#[test]
fn duplicate_key_keeps_last_binding() {
    let bytes = raw_header(
        1,
        0,
        b"{'descr': '<i4', 'fortran_order': False, 'shape': (2, 3), 'shape': (7,)}\n",
    );
    let (back, _) = Header::from_reader(&bytes).unwrap();
    assert_eq!(back.shape, vec![7]);
}
