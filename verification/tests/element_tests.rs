use npy_codec::elements::{
    bools_to_elems, check_for_extra_bytes, decode_bools, read_to_end_exact_vec, write_slice,
    ElemType,
};
use npy_codec::error::ReadDataError;
use npy_codec::record::PyExpr;

fn str_desc(s: &str) -> PyExpr {
    PyExpr::Str(String::from(s))
}

#[test]
fn read_bool() {
    let data: [u8; 5] = [0x00, 0x01, 0x00, 0x00, 0x01];
    let type_desc = str_desc("|b1");
    let out = decode_bools(&type_desc, data.len(), &data).unwrap();
    assert_eq!(out, vec![false, true, false, false, true]);
}

#[test]
fn read_bool_bad_value() {
    let data: [u8; 5] = [0x00, 0x01, 0x05, 0x00, 0x01];
    let type_desc = str_desc("|b1");
    match decode_bools(&type_desc, data.len(), &data) {
        Err(err) => {
            assert_eq!(err.message(), "cannot parse value 0x05 as a bool");
            assert!(matches!(err, ReadDataError::ParseBoolError(0x05)));
        }
        _ => panic!(),
    }
}

#[test]
fn bool_round_trip() {
    let vals = vec![true, false, false, true];
    let elems = bools_to_elems(&vals);
    let bytes = write_slice(ElemType::Bool, &elems);
    assert_eq!(bytes, vec![1u8, 0, 0, 1]);
    let back = decode_bools(&str_desc("|b1"), 4, &bytes).unwrap();
    assert_eq!(back, vals);
}

#[test]
fn i32_little_endian_exact_bytes() {
    // -2 as a 32-bit two's-complement pattern, then 1.
    let elems: Vec<u64> = vec![(-2i32 as u32) as u64, 1];
    let bytes = write_slice(ElemType::I32, &elems);
    assert_eq!(bytes, vec![0xfe, 0xff, 0xff, 0xff, 0x01, 0x00, 0x00, 0x00]);
    let back = read_to_end_exact_vec(ElemType::I32, &str_desc("<i4"), 2, &bytes).unwrap();
    assert_eq!(back, elems);
    assert_eq!(back[0] as u32 as i32, -2);
}

#[test]
fn u16_big_endian_read() {
    // 0x0102 and 0x0304 stored big-endian under the '>u2' descriptor.
    let bytes: [u8; 4] = [0x01, 0x02, 0x03, 0x04];
    let back = read_to_end_exact_vec(ElemType::U16, &str_desc(">u2"), 2, &bytes).unwrap();
    assert_eq!(back, vec![0x0102, 0x0304]);
    let little = read_to_end_exact_vec(ElemType::U16, &str_desc("<u2"), 2, &bytes).unwrap();
    assert_eq!(little, vec![0x0201, 0x0403]);
}

#[test]
fn one_byte_aliases() {
    let bytes: [u8; 2] = [0xff, 0x01];
    for d in ["|i1", "i1", "b"] {
        let back = read_to_end_exact_vec(ElemType::I8, &str_desc(d), 2, &bytes).unwrap();
        assert_eq!(back[0] as u8 as i8, -1);
        assert_eq!(back[1], 1);
    }
    for d in ["|u1", "u1", "B"] {
        let back = read_to_end_exact_vec(ElemType::U8, &str_desc(d), 2, &bytes).unwrap();
        assert_eq!(back, vec![255, 1]);
    }
}

#[test]
fn f64_bits_round_trip() {
    let vals = vec![1.5f64, -0.25, 0.0];
    let elems: Vec<u64> = vals.iter().map(|x| x.to_bits()).collect();
    let bytes = write_slice(ElemType::F64, &elems);
    assert_eq!(bytes.len(), 24);
    let back = read_to_end_exact_vec(ElemType::F64, &str_desc("<f8"), 3, &bytes).unwrap();
    let back_vals: Vec<f64> = back.iter().map(|b| f64::from_bits(*b)).collect();
    assert_eq!(back_vals, vals);
}

#[test]
fn wrong_descriptor_between_kinds() {
    // A file written with one kind's descriptor is never read as another.
    let elems: Vec<u64> = vec![1, 2];
    let bytes = write_slice(ElemType::I32, &elems);
    for t in [
        ElemType::Bool,
        ElemType::I8,
        ElemType::U8,
        ElemType::I16,
        ElemType::U16,
        ElemType::U32,
        ElemType::I64,
        ElemType::U64,
        ElemType::F32,
        ElemType::F64,
    ] {
        match read_to_end_exact_vec(t, &str_desc("<i4"), 2, &bytes) {
            Err(ReadDataError::WrongDescriptor(PyExpr::Str(s))) => assert_eq!(s, "<i4"),
            _ => panic!(),
        }
    }
}

#[test]
fn non_string_descriptor_is_wrong() {
    match read_to_end_exact_vec(ElemType::U8, &PyExpr::Int(7), 1, &[0u8]) {
        Err(ReadDataError::WrongDescriptor(PyExpr::Int(7))) => {}
        _ => panic!(),
    }
}

#[test]
fn truncated_and_extra_bytes() {
    let bytes: [u8; 7] = [1, 0, 0, 0, 2, 0, 0];
    match read_to_end_exact_vec(ElemType::I32, &str_desc("<i4"), 2, &bytes) {
        Err(ReadDataError::MissingData) => {}
        _ => panic!(),
    }
    let bytes9: [u8; 9] = [1, 0, 0, 0, 2, 0, 0, 0, 9];
    match read_to_end_exact_vec(ElemType::I32, &str_desc("<i4"), 2, &bytes9) {
        Err(ReadDataError::ExtraBytes(1)) => {}
        _ => panic!(),
    }
    assert_eq!(
        ReadDataError::ExtraBytes(1).message(),
        "file had 1 extra bytes before EOF"
    );
    assert_eq!(
        ReadDataError::MissingData.message(),
        "reached EOF before reading all data"
    );
}

#[test]
fn extra_bytes_check() {
    assert!(check_for_extra_bytes(0).is_ok());
    match check_for_extra_bytes(3) {
        Err(ReadDataError::ExtraBytes(3)) => {}
        _ => panic!(),
    }
}

#[test]
fn bool_extra_bytes_win_over_bad_value() {
    // The whole-buffer length check runs before the validity scan.
    let data: [u8; 3] = [0x00, 0x05, 0x01];
    match decode_bools(&str_desc("|b1"), 2, &data) {
        Err(ReadDataError::ExtraBytes(1)) => {}
        _ => panic!(),
    }
}
