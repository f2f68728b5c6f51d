use npy_codec::elements::ElemType;
use npy_codec::error::{ReadDataError, ReadNpyError};
use npy_codec::files::{decode_npy, elem_count, encode_npy};
use npy_codec::record::PyExpr;

#[test]
fn i32_file_round_trip() {
    let elems: Vec<u64> = vec![1, 2, 3, (-4i32 as u32) as u64, 5, 6];
    let bytes = encode_npy(ElemType::I32, false, &vec![2, 3], &elems).unwrap();
    assert_eq!((bytes.len() - 24) % 64, 0);
    let (header, back) = decode_npy(ElemType::I32, &bytes).unwrap();
    assert_eq!(header.shape, vec![2, 3]);
    assert!(!header.fortran_order);
    assert_eq!(back, elems);
}

#[test]
fn f32_fortran_file_round_trip() {
    let vals = vec![1.5f32, -2.25, 3.0, 0.5];
    let elems: Vec<u64> = vals.iter().map(|x| x.to_bits() as u64).collect();
    let bytes = encode_npy(ElemType::F32, true, &vec![2, 2], &elems).unwrap();
    let (header, back) = decode_npy(ElemType::F32, &bytes).unwrap();
    assert!(header.fortran_order);
    let back_vals: Vec<f32> = back.iter().map(|b| f32::from_bits(*b as u32)).collect();
    assert_eq!(back_vals, vals);
}

#[test]
fn scalar_and_empty_files() {
    // The empty shape declares exactly one element.
    let bytes = encode_npy(ElemType::U8, false, &vec![], &vec![7]).unwrap();
    let (header, back) = decode_npy(ElemType::U8, &bytes).unwrap();
    assert_eq!(header.shape, Vec::<usize>::new());
    assert_eq!(back, vec![7]);
    // A zero dimension declares no elements at all.
    let bytes = encode_npy(ElemType::I64, false, &vec![0, 3], &vec![]).unwrap();
    let (header, back) = decode_npy(ElemType::I64, &bytes).unwrap();
    assert_eq!(header.shape, vec![0, 3]);
    assert_eq!(back, Vec::<u64>::new());
}

#[test]
fn payload_short_by_one_element() {
    let elems: Vec<u64> = vec![1, 2, 3, 4, 5, 6];
    let bytes = encode_npy(ElemType::U16, false, &vec![6], &elems).unwrap();
    let cut = &bytes[..bytes.len() - 2];
    match decode_npy(ElemType::U16, cut) {
        Err(ReadNpyError::ReadData(ReadDataError::MissingData)) => {}
        _ => panic!(),
    }
}

#[test]
fn payload_with_one_extra_byte() {
    let elems: Vec<u64> = vec![1, 2, 3, 4, 5, 6];
    let mut bytes = encode_npy(ElemType::U16, false, &vec![6], &elems).unwrap();
    bytes.push(0);
    match decode_npy(ElemType::U16, &bytes) {
        Err(ReadNpyError::ReadData(ReadDataError::ExtraBytes(1))) => {}
        _ => panic!(),
    }
}

#[test]
fn reading_with_wrong_kind_is_refused() {
    // An 8-byte float reader never reinterprets a 4-byte integer file.
    let bytes = encode_npy(ElemType::I32, false, &vec![2], &vec![1, 2]).unwrap();
    match decode_npy(ElemType::F64, &bytes) {
        Err(ReadNpyError::ReadData(ReadDataError::WrongDescriptor(PyExpr::Str(s)))) => {
            assert_eq!(s, "<i4")
        }
        _ => panic!(),
    }
}

#[test]
fn shape_count_overflow_is_reported() {
    let text = b"{'descr': '|u1', 'fortran_order': False, 'shape': (18446744073709551615, 18446744073709551615)}\n";
    let mut bytes = vec![0x93u8, 0x4e, 0x55, 0x4d, 0x50, 0x59, 1, 0];
    let n = text.len();
    bytes.push((n & 0xff) as u8);
    bytes.push(((n >> 8) & 0xff) as u8);
    bytes.extend_from_slice(text);
    match decode_npy(ElemType::U8, &bytes) {
        Err(ReadNpyError::LengthOverflow) => {}
        _ => panic!(),
    }
}

#[test]
fn elem_count_of_shapes() {
    assert_eq!(elem_count(&vec![]), Some(1));
    assert_eq!(elem_count(&vec![2, 3, 4]), Some(24));
    assert_eq!(elem_count(&vec![5, 0, 7]), Some(0));
    assert_eq!(elem_count(&vec![usize::MAX, 2]), None);
}

#[test]
fn every_kind_round_trips() {
    for t in [
        ElemType::Bool,
        ElemType::I8,
        ElemType::U8,
        ElemType::I16,
        ElemType::U16,
        ElemType::I32,
        ElemType::U32,
        ElemType::I64,
        ElemType::U64,
        ElemType::F32,
        ElemType::F64,
    ] {
        let elems: Vec<u64> = vec![0, 1, 1];
        let bytes = encode_npy(t, false, &vec![3], &elems).unwrap();
        let (header, back) = decode_npy(t, &bytes).unwrap();
        assert_eq!(header.shape, vec![3]);
        assert_eq!(back, elems);
    }
}

#[test]
fn big_endian_payload_reads_back() {
    // A hand-made file declaring '>i2' with big-endian element bytes.
    let text = b"{'descr': '>i2', 'fortran_order': False, 'shape': (2,)}\n";
    let mut bytes = vec![0x93u8, 0x4e, 0x55, 0x4d, 0x50, 0x59, 1, 0];
    let n = text.len();
    bytes.push((n & 0xff) as u8);
    bytes.push(((n >> 8) & 0xff) as u8);
    bytes.extend_from_slice(text);
    bytes.extend_from_slice(&[0x01, 0x02, 0xff, 0xfe]);
    let (_, back) = decode_npy(ElemType::I16, &bytes).unwrap();
    assert_eq!(back, vec![0x0102, 0xfffe]);
    assert_eq!(back[1] as u16 as i16, -2);
}
