use npy_codec::elements::ElemType;
use npy_codec::error::{WriteDataError, WriteNpyError};
use npy_codec::stream::NpyOutStreamBuilder;

fn f32_bits(vals: &[f32]) -> Vec<u64> {
    vals.iter().map(|x| x.to_bits() as u64).collect()
}

#[test]
fn test_2x3() {
    let (_header, mut stream) = NpyOutStreamBuilder::new(ElemType::F32)
        .for_dim(&vec![2, 3])
        .build()
        .unwrap();
    assert_eq!(stream.tot_elems(), 6);
    let vec1 = f32_bits(&[1., 2.]);
    let vec2 = f32_bits(&[3., 4., 5., 6.]);
    stream.write_slice(&vec1).unwrap();
    stream.write_slice(&vec2).unwrap();
}

#[test]
fn test_100x3() {
    let (_header, mut stream) = NpyOutStreamBuilder::new(ElemType::F32)
        .for_dim(&vec![100, 3])
        .f()
        .build()
        .unwrap();
    assert_eq!(stream.tot_elems(), 300);
    let mut vec = vec![0f32; 100];
    for i in 0..3 {
        for v in &mut vec {
            *v = (i + 1) as f32;
        }
        stream.write_slice(&f32_bits(&vec)).unwrap();
    }
    assert!(stream.finished());
}

#[test]
#[should_panic]
fn test_panic() {
    let (_header, mut stream) = NpyOutStreamBuilder::new(ElemType::F32)
        .for_dim(&vec![2, 3])
        .build()
        .unwrap();
    assert_eq!(stream.tot_elems(), 6);
    let vec1 = f32_bits(&[1., 2.]);
    let vec2 = f32_bits(&[3., 4., 5.]);
    stream.write_slice(&vec1).unwrap();
    stream.write_slice(&vec2).unwrap();
    stream.close().unwrap();
}

#[test]
fn stream_count_contract() {
    // Declared for 6 elements: exactly 6 close fine; a 7th, even split
    // across calls, is refused and does not advance the counter.
    let (_header, mut stream) = NpyOutStreamBuilder::new(ElemType::U8)
        .for_arr2([2, 3])
        .build()
        .unwrap();
    assert_eq!(stream.tot_elems(), 6);
    let (count, bytes) = stream.write_slice(&vec![1, 2]).unwrap();
    assert_eq!(count, 2);
    assert_eq!(bytes, vec![1u8, 2]);
    match stream.write_slice(&vec![3, 4, 5, 6, 7]) {
        Err(WriteNpyError::WriteData(WriteDataError::TooManyElements(6, 7))) => {}
        _ => panic!(),
    }
    // The failed write left the counter at 2.
    assert!(!stream.finished());
    let (count, _) = stream.write_slice(&vec![3, 4, 5, 6]).unwrap();
    assert_eq!(count, 6);
    assert!(stream.finished());
    stream.close().unwrap();
}

#[test]
fn close_underfilled_fails() {
    let (_header, mut stream) = NpyOutStreamBuilder::new(ElemType::U8)
        .for_arr1(6)
        .build()
        .unwrap();
    stream.write_slice(&vec![1, 2, 3, 4, 5]).unwrap();
    match stream.close() {
        Err(WriteDataError::TooFewElements(6, 5)) => {}
        _ => panic!(),
    }
}

#[test]
fn builder_configuration() {
    // The last shape setter wins; order flags toggle.
    let (header_c, stream) = NpyOutStreamBuilder::new(ElemType::I16)
        .for_arr3([2, 2, 2])
        .for_arr1(4)
        .c()
        .build()
        .unwrap();
    assert_eq!(stream.tot_elems(), 4);
    let (header_f, _) = NpyOutStreamBuilder::new(ElemType::I16)
        .for_arr1(4)
        .f()
        .build()
        .unwrap();
    assert_ne!(header_c, header_f);
    assert_eq!(header_c.len() % 64, 0);
    assert_eq!(header_f.len() % 64, 0);
}

#[test]
fn zero_dimension_stream_is_immediately_finished() {
    let (_header, stream) = NpyOutStreamBuilder::new(ElemType::F64)
        .for_arr2([0, 5])
        .build()
        .unwrap();
    assert_eq!(stream.tot_elems(), 0);
    assert!(stream.finished());
    stream.close().unwrap();
}
