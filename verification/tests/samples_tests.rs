use soundboard::samples::{add_numbers, correlation_terms, decode_le_i16, dot_product, SampleFileError};

#[test]
fn adds() {
    assert_eq!(add_numbers(2, 3), 5);
    assert_eq!(add_numbers(i32::MAX, i32::MIN), -1);
}

#[test]
fn decodes_little_endian() {
    assert_eq!(decode_le_i16(&vec![0x01, 0x00, 0xff, 0xff, 0x00, 0x80, 0xff, 0x7f]), vec![1, -1, i16::MIN, i16::MAX]);
    assert_eq!(decode_le_i16(&vec![]), Vec::<i16>::new());
}

#[test]
fn dot_of_samples() {
    assert_eq!(dot_product(&vec![1, 2, 3], &vec![4, -5, 6]), 12);
    assert_eq!(dot_product(&vec![i16::MIN], &vec![i16::MIN]), 1 << 30);
}

#[test]
fn size_errors() {
    assert!(matches!(correlation_terms(&vec![1, 2], &vec![1]), Err(SampleFileError::SizesDiffer)));
    assert!(matches!(correlation_terms(&vec![1], &vec![1]), Err(SampleFileError::OddSize)));
}

#[test]
fn self_comparison_is_perfect() {
    let d = vec![0x10, 0x00, 0x00, 0xf0, 0x33, 0x12];
    let t = correlation_terms(&d, &d).ok().unwrap();
    assert_eq!(t.xx, t.yy);
    assert_eq!(t.xx, t.xy);
    assert!(t.xx >= 0);
}

#[test]
fn swapped_files_swap_energies() {
    let a = vec![0x02, 0x00, 0x03, 0x00];
    let b = vec![0x05, 0x00, 0xff, 0xff];
    let t1 = correlation_terms(&a, &b).ok().unwrap();
    let t2 = correlation_terms(&b, &a).ok().unwrap();
    assert_eq!((t1.xx, t1.yy, t1.xy), (13, 26, 7));
    assert_eq!((t2.xx, t2.yy, t2.xy), (26, 13, 7));
}
