use grass::wire::{
    pack_bit_triple, pack_f64_bits, try_unpack_bit_triple, try_unpack_bits32, try_unpack_bits64,
    try_unpack_f64_bits, Wire, WireUnpackError,
};

#[test]
fn round_trip_f64() {
    let x = 1.234e-5_f64;
    let packed = x.to_bits().pack();
    assert_eq!(f64::from_bits(try_unpack_bits64(&packed, "f64").unwrap()), x);
}

#[test]
fn round_trip_array_3() {
    let x = [1.0f64, 2.0, 3.0];
    let packed = pack_bit_triple([x[0].to_bits(), x[1].to_bits(), x[2].to_bits()]);
    let bits = try_unpack_bit_triple(&packed, "[f64; 3]").unwrap();
    assert_eq!([f64::from_bits(bits[0]), f64::from_bits(bits[1]), f64::from_bits(bits[2])], x);
}

#[test]
fn round_trip_vec_f64() {
    let x = vec![1.0f64, 2.0, 3.0, 4.0, 5.0];
    let bits: Vec<u64> = x.iter().map(|v| v.to_bits()).collect();
    let back = try_unpack_f64_bits(&pack_f64_bits(&bits), "alloc::vec::Vec<f64>").unwrap();
    assert_eq!(back.into_iter().map(f64::from_bits).collect::<Vec<_>>(), x);
}

#[test]
fn round_trip_string() {
    let x = "hello, peer".to_string();
    assert_eq!(String::try_unpack(&x.pack()).unwrap(), x);
}

#[test]
fn round_trip_bool() {
    assert!(bool::try_unpack(&true.pack()).unwrap());
    assert!(!bool::try_unpack(&false.pack()).unwrap());
}

#[test]
fn string_try_unpack_reports_truncated_payload() {
    let mut buf = 5u32.to_le_bytes().to_vec();
    buf.extend_from_slice(b"abc");

    let err = String::try_unpack(&buf).unwrap_err();

    assert_eq!(err.type_label(), "alloc::string::String");
    assert_eq!(err.payload_len(), 7);
    assert!(err.detail().contains("declares 5 UTF-8 bytes"));
}

#[test]
fn string_try_unpack_reports_non_utf8_payload() {
    let mut buf = 2u32.to_le_bytes().to_vec();
    buf.extend_from_slice(&[0xff, 0xff]);

    let err = String::try_unpack(&buf).unwrap_err();

    assert_eq!(err.type_label(), "alloc::string::String");
    assert_eq!(err.payload_len(), 6);
    assert!(err.detail().contains("not UTF-8"));
}

#[test]
fn primitive_try_unpack_rejects_mismatched_payload_size() {
    let err = try_unpack_bits64(&1u32.pack(), "f64").unwrap_err();

    assert_eq!(err.type_label(), "f64");
    assert_eq!(err.payload_len(), 4);
    assert!(err.detail().contains("expected exactly 8 bytes"));
}

#[test]
fn integers_round_trip_little_endian() {
    assert_eq!(0x0102_0304_0506_0708u64.pack(), vec![8, 7, 6, 5, 4, 3, 2, 1]);
    assert_eq!(u64::try_unpack(&u64::MAX.pack()).unwrap(), u64::MAX);
    assert_eq!(i64::try_unpack(&(-5i64).pack()).unwrap(), -5);
    assert_eq!(u32::try_unpack(&7u32.pack()).unwrap(), 7);
    assert_eq!(i32::try_unpack(&i32::MIN.pack()).unwrap(), i32::MIN);
    assert_eq!(
        try_unpack_bits32(&2.5f32.to_bits().pack(), "f32").map(f32::from_bits).unwrap(),
        2.5f32
    );
}

#[test]
fn wrong_sizes_and_bad_bools_are_rejected() {
    let err = u32::try_unpack(&[1, 2, 3]).unwrap_err();
    assert_eq!(err.type_label(), "u32");
    assert_eq!(err.payload_len(), 3);
    assert!(err.detail().contains("expected exactly 4 bytes"));
    let err = bool::try_unpack(&[2]).unwrap_err();
    assert_eq!(err.type_label(), "bool");
    assert_eq!(err.payload_len(), 1);
    assert!(bool::try_unpack(&[]).is_err());
}

#[test]
fn string_header_shorter_than_four_bytes_is_rejected() {
    let err = String::try_unpack(&[1, 0]).unwrap_err();
    assert_eq!(err.payload_len(), 2);
    assert_eq!(String::try_unpack(&String::new().pack()).unwrap(), "");
}

#[test]
fn f64_list_length_is_checked_against_its_header() {
    let mut packed = pack_f64_bits(&[1, 2]);
    packed.pop();
    let err = try_unpack_f64_bits(&packed, "alloc::vec::Vec<f64>").unwrap_err();
    assert_eq!(err.payload_len(), packed.len());
    assert!(try_unpack_bit_triple(&[0; 23], "[f64; 3]").is_err());
}

#[test]
fn wire_unpack_error_message_names_type_and_size() {
    let err = WireUnpackError::new("u64", 3, "expected exactly 8 bytes");
    assert_eq!(err.message(), "cannot unpack u64 from 3 byte payload: expected exactly 8 bytes");
}
