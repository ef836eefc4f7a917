use blockochen::HexError;

#[test]
fn to_hex_writes_two_lower_case_digits_per_byte() {
    let h = blockochen::Hash::from_bytes(vec![1, 2, 3, 15, 16, 0xab, 0xff]);
    assert_eq!(h.to_hex(), "0102030f10abff");
}

#[test]
fn to_hex_of_empty_is_empty() {
    assert_eq!(blockochen::Hash::empty().to_hex(), "");
}

#[test]
fn from_hex_reads_either_case() {
    let want = blockochen::Hash::from_bytes(vec![0xf9, 0xb4, 0xca]);
    assert_eq!(blockochen::Hash::from_hex("f9b4ca"), Ok(want.clone()));
    assert_eq!(blockochen::Hash::from_hex("F9B4CA"), Ok(want.clone()));
    assert_eq!(blockochen::Hash::from_hex("f9B4Ca"), Ok(want));
}

#[test]
fn from_hex_of_empty_text_is_the_empty_hash() {
    let h = blockochen::Hash::from_hex("").unwrap();
    assert!(h.is_empty());
    assert_eq!(h, blockochen::Hash::default());
}

#[test]
fn from_hex_refuses_odd_length() {
    assert_eq!(blockochen::Hash::from_hex("123"), Err(HexError::OddLength));
    assert_eq!(blockochen::Hash::from_hex("g"), Err(HexError::OddLength));
}

#[test]
fn from_hex_reports_first_bad_digit() {
    assert_eq!(
        blockochen::Hash::from_hex("12zz"),
        Err(HexError::InvalidHexCharacter { c: 'z', index: 2 })
    );
    assert_eq!(
        blockochen::Hash::from_hex("1g"),
        Err(HexError::InvalidHexCharacter { c: 'g', index: 1 })
    );
    assert_eq!(
        blockochen::Hash::from_hex(" 0"),
        Err(HexError::InvalidHexCharacter { c: ' ', index: 0 })
    );
}

#[test]
fn hex_round_trip() {
    let h = blockochen::Hash::from_bytes((0u8..=255).collect());
    let text = h.to_hex();
    assert_eq!(text.len(), 512);
    assert_eq!(blockochen::Hash::from_hex(&text), Ok(h));
}

#[test]
fn hashes_compare_by_bytes() {
    let a = blockochen::Hash::from_bytes(vec![1, 2, 3]);
    let b = blockochen::Hash::from_bytes(vec![1, 2, 3]);
    let c = blockochen::Hash::from_bytes(vec![1, 2, 4]);
    let d = blockochen::Hash::from_bytes(vec![1, 2]);
    assert_eq!(a, b);
    assert_ne!(a, c);
    assert_ne!(a, d);
    assert_eq!(a.clone(), a);
    assert_eq!(a.as_bytes(), &[1, 2, 3]);
    assert_eq!(a.into_bytes(), vec![1, 2, 3]);
    assert!(blockochen::bytes_equal(&[], &[]));
    assert!(!blockochen::bytes_equal(&[0], &[]));
}
