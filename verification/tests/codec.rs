use property_store::{Error, Property};

fn sample() -> Property {
    Property {
        id: 42,
        address: "1 Main St".to_string(),
        price_bits: 100000.0f64.to_bits(),
        description: "house with a garden — ünïcode too".to_string(),
        owner_public_key: vec![0, 1, 2, 255],
    }
}

#[test]
fn encode_decode_round_trip() {
    let p = sample();
    let bytes = p.to_bytes().expect("a small record encodes");
    let back = Property::from_bytes(&bytes).expect("the codec's own output decodes");
    assert_eq!(back, p);
}

#[test]
fn encoding_layout_is_exact() {
    let p = Property {
        id: 1,
        address: "ab".to_string(),
        price_bits: 2.0f64.to_bits(),
        description: "c".to_string(),
        owner_public_key: vec![7],
    };
    let bytes = p.to_bytes().unwrap();
    let mut expected: Vec<u8> = Vec::new();
    expected.extend_from_slice(&1u64.to_le_bytes());
    expected.extend_from_slice(&2.0f64.to_bits().to_le_bytes());
    expected.extend_from_slice(&2u32.to_le_bytes());
    expected.extend_from_slice(b"ab");
    expected.extend_from_slice(&1u32.to_le_bytes());
    expected.extend_from_slice(b"c");
    expected.extend_from_slice(&1u32.to_le_bytes());
    expected.push(7);
    assert_eq!(bytes, expected);
}

#[test]
fn oversized_record_fails_to_encode() {
    let mut p = sample();
    p.description = "y".repeat(1200);
    assert!(matches!(p.to_bytes(), Err(Error::Allocation { .. })));
}

#[test]
fn a_record_at_the_bound_still_encodes() {
    // 28 bytes of framing + 996 bytes of fields is exactly 1024.
    let p = Property {
        id: 3,
        address: "a".repeat(900),
        price_bits: 1.0f64.to_bits(),
        description: "d".repeat(90),
        owner_public_key: vec![1; 6],
    };
    let bytes = p.to_bytes().expect("exactly the bound is allowed");
    assert_eq!(bytes.len(), 1024);
    assert_eq!(Property::from_bytes(&bytes).unwrap(), p);
}

#[test]
fn malformed_bytes_are_corrupt_data() {
    // Too short for the fixed header.
    assert!(matches!(Property::from_bytes(&[0u8; 10]), Err(Error::CorruptData { .. })));
    // A field length running past the end.
    let mut bytes = sample().to_bytes().unwrap();
    bytes[16] = 0xff;
    bytes[17] = 0xff;
    assert!(matches!(Property::from_bytes(&bytes), Err(Error::CorruptData { .. })));
    // Trailing garbage after a well-formed record.
    let mut padded = sample().to_bytes().unwrap();
    padded.push(0);
    assert!(matches!(Property::from_bytes(&padded), Err(Error::CorruptData { .. })));
    // Address bytes that are not UTF-8.
    let bad = Property {
        id: 0,
        address: "zz".to_string(),
        price_bits: 0,
        description: "".to_string(),
        owner_public_key: vec![],
    };
    let mut b = bad.to_bytes().unwrap();
    b[20] = 0xff;
    b[21] = 0xfe;
    assert!(matches!(Property::from_bytes(&b), Err(Error::CorruptData { .. })));
}

#[test]
fn nan_bits_are_detected() {
    assert!(property_store::property::price_is_nan(f64::NAN.to_bits()));
    assert!(!property_store::property::price_is_nan(1.5f64.to_bits()));
    assert!(!property_store::property::price_is_nan(f64::INFINITY.to_bits()));
    assert!(!property_store::property::price_is_nan((-0.0f64).to_bits()));
}
