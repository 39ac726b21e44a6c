use networkinator::port_systems::inject_extract_uuid::{
    extract_uuid, inject_uuid, ExtractUuidError, UuidBytes,
};

fn sample_uuid() -> UuidBytes {
    let mut bytes = [0u8; 16];
    for (i, b) in bytes.iter_mut().enumerate() {
        *b = 0xA0 + i as u8;
    }
    UuidBytes { bytes }
}

#[test]
fn inject_puts_uuid_first() {
    let framed = inject_uuid(vec![1, 2, 3], sample_uuid());
    assert_eq!(framed.len(), 19);
    assert_eq!(&framed[..16], &sample_uuid().bytes[..]);
    assert_eq!(&framed[16..], &[1u8, 2, 3]);
}

#[test]
fn extract_undoes_inject() {
    let framed = inject_uuid(vec![9, 8, 7, 6], sample_uuid());
    let (uuid, payload) = extract_uuid(&framed).unwrap();
    assert_eq!(uuid, sample_uuid());
    assert_eq!(payload, vec![9u8, 8, 7, 6]);
}

#[test]
fn extract_of_exactly_a_uuid_gives_empty_payload() {
    let framed = inject_uuid(Vec::new(), sample_uuid());
    let (uuid, payload) = extract_uuid(&framed).unwrap();
    assert_eq!(uuid, sample_uuid());
    assert!(payload.is_empty());
}

#[test]
fn extract_of_short_buffer_fails() {
    assert_eq!(extract_uuid(&[1u8; 15]), Err(ExtractUuidError::MissingUuid));
    assert_eq!(extract_uuid(&[]), Err(ExtractUuidError::MissingUuid));
}

#[test]
fn extract_matches_uuid_crate() {
    let raw: Vec<u8> = (0u8..20).collect();
    let (uuid, payload) = extract_uuid(&raw).unwrap();
    let expected = uuid::Uuid::from_slice(&raw[..16]).unwrap();
    assert_eq!(&uuid.bytes, expected.as_bytes());
    assert_eq!(payload, vec![16u8, 17, 18, 19]);
}
