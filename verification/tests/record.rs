use movie_intro::state::MovieInfo;

fn sample_record() -> MovieInfo {
    MovieInfo {
        is_initialized: true,
        rating: 9,
        title: b"Matrix".to_vec(),
        description: b"Great movie".to_vec(),
        funding: 100,
        recipient: b"Neo!".to_vec(),
        entry: 1,
    }
}

#[test]
fn record_round_trips_through_its_bytes() {
    let record = sample_record();
    let decoded = MovieInfo::deserialize(&record.serialize()).unwrap();
    assert_eq!(decoded, record);
}

#[test]
fn record_serialization_matches_borsh() {
    let payload = (
        true,
        9u8,
        "Matrix".to_string(),
        "Great movie".to_string(),
        100u32,
        "Neo!".to_string(),
        1u32,
    );
    let expected = borsh::to_vec(&payload).unwrap();
    assert_eq!(sample_record().serialize(), expected);
}

#[test]
fn record_read_ignores_trailing_padding() {
    let record = sample_record();
    let mut bytes = record.serialize();
    bytes.extend_from_slice(&[0, 0, 0, 0, 0]);
    let decoded = MovieInfo::deserialize(&bytes).unwrap();
    assert_eq!(decoded, record);
}

#[test]
fn zeroed_slot_reads_as_uninitialized() {
    let decoded = MovieInfo::deserialize(&vec![0u8; 22]).unwrap();
    assert!(!decoded.is_initialized());
    assert_eq!(decoded.rating, 0);
    assert!(decoded.title.is_empty());
    assert!(decoded.description.is_empty());
    assert_eq!(decoded.funding, 0);
    assert!(decoded.recipient.is_empty());
    assert_eq!(decoded.entry, 0);
}

#[test]
fn larger_zeroed_slot_reads_as_uninitialized() {
    let decoded = MovieInfo::deserialize(&vec![0u8; 64]).unwrap();
    assert!(!decoded.is_initialized());
}

#[test]
fn truncated_zeroed_slot_does_not_read() {
    assert!(MovieInfo::deserialize(&vec![0u8; 21]).is_none());
}

#[test]
fn bad_guard_byte_does_not_read() {
    let mut bytes = vec![0u8; 22];
    bytes[0] = 2;
    assert!(MovieInfo::deserialize(&bytes).is_none());
}

#[test]
fn truncated_record_does_not_read() {
    let bytes = sample_record().serialize();
    assert!(MovieInfo::deserialize(&bytes[..bytes.len() - 1]).is_none());
}

#[test]
fn invalid_utf8_in_stored_title_does_not_read() {
    let mut record = sample_record();
    record.title = vec![0xc0, 0x80];
    let bytes = record.serialize();
    assert!(MovieInfo::deserialize(&bytes).is_none());
}

#[test]
fn empty_record_round_trips() {
    let record = MovieInfo {
        is_initialized: false,
        rating: 0,
        title: Vec::new(),
        description: Vec::new(),
        funding: 0,
        recipient: Vec::new(),
        entry: 0,
    };
    let decoded = MovieInfo::deserialize(&record.serialize()).unwrap();
    assert_eq!(decoded, record);
    assert_eq!(record.serialize().len(), 22);
}
