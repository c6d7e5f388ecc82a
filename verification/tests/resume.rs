use binbook_x4::fw::resume::{ResumeRecord, RESUME_VERSION};

#[test]
fn empty_resume_record() {
    let record = ResumeRecord::empty();
    assert!(record.is_empty());
    assert_eq!(record.last_page, 0);
    assert_eq!(record.menu_top, 0);
    assert_eq!(record.menu_selected, 0);
}

#[test]
fn encode_decode_round_trip() {
    let original = ResumeRecord {
        last_book_name: {
            let mut name = [0u8; 64];
            name[..12].copy_from_slice(b"test.binbook");
            name
        },
        last_page: 42,
        menu_top: 5,
        menu_selected: 3,
    };

    let mut data = [0u8; ResumeRecord::SIZE];
    original.encode(&mut data).unwrap();
    let decoded = ResumeRecord::decode(&data).unwrap();

    assert_eq!(decoded, original);
    assert!(!decoded.is_empty());
}

#[test]
fn decode_rejects_invalid_magic() {
    let mut data = [0u8; ResumeRecord::SIZE];
    data[0..4].copy_from_slice(b"XXXX");
    data[4] = RESUME_VERSION;

    assert!(ResumeRecord::decode(&data).is_err());
}

#[test]
fn decode_rejects_short_buffer() {
    let data = [0u8; 10];
    assert!(ResumeRecord::decode(&data).is_err());
}
