use protohackers::means_to_an_end::{
    apply_frame, decode_be_i32, encode_be_i32, FrameOutcome, PriceDb, TAG_INSERT, TAG_QUERY,
};

#[test]
fn decodes_big_endian_signed() {
    assert_eq!(decode_be_i32(0, 0, 0, 5), 5);
    assert_eq!(decode_be_i32(0, 0, 0x30, 0x39), 12345);
    assert_eq!(decode_be_i32(0xff, 0xff, 0xff, 0xfb), -5);
    assert_eq!(decode_be_i32(0x80, 0, 0, 0), i32::MIN);
    assert_eq!(decode_be_i32(0x7f, 0xff, 0xff, 0xff), i32::MAX);
}

#[test]
fn encodes_big_endian_signed() {
    assert_eq!(encode_be_i32(5), vec![0, 0, 0, 5]);
    assert_eq!(encode_be_i32(-5), vec![0xff, 0xff, 0xff, 0xfb]);
    assert_eq!(encode_be_i32(0), vec![0, 0, 0, 0]);
    assert_eq!(encode_be_i32(i32::MIN), vec![0x80, 0, 0, 0]);
    for v in [0, 1, -1, 101, -32768, i32::MAX, i32::MIN] {
        let b = encode_be_i32(v);
        assert_eq!(decode_be_i32(b[0], b[1], b[2], b[3]), v);
    }
}

#[test]
fn overwrite_round_trip_yields_second_value() {
    let mut db = PriceDb::new();
    db.insert(5, 100);
    db.insert(5, 200);
    assert_eq!(db.query(5, 5), 200);
}

#[test]
fn inverted_range_yields_zero_regardless_of_data() {
    let db = PriceDb::new();
    assert_eq!(db.query(3, 2), 0);
    let mut db = PriceDb::new();
    db.insert(1, 10);
    db.insert(2, 20);
    db.insert(3, 30);
    assert_eq!(db.query(3, 2), 0);
    assert_eq!(db.query(i32::MAX, i32::MIN), 0);
    assert_eq!(db.query(2, 1), 0);
}

#[test]
fn full_range_query_yields_mean() {
    let mut db = PriceDb::new();
    db.insert(1, 10);
    db.insert(2, 20);
    db.insert(3, 30);
    assert_eq!(db.query(i32::MIN, i32::MAX), 20);
}

#[test]
fn mean_truncates_toward_zero() {
    let mut db = PriceDb::new();
    db.insert(1, -3);
    db.insert(2, -4);
    assert_eq!(db.query(1, 2), -3);
    let mut db = PriceDb::new();
    db.insert(1, 3);
    db.insert(2, 4);
    assert_eq!(db.query(1, 2), 3);
}

#[test]
fn empty_match_yields_zero() {
    let mut db = PriceDb::new();
    db.insert(10, 1000);
    assert_eq!(db.query(11, 20), 0);
}

#[test]
fn frames_drive_the_store() {
    let mut db = PriceDb::new();
    let mut frame = vec![TAG_INSERT];
    frame.extend_from_slice(&encode_be_i32(5));
    frame.extend_from_slice(&encode_be_i32(100));
    assert!(matches!(apply_frame(&mut db, &frame), FrameOutcome::Stored));

    let mut frame = vec![TAG_INSERT];
    frame.extend_from_slice(&encode_be_i32(6));
    frame.extend_from_slice(&encode_be_i32(300));
    assert!(matches!(apply_frame(&mut db, &frame), FrameOutcome::Stored));

    let mut frame = vec![TAG_QUERY];
    frame.extend_from_slice(&encode_be_i32(5));
    frame.extend_from_slice(&encode_be_i32(6));
    match apply_frame(&mut db, &frame) {
        FrameOutcome::Reply(bytes) => assert_eq!(bytes, encode_be_i32(200)),
        _ => panic!("a query frame must be answered"),
    }

    let frame = [b'X', 0, 0, 0, 0, 0, 0, 0, 0];
    assert!(matches!(apply_frame(&mut db, &frame), FrameOutcome::Disconnect));
}
