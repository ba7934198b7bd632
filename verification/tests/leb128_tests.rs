use grease::leb128::push_sleb128_i32;

fn enc(v: i32) -> Vec<u8> {
    let mut out = Vec::new();
    push_sleb128_i32(&mut out, v);
    out
}

#[test]
fn sleb128_known_encodings() {
    assert_eq!(enc(64), vec![0xC0, 0x00]);
    assert_eq!(enc(63), vec![0x3F]);
    assert_eq!(enc(-1), vec![0x7F]);
    assert_eq!(enc(-64), vec![0x40]);
    assert_eq!(enc(128), vec![0x80, 0x01]);
    assert_eq!(enc(0), vec![0x00]);
}

#[test]
fn sleb128_i32_takes_at_most_five_bytes() {
    assert_eq!(enc(i32::MIN).len(), 5);
    assert_eq!(enc(i32::MAX).len(), 5);
    assert_eq!(enc(i32::MIN), vec![0x80, 0x80, 0x80, 0x80, 0x78]);
}

#[test]
fn sleb128_appends_to_existing_bytes() {
    let mut out = vec![0x41];
    push_sleb128_i32(&mut out, 300);
    assert_eq!(out, vec![0x41, 0xAC, 0x02]);
}
