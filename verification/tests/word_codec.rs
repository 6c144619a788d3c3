use smu_offsets::codec::{decode192, decode32, encode192, encode32};

#[test]
fn decode32_is_little_endian() {
    assert_eq!(decode32(&[0x78, 0x56, 0x34, 0x12]), 0x1234_5678);
    assert_eq!(decode32(&[0, 0, 0, 0]), 0);
    assert_eq!(decode32(&[0xFF, 0xFF, 0xFF, 0xFF]), 0xFFFF_FFFF);
}

#[test]
fn encode32_is_little_endian() {
    assert_eq!(encode32(0x1234_5678), [0x78, 0x56, 0x34, 0x12]);
    assert_eq!(encode32(0), [0, 0, 0, 0]);
    assert_eq!(encode32(0xFFFF_FFEC), [0xEC, 0xFF, 0xFF, 0xFF]);
}

#[test]
fn word_round_trips_through_bytes() {
    for w in [0u32, 1, 0x48, 0xFFFF_FFEC, u32::MAX] {
        assert_eq!(decode32(&encode32(w)), w);
    }
}

#[test]
fn decode192_reads_six_words() {
    let mut bytes = [0u8; 24];
    bytes[0] = 0xEC;
    bytes[1] = 0xFF;
    bytes[2] = 0xFF;
    bytes[3] = 0xFF;
    bytes[20] = 0x05;
    assert_eq!(decode192(&bytes), [0xFFFF_FFEC, 0, 0, 0, 0, 5]);
}

#[test]
fn encode192_writes_six_words() {
    let words = [0x1234_5678, 0, 0, 0, 0, 0xAABB_CCDD];
    let bytes = encode192(&words);
    assert_eq!(&bytes[0..4], &[0x78, 0x56, 0x34, 0x12]);
    assert_eq!(&bytes[4..20], &[0u8; 16]);
    assert_eq!(&bytes[20..24], &[0xDD, 0xCC, 0xBB, 0xAA]);
}

#[test]
fn block_round_trips_through_bytes() {
    let words = [0x10100000 | 0xFFE2, 1, 2, 3, 4, 0xFFFF_FFFF];
    assert_eq!(decode192(&encode192(&words)), words);
}
