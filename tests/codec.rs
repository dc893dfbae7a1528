use pxtone::codec::{read_u16, read_u32, v_r, v_w};

#[test]
fn vr_round_trip_and_lengths() {
    let cases: [(u32, usize); 9] = [
        (0, 1),
        (1, 1),
        (127, 1),
        (128, 2),
        (16383, 2),
        (16384, 3),
        (2097151, 3),
        (268435455, 4),
        (4294967295, 5),
    ];
    for (n, len) in cases {
        let enc = v_w(n);
        assert_eq!(enc.len(), len, "length of {n}");
        assert_eq!(v_r(&enc, 0), Some((n, len)), "decode of {n}");
    }
}

#[test]
fn vr_known_bytes() {
    assert_eq!(v_w(128), vec![0x80, 0x01]);
    assert_eq!(v_w(300), vec![0xac, 0x02]);
    assert_eq!(v_r(&[0xac, 0x02, 0xff], 0), Some((300, 2)));
}

#[test]
fn vr_reads_at_offset() {
    let bytes = [9u8, 9, 0x85, 0x03, 7];
    assert_eq!(v_r(&bytes, 2), Some((5 + 3 * 128, 4)));
    assert_eq!(v_r(&bytes, 4), Some((7, 5)));
}

#[test]
fn vr_truncated_is_none() {
    assert_eq!(v_r(&[0x80, 0x80], 0), None);
    assert_eq!(v_r(&[], 0), None);
    assert_eq!(v_r(&[1, 2], 3), None);
}

#[test]
fn vr_five_continuations_read_zero() {
    assert_eq!(v_r(&[0x80, 0x80, 0x80, 0x80, 0x80, 0x01], 0), Some((0, 5)));
}

#[test]
fn vr_fifth_byte_keeps_low_bits() {
    assert_eq!(v_r(&[0xff, 0xff, 0xff, 0xff, 0x0f], 0), Some((u32::MAX, 5)));
    assert_eq!(v_r(&[0xff, 0xff, 0xff, 0xff, 0x1f], 0), Some((u32::MAX, 5)));
}

#[test]
fn little_endian_reads() {
    let b = [0x34u8, 0x12, 0x78, 0x56];
    assert_eq!(read_u16(&b, 0), Some(0x1234));
    assert_eq!(read_u32(&b, 0), Some(0x5678_1234));
    assert_eq!(read_u32(&b, 1), None);
    assert_eq!(read_u16(&b, 3), None);
}
