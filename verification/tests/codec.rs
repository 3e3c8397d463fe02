use byteorder::ByteOrder as ByteOrderCodec;
use byteorder::{BigEndian, LittleEndian};
use endian_stream::endian::{decode_int, decode_uint, encode_int, encode_uint, ByteOrder};

#[test]
fn big_endian_two_bytes_is_0x0102() {
    assert_eq!(decode_uint(&[0x01, 0x02], ByteOrder::Big), 0x0102);
}

#[test]
fn little_endian_two_bytes_is_0x0201() {
    assert_eq!(decode_uint(&[0x01, 0x02], ByteOrder::Little), 0x0201);
}

#[test]
fn three_ff_bytes_signed_is_minus_one() {
    assert_eq!(decode_int(&[0xFF, 0xFF, 0xFF], ByteOrder::Big), -1);
    assert_eq!(decode_int(&[0xFF, 0xFF, 0xFF], ByteOrder::Little), -1);
}

#[test]
fn three_ff_bytes_unsigned_is_0xffffff() {
    assert_eq!(decode_uint(&[0xFF, 0xFF, 0xFF], ByteOrder::Big), 0xFFFFFF);
    assert_eq!(decode_uint(&[0xFF, 0xFF, 0xFF], ByteOrder::Little), 0xFFFFFF);
}

#[test]
fn encode_uint_exact_bytes() {
    assert_eq!(encode_uint(0x0102, 2, ByteOrder::Big), vec![0x01, 0x02]);
    assert_eq!(encode_uint(0x0102, 2, ByteOrder::Little), vec![0x02, 0x01]);
    assert_eq!(
        encode_uint(0xA1B2C3, 3, ByteOrder::Big),
        vec![0xA1, 0xB2, 0xC3]
    );
    assert_eq!(
        encode_uint(0xA1B2C3, 3, ByteOrder::Little),
        vec![0xC3, 0xB2, 0xA1]
    );
}

#[test]
fn encode_int_exact_bytes() {
    assert_eq!(encode_int(-1, 3, ByteOrder::Big), vec![0xFF, 0xFF, 0xFF]);
    assert_eq!(encode_int(-2, 2, ByteOrder::Big), vec![0xFF, 0xFE]);
    assert_eq!(encode_int(-2, 2, ByteOrder::Little), vec![0xFE, 0xFF]);
    assert_eq!(encode_int(0x1234, 2, ByteOrder::Big), vec![0x12, 0x34]);
}

#[test]
fn unsigned_round_trip_all_widths_and_orders() {
    let samples: [u64; 6] = [
        0,
        1,
        0xAB,
        0x01020304,
        0xDEADBEEFCAFEF00D,
        u64::MAX,
    ];
    for order in [ByteOrder::Big, ByteOrder::Little] {
        for w in 1usize..=8 {
            let mask: u64 = if w == 8 { u64::MAX } else { (1u64 << (8 * w)) - 1 };
            for &v in samples.iter() {
                let buf = encode_uint(v, w, order);
                assert_eq!(buf.len(), w);
                assert_eq!(decode_uint(&buf, order), v & mask, "w={w} v={v:#x}");
            }
        }
    }
}

#[test]
fn signed_round_trip_all_widths_and_orders() {
    for order in [ByteOrder::Big, ByteOrder::Little] {
        for w in 1usize..=8 {
            let half: i64 = if w == 8 { i64::MAX } else { (1i64 << (8 * w - 1)) - 1 };
            let lo: i64 = if w == 8 { i64::MIN } else { -(1i64 << (8 * w - 1)) };
            let samples: [i64; 7] = [0, 1, -1, 42, -42, half, lo];
            for &v in samples.iter() {
                let buf = encode_int(v, w, order);
                assert_eq!(buf.len(), w);
                assert_eq!(decode_int(&buf, order), v, "w={w} v={v}");
            }
        }
    }
}

#[test]
fn encode_truncates_out_of_range_values() {
    // Only the low bytes are taken; decode then sign/zero extends.
    assert_eq!(decode_uint(&encode_uint(0x01FF, 1, ByteOrder::Big), ByteOrder::Big), 0xFF);
    assert_eq!(decode_int(&encode_int(0x12345678, 2, ByteOrder::Big), ByteOrder::Big), 0x5678);
    assert_eq!(decode_int(&encode_int(-0x123456, 1, ByteOrder::Little), ByteOrder::Little), -0x56);
}

#[test]
fn sign_extension_boundaries() {
    // The top bit of the most significant transferred byte decides the sign.
    assert_eq!(decode_int(&[0x7F, 0xFF], ByteOrder::Big), 0x7FFF);
    assert_eq!(decode_int(&[0x80, 0x00], ByteOrder::Big), -0x8000);
    assert_eq!(decode_int(&[0x80], ByteOrder::Big), -128);
    assert_eq!(decode_int(&[0x7F], ByteOrder::Big), 127);
    assert_eq!(
        decode_int(
            &[0x80, 0, 0, 0, 0, 0, 0, 0],
            ByteOrder::Big
        ),
        i64::MIN
    );
    assert_eq!(
        decode_uint(
            &[0xFF, 0xFF, 0xFF, 0xFF, 0xFF, 0xFF, 0xFF, 0xFF],
            ByteOrder::Big
        ),
        u64::MAX
    );
}

#[test]
fn agrees_with_byteorder_crate_unsigned() {
    let samples: [u64; 5] = [0, 1, 0x7F, 0xABCD, 0x0102030405060708];
    for w in 1usize..=8 {
        for &v in samples.iter() {
            let fits = w == 8 || v < (1u64 << (8 * w));
            if !fits {
                continue;
            }
            let mut expected = [0u8; 8];
            BigEndian::write_uint(&mut expected, v, w);
            assert_eq!(encode_uint(v, w, ByteOrder::Big)[..], expected[..w]);
            LittleEndian::write_uint(&mut expected, v, w);
            assert_eq!(encode_uint(v, w, ByteOrder::Little)[..], expected[..w]);

            let buf = encode_uint(v, w, ByteOrder::Big);
            assert_eq!(decode_uint(&buf, ByteOrder::Big), BigEndian::read_uint(&buf, w));
            let buf = encode_uint(v, w, ByteOrder::Little);
            assert_eq!(
                decode_uint(&buf, ByteOrder::Little),
                LittleEndian::read_uint(&buf, w)
            );
        }
    }
}

#[test]
fn agrees_with_byteorder_crate_signed() {
    let samples: [i64; 6] = [0, 1, -1, 127, -128, 0x1234];
    for w in 1usize..=8 {
        for &v in samples.iter() {
            let half: i64 = if w == 8 { i64::MAX } else { (1i64 << (8 * w - 1)) - 1 };
            let lo: i64 = if w == 8 { i64::MIN } else { -(1i64 << (8 * w - 1)) };
            if v < lo || v > half {
                continue;
            }
            let mut expected = [0u8; 8];
            BigEndian::write_int(&mut expected, v, w);
            assert_eq!(encode_int(v, w, ByteOrder::Big)[..], expected[..w]);
            LittleEndian::write_int(&mut expected, v, w);
            assert_eq!(encode_int(v, w, ByteOrder::Little)[..], expected[..w]);

            let buf = encode_int(v, w, ByteOrder::Big);
            assert_eq!(decode_int(&buf, ByteOrder::Big), BigEndian::read_int(&buf, w));
            let buf = encode_int(v, w, ByteOrder::Little);
            assert_eq!(
                decode_int(&buf, ByteOrder::Little),
                LittleEndian::read_int(&buf, w)
            );
        }
    }
}
