use hw_bringup::wire::{
    read_be16, read_be32, read_be64, read_le16, read_le32, u16_to_be, u16_to_le, u32_to_be,
    u32_to_le, u64_to_be,
};

#[test]
fn little_endian_reads_take_low_byte_first() {
    let bytes = [0x34u8, 0x12, 0x78, 0x56, 0xBC, 0x9A];
    assert_eq!(read_le16(&bytes, 0), 0x1234);
    assert_eq!(read_le16(&bytes, 2), 0x5678);
    assert_eq!(read_le32(&bytes, 0), 0x5678_1234);
    assert_eq!(read_le32(&bytes, 2), 0x9ABC_5678);
}

#[test]
fn big_endian_reads_take_high_byte_first() {
    let bytes = [0x12u8, 0x34, 0x56, 0x78, 0x9A, 0xBC, 0xDE, 0xF0, 0x11];
    assert_eq!(read_be16(&bytes, 0), 0x1234);
    assert_eq!(read_be32(&bytes, 0), 0x1234_5678);
    assert_eq!(read_be32(&bytes, 1), 0x3456_789A);
    assert_eq!(read_be64(&bytes, 0), 0x1234_5678_9ABC_DEF0);
    assert_eq!(read_be64(&bytes, 1), 0x3456_789A_BCDE_F011);
}

#[test]
fn encodings_have_the_documented_byte_order() {
    assert_eq!(u16_to_le(0x1234), [0x34, 0x12]);
    assert_eq!(u16_to_be(0x1234), [0x12, 0x34]);
    assert_eq!(u32_to_le(0x1234_5678), [0x78, 0x56, 0x34, 0x12]);
    assert_eq!(u32_to_be(0x1234_5678), [0x12, 0x34, 0x56, 0x78]);
    assert_eq!(
        u64_to_be(0x0102_0304_0506_0708),
        [0x01, 0x02, 0x03, 0x04, 0x05, 0x06, 0x07, 0x08]
    );
}

#[test]
fn encodings_agree_with_the_standard_library() {
    let samples: [u64; 7] = [
        0,
        1,
        0xFF,
        0x8000_0000,
        0xFFFF_FFFF,
        0x0123_4567_89AB_CDEF,
        u64::MAX,
    ];
    for &v in samples.iter() {
        assert_eq!(u64_to_be(v), v.to_be_bytes());
        assert_eq!(u32_to_be(v as u32), (v as u32).to_be_bytes());
        assert_eq!(u32_to_le(v as u32), (v as u32).to_le_bytes());
        assert_eq!(u16_to_be(v as u16), (v as u16).to_be_bytes());
        assert_eq!(u16_to_le(v as u16), (v as u16).to_le_bytes());
    }
}

#[test]
fn decoding_an_encoding_gives_the_value_back() {
    let samples: [u64; 5] = [0, 0x18, 0x0019_0018, 0xDEAD_BEEF_0BAD_F00D, u64::MAX];
    for &v in samples.iter() {
        assert_eq!(read_be64(&u64_to_be(v), 0), v);
        assert_eq!(read_be32(&u32_to_be(v as u32), 0), v as u32);
        assert_eq!(read_le32(&u32_to_le(v as u32), 0), v as u32);
        assert_eq!(read_be16(&u16_to_be(v as u16), 0), v as u16);
        assert_eq!(read_le16(&u16_to_le(v as u16), 0), v as u16);
    }
}
