use kazam::storage::nvs::{
    copy_blob, decode_u16, decode_u32, decode_u64, decode_u8, encode_u16, encode_u32, encode_u64,
    encode_u8, NvsError, NVS_FLASH_END, NVS_FLASH_START, NVS_SCRATCH_LEN,
};

#[test]
fn encodes_little_endian() {
    assert_eq!(encode_u8(0xA5), vec![0xA5]);
    assert_eq!(encode_u16(0x1234), vec![0x34, 0x12]);
    assert_eq!(encode_u32(0x0102_0304), vec![0x04, 0x03, 0x02, 0x01]);
    assert_eq!(
        encode_u64(0x0102_0304_0506_0708),
        vec![0x08, 0x07, 0x06, 0x05, 0x04, 0x03, 0x02, 0x01]
    );
}

#[test]
fn missing_key_reads_zero() {
    assert_eq!(decode_u8(None), Ok(0));
    assert_eq!(decode_u16(None), Ok(0));
    assert_eq!(decode_u32(None), Ok(0));
    assert_eq!(decode_u64(None), Ok(0));
}

#[test]
fn read_gives_back_stored_value() {
    for v in [0u8, 1, 0x7F, 0xFF] {
        assert_eq!(decode_u8(Some(&encode_u8(v)[..])), Ok(v));
    }
    for v in [0u16, 1, 0x1234, u16::MAX] {
        assert_eq!(decode_u16(Some(&encode_u16(v)[..])), Ok(v));
    }
    for v in [0u32, 7, 0xDEAD_BEEF, u32::MAX] {
        assert_eq!(decode_u32(Some(&encode_u32(v)[..])), Ok(v));
    }
    for v in [0u64, 9, 0x0123_4567_89AB_CDEF, u64::MAX] {
        assert_eq!(decode_u64(Some(&encode_u64(v)[..])), Ok(v));
    }
}

#[test]
fn decodes_stored_bytes() {
    assert_eq!(decode_u16(Some(&[0x34, 0x12][..])), Ok(0x1234));
    assert_eq!(decode_u32(Some(&[0x78, 0x56, 0x34, 0x12][..])), Ok(0x1234_5678));
    assert_eq!(decode_u8(Some(&[0x42][..])), Ok(0x42));
}

#[test]
fn narrower_read_takes_leading_bytes() {
    assert_eq!(decode_u8(Some(&encode_u32(0x0102_0304)[..])), Ok(0x04));
    assert_eq!(decode_u16(Some(&encode_u64(0xAABB_CCDD_EEFF_1122)[..])), Ok(0x1122));
}

#[test]
fn wider_read_fails() {
    assert_eq!(decode_u16(Some(&encode_u8(3)[..])), Err(NvsError::Serialization));
    assert_eq!(decode_u32(Some(&encode_u16(3)[..])), Err(NvsError::Serialization));
    assert_eq!(decode_u64(Some(&encode_u32(3)[..])), Err(NvsError::Serialization));
    assert_eq!(decode_u8(Some(&[][..])), Err(NvsError::Serialization));
}

#[test]
fn blob_missing_copies_nothing() {
    let mut out = [9u8; 4];
    assert_eq!(copy_blob(None, &mut out), 0);
    assert_eq!(out, [9u8; 4]);
}

#[test]
fn blob_shorter_than_buffer() {
    let mut out = [9u8; 5];
    assert_eq!(copy_blob(Some(&[1, 2, 3][..]), &mut out), 3);
    assert_eq!(out, [1, 2, 3, 9, 9]);
}

#[test]
fn blob_longer_than_buffer_is_cut() {
    let mut out = [0u8; 2];
    assert_eq!(copy_blob(Some(&[7, 8, 9][..]), &mut out), 2);
    assert_eq!(out, [7, 8]);
}

#[test]
fn map_area_is_page_aligned() {
    assert_eq!(NVS_FLASH_START, 0x9000);
    assert_eq!(NVS_FLASH_END, 0xE000);
    assert_eq!(NVS_FLASH_START % 4096, 0);
    assert_eq!(NVS_FLASH_END % 4096, 0);
    assert_eq!(NVS_SCRATCH_LEN, 256);
}
