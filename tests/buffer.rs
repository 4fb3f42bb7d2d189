use ble::buffer::{as_u128_slice, as_u16_slice, as_u32_slice, Reader, WriteError, Writer};

#[test]
fn writer_writes_little_endian() {
    let mut w = Writer::new(vec![0; 8]);
    assert_eq!(w.write_u16(0x1234), Ok(()));
    assert_eq!(w.write_u32(0xA1B2_C3D4), Ok(()));
    assert_eq!(w.pos(), 6);
    assert_eq!(w.into_inner(), vec![0x34, 0x12, 0xD4, 0xC3, 0xB2, 0xA1, 0, 0]);
}

#[test]
fn writer_fills_buffer_exactly() {
    let mut w = Writer::new(vec![0; 3]);
    assert_eq!(w.write_u8(7), Ok(()));
    assert_eq!(w.write_u16(0xBEEF), Ok(()));
    assert_eq!(w.pos(), 3);
    assert_eq!(w.into_inner(), vec![7, 0xEF, 0xBE]);
}

#[test]
fn writer_overflow_writes_nothing() {
    let mut w = Writer::new(vec![9; 3]);
    assert_eq!(w.write_u8(1), Ok(()));
    assert_eq!(w.write_u32(0xFFFF_FFFF), Err(WriteError::BufferOverflow));
    assert_eq!(w.write_slice(&[1, 2, 3]), Err(WriteError::BufferOverflow));
    assert_eq!(w.pos(), 1);
    assert_eq!(w.into_inner(), vec![1, 9, 9]);
}

#[test]
fn writer_wide_values() {
    let mut w = Writer::new(vec![0; 24]);
    assert_eq!(w.write_u64(0x0102_0304_0506_0708), Ok(()));
    assert_eq!(w.write_u128(0x00FF_0000_0000_0000_0000_0000_0000_0011), Ok(()));
    let bytes = w.into_inner();
    assert_eq!(&bytes[..8], &[8, 7, 6, 5, 4, 3, 2, 1]);
    assert_eq!(bytes[8], 0x11);
    assert_eq!(bytes[22], 0xFF);
    assert_eq!(bytes[23], 0x00);
}

#[test]
fn reader_reads_little_endian() {
    let buf = [0x34, 0x12, 0xD4, 0xC3, 0xB2, 0xA1, 0x7F];
    let mut r = Reader::new(&buf);
    assert_eq!(r.read_u16(), Some(0x1234));
    assert_eq!(r.read_u32(), Some(0xA1B2_C3D4));
    assert_eq!(r.remaining(), 1);
    assert_eq!(r.read_u8(), Some(0x7F));
    assert_eq!(r.remaining(), 0);
    assert_eq!(r.read_u8(), None);
}

#[test]
fn reader_short_read_gives_nothing_and_stays() {
    let buf = [1, 2, 3];
    let mut r = Reader::new(&buf);
    assert_eq!(r.read_u32(), None);
    assert_eq!(r.read_slice(4), None);
    assert_eq!(r.pos(), 0);
    assert_eq!(r.remaining(), 3);
    assert_eq!(r.read_slice(3), Some(&buf[..]));
}

#[test]
fn reader_wide_values() {
    let mut buf = [0u8; 24];
    buf[0] = 1;
    buf[7] = 0x80;
    buf[8] = 0x22;
    buf[23] = 0x33;
    let mut r = Reader::new(&buf);
    assert_eq!(r.read_u64(), Some(0x8000_0000_0000_0001));
    assert_eq!(r.read_u128(), Some(0x3300_0000_0000_0000_0000_0000_0000_0022));
}

#[test]
fn reader_seek_within_and_past_end() {
    let buf = [10, 20, 30];
    let mut r = Reader::new(&buf);
    assert_eq!(r.seek(2), Some(()));
    assert_eq!(r.read_u8(), Some(30));
    assert_eq!(r.seek(4), None);
    assert_eq!(r.pos(), 3);
    assert_eq!(r.seek(0), Some(()));
    assert_eq!(r.read_u8(), Some(10));
    r.skip_to_end();
    assert_eq!(r.remaining(), 0);
}

#[test]
fn byte_slices_decode_element_wise() {
    assert_eq!(as_u16_slice(&[0x09, 0x18, 0x0F, 0x18]), Some(vec![0x1809, 0x180F]));
    assert_eq!(as_u16_slice(&[]), Some(vec![]));
    assert_eq!(as_u16_slice(&[1, 2, 3]), None);
    assert_eq!(as_u32_slice(&[1, 0, 0, 0x80]), Some(vec![0x8000_0001]));
    assert_eq!(as_u32_slice(&[1, 0]), None);
    let mut b = [0u8; 16];
    b[0] = 0xFB;
    b[15] = 0x01;
    assert_eq!(as_u128_slice(&b), Some(vec![0x0100_0000_0000_0000_0000_0000_0000_00FB]));
    assert_eq!(as_u128_slice(&b[..15]), None);
}

#[test]
fn list_writers_round_trip() {
    let mut w = Writer::new(vec![0; 8]);
    assert_eq!(w.write_u16_list(&[0x1809, 0x180A]), Ok(()));
    assert_eq!(w.write_u32_list(&[0x0102_0304]), Ok(()));
    assert_eq!(w.write_u16_list(&[1]), Err(WriteError::BufferOverflow));
    let bytes = w.into_inner();
    assert_eq!(bytes, vec![0x09, 0x18, 0x0A, 0x18, 4, 3, 2, 1]);
    assert_eq!(as_u16_slice(&bytes[..4]), Some(vec![0x1809, 0x180A]));
    let mut w = Writer::new(vec![0; 16]);
    assert_eq!(w.write_u128_list(&[u128::MAX - 1]), Ok(()));
    assert_eq!(as_u128_slice(&w.into_inner()), Some(vec![u128::MAX - 1]));
}
