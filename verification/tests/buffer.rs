use firmware_common::buffer::WriteBuffer;
use firmware_common::io_traits::{
    u16_from_be_bytes, u16_to_be_bytes, u32_from_be_bytes, u32_to_be_bytes, u64_from_be_bytes,
    u64_to_be_bytes, Writer,
};

#[test]
fn write_buffer_fills_after_start_offset() {
    let mut array = [0u8; 16];
    let mut buffer = WriteBuffer::new(&mut array, 4);
    assert_eq!(buffer.len(), 0);
    assert_eq!(buffer.capacity(), 12);
    buffer.extend_from_slice(&[1, 2, 3]);
    assert_eq!(buffer.len(), 3);
    assert_eq!(buffer.as_slice_without_start(), &[1, 2, 3]);
    // a slice that does not fit is dropped
    buffer.extend_from_slice(&[9; 10]);
    assert_eq!(buffer.len(), 3);
    buffer.align_4_bytes();
    assert_eq!(buffer.as_slice_without_start(), &[1, 2, 3, 0xFF]);
    buffer.align_4_bytes();
    assert_eq!(buffer.len(), 4);
    buffer.replace_u16(0, 0xABCD);
    assert_eq!(buffer.as_slice_without_start(), &[0xAB, 0xCD, 3, 0xFF]);
    buffer.replace_u32(0, 0x0102_0304);
    assert_eq!(buffer.as_slice_without_start(), &[1, 2, 3, 4]);
    buffer.as_mut_slice()[0] = 0x55;
    assert_eq!(buffer.as_mut_slice()[..5], [0x55, 0, 0, 0, 1]);
    buffer.set_offset(2);
    assert_eq!(buffer.as_slice_without_start(), &[1, 2]);
    buffer.reset();
    assert_eq!(buffer.len(), 0);
}

#[test]
fn write_buffer_as_writer() {
    let mut array = [0u8; 16];
    let mut buffer = WriteBuffer::new(&mut array, 0);
    Writer::extend_from_u8(&mut buffer, 0x11);
    buffer.extend_from_u16(0x2233);
    buffer.extend_from_u32(0x4455_6677);
    buffer.extend_from_u64(0x8899_AABB_CCDD_EEFF);
    assert_eq!(buffer.len(), 15);
    assert_eq!(
        buffer.as_slice_without_start(),
        &[
            0x11, 0x22, 0x33, 0x44, 0x55, 0x66, 0x77, 0x88, 0x99, 0xAA, 0xBB, 0xCC, 0xDD, 0xEE,
            0xFF
        ]
    );
    Writer::extend_from_slice(&mut buffer, &[1, 2]);
    assert_eq!(buffer.len(), 15);
    Writer::extend_from_slice(&mut buffer, &[1]);
    assert_eq!(buffer.len(), 16);
}

#[test]
fn big_endian_round_trips() {
    assert_eq!(u16_to_be_bytes(0x1234), [0x12, 0x34]);
    assert_eq!(u32_to_be_bytes(0x1234_5678), [0x12, 0x34, 0x56, 0x78]);
    assert_eq!(
        u64_to_be_bytes(0x0102_0304_0506_0708),
        [1, 2, 3, 4, 5, 6, 7, 8]
    );
    assert_eq!(u16_from_be_bytes([0xFF, 0x01]), 0xFF01);
    assert_eq!(u32_from_be_bytes(u32_to_be_bytes(0xDEAD_BEEF)), 0xDEAD_BEEF);
    assert_eq!(
        u64_from_be_bytes(u64_to_be_bytes(u64::MAX - 5)),
        u64::MAX - 5
    );
}
