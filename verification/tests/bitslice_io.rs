use firmware_common::delta_logger2::bitslice_io::{BitSliceReader, BitSliceWriter};

#[test]
fn test_bit_slice_reader() {
    let mut reader: BitSliceReader<4> = Default::default();
    assert_eq!(reader.len_bits(), 0);
    assert_eq!(reader.free_bytes(), 4);

    reader.replenish_bytes(&[0xFF, 0b11111110]);
    assert_eq!(reader.len_bits(), 16);
    assert_eq!(reader.free_bytes(), 2);

    assert_eq!(reader.read::<bool>(), Some(true));
    assert_eq!(reader.len_bits(), 15);
    assert_eq!(reader.free_bytes(), 2);

    assert_eq!(reader.read::<u8>(), Some(0b01111111));
    assert_eq!(reader.read::<u8>(), None);
    assert_eq!(reader.len_bits(), 7);
    assert_eq!(reader.free_bytes(), 3);

    reader.replenish_bytes(&[0xFF; 3]);
    assert_eq!(reader.len_bits(), 7 + 3 * 8);
    assert_eq!(reader.free_bytes(), 0);
    assert_eq!(reader.start(), 1);

    for _ in 0..7 {
        reader.read::<bool>();
    }

    assert_eq!(reader.len_bits(), 3 * 8);
    assert_eq!(reader.free_bytes(), 1);
    reader.replenish_bytes(&[0xFF]);
    assert_eq!(reader.len_bits(), 4 * 8);
    assert_eq!(reader.free_bytes(), 0);
}

#[test]
fn test_bit_slice_reader_skip_byte() {
    let mut reader: BitSliceReader<4> = Default::default();
    reader.replenish_bytes(&[0xFF, 0b11111110]);

    reader.skip_byte();
    assert_eq!(reader.len_bits(), 16);
    assert_eq!(reader.read::<bool>(), Some(true));

    reader.skip_byte();
    assert_eq!(reader.len_bits(), 8);
    assert_eq!(reader.read::<u8>(), Some(0b11111110));
}

#[test]
fn bit_slice_reader_prepare_and_commit_replenish() {
    let mut reader: BitSliceReader<4> = Default::default();
    assert_eq!(reader.prepare_replenish(), 4);
    reader.commit_replenish(&[0xFF, 0b11111110]);
    assert_eq!(reader.len_bits(), 16);
    assert_eq!(reader.read::<bool>(), Some(true));
    assert_eq!(reader.read::<u8>(), Some(0b01111111));
    assert_eq!(reader.len_bits(), 7);
    assert_eq!(reader.prepare_replenish(), 3);
    assert_eq!(reader.start(), 1);
    reader.commit_replenish(&[0x12, 0x34, 0x56]);
    assert_eq!(reader.len_bits(), 31);
    assert_eq!(reader.free_bytes(), 0);
    for _ in 0..7 {
        assert_eq!(reader.read::<bool>(), Some(true));
    }
    assert_eq!(reader.read::<u8>(), Some(0x12));
    assert_eq!(reader.read::<u16>(), Some(0x5634));
    assert_eq!(reader.read::<bool>(), None);
    // all bits read: the buffer is reset before new bytes come in
    assert_eq!(reader.prepare_replenish(), 4);
    assert_eq!(reader.start(), 0);
}

#[test]
fn bit_slice_writer_round_trip() {
    let mut writer: BitSliceWriter<32> = Default::default();
    writer.write(true);
    writer.write(0xA5u8);
    writer.write([false, true, true]);
    writer.write(0x1234_5678_9ABC_DEF0u64);
    writer.write(-2i64);
    writer.write(0xBEEFu16);
    writer.write(0xDEAD_BEEFu32);
    let full = writer.view_full_byte_slice().to_vec();
    assert_eq!(full.len(), (1 + 8 + 3 + 64 + 64 + 16 + 32) / 8);
    // the first byte holds `true`, then the low 7 bits of 0xA5
    assert_eq!(full[0], 0b0100_1011);
    let all = writer.view_all_data_slice().to_vec();
    assert_eq!(all.len(), (188 + 7) / 8);

    let mut reader: BitSliceReader<32> = Default::default();
    reader.replenish_bytes(&all);
    assert_eq!(reader.read::<bool>(), Some(true));
    assert_eq!(reader.read::<u8>(), Some(0xA5));
    assert_eq!(reader.read::<bool>(), Some(false));
    assert_eq!(reader.read::<bool>(), Some(true));
    assert_eq!(reader.read::<bool>(), Some(true));
    assert_eq!(reader.read::<u64>(), Some(0x1234_5678_9ABC_DEF0));
    assert_eq!(reader.read::<i64>(), Some(-2));
    assert_eq!(reader.read::<u16>(), Some(0xBEEF));
    assert_eq!(reader.read::<u32>(), Some(0xDEAD_BEEF));
    assert_eq!(reader.len_bits(), 4);
}

#[test]
fn bit_slice_writer_keeps_partial_byte() {
    let mut writer: BitSliceWriter<4> = Default::default();
    writer.write(0xFFu16);
    writer.write([true, false, true, false]);
    assert_eq!(writer.view_full_byte_slice(), &[0xFF, 0x00]);
    writer.clear_full_byte_slice();
    assert_eq!(writer.view_full_byte_slice(), &[] as &[u8]);
    assert_eq!(writer.view_all_data_slice().len(), 1);
    assert_eq!(writer.view_all_data_slice()[0] & 0x0F, 0b0101);
    writer.write([true, true, true, true]);
    assert_eq!(writer.view_full_byte_slice(), &[0xF5]);
    writer.clear();
    assert_eq!(writer.view_all_data_slice(), &[] as &[u8]);
}

#[test]
fn optional_values_round_trip() {
    let mut writer: BitSliceWriter<8> = Default::default();
    writer.write(Some(0x5Au8));
    writer.write(None::<u8>);
    writer.write(Some(true));
    let all = writer.view_all_data_slice().to_vec();
    // 1 + 8, 1 + 8 (a zero, then ones), 1 + 1
    assert_eq!(all.len(), (9 + 9 + 2 + 7) / 8);
    assert_eq!(all[0], 0b1011_0101);
    assert_eq!(all[1], 0b1111_1100);
    assert_eq!(all[2] & 0x0F, 0b1111);
    let mut reader: BitSliceReader<8> = Default::default();
    reader.replenish_bytes(&all);
    assert_eq!(reader.read::<Option<u8>>(), Some(Some(0x5A)));
    assert_eq!(reader.read::<Option<u8>>(), Some(None));
    assert_eq!(reader.read::<Option<bool>>(), Some(Some(true)));
    // what is left is the padding of the last byte
    assert_eq!(reader.len_bits(), 4);
    assert_eq!(reader.read::<Option<bool>>(), Some(None));
}

#[test]
fn test_bit_slice_reader_async_replenish() {
    let mut reader: BitSliceReader<4> = Default::default();
    assert_eq!(reader.len_bits(), 0);
    assert_eq!(reader.free_bytes(), 4);

    let room = reader.prepare_replenish();
    assert_eq!(room, 4);
    let mut buffer = [0u8; 4];
    buffer[0] = 0xFF;
    buffer[1] = 0b11111110;
    reader.commit_replenish(&buffer[..2]);
    assert_eq!(reader.len_bits(), 16);
    assert_eq!(reader.free_bytes(), 2);

    assert_eq!(reader.read::<bool>(), Some(true));
    assert_eq!(reader.len_bits(), 15);
    assert_eq!(reader.free_bytes(), 2);

    assert_eq!(reader.read::<u8>(), Some(0b01111111));
    assert_eq!(reader.read::<u8>(), None);
    assert_eq!(reader.len_bits(), 7);
    assert_eq!(reader.free_bytes(), 3);

    let room = reader.prepare_replenish();
    let mut buffer = [0u8; 3];
    buffer[0] = 0xFF;
    buffer[1] = 0xFF;
    buffer[2] = 0xFF;
    reader.commit_replenish(&buffer[..room]);
    assert_eq!(reader.len_bits(), 7 + 3 * 8);
    assert_eq!(reader.free_bytes(), 0);
    assert_eq!(reader.start(), 1);

    for _ in 0..7 {
        reader.read::<bool>();
    }

    assert_eq!(reader.len_bits(), 3 * 8);
    assert_eq!(reader.free_bytes(), 1);
    let room = reader.prepare_replenish();
    assert_eq!(room, 1);
    reader.commit_replenish(&[0xFF]);
    assert_eq!(reader.len_bits(), 4 * 8);
    assert_eq!(reader.free_bytes(), 0);
}
