use worldweaver::codec::{
    compress, decompress, pack_cells, unpack_cells, CompressionError,
};

#[test]
fn compressed_bytes_come_back() {
    let data: Vec<u8> = (0..200u32).map(|i| (i % 7) as u8).collect();
    let frame = compress(&data, 3).unwrap();
    assert_ne!(frame, data);
    assert_eq!(frame, zstd::encode_all(data.as_slice(), 3).unwrap());
    assert_eq!(decompress(&frame), Ok(data));
}

#[test]
fn garbage_is_a_corrupt_payload() {
    assert_eq!(decompress(&vec![0xde, 0xad, 0xbe, 0xef, 0x00]), Err(CompressionError::CorruptPayload));
    assert_eq!(unpack_cells(&vec![9, 9, 9]), Err(CompressionError::CorruptPayload));
}

#[test]
fn truncated_frame_is_a_corrupt_payload() {
    let data: Vec<u8> = (0..100u32).map(|i| (i * 3) as u8).collect();
    let mut frame = compress(&data, 3).unwrap();
    frame.truncate(frame.len() - 4);
    assert_eq!(decompress(&frame), Err(CompressionError::CorruptPayload));
}

#[test]
fn packed_cells_come_back() {
    let cells: Vec<u32> = vec![0.25f32.to_bits(), 0.5f32.to_bits(), u32::MAX, 0];
    let frame = pack_cells(&cells, 6).unwrap();
    assert_eq!(unpack_cells(&frame), Ok(cells));
}

#[test]
fn level_changes_the_frame_not_the_content() {
    let data: Vec<u8> = (0..4000u32).map(|i| (i % 251) as u8 ^ (i / 17) as u8).collect();
    let fast = compress(&data, 1).unwrap();
    let small = compress(&data, 19).unwrap();
    assert_eq!(decompress(&fast), Ok(data.clone()));
    assert_eq!(decompress(&small), Ok(data));
}
