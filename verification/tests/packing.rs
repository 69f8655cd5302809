use trs80m1_mltl::packing::{
    finalize_data_entry, generate_data_entry_header, input_file_sanity_check, pack,
    pack_binary_image, pack_chunk, PackError, PackReport,
};

const NAME: &[u8] = b"GAME  ";

fn sample(length: usize) -> Vec<u8> {
    (0..length).map(|i| (i * 7 + 3) as u8).collect()
}

fn wrapping_sum(bytes: &[u8]) -> u8 {
    bytes.iter().fold(0u8, |sum, byte| sum.wrapping_add(*byte))
}

/// Reads the chunk records and the trailer of a tape image as a loader
/// would: load address and data of each chunk, and the entry point.
fn read_back(image: &[u8]) -> (Vec<(u16, Vec<u8>)>, u16) {
    let mut chunks = Vec::new();
    let mut at = 264;
    while image[at] == 0x3C {
        let length = if image[at + 1] == 0 { 256 } else { image[at + 1] as usize };
        let address = u16::from_le_bytes([image[at + 2], image[at + 3]]);
        let data = image[at + 4..at + 4 + length].to_vec();
        assert_eq!(image[at + 4 + length], wrapping_sum(&image[at + 2..at + 4 + length]));
        chunks.push((address, data));
        at += 5 + length;
    }
    assert_eq!(image[at], 0x78);
    assert_eq!(image.len(), at + 3);
    (chunks, u16::from_le_bytes([image[at + 1], image[at + 2]]))
}

#[test]
fn header_is_leader_sync_format_and_name() {
    let mut buffer = Vec::new();
    generate_data_entry_header(NAME, &mut buffer);
    assert_eq!(buffer.len(), 264);
    assert!(buffer[..256].iter().all(|byte| *byte == 0));
    assert_eq!(buffer[256], 0xA5);
    assert_eq!(buffer[257], 0x55);
    assert_eq!(&buffer[258..], NAME);
}

#[test]
fn header_is_appended_to_what_the_buffer_holds() {
    let mut buffer = vec![9, 8];
    generate_data_entry_header(b"AB CD ", &mut buffer);
    assert_eq!(buffer.len(), 266);
    assert_eq!(&buffer[..2], &[9, 8]);
    assert_eq!(&buffer[260..], b"AB CD ");
}

#[test]
fn chunk_record_of_three_bytes() {
    let mut buffer = Vec::new();
    let packed = pack_chunk(&[1, 2, 3], &mut buffer, 0x1234);
    assert_eq!(packed, 3);
    assert_eq!(buffer, vec![0x3C, 3, 0x34, 0x12, 1, 2, 3, 0x4C]);
}

#[test]
fn chunk_checksum_wraps_around() {
    let mut buffer = Vec::new();
    pack_chunk(&[0xFF, 0xFF, 0xFF], &mut buffer, 0xFFFF);
    assert_eq!(buffer, vec![0x3C, 3, 0xFF, 0xFF, 0xFF, 0xFF, 0xFF, 0xFB]);
}

#[test]
fn chunk_checksum_leaves_marker_and_length_out() {
    let mut buffer = Vec::new();
    pack_chunk(&[0], &mut buffer, 0);
    assert_eq!(buffer, vec![0x3C, 1, 0, 0, 0, 0]);
}

#[test]
fn full_chunk_has_length_byte_zero() {
    let data = sample(256);
    let mut buffer = Vec::new();
    let packed = pack_chunk(&data, &mut buffer, 0x8000);
    assert_eq!(packed, 256);
    assert_eq!(buffer.len(), 261);
    assert_eq!(buffer[0], 0x3C);
    assert_eq!(buffer[1], 0x00);
    assert_eq!(&buffer[2..4], &[0x00, 0x80]);
    assert_eq!(&buffer[4..260], &data[..]);
    assert_eq!(buffer[260], wrapping_sum(&buffer[2..260]));
}

#[test]
fn chunk_of_255_bytes_has_length_byte_255() {
    let data = sample(255);
    let mut buffer = Vec::new();
    pack_chunk(&data, &mut buffer, 0);
    assert_eq!(buffer[1], 0xFF);
    assert_eq!(buffer.len(), 260);
}

#[test]
fn trailer_is_end_marker_and_entry_point() {
    let mut buffer = vec![1];
    finalize_data_entry(0x4A2B, &mut buffer);
    assert_eq!(buffer, vec![1, 0x78, 0x2B, 0x4A]);
}

#[test]
fn sanity_check_accepts_what_fits() {
    assert_eq!(input_file_sanity_check(0x4000, 300), Ok(()));
    assert_eq!(input_file_sanity_check(0, 0x10000), Ok(()));
    assert_eq!(input_file_sanity_check(0xFFFF, 1), Ok(()));
    assert_eq!(input_file_sanity_check(0xFF00, 256), Ok(()));
}

#[test]
fn sanity_check_refuses_empty_input() {
    assert_eq!(input_file_sanity_check(0x4000, 0), Err(PackError::EmptyInput));
    assert_eq!(input_file_sanity_check(0xFFFF, 0), Err(PackError::EmptyInput));
}

#[test]
fn sanity_check_refuses_what_does_not_fit() {
    assert_eq!(
        input_file_sanity_check(0xFF00, 257),
        Err(PackError::CapacityExceeded { max_size: 256 })
    );
    assert_eq!(
        input_file_sanity_check(0, 0x10001),
        Err(PackError::CapacityExceeded { max_size: 0x10000 })
    );
    assert_eq!(
        input_file_sanity_check(0xFFFF, 2),
        Err(PackError::CapacityExceeded { max_size: 1 })
    );
}

#[test]
fn binary_image_of_300_bytes_is_cut_in_two() {
    let data = sample(300);
    let mut buffer = Vec::new();
    let report = pack_binary_image(&data, &mut buffer, 0x4000);
    assert_eq!(report, PackReport { full_chunks: 1, last_chunk_size: Some(44) });
    assert_eq!(buffer.len(), 261 + 49);
    assert_eq!(&buffer[..4], &[0x3C, 0x00, 0x00, 0x40]);
    assert_eq!(&buffer[4..260], &data[..256]);
    assert_eq!(&buffer[261..265], &[0x3C, 44, 0x00, 0x41]);
    assert_eq!(&buffer[265..309], &data[256..]);
}

#[test]
fn report_counts_full_chunks_and_the_rest() {
    let cases: [(usize, usize, Option<usize>); 7] = [
        (1, 0, Some(1)),
        (255, 0, Some(255)),
        (256, 1, None),
        (257, 1, Some(1)),
        (512, 2, None),
        (1000, 3, Some(232)),
        (0x10000, 256, None),
    ];
    for (length, full_chunks, last_chunk_size) in cases {
        let mut buffer = Vec::new();
        let report = pack_binary_image(&sample(length), &mut buffer, 0);
        assert_eq!(report, PackReport { full_chunks, last_chunk_size });
    }
}

#[test]
fn pack_300_bytes_at_4000() {
    let data = sample(300);
    let tape = pack(&data, NAME, 0x4000, 0x4000).unwrap();
    let image = &tape.image;
    assert_eq!(image.len(), 264 + 261 + 49 + 3);
    assert!(image[..256].iter().all(|byte| *byte == 0));
    assert_eq!(&image[256..258], &[0xA5, 0x55]);
    assert_eq!(&image[258..264], NAME);
    assert_eq!(&image[264..268], &[0x3C, 0x00, 0x00, 0x40]);
    assert_eq!(&image[268..524], &data[..256]);
    assert_eq!(image[524], wrapping_sum(&image[266..524]));
    assert_eq!(&image[525..529], &[0x3C, 44, 0x00, 0x41]);
    assert_eq!(&image[529..573], &data[256..]);
    assert_eq!(image[573], wrapping_sum(&image[527..573]));
    assert_eq!(&image[574..], &[0x78, 0x00, 0x40]);
    assert_eq!(image.iter().filter(|byte| **byte == 0x3C).count() >= 2, true);
    let (chunks, entry_point) = read_back(image);
    assert_eq!(chunks.len(), 2);
    assert_eq!(chunks[0].0, 0x4000);
    assert_eq!(chunks[0].1.len(), 256);
    assert_eq!(chunks[1].0, 0x4100);
    assert_eq!(chunks[1].1.len(), 44);
    assert_eq!(entry_point, 0x4000);
    assert_eq!(tape.report, PackReport { full_chunks: 1, last_chunk_size: Some(44) });
}

#[test]
fn pack_single_byte() {
    let tape = pack(&[0x42], b"A     ", 0x1234, 0xABCD).unwrap();
    let mut expected = vec![0u8; 256];
    expected.extend_from_slice(&[0xA5, 0x55]);
    expected.extend_from_slice(b"A     ");
    expected.extend_from_slice(&[0x3C, 0x01, 0x34, 0x12, 0x42, 0x88]);
    expected.extend_from_slice(&[0x78, 0xCD, 0xAB]);
    assert_eq!(tape.image, expected);
    assert_eq!(tape.report, PackReport { full_chunks: 0, last_chunk_size: Some(1) });
}

#[test]
fn pack_refuses_empty_input() {
    assert_eq!(pack(&[], NAME, 0x4000, 0x4000), Err(PackError::EmptyInput));
}

#[test]
fn pack_refuses_257_bytes_at_ff00() {
    assert_eq!(
        pack(&sample(257), NAME, 0xFF00, 0xFF00),
        Err(PackError::CapacityExceeded { max_size: 256 })
    );
}

#[test]
fn pack_fills_the_address_space() {
    let data = sample(0x10000);
    let tape = pack(&data, NAME, 0, 0).unwrap();
    assert_eq!(tape.image.len(), 264 + 256 * 261 + 3);
    assert_eq!(tape.report, PackReport { full_chunks: 256, last_chunk_size: None });
    let (chunks, _) = read_back(&tape.image);
    assert_eq!(chunks.len(), 256);
    assert_eq!(chunks[255].0, 0xFF00);
    assert_eq!(pack(&sample(0x10001), NAME, 0, 0), Err(PackError::CapacityExceeded { max_size: 0x10000 }));
}

#[test]
fn pack_up_to_the_last_address() {
    let tape = pack(&sample(256), NAME, 0xFF00, 0).unwrap();
    let (chunks, _) = read_back(&tape.image);
    assert_eq!(chunks.len(), 1);
    assert_eq!(chunks[0].0, 0xFF00);
    assert!(pack(&[1], NAME, 0xFFFF, 0).is_ok());
    assert_eq!(pack(&[1, 2], NAME, 0xFFFF, 0), Err(PackError::CapacityExceeded { max_size: 1 }));
}

#[test]
fn reading_back_recovers_the_image() {
    for length in [1usize, 2, 255, 256, 257, 511, 512, 513, 1000, 4096, 5000] {
        let data = sample(length);
        let tape = pack(&data, NAME, 0x5200, 0x5203).unwrap();
        let (chunks, entry_point) = read_back(&tape.image);
        let recovered: Vec<u8> = chunks.iter().flat_map(|chunk| chunk.1.clone()).collect();
        assert_eq!(recovered, data);
        assert_eq!(entry_point, 0x5203);
    }
}

#[test]
fn chunk_count_is_length_over_256_rounded_up() {
    for (length, count, last) in [
        (1usize, 1usize, 1usize),
        (255, 1, 255),
        (256, 1, 256),
        (257, 2, 1),
        (512, 2, 256),
        (600, 3, 88),
        (768, 3, 256),
    ] {
        let tape = pack(&sample(length), NAME, 0x1000, 0x1000).unwrap();
        let (chunks, _) = read_back(&tape.image);
        assert_eq!(chunks.len(), count);
        assert_eq!(chunks[count - 1].1.len(), last);
        assert!(chunks[..count - 1].iter().all(|chunk| chunk.1.len() == 256));
    }
}

#[test]
fn chunks_are_loaded_256_bytes_apart() {
    let tape = pack(&sample(1000), NAME, 0x42E9, 0x42E9).unwrap();
    let (chunks, _) = read_back(&tape.image);
    assert_eq!(chunks.len(), 4);
    for (index, chunk) in chunks.iter().enumerate() {
        assert_eq!(chunk.0 as usize, 0x42E9 + 256 * index);
    }
    assert_eq!(chunks[3].0, 0x45E9);
}

#[test]
fn changed_data_byte_no_longer_matches_the_checksum() {
    let tape = pack(&sample(300), NAME, 0x4000, 0x4000).unwrap();
    for at in [268usize, 400, 523, 529, 572] {
        let mut image = tape.image.clone();
        image[at] ^= 0x10;
        let (start, end) = if at < 525 { (266, 524) } else { (527, 573) };
        assert_ne!(image[end], wrapping_sum(&image[start..end]));
    }
}
