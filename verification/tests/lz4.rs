use lz4_flex::block::DecompressError;
use netcdf_reader::error::Error;
use netcdf_reader::lz4::{accept_block, decompress, read_be_u32};

fn message(r: Result<Vec<u8>, Error>) -> String {
    match r {
        Err(Error::DecompressionError(m)) => m,
        other => panic!("unexpected result {:?}", other),
    }
}

#[test]
fn test_lz4_round_trip() {
    let original = b"hello world hello world hello world!";

    // Build HDF5 LZ4 format: orig_size (BE) + block_size (BE) + compressed_block
    let raw_compressed = lz4_flex::compress(original);
    let mut hdf5_data = Vec::new();
    hdf5_data.extend_from_slice(&(original.len() as u32).to_be_bytes());
    hdf5_data.extend_from_slice(&(raw_compressed.len() as u32).to_be_bytes());
    hdf5_data.extend_from_slice(&raw_compressed);

    let result = decompress(&hdf5_data).unwrap();
    assert_eq!(result, original);
}

#[test]
fn test_lz4_too_short() {
    let data = &[0, 0, 0];
    assert!(decompress(data).is_err());
}

#[test]
fn test_lz4_truncated_block() {
    let mut data = vec![0, 0, 0, 10]; // orig_size = 10
    data.extend_from_slice(&100u32.to_be_bytes()); // block_size = 100
    data.extend_from_slice(&[0; 5]); // only 5 bytes of "100"
    assert!(decompress(&data).is_err());
}

#[test]
fn lz4_error_messages_name_the_fault() {
    assert_eq!(message(decompress(&[1, 2])), "LZ4: input too short for header");
    assert_eq!(
        message(decompress(&[0, 0, 0, 10, 0, 0])),
        "LZ4: truncated block header"
    );
    let mut data = vec![0, 0, 0, 10];
    data.extend_from_slice(&100u32.to_be_bytes());
    data.extend_from_slice(&[0; 5]);
    assert_eq!(message(decompress(&data)), "LZ4: truncated block data");
}

#[test]
fn bad_block_reports_decoder_error() {
    // A token that promises 15 literal bytes more than there are.
    let mut data = vec![0, 0, 0, 10];
    data.extend_from_slice(&1u32.to_be_bytes());
    data.push(0xF0);
    assert_eq!(message(decompress(&data)), "LZ4: expected another byte, found none");
}

#[test]
fn blocks_are_concatenated() {
    let first = b"abcabcabcabcabcabc";
    let second = b"xyz";
    let c1 = lz4_flex::compress(first);
    let c2 = lz4_flex::compress(second);
    let mut data = Vec::new();
    data.extend_from_slice(&((first.len() + second.len()) as u32).to_be_bytes());
    data.extend_from_slice(&(c1.len() as u32).to_be_bytes());
    data.extend_from_slice(&c1);
    data.extend_from_slice(&(c2.len() as u32).to_be_bytes());
    data.extend_from_slice(&c2);
    let mut expected = first.to_vec();
    expected.extend_from_slice(second);
    assert_eq!(decompress(&data).unwrap(), expected);
}

#[test]
fn stops_once_original_size_is_reached() {
    let block = b"0123456789";
    let c = lz4_flex::compress(block);
    let mut data = Vec::new();
    data.extend_from_slice(&(block.len() as u32).to_be_bytes());
    data.extend_from_slice(&(c.len() as u32).to_be_bytes());
    data.extend_from_slice(&c);
    // trailing garbage after the size is reached is never read
    data.extend_from_slice(&[0xFF, 0xFF]);
    assert_eq!(decompress(&data).unwrap(), block.to_vec());
}

#[test]
fn zero_size_gives_empty_output() {
    assert_eq!(decompress(&[0, 0, 0, 0, 9, 9, 9]).unwrap(), Vec::<u8>::new());
    assert_eq!(decompress(&[0, 0, 0, 5]).unwrap(), Vec::<u8>::new());
}

#[test]
fn output_never_exceeds_header_size() {
    let block = b"0123456789";
    let c = lz4_flex::compress(block);
    let mut data = Vec::new();
    data.extend_from_slice(&4u32.to_be_bytes());
    data.extend_from_slice(&(c.len() as u32).to_be_bytes());
    data.extend_from_slice(&c);
    // the block needs 10 bytes of room but only 4 are left
    assert!(message(decompress(&data)).starts_with("LZ4: provided output is too small"));
}

#[test]
fn reads_big_endian_words() {
    assert_eq!(read_be_u32(&[0x12, 0x34, 0x56, 0x78, 0x9A], 1), 0x3456789A);
    assert_eq!(read_be_u32(&[0, 0, 1, 0], 0), 256);
}

#[test]
fn accept_block_appends_or_reports() {
    let mut out = vec![1u8];
    assert!(accept_block(&mut out, Ok(vec![2, 3])).is_ok());
    assert_eq!(out, vec![1, 2, 3]);
    match accept_block(&mut out, Err(DecompressError::OffsetZero)) {
        Err(Error::DecompressionError(m)) => assert_eq!(m, "LZ4: 0 is not a valid match offset"),
        other => panic!("unexpected {:?}", other),
    }
    assert_eq!(out, vec![1, 2, 3]);
}
