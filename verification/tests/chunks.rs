use spar_rust::chunks::{bzip_sink, in_mem_compress_source, in_mem_decompress_source, sink, BLOCK_SIZE};

#[test]
fn empty_buffer_has_no_blocks() {
    let blocks = in_mem_compress_source(Vec::new());
    assert!(blocks.is_empty());
}

#[test]
fn small_buffer_is_one_block() {
    let blocks = in_mem_compress_source(vec![1, 2, 3]);
    assert_eq!(blocks, vec![vec![1, 2, 3]]);
}

#[test]
fn blocks_concatenate_back_to_the_buffer() {
    let mut buffer = vec![7u8; BLOCK_SIZE + 1];
    buffer[0] = 1;
    buffer[BLOCK_SIZE] = 9;
    let blocks = in_mem_compress_source(buffer.clone());
    assert_eq!(blocks.len(), 2);
    assert_eq!(blocks[0].len(), BLOCK_SIZE);
    assert_eq!(blocks[1], vec![9]);
    let mut joined: Vec<u8> = Vec::new();
    for b in &blocks {
        joined.extend(b);
    }
    assert_eq!(joined, buffer);
}

#[test]
fn decompress_source_cuts_along_boundaries() {
    let buffer = b"hello".to_vec();
    let blocks = in_mem_decompress_source(buffer, vec![(0, 3), (3, 5)]);
    assert_eq!(blocks, vec![b"hel".to_vec(), b"lo".to_vec()]);
}

#[test]
fn sinks_hand_units_back_unchanged() {
    let (v, size) = bzip_sink(vec![1, 2, 3], 2);
    assert_eq!(v, vec![1, 2, 3]);
    assert_eq!(size, 2);
    assert_eq!(sink(vec![4, 5]), vec![4, 5]);
}
