use chunk_store::chunking::{merge_file_chunks, split_chunks, split_file, CHUNK_SIZE};

fn numbered_bytes(len: usize) -> Vec<u8> {
    let mut bytes = Vec::with_capacity(len);
    for i in 0..len {
        bytes.push((i % 251) as u8);
    }
    bytes
}

#[test]
fn split_of_empty_input_is_empty() {
    assert_eq!(split_chunks(&[], 1024), Vec::<Vec<u8>>::new());
    assert_eq!(split_file(&[]).unwrap(), Vec::<Vec<u8>>::new());
}

#[test]
fn merge_of_no_chunks_is_empty() {
    assert_eq!(merge_file_chunks(Vec::new()), Vec::<u8>::new());
}

#[test]
fn split_cuts_at_every_multiple_of_the_chunk_size() {
    let chunks = split_chunks(&[1, 2, 3, 4, 5], 2);
    assert_eq!(chunks, vec![vec![1u8, 2], vec![3, 4], vec![5]]);
}

#[test]
fn split_of_an_exact_multiple_has_no_short_chunk() {
    let chunks = split_chunks(&[1, 2, 3, 4, 5, 6], 3);
    assert_eq!(chunks, vec![vec![1u8, 2, 3], vec![4, 5, 6]]);
}

#[test]
fn split_of_less_than_one_chunk_is_one_chunk() {
    assert_eq!(split_chunks(&[9, 8], 3), vec![vec![9u8, 8]]);
    assert_eq!(split_chunks(&[9, 8, 7], 3), vec![vec![9u8, 8, 7]]);
}

#[test]
fn split_with_chunk_size_one_gives_single_bytes() {
    assert_eq!(split_chunks(&[4, 5, 6], 1), vec![vec![4u8], vec![5], vec![6]]);
}

#[test]
fn merge_concatenates_in_order() {
    let merged = merge_file_chunks(vec![vec![1u8, 2], vec![], vec![3], vec![4, 5, 6]]);
    assert_eq!(merged, vec![1u8, 2, 3, 4, 5, 6]);
}

#[test]
fn merge_of_split_is_the_input_around_the_chunk_size() {
    let size = 16usize;
    for len in [0, 1, size - 1, size, size + 1, 2 * size, 3 * size, 5 * size + 7] {
        let bytes = numbered_bytes(len);
        let chunks = split_chunks(&bytes, size);
        assert_eq!(chunks.len(), (len + size - 1) / size);
        for (i, chunk) in chunks.iter().enumerate() {
            if i + 1 < chunks.len() {
                assert_eq!(chunk.len(), size);
            } else {
                assert!(0 < chunk.len() && chunk.len() <= size);
            }
        }
        assert_eq!(merge_file_chunks(chunks), bytes);
    }
}

#[test]
fn merge_of_split_is_the_input_for_many_chunk_sizes() {
    let bytes = numbered_bytes(100);
    for size in 1..=120usize {
        assert_eq!(merge_file_chunks(split_chunks(&bytes, size)), bytes);
    }
}

#[test]
fn split_file_uses_one_mebibyte_chunks() {
    assert_eq!(CHUNK_SIZE, 1_048_576);
    let data = vec![7u8; CHUNK_SIZE + 3];
    let chunks = split_file(&data).unwrap();
    assert_eq!(chunks.len(), 2);
    assert_eq!(chunks[0].len(), CHUNK_SIZE);
    assert_eq!(chunks[1], vec![7u8, 7, 7]);
    assert_eq!(merge_file_chunks(chunks), data);
}

#[test]
fn split_file_of_a_small_file_is_one_chunk() {
    let chunks = split_file(&[0x41, 0x42, 0x43]).unwrap();
    assert_eq!(chunks, vec![vec![0x41u8, 0x42, 0x43]]);
}

#[test]
fn split_file_of_exactly_two_mebibytes_is_two_full_chunks() {
    let data = numbered_bytes(2 * CHUNK_SIZE);
    let chunks = split_file(&data).unwrap();
    assert_eq!(chunks.len(), 2);
    assert_eq!(chunks[0], data[..CHUNK_SIZE].to_vec());
    assert_eq!(chunks[1], data[CHUNK_SIZE..].to_vec());
}
