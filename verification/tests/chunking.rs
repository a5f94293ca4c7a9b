use server_keeper::chunk::chunk_bytes;

fn sample(len: usize) -> Vec<u8> {
    let mut v = Vec::with_capacity(len);
    for i in 0..len {
        v.push((i % 251) as u8);
    }
    v
}

#[test]
fn twelve_megabytes_in_five_megabyte_chunks() {
    // artifact of 12,000,000 bytes with a 5,000,000-byte transfer unit:
    // exactly three chunks, of 5,000,000 / 5,000,000 / 2,000,000 bytes
    let data = sample(12_000_000);
    let chunks = chunk_bytes(&data, 5_000_000);
    assert_eq!(chunks.len(), 3);
    assert_eq!(chunks[0].len(), 5_000_000);
    assert_eq!(chunks[1].len(), 5_000_000);
    assert_eq!(chunks[2].len(), 2_000_000);
    let mut joined: Vec<u8> = Vec::new();
    for c in &chunks {
        joined.extend_from_slice(c);
    }
    assert_eq!(joined, data);
}

#[test]
fn empty_payload_has_no_chunks() {
    let data: Vec<u8> = Vec::new();
    let chunks = chunk_bytes(&data, 5_000_000);
    assert_eq!(chunks.len(), 0);
}

#[test]
fn exact_multiple_has_no_partial_chunk() {
    let data = sample(10);
    let chunks = chunk_bytes(&data, 5);
    assert_eq!(chunks.len(), 2);
    assert_eq!(chunks[0], data[..5].to_vec());
    assert_eq!(chunks[1], data[5..].to_vec());
}

#[test]
fn remainder_goes_in_the_last_chunk() {
    let data = sample(7);
    let chunks = chunk_bytes(&data, 3);
    assert_eq!(chunks.len(), 3);
    assert_eq!(chunks[0].len(), 3);
    assert_eq!(chunks[1].len(), 3);
    assert_eq!(chunks[2].len(), 1);
    assert_eq!(chunks[2][0], data[6]);
}

#[test]
fn unit_chunks_are_single_bytes() {
    let data = sample(4);
    let chunks = chunk_bytes(&data, 1);
    assert_eq!(chunks.len(), 4);
    for (i, c) in chunks.iter().enumerate() {
        assert_eq!(c.as_slice(), &data[i..i + 1]);
    }
}

#[test]
fn payload_smaller_than_unit_is_one_chunk() {
    let data = sample(42);
    let chunks = chunk_bytes(&data, 5_000_000);
    assert_eq!(chunks.len(), 1);
    assert_eq!(chunks[0], data);
}
