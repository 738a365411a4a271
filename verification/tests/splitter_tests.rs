use voice2text::error::PttError;
use voice2text::splitter::{chunk_at, partition, split, split_samples, UploadChunk};
use voice2text::wav::{decode, encode, SampleKind, WavFormat};

fn ramp(count: usize) -> Vec<i16> {
    let mut samples: Vec<i16> = Vec::new();
    for i in 0..count {
        samples.push((i as i16) * 3 - 100);
    }
    samples
}

fn rebuilt(chunks: &Vec<UploadChunk>) -> Vec<i16> {
    let mut all: Vec<i16> = Vec::new();
    for chunk in chunks {
        let (_, samples) = decode(&chunk.payload).unwrap();
        all.extend_from_slice(&samples);
    }
    all
}

#[test]
fn partition_cuts_consecutive_groups() {
    let parts = partition(&vec![1i16, 2, 3, 4, 5, 6, 7], 3);
    assert_eq!(parts, vec![vec![1i16, 2, 3], vec![4, 5, 6], vec![7]]);
}

#[test]
fn partition_of_an_exact_multiple_has_no_short_group() {
    let parts = partition(&vec![1i16, 2, 3, 4], 2);
    assert_eq!(parts, vec![vec![1i16, 2], vec![3, 4]]);
}

#[test]
fn partition_of_nothing_is_no_group() {
    let parts = partition(&Vec::new(), 5);
    assert_eq!(parts.len(), 0);
}

#[test]
fn partition_with_room_to_spare_is_one_group() {
    let parts = partition(&vec![9i16, 8], 100);
    assert_eq!(parts, vec![vec![9i16, 8]]);
}

#[test]
fn partition_into_single_samples() {
    let parts = partition(&vec![4i16, 5, 6], 1);
    assert_eq!(parts, vec![vec![4i16], vec![5], vec![6]]);
}

#[test]
fn chunk_at_numbers_from_one() {
    let chunk = chunk_at(0, 3, vec![7u8, 8]);
    assert_eq!(chunk, UploadChunk { index: 1, total: 3, payload: vec![7u8, 8] });
    let last = chunk_at(2, 3, Vec::new());
    assert_eq!(last.index, 3);
    assert_eq!(last.total, 3);
}

#[test]
fn split_returns_a_small_payload_whole() {
    let payload = encode(&WavFormat::mono16(16000), &ramp(10)).unwrap();
    let chunks = split(payload.clone(), payload.len()).unwrap();
    assert_eq!(chunks, vec![UploadChunk { index: 1, total: 1, payload }]);
}

#[test]
fn split_does_not_look_into_a_small_payload() {
    let payload = b"anything, not even audio".to_vec();
    let chunks = split(payload.clone(), 1000).unwrap();
    assert_eq!(chunks.len(), 1);
    assert_eq!(chunks[0].index, 1);
    assert_eq!(chunks[0].total, 1);
    assert_eq!(chunks[0].payload, payload);
}

#[test]
fn split_reconstructs_the_samples_in_order() {
    let samples = ramp(10);
    let format = WavFormat::mono16(16000);
    let payload = encode(&format, &samples).unwrap();
    let chunks = split(payload, 8).unwrap();
    assert_eq!(chunks.len(), 3);
    for (position, chunk) in chunks.iter().enumerate() {
        assert_eq!(chunk.index, position + 1);
        assert_eq!(chunk.total, 3);
        let (chunk_format, _) = decode(&chunk.payload).unwrap();
        assert_eq!(chunk_format, format);
    }
    assert_eq!(decode(&chunks[0].payload).unwrap().1, samples[0..4].to_vec());
    assert_eq!(decode(&chunks[1].payload).unwrap().1, samples[4..8].to_vec());
    assert_eq!(decode(&chunks[2].payload).unwrap().1, samples[8..10].to_vec());
    assert_eq!(rebuilt(&chunks), samples);
}

#[test]
fn split_chunk_count_is_the_rounded_up_quotient() {
    let format = WavFormat::mono16(8000);
    for (count, max_bytes, expected) in [(12usize, 8usize, 3usize), (13, 8, 4), (30, 20, 3), (31, 20, 4), (23, 2, 23), (23, 3, 23)] {
        let samples = ramp(count);
        let payload = encode(&format, &samples).unwrap();
        let chunks = split(payload, max_bytes).unwrap();
        assert_eq!(chunks.len(), expected);
        assert_eq!(rebuilt(&chunks), samples);
        for chunk in &chunks {
            assert_eq!(chunk.total, expected);
            assert!(1 <= chunk.index && chunk.index <= chunk.total);
        }
    }
}

#[test]
fn split_chunks_are_the_encodings_of_the_groups() {
    let samples = ramp(5);
    let format = WavFormat::mono16(8000);
    let payload = encode(&format, &samples).unwrap();
    let chunks = split(payload, 4).unwrap();
    assert_eq!(chunks.len(), 3);
    assert_eq!(chunks[0].payload, encode(&format, &samples[0..2].to_vec()).unwrap());
    assert_eq!(chunks[1].payload, encode(&format, &samples[2..4].to_vec()).unwrap());
    assert_eq!(chunks[2].payload, encode(&format, &samples[4..5].to_vec()).unwrap());
}

#[test]
fn split_fails_on_a_payload_that_is_no_container() {
    let payload = b"this is longer than the limit and is no audio".to_vec();
    assert_eq!(split(payload, 10), Err(PttError::EncodeError));
}

#[test]
fn split_fails_where_the_limit_holds_no_sample() {
    let payload = encode(&WavFormat::mono16(8000), &ramp(4)).unwrap();
    assert_eq!(split(payload.clone(), 1), Err(PttError::EncodeError));
    assert_eq!(split(payload, 0), Err(PttError::EncodeError));
}

#[test]
fn split_fails_where_a_group_cuts_a_frame() {
    let format = WavFormat { channels: 2, sample_rate: 8000, bits_per_sample: 16, sample_kind: SampleKind::Int };
    let payload = encode(&format, &ramp(4)).unwrap();
    assert_eq!(split(payload.clone(), 6), Err(PttError::EncodeError));
    let chunks = split(payload, 4).unwrap();
    assert_eq!(chunks.len(), 2);
    assert_eq!(rebuilt(&chunks), ramp(4));
}

#[test]
fn split_of_a_payload_without_samples_is_no_chunk() {
    let payload = encode(&WavFormat::mono16(8000), &Vec::new()).unwrap();
    assert_eq!(payload.len(), 44);
    let chunks = split(payload, 10).unwrap();
    assert_eq!(chunks.len(), 0);
}

#[test]
fn split_of_eight_bit_samples_counts_one_byte_each() {
    let format = WavFormat { channels: 1, sample_rate: 8000, bits_per_sample: 8, sample_kind: SampleKind::Int };
    let samples: Vec<i16> = vec![-128, -1, 0, 1, 127, 5, 6];
    let payload = encode(&format, &samples).unwrap();
    let chunks = split(payload, 3).unwrap();
    assert_eq!(chunks.len(), 3);
    assert_eq!(rebuilt(&chunks), samples);
}

#[test]
fn split_samples_numbers_and_encodes_each_group() {
    let format = WavFormat::mono16(8000);
    let samples = vec![10i16, 20, 30];
    let chunks = split_samples(&format, &samples, 5).unwrap();
    assert_eq!(
        chunks,
        vec![
            UploadChunk { index: 1, total: 2, payload: encode(&format, &vec![10i16, 20]).unwrap() },
            UploadChunk { index: 2, total: 2, payload: encode(&format, &vec![30i16]).unwrap() },
        ]
    );
}

#[test]
fn split_samples_fails_on_a_format_that_cannot_be_written() {
    let format = WavFormat { channels: 1, sample_rate: 0, bits_per_sample: 16, sample_kind: SampleKind::Int };
    assert_eq!(split_samples(&format, &vec![1i16, 2, 3], 4), Err(PttError::EncodeError));
    assert_eq!(split_samples(&format, &Vec::new(), 4), Ok(Vec::new()));
}
