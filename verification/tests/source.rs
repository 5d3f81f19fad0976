use mcap_idx::{refill_len, ByteSource, FormatError, OpCode, SCRATCH_LEN};

#[test]
fn new_source_is_open_and_empty() {
    let source = ByteSource::new();
    assert_eq!(source.pending_len(), 0);
    assert!(!source.is_ended());
    assert_eq!(source.peek(0), None);
}

#[test]
fn source_over_a_vector_is_complete() {
    let source = ByteSource::from_vec(vec![7, 8, 9]);
    assert_eq!(source.pending_len(), 3);
    assert!(source.is_ended());
    assert_eq!(source.peek(0), Some(7));
    assert_eq!(source.peek(2), Some(9));
    assert_eq!(source.peek(3), None);
}

#[test]
fn fed_chunks_queue_up_in_order() {
    let mut source = ByteSource::new();
    source.feed(&[1, 2]);
    source.feed(&[]);
    source.feed(&[3]);
    assert_eq!(source.pending_len(), 3);
    assert_eq!(source.peek(0), Some(1));
    assert_eq!(source.peek(1), Some(2));
    assert_eq!(source.peek(2), Some(3));
    assert!(!source.is_ended());
}

#[test]
fn ended_source_takes_nothing_more() {
    let mut source = ByteSource::new();
    source.feed(&[1]);
    source.finish();
    assert!(source.is_ended());
    source.feed(&[2, 3]);
    assert_eq!(source.pending_len(), 1);
    let mut source = ByteSource::from_vec(vec![4]);
    source.feed(&[5]);
    assert_eq!(source.pending_len(), 1);
    assert_eq!(source.peek(0), Some(4));
}

#[test]
fn skip_consumes_what_is_there() {
    let mut source = ByteSource::from_vec(vec![1, 2, 3, 4, 5]);
    assert_eq!(source.skip(2), 2);
    assert_eq!(source.peek(0), Some(3));
    assert_eq!(source.skip(0), 0);
    assert_eq!(source.skip(10), 3);
    assert_eq!(source.pending_len(), 0);
    assert_eq!(source.skip(1), 0);
}

#[test]
fn feeding_after_reading_keeps_the_unread_bytes() {
    let mut source = ByteSource::new();
    source.feed(&[1, 2, 3]);
    assert_eq!(source.skip(2), 2);
    source.feed(&[4]);
    assert_eq!(source.pending_len(), 2);
    assert_eq!(source.peek(0), Some(3));
    assert_eq!(source.peek(1), Some(4));
}

#[test]
fn refill_is_capped_by_the_scratch_buffer() {
    assert_eq!(SCRATCH_LEN, 64 * 1024);
    assert_eq!(refill_len(0), 0);
    assert_eq!(refill_len(1), 1);
    assert_eq!(refill_len(65535), 65535);
    assert_eq!(refill_len(65536), 65536);
    assert_eq!(refill_len(65537), 65536);
    assert_eq!(refill_len(u64::MAX), 65536);
}

#[test]
fn opcodes_are_classified() {
    let known = [
        (0x01, OpCode::Header),
        (0x02, OpCode::Footer),
        (0x03, OpCode::Schema),
        (0x04, OpCode::Channel),
        (0x05, OpCode::Message),
        (0x06, OpCode::Chunk),
        (0x07, OpCode::ChunkIndex),
        (0x08, OpCode::Attachment),
        (0x09, OpCode::Statistics),
        (0x0A, OpCode::Metadata),
        (0x0B, OpCode::MetadataIndex),
        (0x0C, OpCode::SummaryOffset),
        (0x0D, OpCode::Summary),
    ];
    for (byte, kind) in known {
        assert_eq!(OpCode::from(byte), kind);
    }
}

#[test]
fn unknown_opcodes_keep_their_byte() {
    assert_eq!(OpCode::from(0x00), OpCode::Unknown(0x00));
    for byte in 0x0Eu8..=0xFF {
        assert_eq!(OpCode::from(byte), OpCode::Unknown(byte));
    }
}

#[test]
fn read_exact_takes_the_bytes_asked_for() {
    let mut source = ByteSource::from_vec(vec![1, 2, 3, 4, 5]);
    assert_eq!(source.read_exact(2), Ok(vec![1, 2]));
    assert_eq!(source.read_exact(0), Ok(vec![]));
    assert_eq!(source.read_exact(3), Ok(vec![3, 4, 5]));
    assert_eq!(source.pending_len(), 0);
    assert_eq!(source.read_exact(0), Ok(vec![]));
}

#[test]
fn read_exact_at_the_end_is_unexpected_eof() {
    let mut source = ByteSource::from_vec(vec![1, 2, 3]);
    assert_eq!(source.read_exact(4), Err(FormatError::UnexpectedEof));
    assert_eq!(source.pending_len(), 0);
    assert_eq!(source.read_exact(1), Err(FormatError::UnexpectedEof));
}

#[test]
fn read_exact_on_an_open_source_waits() {
    let mut source = ByteSource::new();
    source.feed(&[1, 2, 3]);
    assert_eq!(source.read_exact(5), Err(FormatError::Incomplete { missing: 2 }));
    assert_eq!(source.pending_len(), 3);
    source.feed(&[4, 5, 6]);
    assert_eq!(source.read_exact(5), Ok(vec![1, 2, 3, 4, 5]));
    assert_eq!(source.pending_len(), 1);
    source.finish();
    assert_eq!(source.read_exact(2), Err(FormatError::UnexpectedEof));
}
