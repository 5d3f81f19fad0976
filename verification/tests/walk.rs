use mcap_idx::{
    index_mcap, parse_header_record, read_magic, ByteSource, FormatError, McapFileHeader,
    McapRecordHeader, McapStream, OpCode, Record,
};

const MAGIC: [u8; 8] = [0x89, 0x4D, 0x43, 0x41, 0x50, 0x30, 0x0D, 0x0A];

fn record(opcode: u8, body: &[u8]) -> Vec<u8> {
    let mut bytes = vec![opcode];
    bytes.extend_from_slice(&(body.len() as u64).to_le_bytes());
    bytes.extend_from_slice(body);
    bytes
}

fn string(text: &[u8]) -> Vec<u8> {
    let mut bytes = (text.len() as u32).to_le_bytes().to_vec();
    bytes.extend_from_slice(text);
    bytes
}

fn header_body(profile: &[u8], library: &[u8]) -> Vec<u8> {
    let mut bytes = string(profile);
    bytes.extend_from_slice(&string(library));
    bytes
}

fn stream_over(bytes: &[u8]) -> McapStream {
    McapStream::new(ByteSource::from_vec(bytes.to_vec()))
}

#[test]
fn header_then_footer_yields_one_header_and_no_record() {
    let mut image = MAGIC.to_vec();
    image.extend_from_slice(&record(0x01, &header_body(b"p", b"lib")));
    image.extend_from_slice(&MAGIC);

    let mut source = ByteSource::from_vec(image);
    assert_eq!(read_magic(&mut source), Ok(()));

    let mut stream = McapStream::new(source);
    let first = stream.next().unwrap().unwrap();
    assert_eq!(first, McapRecordHeader { opcode: OpCode::Header, body_len: 12, offset: 0 });
    assert_eq!(stream.offset, 9);

    let header = parse_header_record(stream.reader_mut(), first.body_len).unwrap();
    assert_eq!(header, McapFileHeader { profile: "p".to_string(), library: "lib".to_string() });
    stream.offset += first.body_len;
    assert_eq!(stream.offset, 21);

    assert_eq!(stream.next(), Ok(None));
    assert_eq!(stream.offset, 21);
    assert_eq!(stream.reader.pending_len(), 0);
}

#[test]
fn zero_record_file_ends_at_once() {
    let mut image = MAGIC.to_vec();
    image.extend_from_slice(&MAGIC);

    let mut source = ByteSource::from_vec(image.clone());
    assert_eq!(read_magic(&mut source), Ok(()));
    let mut stream = McapStream::new(source);
    assert_eq!(stream.next(), Ok(None));
    assert_eq!(stream.offset, 0);
    assert_eq!(stream.reader.pending_len(), 0);

    let mut source = ByteSource::from_vec(image);
    assert_eq!(read_magic(&mut source), Ok(()));
    assert_eq!(index_mcap(McapStream::new(source)), Ok(()));
}

#[test]
fn consecutive_offsets_add_preamble_and_body() {
    let mut image = record(0x03, &[1, 2, 3]);
    image.extend_from_slice(&record(0x05, &[]));
    image.extend_from_slice(&record(0x06, &[9; 300]));
    image.extend_from_slice(&record(0x0D, &[7]));
    image.extend_from_slice(&MAGIC);

    let mut stream = stream_over(&image);
    let mut seen = Vec::new();
    while let Some(rec) = stream.next().unwrap() {
        seen.push(rec);
        assert_eq!(stream.skip_body(&rec), Ok(()));
    }
    assert_eq!(
        seen,
        vec![
            McapRecordHeader { opcode: OpCode::Schema, body_len: 3, offset: 0 },
            McapRecordHeader { opcode: OpCode::Message, body_len: 0, offset: 12 },
            McapRecordHeader { opcode: OpCode::Chunk, body_len: 300, offset: 21 },
            McapRecordHeader { opcode: OpCode::Summary, body_len: 1, offset: 330 },
        ]
    );
    for pair in seen.windows(2) {
        assert_eq!(pair[1].offset, pair[0].offset + 9 + pair[0].body_len);
    }
    assert_eq!(stream.offset, 340);
}

#[test]
fn body_length_is_little_endian() {
    let mut image = vec![0x05, 0x01, 0x02, 0x03, 0x04, 0x05, 0x06, 0x07, 0x08];
    image.extend_from_slice(&[0; 4]);
    let mut stream = stream_over(&image);
    let rec = stream.next().unwrap().unwrap();
    assert_eq!(rec.body_len, 0x0807_0605_0403_0201);
    assert_eq!(rec.offset, 0);
    assert_eq!(stream.offset, 9);
    assert_eq!(stream.reader.pending_len(), 4);
}

#[test]
fn largest_body_length_decodes() {
    let image = vec![0x06, 0xFF, 0xFF, 0xFF, 0xFF, 0xFF, 0xFF, 0xFF, 0xFF];
    let mut stream = stream_over(&image);
    let rec = stream.next().unwrap().unwrap();
    assert_eq!(rec.body_len, u64::MAX);
    assert_eq!(stream.skip_body(&rec), Err(FormatError::TruncatedRecord));
    assert_eq!(stream.offset, 9);
}

#[test]
fn short_body_is_truncated_record() {
    let mut image = vec![0x05];
    image.extend_from_slice(&10u64.to_le_bytes());
    image.extend_from_slice(&[1, 2, 3, 4]);
    let mut stream = stream_over(&image);
    let rec = stream.next().unwrap().unwrap();
    assert_eq!(rec.body_len, 10);
    assert_eq!(stream.skip_body(&rec), Err(FormatError::TruncatedRecord));
    assert_eq!(stream.offset, 13);
    assert_eq!(stream.reader.pending_len(), 0);
}

#[test]
fn missing_body_is_truncated_record() {
    let mut image = vec![0x05];
    image.extend_from_slice(&1u64.to_le_bytes());
    let mut stream = stream_over(&image);
    let rec = stream.next().unwrap().unwrap();
    assert_eq!(stream.skip_body(&rec), Err(FormatError::TruncatedRecord));
    assert_eq!(index_mcap(stream_over(&image)), Err(FormatError::TruncatedRecord));
}

#[test]
fn empty_body_skips_nothing() {
    let mut image = record(0x05, &[]);
    image.extend_from_slice(&[0xAA, 0xBB]);
    let mut stream = stream_over(&image);
    let rec = stream.next().unwrap().unwrap();
    assert_eq!(stream.skip_body(&rec), Ok(()));
    assert_eq!(stream.offset, 9);
    assert_eq!(stream.reader.pending_len(), 2);
}

#[test]
fn record_round_trip() {
    let body = [0xDE, 0xAD, 0xBE, 0xEF, 0x00];
    let mut image = record(0x42, &body);
    image.extend_from_slice(&[0x11, 0x22, 0x33]);

    let mut stream = stream_over(&image);
    stream.offset = 1000;
    let rec = stream.next().unwrap().unwrap();
    assert_eq!(rec, McapRecordHeader { opcode: OpCode::Unknown(0x42), body_len: 5, offset: 1000 });
    assert_eq!(stream.skip_body(&rec), Ok(()));
    assert_eq!(stream.offset, 1014);
    assert_eq!(stream.reader.pending_len(), 3);
    assert_eq!(stream.reader.peek(0), Some(0x11));
}

#[test]
fn every_opcode_but_the_marker_round_trips() {
    for opcode in 0u8..=255 {
        if opcode == 0x89 {
            continue;
        }
        let image = record(opcode, &[opcode; 3]);
        let mut stream = stream_over(&image);
        let rec = stream.next_record().unwrap().unwrap();
        assert_eq!(rec, Record { opcode, body_len: 3, offset: 0 });
        assert_eq!(rec.classify().opcode, OpCode::from(opcode));
        assert_eq!(stream.skip_body(&rec.classify()), Ok(()));
        assert_eq!(stream.offset, 12);
        assert_eq!(stream.reader.pending_len(), 0);
    }
}

#[test]
fn clean_end_is_none_for_next() {
    let mut stream = stream_over(&[]);
    assert_eq!(stream.next(), Ok(None));
    assert_eq!(stream.offset, 0);
}

#[test]
fn clean_end_is_an_error_for_next_record() {
    let mut stream = stream_over(&[]);
    assert_eq!(stream.next_record(), Err(FormatError::UnexpectedEof));
    assert_eq!(index_mcap(stream_over(&record(0x05, &[1]))), Err(FormatError::UnexpectedEof));
}

#[test]
fn marker_lead_with_wrong_tail_is_an_error() {
    let image = [0x89, 0x4D, 0x43, 0x41, 0x50, 0x30, 0x0D, 0x0B, 0x00];
    let mut stream = stream_over(&image);
    assert_eq!(stream.next(), Err(FormatError::UnexpectedFooterMagic));
    assert_eq!(stream.offset, 0);
    assert_eq!(stream.reader.pending_len(), 1);

    let mut stream = stream_over(&image);
    assert_eq!(stream.next_record(), Err(FormatError::UnexpectedFooterMagic));
    assert_eq!(index_mcap(stream_over(&image)), Err(FormatError::UnexpectedFooterMagic));
}

#[test]
fn marker_lead_is_never_an_opcode() {
    let mut image = vec![0x89];
    image.extend_from_slice(&0u64.to_le_bytes());
    let mut stream = stream_over(&image);
    assert_eq!(stream.next(), Err(FormatError::UnexpectedFooterMagic));
}

#[test]
fn cut_marker_is_unexpected_eof() {
    let mut stream = stream_over(&MAGIC[..5]);
    assert_eq!(stream.next(), Err(FormatError::UnexpectedEof));
    assert_eq!(stream.reader.pending_len(), 0);
    let mut stream = stream_over(&[0x89]);
    assert_eq!(stream.next_record(), Err(FormatError::UnexpectedEof));
}

#[test]
fn cut_preamble_is_truncated_record() {
    let mut stream = stream_over(&[0x05, 1, 0, 0]);
    assert_eq!(stream.next(), Err(FormatError::TruncatedRecord));
    assert_eq!(stream.offset, 1);
    assert_eq!(stream.reader.pending_len(), 0);
    let mut stream = stream_over(&[0x05]);
    assert_eq!(stream.next_record(), Err(FormatError::TruncatedRecord));
}

#[test]
fn marker_ends_the_walk_before_later_bytes() {
    let mut image = record(0x04, &[1, 2]);
    image.extend_from_slice(&MAGIC);
    image.extend_from_slice(&record(0x05, &[3]));
    let mut stream = stream_over(&image);
    let rec = stream.next().unwrap().unwrap();
    assert_eq!(stream.skip_body(&rec), Ok(()));
    assert_eq!(stream.next(), Ok(None));
    assert_eq!(stream.offset, 11);
    assert_eq!(stream.reader.pending_len(), 10);
    assert_eq!(index_mcap(stream_over(&image)), Ok(()));
}

#[test]
fn new_walker_starts_at_zero() {
    let mut stream = McapStream::new(ByteSource::from_vec(vec![1, 2, 3]));
    assert_eq!(stream.offset, 0);
    assert_eq!(stream.reader.pending_len(), 3);
    assert_eq!(stream.reader_mut().pending_len(), 3);
    assert!(stream.reader_mut().is_ended());
}

#[test]
fn bytes_read_through_the_reader_are_not_counted() {
    let mut image = record(0x01, &header_body(b"", b""));
    image.extend_from_slice(&record(0x05, &[1]));
    let mut stream = stream_over(&image);
    let first = stream.next().unwrap().unwrap();
    assert_eq!(first.body_len, 8);
    parse_header_record(stream.reader_mut(), first.body_len).unwrap();
    assert_eq!(stream.offset, 9);
    let second = stream.next().unwrap().unwrap();
    assert_eq!(second.offset, 9);
}

#[test]
fn open_source_asks_for_the_preamble() {
    let mut stream = McapStream::new(ByteSource::new());
    assert_eq!(stream.next(), Err(FormatError::Incomplete { missing: 1 }));
    stream.reader_mut().feed(&[0x05, 1, 0]);
    assert_eq!(stream.next(), Err(FormatError::Incomplete { missing: 6 }));
    assert_eq!(stream.next_record(), Err(FormatError::Incomplete { missing: 6 }));
    assert_eq!(stream.offset, 0);
    assert_eq!(stream.reader.pending_len(), 3);
    stream.reader_mut().feed(&[0, 0, 0, 0, 0, 0, 0xAB]);
    assert_eq!(
        stream.next(),
        Ok(Some(McapRecordHeader { opcode: OpCode::Message, body_len: 1, offset: 0 }))
    );
    assert_eq!(stream.reader.pending_len(), 1);
}

#[test]
fn open_source_asks_for_the_marker_tail() {
    let mut stream = McapStream::new(ByteSource::new());
    stream.reader_mut().feed(&MAGIC[..3]);
    assert_eq!(stream.next(), Err(FormatError::Incomplete { missing: 5 }));
    assert_eq!(stream.reader.pending_len(), 3);
    stream.reader_mut().feed(&MAGIC[3..]);
    assert_eq!(stream.next(), Ok(None));
    assert_eq!(stream.reader.pending_len(), 0);
}

#[test]
fn body_is_skipped_piece_by_piece() {
    let mut stream = McapStream::new(ByteSource::new());
    stream.reader_mut().feed(&record(0x06, &[])[..]);
    let mut rec = stream.next().unwrap().unwrap();
    rec.body_len = 10;
    stream.reader_mut().feed(&[0; 4]);
    assert_eq!(stream.skip_body(&rec), Err(FormatError::Incomplete { missing: 6 }));
    assert_eq!(stream.offset, 13);
    assert_eq!(stream.reader.pending_len(), 0);

    rec.body_len = 6;
    stream.reader_mut().feed(&[0; 8]);
    assert_eq!(stream.skip_body(&rec), Ok(()));
    assert_eq!(stream.offset, 19);
    assert_eq!(stream.reader.pending_len(), 2);
}

#[test]
fn fed_byte_by_byte_the_walk_is_the_same() {
    let mut image = record(0x03, &[1, 2, 3]);
    image.extend_from_slice(&record(0xF0, &[4; 20]));
    image.extend_from_slice(&MAGIC);

    let mut whole = stream_over(&image);
    let mut expected = Vec::new();
    while let Some(rec) = whole.next().unwrap() {
        expected.push(rec);
        whole.skip_body(&rec).unwrap();
    }

    let mut stream = McapStream::new(ByteSource::new());
    let mut input = image.iter();
    let mut seen = Vec::new();
    let mut skipping: Option<McapRecordHeader> = None;
    loop {
        let step = match skipping {
            Some(rec) => stream.skip_body(&rec).map(|_| None),
            None => stream.next(),
        };
        match step {
            Err(FormatError::Incomplete { missing }) => {
                if let Some(rec) = skipping.as_mut() {
                    rec.body_len = missing;
                }
                match input.next() {
                    Some(byte) => stream.reader_mut().feed(&[*byte]),
                    None => stream.reader_mut().finish(),
                }
            }
            Err(other) => panic!("walk failed: {:?}", other),
            Ok(Some(rec)) => {
                seen.push(rec);
                skipping = Some(rec);
            }
            Ok(None) => {
                if skipping.is_some() {
                    skipping = None;
                } else {
                    break;
                }
            }
        }
    }
    assert_eq!(seen, expected);
    assert_eq!(stream.offset, whole.offset);
    assert_eq!(stream.offset, 41);
}

#[test]
fn open_source_leaves_the_walk_incomplete() {
    let mut source = ByteSource::new();
    source.feed(&record(0x05, &[1, 2, 3])[..10]);
    assert_eq!(
        index_mcap(McapStream::new(source)),
        Err(FormatError::Incomplete { missing: 2 })
    );
    let mut source = ByteSource::new();
    source.feed(&record(0x05, &[1, 2, 3]));
    assert_eq!(
        index_mcap(McapStream::new(source)),
        Err(FormatError::Incomplete { missing: 1 })
    );
    let mut source = ByteSource::new();
    source.feed(&record(0x05, &[1, 2, 3]));
    source.feed(&MAGIC);
    assert_eq!(index_mcap(McapStream::new(source)), Ok(()));
}

#[test]
fn room_for_a_preamble_ends_nine_bytes_before_the_largest_offset() {
    let mut stream = stream_over(&record(0x05, &[]));
    assert!(stream.has_room_for_preamble());
    stream.offset = u64::MAX - 9;
    assert!(stream.has_room_for_preamble());
    stream.offset = u64::MAX - 8;
    assert!(!stream.has_room_for_preamble());

    stream.offset = u64::MAX - 9;
    let rec = stream.next().unwrap().unwrap();
    assert_eq!(rec.offset, u64::MAX - 9);
    assert_eq!(stream.offset, u64::MAX);
    assert!(stream.has_room_for_preamble());
    assert_eq!(stream.next(), Ok(None));
}

#[test]
fn what_moves_no_offset_needs_no_room() {
    let mut stream = stream_over(&MAGIC);
    stream.offset = u64::MAX;
    assert!(stream.has_room_for_preamble());
    assert_eq!(stream.next(), Ok(None));

    let mut stream = McapStream::new(ByteSource::new());
    stream.reader_mut().feed(&[0x05, 0]);
    stream.offset = u64::MAX;
    assert!(stream.has_room_for_preamble());
    assert_eq!(stream.next(), Err(FormatError::Incomplete { missing: 7 }));

    let mut stream = stream_over(&[0x05, 0]);
    stream.offset = u64::MAX;
    assert!(!stream.has_room_for_preamble());
    stream.offset = u64::MAX - 1;
    assert!(stream.has_room_for_preamble());
    assert_eq!(stream.next(), Err(FormatError::TruncatedRecord));
    assert_eq!(stream.offset, u64::MAX);
}

#[test]
fn room_for_a_body_counts_what_is_pending_of_it() {
    let mut stream = stream_over(&[0; 10]);
    stream.offset = u64::MAX - 10;
    assert!(stream.has_room_for_body(10));
    assert!(stream.has_room_for_body(u64::MAX));
    assert!(stream.has_room_for_body(0));
    stream.offset = u64::MAX - 9;
    assert!(stream.has_room_for_body(9));
    assert!(!stream.has_room_for_body(10));
    assert!(!stream.has_room_for_body(u64::MAX));

    let rec = McapRecordHeader { opcode: OpCode::Chunk, body_len: 9, offset: 0 };
    assert_eq!(stream.skip_body(&rec), Ok(()));
    assert_eq!(stream.offset, u64::MAX);
    assert_eq!(stream.reader.pending_len(), 1);
}
