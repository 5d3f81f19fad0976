use mcap_idx::{read_magic, ByteSource, FormatError, Magic};

const MAGIC: [u8; 8] = [0x89, 0x4D, 0x43, 0x41, 0x50, 0x30, 0x0D, 0x0A];

#[test]
fn signature_is_accepted_and_consumed() {
    let mut image = MAGIC.to_vec();
    image.extend_from_slice(&[1, 2, 3]);
    let mut source = ByteSource::from_vec(image);
    assert_eq!(read_magic(&mut source), Ok(()));
    assert_eq!(source.pending_len(), 3);
    assert_eq!(source.peek(0), Some(1));
}

#[test]
fn signature_spells_mcap0() {
    assert_eq!(&MAGIC[1..6], b"MCAP0");
    let mut source = ByteSource::from_vec(b"\x89MCAP0\r\n".to_vec());
    assert_eq!(read_magic(&mut source), Ok(()));
}

#[test]
fn every_single_byte_change_is_rejected_with_the_bytes_seen() {
    for at in 0..8 {
        for bit in 0..8 {
            let mut bytes = MAGIC.to_vec();
            bytes[at] ^= 1 << bit;
            let mut image = bytes.clone();
            image.push(0x55);
            let mut source = ByteSource::from_vec(image);
            assert_eq!(
                read_magic(&mut source),
                Err(FormatError::InvalidMagic { observed: bytes })
            );
            assert_eq!(source.pending_len(), 1);
        }
    }
}

#[test]
fn zeroes_are_not_the_signature() {
    let mut source = ByteSource::from_vec(vec![0; 8]);
    assert_eq!(read_magic(&mut source), Err(FormatError::InvalidMagic { observed: vec![0; 8] }));
    assert_eq!(source.pending_len(), 0);
}

#[test]
fn short_input_is_unexpected_eof() {
    for len in 0..8 {
        let mut source = ByteSource::from_vec(MAGIC[..len].to_vec());
        assert_eq!(read_magic(&mut source), Err(FormatError::UnexpectedEof));
        assert_eq!(source.pending_len(), 0);
    }
}

#[test]
fn open_source_asks_for_the_rest_of_the_signature() {
    let mut source = ByteSource::new();
    assert_eq!(read_magic(&mut source), Err(FormatError::Incomplete { missing: 8 }));
    source.feed(&MAGIC[..5]);
    assert_eq!(read_magic(&mut source), Err(FormatError::Incomplete { missing: 3 }));
    assert_eq!(source.pending_len(), 5);
    source.feed(&MAGIC[5..]);
    assert_eq!(read_magic(&mut source), Ok(()));
    assert_eq!(source.pending_len(), 0);
}

#[test]
fn magic_names_major_version_zero() {
    let mut source = ByteSource::from_vec(MAGIC.to_vec());
    assert_eq!(Magic::read(&mut source), Ok(Magic { major_version: b'0' }));
    assert_eq!(source.pending_len(), 0);
}

#[test]
fn magic_read_rejects_what_read_magic_rejects() {
    let mut source = ByteSource::from_vec(b"\x89MCAP1\r\n".to_vec());
    assert_eq!(
        Magic::read(&mut source),
        Err(FormatError::InvalidMagic { observed: b"\x89MCAP1\r\n".to_vec() })
    );
    let mut source = ByteSource::from_vec(vec![0x89]);
    assert_eq!(Magic::read(&mut source), Err(FormatError::UnexpectedEof));
    let mut source = ByteSource::new();
    assert_eq!(Magic::read(&mut source), Err(FormatError::Incomplete { missing: 8 }));
}
