use png_chunk::chunk::Chunk;
use png_chunk::chunk::ChunkError;
use png_chunk::chunk_type::ChunkType;
use png_chunk::chunk_type::ChunkTypeError;

fn rust_tag() -> ChunkType {
    ChunkType::from_str("RuSt").unwrap()
}

#[test]
fn test_round_trip_preserves_every_field() {
    let payload: Vec<u8> = vec![0, 1, 2, 250, 255, 3];
    let chunk = Chunk::new(rust_tag(), payload.clone());
    let bytes = chunk.as_bytes();
    let decoded = Chunk::try_from(bytes.as_ref()).unwrap();

    assert_eq!(decoded.length(), chunk.length());
    assert_eq!(decoded.chunk_type(), chunk.chunk_type());
    assert_eq!(decoded.data(), chunk.data());
    assert_eq!(decoded.crc(), chunk.crc());
}

#[test]
fn test_checksum_deterministic_and_matches_reference_algorithm() {
    let payload: Vec<u8> = b"some payload".to_vec();
    let chunk = Chunk::new(rust_tag(), payload.clone());
    assert_eq!(chunk.crc(), chunk.crc());

    let mut checked: Vec<u8> = b"RuSt".to_vec();
    checked.extend_from_slice(&payload);
    let expected = crc::Crc::<u32>::new(&crc::CRC_32_ISO_HDLC).checksum(&checked);
    assert_eq!(chunk.crc(), expected);
}

#[test]
fn test_single_bit_flip_in_payload_is_detected() {
    let chunk = Chunk::new(rust_tag(), b"secret".to_vec());
    let bytes = chunk.as_bytes();
    for byte_index in 8..bytes.len() - 4 {
        for bit in 0..8 {
            let mut tampered = bytes.clone();
            tampered[byte_index] ^= 1 << bit;
            let decoded = Chunk::try_from(tampered.as_ref());
            assert!(matches!(decoded, Err(ChunkError::InvalidCRC)));
        }
    }
}

#[test]
fn test_single_bit_flip_in_tag_is_detected() {
    let chunk = Chunk::new(rust_tag(), b"secret".to_vec());
    let bytes = chunk.as_bytes();
    // Flipping bit 1 of 'R' (0x52) gives 'P' (0x50): still a letter, so the
    // corruption must be caught by the checksum, not by tag validation.
    let mut tampered = bytes.clone();
    tampered[4] ^= 0x02;
    let decoded = Chunk::try_from(tampered.as_ref());
    assert!(matches!(decoded, Err(ChunkError::InvalidCRC)));

    // Flipping the top bit of 'R' gives 0xD2: no longer a letter, which is
    // reported as a tag failure instead.
    let mut tampered = bytes.clone();
    tampered[4] ^= 0x80;
    let decoded = Chunk::try_from(tampered.as_ref());
    assert!(matches!(decoded, Err(ChunkError::InvalidChunkTypeBytes)));
}

#[test]
fn test_tag_with_digit_or_symbol_fails() {
    assert!(matches!(
        ChunkType::try_from([82, 117, 49, 116]),
        Err(ChunkTypeError::InvalidChunkTypeBytes)
    ));
    assert!(matches!(
        ChunkType::try_from([82, 117, 33, 116]),
        Err(ChunkTypeError::InvalidChunkTypeBytes)
    ));
    assert!(matches!(
        ChunkType::from_str("Ru!t"),
        Err(ChunkTypeError::InvalidChunkTypeBytes)
    ));
}

#[test]
fn test_tag_with_four_letters_of_any_case_succeeds() {
    assert!(ChunkType::from_str("rust").is_ok());
    assert!(ChunkType::from_str("RUST").is_ok());
    assert!(ChunkType::from_str("rUsT").is_ok());
    assert!(ChunkType::from_str("abcz").is_ok());
}

#[test]
fn test_tag_with_wrong_length_string_fails() {
    assert!(matches!(
        ChunkType::from_str("Rus"),
        Err(ChunkTypeError::InvalidString)
    ));
    assert!(matches!(
        ChunkType::from_str("Rusty"),
        Err(ChunkTypeError::InvalidString)
    ));
    assert!(matches!(
        ChunkType::from_str(""),
        Err(ChunkTypeError::InvalidString)
    ));
}

#[test]
fn test_flag_reference_vectors() {
    let rust_mixed = ChunkType::from_str("RuSt").unwrap();
    assert!(rust_mixed.is_critical());
    assert!(!rust_mixed.is_public());
    assert!(rust_mixed.is_reserved_bit_valid());
    assert!(rust_mixed.is_safe_to_copy());
    assert!(rust_mixed.is_valid());

    let rust_lower_reserved = ChunkType::from_str("Rust").unwrap();
    assert!(!rust_lower_reserved.is_reserved_bit_valid());
    assert!(!rust_lower_reserved.is_valid());
}

#[test]
fn test_end_to_end_secret_message() {
    let message = "This is where your secret message will be!";
    let chunk = Chunk::new(rust_tag(), message.as_bytes().to_vec());

    let bytes = chunk.as_bytes();
    assert_eq!(bytes.len(), 12 + message.len());
    assert_eq!(&bytes[0..4], &(message.len() as u32).to_be_bytes());
    assert_eq!(chunk.crc(), 2882656334);

    let decoded = Chunk::try_from(bytes.as_ref()).unwrap();
    assert_eq!(decoded.data_as_string().unwrap(), message);
}

#[test]
fn test_empty_payload_serializes_to_twelve_bytes() {
    let chunk = Chunk::new(rust_tag(), Vec::new());
    let bytes = chunk.as_bytes();
    assert_eq!(bytes.len(), 12);

    let tag_only_crc = crc::Crc::<u32>::new(&crc::CRC_32_ISO_HDLC).checksum(b"RuSt");
    assert_eq!(chunk.crc(), tag_only_crc);

    let decoded = Chunk::try_from(bytes.as_ref()).unwrap();
    assert_eq!(decoded.length(), 0);
    assert_eq!(decoded.data(), &[] as &[u8]);
    assert_eq!(decoded.crc(), chunk.crc());
}

#[test]
fn test_non_utf8_payload_only_fails_the_text_accessor() {
    let chunk = Chunk::new(rust_tag(), vec![0xFF]);
    assert!(matches!(
        chunk.data_as_string(),
        Err(ChunkError::UTF8UncompatibleChunk)
    ));

    assert_eq!(chunk.length(), 1);
    let bytes = chunk.as_bytes();
    assert_eq!(bytes.len(), 13);
    let decoded = Chunk::try_from(bytes.as_ref()).unwrap();
    assert_eq!(decoded.data(), &[0xFF]);
}

#[test]
fn test_truncated_input_is_reported() {
    assert!(matches!(
        Chunk::try_from(&[] as &[u8]),
        Err(ChunkError::TruncatedInput)
    ));
    assert!(matches!(
        Chunk::try_from(&[0u8, 0, 0] as &[u8]),
        Err(ChunkError::TruncatedInput)
    ));

    let chunk = Chunk::new(rust_tag(), b"abc".to_vec());
    let bytes = chunk.as_bytes();
    assert!(matches!(
        Chunk::try_from(&bytes[0..bytes.len() - 1]),
        Err(ChunkError::TruncatedInput)
    ));

    // A declared length larger than what the buffer holds is truncation too.
    let mut oversized = bytes.clone();
    oversized[3] = 200;
    assert!(matches!(
        Chunk::try_from(oversized.as_ref()),
        Err(ChunkError::TruncatedInput)
    ));
}

#[test]
fn test_trailing_bytes_are_not_consumed() {
    let chunk = Chunk::new(rust_tag(), b"abc".to_vec());
    let mut bytes = chunk.as_bytes();
    bytes.extend_from_slice(b"next chunk starts here");
    let decoded = Chunk::try_from(bytes.as_ref()).unwrap();
    assert_eq!(decoded.length(), 3);
    assert_eq!(decoded.data(), b"abc");
    assert_eq!(decoded.crc(), chunk.crc());
}

#[test]
fn test_length_field_is_big_endian() {
    let payload = vec![7u8; 300];
    let chunk = Chunk::new(rust_tag(), payload);
    let bytes = chunk.as_bytes();
    assert_eq!(&bytes[0..4], &[0, 0, 1, 44]);
}

#[test]
fn test_render_summary_text() {
    let chunk = Chunk::new(rust_tag(), b"This is where your secret message will be!".to_vec());
    let expected = "Chunk {\n   length: 42\n   chunk type: RuSt\n   data: 42\n   crc: 2882656334\n}\n";
    assert_eq!(chunk.render(), expected);
}

#[test]
fn test_error_messages() {
    assert_eq!(ChunkError::InvalidCRC.message(), "Invalid CRC");
    assert_eq!(
        ChunkError::UTF8UncompatibleChunk.message(),
        "Chunk data is not compatible with UTF-8"
    );
    assert_eq!(ChunkTypeError::InvalidString.message(), "Invalid string");
    assert_eq!(
        ChunkTypeError::InvalidChunkTypeBytes.message(),
        "Invalid ChunkType bytes"
    );
}
