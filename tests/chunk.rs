use pngme::{Chunk, ChunkType, PngError};
use std::str::FromStr;

fn framed(length: u32, chunk_type: &[u8], message: &[u8], crc: u32) -> Vec<u8> {
    length
        .to_be_bytes()
        .iter()
        .chain(chunk_type.iter())
        .chain(message.iter())
        .chain(crc.to_be_bytes().iter())
        .copied()
        .collect()
}

fn testing_chunk() -> Chunk {
    let chunk_data = framed(
        42,
        "RuSt".as_bytes(),
        "This is where your secret message will be!".as_bytes(),
        2882656334,
    );
    Chunk::try_from(chunk_data.as_ref()).unwrap()
}

#[test]
fn test_new_chunk() {
    let chunk_type = ChunkType::from_str("RuSt").unwrap();
    let data = "This is where your secret message will be!"
        .as_bytes()
        .to_vec();
    let chunk = Chunk::new(chunk_type, data);
    assert_eq!(chunk.length(), 42);
    assert_eq!(chunk.crc(), 2882656334);
}

#[test]
fn test_chunk_length() {
    let chunk = testing_chunk();
    assert_eq!(chunk.length(), 42);
}

#[test]
fn test_chunk_type() {
    let chunk = testing_chunk();
    assert_eq!(chunk.chunk_type().to_string(), String::from("RuSt"));
}

#[test]
fn test_chunk_string() {
    let chunk = testing_chunk();
    let chunk_string = chunk.data_as_string().unwrap();
    let expected_chunk_string = String::from("This is where your secret message will be!");
    assert_eq!(chunk_string, expected_chunk_string);
}

#[test]
fn test_chunk_crc() {
    let chunk = testing_chunk();
    assert_eq!(chunk.crc(), 2882656334);
}

#[test]
fn test_valid_chunk_from_bytes() {
    let chunk_data = framed(
        42,
        "RuSt".as_bytes(),
        "This is where your secret message will be!".as_bytes(),
        2882656334,
    );

    let chunk = Chunk::try_from(chunk_data.as_ref()).unwrap();

    let chunk_string = chunk.data_as_string().unwrap();
    let expected_chunk_string = String::from("This is where your secret message will be!");

    assert_eq!(chunk.length(), 42);
    assert_eq!(chunk.chunk_type().to_string(), String::from("RuSt"));
    assert_eq!(chunk_string, expected_chunk_string);
    assert_eq!(chunk.crc(), 2882656334);
}

#[test]
fn test_invalid_chunk_from_bytes() {
    let chunk_data = framed(
        42,
        "RuSt".as_bytes(),
        "This is where your secret message will be!".as_bytes(),
        2882656333,
    );

    let chunk = Chunk::try_from(chunk_data.as_ref());

    assert!(chunk.is_err());
}

#[test]
pub fn test_chunk_trait_impls() {
    let chunk_data = framed(
        42,
        "RuSt".as_bytes(),
        "This is where your secret message will be!".as_bytes(),
        2882656334,
    );

    let chunk: Chunk = Chunk::try_from(chunk_data.as_ref()).unwrap();

    let _chunk_string = chunk.to_string();
}

#[test]
fn checksum_mismatch_names_both_values() {
    let chunk_data = framed(
        42,
        "RuSt".as_bytes(),
        "This is where your secret message will be!".as_bytes(),
        2882656333,
    );
    assert_eq!(
        Chunk::try_from(chunk_data.as_ref()).err(),
        Some(PngError::ChecksumMismatch { stored: 2882656333, computed: 2882656334 })
    );
}

#[test]
fn short_buffer_is_invalid_format() {
    assert_eq!(Chunk::try_from(&[0u8; 11][..]).err(), Some(PngError::InvalidFormat));
    assert_eq!(Chunk::try_from(&[][..]).err(), Some(PngError::InvalidFormat));
}

#[test]
fn declared_length_must_match_payload() {
    let chunk_data = framed(
        41,
        "RuSt".as_bytes(),
        "This is where your secret message will be!".as_bytes(),
        2882656334,
    );
    assert_eq!(Chunk::try_from(chunk_data.as_ref()).err(), Some(PngError::InvalidFormat));
}

#[test]
fn empty_payload_chunk_round_trips() {
    let chunk = Chunk::new(ChunkType::from_str("IEND").unwrap(), Vec::new());
    let bytes = chunk.as_bytes();
    assert_eq!(bytes.len(), 12);
    assert_eq!(&bytes[0..4], &[0, 0, 0, 0]);
    // the CRC-32 of "IEND", as every PNG file ends with it
    assert_eq!(&bytes[8..12], &[0xae, 0x42, 0x60, 0x82]);
    let back = Chunk::try_from(bytes.as_slice()).unwrap();
    assert_eq!(back.as_bytes(), bytes);
}

#[test]
fn serialized_chunk_round_trips() {
    let chunk = Chunk::new(ChunkType::from_str("RuSt").unwrap(), b"hello".to_vec());
    let bytes = chunk.as_bytes();
    assert_eq!(&bytes[0..4], &[0, 0, 0, 5]);
    assert_eq!(&bytes[4..8], b"RuSt");
    assert_eq!(&bytes[8..13], b"hello");
    let back = Chunk::try_from(bytes.as_slice()).unwrap();
    assert_eq!(back.length(), chunk.length());
    assert_eq!(back.chunk_type(), chunk.chunk_type());
    assert_eq!(back.data(), chunk.data());
    assert_eq!(back.crc(), chunk.crc());
}

#[test]
fn any_altered_checksum_or_payload_byte_is_caught() {
    let chunk = Chunk::new(ChunkType::from_str("RuSt").unwrap(), b"secret".to_vec());
    let bytes = chunk.as_bytes();
    for i in 8..bytes.len() {
        let mut altered = bytes.clone();
        altered[i] ^= 0x01;
        assert!(matches!(
            Chunk::try_from(altered.as_slice()),
            Err(PngError::ChecksumMismatch { .. })
        ));
    }
}

#[test]
fn invalid_utf8_payload() {
    let chunk = Chunk::new(ChunkType::from_str("RuSt").unwrap(), vec![0xff, 0xfe]);
    assert_eq!(chunk.data_as_string(), Err(PngError::InvalidUtf8));
}

#[test]
fn chunk_summary_text() {
    let chunk = Chunk::new(ChunkType::from_str("RuSt").unwrap(), b"hello".to_vec());
    let expected = format!(
        "Chunk {{\n  Length: 5\n  Type: RuSt\n  Data: 5 bytes\n  Crc: {}\n}}\n",
        chunk.crc()
    );
    assert_eq!(chunk.to_string(), expected);
    let testing = testing_chunk();
    assert_eq!(
        testing.to_string(),
        "Chunk {\n  Length: 42\n  Type: RuSt\n  Data: 42 bytes\n  Crc: 2882656334\n}\n"
    );
}
