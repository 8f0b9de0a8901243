use pngme::chunk::{PngChunk, PngChunkParsingError};
use pngme::chunk_type::{PngChunkType, PngChunkTypeParsingError};
use pngme::png::PngError;
use pngme::render::dec_string;
use pngme::Png;

const SIGNATURE: [u8; 8] = [0x89, 0x50, 0x4e, 0x47, 0x0d, 0x0a, 0x1a, 0x0a];

fn chunk_bytes(chunk_type: &str, data: &[u8]) -> Vec<u8> {
    let mut checked: Vec<u8> = Vec::new();
    checked.extend_from_slice(chunk_type.as_bytes());
    checked.extend_from_slice(data);
    let crc = crc32fast::hash(&checked);

    let mut out: Vec<u8> = Vec::new();
    out.extend_from_slice(&(data.len() as u32).to_be_bytes());
    out.extend_from_slice(chunk_type.as_bytes());
    out.extend_from_slice(data);
    out.extend_from_slice(&crc.to_be_bytes());
    out
}

fn sample_png_bytes() -> Vec<u8> {
    let mut out: Vec<u8> = Vec::new();
    out.extend_from_slice(&SIGNATURE);
    out.extend_from_slice(&chunk_bytes("FrSt", b"I am the first chunk"));
    out.extend_from_slice(&chunk_bytes("miDl", b"I am another chunk"));
    out.extend_from_slice(&chunk_bytes("LASt", b"I am the last chunk"));
    out
}

#[test]
fn test_container_parse_serialize_round_trip() {
    let bytes = sample_png_bytes();
    let png = Png::try_from(bytes.as_ref()).unwrap();
    assert_eq!(png.as_bytes(), bytes);
}

#[test]
fn test_empty_container_round_trip() {
    let png = Png::try_from(&SIGNATURE[..]).unwrap();
    assert_eq!(png.chunk_count(), 0);
    assert_eq!(png.as_bytes(), SIGNATURE.to_vec());
}

#[test]
fn test_chunk_new_serialize_parse_round_trip() {
    let chunk_type = PngChunkType::from_str("TeSt").unwrap();
    let chunk = PngChunk::new(chunk_type, vec![1, 2, 3, 4, 5]);
    let wire = chunk.as_bytes();
    let parsed = PngChunk::try_from(wire.as_ref()).unwrap();
    assert_eq!(parsed.length, 5);
    assert_eq!(parsed.data, vec![1, 2, 3, 4, 5]);
    assert_eq!(parsed.chunk_type.bytes(), chunk.chunk_type.bytes());
    assert_eq!(parsed.crc(), chunk.crc());
    assert_eq!(parsed.as_bytes(), wire);
}

#[test]
fn test_checksum_bit_flip_fails() {
    let chunk_type = PngChunkType::from_str("RuSt").unwrap();
    let chunk = PngChunk::new(chunk_type, b"secret message".to_vec());
    let wire = chunk.as_bytes();
    // Bytes 4..8 hold the type, bytes 8..8+len the data: flip every bit of
    // each in turn; the parse must fail every time (either the checksum no
    // longer matches, or the type stops being letters).
    let data_end = 8 + chunk.data.len();
    for byte_index in 4..data_end {
        for bit in 0..8 {
            let mut corrupted = wire.clone();
            corrupted[byte_index] ^= 1 << bit;
            assert!(PngChunk::try_from(corrupted.as_ref()).is_err());
        }
    }
}

#[test]
fn test_parser_trusts_length_field() {
    // The length field says 42; everything after the checksum is ignored.
    let message = "This is where your secret message will be!".as_bytes();
    assert_eq!(message.len(), 42);
    let mut buffer = chunk_bytes("RuSt", message);
    buffer.extend_from_slice(b"trailing bytes that belong to nobody");
    let chunk = PngChunk::try_from(buffer.as_ref()).unwrap();
    assert_eq!(chunk.length, 42);
    assert_eq!(chunk.data, message.to_vec());
    assert_eq!(chunk.crc(), 2882656334);
}

#[test]
fn test_signature_rejection() {
    let mut bytes = sample_png_bytes();
    bytes[0] = 0x88;
    assert_eq!(
        Png::try_from(bytes.as_ref()).unwrap_err(),
        PngError::InvalidSignature
    );

    let short: [u8; 4] = [0x89, 0x50, 0x4e, 0x47];
    assert_eq!(Png::try_from(&short[..]).unwrap_err(), PngError::InvalidSignature);
}

#[test]
fn test_append_remove_symmetry() {
    let bytes = sample_png_bytes();
    let mut png = Png::try_from(bytes.as_ref()).unwrap();
    let before = png.as_bytes();

    let chunk_type = PngChunkType::from_str("RuSt").unwrap();
    let chunk = PngChunk::new(chunk_type, b"hidden words".to_vec());
    png.append_chunk(chunk);
    assert_eq!(png.chunk_count(), 4);

    let removed = png.remove_first_chunk("RuSt").unwrap();
    assert_eq!(removed.chunk_type.to_string(), "RuSt");
    assert_eq!(removed.data, b"hidden words".to_vec());
    assert_eq!(png.as_bytes(), before);
}

#[test]
fn test_chunk_by_type_miss() {
    let bytes = sample_png_bytes();
    let png = Png::try_from(bytes.as_ref()).unwrap();
    assert!(png.chunk_by_type("TeSt").is_none());
    // An invalid type string matches nothing, and is no error either.
    assert!(png.chunk_by_type("not a type").is_none());
}

#[test]
fn test_chunk_by_type_finds_first() {
    let mut bytes: Vec<u8> = Vec::new();
    bytes.extend_from_slice(&SIGNATURE);
    bytes.extend_from_slice(&chunk_bytes("DuPe", b"first"));
    bytes.extend_from_slice(&chunk_bytes("DuPe", b"second"));
    let png = Png::try_from(bytes.as_ref()).unwrap();
    let found = png.chunk_by_type("DuPe").unwrap();
    assert_eq!(found.data, b"first".to_vec());
}

#[test]
fn test_remove_not_found() {
    let bytes = sample_png_bytes();
    let mut png = Png::try_from(bytes.as_ref()).unwrap();
    assert_eq!(
        png.remove_first_chunk("TeSt").unwrap_err(),
        PngError::ChunkNotFound
    );
    assert_eq!(png.chunk_count(), 3);
}

#[test]
fn test_remove_invalid_type_string() {
    let bytes = sample_png_bytes();
    let mut png = Png::try_from(bytes.as_ref()).unwrap();
    assert_eq!(
        png.remove_first_chunk("Ru1t").unwrap_err(),
        PngError::InvalidChunkType(PngChunkTypeParsingError::InvalidAsciiCharacters)
    );
    assert_eq!(
        png.remove_first_chunk("Rusty").unwrap_err(),
        PngError::InvalidChunkType(PngChunkTypeParsingError::InvalidStringLength {
            expected: 4,
            got: 5
        })
    );
}

#[test]
fn test_chunk_parse_error_variants() {
    let short: [u8; 5] = [0, 0, 0, 0, 0];
    assert_eq!(
        PngChunk::try_from(&short[..]).unwrap_err(),
        PngChunkParsingError::InvalidMinimumLength(5)
    );

    // Twelve bytes, but the length field promises one more data byte.
    let hungry: [u8; 12] = [0, 0, 0, 1, 82, 117, 83, 116, 0, 0, 0, 0];
    assert_eq!(
        PngChunk::try_from(&hungry[..]).unwrap_err(),
        PngChunkParsingError::InvalidDataLength {
            expected: 1,
            got: 12
        }
    );

    let bad_type = chunk_bytes("Ru1t", b"payload");
    assert_eq!(
        PngChunk::try_from(bad_type.as_ref()).unwrap_err(),
        PngChunkParsingError::InvalidChunkType(PngChunkTypeParsingError::InvalidAsciiCharacters)
    );

    let mut bad_crc = chunk_bytes("RuSt", "This is where your secret message will be!".as_bytes());
    let end = bad_crc.len();
    bad_crc[end - 1] ^= 1;
    assert_eq!(
        PngChunk::try_from(bad_crc.as_ref()).unwrap_err(),
        PngChunkParsingError::InvalidCRC {
            expected: 2882656334,
            got: 2882656335
        }
    );
}

#[test]
fn test_container_chunk_error_aborts_parse() {
    let mut bytes: Vec<u8> = Vec::new();
    bytes.extend_from_slice(&SIGNATURE);
    bytes.extend_from_slice(&chunk_bytes("GoOd", b"fine"));
    bytes.extend_from_slice(&[0, 0, 0]);
    assert_eq!(
        Png::try_from(bytes.as_ref()).unwrap_err(),
        PngError::InvalidChunk(PngChunkParsingError::InvalidMinimumLength(3))
    );
}

#[test]
fn test_type_from_str_validation() {
    assert_eq!(
        PngChunkType::from_str("Rus").unwrap_err(),
        PngChunkTypeParsingError::InvalidStringLength {
            expected: 4,
            got: 3
        }
    );
    assert_eq!(
        PngChunkType::from_str("Ru1t").unwrap_err(),
        PngChunkTypeParsingError::InvalidAsciiCharacters
    );
    assert_eq!(
        PngChunkType::try_from([82, 117, 49, 116]).unwrap_err(),
        PngChunkTypeParsingError::InvalidAsciiCharacters
    );
}

#[test]
fn test_type_from_str_rejects_wide_characters() {
    // U+0141 is four characters' worth of string with "uSt", and its low
    // byte happens to be the letter A: truncation would smuggle in the type
    // "AuSt", so the character itself must be rejected.
    assert_eq!(
        PngChunkType::from_str("\u{141}uSt").unwrap_err(),
        PngChunkTypeParsingError::InvalidAsciiCharacters
    );
    // A four-character string with an emoji is rejected the same way, not by
    // its byte length.
    assert_eq!(
        PngChunkType::from_str("\u{1F980}uSt").unwrap_err(),
        PngChunkTypeParsingError::InvalidAsciiCharacters
    );
}

#[test]
fn test_data_as_string_invalid_utf8() {
    let chunk_type = PngChunkType::from_str("RuSt").unwrap();
    let chunk = PngChunk::new(chunk_type, vec![0xff, 0xfe, 0x00]);
    assert!(chunk.data_as_string().is_err());
}

#[test]
fn test_chunk_rendering() {
    let chunk_type = PngChunkType::from_str("RuSt").unwrap();
    let chunk = PngChunk::new(chunk_type, vec![1, 2, 3]);
    let expected = format!("RuSt (3)[1, 2, 3] (CRC: {})", chunk.crc());
    assert_eq!(chunk.to_string(), expected);

    let empty = PngChunk::new(PngChunkType::from_str("emPt").unwrap(), vec![]);
    let expected_empty = format!("emPt (0)[] (CRC: {})", empty.crc());
    assert_eq!(empty.to_string(), expected_empty);
}

#[test]
fn test_png_rendering() {
    let chunk_type = PngChunkType::from_str("RuSt").unwrap();
    let chunk = PngChunk::new(chunk_type, vec![9]);
    let crc = chunk.crc();
    let png = Png::from_chunks(vec![chunk]);
    let expected = format!("PNG (signature ok, 1 chunks)\nRuSt (1)[9] (CRC: {})", crc);
    assert_eq!(png.to_string(), expected);
}

#[test]
fn test_dec_string() {
    assert_eq!(dec_string(0), "0");
    assert_eq!(dec_string(7), "7");
    assert_eq!(dec_string(42), "42");
    assert_eq!(dec_string(2882656334), "2882656334");
    assert_eq!(dec_string(u64::MAX), u64::MAX.to_string());
}

#[test]
fn test_new_empty_png() {
    let png = Png::new();
    assert_eq!(png.chunk_count(), 0);
    assert_eq!(png.as_bytes(), SIGNATURE.to_vec());
}
