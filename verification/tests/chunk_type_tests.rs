use pngme::chunk_type::{is_letter, is_letters, ChunkType};
use pngme::error::ChunkError;
use std::convert::TryFrom;
use std::str::FromStr;

#[test]
pub fn test_chunk_type_from_bytes() {
    let expected = [82, 117, 83, 116];
    let actual = ChunkType::try_from([82, 117, 83, 116]).unwrap();

    assert_eq!(expected, actual.bytes());
}

#[test]
pub fn test_chunk_type_from_str() {
    let expected = ChunkType::try_from([82, 117, 83, 116]).unwrap();
    let actual = ChunkType::from_str("RuSt").unwrap();
    assert_eq!(expected, actual);
}

#[test]
pub fn test_chunk_type_is_critical() {
    let chunk = ChunkType::from_str("RuSt").unwrap();
    assert!(chunk.is_critical());
}

#[test]
pub fn test_chunk_type_is_not_critical() {
    let chunk = ChunkType::from_str("ruSt").unwrap();
    assert!(!chunk.is_critical());
}

#[test]
pub fn test_chunk_type_is_public() {
    let chunk = ChunkType::from_str("RUSt").unwrap();
    assert!(chunk.is_public());
}

#[test]
pub fn test_chunk_type_is_not_public() {
    let chunk = ChunkType::from_str("RuSt").unwrap();
    assert!(!chunk.is_public());
}

#[test]
pub fn test_chunk_type_is_reserved_bit_valid() {
    let chunk = ChunkType::from_str("RuSt").unwrap();
    assert!(chunk.is_reserved_bit_valid());
}

#[test]
pub fn test_chunk_type_is_reserved_bit_invalid() {
    let chunk = ChunkType::from_str("Rust").unwrap();
    assert!(!chunk.is_reserved_bit_valid());
}

#[test]
pub fn test_chunk_type_is_safe_to_copy() {
    let chunk = ChunkType::from_str("RuSt").unwrap();
    assert!(chunk.is_safe_to_copy());
}

#[test]
pub fn test_chunk_type_is_unsafe_to_copy() {
    let chunk = ChunkType::from_str("RuST").unwrap();
    assert!(!chunk.is_safe_to_copy());
}

#[test]
pub fn test_valid_chunk_is_valid() {
    let chunk = ChunkType::from_str("RuSt").unwrap();
    assert!(chunk.is_valid());
}

#[test]
pub fn test_invalid_chunk_is_valid() {
    let chunk = ChunkType::from_str("Rust").unwrap();
    assert!(!chunk.is_valid());

    let chunk = ChunkType::from_str("Ru1t");
    assert!(chunk.is_err());
}

#[test]
pub fn test_chunk_type_string() {
    let chunk = ChunkType::from_str("RuSt").unwrap();
    assert_eq!(&chunk.to_string(), "RuSt");
}

#[test]
pub fn test_chunk_type_trait_impls() {
    let chunk_type_1: ChunkType = TryFrom::try_from([82, 117, 83, 116]).unwrap();
    let chunk_type_2: ChunkType = FromStr::from_str("RuSt").unwrap();
    let _chunk_string = format!("{}", chunk_type_1.to_string());
    let _are_chunks_equal = chunk_type_1 == chunk_type_2;
}

#[test]
fn chunk_type_flags_of_rust_type() {
    let chunk = ChunkType::from_str("RuSt").unwrap();
    assert!(chunk.is_critical());
    assert!(!chunk.is_public());
    assert!(chunk.is_reserved_bit_valid());
    assert!(chunk.is_safe_to_copy());
}

#[test]
fn chunk_type_text_errors_are_format_errors() {
    assert_eq!(ChunkType::from_str("Ru1t"), Err(ChunkError::FormatError));
    assert_eq!(ChunkType::from_str("RuS"), Err(ChunkError::FormatError));
    assert_eq!(ChunkType::from_str("RuStt"), Err(ChunkError::FormatError));
    assert_eq!(ChunkType::from_str(""), Err(ChunkError::FormatError));
    // two characters that take four bytes
    assert_eq!(ChunkType::from_str("éé"), Err(ChunkError::FormatError));
}

#[test]
fn chunk_type_byte_errors_are_type_code_errors() {
    assert_eq!(ChunkType::try_from([82, 117, 49, 116]), Err(ChunkError::TypeCodeError));
    assert_eq!(ChunkType::try_from([64, 65, 65, 65]), Err(ChunkError::TypeCodeError));
    assert_eq!(ChunkType::try_from([65, 91, 65, 65]), Err(ChunkError::TypeCodeError));
    assert_eq!(ChunkType::try_from([65, 65, 96, 65]), Err(ChunkError::TypeCodeError));
    assert_eq!(ChunkType::try_from([65, 65, 65, 123]), Err(ChunkError::TypeCodeError));
}

#[test]
fn chunk_type_accepts_the_ends_of_both_letter_ranges() {
    let chunk = ChunkType::try_from([65, 90, 97, 122]).unwrap();
    assert_eq!(chunk.bytes(), [65, 90, 97, 122]);
    assert_eq!(chunk.to_string(), "AZaz");
    assert!(!chunk.is_valid());
}

#[test]
fn chunk_type_equality_is_by_bytes() {
    let a = ChunkType::from_str("teXt").unwrap();
    let b = ChunkType::try_from([116, 101, 88, 116]).unwrap();
    let c = ChunkType::from_str("text").unwrap();
    assert!(a == b);
    assert!(a != c);
}

#[test]
fn chunk_type_text_round_trip() {
    let chunk = ChunkType::from_str("IDAT").unwrap();
    assert_eq!(ChunkType::from_str(&chunk.to_string()), Ok(chunk));
}

#[test]
fn letters_are_told_from_other_bytes() {
    assert!(is_letter(65) && is_letter(90) && is_letter(97) && is_letter(122));
    assert!(!is_letter(64) && !is_letter(91) && !is_letter(96) && !is_letter(123));
    assert!(!is_letter(0) && !is_letter(255) && !is_letter(49));
    assert!(is_letters(&[82, 117, 83, 116]));
    assert!(!is_letters(&[82, 117, 83, 32]));
}
