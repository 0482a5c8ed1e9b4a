use pngme::chunk::Chunk;
use pngme::chunk_type::ChunkType;
use pngme::error::ChunkError;
use pngme::png::Png;
use std::convert::TryFrom;
use std::str::FromStr;

const SIGNATURE: [u8; 8] = [137, 80, 78, 71, 13, 10, 26, 10];

fn chunk(chunk_type: &str, data: &str) -> Chunk {
    Chunk::new(ChunkType::from_str(chunk_type).unwrap(), data.as_bytes().to_vec())
}

fn sample() -> Png {
    let mut png = Png::new();
    png.append_chunk(chunk("FrSt", "I am the first chunk"));
    png.append_chunk(chunk("miDl", "I am another chunk"));
    png.append_chunk(chunk("LASt", "I am the last chunk"));
    png
}

fn types(png: &Png) -> Vec<String> {
    png.chunks().iter().map(|c| c.chunk_type().to_string()).collect()
}

#[test]
fn signature_is_the_png_signature() {
    assert_eq!(Png::STANDARD_HEADER, SIGNATURE);
    assert_eq!(Png::new().header(), SIGNATURE);
    assert_eq!(Png::new().as_bytes(), SIGNATURE.to_vec());
    assert!(Png::new().chunks().is_empty());
}

#[test]
fn file_is_signature_then_records_in_order() {
    let png = sample();
    let mut expected = SIGNATURE.to_vec();
    expected.extend(chunk("FrSt", "I am the first chunk").as_bytes());
    expected.extend(chunk("miDl", "I am another chunk").as_bytes());
    expected.extend(chunk("LASt", "I am the last chunk").as_bytes());
    assert_eq!(png.as_bytes(), expected);
}

#[test]
fn file_round_trip_keeps_chunks_and_order() {
    let png = sample();
    let bytes = png.as_bytes();
    let back = Png::try_from(bytes.as_slice()).unwrap();
    assert_eq!(back.header(), png.header());
    assert_eq!(types(&back), vec!["FrSt", "miDl", "LASt"]);
    assert_eq!(back.chunks().len(), 3);
    for (a, b) in back.chunks().iter().zip(png.chunks().iter()) {
        assert_eq!(a.length(), b.length());
        assert_eq!(a.chunk_type(), b.chunk_type());
        assert_eq!(a.data(), b.data());
        assert_eq!(a.crc(), b.crc());
    }
}

#[test]
fn encoding_again_gives_the_same_bytes() {
    let first = sample().as_bytes();
    let second = Png::try_from(first.as_slice()).unwrap().as_bytes();
    assert_eq!(first, second);
}

#[test]
fn empty_file_after_signature_decodes_to_no_chunks() {
    let png = Png::try_from(&SIGNATURE[..]).unwrap();
    assert!(png.chunks().is_empty());
}

#[test]
fn wrong_signature_is_a_signature_mismatch() {
    let mut bytes = sample().as_bytes();
    bytes[0] = 13;
    assert_eq!(Png::try_from(bytes.as_slice()).err(), Some(ChunkError::SignatureMismatch));
    let mut bytes = sample().as_bytes();
    bytes[7] = 11;
    assert_eq!(Png::try_from(bytes.as_slice()).err(), Some(ChunkError::SignatureMismatch));
    // the chunks that follow are not looked at
    let mut bytes = vec![0u8; 8];
    bytes.extend_from_slice(&[1, 2, 3]);
    assert_eq!(Png::try_from(bytes.as_slice()).err(), Some(ChunkError::SignatureMismatch));
}

#[test]
fn input_shorter_than_the_signature_is_a_signature_mismatch() {
    for len in 0..8 {
        assert_eq!(Png::try_from(&SIGNATURE[..len]).err(), Some(ChunkError::SignatureMismatch));
    }
}

#[test]
fn trailing_bytes_are_truncated_input() {
    for extra in 1..12 {
        let mut bytes = sample().as_bytes();
        bytes.extend_from_slice(&b"\0\0\0\0IEND\0\0\0"[..extra.min(11)]);
        let expected = ChunkError::TruncatedInput;
        assert_eq!(Png::try_from(bytes.as_slice()).err(), Some(expected));
    }
}

#[test]
fn file_cut_inside_a_chunk_is_truncated_input() {
    let bytes = sample().as_bytes();
    let cut = &bytes[..bytes.len() - 1];
    assert_eq!(Png::try_from(cut).err(), Some(ChunkError::TruncatedInput));
    let cut = &bytes[..bytes.len() - 10];
    assert_eq!(Png::try_from(cut).err(), Some(ChunkError::TruncatedInput));
}

#[test]
fn errors_of_a_chunk_come_through() {
    let good = sample().as_bytes();
    // a byte of the first chunk's data
    let mut bytes = good.clone();
    bytes[8 + 8] ^= 0x10;
    assert_eq!(Png::try_from(bytes.as_slice()).err(), Some(ChunkError::ChecksumMismatch));
    // a byte of the second chunk's type
    let second = 8 + 12 + 20;
    let mut bytes = good.clone();
    bytes[second + 4] = b'1';
    assert_eq!(Png::try_from(bytes.as_slice()).err(), Some(ChunkError::TypeCodeError));
    // the type is looked at even where the record is cut short
    let mut bytes = good[..second + 9].to_vec();
    bytes[second + 4] = b'1';
    assert_eq!(Png::try_from(bytes.as_slice()).err(), Some(ChunkError::TypeCodeError));
}

#[test]
fn append_does_not_deduplicate() {
    let mut png = sample();
    png.append_chunk(chunk("miDl", "again"));
    assert_eq!(types(&png), vec!["FrSt", "miDl", "LASt", "miDl"]);
}

#[test]
fn remove_first_chunk_removes_only_the_first_of_the_type() {
    let mut png = sample();
    png.append_chunk(chunk("miDl", "again"));
    png.remove_first_chunk("miDl");
    assert_eq!(types(&png), vec!["FrSt", "LASt", "miDl"]);
    assert_eq!(png.chunks()[2].data_as_string().unwrap(), "again");
    png.remove_first_chunk("miDl");
    assert_eq!(types(&png), vec!["FrSt", "LASt"]);
}

#[test]
fn remove_first_chunk_without_a_match_changes_nothing() {
    let mut png = sample();
    let before = png.as_bytes();
    png.remove_first_chunk("IDAT");
    assert_eq!(png.as_bytes(), before);
    png.remove_first_chunk("midl");
    assert_eq!(png.as_bytes(), before);
    png.remove_first_chunk("not a type");
    assert_eq!(png.as_bytes(), before);
    let mut empty = Png::new();
    empty.remove_first_chunk("miDl");
    assert!(empty.chunks().is_empty());
}

#[test]
fn append_then_remove_then_round_trip() {
    let mut png = Png::new();
    png.append_chunk(chunk("RuSt", "secret"));
    png.append_chunk(chunk("teXt", "hello"));
    assert_eq!(types(&png), vec!["RuSt", "teXt"]);
    assert_eq!(png.chunks()[0].data_as_string().unwrap(), "secret");
    assert_eq!(png.chunks()[1].data_as_string().unwrap(), "hello");

    png.remove_first_chunk("RuSt");
    assert_eq!(types(&png), vec!["teXt"]);

    let bytes = png.as_bytes();
    let back = Png::try_from(bytes.as_slice()).unwrap();
    assert_eq!(back.chunks().len(), 1);
    assert_eq!(back.chunks()[0].chunk_type().to_string(), "teXt");
    assert_eq!(back.chunks()[0].data(), b"hello");
    assert_eq!(back.chunks()[0].length(), 5);
    assert_eq!(back.chunks()[0].crc(), png.chunks()[0].crc());
    assert_eq!(back.as_bytes(), bytes);
}
