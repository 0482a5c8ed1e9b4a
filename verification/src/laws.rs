use crate::checksum::crc32_iso_hdlc;
use crate::chunk::{decode_chunk, ChunkModel};
use crate::chunk_type::{all_letters, bit5_clear, is_ascii_letter, is_type_code};
use crate::commands::{
    decode_output, encode_output, of_type, remove_output, target_line, without_type,
};
use crate::error::ChunkError;
use crate::png::{
    all_wf, decode_chunks, decode_png, encode_chunks, encode_png, has_type, none_of_type,
    record_end, signature,
};
use crate::text::latin1;
use crate::wire::{lemma_be_u32_of_bytes, lemma_bytes_of_be_u32, u32_be_bytes};
use vstd::prelude::*;
use vstd::utf8::{
    encode_utf8, encode_utf8_decode_utf8, is_ascii_chars, is_ascii_chars_encode_utf8,
};

verus! {

/// In a letter, bit 5 is clear exactly when the letter is upper case.
pub proof fn lemma_case_of_letter(b: u8)
    requires
        is_ascii_letter(b),
    ensures
        bit5_clear(b) <==> 65 <= b <= 90,
{
}

/// Letters shown as text and the text read as UTF-8 are the same bytes: a
/// chunk type reads back from its own text.
pub proof fn lemma_letters_read_back(code: Seq<u8>)
    requires
        all_letters(code),
    ensures
        encode_utf8(latin1(code)) == code,
{
    let text = latin1(code);
    assert(is_ascii_chars(text)) by {
        assert forall|i: int| 0 <= i < text.len() implies '\0' <= #[trigger] text[i] <= '\u{7f}' by {
            assert(is_ascii_letter(code[i]));
        }
    }
    is_ascii_chars_encode_utf8(text);
    assert(encode_utf8(text) =~= code) by {
        assert forall|i: int| 0 <= i < code.len() implies encode_utf8(text)[i] == code[i] by {
            assert(is_ascii_letter(code[i]));
            assert(text[i] as u8 == encode_utf8(text)[i]);
        }
    }
}

/// A text whose UTF-8 bytes are letters is those letters shown as text: a
/// chunk type made from a text is shown as that text.
pub proof fn lemma_letters_show_back(text: Seq<char>)
    requires
        all_letters(encode_utf8(text)),
    ensures
        latin1(encode_utf8(text)) == text,
{
    let code = encode_utf8(text);
    lemma_letters_read_back(code);
    encode_utf8_decode_utf8(text);
    encode_utf8_decode_utf8(latin1(code));
}

/// A sequence is its first `n` elements followed by the others.
proof fn lemma_take_skip(s: Seq<u8>, n: int)
    requires
        0 <= n <= s.len(),
    ensures
        s.take(n) + s.skip(n) == s,
{
    assert(s.take(n) + s.skip(n) =~= s);
}

/// The parts of a record of the right size, by their places.
proof fn lemma_record_parts(length: u32, chunk_type: Seq<u8>, data: Seq<u8>, crc: u32)
    requires
        chunk_type.len() == 4,
        data.len() == length,
    ensures
        ({
            let raw = u32_be_bytes(length) + chunk_type + data + u32_be_bytes(crc);
            &&& raw.len() == 12 + length
            &&& raw.subrange(0, 4) == u32_be_bytes(length)
            &&& raw.subrange(4, 8) == chunk_type
            &&& raw.subrange(8, 8 + length) == data
            &&& raw.subrange(8 + length, 12 + length) == u32_be_bytes(crc)
        }),
{
    let raw = u32_be_bytes(length) + chunk_type + data + u32_be_bytes(crc);
    assert(raw.subrange(0, 4) =~= u32_be_bytes(length));
    assert(raw.subrange(4, 8) =~= chunk_type);
    assert(raw.subrange(8, 8 + length) =~= data);
    assert(raw.subrange(8 + length, 12 + length) =~= u32_be_bytes(crc));
}

/// Decoding the record of a chunk gives the chunk back: length, type, data
/// and checksum.
pub proof fn lemma_chunk_round_trip(chunk: ChunkModel)
    requires
        chunk.wf(),
    ensures
        decode_chunk(chunk.encode()) == Ok::<ChunkModel, ChunkError>(chunk),
{
    lemma_record_parts(chunk.length, chunk.chunk_type, chunk.data, chunk.crc);
    lemma_be_u32_of_bytes(chunk.length);
    lemma_be_u32_of_bytes(chunk.crc);
}

/// What decodes is a chunk that keeps the invariant, and its record is the
/// very bytes it was decoded from.
pub proof fn lemma_chunk_decoded_encodes_back(raw: Seq<u8>)
    requires
        decode_chunk(raw) is Ok,
    ensures
        decode_chunk(raw)->Ok_0.wf(),
        decode_chunk(raw)->Ok_0.encode() == raw,
{
    let chunk = decode_chunk(raw)->Ok_0;
    lemma_bytes_of_be_u32(raw.subrange(0, 4));
    lemma_bytes_of_be_u32(raw.subrange(8 + chunk.length, 12 + chunk.length));
    assert(chunk.encode() =~= raw);
}

/// A record that lost one byte of its data is rejected as truncated.
pub proof fn lemma_truncated_data_rejected(chunk: ChunkModel, i: int)
    requires
        chunk.wf(),
        0 <= i < chunk.data.len(),
    ensures
        decode_chunk(chunk.encode().remove(8 + i)) == Err::<ChunkModel, ChunkError>(
            ChunkError::TruncatedInput,
        ),
{
    let raw = chunk.encode();
    let cut = raw.remove(8 + i);
    lemma_record_parts(chunk.length, chunk.chunk_type, chunk.data, chunk.crc);
    lemma_be_u32_of_bytes(chunk.length);
    assert(cut.subrange(0, 4) =~= raw.subrange(0, 4));
    assert(cut.subrange(4, 8) =~= raw.subrange(4, 8));
}

/// A record whose type or data were replaced, the length and the stored
/// checksum kept, is rejected for its checksum whenever the new content has
/// another checksum than the stored one.
pub proof fn lemma_altered_content_rejected(chunk: ChunkModel, chunk_type: Seq<u8>, data: Seq<u8>)
    requires
        chunk.wf(),
        is_type_code(chunk_type),
        data.len() == chunk.data.len(),
        crc32_iso_hdlc(chunk_type + data) != chunk.crc,
    ensures
        decode_chunk(
            u32_be_bytes(chunk.length) + chunk_type + data + u32_be_bytes(chunk.crc),
        ) == Err::<ChunkModel, ChunkError>(ChunkError::ChecksumMismatch),
{
    lemma_record_parts(chunk.length, chunk_type, data, chunk.crc);
    lemma_be_u32_of_bytes(chunk.length);
    lemma_be_u32_of_bytes(chunk.crc);
}

/// Decoding the records of a sequence of chunks gives the sequence back.
pub proof fn lemma_chunks_round_trip(chunks: Seq<ChunkModel>)
    requires
        all_wf(chunks),
    ensures
        decode_chunks(encode_chunks(chunks)) == Ok::<Seq<ChunkModel>, ChunkError>(chunks),
    decreases chunks.len(),
{
    if chunks.len() == 0 {
        assert(chunks =~= Seq::empty());
    } else {
        let first = chunks[0];
        let rest = chunks.skip(1);
        let bytes = encode_chunks(chunks);
        assert(first.wf());
        lemma_record_parts(first.length, first.chunk_type, first.data, first.crc);
        lemma_be_u32_of_bytes(first.length);
        assert(bytes.subrange(0, 4) =~= first.encode().subrange(0, 4));
        assert(record_end(bytes) == 12 + first.length);
        assert(bytes.take(record_end(bytes)) =~= first.encode());
        assert(bytes.skip(record_end(bytes)) =~= encode_chunks(rest));
        lemma_chunk_round_trip(first);
        lemma_chunks_round_trip(rest);
        assert(seq![first] + rest =~= chunks);
    }
}

/// Decoding the file of a sequence of chunks gives the same chunks in the
/// same order. This holds of every file built by appending chunks.
pub proof fn lemma_png_round_trip(chunks: Seq<ChunkModel>)
    requires
        all_wf(chunks),
    ensures
        decode_png(encode_png(chunks)) == Ok::<Seq<ChunkModel>, ChunkError>(chunks),
{
    let bytes = encode_png(chunks);
    assert(bytes.take(8) =~= signature());
    assert(bytes.skip(8) =~= encode_chunks(chunks));
    lemma_chunks_round_trip(chunks);
}

/// How a sequence of records that decodes splits into its first record and
/// the rest.
proof fn lemma_decode_chunks_step(bytes: Seq<u8>)
    requires
        bytes.len() > 0,
        decode_chunks(bytes) is Ok,
    ensures
        0 < record_end(bytes) <= bytes.len(),
        decode_chunk(bytes.take(record_end(bytes))) is Ok,
        decode_chunks(bytes.skip(record_end(bytes))) is Ok,
        decode_chunks(bytes)->Ok_0 == seq![decode_chunk(bytes.take(record_end(bytes)))->Ok_0]
            + decode_chunks(bytes.skip(record_end(bytes)))->Ok_0,
{
}

/// The records of a chunk followed by others.
proof fn lemma_encode_chunks_cons(first: ChunkModel, rest: Seq<ChunkModel>)
    ensures
        encode_chunks(seq![first] + rest) == first.encode() + encode_chunks(rest),
{
    let chunks = seq![first] + rest;
    assert(chunks[0] == first);
    assert(chunks.skip(1) =~= rest);
}

/// A sequence keeps the invariant when its first chunk and the rest do.
proof fn lemma_all_wf_cons(first: ChunkModel, rest: Seq<ChunkModel>)
    requires
        first.wf(),
        all_wf(rest),
    ensures
        all_wf(seq![first] + rest),
{
    let chunks = seq![first] + rest;
    assert forall|i: int| 0 <= i < chunks.len() implies (#[trigger] chunks[i]).wf() by {
        if i > 0 {
            assert(chunks[i] == rest[i - 1]);
        }
    }
}

/// A first chunk and the chunks after it, each part encoding to its part of
/// `bytes`, together encode to `bytes`.
proof fn lemma_records_join(bytes: Seq<u8>, end: int, first: ChunkModel, rest: Seq<ChunkModel>)
    requires
        0 <= end <= bytes.len(),
        first.wf(),
        first.encode() == bytes.take(end),
        all_wf(rest),
        encode_chunks(rest) == bytes.skip(end),
    ensures
        all_wf(seq![first] + rest),
        encode_chunks(seq![first] + rest) == bytes,
{
    lemma_encode_chunks_cons(first, rest);
    lemma_all_wf_cons(first, rest);
    lemma_take_skip(bytes, end);
}

/// The chunks that decode from records keep the invariant, and their
/// records are the very bytes they were decoded from.
pub proof fn lemma_chunks_decoded_encode_back(bytes: Seq<u8>)
    requires
        decode_chunks(bytes) is Ok,
    ensures
        all_wf(decode_chunks(bytes)->Ok_0),
        encode_chunks(decode_chunks(bytes)->Ok_0) == bytes,
    decreases bytes.len(),
{
    if bytes.len() == 0 {
        assert(bytes =~= Seq::empty());
    } else {
        lemma_decode_chunks_step(bytes);
        let end = record_end(bytes);
        lemma_chunk_decoded_encodes_back(bytes.take(end));
        lemma_chunks_decoded_encode_back(bytes.skip(end));
        lemma_records_join(
            bytes,
            end,
            decode_chunk(bytes.take(end))->Ok_0,
            decode_chunks(bytes.skip(end))->Ok_0,
        );
    }
}

/// What decodes from a file keeps the invariant, and encodes to the very
/// bytes of that file.
pub proof fn lemma_png_decoded_encodes_back(bytes: Seq<u8>)
    requires
        decode_png(bytes) is Ok,
    ensures
        all_wf(decode_png(bytes)->Ok_0),
        encode_png(decode_png(bytes)->Ok_0) == bytes,
{
    lemma_chunks_decoded_encode_back(bytes.skip(8));
    lemma_take_skip(bytes, 8);
}

/// Encoding, decoding and encoding again gives the bytes of the first
/// encoding.
pub proof fn lemma_png_reencode(chunks: Seq<ChunkModel>)
    requires
        all_wf(chunks),
    ensures
        decode_png(encode_png(chunks)) is Ok,
        encode_png(decode_png(encode_png(chunks))->Ok_0) == encode_png(chunks),
{
    lemma_png_round_trip(chunks);
}

/// After `remove`, no chunk of the type is left.
pub proof fn lemma_removed_type_is_gone(chunks: Seq<ChunkModel>, text: Seq<char>)
    ensures
        none_of_type(without_type(chunks, text), text),
        without_type(chunks, text).len() <= chunks.len(),
{
    let kept = |c: ChunkModel| !has_type(c, text);
    let left = chunks.filter(kept);
    chunks.lemma_filter_len(kept);
    assert forall|j: int| 0 <= j < left.len() implies !has_type(#[trigger] left[j], text) by {
        chunks.lemma_filter_pred(kept, j);
    }
}

/// What `encode` hides, `decode` shows: in the file that `encode` wrote, the
/// last chunk of the type given is the new one, with the message as data.
pub proof fn lemma_encoded_message_is_shown(png: Seq<u8>, text: Seq<char>, content: Seq<u8>)
    requires
        content.len() <= u32::MAX,
        encode_output(png, encode_utf8(text), content) is Ok,
    ensures
        ({
            let out = encode_output(png, encode_utf8(text), content)->Ok_0;
            let message = ChunkModel::of(encode_utf8(text), content);
            &&& decode_output(out, text) is Ok
            &&& decode_output(out, text)->Ok_0.len() > 0
            &&& decode_output(out, text)->Ok_0.last() == target_line(message)
        }),
{
    let chunks = decode_png(png)->Ok_0;
    let message = ChunkModel::of(encode_utf8(text), content);
    let all = chunks.push(message);
    let wanted = |c: ChunkModel| has_type(c, text);
    lemma_png_decoded_encodes_back(png);
    assert(all_wf(all)) by {
        assert forall|i: int| 0 <= i < all.len() implies (#[trigger] all[i]).wf() by {
            if i < chunks.len() {
                assert(all[i] == chunks[i]);
            }
        }
    }
    lemma_png_round_trip(all);
    lemma_letters_show_back(text);
    assert(of_type(all, text) == of_type(chunks, text).push(message)) by {
        reveal(Seq::filter);
        assert(all.drop_last() =~= chunks);
        assert(wanted(all.last()));
    }
}

/// What `encode` hides, `remove` takes out again: removing the type from
/// the file that `encode` wrote leaves the chunks of the file read but those
/// of that type.
pub proof fn lemma_encoded_message_is_removed(png: Seq<u8>, text: Seq<char>, content: Seq<u8>)
    requires
        content.len() <= u32::MAX,
        encode_output(png, encode_utf8(text), content) is Ok,
    ensures
        remove_output(encode_output(png, encode_utf8(text), content)->Ok_0, text) == remove_output(
            png,
            text,
        ),
{
    let chunks = decode_png(png)->Ok_0;
    let message = ChunkModel::of(encode_utf8(text), content);
    let all = chunks.push(message);
    let kept = |c: ChunkModel| !has_type(c, text);
    lemma_png_decoded_encodes_back(png);
    assert(all_wf(all)) by {
        assert forall|i: int| 0 <= i < all.len() implies (#[trigger] all[i]).wf() by {
            if i < chunks.len() {
                assert(all[i] == chunks[i]);
            }
        }
    }
    lemma_png_round_trip(all);
    lemma_letters_show_back(text);
    assert(without_type(all, text) == without_type(chunks, text)) by {
        reveal(Seq::filter);
        assert(all.drop_last() =~= chunks);
        assert(!kept(all.last()));
    }
}

} // verus!
