use crate::args::{DecodeArgs, EncodeArgs, RemoveArgs};
use crate::chunk::{chunk_text, Chunk, ChunkModel};
use crate::chunk_type::{is_type_code, ChunkType};
use crate::error::ChunkError;
use crate::png::{chunk_models, decode_png, encode_png, has_type, is_first_of_type, Png};
use crate::text::latin1;
use std::str::FromStr;
use vstd::prelude::*;
use vstd::string::{StringExecFns, StringSliceAdditionalSpecFns};
use vstd::utf8::encode_utf8;

verus! {

/// The chunks whose type reads `text`, in their order.
pub open spec fn of_type(chunks: Seq<ChunkModel>, text: Seq<char>) -> Seq<ChunkModel> {
    chunks.filter(|c: ChunkModel| has_type(c, text))
}

/// The chunks whose type does not read `text`, in their order.
pub open spec fn without_type(chunks: Seq<ChunkModel>, text: Seq<char>) -> Seq<ChunkModel> {
    chunks.filter(|c: ChunkModel| !has_type(c, text))
}

/// The file that `encode` writes: the chunks of the file read, and after
/// them a new chunk of the given type that carries the message. A file that
/// does not decode gives its error; a type that is not four letters gives
/// `FormatError`.
pub open spec fn encode_output(png: Seq<u8>, chunk_type: Seq<u8>, content: Seq<u8>) -> Result<
    Seq<u8>,
    ChunkError,
> {
    match decode_png(png) {
        Ok(chunks) => if is_type_code(chunk_type) {
            Ok(encode_png(chunks.push(ChunkModel::of(chunk_type, content))))
        } else {
            Err(ChunkError::FormatError)
        },
        Err(e) => Err(e),
    }
}

/// The file that `remove` writes: the chunks of the file read but those of
/// the given type.
pub open spec fn remove_output(png: Seq<u8>, text: Seq<char>) -> Result<Seq<u8>, ChunkError> {
    match decode_png(png) {
        Ok(chunks) => Ok(encode_png(without_type(chunks, text))),
        Err(e) => Err(e),
    }
}

/// The line that `decode` shows for a chunk.
pub open spec fn target_line(chunk: ChunkModel) -> Seq<char> {
    "Target Chunk: "@ + chunk_text(chunk)
}

/// The line that `print_chunks` shows for a chunk.
pub open spec fn chunk_line(chunk: ChunkModel) -> Seq<char> {
    "chunk:  "@ + chunk_text(chunk)
}

/// The lines that `decode` shows: one for each chunk of the given type.
pub open spec fn decode_output(png: Seq<u8>, text: Seq<char>) -> Result<
    Seq<Seq<char>>,
    ChunkError,
> {
    match decode_png(png) {
        Ok(chunks) => Ok(of_type(chunks, text).map_values(|c: ChunkModel| target_line(c))),
        Err(e) => Err(e),
    }
}

/// The lines that `print_chunks` shows: one for each chunk.
pub open spec fn print_output(png: Seq<u8>) -> Result<Seq<Seq<char>>, ChunkError> {
    match decode_png(png) {
        Ok(chunks) => Ok(chunks.map_values(|c: ChunkModel| chunk_line(c))),
        Err(e) => Err(e),
    }
}

/// Adds a chunk that carries a message to the file whose bytes are
/// `png_bytes`, and gives the bytes of the new file.
pub fn encode(args: &EncodeArgs, png_bytes: &[u8]) -> (r: Result<Vec<u8>, ChunkError>)
    requires
        encode_utf8(args.content@).len() <= u32::MAX,
    ensures
        match r {
            Ok(out) => encode_output(
                png_bytes@,
                encode_utf8(args.chunk_type@),
                encode_utf8(args.content@),
            ) == Ok::<Seq<u8>, ChunkError>(out@),
            Err(e) => encode_output(
                png_bytes@,
                encode_utf8(args.chunk_type@),
                encode_utf8(args.content@),
            ) == Err::<Seq<u8>, ChunkError>(e),
        },
{
    let mut new_png = match Png::try_from(png_bytes) {
        Ok(png) => png,
        Err(e) => {
            return Err(e);
        },
    };
    let new_chunk_type = match ChunkType::from_str(args.chunk_type.as_str()) {
        Ok(chunk_type) => chunk_type,
        Err(e) => {
            return Err(e);
        },
    };
    let content = vstd::slice::slice_to_vec(args.content.as_str().as_bytes());
    let new_chunk = Chunk::new(new_chunk_type, content);
    new_png.append_chunk(new_chunk);
    Ok(new_png.as_bytes())
}

/// Filtering one element more of a sequence: the element is put at the
/// end of what was kept so far, or left out.
proof fn lemma_filter_take_step<A>(s: Seq<A>, pred: spec_fn(A) -> bool, i: int)
    requires
        0 <= i < s.len(),
    ensures
        s.take(i + 1).filter(pred) == if pred(s[i]) {
            s.take(i).filter(pred).push(s[i])
        } else {
            s.take(i).filter(pred)
        },
{
    reveal(Seq::filter);
    assert(s.take(i + 1).drop_last() =~= s.take(i));
}

/// The line to show for a chunk: a heading, then the chunk's summary.
fn line_of(heading: &str, chunk: &Chunk) -> (line: String)
    ensures
        line@ == heading@ + chunk_text(chunk@),
{
    let mut line = heading.to_owned();
    let summary = chunk.to_string();
    line.append(summary.as_str());
    line
}

/// Looks for the chunks of a type in the file whose bytes are `png_bytes`,
/// and gives a line to show for each.
pub fn decode(args: &DecodeArgs, png_bytes: &[u8]) -> (r: Result<Vec<String>, ChunkError>)
    ensures
        match r {
            Ok(lines) => decode_output(png_bytes@, args.chunk_type@) == Ok::<
                Seq<Seq<char>>,
                ChunkError,
            >(lines.deep_view()),
            Err(e) => decode_output(png_bytes@, args.chunk_type@) == Err::<
                Seq<Seq<char>>,
                ChunkError,
            >(e),
        },
{
    let png = match Png::try_from(png_bytes) {
        Ok(png) => png,
        Err(e) => {
            return Err(e);
        },
    };
    let chunks = png.chunks();
    let ghost text = args.chunk_type@;
    let ghost shown = |c: ChunkModel| target_line(c);
    let mut lines: Vec<String> = Vec::new();
    let mut i: usize = 0;
    proof {
        reveal(Seq::filter);
        assert(lines.deep_view() =~= of_type(png@.take(0), text).map_values(shown));
    }
    while i < chunks.len()
        invariant
            i <= chunks.len(),
            chunk_models(chunks@) == png@,
            text == args.chunk_type@,
            shown == |c: ChunkModel| target_line(c),
            lines.deep_view() == of_type(png@.take(i as int), text).map_values(shown),
        decreases chunks.len() - i,
    {
        let name = chunks[i].chunk_type().to_string();
        proof {
            lemma_filter_take_step(png@, |c: ChunkModel| has_type(c, text), i as int);
        }
        if name == args.chunk_type {
            let line = line_of("Target Chunk: ", &chunks[i]);
            let ghost before = lines.deep_view();
            lines.push(line);
            assert(lines.deep_view() =~= before.push(line@));
            assert(of_type(png@.take(i + 1), text).map_values(shown) =~= of_type(
                png@.take(i as int),
                text,
            ).map_values(shown).push(target_line(png@[i as int])));
        }
        i += 1;
    }
    assert(png@.take(i as int) =~= png@);
    Ok(lines)
}

/// The types of the chunks of a file, as text, in file order.
fn type_names(png: &Png) -> (names: Vec<String>)
    ensures
        names@.len() == png@.len(),
        forall|i: int| 0 <= i < names@.len() ==> (#[trigger] names@[i])@ == latin1(
            png@[i].chunk_type,
        ),
{
    let chunks = png.chunks();
    let mut names: Vec<String> = Vec::new();
    let mut i: usize = 0;
    while i < chunks.len()
        invariant
            i <= chunks.len(),
            chunk_models(chunks@) == png@,
            names@.len() == i,
            forall|j: int| 0 <= j < i ==> (#[trigger] names@[j])@ == latin1(
                png@[j].chunk_type,
            ),
        decreases chunks.len() - i,
    {
        names.push(chunks[i].chunk_type().to_string());
        i += 1;
    }
    names
}

/// Removes the chunks of a type from the file whose bytes are `png_bytes`,
/// and gives the bytes of the new file. For each chunk of that type in the
/// file as it was read, the first chunk of that type that is left is
/// removed, so in the end none is left.
pub fn remove(args: &RemoveArgs, png_bytes: &[u8]) -> (r: Result<Vec<u8>, ChunkError>)
    ensures
        match r {
            Ok(out) => remove_output(png_bytes@, args.chunk_type@) == Ok::<Seq<u8>, ChunkError>(
                out@,
            ),
            Err(e) => remove_output(png_bytes@, args.chunk_type@) == Err::<Seq<u8>, ChunkError>(e),
        },
{
    let mut new_png = match Png::try_from(png_bytes) {
        Ok(png) => png,
        Err(e) => {
            return Err(e);
        },
    };
    let ghost read = new_png@;
    let ghost text = args.chunk_type@;
    let ghost kept = |c: ChunkModel| !has_type(c, text);
    let names = type_names(&new_png);
    let mut i: usize = 0;
    proof {
        reveal(Seq::filter);
        assert(new_png@ =~= read.take(0).filter(kept) + read.skip(0));
    }
    while i < names.len()
        invariant
            i <= names.len(),
            names@.len() == read.len(),
            text == args.chunk_type@,
            kept == |c: ChunkModel| !has_type(c, text),
            forall|j: int| 0 <= j < names@.len() ==> (#[trigger] names@[j])@ == latin1(
                read[j].chunk_type,
            ),
            new_png@ == read.take(i as int).filter(kept) + read.skip(i as int),
        decreases names.len() - i,
    {
        let ghost head = read.take(i as int).filter(kept);
        let ghost before = new_png@;
        proof {
            lemma_filter_take_step(read, kept, i as int);
            assert(before[head.len() as int] == read[i as int]);
        }
        if names[i] == args.chunk_type {
            proof {
                assert(has_type(read[i as int], text));
                assert forall|j: int| 0 <= j < head.len() implies !has_type(
                    #[trigger] before[j],
                    text,
                ) by {
                    assert(before[j] == head[j]);
                    read.take(i as int).lemma_filter_pred(kept, j);
                }
                assert(is_first_of_type(before, text, head.len() as int));
                assert(before.remove(head.len() as int) =~= head + read.skip(i + 1));
            }
            new_png.remove_first_chunk(args.chunk_type.as_str());
        } else {
            assert(before =~= head.push(read[i as int]) + read.skip(i + 1));
        }
        i += 1;
    }
    assert(read.take(i as int) =~= read);
    assert(new_png@ =~= without_type(read, text));
    Ok(new_png.as_bytes())
}

/// Gives a line to show for each chunk of the file whose bytes are
/// `png_bytes`.
pub fn print_chunks(png_bytes: &[u8]) -> (r: Result<Vec<String>, ChunkError>)
    ensures
        match r {
            Ok(lines) => print_output(png_bytes@) == Ok::<Seq<Seq<char>>, ChunkError>(
                lines.deep_view(),
            ),
            Err(e) => print_output(png_bytes@) == Err::<Seq<Seq<char>>, ChunkError>(e),
        },
{
    let png = match Png::try_from(png_bytes) {
        Ok(png) => png,
        Err(e) => {
            return Err(e);
        },
    };
    let chunks = png.chunks();
    let ghost shown = |c: ChunkModel| chunk_line(c);
    let mut lines: Vec<String> = Vec::new();
    let mut i: usize = 0;
    assert(lines.deep_view() =~= png@.take(0).map_values(shown));
    while i < chunks.len()
        invariant
            i <= chunks.len(),
            chunk_models(chunks@) == png@,
            shown == |c: ChunkModel| chunk_line(c),
            lines.deep_view() == png@.take(i as int).map_values(shown),
        decreases chunks.len() - i,
    {
        let line = line_of("chunk:  ", &chunks[i]);
        let ghost before = lines.deep_view();
        lines.push(line);
        assert(lines.deep_view() =~= before.push(line@));
        i += 1;
        assert(png@.take(i as int).map_values(shown) =~= before.push(chunk_line(png@[i - 1])));
    }
    assert(png@.take(i as int) =~= png@);
    Ok(lines)
}

} // verus!
