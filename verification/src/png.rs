use crate::chunk::{decode_chunk, Chunk, ChunkModel};
use crate::error::ChunkError;
use crate::text::latin1;
use crate::wire::{be_u32, u32_from_be};
use vstd::prelude::*;
use vstd::std_specs::convert::TryFromSpecImpl;

verus! {

/// The eight bytes that every PNG file starts with.
pub open spec fn signature() -> Seq<u8> {
    seq![137u8, 80u8, 78u8, 71u8, 13u8, 10u8, 26u8, 10u8]
}

/// Whether every chunk of the sequence keeps the invariant of a chunk.
pub open spec fn all_wf(chunks: Seq<ChunkModel>) -> bool {
    forall|i: int| 0 <= i < chunks.len() ==> (#[trigger] chunks[i]).wf()
}

/// The models of a sequence of chunks, in the same order.
pub open spec fn chunk_models(chunks: Seq<Chunk>) -> Seq<ChunkModel> {
    Seq::new(chunks.len(), |i: int| chunks[i]@)
}

/// The records of the chunks, one after the other.
pub open spec fn encode_chunks(chunks: Seq<ChunkModel>) -> Seq<u8>
    decreases chunks.len(),
{
    if chunks.len() == 0 {
        Seq::empty()
    } else {
        chunks[0].encode() + encode_chunks(chunks.skip(1))
    }
}

/// A whole file: the signature, then the records of the chunks.
pub open spec fn encode_png(chunks: Seq<ChunkModel>) -> Seq<u8> {
    signature() + encode_chunks(chunks)
}

/// Where the first record of `bytes` ends: where its header says, or at the
/// end of the input if that comes first.
pub open spec fn record_end(bytes: Seq<u8>) -> int {
    if bytes.len() >= 8 && 12 + be_u32(bytes.subrange(0, 4)) <= bytes.len() {
        12 + be_u32(bytes.subrange(0, 4))
    } else {
        bytes.len() as int
    }
}

/// Puts the chunks already decoded before the result for the rest.
pub open spec fn after(
    done: Seq<ChunkModel>,
    rest: Result<Seq<ChunkModel>, ChunkError>,
) -> Result<Seq<ChunkModel>, ChunkError> {
    match rest {
        Ok(chunks) => Ok(done + chunks),
        Err(e) => Err(e),
    }
}

/// What decoding records until the input is used up gives: the chunks in
/// the order met, or the error of the first record that is malformed.
pub open spec fn decode_chunks(bytes: Seq<u8>) -> Result<Seq<ChunkModel>, ChunkError>
    decreases bytes.len(),
{
    if bytes.len() == 0 {
        Ok(Seq::empty())
    } else {
        match decode_chunk(bytes.take(record_end(bytes))) {
            Ok(first) => after(seq![first], decode_chunks(bytes.skip(record_end(bytes)))),
            Err(e) => Err(e),
        }
    }
}

/// What decoding a whole file gives. An input that does not start with the
/// signature, or is shorter than it, is a signature mismatch.
pub open spec fn decode_png(bytes: Seq<u8>) -> Result<Seq<ChunkModel>, ChunkError> {
    if bytes.len() < 8 || bytes.take(8) != signature() {
        Err(ChunkError::SignatureMismatch)
    } else {
        decode_chunks(bytes.skip(8))
    }
}

/// Whether the type of the chunk, as text, reads `text`.
pub open spec fn has_type(chunk: ChunkModel, text: Seq<char>) -> bool {
    latin1(chunk.chunk_type) == text
}

/// Whether the chunk at `i` is the first of `chunks` whose type reads `text`.
pub open spec fn is_first_of_type(chunks: Seq<ChunkModel>, text: Seq<char>, i: int) -> bool {
    &&& 0 <= i < chunks.len()
    &&& has_type(chunks[i], text)
    &&& forall|j: int| 0 <= j < i ==> !has_type(#[trigger] chunks[j], text)
}

/// Whether no chunk of `chunks` has a type that reads `text`.
pub open spec fn none_of_type(chunks: Seq<ChunkModel>, text: Seq<char>) -> bool {
    forall|j: int| 0 <= j < chunks.len() ==> !has_type(#[trigger] chunks[j], text)
}

/// A PNG file: the signature and the chunks that follow it, in file order.
#[derive(Debug)]
pub struct Png {
    chunks: Vec<Chunk>,
}

impl View for Png {
    type V = Seq<ChunkModel>;

    closed spec fn view(&self) -> Seq<ChunkModel> {
        chunk_models(self.chunks@)
    }
}

impl Png {
    /// The invariant of the type: that of each chunk.
    #[verifier::type_invariant]
    pub open spec fn wf(self) -> bool {
        all_wf(self@)
    }

    /// The signature of a PNG file.
    pub const STANDARD_HEADER: [u8; 8] = [137, 80, 78, 71, 13, 10, 26, 10];

    /// A file without chunks.
    pub fn new() -> (png: Png)
        ensures
            png@ == Seq::<ChunkModel>::empty(),
    {
        let png = Png { chunks: Vec::new() };
        assert(png@ =~= Seq::<ChunkModel>::empty());
        png
    }

    /// The signature.
    pub fn header(&self) -> (r: [u8; 8])
        ensures
            r@ == signature(),
    {
        let r = Png::STANDARD_HEADER;
        assert(r@ =~= signature());
        r
    }

    /// The chunks, in file order.
    pub fn chunks(&self) -> (r: &[Chunk])
        ensures
            chunk_models(r@) == self@,
            all_wf(self@),
    {
        proof {
            use_type_invariant(self);
        }
        self.chunks.as_slice()
    }

    /// Removes the first chunk whose type, as text, is `chunk_type`. The
    /// later chunks of that type stay. Where there is none, nothing changes.
    pub fn remove_first_chunk(&mut self, chunk_type: &str)
        ensures
            forall|i: int|
                is_first_of_type(old(self)@, chunk_type@, i) ==> final(self)@ == old(self)@.remove(
                    i,
                ),
            none_of_type(old(self)@, chunk_type@) ==> final(self)@ == old(self)@,
            final(self)@.len() <= old(self)@.len(),
    {
        proof {
            use_type_invariant(&*self);
        }
        let wanted: String = chunk_type.to_owned();
        let mut i: usize = 0;
        while i < self.chunks.len()
            invariant
                i <= self.chunks.len(),
                *self == *old(self),
                all_wf(self@),
                wanted@ == chunk_type@,
                forall|j: int| 0 <= j < i ==> !has_type(#[trigger] self@[j], chunk_type@),
            decreases self.chunks.len() - i,
        {
            let name = self.chunks[i].chunk_type().to_string();
            if name == wanted {
                assert(has_type(self@[i as int], chunk_type@));
                let mut chunks: Vec<Chunk> = Vec::new();
                core::mem::swap(&mut self.chunks, &mut chunks);
                let _ = chunks.remove(i);
                assert(chunk_models(chunks@) =~= old(self)@.remove(i as int));
                self.chunks = chunks;
                return ;
            }
            assert(!has_type(self@[i as int], chunk_type@));
            i += 1;
        }
    }

    /// The whole file: the signature, then each chunk's record, in order.
    pub fn as_bytes(&self) -> (r: Vec<u8>)
        ensures
            r@ == encode_png(self@),
            all_wf(self@),
    {
        proof {
            use_type_invariant(self);
        }
        let mut res: Vec<u8> = Vec::new();
        let header = Png::STANDARD_HEADER;
        res.extend_from_slice(header.as_slice());
        assert(res@ =~= signature());
        assert(self@.skip(0) =~= self@);
        let mut i: usize = 0;
        while i < self.chunks.len()
            invariant
                i <= self.chunks.len(),
                res@ + encode_chunks(self@.skip(i as int)) == encode_png(self@),
            decreases self.chunks.len() - i,
        {
            let record = self.chunks[i].as_bytes();
            let ghost before = res@;
            proof {
                let rest = self@.skip(i as int);
                assert(rest[0] == self.chunks@[i as int]@);
                assert(rest.skip(1) =~= self@.skip(i + 1));
                assert(res@ + (record@ + encode_chunks(rest.skip(1))) =~= (res@ + record@)
                    + encode_chunks(rest.skip(1)));
            }
            res.extend_from_slice(record.as_slice());
            i += 1;
            assert(res@ =~= before + record@);
        }
        assert(res@ =~= res@ + encode_chunks(self@.skip(i as int)));
        res
    }

    /// Puts a chunk at the end. Nothing is done about chunks of the same
    /// type that are already there.
    pub fn append_chunk(&mut self, chunk: Chunk)
        ensures
            final(self)@ == old(self)@.push(chunk@),
    {
        proof {
            use_type_invariant(&*self);
            use_type_invariant(&chunk);
        }
        let mut chunks: Vec<Chunk> = Vec::new();
        core::mem::swap(&mut self.chunks, &mut chunks);
        chunks.push(chunk);
        assert(chunk_models(chunks@) =~= old(self)@.push(chunk@));
        self.chunks = chunks;
    }
}

/// `try_from` states its result itself, over the model of the file. A file
/// owns a vector, which no specification can build, so the result is not
/// given a second time as a value.
impl TryFromSpecImpl<&[u8]> for Png {
    open spec fn obeys_try_from_spec() -> bool {
        false
    }

    open spec fn try_from_spec(bytes: &[u8]) -> Result<Self, ChunkError> {
        match decode_png(bytes@) {
            Ok(chunks) => Ok(choose|png: Png| png@ == chunks),
            Err(e) => Err(e),
        }
    }
}

/// Tells whether `bytes` starts with the signature.
fn starts_with_signature(bytes: &[u8]) -> (r: bool)
    ensures
        r == (bytes@.len() >= 8 && bytes@.take(8) == signature()),
{
    if bytes.len() < 8 {
        return false;
    }
    let header = Png::STANDARD_HEADER;
    let mut i: usize = 0;
    while i < 8
        invariant
            i <= 8,
            bytes@.len() >= 8,
            header@ == signature(),
            forall|j: int| 0 <= j < i ==> bytes@[j] == signature()[j],
        decreases 8 - i,
    {
        if bytes[i] != header[i] {
            assert(bytes@.take(8)[i as int] != signature()[i as int]);
            return false;
        }
        i += 1;
    }
    assert(bytes@.take(8) =~= signature());
    true
}

impl TryFrom<&[u8]> for Png {
    type Error = ChunkError;

    /// Decodes a whole file: checks the signature, then decodes record
    /// after record until the input is used up.
    fn try_from(bytes: &[u8]) -> (r: Result<Self, Self::Error>)
        ensures
            match r {
                Ok(png) => decode_png(bytes@) == Ok::<Seq<ChunkModel>, ChunkError>(png@),
                Err(e) => decode_png(bytes@) == Err::<Seq<ChunkModel>, ChunkError>(e),
            },
    {
        if !starts_with_signature(bytes) {
            return Err(ChunkError::SignatureMismatch);
        }
        let mut chunks: Vec<Chunk> = Vec::new();
        let mut pos: usize = 8;
        assert(bytes@.skip(8).len() == bytes@.len() - 8);
        while pos < bytes.len()
            invariant
                8 <= pos <= bytes.len(),
                all_wf(chunk_models(chunks@)),
                decode_png(bytes@) == after(
                    chunk_models(chunks@),
                    decode_chunks(bytes@.skip(pos as int)),
                ),
            decreases bytes.len() - pos,
        {
            let ghost rest = bytes@.skip(pos as int);
            let remaining = bytes.len() - pos;
            let mut end = bytes.len();
            if remaining >= 12 {
                let length = u32_from_be(
                    [bytes[pos], bytes[pos + 1], bytes[pos + 2], bytes[pos + 3]],
                );
                assert(seq![bytes@[pos as int], bytes@[pos + 1], bytes@[pos + 2], bytes@[pos + 3]]
                    =~= rest.subrange(0, 4));
                if remaining - 12 >= length as usize {
                    end = pos + 12 + length as usize;
                }
            }
            let record = &bytes[pos..end];
            assert(record@ =~= rest.take(record_end(rest))) by {
                if 8 <= remaining < 12 {
                    assert(12 + be_u32(rest.subrange(0, 4)) > rest.len());
                }
            }
            assert(rest.skip(record_end(rest)) =~= bytes@.skip(end as int));
            match Chunk::try_from(record) {
                Ok(chunk) => {
                    proof {
                        use_type_invariant(&chunk);
                        let done = chunk_models(chunks@);
                        let tail = decode_chunks(bytes@.skip(end as int));
                        assert(done.push(chunk@) =~= chunk_models(chunks@.push(chunk)));
                        assert(after(done, after(seq![chunk@], tail)) == after(
                            done.push(chunk@),
                            tail,
                        )) by {
                            if let Ok(more) = tail {
                                assert(done + (seq![chunk@] + more) =~= done.push(chunk@) + more);
                            }
                        }
                    }
                    chunks.push(chunk);
                    pos = end;
                },
                Err(e) => {
                    return Err(e);
                },
            }
        }
        let png = Png { chunks };
        assert(bytes@.skip(pos as int).len() == 0);
        assert(png@ =~= png@ + Seq::<ChunkModel>::empty());
        Ok(png)
    }
}

} // verus!
