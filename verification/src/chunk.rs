use crate::checksum::{checksum, crc32_iso_hdlc};
use crate::chunk_type::{all_letters, is_type_code, ChunkType};
use crate::error::ChunkError;
use crate::text::{decimal, latin1, push_decimal, push_latin1};
use crate::wire::{be_u32, u32_be_bytes, u32_from_be, u32_to_be};
use vstd::prelude::*;
use vstd::std_specs::convert::TryFromSpecImpl;
use vstd::string::StringExecFns;

verus! {

/// What a chunk is, as mathematics: the four values that stand in its record.
pub ghost struct ChunkModel {
    /// The declared number of data bytes.
    pub length: u32,
    /// The four bytes of the chunk type.
    pub chunk_type: Seq<u8>,
    /// The data.
    pub data: Seq<u8>,
    /// The stored checksum.
    pub crc: u32,
}

impl ChunkModel {
    /// The chunk that a type and data make: the length and the checksum
    /// are computed from them.
    pub open spec fn of(chunk_type: Seq<u8>, data: Seq<u8>) -> ChunkModel {
        ChunkModel {
            length: data.len() as u32,
            chunk_type,
            data,
            crc: crc32_iso_hdlc(chunk_type + data),
        }
    }

    /// The invariant of a record that was split into its fields: the type
    /// is four letters and the length is that of the data.
    pub open spec fn framed(self) -> bool {
        &&& is_type_code(self.chunk_type)
        &&& self.length == self.data.len()
    }

    /// The invariant of a chunk: that of a record, and the checksum is that
    /// of type and data.
    pub open spec fn wf(self) -> bool {
        &&& self.framed()
        &&& self.crc == crc32_iso_hdlc(self.chunk_type + self.data)
    }

    /// The record of the chunk: length, type, data, checksum; both numbers
    /// big-endian.
    pub open spec fn encode(self) -> Seq<u8> {
        u32_be_bytes(self.length) + self.chunk_type + self.data + u32_be_bytes(self.crc)
    }
}

/// What the bytes of one record say, before the checksum is looked at, and
/// the error for each way their layout can be wrong. The checks come in this
/// order: a header of eight bytes must be there; the type must be four
/// letters; the bytes after the header must be the declared number of data
/// bytes and four more.
pub open spec fn frame_record(raw: Seq<u8>) -> Result<ChunkModel, ChunkError> {
    if raw.len() < 8 {
        Err(ChunkError::TruncatedInput)
    } else {
        let length = be_u32(raw.subrange(0, 4));
        let chunk_type = raw.subrange(4, 8);
        if !all_letters(chunk_type) {
            Err(ChunkError::TypeCodeError)
        } else if raw.len() < 12 + length {
            Err(ChunkError::TruncatedInput)
        } else if raw.len() > 12 + length {
            Err(ChunkError::LengthMismatch)
        } else {
            Ok(
                ChunkModel {
                    length,
                    chunk_type,
                    data: raw.subrange(8, 8 + length),
                    crc: be_u32(raw.subrange(8 + length, 12 + length)),
                },
            )
        }
    }
}

/// Whether a stored checksum is accepted, given the checksum computed for
/// the type and data it stands with.
pub open spec fn check_crc(stored: u32, computed: u32) -> Result<(), ChunkError> {
    if stored == computed {
        Ok(())
    } else {
        Err(ChunkError::ChecksumMismatch)
    }
}

/// What decoding one record gives: what its bytes say, if the layout is
/// right and the stored checksum is that of type and data.
pub open spec fn decode_chunk(raw: Seq<u8>) -> Result<ChunkModel, ChunkError> {
    match frame_record(raw) {
        Ok(record) => match check_crc(
            record.crc,
            crc32_iso_hdlc(record.chunk_type + record.data),
        ) {
            Ok(_) => Ok(record),
            Err(e) => Err(e),
        },
        Err(e) => Err(e),
    }
}

/// The summary of a chunk for a reader: its length, type, number of data
/// bytes, data as text, and checksum, a line each.
pub open spec fn chunk_text(chunk: ChunkModel) -> Seq<char> {
    "Chunk {\n  Length: "@ + decimal(chunk.length as nat)
        + "\n  Type: "@ + latin1(chunk.chunk_type)
        + "\n  Data: "@ + decimal(chunk.data.len()) + " bytes"@
        + "\n  detail: "@ + latin1(chunk.data)
        + "\n  Crc: "@ + decimal(chunk.crc as nat)
        + "\n}\n"@
}

/// One record split into its fields: what the bytes say. Its layout has
/// been checked, its checksum has not.
#[derive(Debug)]
pub struct Record {
    length: u32,
    chunk_type: ChunkType,
    data: Vec<u8>,
    crc: u32,
}

impl View for Record {
    type V = ChunkModel;

    closed spec fn view(&self) -> ChunkModel {
        ChunkModel {
            length: self.length,
            chunk_type: self.chunk_type@,
            data: self.data@,
            crc: self.crc,
        }
    }
}

impl Record {
    /// The invariant of the type: the type is four letters and the length
    /// is that of the data.
    #[verifier::type_invariant]
    pub open spec fn wf(self) -> bool {
        self@.framed()
    }

    /// Splits the bytes of one record into its fields. The slice must hold
    /// the record and nothing else.
    pub fn parse(raw: &[u8]) -> (r: Result<Record, ChunkError>)
        ensures
            match r {
                Ok(record) => frame_record(raw@) == Ok::<ChunkModel, ChunkError>(record@),
                Err(e) => frame_record(raw@) == Err::<ChunkModel, ChunkError>(e),
            },
    {
        if raw.len() < 8 {
            return Err(ChunkError::TruncatedInput);
        }
        let length = u32_from_be([raw[0], raw[1], raw[2], raw[3]]);
        let code: [u8; 4] = [raw[4], raw[5], raw[6], raw[7]];
        proof {
            assert(seq![raw@[0], raw@[1], raw@[2], raw@[3]] =~= raw@.subrange(0, 4));
            assert(code@ =~= raw@.subrange(4, 8));
        }
        let chunk_type = match ChunkType::try_from(code) {
            Ok(chunk_type) => chunk_type,
            Err(_) => {
                return Err(ChunkError::TypeCodeError);
            },
        };
        if raw.len() < 12 {
            return Err(ChunkError::TruncatedInput);
        }
        let available = raw.len() - 12;
        if available < length as usize {
            return Err(ChunkError::TruncatedInput);
        }
        if available > length as usize {
            return Err(ChunkError::LengthMismatch);
        }
        let end = 8 + available;
        let data = vstd::slice::slice_to_vec(&raw[8..end]);
        let crc = u32_from_be([raw[end], raw[end + 1], raw[end + 2], raw[end + 3]]);
        proof {
            assert(seq![raw@[end as int], raw@[end + 1], raw@[end + 2], raw@[end + 3]]
                =~= raw@.subrange(8 + length, 12 + length));
        }
        Ok(Record { length, chunk_type, data, crc })
    }

    /// The declared number of data bytes, which is the number there is.
    pub fn length(&self) -> (r: u32)
        ensures
            r == self@.length,
            r == self@.data.len(),
    {
        proof {
            use_type_invariant(self);
        }
        self.length
    }

    /// The type.
    pub fn chunk_type(&self) -> (r: ChunkType)
        ensures
            r@ == self@.chunk_type,
    {
        self.chunk_type
    }

    /// The data.
    pub fn data(&self) -> (r: &[u8])
        ensures
            r@ == self@.data,
    {
        self.data.as_slice()
    }

    /// The stored checksum.
    pub fn crc(&self) -> (r: u32)
        ensures
            r == self@.crc,
    {
        self.crc
    }

    /// Accepts or rejects the stored checksum, given the checksum computed
    /// for the record's type and data.
    pub fn verify(&self, computed: u32) -> (r: Result<(), ChunkError>)
        ensures
            r == check_crc(self@.crc, computed),
    {
        if self.crc != computed {
            return Err(ChunkError::ChecksumMismatch);
        }
        Ok(())
    }
}

/// One chunk of a PNG file.
#[derive(Debug)]
pub struct Chunk {
    data_length: u32,
    chunk_type: ChunkType,
    data: Vec<u8>,
    crc: u32,
}

impl View for Chunk {
    type V = ChunkModel;

    closed spec fn view(&self) -> ChunkModel {
        ChunkModel {
            length: self.data_length,
            chunk_type: self.chunk_type@,
            data: self.data@,
            crc: self.crc,
        }
    }
}

/// The bytes that the checksum of a chunk is taken over: type, then data.
fn crc_input(chunk_type: &ChunkType, data: &[u8]) -> (v: Vec<u8>)
    ensures
        v@ == chunk_type@ + data@,
{
    let code = chunk_type.bytes();
    let mut v: Vec<u8> = Vec::new();
    let mut i: usize = 0;
    while i < 4
        invariant
            i <= 4,
            code@ == chunk_type@,
            code@.len() == 4,
            v@ == code@.subrange(0, i as int),
        decreases 4 - i,
    {
        v.push(code[i]);
        i += 1;
    }
    v.extend_from_slice(data);
    assert(v@ =~= chunk_type@ + data@);
    v
}

impl Chunk {
    /// The invariant of the type: that of its model.
    #[verifier::type_invariant]
    pub open spec fn wf(self) -> bool {
        self@.wf()
    }

    /// The number of bytes of the length field.
    pub const DATA_LENGTH_BYTES: usize = 4;

    /// The number of bytes of the type field.
    pub const CHUNK_TYPE_BYTES: usize = 4;

    /// The number of bytes of the checksum field.
    pub const CRC_BYTES: usize = 4;

    /// Makes a chunk of the given type and data, and computes its length
    /// and checksum.
    pub fn new(chunk_type: ChunkType, data: Vec<u8>) -> (chunk: Chunk)
        requires
            data@.len() <= u32::MAX,
        ensures
            chunk@ == ChunkModel::of(chunk_type@, data@),
            chunk@.wf(),
    {
        let length = data.len() as u32;
        let bytes_for_crc = crc_input(&chunk_type, data.as_slice());
        let crc = checksum(bytes_for_crc.as_slice());
        proof {
            use_type_invariant(&chunk_type);
        }
        Chunk { data_length: length, chunk_type, data, crc }
    }

    /// The number of data bytes.
    pub fn length(&self) -> (r: u32)
        ensures
            r == self@.length,
            r == self@.data.len(),
    {
        proof {
            use_type_invariant(self);
        }
        self.data_length
    }

    /// The checksum of type and data.
    pub fn crc(&self) -> (r: u32)
        ensures
            r == self@.crc,
            r == crc32_iso_hdlc(self@.chunk_type + self@.data),
    {
        proof {
            use_type_invariant(self);
        }
        self.crc
    }

    /// The data.
    pub fn data(&self) -> (r: &[u8])
        ensures
            r@ == self@.data,
    {
        self.data.as_slice()
    }

    /// The type.
    pub fn chunk_type(&self) -> (r: ChunkType)
        ensures
            r@ == self@.chunk_type,
    {
        self.chunk_type
    }

    /// The data as text, each byte taken as the character with that code
    /// point. The data is not read as UTF-8. Never fails.
    pub fn data_as_string(&self) -> (r: Result<String, ChunkError>)
        ensures
            r is Ok,
            r->Ok_0@ == latin1(self@.data),
    {
        let mut res = String::new();
        push_latin1(&mut res, self.data.as_slice());
        assert(res@ =~= latin1(self@.data));
        Ok(res)
    }

    /// The summary of the chunk for a reader.
    pub fn to_string(&self) -> (r: String)
        ensures
            r@ == chunk_text(self@),
    {
        let mut s = String::new();
        s.append("Chunk {\n  Length: ");
        push_decimal(&mut s, self.data_length as u64);
        s.append("\n  Type: ");
        let code = self.chunk_type.bytes();
        push_latin1(&mut s, code.as_slice());
        s.append("\n  Data: ");
        push_decimal(&mut s, self.data.len() as u64);
        s.append(" bytes");
        s.append("\n  detail: ");
        push_latin1(&mut s, self.data.as_slice());
        s.append("\n  Crc: ");
        push_decimal(&mut s, self.crc as u64);
        s.append("\n}\n");
        assert(s@ =~= chunk_text(self@));
        s
    }

    /// The record of the chunk, as it stands in a file.
    pub fn as_bytes(&self) -> (r: Vec<u8>)
        ensures
            r@ == self@.encode(),
            r@.len() == 12 + self@.data.len(),
            self@.wf(),
    {
        proof {
            use_type_invariant(self);
            use_type_invariant(&self.chunk_type);
        }
        let mut res: Vec<u8> = Vec::new();
        let length_bytes = u32_to_be(self.data_length);
        res.extend_from_slice(length_bytes.as_slice());
        let code = self.chunk_type.bytes();
        res.extend_from_slice(code.as_slice());
        res.extend_from_slice(self.data.as_slice());
        let crc_bytes = u32_to_be(self.crc);
        res.extend_from_slice(crc_bytes.as_slice());
        assert(res@ =~= self@.encode());
        res
    }

    /// Whether the chunk carries no data.
    pub fn is_none(&self) -> (r: bool)
        ensures
            r == (self@.data.len() == 0),
    {
        self.length() == 0
    }
}

impl Clone for Chunk {
    /// A chunk with the same length, type, data and checksum.
    fn clone(&self) -> (r: Self)
        ensures
            r@ == self@,
    {
        proof {
            use_type_invariant(self);
        }
        let data = self.data.clone();
        assert(data@ =~= self.data@);
        Chunk { data_length: self.data_length, chunk_type: self.chunk_type, data, crc: self.crc }
    }
}

/// `try_from` states its result itself, over the model of the chunk. A
/// chunk owns a vector, which no specification can build, so the result is
/// not given a second time as a value.
impl TryFromSpecImpl<&[u8]> for Chunk {
    open spec fn obeys_try_from_spec() -> bool {
        false
    }

    open spec fn try_from_spec(raw: &[u8]) -> Result<Self, ChunkError> {
        match decode_chunk(raw@) {
            Ok(model) => Ok(choose|chunk: Chunk| chunk@ == model),
            Err(e) => Err(e),
        }
    }
}

impl TryFrom<&[u8]> for Chunk {
    type Error = ChunkError;

    /// Decodes one record: splits it into its fields, computes the checksum
    /// of type and data, and holds the stored checksum against it. The slice
    /// must hold the record and nothing else.
    fn try_from(raw: &[u8]) -> (r: Result<Self, Self::Error>)
        ensures
            match r {
                Ok(chunk) => decode_chunk(raw@) == Ok::<ChunkModel, ChunkError>(chunk@),
                Err(e) => decode_chunk(raw@) == Err::<ChunkModel, ChunkError>(e),
            },
    {
        let record = match Record::parse(raw) {
            Ok(record) => record,
            Err(e) => {
                return Err(e);
            },
        };
        let bytes_for_crc = crc_input(&record.chunk_type, record.data.as_slice());
        let crc_should_be = checksum(bytes_for_crc.as_slice());
        if let Err(e) = record.verify(crc_should_be) {
            return Err(e);
        }
        Ok(
            Chunk {
                data_length: record.length,
                chunk_type: record.chunk_type,
                data: record.data,
                crc: record.crc,
            },
        )
    }
}

} // verus!
