use crate::error::ChunkError;
use crate::text::{latin1, push_latin1};
use vstd::prelude::*;
use vstd::std_specs::cmp::PartialEqSpecImpl;
use vstd::std_specs::convert::TryFromSpecImpl;
use std::str::FromStr;
use vstd::string::StringSliceAdditionalSpecFns;

verus! {

/// Whether `b` is one of `A`..=`Z` or `a`..=`z`.
pub open spec fn is_ascii_letter(b: u8) -> bool {
    (65 <= b <= 90) || (97 <= b <= 122)
}

/// Whether every byte of `s` is an ASCII letter.
pub open spec fn all_letters(s: Seq<u8>) -> bool {
    forall|i: int| 0 <= i < s.len() ==> is_ascii_letter(#[trigger] s[i])
}

/// Whether `s` can be the code of a chunk type: four ASCII letters.
pub open spec fn is_type_code(s: Seq<u8>) -> bool {
    s.len() == 4 && all_letters(s)
}

/// Whether bit 5 of `b`, the bit that is worth 32, is clear. For a letter
/// this is the case exactly when it is upper case.
pub open spec fn bit5_clear(b: u8) -> bool {
    (b / 32) % 2 == 0
}

/// Tells whether bit 5 of a byte is clear.
pub fn is_bit5_clear(b: u8) -> (r: bool)
    ensures
        r == bit5_clear(b),
{
    assert((b & 32 == 0) <==> ((b / 32) % 2 == 0)) by (bit_vector);
    b & 32 == 0
}

/// Tells whether a byte is an ASCII letter.
pub fn is_letter(b: u8) -> (r: bool)
    ensures
        r == is_ascii_letter(b),
{
    (65 <= b && b <= 90) || (97 <= b && b <= 122)
}

/// Tells whether all four bytes are ASCII letters.
pub fn is_letters(arr: &[u8; 4]) -> (r: bool)
    ensures
        r == all_letters(arr@),
{
    let mut i: usize = 0;
    while i < 4
        invariant
            i <= 4,
            forall|j: int| 0 <= j < i ==> is_ascii_letter(#[trigger] arr@[j]),
        decreases 4 - i,
    {
        if !is_letter(arr[i]) {
            return false;
        }
        i += 1;
    }
    true
}

/// A four-letter chunk type.
#[derive(Debug, Copy, Clone)]
pub struct ChunkType {
    chunk_type_code: [u8; 4],
}

impl View for ChunkType {
    type V = Seq<u8>;

    closed spec fn view(&self) -> Seq<u8> {
        self.chunk_type_code@
    }
}

impl PartialEq for ChunkType {
    fn eq(&self, other: &Self) -> (r: bool) {
        let same = self.chunk_type_code[0] == other.chunk_type_code[0]
            && self.chunk_type_code[1] == other.chunk_type_code[1]
            && self.chunk_type_code[2] == other.chunk_type_code[2]
            && self.chunk_type_code[3] == other.chunk_type_code[3];
        proof {
            if same {
                assert(self@ =~= other@);
            }
        }
        same
    }
}

impl Eq for ChunkType {

}

impl PartialEqSpecImpl for ChunkType {
    open spec fn obeys_eq_spec() -> bool {
        true
    }

    open spec fn eq_spec(&self, other: &Self) -> bool {
        self@ == other@
    }
}

impl ChunkType {
    /// The invariant of the type: the code is four ASCII letters.
    #[verifier::type_invariant]
    pub open spec fn wf(self) -> bool {
        is_type_code(self@)
    }

    /// Whether the chunk is critical: bit 5 of the first byte is clear.
    pub fn is_critical(&self) -> (r: bool)
        ensures
            r == bit5_clear(self@[0]),
    {
        is_bit5_clear(self.chunk_type_code[0])
    }

    /// Whether the chunk is public: bit 5 of the second byte is clear.
    pub fn is_public(&self) -> (r: bool)
        ensures
            r == bit5_clear(self@[1]),
    {
        is_bit5_clear(self.chunk_type_code[1])
    }

    /// Whether the reserved bit, bit 5 of the third byte, is clear.
    pub fn is_reserved_bit_valid(&self) -> (r: bool)
        ensures
            r == bit5_clear(self@[2]),
    {
        is_bit5_clear(self.chunk_type_code[2])
    }

    /// Whether the chunk is safe to copy: bit 5 of the fourth byte is set.
    pub fn is_safe_to_copy(&self) -> (r: bool)
        ensures
            r == !bit5_clear(self@[3]),
    {
        !is_bit5_clear(self.chunk_type_code[3])
    }

    /// Whether the type is four ASCII letters with the reserved bit clear.
    pub fn is_valid(&self) -> (r: bool)
        ensures
            r == (is_type_code(self@) && bit5_clear(self@[2])),
            is_type_code(self@),
    {
        proof {
            use_type_invariant(self);
        }
        if !is_letters(&self.chunk_type_code) {
            return false;
        }
        self.is_reserved_bit_valid()
    }

    /// The type as text: its four letters.
    pub fn to_string(&self) -> (r: String)
        ensures
            r@ == latin1(self@),
            r@.len() == 4,
    {
        proof {
            use_type_invariant(self);
        }
        let mut s = String::new();
        push_latin1(&mut s, self.chunk_type_code.as_slice());
        assert(s@ =~= latin1(self@));
        s
    }

    /// The four bytes of the type.
    pub fn bytes(&self) -> (r: [u8; 4])
        ensures
            r@ == self@,
            is_type_code(self@),
    {
        proof {
            use_type_invariant(self);
        }
        self.chunk_type_code
    }
}

impl TryFrom<[u8; 4]> for ChunkType {
    type Error = ChunkError;

    /// Accepts the four bytes exactly when each is an ASCII letter.
    fn try_from(arr: [u8; 4]) -> (r: Result<Self, Self::Error>)
        ensures
            match r {
                Ok(c) => all_letters(arr@) && c@ == arr@,
                Err(e) => !all_letters(arr@) && e == ChunkError::TypeCodeError,
            },
    {
        if !is_letters(&arr) {
            return Err(ChunkError::TypeCodeError);
        }
        Ok(ChunkType { chunk_type_code: arr })
    }
}

impl TryFromSpecImpl<[u8; 4]> for ChunkType {
    open spec fn obeys_try_from_spec() -> bool {
        true
    }

    closed spec fn try_from_spec(arr: [u8; 4]) -> Result<Self, ChunkError> {
        if all_letters(arr@) {
            Ok(ChunkType { chunk_type_code: arr })
        } else {
            Err(ChunkError::TypeCodeError)
        }
    }
}

impl FromStr for ChunkType {
    type Err = ChunkError;

    /// Accepts the text exactly when it is four ASCII letters.
    fn from_str(s: &str) -> (r: Result<Self, Self::Err>)
        ensures
            match r {
                Ok(c) => is_type_code(s.spec_bytes()) && c@ == s.spec_bytes(),
                Err(e) => !is_type_code(s.spec_bytes()) && e == ChunkError::FormatError,
            },
    {
        if s.len() != 4 {
            return Err(ChunkError::FormatError);
        }
        let bytes = s.as_bytes();
        let arr: [u8; 4] = [bytes[0], bytes[1], bytes[2], bytes[3]];
        assert(arr@ =~= s.spec_bytes());
        if !is_letters(&arr) {
            return Err(ChunkError::FormatError);
        }
        Ok(ChunkType { chunk_type_code: arr })
    }
}

} // verus!
