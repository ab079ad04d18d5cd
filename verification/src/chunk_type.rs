//! The four-letter tag that names a record's kind and carries its property
//! flags in the case of its letters.

use vstd::prelude::*;

use vstd::pervasive::unreached;
use vstd::string::StringSliceAdditionalSpecFns;

use crate::bytes::copy_bytes;
use crate::error::ChunkError;
use crate::text::{ascii_text, lemma_ascii_is_utf8};

verus! {

/// Whether `b` is the code of an ASCII letter, upper or lower case.
pub open spec fn is_ascii_letter(b: u8) -> bool {
    (65 <= b <= 90) || (97 <= b <= 122)
}

/// Whether `s` may serve as a tag: four bytes, each an ASCII letter.
pub open spec fn valid_tag(s: Seq<u8>) -> bool {
    &&& s.len() == 4
    &&& forall|i: int| 0 <= i < 4 ==> is_ascii_letter(#[trigger] s[i])
}

/// Whether the byte at `pos` of `s` counts as upper case.
pub open spec fn upper_at(s: Seq<u8>, pos: int) -> bool {
    s[pos] <= 90
}

/// A validated four-byte tag. Its view is the sequence of its bytes.
#[derive(Debug)]
pub struct ChunkType {
    bytes: [u8; 4],
}

impl View for ChunkType {
    type V = Seq<u8>;

    closed spec fn view(&self) -> Seq<u8> {
        self.bytes@
    }
}

impl ChunkType {
    #[verifier::type_invariant]
    closed spec fn all_letters(&self) -> bool {
        valid_tag(self@)
    }

    /// The four bytes of the tag.
    pub fn bytes(&self) -> (out: [u8; 4])
        ensures
            out@ == self@,
            valid_tag(out@),
    {
        proof {
            use_type_invariant(self);
        }
        self.bytes
    }

    /// Whether the tag is valid in the narrow sense of the format: its reserved
    /// bit is.
    pub fn is_valid(&self) -> (valid: bool)
        ensures
            valid == upper_at(self@, 2),
    {
        self.is_reserved_bit_valid()
    }

    /// Whether the record is critical: the first letter is upper case.
    pub fn is_critical(&self) -> (critical: bool)
        ensures
            critical == upper_at(self@, 0),
    {
        self.is_upper(0)
    }

    /// Whether the record is public: the second letter is upper case.
    pub fn is_public(&self) -> (public: bool)
        ensures
            public == upper_at(self@, 1),
    {
        self.is_upper(1)
    }

    /// Whether the reserved bit is valid: the third letter is upper case.
    pub fn is_reserved_bit_valid(&self) -> (valid: bool)
        ensures
            valid == upper_at(self@, 2),
    {
        self.is_upper(2)
    }

    /// Whether the record is safe to copy: the fourth letter is lower case.
    pub fn is_safe_to_copy(&self) -> (safe: bool)
        ensures
            safe == !upper_at(self@, 3),
    {
        !self.is_upper(3)
    }

    /// The tag as text, one character a byte.
    pub fn to_string(&self) -> (text: String)
        ensures
            text@ == ascii_text(self@),
    {
        proof {
            use_type_invariant(self);
            lemma_ascii_is_utf8(self@);
        }
        match String::from_utf8(copy_bytes(self.bytes.as_slice())) {
            Ok(text) => text,
            Err(_) => unreached(),
        }
    }

    fn is_upper(&self, pos: usize) -> (up: bool)
        requires
            pos < 4,
        ensures
            up == upper_at(self@, pos as int),
    {
        self.bytes[pos] <= 90
    }
}

/// The tag that holds exactly the bytes of `bytes`.
pub closed spec fn tag_of(bytes: [u8; 4]) -> ChunkType {
    ChunkType { bytes }
}

impl TryFrom<[u8; 4]> for ChunkType {
    type Error = ChunkError;

    /// Accepts four bytes as a tag when each is an ASCII letter, and rejects
    /// them as an invalid chunk type otherwise.
    fn try_from(bytes: [u8; 4]) -> (res: Result<Self, ChunkError>)
        ensures
            valid_tag(bytes@) ==> res is Ok && res->Ok_0@ == bytes@,
            !valid_tag(bytes@) ==> res == Err::<Self, ChunkError>(ChunkError::InvalidChunkType),
    {
        let mut i: usize = 0;
        while i < 4
            invariant
                i <= 4,
                forall|j: int| 0 <= j < i ==> is_ascii_letter(#[trigger] bytes@[j]),
            decreases 4 - i,
        {
            let b: u8 = bytes[i];
            if !((65 <= b && b <= 90) || (97 <= b && b <= 122)) {
                return Err(ChunkError::InvalidChunkType);
            }
            i += 1;
        }
        Ok(ChunkType { bytes })
    }
}

impl vstd::std_specs::convert::TryFromSpecImpl<[u8; 4]> for ChunkType {
    open spec fn obeys_try_from_spec() -> bool {
        true
    }

    open spec fn try_from_spec(bytes: [u8; 4]) -> Result<Self, ChunkError> {
        if valid_tag(bytes@) {
            Ok(tag_of(bytes))
        } else {
            Err(ChunkError::InvalidChunkType)
        }
    }
}

impl std::str::FromStr for ChunkType {
    type Err = ChunkError;

    /// Reads a tag from text of exactly four bytes, each an ASCII letter.
    fn from_str(s: &str) -> (res: Result<Self, ChunkError>)
        ensures
            s.spec_bytes().len() != 4 ==> res == Err::<Self, ChunkError>(
                ChunkError::WrongTagLength,
            ),
            s.spec_bytes().len() == 4 && !valid_tag(s.spec_bytes()) ==> res == Err::<
                Self,
                ChunkError,
            >(ChunkError::InvalidChunkType),
            valid_tag(s.spec_bytes()) ==> res is Ok && res->Ok_0@ == s.spec_bytes(),
    {
        let text: &[u8] = s.as_bytes();
        if text.len() != 4 {
            return Err(ChunkError::WrongTagLength);
        }
        let bytes: [u8; 4] = [text[0], text[1], text[2], text[3]];
        assert(bytes@ =~= text@);
        ChunkType::try_from(bytes)
    }
}

impl PartialEq for ChunkType {
    /// Two tags are equal when their four bytes are.
    fn eq(&self, other: &Self) -> (equal: bool) {
        let equal = self.bytes[0] == other.bytes[0] && self.bytes[1] == other.bytes[1]
            && self.bytes[2] == other.bytes[2] && self.bytes[3] == other.bytes[3];
        assert(equal == (self@ =~= other@));
        equal
    }
}

impl Eq for ChunkType {

}

impl vstd::std_specs::cmp::PartialEqSpecImpl for ChunkType {
    open spec fn obeys_eq_spec() -> bool {
        true
    }

    open spec fn eq_spec(&self, other: &Self) -> bool {
        self@ == other@
    }
}

} // verus!
