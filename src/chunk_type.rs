use vstd::prelude::*;
use vstd::string::*;
use vstd::utf8::{
    decode_utf8, encode_utf8, encode_utf8_decode_utf8, encode_utf8_valid_utf8, is_ascii_chars,
    is_ascii_chars_encode_utf8, valid_utf8,
};
use crate::error::PngError;
use crate::text::{lossy_string, lossy_text};

verus! {

/// An ASCII capital letter.
pub open spec fn is_upper(b: u8) -> bool {
    65 <= b <= 90
}

/// An ASCII small letter.
pub open spec fn is_lower(b: u8) -> bool {
    97 <= b <= 122
}

/// An ASCII letter.
pub open spec fn is_alpha(b: u8) -> bool {
    is_upper(b) || is_lower(b)
}

/// A character that is an ASCII letter.
pub open spec fn is_alpha_char(c: char) -> bool {
    ('A' <= c <= 'Z') || ('a' <= c <= 'z')
}

/// The text that names a chunk type: each of the four characters taken as a byte.
pub open spec fn text_bytes(s: Seq<char>) -> Seq<u8> {
    s.map_values(|c: char| c as u8)
}

/// What parsing a user-supplied chunk type name gives.
pub open spec fn parse_type_name(s: Seq<char>) -> Result<Seq<u8>, PngError> {
    if s.len() != 4 {
        Err(PngError::InvalidFormat)
    } else if !(forall|i: int| 0 <= i < 4 ==> is_alpha_char(#[trigger] s[i])) {
        Err(PngError::InvalidCharacters)
    } else {
        Ok(text_bytes(s))
    }
}

/// The text rendering of a chunk type's bytes.
pub open spec fn type_text(b: Seq<u8>) -> Seq<char> {
    lossy_text(b)
}

/// The four-byte code that names the kind of a chunk. Bit 5 of each byte (the
/// letter case) carries a property: critical, public, reserved, safe to copy.
#[derive(Debug, Clone, Copy, PartialEq, Eq)]
pub struct ChunkType {
    bytes: [u8; 4],
}

impl View for ChunkType {
    type V = Seq<u8>;

    closed spec fn view(&self) -> Seq<u8> {
        self.bytes@
    }
}

/// A chunk type always has four bytes.
pub broadcast proof fn lemma_chunk_type_len(t: ChunkType)
    ensures
        #[trigger] t@.len() == 4,
{
}

impl ChunkType {
    /// The chunk type with the given bytes, whatever they are.
    pub fn from_bytes(bytes: [u8; 4]) -> (r: ChunkType)
        ensures
            r@ == bytes@,
    {
        ChunkType { bytes }
    }

    /// The chunk type with the given bytes; never fails.
    pub fn try_from(bytes: [u8; 4]) -> (r: Result<ChunkType, PngError>)
        ensures
            r matches Ok(t) && t@ == bytes@,
    {
        Ok(ChunkType::from_bytes(bytes))
    }

    /// Parses a chunk type name given as text: exactly four ASCII letters.
    pub fn from_str(s: &str) -> (r: Result<ChunkType, PngError>)
        ensures
            r matches Ok(t) ==> parse_type_name(s@) == Ok::<Seq<u8>, PngError>(t@),
            r matches Err(e) ==> parse_type_name(s@) == Err::<Seq<u8>, PngError>(e),
    {
        let n = s.unicode_len();
        if n != 4 {
            return Err(PngError::InvalidFormat);
        }
        let mut bytes: [u8; 4] = [0u8; 4];
        let mut i: usize = 0;
        while i < 4
            invariant
                i <= 4,
                s@.len() == 4,
                forall|k: int| 0 <= k < i ==> is_alpha_char(#[trigger] s@[k]),
                forall|k: int| 0 <= k < i ==> bytes@[k] == #[trigger] s@[k] as u8,
            decreases 4 - i,
        {
            let c = s.get_char(i);
            if !(('A' <= c && c <= 'Z') || ('a' <= c && c <= 'z')) {
                return Err(PngError::InvalidCharacters);
            }
            bytes[i] = c as u8;
            i = i + 1;
        }
        let r = ChunkType { bytes };
        assert(r@ =~= text_bytes(s@));
        Ok(r)
    }

    /// The four bytes.
    pub fn bytes(&self) -> (r: [u8; 4])
        ensures
            r@ == self@,
    {
        self.bytes
    }

    /// Byte 0 is a capital letter.
    pub fn is_critical(&self) -> (r: bool)
        ensures
            r == is_upper(self@[0]),
    {
        self.bytes[0] >= 65 && self.bytes[0] <= 90
    }

    /// Byte 1 is a capital letter.
    pub fn is_public(&self) -> (r: bool)
        ensures
            r == is_upper(self@[1]),
    {
        self.bytes[1] >= 65 && self.bytes[1] <= 90
    }

    /// Byte 2 is a capital letter.
    pub fn is_reserved_bit_valid(&self) -> (r: bool)
        ensures
            r == is_upper(self@[2]),
    {
        self.bytes[2] >= 65 && self.bytes[2] <= 90
    }

    /// Byte 3 is a small letter.
    pub fn is_safe_to_copy(&self) -> (r: bool)
        ensures
            r == is_lower(self@[3]),
    {
        self.bytes[3] >= 97 && self.bytes[3] <= 122
    }

    /// The reserved bit is valid and all four bytes are ASCII letters.
    pub fn is_valid(&self) -> (r: bool)
        ensures
            r == (is_upper(self@[2]) && forall|i: int| 0 <= i < 4 ==> is_alpha(#[trigger] self@[i])),
    {
        let mut i: usize = 0;
        while i < 4
            invariant
                i <= 4,
                forall|k: int| 0 <= k < i ==> is_alpha(#[trigger] self@[k]),
            decreases 4 - i,
        {
            let b = self.bytes[i];
            if !((b >= 65 && b <= 90) || (b >= 97 && b <= 122)) {
                return false;
            }
            i = i + 1;
        }
        self.is_reserved_bit_valid()
    }

    /// The bytes rendered as text; bytes that are not UTF-8 become
    /// replacement characters.
    pub fn to_string(&self) -> (r: String)
        ensures
            r@ == type_text(self@),
            valid_utf8(self@) ==> r@ == decode_utf8(self@),
    {
        lossy_string(self.bytes.as_slice())
    }
}

/// A name of four ASCII letters parses, and its bytes render back as the
/// same name.
pub proof fn lemma_name_text_round_trip(s: Seq<char>)
    requires
        s.len() == 4,
        forall|i: int| 0 <= i < 4 ==> is_alpha_char(#[trigger] s[i]),
    ensures
        parse_type_name(s) == Ok::<Seq<u8>, PngError>(text_bytes(s)),
        valid_utf8(text_bytes(s)),
        decode_utf8(text_bytes(s)) == s,
{
    assert(is_ascii_chars(s));
    is_ascii_chars_encode_utf8(s);
    assert(encode_utf8(s) =~= text_bytes(s));
    encode_utf8_valid_utf8(s);
    encode_utf8_decode_utf8(s);
}

impl TryFrom<[u8; 4]> for ChunkType {
    type Error = PngError;

    fn try_from(bytes: [u8; 4]) -> Result<ChunkType, PngError> {
        Ok(ChunkType { bytes })
    }
}

impl vstd::std_specs::convert::TryFromSpecImpl<[u8; 4]> for ChunkType {
    open spec fn obeys_try_from_spec() -> bool {
        true
    }

    closed spec fn try_from_spec(bytes: [u8; 4]) -> Result<ChunkType, PngError> {
        Ok(ChunkType { bytes })
    }
}

impl core::str::FromStr for ChunkType {
    type Err = PngError;

    fn from_str(s: &str) -> Result<ChunkType, PngError> {
        ChunkType::from_str(s)
    }
}

} // verus!
