use vstd::prelude::*;
use vstd::utf8::{decode_utf8, valid_utf8};
use crate::be32::{
    be32_bytes, be32_value, from_be32, lemma_be32_bytes_len, lemma_be32_bytes_of_value, lemma_be32_value_of_bytes,
    to_be32,
};
use crate::checksum::{calculate_crc, crc32_of};
use crate::chunk_type::{lemma_chunk_type_len, type_text, ChunkType};
use crate::error::PngError;
use crate::text::{decimal, decimal_string, push_text, utf8_string};

verus! {

broadcast use {lemma_chunk_type_len, lemma_be32_bytes_len};

/// The bytes that frame a chunk besides its payload: length, type and checksum.
pub const CHUNK_OVERHEAD: usize = 12;

/// What a chunk holds: its type bytes and its payload. Its length and its
/// checksum follow from these.
pub struct ChunkView {
    pub chunk_type: Seq<u8>,
    pub data: Seq<u8>,
}

/// The checksum of a chunk: CRC-32 over type and payload.
pub open spec fn chunk_crc(c: ChunkView) -> u32 {
    crc32_of(c.chunk_type + c.data)
}

/// The serialized form of a chunk:
/// `length (4, big-endian) | type (4) | payload | checksum (4, big-endian)`.
pub open spec fn chunk_bytes(c: ChunkView) -> Seq<u8> {
    be32_bytes(c.data.len() as u32) + c.chunk_type + c.data + be32_bytes(chunk_crc(c))
}

/// What parsing a buffer that holds exactly one chunk gives. The payload is
/// everything between the type and the last four bytes; the declared length
/// must equal its size, and the stored checksum must match.
pub open spec fn parse_chunk(b: Seq<u8>) -> Result<ChunkView, PngError> {
    if b.len() < 12 {
        Err(PngError::InvalidFormat)
    } else {
        let declared = be32_value(b.subrange(0, 4));
        let chunk_type = b.subrange(4, 8);
        let data = b.subrange(8, b.len() - 4);
        let stored = be32_value(b.subrange(b.len() - 4, b.len() as int));
        let computed = crc32_of(chunk_type + data);
        if declared as int != data.len() {
            Err(PngError::InvalidFormat)
        } else if stored != computed {
            Err(PngError::ChecksumMismatch { stored, computed })
        } else {
            Ok(ChunkView { chunk_type, data })
        }
    }
}

/// Parsing the serialized form of a chunk gives the same chunk back.
pub proof fn lemma_chunk_round_trip(c: ChunkView)
    requires
        c.chunk_type.len() == 4,
        c.data.len() <= u32::MAX,
    ensures
        parse_chunk(chunk_bytes(c)) == Ok::<ChunkView, PngError>(c),
{
    let b = chunk_bytes(c);
    let n = b.len();
    let len_bytes = be32_bytes(c.data.len() as u32);
    let crc_bytes = be32_bytes(chunk_crc(c));
    assert(b.subrange(0, 4) =~= len_bytes);
    assert(b.subrange(4, 8) =~= c.chunk_type);
    assert(b.subrange(8, n - 4) =~= c.data);
    assert(b.subrange(n - 4, n as int) =~= crc_bytes);
    lemma_be32_value_of_bytes(c.data.len() as u32);
    lemma_be32_value_of_bytes(chunk_crc(c));
}

/// Changing one byte of the checksum of a serialized chunk makes parsing
/// fail with a checksum mismatch.
pub proof fn lemma_checksum_byte_altered(c: ChunkView, i: int, v: u8)
    requires
        c.chunk_type.len() == 4,
        c.data.len() <= u32::MAX,
        8 + c.data.len() <= i < 12 + c.data.len(),
        v != chunk_bytes(c)[i],
    ensures
        parse_chunk(chunk_bytes(c).update(i, v)) matches Err(PngError::ChecksumMismatch { .. }),
{
    let b = chunk_bytes(c);
    let b2 = b.update(i, v);
    let n = b.len();
    lemma_chunk_round_trip(c);
    assert(b2.subrange(0, 4) =~= b.subrange(0, 4));
    assert(b2.subrange(4, 8) =~= b.subrange(4, 8));
    assert(b2.subrange(8, n - 4) =~= b.subrange(8, n - 4));
    let crc = chunk_crc(c);
    let old_tail = b.subrange(n - 4, n as int);
    let new_tail = b2.subrange(n - 4, n as int);
    assert(old_tail =~= be32_bytes(crc));
    assert(new_tail[i - (n - 4)] != old_tail[i - (n - 4)]);
    assert(new_tail != old_tail);
    lemma_be32_bytes_of_value(new_tail);
    if be32_value(new_tail) == crc {
        assert(new_tail == be32_bytes(crc));
    }
}

/// Changing one byte of the payload of a serialized chunk leaves length,
/// type and stored checksum as they were: parsing fails with a checksum
/// mismatch exactly when the CRC-32 of the altered type and payload differs
/// from the stored one.
pub proof fn lemma_payload_byte_altered(c: ChunkView, i: int, v: u8)
    requires
        c.chunk_type.len() == 4,
        c.data.len() <= u32::MAX,
        8 <= i < 8 + c.data.len(),
        v != chunk_bytes(c)[i],
    ensures
        ({
            let altered = c.data.update(i - 8, v);
            let computed = crc32_of(c.chunk_type + altered);
            parse_chunk(chunk_bytes(c).update(i, v)) == if computed != chunk_crc(c) {
                Err::<ChunkView, PngError>(
                    PngError::ChecksumMismatch { stored: chunk_crc(c), computed },
                )
            } else {
                Ok(ChunkView { chunk_type: c.chunk_type, data: altered })
            }
        }),
{
    let b = chunk_bytes(c);
    let b2 = b.update(i, v);
    let n = b.len();
    lemma_chunk_round_trip(c);
    assert(b2.subrange(0, 4) =~= b.subrange(0, 4));
    assert(b2.subrange(4, 8) =~= b.subrange(4, 8));
    assert(b2.subrange(8, n - 4) =~= c.data.update(i - 8, v));
    assert(b2.subrange(n - 4, n as int) =~= b.subrange(n - 4, n as int));
}

/// The human-readable summary of a chunk.
pub open spec fn chunk_text(c: ChunkView) -> Seq<char> {
    "Chunk {\n  Length: "@ + decimal(c.data.len()) + "\n  Type: "@ + type_text(c.chunk_type)
        + "\n  Data: "@ + decimal(c.data.len()) + " bytes\n  Crc: "@ + decimal(chunk_crc(c) as nat)
        + "\n}\n"@
}

/// A length-prefixed, checksummed record: a chunk type and its payload.
/// The stored length and checksum always agree with the payload.
pub struct Chunk {
    length: u32,
    chunk_type: ChunkType,
    data: Vec<u8>,
    crc: u32,
}

impl View for Chunk {
    type V = ChunkView;

    closed spec fn view(&self) -> ChunkView {
        ChunkView { chunk_type: self.chunk_type@, data: self.data@ }
    }
}

/// A chunk's type has four bytes and its payload's size fits in 32 bits.
pub open spec fn chunk_wf(c: ChunkView) -> bool {
    c.chunk_type.len() == 4 && c.data.len() <= u32::MAX
}

/// A chunk whose invariant holds has a well-formed view.
pub proof fn lemma_chunk_wf(c: Chunk)
    requires
        c.inv(),
    ensures
        chunk_wf(c@),
{
}

/// A chunk that parses is well-formed.
pub proof fn lemma_parsed_chunk_wf(b: Seq<u8>)
    requires
        parse_chunk(b) is Ok,
    ensures
        chunk_wf(parse_chunk(b)->Ok_0),
{
}

/// The bytes `b[from..to]` as a vector.
pub(crate) fn copy_range(b: &[u8], from: usize, to: usize) -> (r: Vec<u8>)
    requires
        from <= to <= b@.len(),
    ensures
        r@ == b@.subrange(from as int, to as int),
{
    let mut r: Vec<u8> = Vec::new();
    let mut i: usize = from;
    while i < to
        invariant
            from <= i <= to <= b@.len(),
            r@ == b@.subrange(from as int, i as int),
        decreases to - i,
    {
        r.push(b[i]);
        i = i + 1;
    }
    r
}

/// Appends the bytes of `b` to `out`.
fn push_all(out: &mut Vec<u8>, b: &[u8])
    ensures
        final(out)@ == old(out)@ + b@,
{
    let mut i: usize = 0;
    while i < b.len()
        invariant
            i <= b@.len(),
            out@ == old(out)@ + b@.subrange(0, i as int),
        decreases b@.len() - i,
    {
        out.push(b[i]);
        i = i + 1;
    }
    assert(b@.subrange(0, b@.len() as int) == b@);
}

impl Chunk {
    /// The stored length and checksum agree with type and payload.
    #[verifier::type_invariant]
    pub closed spec fn inv(&self) -> bool {
        &&& self.length as int == self.data@.len()
        &&& self.crc == crc32_of(self.chunk_type@ + self.data@)
    }

    /// A chunk of the given type and payload, with its checksum computed.
    pub fn new(chunk_type: ChunkType, data: Vec<u8>) -> (r: Chunk)
        requires
            data@.len() <= u32::MAX,
        ensures
            r@ == (ChunkView { chunk_type: chunk_type@, data: data@ }),
    {
        let length = data.len() as u32;
        let crc = calculate_crc(&chunk_type.bytes(), data.as_slice());
        Chunk { length, chunk_type, data, crc }
    }

    /// The payload's size in bytes.
    pub fn length(&self) -> (r: u32)
        ensures
            r as int == self@.data.len(),
    {
        proof {
            use_type_invariant(self);
        }
        self.length
    }

    /// The chunk type.
    pub fn chunk_type(&self) -> (r: &ChunkType)
        ensures
            r@ == self@.chunk_type,
    {
        &self.chunk_type
    }

    /// The payload.
    pub fn data(&self) -> (r: &[u8])
        ensures
            r@ == self@.data,
    {
        self.data.as_slice()
    }

    /// The checksum over type and payload.
    pub fn crc(&self) -> (r: u32)
        ensures
            r == chunk_crc(self@),
    {
        proof {
            use_type_invariant(self);
        }
        self.crc
    }

    /// The payload as UTF-8 text.
    pub fn data_as_string(&self) -> (r: Result<String, PngError>)
        ensures
            r is Ok == valid_utf8(self@.data),
            r matches Ok(s) ==> s@ == decode_utf8(self@.data),
            r matches Err(e) ==> e == PngError::InvalidUtf8,
    {
        let payload = copy_range(self.data.as_slice(), 0, self.data.len());
        assert(payload@ =~= self.data@);
        match utf8_string(payload) {
            Some(s) => Ok(s),
            None => Err(PngError::InvalidUtf8),
        }
    }

    /// The serialized chunk.
    pub fn as_bytes(&self) -> (r: Vec<u8>)
        ensures
            r@ == chunk_bytes(self@),
    {
        proof {
            use_type_invariant(self);
        }
        let mut out: Vec<u8> = Vec::new();
        push_all(&mut out, to_be32(self.length).as_slice());
        push_all(&mut out, self.chunk_type.bytes().as_slice());
        push_all(&mut out, self.data.as_slice());
        push_all(&mut out, to_be32(self.crc).as_slice());
        out
    }

    /// Parses a buffer that holds exactly one chunk.
    pub fn try_from(b: &[u8]) -> (r: Result<Chunk, PngError>)
        ensures
            r matches Ok(c) ==> parse_chunk(b@) == Ok::<ChunkView, PngError>(c@),
            r matches Err(e) ==> parse_chunk(b@) == Err::<ChunkView, PngError>(e),
    {
        let n = b.len();
        if n < CHUNK_OVERHEAD {
            return Err(PngError::InvalidFormat);
        }
        let declared = from_be32(b, 0);
        let type_bytes: [u8; 4] = [b[4], b[5], b[6], b[7]];
        assert(type_bytes@ =~= b@.subrange(4, 8));
        let chunk_type = ChunkType::from_bytes(type_bytes);
        let data = copy_range(b, 8, n - 4);
        let stored = from_be32(b, n - 4);
        if data.len() > 0xFFFF_FFFFusize || data.len() as u32 != declared {
            return Err(PngError::InvalidFormat);
        }
        let computed = calculate_crc(&type_bytes, data.as_slice());
        if stored != computed {
            return Err(PngError::ChecksumMismatch { stored, computed });
        }
        Ok(Chunk { length: declared, chunk_type, data, crc: stored })
    }

    /// A human-readable summary: length, type, payload size and checksum.
    pub fn to_string(&self) -> (r: String)
        ensures
            r@ == chunk_text(self@),
    {
        proof {
            use_type_invariant(self);
        }
        let mut s = String::new();
        push_text(&mut s, "Chunk {\n  Length: ");
        push_text(&mut s, decimal_string(self.length as u64).as_str());
        push_text(&mut s, "\n  Type: ");
        push_text(&mut s, self.chunk_type.to_string().as_str());
        push_text(&mut s, "\n  Data: ");
        push_text(&mut s, decimal_string(self.data.len() as u64).as_str());
        push_text(&mut s, " bytes\n  Crc: ");
        push_text(&mut s, decimal_string(self.crc as u64).as_str());
        push_text(&mut s, "\n}\n");
        s
    }
}

} // verus!
