use vstd::prelude::*;

verus! {

/// The CRC-32 (ISO-HDLC, the polynomial of PNG and zlib) of the given bytes.
pub uninterp spec fn crc32_of(b: Seq<u8>) -> u32;

/// Relies on `crc::Crc::<u32>::checksum` with `crc::CRC_32_ISO_HDLC`: the
/// checksum depends on the bytes alone.
#[verifier::external_body]
fn crc32(b: &[u8]) -> (r: u32)
    ensures
        r == crc32_of(b@),
{
    crc::Crc::<u32>::new(&crc::CRC_32_ISO_HDLC).checksum(b)
}

/// The checksum of a chunk: CRC-32 over its type bytes followed by its payload.
pub fn calculate_crc(chunk_type: &[u8; 4], data: &[u8]) -> (r: u32)
    ensures
        r == crc32_of(chunk_type@ + data@),
{
    let mut all: Vec<u8> = Vec::new();
    let mut i: usize = 0;
    while i < 4
        invariant
            i <= 4,
            all@ == chunk_type@.subrange(0, i as int),
        decreases 4 - i,
    {
        all.push(chunk_type[i]);
        i = i + 1;
    }
    let mut j: usize = 0;
    while j < data.len()
        invariant
            j <= data@.len(),
            all@ == chunk_type@ + data@.subrange(0, j as int),
        decreases data@.len() - j,
    {
        all.push(data[j]);
        j = j + 1;
    }
    assert(data@.subrange(0, data@.len() as int) == data@);
    crc32(all.as_slice())
}

} // verus!
