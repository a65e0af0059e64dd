use vstd::prelude::*;

verus! {

/// The four big-endian bytes of `x`.
#[verifier::opaque]
pub open spec fn be32_bytes(x: u32) -> Seq<u8> {
    seq![(x >> 24u32) as u8, (x >> 16u32) as u8, (x >> 8u32) as u8, x as u8]
}

/// The number that the first four bytes of `s` encode, big-endian.
#[verifier::opaque]
pub open spec fn be32_value(s: Seq<u8>) -> u32 {
    ((s[0] as u32) << 24u32) | ((s[1] as u32) << 16u32) | ((s[2] as u32) << 8u32) | (s[3] as u32)
}

/// Reading back the bytes of a number gives the number.
pub proof fn lemma_be32_value_of_bytes(x: u32)
    ensures
        be32_value(be32_bytes(x)) == x,
{
    reveal(be32_value);
    reveal(be32_bytes);
    let s = be32_bytes(x);
    let (a, b, c, d) = (s[0], s[1], s[2], s[3]);
    assert(a == (x >> 24u32) as u8 && b == (x >> 16u32) as u8 && c == (x >> 8u32) as u8 && d
        == x as u8);
    assert(((((x >> 24u32) as u8) as u32) << 24u32) | ((((x >> 16u32) as u8) as u32) << 16u32)
        | ((((x >> 8u32) as u8) as u32) << 8u32) | ((x as u8) as u32) == x) by (bit_vector);
}

/// Four bytes are the bytes of the number they encode.
pub proof fn lemma_be32_bytes_of_value(s: Seq<u8>)
    requires
        s.len() == 4,
    ensures
        be32_bytes(be32_value(s)) == s,
{
    reveal(be32_value);
    reveal(be32_bytes);
    let (a, b, c, d) = (s[0], s[1], s[2], s[3]);
    let v = be32_value(s);
    assert(v == ((a as u32) << 24u32) | ((b as u32) << 16u32) | ((c as u32) << 8u32) | (d as u32));
    assert((((((a as u32) << 24u32) | ((b as u32) << 16u32) | ((c as u32) << 8u32) | (d as u32))
        >> 24u32) as u8) == a) by (bit_vector);
    assert((((((a as u32) << 24u32) | ((b as u32) << 16u32) | ((c as u32) << 8u32) | (d as u32))
        >> 16u32) as u8) == b) by (bit_vector);
    assert((((((a as u32) << 24u32) | ((b as u32) << 16u32) | ((c as u32) << 8u32) | (d as u32))
        >> 8u32) as u8) == c) by (bit_vector);
    assert(((((a as u32) << 24u32) | ((b as u32) << 16u32) | ((c as u32) << 8u32) | (d as u32))
        as u8) == d) by (bit_vector);
    assert(be32_bytes(v) =~= s);
}

/// The bytes of a number are four.
pub broadcast proof fn lemma_be32_bytes_len(x: u32)
    ensures
        #[trigger] be32_bytes(x).len() == 4,
{
    reveal(be32_bytes);
}

/// The big-endian bytes of `x`.
pub fn to_be32(x: u32) -> (r: [u8; 4])
    ensures
        r@ == be32_bytes(x),
{
    reveal(be32_bytes);
    let r = [(x >> 24u32) as u8, (x >> 16u32) as u8, (x >> 8u32) as u8, x as u8];
    assert(r@ =~= be32_bytes(x));
    r
}

/// The number encoded big-endian at `b[at..at + 4]`.
pub fn from_be32(b: &[u8], at: usize) -> (r: u32)
    requires
        at + 4 <= b@.len(),
    ensures
        r == be32_value(b@.subrange(at as int, at + 4)),
{
    reveal(be32_value);
    ((b[at] as u32) << 24u32) | ((b[at + 1] as u32) << 16u32) | ((b[at + 2] as u32) << 8u32) | (b[at
        + 3] as u32)
}

} // verus!
