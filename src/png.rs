use vstd::prelude::*;
use crate::be32::{be32_value, from_be32, lemma_be32_bytes_len};
use crate::chunk::{
    chunk_bytes, chunk_text, chunk_wf, lemma_chunk_round_trip, lemma_chunk_wf,
    lemma_parsed_chunk_wf, parse_chunk, Chunk, ChunkView, CHUNK_OVERHEAD,
};
use crate::chunk_type::{lemma_chunk_type_len, type_text};
use crate::error::PngError;
use crate::text::push_text;

verus! {

broadcast use {lemma_chunk_type_len, lemma_be32_bytes_len};

/// The eight bytes that open every PNG file.
pub const STANDARD_HEADER: [u8; 8] = [137, 80, 78, 71, 13, 10, 26, 10];

/// The eight bytes that open every PNG file.
pub open spec fn signature() -> Seq<u8> {
    seq![137u8, 80u8, 78u8, 71u8, 13u8, 10u8, 26u8, 10u8]
}

/// Every chunk of the sequence is well-formed.
pub open spec fn chunks_wf(cs: Seq<ChunkView>) -> bool {
    forall|i: int| 0 <= i < cs.len() ==> chunk_wf(#[trigger] cs[i])
}

/// The serialized chunks, one after the other, in order.
pub open spec fn chunks_bytes(cs: Seq<ChunkView>) -> Seq<u8>
    decreases cs.len(),
{
    if cs.len() == 0 {
        Seq::empty()
    } else {
        chunk_bytes(cs[0]) + chunks_bytes(cs.drop_first())
    }
}

/// The serialized container: the signature, then every chunk in order.
pub open spec fn png_bytes(cs: Seq<ChunkView>) -> Seq<u8> {
    signature() + chunks_bytes(cs)
}

/// `acc` put in front of the chunks of a successful parse; errors pass through.
pub open spec fn prepend(
    acc: Seq<ChunkView>,
    r: Result<Seq<ChunkView>, PngError>,
) -> Result<Seq<ChunkView>, PngError> {
    match r {
        Ok(cs) => Ok(acc + cs),
        Err(e) => Err(e),
    }
}

/// What parsing a sequence of chunks gives: each chunk spans its declared
/// length plus twelve bytes of framing, until the bytes run out.
pub open spec fn parse_chunks(b: Seq<u8>) -> Result<Seq<ChunkView>, PngError>
    decreases b.len(),
{
    if b.len() == 0 {
        Ok(Seq::empty())
    } else if b.len() < 12 {
        Err(PngError::InvalidFormat)
    } else {
        let size = 12 + be32_value(b.subrange(0, 4));
        if size > b.len() {
            Err(PngError::InvalidFormat)
        } else {
            match parse_chunk(b.subrange(0, size)) {
                Err(e) => Err(e),
                Ok(c) => prepend(seq![c], parse_chunks(b.subrange(size, b.len() as int))),
            }
        }
    }
}

/// What parsing a whole file gives.
pub open spec fn parse_png(b: Seq<u8>) -> Result<Seq<ChunkView>, PngError> {
    if b.len() < 8 || b.subrange(0, 8) != signature() {
        Err(PngError::InvalidSignature)
    } else {
        parse_chunks(b.subrange(8, b.len() as int))
    }
}

/// There is at most one first chunk of a type.
pub proof fn lemma_first_of_type_unique(cs: Seq<ChunkView>, t: Seq<char>, i: int, j: int)
    requires
        is_first_of_type(cs, t, i),
        is_first_of_type(cs, t, j),
    ensures
        i == j,
{
    if i < j {
        assert(type_text(cs[i].chunk_type) != t);
    } else if j < i {
        assert(type_text(cs[j].chunk_type) != t);
    }
}

/// `i` is the position of the first chunk whose type renders as `t`.
pub open spec fn is_first_of_type(cs: Seq<ChunkView>, t: Seq<char>, i: int) -> bool {
    &&& 0 <= i < cs.len()
    &&& type_text(cs[i].chunk_type) == t
    &&& forall|j: int| 0 <= j < i ==> type_text(#[trigger] cs[j].chunk_type) != t
}

/// No chunk's type renders as `t`.
pub open spec fn has_no_type(cs: Seq<ChunkView>, t: Seq<char>) -> bool {
    forall|j: int| 0 <= j < cs.len() ==> type_text(#[trigger] cs[j].chunk_type) != t
}

/// The summaries of all chunks, in order.
pub open spec fn png_text(cs: Seq<ChunkView>) -> Seq<char>
    decreases cs.len(),
{
    if cs.len() == 0 {
        Seq::empty()
    } else {
        png_text(cs.drop_last()) + chunk_text(cs.last())
    }
}

/// Serializing one more chunk appends its bytes.
pub proof fn lemma_chunks_bytes_push(cs: Seq<ChunkView>, c: ChunkView)
    ensures
        chunks_bytes(cs.push(c)) == chunks_bytes(cs) + chunk_bytes(c),
    decreases cs.len(),
{
    if cs.len() == 0 {
        assert(cs.push(c).drop_first() =~= Seq::<ChunkView>::empty());
        assert(cs.push(c)[0] == c);
        assert(chunks_bytes(cs.push(c).drop_first()) == Seq::<u8>::empty());
        assert(chunks_bytes(cs) == Seq::<u8>::empty());
        assert(chunks_bytes(cs.push(c)) =~= chunks_bytes(cs) + chunk_bytes(c));
    } else {
        assert(cs.push(c).drop_first() =~= cs.drop_first().push(c));
        lemma_chunks_bytes_push(cs.drop_first(), c);
        assert(chunks_bytes(cs.push(c)) =~= chunks_bytes(cs) + chunk_bytes(c));
    }
}

/// Appending a chunk to a container leaves the bytes it had as they were and
/// adds the chunk's own bytes at the end.
pub proof fn lemma_append_adds_suffix(cs: Seq<ChunkView>, c: ChunkView)
    ensures
        png_bytes(cs.push(c)) == png_bytes(cs) + chunk_bytes(c),
{
    lemma_chunks_bytes_push(cs, c);
    assert(png_bytes(cs.push(c)) =~= png_bytes(cs) + chunk_bytes(c));
}

/// Parsing serialized chunks gives the same chunks back.
pub proof fn lemma_chunks_round_trip(cs: Seq<ChunkView>)
    requires
        chunks_wf(cs),
    ensures
        parse_chunks(chunks_bytes(cs)) == Ok::<Seq<ChunkView>, PngError>(cs),
    decreases cs.len(),
{
    if cs.len() > 0 {
        let c = cs[0];
        let rest = cs.drop_first();
        let b = chunks_bytes(cs);
        let cb = chunk_bytes(c);
        assert(chunk_wf(c));
        assert(chunks_wf(rest));
        lemma_chunk_round_trip(c);
        assert(b.subrange(0, 4) =~= cb.subrange(0, 4));
        let size = 12 + be32_value(b.subrange(0, 4));
        assert(parse_chunk(cb) is Ok);
        assert(size == cb.len());
        assert(b.subrange(0, size) =~= cb);
        assert(b.subrange(size, b.len() as int) =~= chunks_bytes(rest));
        lemma_chunks_round_trip(rest);
        assert(seq![c] + rest =~= cs);
    } else {
        assert(cs =~= Seq::<ChunkView>::empty());
    }
}

/// Parsing a serialized container gives the same chunks back, so serializing
/// the parsed container gives the same bytes again.
pub proof fn lemma_png_round_trip(cs: Seq<ChunkView>)
    requires
        chunks_wf(cs),
    ensures
        parse_png(png_bytes(cs)) == Ok::<Seq<ChunkView>, PngError>(cs),
        parse_png(png_bytes(cs)) matches Ok(again) && png_bytes(again) == png_bytes(cs),
{
    let b = png_bytes(cs);
    assert(b.subrange(0, 8) =~= signature());
    assert(b.subrange(8, b.len() as int) =~= chunks_bytes(cs));
    lemma_chunks_round_trip(cs);
}

/// A PNG file: the signature followed by an ordered sequence of chunks.
pub struct Png {
    chunks: Vec<Chunk>,
}

impl View for Png {
    type V = Seq<ChunkView>;

    closed spec fn view(&self) -> Seq<ChunkView> {
        self.chunks@.map_values(|c: Chunk| c@)
    }
}

impl Png {
    /// The signature.
    pub fn standard_header() -> (r: [u8; 8])
        ensures
            r@ == signature(),
    {
        let r = STANDARD_HEADER;
        assert(r@ =~= signature());
        r
    }

    /// A container that holds the given chunks, in order.
    pub fn from_chunks(chunks: Vec<Chunk>) -> (r: Png)
        ensures
            r@ == chunks@.map_values(|c: Chunk| c@),
    {
        Png { chunks }
    }

    /// Parses a whole file: the signature, then chunks until the bytes run out.
    pub fn try_from(b: &[u8]) -> (r: Result<Png, PngError>)
        ensures
            r matches Ok(p) ==> parse_png(b@) == Ok::<Seq<ChunkView>, PngError>(p@),
            r matches Err(e) ==> parse_png(b@) == Err::<Seq<ChunkView>, PngError>(e),
    {
        let n = b.len();
        if n < 8 {
            return Err(PngError::InvalidSignature);
        }
        let header = Png::standard_header();
        let mut k: usize = 0;
        while k < 8
            invariant
                k <= 8 <= n == b@.len(),
                header@ == signature(),
                forall|j: int| 0 <= j < k ==> b@[j] == signature()[j],
            decreases 8 - k,
        {
            if b[k] != header[k] {
                assert(b@.subrange(0, 8)[k as int] != signature()[k as int]);
                return Err(PngError::InvalidSignature);
            }
            k = k + 1;
        }
        assert(b@.subrange(0, 8) =~= signature());
        let mut chunks: Vec<Chunk> = Vec::new();
        let mut pos: usize = 8;
        proof {
            let first = parse_chunks(b@.subrange(8, n as int));
            if first is Ok {
                assert(Seq::<ChunkView>::empty() + first->Ok_0 =~= first->Ok_0);
            }
            assert(chunks@.map_values(|c: Chunk| c@) =~= Seq::<ChunkView>::empty());
        }
        while pos < n
            invariant
                8 <= pos <= n == b@.len(),
                parse_png(b@) == prepend(
                    chunks@.map_values(|c: Chunk| c@),
                    parse_chunks(b@.subrange(pos as int, n as int)),
                ),
                chunks_wf(chunks@.map_values(|c: Chunk| c@)),
            decreases n - pos,
        {
            let ghost tail = b@.subrange(pos as int, n as int);
            let ghost acc = chunks@.map_values(|c: Chunk| c@);
            let rest = n - pos;
            if rest < CHUNK_OVERHEAD {
                return Err(PngError::InvalidFormat);
            }
            let declared = from_be32(b, pos);
            assert(tail.subrange(0, 4) =~= b@.subrange(pos as int, pos + 4));
            if declared as usize > rest - CHUNK_OVERHEAD {
                return Err(PngError::InvalidFormat);
            }
            let size = CHUNK_OVERHEAD + declared as usize;
            assert(tail.subrange(0, size as int) =~= b@.subrange(pos as int, pos + size));
            assert(tail.subrange(size as int, tail.len() as int) =~= b@.subrange(
                pos + size,
                n as int,
            ));
            let chunk = match Chunk::try_from(&b[pos..pos + size]) {
                Ok(c) => c,
                Err(e) => {
                    return Err(e);
                },
            };
            proof {
                lemma_parsed_chunk_wf(b@.subrange(pos as int, pos + size));
                let later = parse_chunks(b@.subrange(pos + size, n as int));
                if later is Ok {
                    assert(acc + (seq![chunk@] + later->Ok_0) =~= acc.push(chunk@) + later->Ok_0);
                }
            }
            chunks.push(chunk);
            assert(chunks@.map_values(|c: Chunk| c@) =~= acc.push(chunk@));
            pos = pos + size;
        }
        proof {
            let acc = chunks@.map_values(|c: Chunk| c@);
            assert(b@.subrange(pos as int, n as int) =~= Seq::<u8>::empty());
            assert(acc + Seq::<ChunkView>::empty() =~= acc);
        }
        Ok(Png { chunks })
    }

    /// The serialized file: the signature, then every chunk in order.
    pub fn as_bytes(&self) -> (r: Vec<u8>)
        ensures
            r@ == png_bytes(self@),
            chunks_wf(self@),
    {
        let header = Png::standard_header();
        let mut out: Vec<u8> = Vec::new();
        let mut k: usize = 0;
        while k < 8
            invariant
                k <= 8,
                header@ == signature(),
                out@ == signature().subrange(0, k as int),
            decreases 8 - k,
        {
            out.push(header[k]);
            k = k + 1;
        }
        let mut i: usize = 0;
        while i < self.chunks.len()
            invariant
                i <= self.chunks@.len(),
                out@ == png_bytes(self@.subrange(0, i as int)),
                chunks_wf(self@.subrange(0, i as int)),
            decreases self.chunks@.len() - i,
        {
            let chunk = &self.chunks[i];
            let mut more = chunk.as_bytes();
            proof {
                use_type_invariant(chunk);
                lemma_chunk_wf(*chunk);
                assert(chunks_wf(self@.subrange(0, i + 1)));
                lemma_append_adds_suffix(self@.subrange(0, i as int), self@[i as int]);
                assert(self@.subrange(0, i as int).push(self@[i as int]) =~= self@.subrange(
                    0,
                    i + 1,
                ));
            }
            out.append(&mut more);
            i = i + 1;
        }
        assert(self@.subrange(0, self@.len() as int) =~= self@);
        out
    }

    /// Adds a chunk at the end.
    pub fn append_chunk(&mut self, chunk: Chunk)
        ensures
            final(self)@ == old(self)@.push(chunk@),
    {
        let ghost before = self@;
        self.chunks.push(chunk);
        assert(self@ =~= before.push(chunk@));
    }

    /// The position of the first chunk whose type renders as `chunk_type`.
    fn position_of(&self, chunk_type: &str) -> (r: Option<usize>)
        ensures
            r matches Some(i) ==> is_first_of_type(self@, chunk_type@, i as int),
            r is None ==> has_no_type(self@, chunk_type@),
    {
        let target = chunk_type.to_owned();
        let mut i: usize = 0;
        while i < self.chunks.len()
            invariant
                i <= self.chunks@.len(),
                target@ == chunk_type@,
                forall|j: int| 0 <= j < i ==> type_text(#[trigger] self@[j].chunk_type) != chunk_type@,
            decreases self.chunks@.len() - i,
        {
            let rendered = self.chunks[i].chunk_type().to_string();
            if rendered == target {
                return Some(i);
            }
            i = i + 1;
        }
        None
    }

    /// Removes the first chunk whose type renders as `chunk_type`, and
    /// returns it; fails, leaving the container as it was, when none does.
    pub fn remove_chunk(&mut self, chunk_type: &str) -> (r: Result<Chunk, PngError>)
        ensures
            r matches Ok(c) ==> exists|i: int|
                is_first_of_type(old(self)@, chunk_type@, i) && c@ == old(self)@[i]
                    && final(self)@ == old(self)@.remove(i),
            r matches Err(e) ==> e == PngError::ChunkNotFound && final(self)@ == old(self)@
                && has_no_type(old(self)@, chunk_type@),
            has_no_type(old(self)@, chunk_type@) ==> r is Err && final(self)@ == old(self)@,
    {
        match self.position_of(chunk_type) {
            Some(i) => {
                let ghost before = self@;
                let c = self.chunks.remove(i);
                assert(self@ =~= before.remove(i as int));
                Ok(c)
            },
            None => Err(PngError::ChunkNotFound),
        }
    }

    /// The first chunk whose type renders as `chunk_type`, if any.
    pub fn chunk_by_type(&self, chunk_type: &str) -> (r: Option<&Chunk>)
        ensures
            r matches Some(c) ==> exists|i: int|
                is_first_of_type(self@, chunk_type@, i) && c@ == self@[i],
            r is None ==> has_no_type(self@, chunk_type@),
    {
        match self.position_of(chunk_type) {
            Some(i) => Some(&self.chunks[i]),
            None => None,
        }
    }

    /// All chunks, in order.
    pub fn chunks(&self) -> (r: &[Chunk])
        ensures
            r@.map_values(|c: Chunk| c@) == self@,
    {
        self.chunks.as_slice()
    }

    /// A human-readable summary of every chunk, in order.
    pub fn to_string(&self) -> (r: String)
        ensures
            r@ == png_text(self@),
    {
        let mut s = String::new();
        let mut i: usize = 0;
        while i < self.chunks.len()
            invariant
                i <= self.chunks@.len(),
                s@ == png_text(self@.subrange(0, i as int)),
            decreases self.chunks@.len() - i,
        {
            let text = self.chunks[i].to_string();
            push_text(&mut s, text.as_str());
            proof {
                let next = self@.subrange(0, i + 1);
                assert(next.drop_last() =~= self@.subrange(0, i as int));
            }
            i = i + 1;
        }
        assert(self@.subrange(0, self@.len() as int) =~= self@);
        s
    }
}

} // verus!
