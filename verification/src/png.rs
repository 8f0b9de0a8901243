use vstd::prelude::*;
use vstd::slice::{slice_index_get, slice_subrange};

use crate::chunk::{
    lemma_chunk_parse_wire, spec_chunk_parse, spec_chunk_wire, ChunkModel, PngChunk,
    PngChunkParsingError,
};
use crate::chunk_type::{spec_type_from_str, PngChunkType, PngChunkTypeParsingError};

verus! {

/// Why a container operation failed.
#[derive(Debug, PartialEq, Eq, Structural)]
pub enum PngError {
    /// The input does not open with the eight PNG signature bytes.
    InvalidSignature,
    /// A chunk of the stream could not be parsed; the whole parse aborts.
    InvalidChunk(PngChunkParsingError),
    /// The chunk type string handed to a lookup could not be parsed.
    InvalidChunkType(PngChunkTypeParsingError),
    /// No chunk of the requested type is present.
    ChunkNotFound,
}

/// The fixed eight-byte magic signature that opens every PNG file.
pub open spec fn spec_png_signature() -> Seq<u8> {
    seq![0x89u8, 0x50u8, 0x4eu8, 0x47u8, 0x0du8, 0x0au8, 0x1au8, 0x0au8]
}

/// The eight signature bytes in executable form.
pub fn png_signature() -> (r: [u8; 8])
    ensures
        r@ == spec_png_signature(),
{
    let r = [0x89u8, 0x50u8, 0x4eu8, 0x47u8, 0x0du8, 0x0au8, 0x1au8, 0x0au8];
    proof {
        assert(r@ =~= spec_png_signature());
    }
    r
}

/// The models of a sequence of chunks.
pub open spec fn spec_chunk_views(chunks: Seq<PngChunk>) -> Seq<ChunkModel> {
    chunks.map_values(|c: PngChunk| c@)
}

/// What parsing a chunk stream yields: chunks in order until the bytes are
/// exhausted; any chunk failure aborts the whole parse.
pub open spec fn spec_chunks_parse(b: Seq<u8>) -> Result<Seq<ChunkModel>, PngChunkParsingError>
    decreases b.len(),
{
    if b.len() == 0 {
        Ok(Seq::empty())
    } else {
        match spec_chunk_parse(b) {
            Err(e) => Err(e),
            Ok(m) => match spec_chunks_parse(b.skip(m.data.len() + 12 as int)) {
                Err(e) => Err(e),
                Ok(rest) => Ok(seq![m] + rest),
            },
        }
    }
}

/// What parsing a whole file yields: the signature is checked first, then the
/// chunk stream after it.
pub open spec fn spec_png_parse(b: Seq<u8>) -> Result<Seq<ChunkModel>, PngError> {
    if b.len() < 8 || b.subrange(0, 8) != spec_png_signature() {
        Err(PngError::InvalidSignature)
    } else {
        match spec_chunks_parse(b.skip(8)) {
            Ok(s) => Ok(s),
            Err(e) => Err(PngError::InvalidChunk(e)),
        }
    }
}

/// The concatenated wire forms of a sequence of chunks.
pub open spec fn spec_chunks_wire(s: Seq<ChunkModel>) -> Seq<u8>
    decreases s.len(),
{
    if s.len() == 0 {
        Seq::empty()
    } else {
        spec_chunk_wire(s[0].chunk_type, s[0].data) + spec_chunks_wire(s.skip(1))
    }
}

/// The wire form of a whole file: the signature, then every chunk in order.
pub open spec fn spec_png_wire(s: Seq<ChunkModel>) -> Seq<u8> {
    spec_png_signature() + spec_chunks_wire(s)
}

/// The index of the first chunk whose type tag equals `t`, if any.
pub open spec fn spec_find_chunk(s: Seq<ChunkModel>, t: Seq<u8>) -> Option<int>
    decreases s.len(),
{
    if s.len() == 0 {
        None
    } else if s[0].chunk_type == t {
        Some(0)
    } else {
        match spec_find_chunk(s.skip(1), t) {
            Some(i) => Some(i + 1),
            None => None,
        }
    }
}

/// `spec_find_chunk` yields the first matching index: a hit is in range, has
/// the type, and nothing before it does; a miss means no chunk has the type.
pub proof fn lemma_find_chunk_props(s: Seq<ChunkModel>, t: Seq<u8>)
    ensures
        match spec_find_chunk(s, t) {
            None => forall|i: int| 0 <= i < s.len() ==> s[i].chunk_type != t,
            Some(i) => 0 <= i < s.len() && s[i].chunk_type == t && (forall|j: int|
                0 <= j < i ==> s[j].chunk_type != t),
        },
    decreases s.len(),
{
    if s.len() != 0 && s[0].chunk_type != t {
        lemma_find_chunk_props(s.skip(1), t);
        match spec_find_chunk(s.skip(1), t) {
            None => {
                assert forall|i: int| 0 <= i < s.len() implies s[i].chunk_type != t by {
                    if i > 0 {
                        assert(s.skip(1)[i - 1] == s[i]);
                    }
                }
            },
            Some(ip) => {
                assert(s.skip(1)[ip] == s[ip + 1]);
                assert forall|j: int| 0 <= j < ip + 1 implies s[j].chunk_type != t by {
                    if j > 0 {
                        assert(s.skip(1)[j - 1] == s[j]);
                    }
                }
            },
        }
    }
}

/// Concatenation distributes over chunk-stream serialization.
pub proof fn lemma_chunks_wire_concat(a: Seq<ChunkModel>, b: Seq<ChunkModel>)
    ensures
        spec_chunks_wire(a + b) == spec_chunks_wire(a) + spec_chunks_wire(b),
    decreases a.len(),
{
    if a.len() == 0 {
        assert(a + b =~= b);
        assert(spec_chunks_wire(a) + spec_chunks_wire(b) =~= spec_chunks_wire(b));
    } else {
        assert((a + b).skip(1) =~= a.skip(1) + b);
        assert((a + b)[0] == a[0]);
        lemma_chunks_wire_concat(a.skip(1), b);
        assert(spec_chunk_wire(a[0].chunk_type, a[0].data) + (spec_chunks_wire(a.skip(1))
            + spec_chunks_wire(b)) =~= (spec_chunk_wire(a[0].chunk_type, a[0].data)
            + spec_chunks_wire(a.skip(1))) + spec_chunks_wire(b));
    }
}

/// Round trip over a chunk stream: a stream parsed from bytes serializes back
/// to exactly those bytes.
#[verifier::rlimit(100)]
pub proof fn lemma_chunks_parse_wire(b: Seq<u8>)
    ensures
        spec_chunks_parse(b) matches Ok(s) ==> spec_chunks_wire(s) == b,
    decreases b.len(),
{
    if let Ok(s) = spec_chunks_parse(b) {
        if b.len() == 0 {
            assert(spec_chunks_wire(s) =~= b);
        } else {
            if let Ok(m) = spec_chunk_parse(b) {
                let consumed = (m.data.len() + 12) as int;
                lemma_chunk_parse_wire(b);
                assert(spec_chunk_wire(m.chunk_type, m.data) == b.subrange(0, consumed));
                lemma_chunks_parse_wire(b.skip(consumed));
                if let Ok(rest) = spec_chunks_parse(b.skip(consumed)) {
                    assert(spec_chunks_wire(rest) == b.skip(consumed));
                    assert(s == seq![m] + rest);
                    lemma_chunks_wire_concat(seq![m], rest);
                    assert(seq![m].skip(1) =~= Seq::<ChunkModel>::empty());
                    assert(spec_chunks_wire(Seq::<ChunkModel>::empty()) == Seq::<u8>::empty());
                    assert(spec_chunks_wire(seq![m]) =~= spec_chunk_wire(m.chunk_type, m.data));
                    assert(spec_chunks_wire(s) == spec_chunks_wire(seq![m])
                        + spec_chunks_wire(rest));
                    assert(b =~= b.subrange(0, consumed) + b.skip(consumed));
                    assert(spec_chunks_wire(s) =~= b);
                }
            }
        }
    }
}

/// Round trip over a whole file: a container parsed from valid bytes
/// serializes back to those bytes, bit for bit.
pub proof fn lemma_png_parse_wire(b: Seq<u8>)
    ensures
        spec_png_parse(b) matches Ok(s) ==> spec_png_wire(s) == b,
{
    if let Ok(s) = spec_png_parse(b) {
        assert(b.len() >= 8 && b.subrange(0, 8) == spec_png_signature());
        lemma_chunks_parse_wire(b.skip(8));
        assert(spec_chunks_wire(s) == b.skip(8));
        assert(b =~= b.subrange(0, 8) + b.skip(8));
        assert(spec_png_wire(s) =~= b);
    }
}

/// Appending a chunk whose type is not yet present and then removing the
/// first chunk of that type restores the original sequence, and the removed
/// chunk is exactly the appended one.
pub proof fn lemma_append_remove(s: Seq<ChunkModel>, m: ChunkModel)
    requires
        spec_find_chunk(s, m.chunk_type) is None,
    ensures
        spec_find_chunk(s.push(m), m.chunk_type) == Some(s.len() as int),
        s.push(m)[s.len() as int] == m,
        s.push(m).remove(s.len() as int) == s,
    decreases s.len(),
{
    assert(s.push(m).remove(s.len() as int) =~= s);
    if s.len() == 0 {
        assert(s.push(m)[0] == m);
    } else {
        assert(s.push(m)[0] == s[0]);
        assert(s.push(m).skip(1) =~= s.skip(1).push(m));
        lemma_append_remove(s.skip(1), m);
    }
}

/// The file-level container: an ordered sequence of chunks behind the fixed
/// signature. Chunk order mirrors file layout and is preserved by every
/// operation.
#[derive(Debug)]
pub struct Png {
    chunks: Vec<PngChunk>,
}

impl View for Png {
    type V = Seq<ChunkModel>;

    closed spec fn view(&self) -> Seq<ChunkModel> {
        spec_chunk_views(self.chunks@)
    }
}

impl Png {
    /// Every held chunk satisfies its own invariant.
    pub closed spec fn wf(&self) -> bool {
        forall|i: int| 0 <= i < self.chunks@.len() ==> self.chunks@[i].wf()
    }

    /// A container with no chunks at all.
    pub fn new() -> (r: Png)
        ensures
            r@ == Seq::<ChunkModel>::empty(),
            r.wf(),
    {
        let r = Png { chunks: Vec::new() };
        proof {
            assert(r@ =~= Seq::<ChunkModel>::empty());
        }
        r
    }

    /// A container holding the given chunks, in order.
    pub fn from_chunks(chunks: Vec<PngChunk>) -> (r: Png)
        requires
            forall|i: int| 0 <= i < chunks@.len() ==> chunks@[i].wf(),
        ensures
            r@.len() == chunks@.len(),
            forall|i: int| 0 <= i < chunks@.len() ==> r@[i] == chunks@[i]@,
            r.wf(),
    {
        Png { chunks }
    }

    /// How many chunks the container holds.
    pub fn chunk_count(&self) -> (r: usize)
        ensures
            r == self@.len(),
    {
        self.chunks.len()
    }

    /// The chunk at a position in the sequence.
    pub fn get_chunk(&self, i: usize) -> (r: &PngChunk)
        requires
            i < self@.len(),
        ensures
            r@ == self@[i as int],
            self.wf() ==> r.wf(),
    {
        &self.chunks[i]
    }

    /// Parses a whole file: the eight signature bytes, then chunks until the
    /// input is exhausted. Any chunk failure aborts the parse.
    pub fn try_from(bytes: &[u8]) -> (r: Result<Png, PngError>)
        ensures
            match r {
                Ok(p) => spec_png_parse(bytes@) == Ok::<Seq<ChunkModel>, PngError>(p@) && p.wf(),
                Err(e) => spec_png_parse(bytes@) == Err::<Seq<ChunkModel>, PngError>(e),
            },
    {
        let n = bytes.len();
        if n < 8 {
            return Err(PngError::InvalidSignature);
        }
        let sig = png_signature();
        let mut i: usize = 0;
        while i < 8
            invariant
                i <= 8,
                n == bytes@.len(),
                8 <= n,
                sig@ == spec_png_signature(),
                forall|j: int| 0 <= j < i ==> bytes@[j] == spec_png_signature()[j],
            decreases 8 - i,
        {
            if *slice_index_get(bytes, i) != sig[i] {
                proof {
                    assert(bytes@.subrange(0, 8)[i as int] != spec_png_signature()[i as int]);
                }
                return Err(PngError::InvalidSignature);
            }
            i += 1;
        }
        proof {
            assert(bytes@.subrange(0, 8) =~= spec_png_signature());
        }
        let mut chunks: Vec<PngChunk> = Vec::new();
        let mut pos: usize = 8;
        proof {
            assert(spec_chunk_views(chunks@) =~= Seq::<ChunkModel>::empty());
        }
        while pos < n
            invariant
                8 <= pos <= n,
                n == bytes@.len(),
                bytes@.subrange(0, 8) == spec_png_signature(),
                forall|k: int| 0 <= k < chunks@.len() ==> chunks@[k].wf(),
                spec_chunks_parse(bytes@.skip(8)) == (match spec_chunks_parse(
                    bytes@.skip(pos as int),
                ) {
                    Ok(rest) => Ok::<Seq<ChunkModel>, PngChunkParsingError>(
                        spec_chunk_views(chunks@) + rest,
                    ),
                    Err(e) => Err::<Seq<ChunkModel>, PngChunkParsingError>(e),
                }),
            decreases n - pos,
        {
            let suffix = slice_subrange(bytes, pos, n);
            proof {
                assert(suffix@ =~= bytes@.skip(pos as int));
            }
            let chunk = match PngChunk::try_from(suffix) {
                Ok(c) => c,
                Err(e) => {
                    return Err(PngError::InvalidChunk(e));
                },
            };
            proof {
                lemma_chunk_parse_wire(suffix@);
            }
            let consumed = chunk.data.len() + 12;
            proof {
                let old_views = spec_chunk_views(chunks@);
                assert(bytes@.skip(pos as int).skip(consumed as int) =~= bytes@.skip(
                    pos + consumed,
                ));
                assert(spec_chunk_views(chunks@.push(chunk)) =~= old_views.push(chunk@));
                if let Ok(rest) = spec_chunks_parse(bytes@.skip(pos + consumed)) {
                    assert(old_views.push(chunk@) + rest =~= old_views + (seq![chunk@] + rest));
                }
            }
            chunks.push(chunk);
            pos = pos + consumed;
        }
        proof {
            assert(bytes@.skip(n as int) =~= Seq::<u8>::empty());
            assert(spec_chunks_parse(bytes@.skip(n as int)) == Ok::<
                Seq<ChunkModel>,
                PngChunkParsingError,
            >(Seq::empty()));
            assert(spec_chunk_views(chunks@) + Seq::<ChunkModel>::empty() =~= spec_chunk_views(
                chunks@,
            ));
        }
        Ok(Png { chunks })
    }

    /// Appends a chunk at the end of the sequence, unconditionally; types are
    /// not deduplicated.
    pub fn append_chunk(&mut self, chunk: PngChunk)
        requires
            old(self).wf(),
            chunk.wf(),
        ensures
            final(self)@ == old(self)@.push(chunk@),
            final(self).wf(),
    {
        proof {
            assert(spec_chunk_views(self.chunks@.push(chunk)) =~= spec_chunk_views(
                self.chunks@,
            ).push(chunk@));
        }
        self.chunks.push(chunk);
    }

    /// The index of the first chunk whose type equals `t`, if any.
    fn find_chunk_index(&self, t: &PngChunkType) -> (r: Option<usize>)
        ensures
            match r {
                Some(i) => i < self@.len() && spec_find_chunk(self@, t@) == Some(i as int),
                None => spec_find_chunk(self@, t@) is None,
            },
    {
        let n = self.chunks.len();
        let mut i: usize = 0;
        while i < n
            invariant
                i <= n,
                n == self.chunks@.len(),
                forall|j: int| 0 <= j < i ==> self@[j].chunk_type != t@,
            decreases n - i,
        {
            if self.chunks[i].chunk_type.eq(t) {
                proof {
                    lemma_find_chunk_props(self@, t@);
                    assert(self@[i as int] == self.chunks@[i as int]@);
                    assert(self@[i as int].chunk_type == t@);
                    match spec_find_chunk(self@, t@) {
                        None => {
                            assert(false);
                        },
                        Some(i0) => {
                            if i0 < i as int {
                                assert(self@[i0].chunk_type == t@);
                                assert(false);
                            }
                            if i0 > i as int {
                                assert(self@[i as int].chunk_type != t@);
                                assert(false);
                            }
                        },
                    }
                }
                return Some(i);
            }
            proof {
                assert(self@[i as int] == self.chunks@[i as int]@);
            }
            i += 1;
        }
        proof {
            lemma_find_chunk_props(self@, t@);
            if let Some(i0) = spec_find_chunk(self@, t@) {
                assert(self@[i0].chunk_type == t@);
                assert(false);
            }
        }
        None
    }

    /// Finds the first chunk with the given type string; absence is not an
    /// error. A string that is no valid chunk type matches nothing.
    pub fn chunk_by_type(&self, chunk_type: &str) -> (r: Option<&PngChunk>)
        ensures
            match spec_type_from_str(chunk_type@) {
                Err(_) => r is None,
                Ok(t) => match spec_find_chunk(self@, t) {
                    None => r is None && (forall|i: int|
                        0 <= i < self@.len() ==> self@[i].chunk_type != t),
                    Some(i) => r matches Some(c) && c@ == self@[i] && c@.chunk_type == t,
                },
            },
    {
        let t = match PngChunkType::from_str(chunk_type) {
            Ok(t) => t,
            Err(_) => {
                return None;
            },
        };
        proof {
            lemma_find_chunk_props(self@, t@);
        }
        match self.find_chunk_index(&t) {
            Some(i) => Some(&self.chunks[i]),
            None => None,
        }
    }

    /// Removes and returns the first chunk with the given type string,
    /// preserving the order of the rest; fails softly when none matches.
    pub fn remove_first_chunk(&mut self, chunk_type: &str) -> (r: Result<PngChunk, PngError>)
        requires
            old(self).wf(),
        ensures
            final(self).wf(),
            match spec_type_from_str(chunk_type@) {
                Err(e) => r == Err::<PngChunk, PngError>(PngError::InvalidChunkType(e))
                    && final(self)@ == old(self)@,
                Ok(t) => match spec_find_chunk(old(self)@, t) {
                    None => r == Err::<PngChunk, PngError>(PngError::ChunkNotFound)
                        && final(self)@ == old(self)@,
                    Some(i) => r matches Ok(c) && c@ == old(self)@[i] && c.wf() && final(self)@
                        == old(self)@.remove(i),
                },
            },
    {
        let t = match PngChunkType::from_str(chunk_type) {
            Ok(t) => t,
            Err(e) => {
                return Err(PngError::InvalidChunkType(e));
            },
        };
        match self.find_chunk_index(&t) {
            Some(i) => {
                proof {
                    assert(spec_chunk_views(self.chunks@.remove(i as int)) =~= spec_chunk_views(
                        self.chunks@,
                    ).remove(i as int));
                }
                let c = self.chunks.remove(i);
                Ok(c)
            },
            None => Err(PngError::ChunkNotFound),
        }
    }

    /// Serializes the whole container: the signature, then every chunk's wire
    /// form in sequence order.
    pub fn as_bytes(&self) -> (r: Vec<u8>)
        requires
            self.wf(),
        ensures
            r@ == spec_png_wire(self@),
    {
        let sig = png_signature();
        let mut buf: Vec<u8> = Vec::new();
        buf.push(sig[0]);
        buf.push(sig[1]);
        buf.push(sig[2]);
        buf.push(sig[3]);
        buf.push(sig[4]);
        buf.push(sig[5]);
        buf.push(sig[6]);
        buf.push(sig[7]);
        proof {
            assert(buf@ =~= spec_png_signature() + spec_chunks_wire(self@.take(0)));
        }
        let n = self.chunks.len();
        let mut i: usize = 0;
        while i < n
            invariant
                i <= n,
                n == self.chunks@.len(),
                self.wf(),
                buf@ == spec_png_signature() + spec_chunks_wire(self@.take(i as int)),
            decreases n - i,
        {
            let mut chunk_bytes = self.chunks[i].as_bytes();
            buf.append(&mut chunk_bytes);
            proof {
                assert(self@.take(i + 1) =~= self@.take(i as int) + seq![self@[i as int]]);
                lemma_chunks_wire_concat(self@.take(i as int), seq![self@[i as int]]);
                assert(seq![self@[i as int]].skip(1) =~= Seq::<ChunkModel>::empty());
                assert(spec_chunks_wire(Seq::<ChunkModel>::empty()) == Seq::<u8>::empty());
                assert(spec_chunks_wire(seq![self@[i as int]]) =~= spec_chunk_wire(
                    self@[i as int].chunk_type,
                    self@[i as int].data,
                ));
                assert(buf@ =~= spec_png_signature() + spec_chunks_wire(self@.take(i + 1)));
            }
            i += 1;
        }
        proof {
            assert(self@.take(n as int) =~= self@);
        }
        buf
    }
}

} // verus!
