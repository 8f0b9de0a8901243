use vstd::prelude::*;
use vstd::slice::{slice_index_get, slice_subrange, slice_to_vec};

use crate::chunk_type::{
    spec_valid_chunk_type, PngChunkType, PngChunkTypeBinaryData, PngChunkTypeParsingError,
    PNG_CHUNK_TYPE_LENGTH,
};
use crate::wire::{
    crc32, crc32_of, lemma_u32_be_from_be, lemma_u32_from_be_be, spec_u32_be, spec_u32_from_be,
    u32_from_be_bytes, u32_to_be_bytes,
};

verus! {

/// Number of bytes of the length field that opens a chunk's wire form.
pub const PNG_CHUNK_DATA_LENGTH_LENGTH: usize = 4;

/// Number of bytes of the checksum field that closes a chunk's wire form.
pub const CRC_LENGTH: usize = 4;

/// Fewest bytes a chunk's wire form can have: length, type and checksum fields.
pub const PNG_CHUNK_MINIMUM_LENGTH: usize = PNG_CHUNK_DATA_LENGTH_LENGTH + PNG_CHUNK_TYPE_LENGTH
    + CRC_LENGTH;

/// The mathematical content of a chunk: its type tag bytes and its payload.
/// The length and checksum of the wire form are both functions of these.
#[verifier::ext_equal]
pub struct ChunkModel {
    pub chunk_type: Seq<u8>,
    pub data: Seq<u8>,
}

/// Why a chunk could not be parsed from bytes.
#[derive(Debug, PartialEq, Eq, Structural)]
pub enum PngChunkParsingError {
    /// The input held fewer bytes than the three fixed fields need.
    InvalidMinimumLength(usize),
    /// The input held fewer bytes than its length field declares.
    InvalidDataLength { expected: usize, got: usize },
    /// The checksum read from the wire does not match the one computed over
    /// the type and data bytes; `expected` names the freshly computed value,
    /// `got` the value read from the wire.
    InvalidCRC { expected: u32, got: u32 },
    /// The type tag bytes are not all ASCII letters.
    InvalidChunkType(PngChunkTypeParsingError),
}

/// The wire form of a chunk: big-endian payload length, type tag bytes,
/// payload bytes, and the big-endian CRC-32 of type and payload together.
pub open spec fn spec_chunk_wire(t: Seq<u8>, d: Seq<u8>) -> Seq<u8> {
    spec_u32_be(d.len() as u32) + t + d + spec_u32_be(crc32_of(t + d))
}

/// What parsing a chunk from bytes yields. Only the first `length + 12` bytes
/// take part; trailing bytes belong to subsequent chunks. The parser trusts
/// the length field and slices exactly that many payload bytes.
pub open spec fn spec_chunk_parse(b: Seq<u8>) -> Result<ChunkModel, PngChunkParsingError> {
    if b.len() < 12 {
        Err(PngChunkParsingError::InvalidMinimumLength(b.len() as usize))
    } else {
        let len = spec_u32_from_be(b[0], b[1], b[2], b[3]) as int;
        if b.len() < len + 12 {
            Err(PngChunkParsingError::InvalidDataLength {
                expected: len as usize,
                got: b.len() as usize,
            })
        } else {
            let t = b.subrange(4, 8);
            if !spec_valid_chunk_type(t) {
                Err(PngChunkParsingError::InvalidChunkType(
                    PngChunkTypeParsingError::InvalidAsciiCharacters,
                ))
            } else {
                let d = b.subrange(8, 8 + len);
                let crc_read = spec_u32_from_be(b[8 + len], b[9 + len], b[10 + len], b[11 + len]);
                if crc32_of(t + d) != crc_read {
                    Err(PngChunkParsingError::InvalidCRC {
                        expected: crc32_of(t + d),
                        got: crc_read,
                    })
                } else {
                    Ok(ChunkModel { chunk_type: t, data: d })
                }
            }
        }
    }
}

/// One length-prefixed, type-tagged, checksummed record of a PNG file.
/// The checksum is never stored: it is recomputed from the type and data
/// whenever the chunk is serialized or checked.
#[derive(Debug)]
pub struct PngChunk {
    pub length: u32,
    pub chunk_type: PngChunkType,
    pub data: Vec<u8>,
}

impl View for PngChunk {
    type V = ChunkModel;

    open spec fn view(&self) -> ChunkModel {
        ChunkModel { chunk_type: self.chunk_type@, data: self.data@ }
    }
}

impl PngChunk {
    /// The chunk's invariant: the length field counts exactly the payload
    /// bytes, and the type tag is well formed.
    pub open spec fn wf(&self) -> bool {
        self.length == self.data@.len() && self.chunk_type.wf()
    }

    /// Builds a chunk from a type tag and a payload; the length is derived.
    /// The payload must fit the 32-bit length field.
    pub fn new(chunk_type: PngChunkType, data: Vec<u8>) -> (r: PngChunk)
        requires
            chunk_type.wf(),
            data@.len() <= u32::MAX,
        ensures
            r@ == (ChunkModel { chunk_type: chunk_type@, data: data@ }),
            r.length == data@.len(),
            r.wf(),
    {
        let length = data.len() as u32;
        PngChunk { length, chunk_type, data }
    }

    /// The CRC-32 checksum over the type tag bytes followed by the payload.
    pub fn crc(&self) -> (r: u32)
        ensures
            r == crc32_of(self.chunk_type@ + self.data@),
    {
        let type_bytes = self.chunk_type.bytes();
        let mut buf: Vec<u8> = Vec::new();
        buf.push(type_bytes[0]);
        buf.push(type_bytes[1]);
        buf.push(type_bytes[2]);
        buf.push(type_bytes[3]);
        proof {
            assert(buf@ =~= self.chunk_type@ + self.data@.take(0));
        }
        let mut i: usize = 0;
        while i < self.data.len()
            invariant
                i <= self.data@.len(),
                buf@ == self.chunk_type@ + self.data@.take(i as int),
            decreases self.data@.len() - i,
        {
            buf.push(self.data[i]);
            proof {
                assert(buf@ =~= self.chunk_type@ + self.data@.take(i + 1));
            }
            i += 1;
        }
        proof {
            assert(buf@ =~= self.chunk_type@ + self.data@);
        }
        crc32(buf.as_slice())
    }

    /// Parses one chunk from the front of a byte slice, checking the length,
    /// the type tag and the checksum; trailing bytes are left untouched.
    pub fn try_from(bytes: &[u8]) -> (r: Result<PngChunk, PngChunkParsingError>)
        ensures
            match r {
                Ok(c) => spec_chunk_parse(bytes@) == Ok::<ChunkModel, PngChunkParsingError>(c@)
                    && c.wf(),
                Err(e) => spec_chunk_parse(bytes@) == Err::<ChunkModel, PngChunkParsingError>(e),
            },
    {
        let n = bytes.len();
        if n < PNG_CHUNK_MINIMUM_LENGTH {
            return Err(PngChunkParsingError::InvalidMinimumLength(n));
        }
        let length = u32_from_be_bytes(
            *slice_index_get(bytes, 0),
            *slice_index_get(bytes, 1),
            *slice_index_get(bytes, 2),
            *slice_index_get(bytes, 3),
        );
        let length_us = length as usize;
        if n - PNG_CHUNK_MINIMUM_LENGTH < length_us {
            return Err(PngChunkParsingError::InvalidDataLength { expected: length_us, got: n });
        }
        let type_bytes: PngChunkTypeBinaryData = [
            *slice_index_get(bytes, 4),
            *slice_index_get(bytes, 5),
            *slice_index_get(bytes, 6),
            *slice_index_get(bytes, 7),
        ];
        proof {
            assert(type_bytes@ =~= bytes@.subrange(4, 8));
        }
        let chunk_type = match PngChunkType::try_from(type_bytes) {
            Ok(t) => t,
            Err(e) => {
                return Err(PngChunkParsingError::InvalidChunkType(e));
            },
        };
        let data = slice_to_vec(slice_subrange(bytes, 8, 8 + length_us));
        let crc_read = u32_from_be_bytes(
            *slice_index_get(bytes, 8 + length_us),
            *slice_index_get(bytes, 9 + length_us),
            *slice_index_get(bytes, 10 + length_us),
            *slice_index_get(bytes, 11 + length_us),
        );
        let chunk = PngChunk { length, chunk_type, data };
        let calculated_crc = chunk.crc();
        if crc_read != calculated_crc {
            return Err(PngChunkParsingError::InvalidCRC {
                expected: calculated_crc,
                got: crc_read,
            });
        }
        Ok(chunk)
    }

    /// Serializes the chunk to its wire form; the checksum is freshly
    /// computed, so any payload mutation is reflected.
    pub fn as_bytes(&self) -> (r: Vec<u8>)
        requires
            self.wf(),
        ensures
            r@ == spec_chunk_wire(self.chunk_type@, self.data@),
    {
        let mut buf: Vec<u8> = Vec::new();
        let len_bytes = u32_to_be_bytes(self.length);
        buf.push(len_bytes[0]);
        buf.push(len_bytes[1]);
        buf.push(len_bytes[2]);
        buf.push(len_bytes[3]);
        let type_bytes = self.chunk_type.bytes();
        buf.push(type_bytes[0]);
        buf.push(type_bytes[1]);
        buf.push(type_bytes[2]);
        buf.push(type_bytes[3]);
        proof {
            assert(buf@ =~= spec_u32_be(self.length) + self.chunk_type@ + self.data@.take(0));
        }
        let mut i: usize = 0;
        while i < self.data.len()
            invariant
                i <= self.data@.len(),
                buf@ == spec_u32_be(self.length) + self.chunk_type@ + self.data@.take(i as int),
            decreases self.data@.len() - i,
        {
            buf.push(self.data[i]);
            proof {
                assert(buf@ =~= spec_u32_be(self.length) + self.chunk_type@ + self.data@.take(
                    i + 1,
                ));
            }
            i += 1;
        }
        let checksum = self.crc();
        let crc_bytes = u32_to_be_bytes(checksum);
        buf.push(crc_bytes[0]);
        buf.push(crc_bytes[1]);
        buf.push(crc_bytes[2]);
        buf.push(crc_bytes[3]);
        proof {
            assert(self.data@.take(self.data@.len() as int) =~= self.data@);
            assert(buf@ =~= spec_chunk_wire(self.chunk_type@, self.data@));
        }
        buf
    }

    /// Attempts to read the payload as a UTF-8 string.
    pub fn data_as_string(&self) -> (r: Result<String, std::string::FromUtf8Error>)
        ensures
            match r {
                Ok(s) => utf8_of(self.data@) == Some(s@),
                Err(_) => utf8_of(self.data@) is None,
            },
    {
        string_from_utf8(&self.data)
    }
}

#[verifier::external_type_specification]
#[verifier::external_body]
pub struct ExFromUtf8Error(std::string::FromUtf8Error);

/// The characters the bytes decode to under UTF-8, or nothing where they are
/// not valid UTF-8. Pinned down only by the outside routine that decodes.
pub uninterp spec fn utf8_of(bytes: Seq<u8>) -> Option<Seq<char>>;

/// Relies on String::from_utf8: decodes the bytes as UTF-8; whether it
/// succeeds, and the characters it yields, depend on the bytes alone.
#[verifier::external_body]
fn string_from_utf8(bytes: &Vec<u8>) -> (r: Result<String, std::string::FromUtf8Error>)
    ensures
        match r {
            Ok(s) => utf8_of(bytes@) == Some(s@),
            Err(_) => utf8_of(bytes@) is None,
        },
{
    String::from_utf8(bytes.clone())
}

/// Round trip, one direction: a chunk built from a type and a payload parses
/// back from its own wire form to the very same type and payload.
pub proof fn lemma_chunk_wire_parse(m: ChunkModel)
    requires
        spec_valid_chunk_type(m.chunk_type),
        m.data.len() <= u32::MAX,
    ensures
        spec_chunk_parse(spec_chunk_wire(m.chunk_type, m.data)) == Ok::<
            ChunkModel,
            PngChunkParsingError,
        >(m),
{
    let w = spec_chunk_wire(m.chunk_type, m.data);
    let len_u32 = m.data.len() as u32;
    assert(w.len() == m.data.len() + 12);
    lemma_u32_from_be_be(len_u32);
    assert(w[0] == (len_u32 >> 24) as u8);
    assert(w[1] == (len_u32 >> 16) as u8);
    assert(w[2] == (len_u32 >> 8) as u8);
    assert(w[3] == len_u32 as u8);
    assert(spec_u32_from_be(w[0], w[1], w[2], w[3]) == len_u32);
    let len = len_u32 as int;
    assert(w.subrange(4, 8) =~= m.chunk_type);
    assert(w.subrange(8, 8 + len) =~= m.data);
    let c = crc32_of(m.chunk_type + m.data);
    lemma_u32_from_be_be(c);
    assert(w[8 + len] == (c >> 24) as u8);
    assert(w[9 + len] == (c >> 16) as u8);
    assert(w[10 + len] == (c >> 8) as u8);
    assert(w[11 + len] == c as u8);
    assert(spec_u32_from_be(w[8 + len], w[9 + len], w[10 + len], w[11 + len]) == c);
    assert(spec_chunk_parse(w) matches Ok(p) && p =~= m);
}

/// Round trip, other direction: a successfully parsed chunk serializes back
/// to exactly the bytes it consumed, the first `length + 12` of the input.
pub proof fn lemma_chunk_parse_wire(b: Seq<u8>)
    ensures
        spec_chunk_parse(b) matches Ok(m) ==> {
            &&& m.data.len() + 12 <= b.len()
            &&& spec_valid_chunk_type(m.chunk_type)
            &&& spec_chunk_wire(m.chunk_type, m.data) == b.subrange(0, m.data.len() + 12 as int)
        },
{
    if let Ok(m) = spec_chunk_parse(b) {
        let len = spec_u32_from_be(b[0], b[1], b[2], b[3]) as int;
        assert(m.data =~= b.subrange(8, 8 + len));
        assert(m.data.len() == len);
        lemma_u32_be_from_be(b[0], b[1], b[2], b[3]);
        assert(spec_u32_be(m.data.len() as u32) =~= b.subrange(0, 4));
        assert(m.chunk_type =~= b.subrange(4, 8));
        let crc_read = spec_u32_from_be(b[8 + len], b[9 + len], b[10 + len], b[11 + len]);
        assert(crc32_of(m.chunk_type + m.data) == crc_read);
        lemma_u32_be_from_be(b[8 + len], b[9 + len], b[10 + len], b[11 + len]);
        assert(spec_u32_be(crc_read) =~= b.subrange(8 + len, 12 + len));
        assert(spec_chunk_wire(m.chunk_type, m.data) =~= b.subrange(0, m.data.len() + 12 as int));
    }
}

} // verus!
