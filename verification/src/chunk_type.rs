use vstd::prelude::*;

verus! {

/// Number of bytes in a chunk type tag.
pub const PNG_CHUNK_TYPE_LENGTH: usize = 4;

/// The wire form of a chunk type tag: four raw bytes.
pub type PngChunkTypeBinaryData = [u8; 4];

/// True iff `byte` is an ASCII letter, `A`..`Z` or `a`..`z`.
pub open spec fn spec_is_ascii_letter_byte(byte: u8) -> bool {
    (65 <= byte <= 90) || (97 <= byte <= 122)
}

/// True iff `byte` is an ASCII uppercase letter.
pub open spec fn spec_is_uppercase_byte(byte: u8) -> bool {
    65 <= byte <= 90
}

/// True iff `byte` is an ASCII lowercase letter.
pub open spec fn spec_is_lowercase_byte(byte: u8) -> bool {
    97 <= byte <= 122
}

/// A well-formed chunk type tag: exactly four bytes, each an ASCII letter.
pub open spec fn spec_valid_chunk_type(t: Seq<u8>) -> bool {
    t.len() == 4 && (forall|i: int| 0 <= i < 4 ==> spec_is_ascii_letter_byte(t[i]))
}

/// True iff `c` is an ASCII letter, `A`..`Z` or `a`..`z`. Such a character
/// fits one byte, so taking its low byte loses nothing.
pub open spec fn spec_is_ascii_letter_char(c: char) -> bool {
    (65 <= c as u32 <= 90) || (97 <= c as u32 <= 122)
}

/// The four tag bytes of a four-character string, one byte per character;
/// lossless for the ASCII letters a tag may hold.
pub open spec fn spec_narrowed_type_bytes(s: Seq<char>) -> Seq<u8> {
    seq![s[0] as u8, s[1] as u8, s[2] as u8, s[3] as u8]
}

/// What constructing a chunk type from a string yields: the length is checked
/// first (counted in characters); then every character must itself be an
/// ASCII letter, so that nothing is lost when each becomes one tag byte.
pub open spec fn spec_type_from_str(s: Seq<char>) -> Result<Seq<u8>, PngChunkTypeParsingError> {
    if s.len() != 4 {
        Err(PngChunkTypeParsingError::InvalidStringLength { expected: 4, got: s.len() as usize })
    } else if !(forall|i: int| 0 <= i < 4 ==> spec_is_ascii_letter_char(s[i])) {
        Err(PngChunkTypeParsingError::InvalidAsciiCharacters)
    } else {
        Ok(spec_narrowed_type_bytes(s))
    }
}

/// Why a chunk type tag could not be constructed.
#[derive(Debug, PartialEq, Eq, Structural)]
pub enum PngChunkTypeParsingError {
    /// The string form must hold exactly four characters.
    InvalidStringLength { expected: usize, got: usize },
    /// Every tag byte must be an ASCII letter.
    InvalidAsciiCharacters,
}

/// The four-byte ASCII tag that identifies a chunk's purpose. Its invariant:
/// every byte is an ASCII letter. The case of each byte carries one bit flag.
#[derive(Debug, Eq)]
pub struct PngChunkType([u8; 4]);

impl View for PngChunkType {
    type V = Seq<u8>;

    closed spec fn view(&self) -> Seq<u8> {
        self.0@
    }
}

impl PartialEq for PngChunkType {
    /// Two chunk types are equal iff all four tag bytes match exactly.
    fn eq(&self, other: &PngChunkType) -> (r: bool) {
        let r = self.0[0] == other.0[0] && self.0[1] == other.0[1] && self.0[2] == other.0[2]
            && self.0[3] == other.0[3];
        proof {
            if r {
                assert(self@ =~= other@);
            }
        }
        r
    }
}

impl vstd::std_specs::cmp::PartialEqSpecImpl for PngChunkType {
    open spec fn obeys_eq_spec() -> bool {
        true
    }

    open spec fn eq_spec(&self, other: &PngChunkType) -> bool {
        self@ == other@
    }
}

/// Decides whether a byte is an ASCII letter, the only bytes a chunk type may hold.
pub fn is_ascii_letter_byte(byte: u8) -> (r: bool)
    ensures
        r == spec_is_ascii_letter_byte(byte),
{
    (byte >= 65 && byte <= 90) || (byte >= 97 && byte <= 122)
}

/// Decides whether a character is an ASCII letter; anything else, a digit or
/// a character beyond one byte, cannot stand in a chunk type string.
fn is_ascii_letter_char(c: char) -> (r: bool)
    ensures
        r == spec_is_ascii_letter_char(c),
{
    let u = c as u32;
    (u >= 65 && u <= 90) || (u >= 97 && u <= 122)
}

impl PngChunkType {
    /// Every reachable chunk type satisfies this: four bytes, all ASCII letters.
    pub open spec fn wf(&self) -> bool {
        spec_valid_chunk_type(self@)
    }

    /// Constructs a chunk type from its four wire bytes, which must all be
    /// ASCII letters.
    pub fn try_from(bytes: PngChunkTypeBinaryData) -> (r: Result<Self, PngChunkTypeParsingError>)
        ensures
            spec_valid_chunk_type(bytes@) ==> (r matches Ok(t) && t@ == bytes@ && t.wf()),
            !spec_valid_chunk_type(bytes@) ==> r == Err::<Self, _>(
                PngChunkTypeParsingError::InvalidAsciiCharacters,
            ),
    {
        let valid = is_ascii_letter_byte(bytes[0]) && is_ascii_letter_byte(bytes[1])
            && is_ascii_letter_byte(bytes[2]) && is_ascii_letter_byte(bytes[3]);
        if !valid {
            return Err(PngChunkTypeParsingError::InvalidAsciiCharacters);
        }
        Ok(PngChunkType(bytes))
    }

    /// Constructs a chunk type from a string of exactly four characters.
    /// Every character must itself be an ASCII letter: one that is not, a
    /// digit or a character wider than one byte, is rejected rather than
    /// silently truncated.
    pub fn from_str(s: &str) -> (r: Result<Self, PngChunkTypeParsingError>)
        ensures
            match r {
                Ok(t) => spec_type_from_str(s@) == Ok::<Seq<u8>, PngChunkTypeParsingError>(t@)
                    && t.wf(),
                Err(e) => spec_type_from_str(s@) == Err::<Seq<u8>, PngChunkTypeParsingError>(e),
            },
    {
        let n = s.unicode_len();
        if n != 4 {
            return Err(PngChunkTypeParsingError::InvalidStringLength { expected: 4, got: n });
        }
        let c0 = s.get_char(0);
        let c1 = s.get_char(1);
        let c2 = s.get_char(2);
        let c3 = s.get_char(3);
        let valid = is_ascii_letter_char(c0) && is_ascii_letter_char(c1)
            && is_ascii_letter_char(c2) && is_ascii_letter_char(c3);
        if !valid {
            return Err(PngChunkTypeParsingError::InvalidAsciiCharacters);
        }
        let bytes = [c0 as u8, c1 as u8, c2 as u8, c3 as u8];
        proof {
            assert(bytes@ =~= spec_narrowed_type_bytes(s@));
            assert(spec_valid_chunk_type(bytes@));
        }
        Self::try_from(bytes)
    }

    /// The four wire bytes of the tag.
    pub fn bytes(&self) -> (r: PngChunkTypeBinaryData)
        ensures
            r@ == self@,
    {
        let r = self.0;
        proof {
            assert(r@ =~= self@);
        }
        r
    }

    /// True iff every byte of the tag is an ASCII letter.
    pub fn is_valid_chars(&self) -> (r: bool)
        ensures
            r == spec_valid_chunk_type(self@),
    {
        let r = is_ascii_letter_byte(self.0[0]) && is_ascii_letter_byte(self.0[1])
            && is_ascii_letter_byte(self.0[2]) && is_ascii_letter_byte(self.0[3]);
        proof {
            assert(self@.len() == 4);
            assert(self@[0] == self.0@[0] && self@[1] == self.0@[1] && self@[2] == self.0@[2]
                && self@[3] == self.0@[3]);
        }
        r
    }

    /// True iff the tag is fully valid: the reserved bit holds (third byte
    /// uppercase) and every byte is an ASCII letter.
    pub fn is_valid(&self) -> (r: bool)
        ensures
            r == (spec_is_uppercase_byte(self@[2]) && spec_valid_chunk_type(self@)),
    {
        let upper = self.0[2] >= 65 && self.0[2] <= 90;
        upper && self.is_valid_chars()
    }

    /// True iff the chunk is critical: first byte uppercase.
    pub fn is_critical(&self) -> (r: bool)
        ensures
            r == spec_is_uppercase_byte(self@[0]),
    {
        self.0[0] >= 65 && self.0[0] <= 90
    }

    /// True iff the chunk is public: second byte uppercase.
    pub fn is_public(&self) -> (r: bool)
        ensures
            r == spec_is_uppercase_byte(self@[1]),
    {
        self.0[1] >= 65 && self.0[1] <= 90
    }

    /// True iff the reserved bit is valid: third byte uppercase.
    pub fn is_reserved_bit_valid(&self) -> (r: bool)
        ensures
            r == spec_is_uppercase_byte(self@[2]),
    {
        self.0[2] >= 65 && self.0[2] <= 90
    }

    /// True iff the chunk is safe to copy: fourth byte lowercase.
    pub fn is_safe_to_copy(&self) -> (r: bool)
        ensures
            r == spec_is_lowercase_byte(self@[3]),
    {
        self.0[3] >= 97 && self.0[3] <= 122
    }
}

} // verus!
