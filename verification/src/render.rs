use vstd::prelude::*;

use crate::chunk::{ChunkModel, PngChunk};
use crate::chunk_type::PngChunkType;
use crate::png::Png;
use crate::wire::crc32_of;

verus! {

/// The decimal digit character for a value below ten.
pub open spec fn spec_digit_char(d: nat) -> char {
    ((48 + d) as u8) as char
}

/// The decimal rendering of a number, most significant digit first.
pub open spec fn spec_dec(n: nat) -> Seq<char>
    decreases n,
{
    if n < 10 {
        seq![spec_digit_char(n)]
    } else {
        spec_dec((n / 10) as nat).push(spec_digit_char((n % 10) as nat))
    }
}

/// Relies on String::push: appends exactly the given character.
#[verifier::external_body]
fn push_char(s: &mut String, c: char)
    ensures
        final(s)@ == old(s)@.push(c),
{
    s.push(c)
}

/// Renders a number in decimal.
pub fn dec_string(n: u64) -> (r: String)
    ensures
        r@ == spec_dec(n as nat),
    decreases n,
{
    if n < 10 {
        let mut s = String::new();
        let d: u8 = 48 + (n as u8);
        push_char(&mut s, d as char);
        proof {
            assert(s@ =~= seq![spec_digit_char(n as nat)]);
        }
        s
    } else {
        let mut s = dec_string(n / 10);
        let d: u8 = 48 + ((n % 10) as u8);
        push_char(&mut s, d as char);
        s
    }
}

/// The tail of a byte-list rendering: a comma and space, then the decimal
/// value, for each byte.
pub open spec fn spec_bytes_rest(d: Seq<u8>) -> Seq<char>
    decreases d.len(),
{
    if d.len() == 0 {
        Seq::empty()
    } else {
        ", "@ + spec_dec(d[0] as nat) + spec_bytes_rest(d.skip(1))
    }
}

/// A byte list rendered as `[82, 117]`, the debugging form of a payload.
pub open spec fn spec_bytes_debug(d: Seq<u8>) -> Seq<char> {
    if d.len() == 0 {
        "[]"@
    } else {
        "["@ + spec_dec(d[0] as nat) + spec_bytes_rest(d.skip(1)) + "]"@
    }
}

/// Concatenation distributes over the byte-list tail rendering.
proof fn lemma_bytes_rest_concat(a: Seq<u8>, b: Seq<u8>)
    ensures
        spec_bytes_rest(a + b) == spec_bytes_rest(a) + spec_bytes_rest(b),
    decreases a.len(),
{
    if a.len() == 0 {
        assert(a + b =~= b);
        assert(spec_bytes_rest(a) + spec_bytes_rest(b) =~= spec_bytes_rest(b));
    } else {
        assert((a + b).skip(1) =~= a.skip(1) + b);
        assert((a + b)[0] == a[0]);
        lemma_bytes_rest_concat(a.skip(1), b);
        assert((", "@ + spec_dec(a[0] as nat) + spec_bytes_rest(a.skip(1))) + spec_bytes_rest(b)
            =~= ", "@ + spec_dec(a[0] as nat) + (spec_bytes_rest(a.skip(1)) + spec_bytes_rest(
            b,
        )));
    }
}

/// Renders a payload in the debugging form of a byte list.
pub fn bytes_debug_string(d: &Vec<u8>) -> (r: String)
    ensures
        r@ == spec_bytes_debug(d@),
{
    let n = d.len();
    if n == 0 {
        let mut s = String::new();
        s.append("[]");
        return s;
    }
    let mut s = String::new();
    s.append("[");
    let first = dec_string(d[0] as u64);
    s.append(first.as_str());
    proof {
        assert(d@.subrange(1, 1) =~= Seq::<u8>::empty());
        assert(s@ =~= "["@ + spec_dec(d@[0] as nat) + spec_bytes_rest(d@.subrange(1, 1)));
    }
    let mut i: usize = 1;
    while i < n
        invariant
            1 <= i <= n,
            n == d@.len(),
            s@ == "["@ + spec_dec(d@[0] as nat) + spec_bytes_rest(d@.subrange(1, i as int)),
        decreases n - i,
    {
        s.append(", ");
        let num = dec_string(d[i] as u64);
        s.append(num.as_str());
        proof {
            assert(d@.subrange(1, i + 1) =~= d@.subrange(1, i as int) + seq![d@[i as int]]);
            lemma_bytes_rest_concat(d@.subrange(1, i as int), seq![d@[i as int]]);
            assert(seq![d@[i as int]].skip(1) =~= Seq::<u8>::empty());
            assert(spec_bytes_rest(Seq::<u8>::empty()) == Seq::<char>::empty());
            assert(spec_bytes_rest(seq![d@[i as int]]) =~= ", "@ + spec_dec(d@[i as int] as nat));
            assert(s@ =~= "["@ + spec_dec(d@[0] as nat) + spec_bytes_rest(
                d@.subrange(1, i + 1),
            ));
        }
        i += 1;
    }
    s.append("]");
    proof {
        assert(d@.subrange(1, n as int) =~= d@.skip(1));
        assert(s@ =~= spec_bytes_debug(d@));
    }
    s
}

/// The characters of a chunk type tag, one per byte.
pub open spec fn spec_type_chars(t: Seq<u8>) -> Seq<char> {
    Seq::new(t.len(), |i: int| t[i] as char)
}

impl PngChunkType {
    /// The tag as a four-character string, e.g. `RuSt`.
    pub fn to_string(&self) -> (r: String)
        ensures
            r@ == spec_type_chars(self@),
    {
        let b = self.bytes();
        let mut s = String::new();
        push_char(&mut s, b[0] as char);
        push_char(&mut s, b[1] as char);
        push_char(&mut s, b[2] as char);
        push_char(&mut s, b[3] as char);
        proof {
            assert(s@ =~= spec_type_chars(self@));
        }
        s
    }
}

/// The debugging rendering of one chunk: its type, its length, its payload
/// bytes and its freshly computed checksum.
pub open spec fn spec_chunk_render(m: ChunkModel) -> Seq<char> {
    spec_type_chars(m.chunk_type) + " ("@ + spec_dec(m.data.len()) + ")"@ + spec_bytes_debug(
        m.data,
    ) + " (CRC: "@ + spec_dec(crc32_of(m.chunk_type + m.data) as nat) + ")"@
}

impl PngChunk {
    /// Renders the chunk for human inspection: type, length, payload and CRC.
    pub fn to_string(&self) -> (r: String)
        requires
            self.wf(),
        ensures
            r@ == spec_chunk_render(self@),
    {
        let mut s = self.chunk_type.to_string();
        s.append(" (");
        let num = dec_string(self.length as u64);
        s.append(num.as_str());
        s.append(")");
        let payload = bytes_debug_string(&self.data);
        s.append(payload.as_str());
        s.append(" (CRC: ");
        let crc_str = dec_string(self.crc() as u64);
        s.append(crc_str.as_str());
        s.append(")");
        proof {
            assert(s@ =~= spec_chunk_render(self@));
        }
        s
    }
}

/// The chunk lines of a container rendering: one line per chunk, in order.
pub open spec fn spec_chunk_lines(s: Seq<ChunkModel>) -> Seq<char>
    decreases s.len(),
{
    if s.len() == 0 {
        Seq::empty()
    } else {
        "\n"@ + spec_chunk_render(s[0]) + spec_chunk_lines(s.skip(1))
    }
}

/// Concatenation distributes over the per-chunk lines.
proof fn lemma_chunk_lines_concat(a: Seq<ChunkModel>, b: Seq<ChunkModel>)
    ensures
        spec_chunk_lines(a + b) == spec_chunk_lines(a) + spec_chunk_lines(b),
    decreases a.len(),
{
    if a.len() == 0 {
        assert(a + b =~= b);
        assert(spec_chunk_lines(a) + spec_chunk_lines(b) =~= spec_chunk_lines(b));
    } else {
        assert((a + b).skip(1) =~= a.skip(1) + b);
        assert((a + b)[0] == a[0]);
        lemma_chunk_lines_concat(a.skip(1), b);
        assert(("\n"@ + spec_chunk_render(a[0]) + spec_chunk_lines(a.skip(1)))
            + spec_chunk_lines(b) =~= "\n"@ + spec_chunk_render(a[0]) + (spec_chunk_lines(
            a.skip(1),
        ) + spec_chunk_lines(b)));
    }
}

/// The rendering of a whole container: a header with the signature status
/// and the chunk count, then one line per chunk. A container held in memory
/// always carries the fixed valid signature, so the status reads `ok`.
pub open spec fn spec_png_render(s: Seq<ChunkModel>) -> Seq<char> {
    "PNG (signature ok, "@ + spec_dec(s.len()) + " chunks)"@ + spec_chunk_lines(s)
}

impl Png {
    /// Renders the container for human inspection: the signature status and
    /// the chunk count, then every chunk on a line of its own.
    pub fn to_string(&self) -> (r: String)
        requires
            self.wf(),
        ensures
            r@ == spec_png_render(self@),
    {
        let n = self.chunk_count();
        let mut s = String::new();
        s.append("PNG (signature ok, ");
        let count = dec_string(n as u64);
        s.append(count.as_str());
        s.append(" chunks)");
        proof {
            assert(self@.take(0) =~= Seq::<ChunkModel>::empty());
            assert(spec_chunk_lines(Seq::<ChunkModel>::empty()) == Seq::<char>::empty());
            assert(s@ =~= "PNG (signature ok, "@ + spec_dec(self@.len()) + " chunks)"@
                + spec_chunk_lines(self@.take(0)));
        }
        let mut i: usize = 0;
        while i < n
            invariant
                i <= n,
                n == self@.len(),
                self.wf(),
                s@ == "PNG (signature ok, "@ + spec_dec(self@.len()) + " chunks)"@
                    + spec_chunk_lines(self@.take(i as int)),
            decreases n - i,
        {
            s.append("\n");
            let line = self.get_chunk(i).to_string();
            s.append(line.as_str());
            proof {
                assert(self@.take(i + 1) =~= self@.take(i as int) + seq![self@[i as int]]);
                lemma_chunk_lines_concat(self@.take(i as int), seq![self@[i as int]]);
                assert(seq![self@[i as int]].skip(1) =~= Seq::<ChunkModel>::empty());
                assert(spec_chunk_lines(Seq::<ChunkModel>::empty()) == Seq::<char>::empty());
                assert(spec_chunk_lines(seq![self@[i as int]]) =~= "\n"@ + spec_chunk_render(
                    self@[i as int],
                ));
                assert(s@ =~= "PNG (signature ok, "@ + spec_dec(self@.len()) + " chunks)"@
                    + spec_chunk_lines(self@.take(i + 1)));
            }
            i += 1;
        }
        proof {
            assert(self@.take(n as int) =~= self@);
        }
        s
    }
}

} // verus!
