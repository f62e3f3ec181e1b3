//! Encoded words (RFC 2047): `=?charset?Q?text?=` and `=?charset?B?text?=`.
use vstd::prelude::*;
use vstd::string::StringSliceAdditionalSpecFns;
use crate::dup::seq_view;
use crate::text::ascii::{bytes_to_vec, sub_to_vec};
use crate::text::run::{ByteClass, run1, run_end, take_run, take_run1, lemma_run_end};
use crate::text::tag::{spec_byte, byte, spec_tag, tag};
use crate::text::words::{spec_mime_atom, mime_atom};
use crate::mime::charset::{label_decoded, label_known, effective_label, charset_label, decode_with_label};

verus! {

// ---------------------------------------------------------------- base64

/// What `base64::engine::general_purpose::STANDARD_NO_PAD` decodes from the
/// text: the bytes it stands for, or `None` where it is no valid unpadded
/// base64.
pub uninterp spec fn base64_decoded(txt: Seq<u8>) -> Option<Seq<u8>>;

/// `base64::Engine::decode` with the `STANDARD_NO_PAD` engine, its error
/// turned into `None`. Which bytes come out is left to the name
/// `base64_decoded`.
#[verifier::external_body]
fn base64_decode(txt: &[u8]) -> (r: Option<Vec<u8>>)
    ensures
        match r {
            Some(v) => base64_decoded(txt@) == Some(v@),
            None => base64_decoded(txt@) is None,
        },
{
    base64::Engine::decode(&base64::engine::general_purpose::STANDARD_NO_PAD, txt).ok()
}

// ---------------------------------------------------------------- Q encoding

/// A piece of Q-encoded text.
#[derive(Debug, PartialEq, Eq)]
pub enum QuotedChunk {
    /// Printable ASCII other than `=`, `?` and `_`, kept as it is.
    Safe(Vec<u8>),
    /// `=XX`: one byte in hexadecimal.
    Encoded(u8),
    /// `_`: a space.
    Space,
}

pub enum QuotedChunkV {
    Safe(Seq<u8>),
    Encoded(u8),
    Space,
}

impl View for QuotedChunk {
    type V = QuotedChunkV;

    open spec fn view(&self) -> QuotedChunkV {
        match self {
            QuotedChunk::Safe(v) => QuotedChunkV::Safe(v@),
            QuotedChunk::Encoded(b) => QuotedChunkV::Encoded(*b),
            QuotedChunk::Space => QuotedChunkV::Space,
        }
    }
}

pub open spec fn is_hex(b: u8) -> bool {
    (0x30 <= b <= 0x39) || (0x41 <= b <= 0x46) || (0x61 <= b <= 0x66)
}

pub open spec fn hex_value(b: u8) -> int {
    if b <= 0x39 {
        b - 0x30
    } else if b <= 0x46 {
        b - 0x37
    } else {
        b - 0x57
    }
}

/// Two characters read as a base-16 `u8` (`u8::from_str_radix`): two hex
/// digits, or a plus sign and one hex digit.
pub open spec fn hex_pair(a: u8, b: u8) -> Option<u8> {
    if is_hex(a) && is_hex(b) {
        Some((16 * hex_value(a) + hex_value(b)) as u8)
    } else if a == 0x2B && is_hex(b) {
        Some(hex_value(b) as u8)
    } else {
        None
    }
}

/// One chunk at `i`: a run of safe characters, `_`, or `=` and a byte in
/// hexadecimal, tried in that order.
pub open spec fn spec_quoted_chunk(s: Seq<u8>, i: int) -> Option<(int, QuotedChunkV)> {
    match run1(s, i, ByteClass::SafeChar2) {
        Some(e) => Some((e, QuotedChunkV::Safe(s.subrange(i, e)))),
        None => if 0 <= i < s.len() && s[i] == 0x5F {
            Some((i + 1, QuotedChunkV::Space))
        } else if 0 <= i && i + 3 <= s.len() && s[i] == 0x3D && hex_pair(s[i + 1], s[i + 2]) is Some {
            Some((i + 3, QuotedChunkV::Encoded(hex_pair(s[i + 1], s[i + 2])->0)))
        } else {
            None
        },
    }
}

pub proof fn lemma_quoted_chunk(s: Seq<u8>, i: int)
    requires
        0 <= i <= s.len(),
    ensures
        spec_quoted_chunk(s, i) matches Some((j, c)) ==> i < j <= s.len(),
{
    lemma_run_end(s, i, ByteClass::SafeChar2);
}

/// `ptext`: as many chunks as follow one another from `i`; their end.
pub open spec fn spec_ptext(s: Seq<u8>, i: int) -> (int, Seq<QuotedChunkV>)
    decreases s.len() - i,
{
    if 0 <= i <= s.len() {
        match spec_quoted_chunk(s, i) {
            Some((j, c)) => if i < j <= s.len() {
                let (e, cs) = spec_ptext(s, j);
                (e, seq![c] + cs)
            } else {
                (i, Seq::empty())
            },
            None => (i, Seq::empty()),
        }
    } else {
        (i, Seq::empty())
    }
}

fn hex_digit(b: u8) -> (r: Option<u8>)
    ensures
        r == (if is_hex(b) {
            Some(hex_value(b) as u8)
        } else {
            None::<u8>
        }),
{
    if 0x30 <= b && b <= 0x39 {
        Some(b - 0x30)
    } else if 0x41 <= b && b <= 0x46 {
        Some(b - 0x37)
    } else if 0x61 <= b && b <= 0x66 {
        Some(b - 0x57)
    } else {
        None
    }
}

/// `=` and a byte in hexadecimal at `i`.
pub fn hex_octet(s: &[u8], i: usize) -> (r: Option<(usize, QuotedChunk)>)
    ensures
        match r {
            Some((j, c)) => {
                &&& 0 <= i && i + 3 <= s.len() && s[i as int] == 0x3D
                &&& hex_pair(s[i + 1], s[i + 2]) == Some(c->Encoded_0)
                &&& c is Encoded
                &&& j == i + 3
            },
            None => !(i + 3 <= s.len() && s[i as int] == 0x3D && hex_pair(s[i + 1], s[i + 2]) is Some),
        },
{
    if i >= s.len() || s.len() - i < 3 || s[i] != 0x3D {
        return None;
    }
    let a = s[i + 1];
    let b = s[i + 2];
    match (hex_digit(a), hex_digit(b)) {
        (Some(x), Some(y)) => Some((i + 3, QuotedChunk::Encoded(16 * x + y))),
        (None, Some(y)) => if a == 0x2B {
            Some((i + 3, QuotedChunk::Encoded(y)))
        } else {
            None
        },
        _ => None,
    }
}

/// One chunk of Q-encoded text at `i`.
pub fn quoted_chunk(s: &[u8], i: usize) -> (r: Option<(usize, QuotedChunk)>)
    requires
        i <= s.len(),
    ensures
        match r {
            Some((j, c)) => spec_quoted_chunk(s@, i as int) == Some((j as int, c@)),
            None => spec_quoted_chunk(s@, i as int) is None,
        },
{
    match take_run1(s, i, ByteClass::SafeChar2) {
        Some(e) => {
            let v = sub_to_vec(s, i, e);
            Some((e, QuotedChunk::Safe(v)))
        },
        None => {
            if i < s.len() && s[i] == 0x5F {
                Some((i + 1, QuotedChunk::Space))
            } else {
                hex_octet(s, i)
            }
        },
    }
}

/// `ptext`: the chunks of Q-encoded text from `i` on, and their end.
pub fn ptext(s: &[u8], i: usize) -> (r: (usize, Vec<QuotedChunk>))
    requires
        i <= s.len(),
    ensures
        (r.0 as int, seq_view(r.1@)) == spec_ptext(s@, i as int),
        i <= r.0 <= s.len(),
{
    let mut chunks: Vec<QuotedChunk> = Vec::new();
    let mut j: usize = i;
    while j <= s.len()
        invariant
            i <= j <= s.len(),
            spec_ptext(s@, i as int) == (spec_ptext(s@, j as int).0, seq_view(chunks@)
                + spec_ptext(s@, j as int).1),
        decreases s.len() - j,
    {
        proof {
            lemma_quoted_chunk(s@, j as int);
        }
        match quoted_chunk(s, j) {
            Some((k, c)) => {
                let ghost c0 = chunks@;
                let ghost cv = c@;
                chunks.push(c);
                proof {
                    assert(seq_view(chunks@) =~= seq_view(c0).push(cv));
                    assert(seq_view(chunks@) + spec_ptext(s@, k as int).1 =~= seq_view(c0) + (
                    seq![cv] + spec_ptext(s@, k as int).1));
                }
                j = k;
            },
            None => {
                proof {
                    assert(seq_view(chunks@) + Seq::<QuotedChunkV>::empty() =~= seq_view(chunks@));
                }
                return (j, chunks);
            },
        }
    }
    (j, chunks)
}

/// The text of one chunk, decoded by the label's encoding.
pub open spec fn chunk_text(label: Seq<u8>, c: QuotedChunkV) -> Seq<u8> {
    match c {
        QuotedChunkV::Safe(v) => v,
        QuotedChunkV::Space => seq![0x20u8],
        QuotedChunkV::Encoded(b) => label_decoded(label, seq![b]),
    }
}

/// The text of chunks one after the other.
pub open spec fn quoted_text(label: Seq<u8>, cs: Seq<QuotedChunkV>) -> Seq<u8>
    decreases cs.len(),
{
    if cs.len() == 0 {
        Seq::empty()
    } else {
        quoted_text(label, cs.drop_last()) + chunk_text(label, cs.last())
    }
}

/// Decodes Q-encoded chunks: safe text stays, `_` is a space, and each
/// encoded byte is decoded on its own by the label's encoding.
pub fn decode_quoted_encoding(label: &[u8], q: &[QuotedChunk]) -> (r: Vec<u8>)
    requires
        label_known(label@),
    ensures
        r@ == quoted_text(label@, seq_view(q@)),
{
    let mut r: Vec<u8> = Vec::new();
    let mut i: usize = 0;
    while i < q.len()
        invariant
            i <= q.len(),
            label_known(label@),
            r@ == quoted_text(label@, seq_view(q@).take(i as int)),
        decreases q.len() - i,
    {
        let mut piece: Vec<u8> = match &q[i] {
            QuotedChunk::Safe(v) => bytes_to_vec(v.as_slice()),
            QuotedChunk::Space => {
                let mut p: Vec<u8> = Vec::new();
                p.push(0x20);
                p
            },
            QuotedChunk::Encoded(b) => {
                let mut w: Vec<u8> = Vec::new();
                w.push(*b);
                decode_with_label(label, w.as_slice())
            },
        };
        proof {
            let t = seq_view(q@).take(i + 1);
            assert(t.drop_last() =~= seq_view(q@).take(i as int));
            assert(t.last() == q@[i as int]@);
            assert(piece@ =~= chunk_text(label@, q@[i as int]@));
        }
        r.append(&mut piece);
        i += 1;
    }
    assert(seq_view(q@).take(q.len() as int) =~= seq_view(q@));
    r
}

// ---------------------------------------------------------------- B encoding

/// End of a run of `=` padding from `i`.
pub open spec fn pad_end(s: Seq<u8>, i: int) -> int
    decreases s.len() - i,
{
    if 0 <= i < s.len() && s[i] == 0x3D {
        pad_end(s, i + 1)
    } else {
        i
    }
}

/// `btext`: the base64 text from `i`, then its padding; the end, and the
/// text without the padding.
pub open spec fn spec_btext(s: Seq<u8>, i: int) -> (int, Seq<u8>) {
    let e = run_end(s, i, ByteClass::Bchar);
    (pad_end(s, e), s.subrange(i, e))
}

/// `btext`: the base64 text from `i` (without its `=` padding), and the end
/// of the padding.
pub fn btext(s: &[u8], i: usize) -> (r: (usize, Vec<u8>))
    requires
        i <= s.len(),
    ensures
        (r.0 as int, r.1@) == spec_btext(s@, i as int),
        i <= r.0 <= s.len(),
{
    let e = take_run(s, i, ByteClass::Bchar);
    let v = sub_to_vec(s, i, e);
    let mut j = e;
    while j < s.len() && s[j] == 0x3D
        invariant
            e <= j <= s.len(),
            pad_end(s@, j as int) == pad_end(s@, e as int),
        decreases s.len() - j,
    {
        j += 1;
    }
    (j, v)
}

// ---------------------------------------------------------------- words

/// `=?` charset `?` one of the two given letters `?`: the end, and the
/// charset (a MIME token).
pub open spec fn spec_word_head(s: Seq<u8>, i: int, upper: u8, lower: u8) -> Option<(int, Seq<u8>)> {
    match spec_tag(s, i, "=?".spec_bytes()) {
        Some(a) => match spec_mime_atom(s, a) {
            Some((b, charset)) => match spec_byte(s, b, 0x3F) {
                Some(c) => if 0 <= c < s.len() && (s[c] == upper || s[c] == lower) {
                    match spec_byte(s, c + 1, 0x3F) {
                        Some(d) => Some((d, charset)),
                        None => None,
                    }
                } else {
                    None
                },
                None => None,
            },
            None => None,
        },
        None => None,
    }
}

/// A Q-encoded word at `i`: its end, its charset and its chunks.
pub open spec fn spec_quoted_word(s: Seq<u8>, i: int) -> Option<(int, (Seq<u8>, Seq<QuotedChunkV>))> {
    match spec_word_head(s, i, 0x51, 0x71) {
        Some((d, charset)) => {
            let (e, cs) = spec_ptext(s, d);
            match spec_tag(s, e, "?=".spec_bytes()) {
                Some(f) => Some((f, (charset, cs))),
                None => None,
            }
        },
        None => None,
    }
}

/// A B-encoded word at `i`: its end, its charset and its base64 text.
pub open spec fn spec_base64_word(s: Seq<u8>, i: int) -> Option<(int, (Seq<u8>, Seq<u8>))> {
    match spec_word_head(s, i, 0x42, 0x62) {
        Some((d, charset)) => {
            let (e, txt) = spec_btext(s, d);
            match spec_tag(s, e, "?=".spec_bytes()) {
                Some(f) => Some((f, (charset, txt))),
                None => None,
            }
        },
        None => None,
    }
}

/// The text of a B-encoded word: its bytes decoded by the charset's
/// encoding, nothing where the base64 is not valid.
pub open spec fn base64_text(charset: Seq<u8>, txt: Seq<u8>) -> Seq<u8> {
    match base64_decoded(txt) {
        Some(d) => label_decoded(effective_label(charset), d),
        None => Seq::empty(),
    }
}

/// The text of an encoded word at `i`, Q-encoded or else B-encoded: its end
/// and text.
pub open spec fn spec_encoded_word(s: Seq<u8>, i: int) -> Option<(int, Seq<u8>)> {
    match spec_quoted_word(s, i) {
        Some((f, (charset, cs))) => Some((f, quoted_text(effective_label(charset), cs))),
        None => match spec_base64_word(s, i) {
            Some((f, (charset, txt))) => Some((f, base64_text(charset, txt))),
            None => None,
        },
    }
}

fn word_head(s: &[u8], i: usize, upper: u8, lower: u8) -> (r: Option<(usize, Vec<u8>)>)
    ensures
        match r {
            Some((d, charset)) => spec_word_head(s@, i as int, upper, lower) == Some((
                d as int,
                charset@,
            )) && d <= s.len(),
            None => spec_word_head(s@, i as int, upper, lower) is None,
        },
{
    let a = match tag(s, i, "=?".as_bytes()) {
        Some(a) => a,
        None => return None,
    };
    let (b, charset) = match mime_atom(s, a) {
        Some((b, t)) => (b, t.0),
        None => return None,
    };
    let c = match byte(s, b, 0x3F) {
        Some(c) => c,
        None => return None,
    };
    if c >= s.len() || (s[c] != upper && s[c] != lower) {
        return None;
    }
    match byte(s, c + 1, 0x3F) {
        Some(d) => Some((d, charset)),
        None => None,
    }
}

/// The charset and chunks of a Q-encoded word at `i`, and its end.
pub fn quoted_word(s: &[u8], i: usize) -> (r: Option<(usize, Vec<u8>, Vec<QuotedChunk>)>)
    ensures
        match r {
            Some((f, charset, cs)) => spec_quoted_word(s@, i as int) == Some((
                f as int,
                (charset@, seq_view(cs@)),
            )),
            None => spec_quoted_word(s@, i as int) is None,
        },
{
    let (d, charset) = match word_head(s, i, 0x51, 0x71) {
        Some(h) => h,
        None => return None,
    };
    let (e, cs) = ptext(s, d);
    match tag(s, e, "?=".as_bytes()) {
        Some(f) => Some((f, charset, cs)),
        None => None,
    }
}

/// The charset and base64 text of a B-encoded word at `i`, and its end.
pub fn base64_word(s: &[u8], i: usize) -> (r: Option<(usize, Vec<u8>, Vec<u8>)>)
    ensures
        match r {
            Some((f, charset, txt)) => spec_base64_word(s@, i as int) == Some((
                f as int,
                (charset@, txt@),
            )),
            None => spec_base64_word(s@, i as int) is None,
        },
{
    let (d, charset) = match word_head(s, i, 0x42, 0x62) {
        Some(h) => h,
        None => return None,
    };
    let (e, txt) = btext(s, d);
    match tag(s, e, "?=".as_bytes()) {
        Some(f) => Some((f, charset, txt)),
        None => None,
    }
}

/// A Q-encoded word at `i`, decoded: its end and its text. An unknown
/// charset decodes as windows-1252.
pub fn encoded_word_quoted(s: &[u8], i: usize) -> (r: Option<(usize, Vec<u8>)>)
    ensures
        match r {
            Some((f, t)) => spec_quoted_word(s@, i as int) matches Some((e, (charset, cs))) && f
                == e && t@ == quoted_text(effective_label(charset), cs),
            None => spec_quoted_word(s@, i as int) is None,
        },
{
    match quoted_word(s, i) {
        Some((f, charset, cs)) => {
            let label = charset_label(charset.as_slice());
            Some((f, decode_quoted_encoding(label, cs.as_slice())))
        },
        None => None,
    }
}

/// A B-encoded word at `i`, decoded: its end and its text. An unknown
/// charset decodes as windows-1252, and invalid base64 gives no text.
pub fn encoded_word_base64(s: &[u8], i: usize) -> (r: Option<(usize, Vec<u8>)>)
    ensures
        match r {
            Some((f, t)) => spec_base64_word(s@, i as int) matches Some((e, (charset, txt))) && f
                == e && t@ == base64_text(charset, txt),
            None => spec_base64_word(s@, i as int) is None,
        },
{
    match base64_word(s, i) {
        Some((f, charset, txt)) => {
            let label = charset_label(charset.as_slice());
            let text = match base64_decode(txt.as_slice()) {
                Some(d) => decode_with_label(label, d.as_slice()),
                None => Vec::new(),
            };
            Some((f, text))
        },
        None => None,
    }
}

/// An encoded word at `i`, Q-encoded or else B-encoded, decoded: its end and
/// its text.
pub fn encoded_word(s: &[u8], i: usize) -> (r: Option<(usize, Vec<u8>)>)
    ensures
        match r {
            Some((f, t)) => spec_encoded_word(s@, i as int) == Some((f as int, t@)),
            None => spec_encoded_word(s@, i as int) is None,
        },
{
    match encoded_word_quoted(s, i) {
        Some(w) => Some(w),
        None => encoded_word_base64(s, i),
    }
}

} // verus!
