//! Quoted strings (RFC 5322 section 3.2.4).
use vstd::prelude::*;
use crate::text::ascii;
use crate::print::{Formatter, free_text, line_start, unmarked, write_free};
use crate::text::run::{ByteClass, run_end, take_run, in_class};
use crate::text::whitespace::{spec_opt_fws, spec_opt_cfws, opt_fws, opt_cfws};

verus! {

/// The content of a quoted string, as chunks: maximal runs of qtext, single
/// quoted characters, and `" "` for each folding whitespace.
#[derive(Debug, PartialEq, Eq)]
pub struct QuotedString(pub Vec<Vec<u8>>);

pub open spec fn chunks_view(v: Seq<Vec<u8>>) -> Seq<Seq<u8>> {
    v.map_values(|x: Vec<u8>| x@)
}

impl View for QuotedString {
    type V = Seq<Seq<u8>>;

    open spec fn view(&self) -> Seq<Seq<u8>> {
        chunks_view(self.0@)
    }
}

/// Concatenation of a sequence of byte strings.
pub open spec fn concat(c: Seq<Seq<u8>>) -> Seq<u8>
    decreases c.len(),
{
    if c.len() == 0 {
        Seq::empty()
    } else {
        concat(c.drop_last()) + c.last()
    }
}

pub proof fn lemma_concat_push(c: Seq<Seq<u8>>, x: Seq<u8>)
    ensures
        concat(c.push(x)) == concat(c) + x,
{
    assert(c.push(x).drop_last() =~= c);
}

pub proof fn lemma_concat_append(a: Seq<Seq<u8>>, b: Seq<Seq<u8>>)
    ensures
        concat(a + b) == concat(a) + concat(b),
    decreases b.len(),
{
    if b.len() == 0 {
        assert(a + b =~= a);
        assert(concat(b) =~= Seq::<u8>::empty());
        assert(concat(a) + concat(b) =~= concat(a));
    } else {
        lemma_concat_append(a, b.drop_last());
        assert((a + b).drop_last() =~= a + b.drop_last());
        assert(concat(a) + concat(b.drop_last()) + b.last() =~= concat(a) + (concat(b.drop_last())
            + b.last()));
    }
}

pub open spec fn space_chunk() -> Seq<u8> {
    seq![ascii::SP]
}

/// One item of quoted content, preceded by optional folding whitespace.
pub open spec fn spec_qitem(s: Seq<u8>, i: int) -> Option<(int, Seq<Seq<u8>>)> {
    let k = spec_opt_fws(s, i);
    let ws: Seq<Seq<u8>> = if k > i {
        seq![space_chunk()]
    } else {
        seq![]
    };
    if 0 <= k < s.len() && in_class(ByteClass::Qtext, s[k]) {
        let e = run_end(s, k, ByteClass::Qtext);
        Some((e, ws.push(s.subrange(k, e))))
    } else if 0 <= k && k + 1 < s.len() && s[k] == ascii::BACKSLASH {
        Some((k + 2, ws.push(seq![s[k + 1]])))
    } else {
        None
    }
}

/// The items of quoted content starting at `i`, and where they end.
pub open spec fn spec_qitems(s: Seq<u8>, i: int) -> (int, Seq<Seq<u8>>)
    decreases s.len() - i,
{
    match spec_qitem(s, i) {
        Some((j, c)) => if i < j <= s.len() {
            let (e, cs) = spec_qitems(s, j);
            (e, c + cs)
        } else {
            (i, seq![])
        },
        None => (i, seq![]),
    }
}

/// `quoted-string = [CFWS] DQUOTE *([FWS] qcontent) [FWS] DQUOTE [CFWS]`
pub open spec fn spec_quoted_string(s: Seq<u8>, i: int) -> Option<(int, Seq<Seq<u8>>)> {
    let a = spec_opt_cfws(s, i);
    if 0 <= a < s.len() && s[a] == ascii::DQUOTE {
        let (m, cs) = spec_qitems(s, a + 1);
        let n = spec_opt_fws(s, m);
        let cs2 = if n > m {
            cs.push(space_chunk())
        } else {
            cs
        };
        if 0 <= n < s.len() && s[n] == ascii::DQUOTE {
            Some((spec_opt_cfws(s, n + 1), cs2))
        } else {
            None
        }
    } else {
        None
    }
}

fn qitem(s: &[u8], i: usize) -> (r: Option<(usize, Vec<Vec<u8>>)>)
    ensures
        match r {
            Some((j, c)) => spec_qitem(s@, i as int) == Some((j as int, chunks_view(c@))),
            None => spec_qitem(s@, i as int) is None,
        },
{
    let k = opt_fws(s, i);
    let mut ws: Vec<Vec<u8>> = Vec::new();
    if k > i {
        let mut sp: Vec<u8> = Vec::new();
        sp.push(ascii::SP);
        ws.push(sp);
        assert(chunks_view(ws@) =~= seq![space_chunk()]);
    } else {
        assert(chunks_view(ws@) =~= Seq::<Seq<u8>>::empty());
    }
    if k < s.len() && class_has_qtext(s[k]) {
        let e = take_run(s, k, ByteClass::Qtext);
        let run = crate::text::ascii::sub_to_vec(s, k, e);
        let ghost w0 = chunks_view(ws@);
        ws.push(run);
        assert(chunks_view(ws@) =~= w0.push(s@.subrange(k as int, e as int)));
        Some((e, ws))
    } else if k < s.len() && k + 1 < s.len() && s[k] == ascii::BACKSLASH {
        let mut one: Vec<u8> = Vec::new();
        one.push(s[k + 1]);
        let ghost w0 = chunks_view(ws@);
        ws.push(one);
        assert(chunks_view(ws@) =~= w0.push(seq![s@[k + 1]]));
        Some((k + 2, ws))
    } else {
        None
    }
}

fn class_has_qtext(b: u8) -> (r: bool)
    ensures
        r == in_class(ByteClass::Qtext, b),
{
    crate::text::run::class_has(ByteClass::Qtext, b)
}

fn qitems(s: &[u8], i: usize) -> (r: (usize, Vec<Vec<u8>>))
    ensures
        spec_qitems(s@, i as int) == (r.0 as int, chunks_view(r.1@)),
{
    let mut j = i;
    let mut acc: Vec<Vec<u8>> = Vec::new();
    loop
        invariant
            i <= j,
            spec_qitems(s@, i as int).0 == spec_qitems(s@, j as int).0,
            spec_qitems(s@, i as int).1 == chunks_view(acc@) + spec_qitems(s@, j as int).1,
        decreases s.len() - j,
    {
        match qitem(s, j) {
            Some((k, c)) => {
                if j < k && k <= s.len() {
                    let ghost a0 = acc@;
                    let ghost cv = c@;
                    let mut c = c;
                    acc.append(&mut c);
                    assert(chunks_view(acc@) =~= chunks_view(a0) + chunks_view(cv));
                    j = k;
                } else {
                    assert(chunks_view(acc@) + Seq::<Seq<u8>>::empty() =~= chunks_view(acc@));
                    return (j, acc);
                }
            },
            None => {
                assert(chunks_view(acc@) + Seq::<Seq<u8>>::empty() =~= chunks_view(acc@));
                return (j, acc);
            },
        }
    }
}

/// Parses a quoted string, returning its end and its content chunks.
pub fn quoted_string(s: &[u8], i: usize) -> (r: Option<(usize, QuotedString)>)
    ensures
        match r {
            Some((j, q)) => spec_quoted_string(s@, i as int) == Some((j as int, q@)),
            None => spec_quoted_string(s@, i as int) is None,
        },
{
    let a = opt_cfws(s, i);
    if a < s.len() && s[a] == ascii::DQUOTE {
        let (m, cs) = qitems(s, a + 1);
        let n = opt_fws(s, m);
        let mut cs = cs;
        if n > m {
            let ghost c0 = chunks_view(cs@);
            let mut sp: Vec<u8> = Vec::new();
            sp.push(ascii::SP);
            cs.push(sp);
            assert(chunks_view(cs@) =~= c0.push(space_chunk()));
        }
        if n < s.len() && s[n] == ascii::DQUOTE {
            let e = opt_cfws(s, n + 1);
            Some((e, QuotedString(cs)))
        } else {
            None
        }
    } else {
        None
    }
}

impl QuotedString {
    /// The text of the quoted string, chunks concatenated.
    pub closed spec fn text(&self) -> Seq<u8> {
        concat(self@)
    }

    /// Returns the concatenated content of all chunks.
    pub fn chars(&self) -> (r: Vec<u8>)
        ensures
            r@ == concat(self@),
    {
        let mut r: Vec<u8> = Vec::new();
        let mut i: usize = 0;
        while i < self.0.len()
            invariant
                i <= self.0.len(),
                r@ == concat(self@.subrange(0, i as int)),
            decreases self.0.len() - i,
        {
            let ghost r0 = r@;
            crate::text::ascii::extend_bytes(&mut r, self.0[i].as_slice());
            proof {
                assert(self@.subrange(0, i + 1) =~= self@.subrange(0, i as int).push(self@[i as int]));
                lemma_concat_push(self@.subrange(0, i as int), self@[i as int]);
            }
            i += 1;
        }
        assert(self@.subrange(0, self.0.len() as int) =~= self@);
        r
    }
}


/// The content of a quoted string with `"` and `\` escaped as quoted pairs.
pub open spec fn escape_quoted(s: Seq<u8>) -> Seq<u8>
    decreases s.len(),
{
    if s.len() == 0 {
        seq![]
    } else {
        escape_quoted(s.drop_last()) + if s.last() == ascii::DQUOTE || s.last() == ascii::BACKSLASH {
            seq![ascii::BACKSLASH, s.last()]
        } else {
            seq![s.last()]
        }
    }
}

/// The text of `s` printed as a quoted string: `DQUOTE` escaped content
/// `DQUOTE`.
pub open spec fn quoted_out(s: Seq<u8>) -> Seq<u8> {
    seq![ascii::DQUOTE] + escape_quoted(s) + seq![ascii::DQUOTE]
}

/// The quoted form of `s`, as `quoted_out` gives it.
pub fn quote(s: &[u8]) -> (r: Vec<u8>)
    ensures
        r@ == quoted_out(s@),
{
    let mut r: Vec<u8> = Vec::new();
    r.push(ascii::DQUOTE);
    let mut i: usize = 0;
    while i < s.len()
        invariant
            i <= s.len(),
            r@ == seq![ascii::DQUOTE] + escape_quoted(s@.take(i as int)),
        decreases s.len() - i,
    {
        let c = s[i];
        proof {
            assert(s@.take(i + 1).drop_last() =~= s@.take(i as int));
            assert(s@.take(i + 1).last() == c);
        }
        if c == ascii::DQUOTE || c == ascii::BACKSLASH {
            r.push(ascii::BACKSLASH);
        }
        r.push(c);
        assert(r@ =~= seq![ascii::DQUOTE] + escape_quoted(s@.take(i + 1)));
        i += 1;
    }
    assert(s@.take(s.len() as int) =~= s@);
    r.push(ascii::DQUOTE);
    r
}

/// Prints `chars` as a quoted string, escaping `"` and `\`.
pub fn print_quoted<F: Formatter>(fmt: &mut F, chars: &[u8])
    requires
        old(fmt).accepts_writes(),
        free_text(quoted_out(chars@)),
    ensures
        final(fmt).accepts_writes(),
        final(fmt).written() == old(fmt).written() + quoted_out(chars@),
        final(fmt).fws_marks() == old(fmt).fws_marks() + unmarked(quoted_out(chars@).len()),
        !line_start(final(fmt).written()),
{
    let q = quote(chars);
    write_free(fmt, q.as_slice());
}

} // verus!
