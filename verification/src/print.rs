//! Printing with email-specific line folding (RFC 5322 section 2.2.3).
use vstd::prelude::*;
use crate::text::ascii::{self, is_wsp, CR, LF};
use crate::text::digits::{decimal, lemma_decimal_digits};

verus! {

/// Line limit of a fold, CRLF excluded (80 chars with CRLF, RFC 5322).
pub const LINE_LIMIT: usize = 78;

pub open spec fn crlf() -> Seq<u8> {
    seq![CR, LF]
}

/// `s` ends with CRLF.
pub open spec fn ends_crlf(s: Seq<u8>) -> bool {
    s.len() >= 2 && s[s.len() - 2] == CR && s[s.len() - 1] == LF
}

/// No CRLF occurs in `s`.
pub open spec fn no_crlf(s: Seq<u8>) -> bool {
    forall|i: int| 0 <= i && i + 1 < s.len() ==> !(#[trigger] s[i] == CR && s[i + 1] == LF)
}

pub open spec fn all_wsp(s: Seq<u8>) -> bool {
    forall|i: int| 0 <= i < s.len() ==> is_wsp(#[trigger] s[i])
}

/// A new line starts after `w`: nothing was written yet, or the last thing
/// written was a line break.
pub open spec fn line_start(w: Seq<u8>) -> bool {
    w.len() == 0 || ends_crlf(w)
}

/// Unfolding (RFC 5322 section 2.2.3): every CRLF immediately followed by
/// WSP is removed.
pub open spec fn unfold(s: Seq<u8>) -> Seq<u8>
    decreases s.len(),
{
    if s.len() == 0 {
        s
    } else if s.len() >= 3 && s[0] == CR && s[1] == LF && is_wsp(s[2]) {
        unfold(s.subrange(2, s.len() as int))
    } else {
        seq![s[0]] + unfold(s.subrange(1, s.len() as int))
    }
}

/// What a caller may write as non-foldable text after `w`: no CRLF, neither
/// in `buf` nor across the boundary with `w`, and no whitespace at the start
/// of a line.
pub open spec fn bytes_allowed(w: Seq<u8>, buf: Seq<u8>) -> bool {
    &&& no_crlf(buf)
    &&& !(w.len() > 0 && w.last() == CR && buf.len() > 0 && buf[0] == LF)
    &&& (line_start(w) && buf.len() > 0 ==> !is_wsp(buf[0]))
}

/// What a caller may write as folding whitespace after `w`: only WSP, and
/// never at the start of a line.
pub open spec fn fws_allowed(w: Seq<u8>, buf: Seq<u8>) -> bool {
    &&& all_wsp(buf)
    &&& (buf.len() > 0 ==> !line_start(w))
}

/// Text without whitespace or control bytes: it may be written anywhere.
pub open spec fn graphic(s: Seq<u8>) -> bool {
    forall|k: int| 0 <= k < s.len() ==> 0x21 <= #[trigger] s[k] <= 0x7e
}

pub proof fn lemma_graphic_allowed(w: Seq<u8>, s: Seq<u8>)
    requires
        graphic(s),
    ensures
        bytes_allowed(w, s),
{
    assert forall|i: int| 0 <= i && i + 1 < s.len() implies !(#[trigger] s[i] == CR && s[i + 1]
        == LF) by {
        assert(0x21 <= s[i]);
    }
    if s.len() > 0 {
        assert(0x21 <= s[0]);
    }
}

pub proof fn lemma_graphic_append(a: Seq<u8>, b: Seq<u8>)
    requires
        graphic(a),
        graphic(b),
    ensures
        graphic(a + b),
{
    assert forall|k: int| 0 <= k < (a + b).len() implies 0x21 <= #[trigger] (a + b)[k] <= 0x7e by {
        if k < a.len() {
            assert((a + b)[k] == a[k]);
        } else {
            assert((a + b)[k] == b[k - a.len()]);
        }
    }
}

/// The decimal text of a number is text without whitespace.
pub proof fn lemma_decimal_graphic(n: nat)
    ensures
        graphic(decimal(n)),
        decimal(n).len() > 0,
{
    lemma_decimal_digits(n);
    assert forall|k: int| 0 <= k < decimal(n).len() implies 0x21 <= #[trigger] decimal(n)[k] <= 0x7e by {
        assert(crate::text::digits::is_digit(decimal(n)[k]));
    }
}

/// Writes text without whitespace; afterwards, the line has begun.
pub fn write_graphic<F: Formatter>(fmt: &mut F, b: &[u8])
    requires
        old(fmt).accepts_writes(),
        graphic(b@),
        b@.len() > 0,
    ensures
        final(fmt).accepts_writes(),
        final(fmt).written() == old(fmt).written() + b@,
        final(fmt).fws_marks() == old(fmt).fws_marks() + unmarked(b@.len()),
        !line_start(final(fmt).written()),
{
    proof {
        lemma_graphic_allowed(fmt.written(), b@);
    }
    fmt.write_bytes(b);
    assert(fmt.written().last() == b@.last());
    assert(0x21 <= b@[b@.len() - 1]);
}

// ---------------------------------------------------------------- unfolding

pub proof fn lemma_unfold_no_crlf(s: Seq<u8>)
    requires
        no_crlf(s),
    ensures
        unfold(s) == s,
    decreases s.len(),
{
    if s.len() > 0 {
        let t = s.subrange(1, s.len() as int);
        assert(no_crlf(t)) by {
            assert forall|i: int| 0 <= i && i + 1 < t.len() implies !(#[trigger] t[i] == CR && t[i
                + 1] == LF) by {
                assert(t[i] == s[i + 1] && t[i + 1] == s[i + 2]);
            }
        }
        lemma_unfold_no_crlf(t);
        assert(seq![s[0]] + t =~= s);
    }
}

/// Unfolding distributes over concatenation when no folding pattern spans
/// the boundary.
pub proof fn lemma_unfold_append(x: Seq<u8>, y: Seq<u8>)
    requires
        !(x.len() > 0 && x.last() == CR && y.len() >= 2 && y[0] == LF && is_wsp(y[1])),
        !(ends_crlf(x) && y.len() > 0 && is_wsp(y[0])),
    ensures
        unfold(x + y) == unfold(x) + unfold(y),
    decreases x.len(),
{
    if x.len() == 0 {
        assert(x + y =~= y);
        assert(unfold(x) + unfold(y) =~= unfold(y));
    } else {
        let xy = x + y;
        if x.len() >= 3 && x[0] == CR && x[1] == LF && is_wsp(x[2]) {
            let x2 = x.subrange(2, x.len() as int);
            assert(xy.subrange(2, xy.len() as int) =~= x2 + y);
            lemma_unfold_append(x2, y);
        } else if x.len() == 2 && x[0] == CR && x[1] == LF {
            // then y cannot start with WSP: x + y starts with CR LF y[0]
            let x1 = x.subrange(1, x.len() as int);
            assert(xy.subrange(1, xy.len() as int) =~= x1 + y);
            lemma_unfold_append(x1, y);
            assert(seq![x[0]] + (unfold(x1) + unfold(y)) =~= (seq![x[0]] + unfold(x1)) + unfold(y));
        } else if x.len() == 1 && x[0] == CR {
            let x1 = x.subrange(1, x.len() as int);
            assert(xy.subrange(1, xy.len() as int) =~= x1 + y);
            lemma_unfold_append(x1, y);
            assert(seq![x[0]] + (unfold(x1) + unfold(y)) =~= (seq![x[0]] + unfold(x1)) + unfold(y));
        } else {
            let x1 = x.subrange(1, x.len() as int);
            assert(xy.subrange(1, xy.len() as int) =~= x1 + y);
            lemma_unfold_append(x1, y);
            assert(seq![x[0]] + (unfold(x1) + unfold(y)) =~= (seq![x[0]] + unfold(x1)) + unfold(y));
        }
    }
}

/// Inserting a CRLF in front of whitespace is undone by unfolding.
pub proof fn lemma_unfold_insert_fold(x: Seq<u8>, y: Seq<u8>)
    requires
        y.len() > 0,
        is_wsp(y[0]),
        !ends_crlf(x),
    ensures
        unfold(x + crlf() + y) == unfold(x + y),
    decreases x.len(),
{
    let z = crlf() + y;
    assert(x + crlf() + y =~= x + z);
    if x.len() == 0 {
        assert(x + z =~= z);
        assert(x + y =~= y);
        assert(z.subrange(2, z.len() as int) =~= y);
    } else {
        let xz = x + z;
        let xy = x + y;
        if x.len() >= 3 && x[0] == CR && x[1] == LF && is_wsp(x[2]) {
            let x2 = x.subrange(2, x.len() as int);
            assert(xz.subrange(2, xz.len() as int) =~= x2 + crlf() + y);
            assert(xy.subrange(2, xy.len() as int) =~= x2 + y);
            lemma_unfold_insert_fold(x2, y);
        } else {
            let x1 = x.subrange(1, x.len() as int);
            assert(xz.subrange(1, xz.len() as int) =~= x1 + crlf() + y);
            assert(xy.subrange(1, xy.len() as int) =~= x1 + y);
            lemma_unfold_insert_fold(x1, y);
        }
    }
}

// ---------------------------------------------------------------- formatter

/// An output formatter that can perform line folding.
///
/// - `write_fws_bytes` outputs folding white space which can be used for folding;
/// - `write_bytes` outputs text which cannot be used for folding;
/// - `write_crlf` outputs a line break.
///
/// `written` is the text as the caller wrote it, which is what a reader gets
/// back by unfolding the output.
pub trait Formatter {
    spec fn written(&self) -> Seq<u8>;

    spec fn accepts_writes(&self) -> bool;

    /// Which bytes of `written` were written as folding whitespace, that is,
    /// where a line may be folded.
    spec fn fws_marks(&self) -> Seq<bool>;

    /// Write bytes from `buf`; they cannot be used for line folding.
    fn write_bytes(&mut self, buf: &[u8])
        requires
            old(self).accepts_writes(),
            bytes_allowed(old(self).written(), buf@),
        ensures
            final(self).accepts_writes(),
            final(self).written() == old(self).written() + buf@,
            final(self).fws_marks() == old(self).fws_marks() + unmarked(buf@.len()),
    ;

    /// Write whitespace bytes from `buf`; they can be used for line folding.
    fn write_fws_bytes(&mut self, buf: &[u8])
        requires
            old(self).accepts_writes(),
            fws_allowed(old(self).written(), buf@),
        ensures
            final(self).accepts_writes(),
            final(self).written() == old(self).written() + buf@,
            final(self).fws_marks() == old(self).fws_marks() + all_marked(buf@.len()),
    ;

    /// Terminate the current line, writing CRLF.
    fn write_crlf(&mut self)
        requires
            old(self).accepts_writes(),
        ensures
            final(self).accepts_writes(),
            final(self).written() == old(self).written() + crlf(),
            final(self).fws_marks() == old(self).fws_marks() + seq![false, false],
    ;

    /// Write a single folding white space character.
    fn write_fws(&mut self)
        requires
            old(self).accepts_writes(),
            !line_start(old(self).written()),
        ensures
            final(self).accepts_writes(),
            final(self).written() == old(self).written() + seq![ascii::SP],
            final(self).fws_marks() == old(self).fws_marks() + seq![true],
    {
        let sp: [u8; 1] = [ascii::SP];
        assert(sp@ == seq![ascii::SP]);
        assert(fws_allowed(self.written(), sp@));
        self.write_fws_bytes(sp.as_slice());
        assert(all_marked(1) =~= seq![true]);
    }
}

/// A formatter without line limit: nothing is folded, and the bytes are
/// kept as they were written.
pub struct Unfolded {
    bytes: Vec<u8>,
    marks: Ghost<Seq<bool>>,
}

impl Unfolded {
    pub fn new() -> (r: Unfolded)
        ensures
            r.written() == Seq::<u8>::empty(),
            r.fws_marks() == Seq::<bool>::empty(),
    {
        Unfolded { bytes: Vec::new(), marks: Ghost(Seq::empty()) }
    }

    /// The bytes written so far.
    pub fn as_bytes(&self) -> (r: &[u8])
        ensures
            r@ == self.written(),
    {
        self.bytes.as_slice()
    }

    /// The bytes written.
    pub fn into_bytes(self) -> (r: Vec<u8>)
        ensures
            r@ == self.written(),
    {
        self.bytes
    }
}

impl Formatter for Unfolded {
    closed spec fn written(&self) -> Seq<u8> {
        self.bytes@
    }

    closed spec fn accepts_writes(&self) -> bool {
        true
    }

    closed spec fn fws_marks(&self) -> Seq<bool> {
        self.marks@
    }

    fn write_bytes(&mut self, buf: &[u8]) {
        ascii::extend_bytes(&mut self.bytes, buf);
        self.marks = Ghost(self.marks@ + unmarked(buf@.len()));
    }

    fn write_fws_bytes(&mut self, buf: &[u8]) {
        ascii::extend_bytes(&mut self.bytes, buf);
        self.marks = Ghost(self.marks@ + all_marked(buf@.len()));
    }

    fn write_crlf(&mut self) {
        self.bytes.push(CR);
        self.bytes.push(LF);
        self.marks = Ghost(self.marks@ + seq![false, false]);
        assert(self.bytes@ =~= old(self).bytes@ + crlf());
    }
}

// ---------------------------------------------------------------- line folder

/// `LineFolder` is a `Formatter` that performs line folding.
///
/// The line limit is 80 chars (including CRLF) as per RFC 5322. Text is
/// accumulated fold by fold; a fold is cut at the last folding whitespace
/// that follows text when the line limit is exceeded, and a last fold of
/// whitespace only stays on the line before it. After writing, `flush` must be called;
/// once flushed, a `LineFolder` cannot be written to again.
pub struct LineFolder {
    // The previous fold of the current line, if the current line was cut.
    prev_fold: Option<Vec<u8>>,
    cur_fold: Vec<u8>,
    cur_fold_is_only_fws: bool,
    last_cut_candidate: Option<usize>,
    // The current fold holds text other than whitespace.
    cur_has_text: bool,
    // The current fold holds text other than whitespace after the last cut
    // candidate.
    text_after_cand: bool,
    is_flushed: bool,
    inner: Vec<u8>,
    text: Ghost<Seq<u8>>,
    // Which bytes of the text were written as folding whitespace.
    text_marks: Ghost<Seq<bool>>,
    // The lines of `inner`, between its line breaks.
    lines: Ghost<Seq<Seq<u8>>>,
    // Which bytes of each line, of the cut fold and of the current fold were
    // written as folding whitespace.
    line_marks: Ghost<Seq<Seq<bool>>>,
    prev_marks: Ghost<Seq<bool>>,
    cur_marks: Ghost<Seq<bool>>,
    // How much of the current fold stays on it, whatever follows.
    kept: Ghost<int>,
}

/// Lines joined by line breaks.
pub open spec fn join_lines(ls: Seq<Seq<u8>>) -> Seq<u8>
    decreases ls.len(),
{
    if ls.len() == 0 {
        seq![]
    } else if ls.len() == 1 {
        ls[0]
    } else {
        join_lines(ls.drop_last()) + crlf() + ls.last()
    }
}

/// A line that continues the one before it: it starts with whitespace.
pub open spec fn continues(l: Seq<u8>) -> bool {
    l.len() > 0 && is_wsp(l[0])
}

/// What separates a line from the one before it once unfolded: nothing
/// for a fold, two unmarked bytes for a line break.
pub open spec fn sep_marks(l: Seq<u8>) -> Seq<bool> {
    if continues(l) {
        seq![]
    } else {
        seq![false, false]
    }
}

/// The marks of the bytes of lines, in the order that unfolding gives
/// them back.
pub open spec fn join_marks(ls: Seq<Seq<u8>>, ms: Seq<Seq<bool>>) -> Seq<bool>
    decreases ls.len(),
{
    if ls.len() == 0 {
        seq![]
    } else if ls.len() == 1 {
        ms[0]
    } else {
        join_marks(ls.drop_last(), ms.drop_last()) + sep_marks(ls.last()) + ms.last()
    }
}

/// Marks of the same shape as the lines: one per byte.
pub open spec fn marks_fit(ls: Seq<Seq<u8>>, ms: Seq<Seq<bool>>) -> bool {
    &&& ms.len() == ls.len()
    &&& forall|i: int| 0 <= i < ls.len() ==> (#[trigger] ms[i]).len() == ls[i].len()
}

/// `n` unmarked bytes.
pub open spec fn unmarked(n: nat) -> Seq<bool> {
    Seq::new(n, |i: int| false)
}

/// `n` marked bytes.
pub open spec fn all_marked(n: nat) -> Seq<bool> {
    Seq::new(n, |i: int| true)
}

/// Some byte of `l` between `a` and `b` is not whitespace.
pub open spec fn text_in(l: Seq<u8>, a: int, b: int) -> bool {
    exists|i: int| a <= i < b && !is_wsp(#[trigger] l[i])
}

/// A line of output keeps to the line limit where it could have been
/// folded: every byte of text that follows folding whitespace which itself
/// follows text (a place where the line could have been cut without
/// leaving a fold of whitespace only) is within the limit.
pub open spec fn line_within_limit(l: Seq<u8>, m: Seq<bool>) -> bool {
    forall|k: int, j: int|
        1 <= k < j < l.len() && #[trigger] m[k] && text_in(l, 0, k) && !is_wsp(#[trigger] l[j]) ==> j
            < LINE_LIMIT
}

/// A line `b` that continues the line `a` could not have stayed on it:
/// together they go past the line limit; and it holds text, not only
/// whitespace.
pub open spec fn fold_needed(a: Seq<u8>, b: Seq<u8>) -> bool {
    continues(b) ==> a.len() + b.len() > LINE_LIMIT && text_in(b, 0, b.len() as int)
}

/// A line `b` that continues the line `a` was cut as late as the limit
/// allows: cutting at any later place of `b` where it could have been cut
/// (folding whitespace between text) would have taken `a` past the limit.
pub open spec fn fold_maximal(a: Seq<u8>, b: Seq<u8>, mb: Seq<bool>) -> bool {
    continues(b) ==> forall|k: int, j: int|
        1 <= k < j < b.len() && #[trigger] mb[k] && text_in(b, 0, k) && !is_wsp(#[trigger] b[j]) ==> a.len()
            + k > LINE_LIMIT
}

pub proof fn lemma_text_in_append(x: Seq<u8>, y: Seq<u8>)
    ensures
        text_in(x + y, 0, (x + y).len() as int) <==> text_in(x, 0, x.len() as int) || text_in(
            y,
            0,
            y.len() as int,
        ),
        text_in(x + y, 0, x.len() as int) <==> text_in(x, 0, x.len() as int),
{
    let z = x + y;
    if text_in(z, 0, z.len() as int) {
        let i = choose|i: int| 0 <= i < z.len() && !is_wsp(#[trigger] z[i]);
        if i < x.len() {
            assert(z[i] == x[i]);
        } else {
            assert(z[i] == y[i - x.len()]);
        }
    }
    if text_in(x, 0, x.len() as int) {
        let i = choose|i: int| 0 <= i < x.len() && !is_wsp(#[trigger] x[i]);
        assert(z[i] == x[i]);
    }
    if text_in(y, 0, y.len() as int) {
        let i = choose|i: int| 0 <= i < y.len() && !is_wsp(#[trigger] y[i]);
        assert(z[x.len() + i] == y[i]);
    }
    if text_in(z, 0, x.len() as int) {
        let i = choose|i: int| 0 <= i < x.len() && !is_wsp(#[trigger] z[i]);
        assert(z[i] == x[i]);
    }
}

/// Text in a range of a subrange is text in the matching range.
pub proof fn lemma_text_in_sub(c: Seq<u8>, s: int, e: int, a: int, b: int)
    requires
        0 <= s <= e <= c.len(),
        0 <= a <= b <= e - s,
    ensures
        text_in(c.subrange(s, e), a, b) == text_in(c, s + a, s + b),
{
    let d = c.subrange(s, e);
    if text_in(d, a, b) {
        let i = choose|i: int| a <= i < b && !is_wsp(#[trigger] d[i]);
        assert(d[i] == c[s + i]);
    }
    if text_in(c, s + a, s + b) {
        let i = choose|i: int| s + a <= i < s + b && !is_wsp(#[trigger] c[i]);
        assert(d[i - s] == c[i]);
    }
}

/// Text in a range is text in one of its two parts.
pub proof fn lemma_text_in_split(z: Seq<u8>, a: int, m: int, b: int)
    requires
        a <= m <= b,
    ensures
        text_in(z, a, b) == (text_in(z, a, m) || text_in(z, m, b)),
{
    if text_in(z, a, b) {
        let i = choose|i: int| a <= i < b && !is_wsp(#[trigger] z[i]);
    }
}

/// Some byte of `buf` is not whitespace.
fn has_text(buf: &[u8]) -> (r: bool)
    ensures
        r == text_in(buf@, 0, buf@.len() as int),
{
    let mut i: usize = 0;
    while i < buf.len()
        invariant
            i <= buf.len(),
            !text_in(buf@, 0, i as int),
        decreases buf.len() - i,
    {
        if !ascii::is_ws(buf[i]) {
            return true;
        }
        i += 1;
    }
    false
}

/// A fold `p` that continues the last complete line of `ls` (the one
/// before the empty line being written) could not have stayed on it, and
/// was cut from it as late as the limit allows.
pub open spec fn continues_last(ls: Seq<Seq<u8>>, p: Seq<u8>, pm: Seq<bool>) -> bool {
    &&& (continues(p) ==> ls.len() >= 2)
    &&& (ls.len() >= 2 ==> fold_needed(ls[ls.len() - 2], p) && fold_maximal(ls[ls.len() - 2], p, pm))
}

pub proof fn lemma_join_push(ls: Seq<Seq<u8>>, x: Seq<u8>)
    requires
        ls.len() >= 1,
    ensures
        join_lines(ls.push(x)) == join_lines(ls) + crlf() + x,
{
    assert(ls.push(x).drop_last() =~= ls);
}

pub proof fn lemma_join_set_last(ls: Seq<Seq<u8>>, x: Seq<u8>)
    requires
        ls.len() >= 1,
        ls.last().len() == 0,
    ensures
        join_lines(ls.update(ls.len() - 1, x)) == join_lines(ls) + x,
{
    let u = ls.update(ls.len() - 1, x);
    if ls.len() == 1 {
        assert(ls[0] =~= Seq::<u8>::empty());
        assert(Seq::<u8>::empty() + x =~= x);
    } else {
        assert(u.drop_last() =~= ls.drop_last());
        assert(join_lines(ls) + x =~= join_lines(ls.drop_last()) + crlf() + x);
    }
}

pub proof fn lemma_join_marks_push(ls: Seq<Seq<u8>>, ms: Seq<Seq<bool>>, x: Seq<u8>, mx: Seq<bool>)
    requires
        ls.len() >= 1,
        ms.len() == ls.len(),
    ensures
        join_marks(ls.push(x), ms.push(mx)) == join_marks(ls, ms) + sep_marks(x) + mx,
{
    assert(ls.push(x).drop_last() =~= ls);
    assert(ms.push(mx).drop_last() =~= ms);
}

/// Extending the last line extends the marks, when it keeps continuing the
/// line before it or not.
pub proof fn lemma_join_marks_extend(
    ls: Seq<Seq<u8>>,
    ms: Seq<Seq<bool>>,
    x: Seq<u8>,
    mx: Seq<bool>,
    y: Seq<u8>,
    my: Seq<bool>,
)
    requires
        ls.len() >= 1,
        ms.len() == ls.len(),
        continues(x + y) == continues(x),
    ensures
        join_marks(ls.update(ls.len() - 1, x + y), ms.update(ms.len() - 1, mx + my)) == join_marks(
            ls.update(ls.len() - 1, x),
            ms.update(ms.len() - 1, mx),
        ) + my,
{
    let n = ls.len() - 1;
    let a = ls.update(n, x + y);
    let b = ls.update(n, x);
    let am = ms.update(n, mx + my);
    let bm = ms.update(n, mx);
    if ls.len() == 1 {
        assert(am[0] == mx + my && bm[0] == mx);
    } else {
        assert(a.drop_last() =~= b.drop_last());
        assert(am.drop_last() =~= bm.drop_last());
        assert(join_marks(b.drop_last(), bm.drop_last()) + sep_marks(x + y) + (mx + my) =~= join_marks(
            b.drop_last(),
            bm.drop_last(),
        ) + sep_marks(x) + mx + my);
    }
}

/// What flushing the current line would output.
pub open spec fn pending(prev: Option<Vec<u8>>, cur: Seq<u8>) -> Seq<u8> {
    match prev {
        Some(p) => p@ + crlf() + cur,
        None => cur,
    }
}

impl LineFolder {
    /// The bytes output so far.
    pub closed spec fn output(&self) -> Seq<u8> {
        self.inner@
    }

    pub closed spec fn flushed(&self) -> bool {
        self.is_flushed
    }

    /// The lines of the output once the current line is flushed.
    pub closed spec fn pending_lines(&self) -> Seq<Seq<u8>> {
        let n = self.lines@.len() - 1;
        let c = self.cur_fold@;
        match self.prev_fold {
            Some(p) => if text_in(c, 0, c.len() as int) {
                self.lines@.update(n, p@).push(c)
            } else {
                self.lines@.update(n, p@ + c)
            },
            None => self.lines@.update(n, c),
        }
    }

    /// The marks of the lines of the output once the current line is
    /// flushed.
    pub closed spec fn pending_marks(&self) -> Seq<Seq<bool>> {
        let n = self.line_marks@.len() - 1;
        let c = self.cur_fold@;
        match self.prev_fold {
            Some(p) => if text_in(c, 0, c.len() as int) {
                self.line_marks@.update(n, self.prev_marks@).push(self.cur_marks@)
            } else {
                self.line_marks@.update(n, self.prev_marks@ + self.cur_marks@)
            },
            None => self.line_marks@.update(n, self.cur_marks@),
        }
    }

    /// The internal consistency of a line folder.
    pub closed spec fn wf(&self) -> bool {
        let cur = self.cur_fold@;
        let w = self.text@;
        let out = self.inner@ + pending(self.prev_fold, cur);
        &&& self.is_flushed ==> unfold(self.inner@) == w
        &&& self.is_flushed ==> join_marks(self.lines@, self.line_marks@) == self.text_marks@
        &&& !self.is_flushed ==> {
            &&& unfold(out) == w
            &&& join_marks(self.pending_lines(), self.pending_marks()) == self.text_marks@
            &&& (self.inner@.len() == 0 || self.inner@.last() == LF)
            &&& no_crlf(cur)
            &&& (self.cur_fold_is_only_fws <==> cur.len() == 0)
            &&& (self.prev_fold matches Some(p) ==> cur.len() > 0 && is_wsp(cur[0]) && no_crlf(p@)
                && p@.len() > 0)
            &&& (self.last_cut_candidate matches Some(k) ==> 0 < k < cur.len() && is_wsp(cur[k as int])
                && self.cur_marks@[k as int] && text_in(cur, 0, k as int) && (self.text_after_cand
                <==> text_in(cur, k + 1, cur.len() as int)))
            &&& (self.cur_has_text <==> text_in(cur, 0, cur.len() as int))
            &&& (self.prev_fold matches Some(p) ==> text_in(p@, 0, p@.len() as int))
            &&& (self.prev_fold is None && cur.len() == 0 <==> line_start(w))
            &&& (cur.len() > 0 ==> w.len() > 0 && w.last() == cur.last())
            &&& self.lines@.last().len() == 0
            &&& self.line_marks@.last().len() == 0
            &&& (self.prev_fold is None && cur.len() > 0 ==> !is_wsp(cur[0]))
            &&& (self.prev_fold matches Some(p) ==> self.prev_continues(p@))
            &&& self.cur_marks@.len() == cur.len()
            &&& (self.prev_fold matches Some(p) ==> self.prev_marks@.len() == p@.len())
            &&& self.limits_kept()
        }
        &&& self.lines@.len() >= 1
        &&& marks_fit(self.lines@, self.line_marks@)
        &&& self.inner@ == join_lines(self.lines@)
        &&& forall|i: int| 0 <= i < self.lines@.len() ==> no_crlf(#[trigger] self.lines@[i])
        &&& forall|i: int|
            0 <= i < self.lines@.len() ==> line_within_limit(#[trigger] self.lines@[i], self.line_marks@[i])
        &&& forall|i: int, j: int|
            #![trigger self.lines@[i], self.lines@[j]]
            0 <= i && j == i + 1 && j < self.lines@.len() ==> fold_needed(self.lines@[i], self.lines@[j])
                && fold_maximal(self.lines@[i], self.lines@[j], self.line_marks@[j])
    }

    /// The cut fold `p` of the current line, when it continues the last line
    /// output, could not have stayed on it.
    pub closed spec fn prev_continues(&self, p: Seq<u8>) -> bool {
        continues_last(self.lines@, p, self.prev_marks@)
    }

    /// What stays on the current fold: a prefix without a place to cut,
    /// long enough that the cut fold and it go past the limit.
    pub closed spec fn needed(&self) -> bool {
        let cur = self.cur_fold@;
        &&& 0 <= self.kept@ <= cur.len()
        &&& (self.last_cut_candidate matches Some(k) ==> k >= self.kept@)
        &&& (self.prev_fold matches Some(p) ==> p@.len() + self.kept@ > LINE_LIMIT)
        &&& forall|j: int| 1 <= j < self.kept@ ==> !#[trigger] self.cur_marks@[j]
    }

    /// The cut fold of the current line keeps to the limit, and the last
    /// place to fold the current fold is known.
    pub closed spec fn limits_kept(&self) -> bool {
        let cur = self.cur_fold@;
        &&& (self.prev_fold matches Some(p) ==> line_within_limit(p@, self.prev_marks@))
        &&& match self.last_cut_candidate {
            Some(k) => forall|j: int| k < j < cur.len() ==> !#[trigger] self.cur_marks@[j],
            None => forall|j: int|
                1 <= j < cur.len() && #[trigger] self.cur_marks@[j] ==> !text_in(cur, 0, j),
        }
    }

    /// A fold longer than the limit has no place left to fold.
    pub closed spec fn cur_short(&self) -> bool {
        self.cur_fold@.len() > LINE_LIMIT ==> self.last_cut_candidate is None
    }

    /// The lines of the output, between its line breaks.
    pub closed spec fn lines(&self) -> Seq<Seq<u8>> {
        self.lines@
    }

    /// Which bytes of each line of the output were written as folding
    /// whitespace.
    pub closed spec fn line_marks(&self) -> Seq<Seq<bool>> {
        self.line_marks@
    }

    pub fn new() -> (r: LineFolder)
        ensures
            r.wf(),
            r.accepts_writes(),
            !r.flushed(),
            r.written() == Seq::<u8>::empty(),
            r.fws_marks() == Seq::<bool>::empty(),
            r.output() == Seq::<u8>::empty(),
    {
        let r = LineFolder {
            prev_fold: None,
            cur_fold: Vec::new(),
            cur_fold_is_only_fws: true,
            last_cut_candidate: None,
            cur_has_text: false,
            text_after_cand: false,
            is_flushed: false,
            inner: Vec::new(),
            text: Ghost(Seq::empty()),
            text_marks: Ghost(Seq::empty()),
            lines: Ghost(Seq::<Seq<u8>>::empty().push(Seq::<u8>::empty())),
            line_marks: Ghost(Seq::<Seq<bool>>::empty().push(Seq::<bool>::empty())),
            prev_marks: Ghost(Seq::empty()),
            cur_marks: Ghost(Seq::empty()),
            kept: Ghost(0),
        };
        assert(r.inner@ + pending(r.prev_fold, r.cur_fold@) =~= Seq::<u8>::empty());
        assert(join_lines(r.lines@) =~= r.inner@);
        assert(r.pending_marks()[0] =~= Seq::<bool>::empty());
        assert(join_marks(r.pending_lines(), r.pending_marks()) =~= Seq::<bool>::empty());
        r
    }

    /// The bytes output so far (after `flush`, the whole folded text).
    pub fn as_bytes(&self) -> (r: &[u8])
        ensures
            r@ == self.output(),
    {
        self.inner.as_slice()
    }

    /// Flushes the buffered line; only allowed as the last operation. A
    /// folder already flushed stays as it is.
    pub fn flush(&mut self)
        requires
            old(self).wf(),
            !old(self).flushed() ==> old(self).cur_short() && old(self).needed(),
        ensures
            final(self).wf(),
            final(self).flushed(),
            final(self).written() == old(self).written(),
            final(self).fws_marks() == old(self).fws_marks(),
            unfold(final(self).output()) == final(self).written(),
            old(self).flushed() ==> final(self).output() == old(self).output(),
    {
        if self.is_flushed {
            return ;
        }
        self.flush_line();
        self.is_flushed = true;
    }

    /// The lines after the current line is output keep every fold needed
    /// and maximal, and keep to the limit.
    #[verifier::spinoff_prover]
    #[verifier::rlimit(100)]
    proof fn lemma_pairs_flush_line(&self)
        requires
            self.wf(),
            !self.is_flushed,
            self.needed(),
            self.cur_short(),
        ensures
            ({
                let ls1 = self.pending_lines();
                let ms1 = self.pending_marks();
                &&& forall|i: int, j: int|
                    #![trigger ls1[i], ls1[j]]
                    0 <= i && j == i + 1 && j < ls1.len() ==> fold_needed(ls1[i], ls1[j])
                        && fold_maximal(ls1[i], ls1[j], ms1[j])
                &&& forall|i: int|
                    0 <= i < ls1.len() ==> line_within_limit(#[trigger] ls1[i], ms1[i]) && no_crlf(ls1[i])
                        && ms1[i].len() == ls1[i].len()
                &&& ls1.len() == ms1.len()
            }),
    {
        let ls0 = self.lines@;
        let ms0 = self.line_marks@;
        let n = ls0.len() - 1;
        let c0 = self.cur_fold@;
        let cm0 = self.cur_marks@;
        let ls1 = self.pending_lines();
        let ms1 = self.pending_marks();
        let text = text_in(c0, 0, c0.len() as int);
        // the current fold keeps to the limit
        assert(line_within_limit(c0, cm0)) by {
            assert forall|k: int, j: int|
                1 <= k < j < c0.len() && #[trigger] cm0[k] && text_in(c0, 0, k) && !is_wsp(
                    #[trigger] c0[j],
                ) implies j < LINE_LIMIT by {
                if self.last_cut_candidate is None {
                    assert(!text_in(c0, 0, k));
                }
            }
        }
        match self.prev_fold {
            Some(pv) => {
                let p = pv@;
                let pm = self.prev_marks@;
                assert(self.prev_continues(p));
                lemma_text_in_append(p, c0);
                if !text {
                    let q = p + c0;
                    let qm = pm + cm0;
                    assert(q[0] == p[0]);
                    assert(line_within_limit(q, qm)) by {
                        assert forall|k: int, j: int|
                            1 <= k < j < q.len() && #[trigger] qm[k] && text_in(q, 0, k) && !is_wsp(
                                #[trigger] q[j],
                            ) implies j < LINE_LIMIT by {
                            if j >= p.len() {
                                assert(q[j] == c0[j - p.len()]);
                            }
                            assert(qm[k] == pm[k] && q[j] == p[j]);
                            assert(text_in(p, 0, k)) by {
                                let i = choose|i: int| 0 <= i < k && !is_wsp(#[trigger] q[i]);
                                assert(q[i] == p[i]);
                            }
                        }
                    }
                    if n >= 1 {
                        let a = ls0[n - 1];
                        assert(fold_maximal(a, q, qm)) by {
                            if continues(q) {
                                assert(continues(p));
                                assert forall|k: int, j: int|
                                    1 <= k < j < q.len() && #[trigger] qm[k] && text_in(q, 0, k) && !is_wsp(
                                        #[trigger] q[j],
                                    ) implies a.len() + k > LINE_LIMIT by {
                                    if j >= p.len() {
                                        assert(q[j] == c0[j - p.len()]);
                                    }
                                    assert(qm[k] == pm[k] && q[j] == p[j]);
                                    assert(text_in(p, 0, k)) by {
                                        let i = choose|i: int| 0 <= i < k && !is_wsp(#[trigger] q[i]);
                                        assert(q[i] == p[i]);
                                    }
                                }
                            }
                        }
                        assert(fold_needed(a, q)) by {
                            if continues(q) {
                                assert(continues(p));
                            }
                        }
                    }
                    assert forall|i: int, j: int|
                        #![trigger ls1[i], ls1[j]]
                        0 <= i && j == i + 1 && j < ls1.len() implies fold_needed(ls1[i], ls1[j])
                        && fold_maximal(ls1[i], ls1[j], ms1[j]) by {
                        assert(ls1[i] == ls0[i]);
                        if j < n {
                            assert(ls1[j] == ls0[j] && ms1[j] == ms0[j]);
                        } else {
                            assert(ls1[j] == q && ms1[j] == qm);
                        }
                    }
                    assert forall|i: int| 0 <= i < ls1.len() implies line_within_limit(
                        #[trigger] ls1[i],
                        ms1[i],
                    ) && no_crlf(ls1[i]) && ms1[i].len() == ls1[i].len() by {
                        if i < n {
                            assert(ls1[i] == ls0[i] && ms1[i] == ms0[i]);
                        } else {
                            assert(ls1[i] == q && ms1[i] == qm);
                            assert(no_crlf(q)) by {
                                assert forall|x: int| 0 <= x && x + 1 < q.len() implies !(
                                #[trigger] q[x] == CR && q[x + 1] == LF) by {
                                    if x + 1 < p.len() {
                                        assert(q[x] == p[x] && q[x + 1] == p[x + 1]);
                                    } else if x + 1 == p.len() {
                                        assert(q[x + 1] == c0[0]);
                                    } else {
                                        assert(q[x] == c0[x - p.len()] && q[x + 1] == c0[x + 1 - p.len()]);
                                    }
                                }
                            }
                        }
                    }
                } else {
                    assert(p.len() + self.kept@ > LINE_LIMIT);
                    assert(fold_maximal(p, c0, cm0)) by {
                        assert forall|k: int, j: int|
                            1 <= k < j < c0.len() && #[trigger] cm0[k] && text_in(c0, 0, k) && !is_wsp(
                                #[trigger] c0[j],
                            ) implies p.len() + k > LINE_LIMIT by {
                            if k < self.kept@ {
                                assert(!cm0[k]);
                            }
                        }
                    }
                    assert forall|i: int, j: int|
                        #![trigger ls1[i], ls1[j]]
                        0 <= i && j == i + 1 && j < ls1.len() implies fold_needed(ls1[i], ls1[j])
                        && fold_maximal(ls1[i], ls1[j], ms1[j]) by {
                        if j < n {
                            assert(ls1[i] == ls0[i] && ls1[j] == ls0[j] && ms1[j] == ms0[j]);
                        } else if j == n {
                            assert(ls1[i] == ls0[i] && ls1[j] == p && ms1[j] == pm);
                        } else {
                            assert(ls1[i] == p && ls1[j] == c0 && ms1[j] == cm0);
                        }
                    }
                    assert forall|i: int| 0 <= i < ls1.len() implies line_within_limit(
                        #[trigger] ls1[i],
                        ms1[i],
                    ) && no_crlf(ls1[i]) && ms1[i].len() == ls1[i].len() by {
                        if i < n {
                            assert(ls1[i] == ls0[i] && ms1[i] == ms0[i]);
                        } else if i == n {
                            assert(ls1[i] == p && ms1[i] == pm);
                        } else {
                            assert(ls1[i] == c0 && ms1[i] == cm0);
                        }
                    }
                }
            },
            None => {
                assert forall|i: int, j: int|
                    #![trigger ls1[i], ls1[j]]
                    0 <= i && j == i + 1 && j < ls1.len() implies fold_needed(ls1[i], ls1[j])
                    && fold_maximal(ls1[i], ls1[j], ms1[j]) by {
                    assert(ls1[i] == ls0[i]);
                    if j < n {
                        assert(ls1[j] == ls0[j] && ms1[j] == ms0[j]);
                    } else {
                        assert(ls1[j] == c0);
                    }
                }
                assert forall|i: int| 0 <= i < ls1.len() implies line_within_limit(
                    #[trigger] ls1[i],
                    ms1[i],
                ) && no_crlf(ls1[i]) && ms1[i].len() == ls1[i].len() by {
                    if i < n {
                        assert(ls1[i] == ls0[i] && ms1[i] == ms0[i]);
                    } else {
                        assert(ls1[i] == c0 && ms1[i] == cm0);
                    }
                }
            },
        }
    }

    /// Writes the current line's folds to the output and resets them: a
    /// last fold of whitespace only stays on the line before it.
    #[verifier::spinoff_prover]
    #[verifier::rlimit(100)]
    fn flush_line(&mut self)
        requires
            old(self).wf(),
            !old(self).is_flushed,
            old(self).cur_short(),
            old(self).needed(),
        ensures
            unfold(final(self).inner@) == unfold(
                old(self).inner@ + pending(old(self).prev_fold, old(self).cur_fold@),
            ),
            final(self).prev_fold is None,
            final(self).cur_fold@.len() == 0,
            final(self).cur_marks@.len() == 0,
            final(self).cur_fold_is_only_fws,
            !final(self).cur_has_text,
            final(self).last_cut_candidate is None,
            final(self).is_flushed == old(self).is_flushed,
            final(self).text == old(self).text,
            final(self).text_marks == old(self).text_marks,
            final(self).lines@ == old(self).pending_lines(),
            final(self).line_marks@ == old(self).pending_marks(),
            final(self).lines@.len() >= 1,
            marks_fit(final(self).lines@, final(self).line_marks@),
            final(self).inner@ == join_lines(final(self).lines@),
            forall|i: int|
                0 <= i < final(self).lines@.len() ==> no_crlf(#[trigger] final(self).lines@[i]),
            forall|i: int|
                0 <= i < final(self).lines@.len() ==> line_within_limit(
                    #[trigger] final(self).lines@[i],
                    final(self).line_marks@[i],
                ),
            forall|i: int, j: int|
                #![trigger final(self).lines@[i], final(self).lines@[j]]
                0 <= i && j == i + 1 && j < final(self).lines@.len() ==> fold_needed(
                    final(self).lines@[i],
                    final(self).lines@[j],
                ) && fold_maximal(final(self).lines@[i], final(self).lines@[j], final(self).line_marks@[j]),
    {
        proof {
            self.lemma_pairs_flush_line();
        }
        let ghost ls0 = self.lines@;
        let ghost c0 = self.cur_fold@;
        let ghost prev0 = self.prev_fold;
        let ghost ls1 = self.pending_lines();
        let ghost ms1 = self.pending_marks();
        let ghost text = text_in(c0, 0, c0.len() as int);
        let prev = self.prev_fold.take();
        match prev {
            Some(p) => {
                ascii::extend_bytes(&mut self.inner, p.as_slice());
                if self.cur_has_text {
                    self.inner.push(CR);
                    self.inner.push(LF);
                }
            },
            None => {},
        }
        ascii::extend_bytes(&mut self.inner, self.cur_fold.as_slice());
        proof {
            let n = (ls0.len() - 1) as int;
            match prev0 {
                Some(p) => {
                    if text {
                        let l1 = ls0.update(n, p@);
                        lemma_join_set_last(ls0, p@);
                        lemma_join_push(l1, c0);
                        assert(self.inner@ =~= old(self).inner@ + pending(prev0, c0));
                    } else {
                        lemma_join_set_last(ls0, p@ + c0);
                        let x = old(self).inner@ + p@;
                        assert(self.inner@ =~= x + c0);
                        assert(old(self).inner@ + pending(prev0, c0) =~= x + crlf() + c0);
                        assert(!ends_crlf(x)) by {
                            let pp = p@;
                            if pp.len() >= 2 {
                                assert(x[x.len() - 2] == pp[pp.len() - 2] && x[x.len() - 1] == pp[pp.len() - 1]);
                            } else {
                                assert(x[x.len() - 1] == pp[0]);
                                assert(x.len() >= 2 ==> x[x.len() - 2] == old(self).inner@.last());
                            }
                        }
                        lemma_unfold_insert_fold(x, c0);
                    }
                    self.lines = Ghost(ls1);
                    assert(self.inner@ =~= join_lines(self.lines@));
                },
                None => {
                    lemma_join_set_last(ls0, c0);
                    self.lines = Ghost(ls1);
                    assert(self.inner@ =~= old(self).inner@ + pending(prev0, c0));
                },
            }
            self.line_marks = Ghost(ms1);
        }
        self.cur_fold.truncate(0);
        self.cur_marks = Ghost(Seq::empty());
        self.cur_fold_is_only_fws = true;
        self.cur_has_text = false;
        self.last_cut_candidate = None;
    }

    /// Appends text to the current fold, with its marks.
    #[verifier::spinoff_prover]
    #[verifier::rlimit(100)]
    fn append_text(&mut self, buf: &[u8], Ghost(mb): Ghost<Seq<bool>>)
        requires
            old(self).wf(),
            !old(self).is_flushed,
            bytes_allowed(old(self).text@, buf@),
            mb.len() == buf@.len(),
            buf@.len() > 0 ==> old(self).cur_fold@.len() > 0 || old(self).prev_fold is Some || !is_wsp(
                buf@[0],
            ),
            old(self).cur_fold@.len() + buf@.len() <= LINE_LIMIT || old(self).last_cut_candidate is None,
            forall|j: int| 0 <= j < mb.len() ==> !#[trigger] mb[j],
        ensures
            final(self).wf(),
            !final(self).is_flushed,
            final(self).cur_short(),
            final(self).text@ == old(self).text@ + buf@,
            final(self).text_marks@ == old(self).text_marks@ + mb,
            final(self).cur_fold@ == old(self).cur_fold@ + buf@,
            final(self).cur_marks@ == old(self).cur_marks@ + mb,
            final(self).prev_fold == old(self).prev_fold,
            final(self).last_cut_candidate == old(self).last_cut_candidate,
            final(self).kept == old(self).kept,
            final(self).lines == old(self).lines,
            final(self).line_marks == old(self).line_marks,
            final(self).prev_marks == old(self).prev_marks,
    {
        let ghost out0 = self.inner@ + pending(self.prev_fold, self.cur_fold@);
        let ghost c0 = self.cur_fold@;
        let ghost w0 = self.text@;
        let ghost cm0 = self.cur_marks@;
        let ghost ls0 = self.pending_lines();
        let ghost ms0 = self.pending_marks();
        let ghost lines0 = self.lines@;
        let ghost lm0 = self.line_marks@;
        let t = has_text(buf);
        ascii::extend_bytes(&mut self.cur_fold, buf);
        if buf.len() > 0 {
            self.cur_fold_is_only_fws = false;
        }
        if t {
            self.cur_has_text = true;
            self.text_after_cand = true;
        }
        self.text = Ghost(w0 + buf@);
        self.text_marks = Ghost(self.text_marks@ + mb);
        self.cur_marks = Ghost(cm0 + mb);
        proof {
            let c1 = self.cur_fold@;
            let l0 = c0.len() as int;
            let l1 = c1.len() as int;
            assert(c1 =~= c0 + buf@);
            assert(c1.subrange(0, l0) =~= c0);
            assert(c1.subrange(l0, l1) =~= buf@);
            lemma_text_in_sub(c1, l0, l1, 0, l1 - l0);
            lemma_text_in_sub(c1, 0, l0, 0, l0);
            lemma_text_in_split(c1, 0, l0, l1);
            let text0 = text_in(c0, 0, l0);
            let text1 = text_in(c1, 0, l1);
            assert(text1 == (text0 || t));
            if let Some(k) = self.last_cut_candidate {
                lemma_text_in_sub(c1, 0, l0, 0, k as int);
                lemma_text_in_sub(c1, 0, l0, k + 1, l0);
                lemma_text_in_split(c1, k + 1, l0, l1);
                assert(self.cur_marks@[k as int] == cm0[k as int]);
            }
            assert forall|j: int| 1 <= j < l1 && #[trigger] self.cur_marks@[j] implies j < l0 && cm0[j]
                && text_in(c1, 0, j) == text_in(c0, 0, j) by {
                if j < l0 {
                    assert(self.cur_marks@[j] == cm0[j]);
                    lemma_text_in_sub(c1, 0, l0, 0, j);
                } else {
                    assert(self.cur_marks@[j] == mb[j - l0]);
                }
            }
            assert(continues(c0 + buf@) == continues(c0)) by {
                if c0.len() > 0 {
                    assert((c0 + buf@)[0] == c0[0]);
                } else if buf@.len() > 0 {
                    assert((c0 + buf@)[0] == buf@[0]);
                    if self.prev_fold is Some {
                        assert(false);
                    }
                }
            }
            // the marks of the pending lines
            let n = lines0.len() - 1;
            match self.prev_fold {
                Some(ref pv) => {
                    let p = pv@;
                    let pm = self.prev_marks@;
                    assert(continues(p + c0) == continues(p) && continues(p + c1) == continues(p)) by {
                        assert((p + c0)[0] == p[0] && (p + c1)[0] == p[0]);
                    }
                    if text0 {
                        assert(ls0 == lines0.update(n, p).push(c0));
                        assert(ms0 == lm0.update(n, pm).push(cm0));
                        let b0 = lines0.update(n, p);
                        let bm0 = lm0.update(n, pm);
                        lemma_join_marks_push(b0, bm0, c0, cm0);
                        lemma_join_marks_push(b0, bm0, c1, cm0 + mb);
                        assert(self.pending_lines() =~= b0.push(c1));
                        assert(self.pending_marks() =~= bm0.push(cm0 + mb));
                        assert(sep_marks(c1) == sep_marks(c0));
                        assert(join_marks(b0, bm0) + sep_marks(c1) + (cm0 + mb) =~= join_marks(b0, bm0)
                            + sep_marks(c0) + cm0 + mb);
                    } else if !t {
                        assert(ls0 == lines0.update(n, p + c0));
                        assert(ms0 == lm0.update(n, pm + cm0));
                        lemma_join_marks_extend(lines0, lm0, p + c0, pm + cm0, buf@, mb);
                        assert(p + c1 =~= (p + c0) + buf@);
                        assert(pm + (cm0 + mb) =~= (pm + cm0) + mb);
                        assert(self.pending_lines() =~= lines0.update(n, (p + c0) + buf@));
                        assert(self.pending_marks() =~= lm0.update(n, (pm + cm0) + mb));
                    } else {
                        // the fold of whitespace now holds text: it becomes a line of its own
                        assert(ls0 == lines0.update(n, p + c0));
                        assert(ms0 == lm0.update(n, pm + cm0));
                        let b0 = lines0.update(n, p);
                        let bm0 = lm0.update(n, pm);
                        lemma_join_marks_extend(lines0, lm0, p, pm, c0, cm0);
                        assert(lines0.update(n, p + c0) == ls0);
                        lemma_join_marks_push(b0, bm0, c1, cm0 + mb);
                        assert(self.pending_lines() =~= b0.push(c1));
                        assert(self.pending_marks() =~= bm0.push(cm0 + mb));
                        assert(continues(c1)) by {
                            assert(c1[0] == c0[0]);
                        }
                        assert(join_marks(b0, bm0) + sep_marks(c1) + (cm0 + mb) =~= join_marks(b0, bm0)
                            + cm0 + mb);
                    }
                },
                None => {
                    assert(ls0[n] == c0 && ms0[n] == cm0);
                    lemma_join_marks_extend(ls0, ms0, c0, cm0, buf@, mb);
                    assert(ls0.update(n, c0) =~= ls0);
                    assert(ms0.update(n, cm0) =~= ms0);
                    assert(self.pending_lines() =~= ls0.update(n, c0 + buf@));
                    assert(self.pending_marks() =~= ms0.update(n, cm0 + mb));
                },
            }
            let out1 = self.inner@ + pending(self.prev_fold, self.cur_fold@);
            assert(out1 =~= out0 + buf@);
            lemma_unfold_no_crlf(buf@);
            // the boundary between what was output and `buf` holds no fold
            assert(!(out0.len() > 0 && out0.last() == CR && buf@.len() >= 2 && buf@[0] == LF
                && is_wsp(buf@[1]))) by {
                if out0.len() > 0 && out0.last() == CR {
                    assert(c0.len() > 0);
                    assert(out0.last() == c0.last());
                }
            }
            assert(!(ends_crlf(out0) && buf@.len() > 0 && is_wsp(buf@[0]))) by {
                if ends_crlf(out0) && buf@.len() > 0 {
                    if c0.len() >= 2 {
                        assert(out0[out0.len() - 2] == c0[c0.len() - 2]);
                        assert(out0[out0.len() - 1] == c0[c0.len() - 1]);
                    } else if c0.len() == 1 {
                        assert(out0[out0.len() - 1] == c0[0]);
                        if self.prev_fold is Some {
                            assert(out0[out0.len() - 2] == LF);
                        } else {
                            assert(out0[out0.len() - 2] == self.inner@.last());
                        }
                    } else {
                        assert(line_start(w0));
                    }
                }
            }
            lemma_unfold_append(out0, buf@);
            assert(no_crlf(self.cur_fold@)) by {
                assert forall|i: int| 0 <= i && i + 1 < c1.len() implies !(#[trigger] c1[i] == CR
                    && c1[i + 1] == LF) by {
                    if i + 1 < c0.len() {
                        assert(c1[i] == c0[i] && c1[i + 1] == c0[i + 1]);
                    } else if i + 1 == c0.len() {
                        assert(c1[i] == c0.last() && c1[i + 1] == buf@[0]);
                    } else {
                        assert(c1[i] == buf@[i - c0.len()] && c1[i + 1] == buf@[i + 1 - c0.len()]);
                    }
                }
            }
            if buf@.len() > 0 {
                assert(!line_start(self.text@)) by {
                    let w1 = self.text@;
                    if ends_crlf(w1) {
                        if buf@.len() >= 2 {
                            assert(w1[w1.len() - 2] == buf@[buf@.len() - 2]);
                        } else {
                            assert(w1[w1.len() - 2] == w0.last());
                        }
                    }
                }
            }
            if self.prev_fold is None && c1.len() > 0 {
                if c0.len() > 0 {
                    assert(c1[0] == c0[0]);
                } else {
                    assert(line_start(w0));
                    assert(c1[0] == buf@[0]);
                }
            }
        }
    }

    /// The lines after a fold keep every fold needed and maximal, and the
    /// new cut fold continues the last of them.
    proof fn lemma_fold_lines(&self)
        requires
            self.wf(),
            !self.is_flushed,
            self.needed(),
            self.last_cut_candidate is Some,
        ensures
            ({
                let ls0 = self.lines@;
                let ms0 = self.line_marks@;
                let n = ls0.len() - 1;
                let ls1 = match self.prev_fold {
                    Some(p) => ls0.update(n, p@).push(Seq::<u8>::empty()),
                    None => ls0,
                };
                let ms1 = match self.prev_fold {
                    Some(p) => ms0.update(n, self.prev_marks@).push(Seq::<bool>::empty()),
                    None => ms0,
                };
                let k = self.last_cut_candidate->0 as int;
                &&& forall|i: int, j: int|
                    #![trigger ls1[i], ls1[j]]
                    0 <= i && j == i + 1 && j < ls1.len() ==> fold_needed(ls1[i], ls1[j])
                        && fold_maximal(ls1[i], ls1[j], ms1[j])
                &&& continues_last(ls1, self.cur_fold@.subrange(0, k), self.cur_marks@.subrange(0, k))
            }),
    {
        let ls0 = self.lines@;
        let ms0 = self.line_marks@;
        let n = ls0.len() - 1;
        let c = self.cur_fold@;
        let cm = self.cur_marks@;
        let k = self.last_cut_candidate->0 as int;
        let q = c.subrange(0, k);
        let qm = cm.subrange(0, k);
        match self.prev_fold {
            Some(p) => {
                let ls1 = ls0.update(n, p@).push(Seq::<u8>::empty());
                let ms1 = ms0.update(n, self.prev_marks@).push(Seq::<bool>::empty());
                assert forall|i: int, j: int|
                    #![trigger ls1[i], ls1[j]]
                    0 <= i && j == i + 1 && j < ls1.len() implies fold_needed(ls1[i], ls1[j])
                    && fold_maximal(ls1[i], ls1[j], ms1[j]) by {
                    if j < n {
                        assert(ls1[i] == ls0[i] && ls1[j] == ls0[j] && ms1[j] == ms0[j]);
                    } else if j == n {
                        assert(ls1[i] == ls0[i] && ls1[j] == p@ && ms1[j] == self.prev_marks@);
                        assert(self.prev_continues(p@));
                    } else {
                        assert(ls1[j] == Seq::<u8>::empty());
                    }
                }
                assert(ls1[ls1.len() - 2] == p@);
                assert(q[0] == c[0]);
                assert(p@.len() + self.kept@ > LINE_LIMIT);
                assert forall|m: int, j: int|
                    1 <= m < j < q.len() && #[trigger] qm[m] && text_in(q, 0, m) && !is_wsp(
                        #[trigger] q[j],
                    ) implies p@.len() + m > LINE_LIMIT by {
                    assert(qm[m] == cm[m]);
                    if m < self.kept@ {
                        assert(!cm[m]);
                    }
                }
            },
            None => {
                assert(q[0] == c[0]);
            },
        }
        lemma_text_in_sub(c, 0, k, 0, k);
    }

    /// Folds the current line at the last cut candidate.
    #[verifier::spinoff_prover]
    #[verifier::rlimit(100)]
    fn fold(&mut self)
        requires
            old(self).wf(),
            !old(self).is_flushed,
            old(self).last_cut_candidate is Some,
            line_within_limit(
                old(self).cur_fold@.subrange(0, old(self).last_cut_candidate->0 as int),
                old(self).cur_marks@.subrange(0, old(self).last_cut_candidate->0 as int),
            ),
            old(self).needed(),
        ensures
            final(self).wf(),
            !final(self).is_flushed,
            final(self).text == old(self).text,
            final(self).text_marks == old(self).text_marks,
            final(self).last_cut_candidate is None,
            final(self).prev_fold is Some,
            final(self).prev_fold->0@.len() + final(self).cur_fold@.len() == old(self).cur_fold@.len(),
            final(self).kept@ == final(self).cur_fold@.len(),
            forall|j: int| 1 <= j < final(self).cur_fold@.len() ==> !#[trigger] final(self).cur_marks@[j],
    {
        proof {
            self.lemma_fold_lines();
        }
        let ghost old_out = self.inner@ + pending(self.prev_fold, self.cur_fold@);
        let ghost c = self.cur_fold@;
        let ghost cm = self.cur_marks@;
        let ghost ls0 = self.lines@;
        let ghost ms0 = self.line_marks@;
        let ghost prev0 = self.prev_fold;
        let ghost pm0 = self.prev_marks@;
        let ghost k0 = self.last_cut_candidate->0 as int;
        let ghost pl0 = self.pending_lines();
        let ghost pms0 = self.pending_marks();
        let prev = self.prev_fold.take();
        match prev {
            Some(p) => {
                ascii::extend_bytes(&mut self.inner, p.as_slice());
                self.inner.push(CR);
                self.inner.push(LF);
            },
            None => {},
        }
        proof {
            if let Some(p) = prev0 {
                let n = (ls0.len() - 1) as int;
                let l1 = ls0.update(n, p@);
                lemma_join_set_last(ls0, p@);
                lemma_join_push(l1, Seq::<u8>::empty());
                self.lines = Ghost(l1.push(Seq::<u8>::empty()));
                self.line_marks = Ghost(ms0.update(n, pm0).push(Seq::<bool>::empty()));
                assert(self.inner@ =~= join_lines(self.lines@));
                assert forall|i: int| 0 <= i < self.lines@.len() implies no_crlf(
                    #[trigger] self.lines@[i],
                ) && line_within_limit(self.lines@[i], self.line_marks@[i])
                    && self.line_marks@[i].len() == self.lines@[i].len() by {
                    if i < n {
                        assert(self.lines@[i] == ls0[i] && self.line_marks@[i] == ms0[i]);
                    } else if i == n {
                        assert(self.lines@[i] == p@ && self.line_marks@[i] == pm0);
                    }
                }
            } else {
                assert(self.inner@ =~= join_lines(self.lines@));
            }
        }
        let cut_pos = match self.last_cut_candidate {
            Some(k) => k,
            None => 0,
        };
        let mut head = self.cur_fold.split_off(cut_pos);
        std::mem::swap(&mut head, &mut self.cur_fold);
        self.prev_fold = Some(head);
        self.last_cut_candidate = None;
        self.cur_fold_is_only_fws = false;
        self.cur_has_text = self.text_after_cand;
        self.text_after_cand = false;
        let ghost kl = self.cur_fold@.len() as int;
        self.kept = Ghost(kl);
        self.prev_marks = Ghost(cm.subrange(0, cut_pos as int));
        self.cur_marks = Ghost(cm.subrange(cut_pos as int, cm.len() as int));
        proof {
            let k = cut_pos as int;
            let x = self.inner@ + c.subrange(0, k);
            assert(self.inner@ + pending(self.prev_fold, self.cur_fold@) =~= x + crlf() + c.subrange(k, c.len() as int));
            assert(old_out =~= x + c.subrange(k, c.len() as int));
            // x does not end with CRLF: c has no CRLF, and what precedes c ends with LF
            assert(!ends_crlf(x)) by {
                if k >= 2 {
                    assert(x[x.len() - 2] == c[k - 2] && x[x.len() - 1] == c[k - 1]);
                } else {
                    assert(x[x.len() - 1] == c[0]);
                    assert(x.len() >= 2 ==> x[x.len() - 2] == self.inner@.last());
                }
            }
            lemma_unfold_insert_fold(x, c.subrange(k, c.len() as int));
            assert(self.cur_fold@ =~= c.subrange(k, c.len() as int));
            assert(self.prev_fold.unwrap()@ =~= c.subrange(0, k));
            assert(no_crlf(self.cur_fold@)) by {
                assert forall|i: int| 0 <= i && i + 1 < self.cur_fold@.len() implies !(
                #[trigger] self.cur_fold@[i] == CR && self.cur_fold@[i + 1] == LF) by {
                    assert(self.cur_fold@[i] == c[k + i] && self.cur_fold@[i + 1] == c[k + i + 1]);
                }
            }
            assert(no_crlf(self.prev_fold.unwrap()@)) by {
                let p = self.prev_fold.unwrap()@;
                assert forall|i: int| 0 <= i && i + 1 < p.len() implies !(#[trigger] p[i] == CR
                    && p[i + 1] == LF) by {
                    assert(p[i] == c[i] && p[i + 1] == c[i + 1]);
                }
            }
            assert(self.inner@.last() == LF || self.inner@.len() == 0);
            assert(self.cur_fold@.last() == c.last());
            assert forall|j: int| 1 <= j < self.cur_fold@.len() implies !#[trigger] self.cur_marks@[j] by {
                assert(self.cur_marks@[j] == cm[k + j]);
            }
            // text on both sides of the cut
            lemma_text_in_sub(c, 0, k, 0, k);
            lemma_text_in_split(c, 0, k, c.len() as int);
            lemma_text_in_sub(c, k, c.len() as int, 0, c.len() - k);
            lemma_text_in_split(c, k, k + 1, c.len() as int);
            assert(!text_in(c, k, k + 1)) by {
                if text_in(c, k, k + 1) {
                    let i = choose|i: int| k <= i < k + 1 && !is_wsp(#[trigger] c[i]);
                    assert(i == k);
                }
            }
            assert(self.cur_has_text == text_in(self.cur_fold@, 0, self.cur_fold@.len() as int));
            // the marks, once unfolded, are the same
            let q = c.subrange(0, k);
            let r = c.subrange(k, c.len() as int);
            let qm = cm.subrange(0, k);
            let rm = cm.subrange(k, cm.len() as int);
            assert(continues(r)) by {
                assert(r[0] == c[k]);
            }
            assert(continues(q) == continues(c)) by {
                assert(q[0] == c[0]);
            }
            assert(cm =~= qm + rm);
            assert(c =~= q + r);
            let base = pl0.drop_last();
            let bm = pms0.drop_last();
            let pl1 = self.pending_lines();
            let pms1 = self.pending_marks();
            assert(pl0 =~= base.push(c));
            assert(pms0 =~= bm.push(cm));
            if !text_in(r, 0, r.len() as int) {
                assert(pl1 =~= base.push(q + r));
                assert(pms1 =~= bm.push(qm + rm));
                assert(q + r =~= c);
                assert(qm + rm =~= cm);
            } else {
            assert(pl1 =~= base.push(q).push(r));
            assert(pms1 =~= bm.push(qm).push(rm));
            if base.len() >= 1 {
                lemma_join_marks_push(base, bm, c, cm);
                lemma_join_marks_push(base, bm, q, qm);
                lemma_join_marks_push(base.push(q), bm.push(qm), r, rm);
                assert(join_marks(base, bm) + sep_marks(q) + qm + sep_marks(r) + rm =~= join_marks(base, bm)
                    + sep_marks(c) + cm);
            } else {
                assert(base.push(q).len() == 1);
                assert(join_marks(base.push(q), bm.push(qm)) == qm);
                assert(join_marks(base.push(c), bm.push(cm)) == cm);
                assert(base.push(q).push(r).drop_last() =~= base.push(q));
                assert(bm.push(qm).push(rm).drop_last() =~= bm.push(qm));
                assert(qm + sep_marks(r) + rm =~= cm);
            }
            }
        }
    }
}

impl Formatter for LineFolder {
    closed spec fn written(&self) -> Seq<u8> {
        self.text@
    }

    closed spec fn accepts_writes(&self) -> bool {
        self.wf() && !self.is_flushed && self.cur_short() && self.needed()
    }

    closed spec fn fws_marks(&self) -> Seq<bool> {
        self.text_marks@
    }

    fn write_bytes(&mut self, buf: &[u8])
    {
        let ghost mb = unmarked(buf@.len());
        proof {
            if buf@.len() > 0 && self.cur_fold@.len() == 0 && self.prev_fold is None {
                assert(line_start(self.text@));
            }
        }
        if (self.cur_fold.len() <= LINE_LIMIT && buf.len() <= LINE_LIMIT - self.cur_fold.len())
            || self.last_cut_candidate.is_none() {
            self.append_text(buf, Ghost(mb));
            proof {
                assert forall|j: int| 1 <= j < self.kept@ implies !#[trigger] self.cur_marks@[j] by {
                    assert(self.cur_marks@[j] == old(self).cur_marks@[j]);
                }
            }
        } else {
            let ghost c0 = self.cur_fold@;
            self.fold();
            let ghost c1 = self.cur_fold@;
            let ghost cm1 = self.cur_marks@;
            self.append_text(buf, Ghost(mb));
            let ghost kl = self.cur_fold@.len() as int;
            self.kept = Ghost(kl);
            proof {
                let c2 = self.cur_fold@;
                assert(self.prev_fold->0@.len() + c1.len() == c0.len());
                assert forall|j: int| 1 <= j < self.kept@ implies !#[trigger] self.cur_marks@[j] by {
                    if j < c1.len() {
                        assert(self.cur_marks@[j] == cm1[j]);
                    } else {
                        assert(self.cur_marks@[j] == mb[j - c1.len()]);
                    }
                }
            }
        }
    }

    #[verifier::spinoff_prover]
    #[verifier::rlimit(100)]
    fn write_fws_bytes(&mut self, buf: &[u8])
    {
        let mut i: usize = 0;
        let ghost w0 = self.text@;
        let ghost tm0 = self.text_marks@;
        while i < buf.len()
            invariant
                i <= buf.len(),
                self.wf(),
                !self.is_flushed,
                self.cur_short(),
                self.needed(),
                fws_allowed(w0, buf@),
                self.text@ == w0 + buf@.subrange(0, i as int),
                self.text_marks@ == tm0 + all_marked(i as nat),
            decreases buf.len() - i,
        {
            let ghost cand0 = self.last_cut_candidate;
            let b = buf[i];
            let ghost out0 = self.inner@ + pending(self.prev_fold, self.cur_fold@);
            let ghost c0 = self.cur_fold@;
            let ghost cm0 = self.cur_marks@;
            let ghost wi = self.text@;
            let ghost ls0 = self.pending_lines();
            let ghost ms0 = self.pending_marks();
            proof {
                assert(!line_start(w0));
                if i > 0 {
                    assert(wi.last() == buf@[i - 1]);
                }
                assert(!line_start(wi));
            }
            if self.cur_has_text {
                self.last_cut_candidate = Some(self.cur_fold.len());
                self.text_after_cand = false;
            }
            self.cur_fold.push(b);
            self.text = Ghost(wi.push(b));
            self.text_marks = Ghost(self.text_marks@.push(true));
            self.cur_marks = Ghost(cm0.push(true));
            proof {
                let out1 = self.inner@ + pending(self.prev_fold, self.cur_fold@);
                assert(out1 =~= out0 + seq![b]);
                assert(is_wsp(b));
                assert(c0.len() > 0);
                assert(!ends_crlf(out0)) by {
                    if c0.len() >= 2 {
                        assert(out0[out0.len() - 2] == c0[c0.len() - 2]);
                        assert(out0[out0.len() - 1] == c0[c0.len() - 1]);
                    } else {
                        assert(out0[out0.len() - 1] == c0[0]);
                        if out0.len() >= 2 {
                            if self.prev_fold is Some {
                                assert(out0[out0.len() - 2] == LF);
                            } else {
                                assert(out0[out0.len() - 2] == self.inner@.last());
                            }
                        }
                    }
                }
                lemma_unfold_append(out0, seq![b]);
                lemma_unfold_no_crlf(seq![b]);
                assert(wi.push(b) =~= wi + seq![b]);
                assert(unfold(out1) == self.text@);
                assert(no_crlf(self.cur_fold@)) by {
                    let c1 = self.cur_fold@;
                    assert forall|j: int| 0 <= j && j + 1 < c1.len() implies !(#[trigger] c1[j] == CR
                        && c1[j + 1] == LF) by {
                        if j + 1 < c0.len() {
                            assert(c1[j] == c0[j] && c1[j + 1] == c0[j + 1]);
                        } else {
                            assert(c1[j + 1] == b);
                        }
                    }
                }
                assert(buf@.subrange(0, i + 1) =~= buf@.subrange(0, i as int).push(b));
                assert(all_marked((i + 1) as nat) =~= all_marked(i as nat).push(true));
                assert(tm0 + all_marked((i + 1) as nat) =~= (tm0 + all_marked(i as nat)).push(true));
                assert(!line_start(self.text@)) by {
                    let w1 = self.text@;
                    assert(w1.last() == b);
                }
                // text in the current fold
                let c1 = self.cur_fold@;
                let l0 = c0.len() as int;
                assert(c1 =~= c0 + seq![b]);
                assert(c1.subrange(0, l0) =~= c0);
                lemma_text_in_sub(c1, 0, l0, 0, l0);
                lemma_text_in_split(c1, 0, l0, l0 + 1);
                assert(!text_in(c1, l0, l0 + 1)) by {
                    if text_in(c1, l0, l0 + 1) {
                        let x = choose|x: int| l0 <= x < l0 + 1 && !is_wsp(#[trigger] c1[x]);
                        assert(x == l0);
                    }
                }
                assert(text_in(c1, 0, l0 + 1) == text_in(c0, 0, l0));
                if let Some(k) = cand0 {
                    lemma_text_in_sub(c1, 0, l0, 0, k as int);
                }
                assert forall|j: int| 1 <= j < l0 + 1 && #[trigger] self.cur_marks@[j] && !(
                self.last_cut_candidate matches Some(k) && j <= k) implies !text_in(c1, 0, j) by {
                    if j < l0 {
                        assert(self.cur_marks@[j] == cm0[j]);
                        lemma_text_in_sub(c1, 0, l0, 0, j);
                    }
                }
                if let Some(k) = self.last_cut_candidate {
                    if k < l0 {
                        assert(cand0 == Some(k));
                        lemma_text_in_sub(c1, 0, l0, k + 1, l0);
                        lemma_text_in_split(c1, k + 1, l0, l0 + 1);
                        assert(self.cur_marks@[k as int] == cm0[k as int]);
                    } else {
                        assert(!text_in(c1, k + 1, l0 + 1));
                    }
                }
                // the marks of the pending lines
                let n = ls0.len() - 1;
                let x = ls0[n];
                let mx = ms0[n];
                assert(x.len() > 0);
                assert(continues(x + seq![b]) == continues(x)) by {
                    assert((x + seq![b])[0] == x[0]);
                }
                lemma_join_marks_extend(ls0, ms0, x, mx, seq![b], seq![true]);
                assert(ls0.update(n, x) =~= ls0);
                assert(ms0.update(n, mx) =~= ms0);
                assert(self.cur_marks@ =~= cm0 + seq![true]);
                if let Some(ref pv) = self.prev_fold {
                    assert((pv@ + c0) + seq![b] =~= pv@ + c1);
                    assert((self.prev_marks@ + cm0) + seq![true] =~= self.prev_marks@ + self.cur_marks@);
                }
                assert(self.pending_lines() =~= ls0.update(n, x + seq![b]));
                assert(self.pending_marks() =~= ms0.update(n, mx + seq![true]));
                assert(self.text_marks@ =~= join_marks(ls0, ms0) + seq![true]);
            }
            proof {
                assert forall|j: int| 1 <= j < self.kept@ implies !#[trigger] self.cur_marks@[j] by {
                    assert(self.cur_marks@[j] == cm0[j]);
                }
                assert(self.cur_fold@[0] == c0[0]);
            }
            if self.cur_fold.len() > LINE_LIMIT && self.last_cut_candidate.is_some() {
                proof {
                    let k = self.last_cut_candidate->0 as int;
                    assert(k == c0.len());
                    assert(self.cur_fold@.subrange(0, k) =~= c0);
                    assert(self.cur_marks@.subrange(0, k) =~= cm0);
                    assert(line_within_limit(c0, cm0)) by {
                        assert forall|m: int, j: int|
                            1 <= m < j < c0.len() && #[trigger] cm0[m] && text_in(c0, 0, m) && !is_wsp(
                                #[trigger] c0[j],
                            ) implies j < LINE_LIMIT by {
                            if c0.len() > LINE_LIMIT {
                                assert(cand0 is None);
                            }
                        }
                    }
                }
                let ghost c1 = self.cur_fold@;
                self.fold();
                proof {
                    assert(self.prev_fold->0@.len() + self.kept@ == c1.len());
                }
            }
            i += 1;
        }
        assert(buf@.subrange(0, buf.len() as int) =~= buf@);
    }

    fn write_crlf(&mut self)
    {
        let ghost out0 = self.inner@ + pending(self.prev_fold, self.cur_fold@);
        let ghost w0 = self.text@;
        let ghost tm0 = self.text_marks@;
        self.flush_line();
        let ghost inner1 = self.inner@;
        let ghost ls1 = self.lines@;
        let ghost ms1 = self.line_marks@;
        self.inner.push(CR);
        self.inner.push(LF);
        self.text = Ghost(w0 + crlf());
        self.text_marks = Ghost(tm0 + seq![false, false]);
        self.kept = Ghost(0);
        proof {
            lemma_join_push(ls1, Seq::<u8>::empty());
            self.lines = Ghost(ls1.push(Seq::<u8>::empty()));
            self.line_marks = Ghost(ms1.push(Seq::<bool>::empty()));
            assert(self.inner@ =~= join_lines(self.lines@));
            assert forall|i: int, j: int|
                #![trigger self.lines@[i], self.lines@[j]]
                0 <= i && j == i + 1 && j < self.lines@.len() implies fold_needed(
                self.lines@[i],
                self.lines@[j],
            ) && fold_maximal(self.lines@[i], self.lines@[j], self.line_marks@[j]) by {
                if j < ls1.len() {
                    assert(self.lines@[i] == ls1[i] && self.lines@[j] == ls1[j]
                        && self.line_marks@[j] == ms1[j]);
                } else {
                    assert(self.lines@[j] == Seq::<u8>::empty());
                }
            }
            assert forall|i: int| 0 <= i < self.lines@.len() implies no_crlf(#[trigger] self.lines@[i])
                && line_within_limit(self.lines@[i], self.line_marks@[i]) && self.line_marks@[i].len()
                == self.lines@[i].len() by {
                if i < ls1.len() {
                    assert(self.lines@[i] == ls1[i] && self.line_marks@[i] == ms1[i]);
                }
            }
            assert(self.inner@ =~= inner1 + crlf());
            lemma_unfold_append(inner1, crlf());
            assert(unfold(crlf()) =~= crlf()) by {
                lemma_unfold_no_crlf(seq![LF]);
                assert(crlf().subrange(1, 2) =~= seq![LF]);
            }
            assert(self.inner@ + pending(self.prev_fold, self.cur_fold@) =~= self.inner@);
            assert(ends_crlf(self.text@));
            // the marks: a line break, then an empty line
            let n = self.lines@.len() - 1;
            assert(self.cur_fold@ =~= Seq::<u8>::empty());
            assert(self.cur_marks@ =~= Seq::<bool>::empty());
            assert(self.pending_lines() =~= self.lines@);
            assert(self.pending_marks() =~= self.line_marks@);
            lemma_join_marks_push(ls1, ms1, Seq::<u8>::empty(), Seq::<bool>::empty());
            assert(join_marks(ls1, ms1) + sep_marks(Seq::<u8>::empty()) + Seq::<bool>::empty()
                =~= tm0 + seq![false, false]);
        }
    }

    fn write_fws(&mut self)
    {
        let sp: [u8; 1] = [ascii::SP];
        assert(sp@ == seq![ascii::SP]);
        assert(fws_allowed(self.written(), sp@));
        self.write_fws_bytes(sp.as_slice());
        assert(all_marked(1) =~= seq![true]);
    }
}

/// One write on a formatter.
#[derive(Debug)]
pub enum FoldStep {
    /// `write_bytes`
    Bytes(Vec<u8>),
    /// `write_fws_bytes`
    FwsBytes(Vec<u8>),
    /// `write_fws`
    Fws,
    /// `write_crlf`
    Crlf,
}

/// The text that one step writes.
pub open spec fn step_text(st: FoldStep) -> Seq<u8> {
    match st {
        FoldStep::Bytes(b) => b@,
        FoldStep::FwsBytes(b) => b@,
        FoldStep::Fws => seq![ascii::SP],
        FoldStep::Crlf => crlf(),
    }
}

/// A step may follow the text `w`.
pub open spec fn step_allowed(w: Seq<u8>, st: FoldStep) -> bool {
    match st {
        FoldStep::Bytes(b) => bytes_allowed(w, b@),
        FoldStep::FwsBytes(b) => fws_allowed(w, b@),
        FoldStep::Fws => !line_start(w),
        FoldStep::Crlf => true,
    }
}

/// The text that a sequence of steps writes.
pub open spec fn steps_text(steps: Seq<FoldStep>) -> Seq<u8>
    decreases steps.len(),
{
    if steps.len() == 0 {
        Seq::empty()
    } else {
        steps_text(steps.drop_last()) + step_text(steps.last())
    }
}

/// Every step is allowed after the text written before it.
pub open spec fn steps_allowed(steps: Seq<FoldStep>) -> bool {
    forall|i: int| 0 <= i < steps.len() ==> step_allowed(steps_text(steps.take(i)), #[trigger] steps[i])
}

/// Applies one step to a formatter.
pub fn apply_step<F: Formatter>(fmt: &mut F, st: &FoldStep)
    requires
        old(fmt).accepts_writes(),
        step_allowed(old(fmt).written(), *st),
    ensures
        final(fmt).accepts_writes(),
        final(fmt).written() == old(fmt).written() + step_text(*st),
        final(fmt).fws_marks() == old(fmt).fws_marks() + step_marks(*st),
{
    match st {
        FoldStep::Bytes(b) => fmt.write_bytes(b.as_slice()),
        FoldStep::FwsBytes(b) => fmt.write_fws_bytes(b.as_slice()),
        FoldStep::Fws => fmt.write_fws(),
        FoldStep::Crlf => fmt.write_crlf(),
    }
}

/// Every step is allowed after the text `w` and the steps before it.
pub open spec fn steps_allowed_after(w: Seq<u8>, steps: Seq<FoldStep>) -> bool {
    forall|i: int|
        0 <= i < steps.len() ==> step_allowed(w + steps_text(steps.take(i)), #[trigger] steps[i])
}

/// Applies steps, in order, to a formatter.
#[verifier::spinoff_prover]
#[verifier::rlimit(60)]
pub fn apply_steps<F: Formatter>(fmt: &mut F, steps: &[FoldStep])
    requires
        old(fmt).accepts_writes(),
        steps_allowed_after(old(fmt).written(), steps@),
    ensures
        final(fmt).accepts_writes(),
        final(fmt).written() == old(fmt).written() + steps_text(steps@),
        final(fmt).fws_marks() == old(fmt).fws_marks() + steps_marks(steps@),
{
    let ghost w0 = fmt.written();
    let ghost m0 = fmt.fws_marks();
    let mut i: usize = 0;
    while i < steps.len()
        invariant
            i <= steps.len(),
            fmt.accepts_writes(),
            fmt.written() == w0 + steps_text(steps@.take(i as int)),
            fmt.fws_marks() == m0 + steps_marks(steps@.take(i as int)),
            steps_allowed_after(w0, steps@),
        decreases steps.len() - i,
    {
        apply_step(fmt, &steps[i]);
        assert(steps@.take(i + 1).drop_last() =~= steps@.take(i as int));
        assert(w0 + steps_text(steps@.take(i + 1)) =~= w0 + steps_text(steps@.take(i as int))
            + step_text(steps@[i as int]));
        assert(m0 + steps_marks(steps@.take(i + 1)) =~= m0 + steps_marks(steps@.take(i as int))
            + step_marks(steps@[i as int]));
        i += 1;
    }
    assert(steps@.take(steps.len() as int) =~= steps@);
}

/// A value that can be printed on a formatter.
pub trait Print {
    /// The text that printing writes.
    spec fn print_text(&self) -> Seq<u8>;

    /// Which bytes of `print_text` printing writes as folding whitespace.
    spec fn print_marks(&self) -> Seq<bool>;

    /// Printing may follow the text `w`: each of its writes obeys the rules
    /// of a formatter there.
    spec fn printable_after(&self, w: Seq<u8>) -> bool;

    fn print<F: Formatter>(&self, fmt: &mut F)
        requires
            old(fmt).accepts_writes(),
            self.printable_after(old(fmt).written()),
        ensures
            final(fmt).accepts_writes(),
            final(fmt).written() == old(fmt).written() + self.print_text(),
            final(fmt).fws_marks() == old(fmt).fws_marks() + self.print_marks(),
    ;
}

/// The texts of `s`, with `sep` between each two of them.
pub open spec fn joined_text<T: Print>(s: Seq<T>, sep: Seq<u8>) -> Seq<u8>
    decreases s.len(),
{
    if s.len() == 0 {
        seq![]
    } else if s.len() == 1 {
        s[0].print_text()
    } else {
        joined_text(s.drop_last(), sep) + sep + s.last().print_text()
    }
}

/// The folding whitespace marks of the texts of `s`, with `sep` between
/// each two of them.
pub open spec fn joined_marks<T: Print>(s: Seq<T>, sep: Seq<bool>) -> Seq<bool>
    decreases s.len(),
{
    if s.len() == 0 {
        seq![]
    } else if s.len() == 1 {
        s[0].print_marks()
    } else {
        joined_marks(s.drop_last(), sep) + sep + s.last().print_marks()
    }
}

/// Printing `s` with the separator steps `sep` may follow the text `w`.
pub open spec fn seq_printable_after<T: Print>(w: Seq<u8>, s: Seq<T>, sep: Seq<FoldStep>) -> bool {
    s.len() > 0 ==> {
        &&& s[0].printable_after(w)
        &&& forall|i: int|
            1 <= i < s.len() ==> {
                let before = w + joined_text(#[trigger] s.take(i), steps_text(sep));
                steps_allowed_after(before, sep) && s[i].printable_after(before + steps_text(sep))
            }
    }
}

/// Prints the items of `s`, with the writes `sep` between each two of them.
pub fn print_seq<T: Print, F: Formatter>(fmt: &mut F, s: &[T], sep: &[FoldStep])
    requires
        old(fmt).accepts_writes(),
        seq_printable_after(old(fmt).written(), s@, sep@),
    ensures
        final(fmt).accepts_writes(),
        final(fmt).written() == old(fmt).written() + joined_text(s@, steps_text(sep@)),
        final(fmt).fws_marks() == old(fmt).fws_marks() + joined_marks(s@, steps_marks(sep@)),
{
    if s.len() > 0 {
        let ghost w0 = fmt.written();
        let ghost m0 = fmt.fws_marks();
        let ghost st = steps_text(sep@);
        let ghost sm = steps_marks(sep@);
        s[0].print(fmt);
        assert(s@.take(1).len() == 1 && s@.take(1)[0] == s@[0]);
        let mut i: usize = 1;
        while i < s.len()
            invariant
                1 <= i <= s.len(),
                st == steps_text(sep@),
                sm == steps_marks(sep@),
                fmt.accepts_writes(),
                fmt.written() == w0 + joined_text(s@.take(i as int), st),
                fmt.fws_marks() == m0 + joined_marks(s@.take(i as int), sm),
                seq_printable_after(w0, s@, sep@),
            decreases s.len() - i,
        {
            let ghost before = fmt.written();
            assert(before == w0 + joined_text(s@.take(i as int), st));
            apply_steps(fmt, sep);
            s[i].print(fmt);
            proof {
                let t = s@.take(i + 1);
                assert(t.drop_last() =~= s@.take(i as int));
                assert(t.last() == s@[i as int]);
                assert(joined_text(t, st) == joined_text(s@.take(i as int), st) + st
                    + s@[i as int].print_text());
                assert(fmt.written() =~= w0 + joined_text(t, st));
                assert(joined_marks(t, sm) == joined_marks(s@.take(i as int), sm) + sm
                    + s@[i as int].print_marks());
                assert(fmt.fws_marks() =~= m0 + joined_marks(t, sm));
            }
            i += 1;
        }
        assert(s@.take(s.len() as int) =~= s@);
    }
}

/// Text that may be written, as bytes that are not folded, after any text:
/// it is not empty, holds no line break, does not begin with whitespace or
/// a line feed, and does not end with a carriage return.
pub open spec fn free_text(s: Seq<u8>) -> bool {
    &&& s.len() > 0
    &&& no_crlf(s)
    &&& !is_wsp(s[0])
    &&& s[0] != LF
    &&& s.last() != CR
}

/// No byte of `s` is a carriage return or a line feed.
pub open spec fn no_line_bytes(s: Seq<u8>) -> bool {
    forall|k: int| 0 <= k < s.len() ==> #[trigger] s[k] != CR && s[k] != LF
}

/// Free text may be written after any text, and a line has begun after it.
pub proof fn lemma_free_allowed(w: Seq<u8>, s: Seq<u8>)
    requires
        free_text(s),
    ensures
        bytes_allowed(w, s),
        !line_start(w + s),
{
    let z = w + s;
    if s.len() >= 2 {
        assert(z[z.len() - 2] == s[s.len() - 2] && z[z.len() - 1] == s[s.len() - 1]);
        assert(!(s[s.len() - 2] == CR && s[s.len() - 1] == LF));
    } else {
        assert(z[z.len() - 1] == s[0]);
    }
}

/// Two free texts with a separator free of line bytes between them make a
/// free text.
pub proof fn lemma_free_join(a: Seq<u8>, sep: Seq<u8>, b: Seq<u8>)
    requires
        free_text(a),
        free_text(b),
        no_line_bytes(sep),
    ensures
        free_text(a + sep + b),
{
    let z = a + sep + b;
    let n = a.len();
    let m = sep.len();
    assert forall|i: int| 0 <= i && i + 1 < z.len() implies !(#[trigger] z[i] == CR && z[i + 1] == LF) by {
        if i + 1 < n {
            assert(z[i] == a[i] && z[i + 1] == a[i + 1]);
        } else if i + 1 == n {
            assert(z[i] == a[n - 1]);
        } else if i < n + m {
            assert(z[i] == sep[i - n]);
        } else {
            assert(z[i] == b[i - n - m] && z[i + 1] == b[i + 1 - n - m]);
        }
    }
    assert(z[0] == a[0]);
    assert(z.last() == b.last());
}

/// Bytes between two delimiters, none a line byte nor whitespace at the
/// start, make a free text if they hold no line break.
pub proof fn lemma_free_wrap(open: u8, s: Seq<u8>, close: u8)
    requires
        no_crlf(s),
        !is_wsp(open),
        open != CR,
        open != LF,
        close != CR,
        close != LF,
    ensures
        free_text(seq![open] + s + seq![close]),
{
    let z = seq![open] + s + seq![close];
    assert forall|i: int| 0 <= i && i + 1 < z.len() implies !(#[trigger] z[i] == CR && z[i + 1] == LF) by {
        if i == 0 {
        } else if i + 1 < z.len() - 1 {
            assert(z[i] == s[i - 1] && z[i + 1] == s[i]);
        } else {
            assert(z[i + 1] == close);
        }
    }
    assert(z[0] == open);
    assert(z.last() == close);
}

/// Non-empty text without whitespace is free.
pub proof fn lemma_graphic_free(s: Seq<u8>)
    requires
        graphic(s),
        s.len() > 0,
    ensures
        free_text(s),
{
    lemma_graphic_allowed(Seq::<u8>::empty(), s);
    assert(0x21 <= s[0] && 0x21 <= s[s.len() - 1]);
}

/// After text that is not at the start of a line and does not end with a
/// carriage return, bytes without a line break leave the line begun.
pub proof fn lemma_line_begun(w: Seq<u8>, b: Seq<u8>)
    requires
        !line_start(w),
        w.last() != CR,
        no_crlf(b),
    ensures
        !line_start(w + b),
{
    let z = w + b;
    if b.len() >= 2 {
        assert(z[z.len() - 2] == b[b.len() - 2] && z[z.len() - 1] == b[b.len() - 1]);
    } else if b.len() == 1 {
        assert(z[z.len() - 2] == w.last());
    } else {
        assert(z =~= w);
    }
}

/// Writes free text as bytes that are not folded.
pub fn write_free<F: Formatter>(fmt: &mut F, b: &[u8])
    requires
        old(fmt).accepts_writes(),
        free_text(b@),
    ensures
        final(fmt).accepts_writes(),
        final(fmt).written() == old(fmt).written() + b@,
        final(fmt).fws_marks() == old(fmt).fws_marks() + unmarked(b@.len()),
        !line_start(final(fmt).written()),
{
    proof {
        lemma_free_allowed(fmt.written(), b@);
    }
    fmt.write_bytes(b);
}

/// Items that print as free text, after any text.
pub open spec fn free_items<T: Print>(s: Seq<T>) -> bool {
    &&& forall|i: int| 0 <= i < s.len() ==> free_text(#[trigger] s[i].print_text())
    &&& forall|i: int, w: Seq<u8>| 0 <= i < s.len() ==> #[trigger] s[i].printable_after(w)
}

/// Separator steps that may follow any text a line has begun in, and write
/// no line byte.
pub open spec fn free_sep(sep: Seq<FoldStep>) -> bool {
    &&& forall|x: Seq<u8>| !line_start(x) ==> #[trigger] steps_allowed_after(x, sep)
    &&& no_line_bytes(steps_text(sep))
}

/// Items that print as free text, joined by a separator without line
/// bytes, make a free text.
pub proof fn lemma_free_joined<T: Print>(s: Seq<T>, st: Seq<u8>)
    requires
        free_items(s),
        no_line_bytes(st),
        s.len() > 0,
    ensures
        free_text(joined_text(s, st)),
    decreases s.len(),
{
    if s.len() > 1 {
        let d = s.drop_last();
        assert(free_items(d)) by {
            assert forall|i: int| 0 <= i < d.len() implies free_text(#[trigger] d[i].print_text()) by {
                assert(d[i] == s[i]);
            }
            assert forall|i: int, x: Seq<u8>| 0 <= i < d.len() implies #[trigger] d[i].printable_after(x) by {
                assert(d[i] == s[i]);
                assert(s[i].printable_after(x));
            }
        }
        lemma_free_joined(d, st);
        assert(free_text(s.last().print_text())) by {
            assert(s.last() == s[s.len() - 1]);
        }
        lemma_free_join(joined_text(d, st), st, s.last().print_text());
    } else {
        assert(free_text(s[0].print_text()));
    }
}

/// Items that print as free text, with free separators, may be printed
/// after any text, and their joined text is free.
pub proof fn lemma_free_items<T: Print>(w: Seq<u8>, s: Seq<T>, sep: Seq<FoldStep>)
    requires
        free_items(s),
        free_sep(sep),
    ensures
        s.len() > 0 ==> free_text(joined_text(s, steps_text(sep))),
        seq_printable_after(w, s, sep),
    decreases s.len(),
{
    let st = steps_text(sep);
    if s.len() > 1 {
        let d = s.drop_last();
        assert(free_items(d)) by {
            assert forall|i: int| 0 <= i < d.len() implies free_text(#[trigger] d[i].print_text()) by {
                assert(d[i] == s[i]);
            }
            assert forall|i: int, x: Seq<u8>| 0 <= i < d.len() implies #[trigger] d[i].printable_after(x) by {
                assert(d[i] == s[i]);
                assert(s[i].printable_after(x));
            }
        }
        lemma_free_items(w, d, sep);
        assert(free_text(s.last().print_text())) by {
            assert(s.last() == s[s.len() - 1]);
        }
        lemma_free_join(joined_text(d, st), st, s.last().print_text());
    }
    if s.len() > 0 {
        assert(s[0].printable_after(w));
        assert forall|i: int| 1 <= i < s.len() implies {
            let before = w + joined_text(#[trigger] s.take(i), st);
            steps_allowed_after(before, sep) && s[i].printable_after(before + st)
        } by {
            let t = s.take(i);
            assert(free_items(t)) by {
                assert forall|k: int| 0 <= k < t.len() implies free_text(#[trigger] t[k].print_text()) by {
                    assert(t[k] == s[k]);
                }
                assert forall|k: int, x: Seq<u8>| 0 <= k < t.len() implies #[trigger] t[k].printable_after(x) by {
                    assert(t[k] == s[k]);
                    assert(s[k].printable_after(x));
                }
            }
            lemma_free_items(w, t, sep);
            lemma_free_allowed(w, joined_text(t, st));
            let before = w + joined_text(t, st);
            assert(steps_allowed_after(before, sep));
            assert(s[i].printable_after(before + st));
        }
    }
}

/// The separator of a list printed with folding whitespace between items.
pub fn fws_sep() -> (r: Vec<FoldStep>)
    ensures
        r@ == seq![FoldStep::Fws],
        free_sep(r@),
        steps_text(r@) == seq![ascii::SP],
        steps_marks(r@) == seq![true],
{
    let mut r: Vec<FoldStep> = Vec::new();
    r.push(FoldStep::Fws);
    proof {
        reveal_with_fuel(steps_text, 3);
        reveal_with_fuel(steps_marks, 3);
        let sep = r@;
        assert(sep.drop_last() =~= Seq::<FoldStep>::empty());
        assert(steps_text(sep) =~= seq![ascii::SP]);
        assert(steps_marks(sep) =~= seq![true]);
        assert forall|x: Seq<u8>| !line_start(x) implies #[trigger] steps_allowed_after(x, sep) by {
            assert(sep.take(0) =~= Seq::<FoldStep>::empty());
            assert(x + steps_text(sep.take(0)) =~= x);
        }
    }
    r
}

/// The separator of a list printed as `elem "," FWS elem`.
pub fn comma_fws_sep() -> (r: Vec<FoldStep>)
    ensures
        free_sep(r@),
        steps_text(r@) == seq![ascii::COMMA, ascii::SP],
        steps_marks(r@) == seq![false, true],
{
    let mut c: Vec<u8> = Vec::new();
    c.push(ascii::COMMA);
    let mut r: Vec<FoldStep> = Vec::new();
    r.push(FoldStep::Bytes(c));
    r.push(FoldStep::Fws);
    proof {
        reveal_with_fuel(steps_text, 3);
        reveal_with_fuel(steps_marks, 3);
        let sep = r@;
        assert(sep.drop_last().drop_last() =~= Seq::<FoldStep>::empty());
        assert(steps_text(sep.drop_last()) =~= seq![ascii::COMMA]);
        assert(steps_text(sep) =~= seq![ascii::COMMA, ascii::SP]);
        assert(steps_marks(sep.drop_last()) =~= seq![false]);
        assert(steps_marks(sep) =~= seq![false, true]);
        assert forall|x: Seq<u8>| !line_start(x) implies #[trigger] steps_allowed_after(x, sep) by {
            assert(sep.take(0) =~= Seq::<FoldStep>::empty());
            assert(x + steps_text(sep.take(0)) =~= x);
            assert(sep.take(1) =~= sep.drop_last());
            lemma_free_allowed(x, seq![ascii::COMMA]);
            assert forall|i: int| 0 <= i < sep.len() implies step_allowed(
                x + steps_text(sep.take(i)),
                #[trigger] sep[i],
            ) by {
                if i == 0 {
                    lemma_free_allowed(x, seq![ascii::COMMA]);
                } else {
                    assert(x + steps_text(sep.take(1)) =~= x + seq![ascii::COMMA]);
                }
            }
        }
    }
    r
}

/// The separator of a list printed as `elem "." elem`.
pub fn dot_sep() -> (r: Vec<FoldStep>)
    ensures
        free_sep(r@),
        steps_text(r@) == seq![ascii::PERIOD],
        steps_marks(r@) == seq![false],
{
    let mut c: Vec<u8> = Vec::new();
    c.push(ascii::PERIOD);
    let mut r: Vec<FoldStep> = Vec::new();
    r.push(FoldStep::Bytes(c));
    proof {
        reveal_with_fuel(steps_text, 3);
        reveal_with_fuel(steps_marks, 3);
        let sep = r@;
        assert(sep.drop_last() =~= Seq::<FoldStep>::empty());
        assert(steps_text(sep) =~= seq![ascii::PERIOD]);
        assert(steps_marks(sep) =~= seq![false]);
        assert forall|x: Seq<u8>| !line_start(x) implies #[trigger] steps_allowed_after(x, sep) by {
            assert(sep.take(0) =~= Seq::<FoldStep>::empty());
            assert(x + steps_text(sep.take(0)) =~= x);
            lemma_free_allowed(x, seq![ascii::PERIOD]);
        }
    }
    r
}

/// Which bytes of its text one step writes as folding whitespace.
pub open spec fn step_marks(st: FoldStep) -> Seq<bool> {
    match st {
        FoldStep::Bytes(b) => unmarked(b@.len()),
        FoldStep::FwsBytes(b) => all_marked(b@.len()),
        FoldStep::Fws => seq![true],
        FoldStep::Crlf => seq![false, false],
    }
}

/// Which bytes of the text of a sequence of steps are folding whitespace.
pub open spec fn steps_marks(steps: Seq<FoldStep>) -> Seq<bool>
    decreases steps.len(),
{
    if steps.len() == 0 {
        Seq::empty()
    } else {
        steps_marks(steps.drop_last()) + step_marks(steps.last())
    }
}

/// `ls` are the lines of `out`: without line breaks, joined by line breaks;
/// and a line that continues the one before it could not have stayed on it,
/// and holds text, not only whitespace.
pub open spec fn folded_lines(out: Seq<u8>, ls: Seq<Seq<u8>>) -> bool {
    &&& join_lines(ls) == out
    &&& forall|i: int| 0 <= i < ls.len() ==> no_crlf(#[trigger] ls[i])
    &&& forall|i: int, j: int|
        #![trigger ls[i], ls[j]]
        0 <= i && j == i + 1 && j < ls.len() ==> fold_needed(ls[i], ls[j])
}

/// Each line keeps to the line limit where it could have been cut, and each
/// line that continues another was cut from it as late as the limit allows;
/// `ms` marks the folding whitespace of each line.
pub open spec fn folds_within_limit(ls: Seq<Seq<u8>>, ms: Seq<Seq<bool>>) -> bool {
    &&& marks_fit(ls, ms)
    &&& forall|i: int| 0 <= i < ls.len() ==> line_within_limit(#[trigger] ls[i], ms[i])
    &&& forall|i: int, j: int|
        #![trigger ls[i], ls[j]]
        0 <= i && j == i + 1 && j < ls.len() ==> fold_maximal(ls[i], ls[j], ms[j])
}

/// The lines of `out` are folded as a line folder folds them (see
/// `folded_lines` and `folds_within_limit`), where `marks` tells which
/// bytes of the unfolded text were written as folding whitespace.
pub open spec fn well_folded(out: Seq<u8>, marks: Seq<bool>) -> bool {
    exists|ls: Seq<Seq<u8>>, ms: Seq<Seq<bool>>|
        #![trigger folded_lines(out, ls), join_marks(ls, ms)]
        folded_lines(out, ls) && join_marks(ls, ms) == marks && folds_within_limit(ls, ms)
}

/// Runs the writes `steps` on a fresh line folder.
#[verifier::spinoff_prover]
#[verifier::rlimit(100)]
fn write_steps(steps: &[FoldStep]) -> (folder: LineFolder)
    requires
        steps_allowed(steps@),
    ensures
        folder.accepts_writes(),
        folder.written() == steps_text(steps@),
        folder.fws_marks() == steps_marks(steps@),
{
    let mut folder = LineFolder::new();
    let mut i: usize = 0;
    assert(steps@.take(0) =~= Seq::<FoldStep>::empty());
    assert(steps_text(steps@.take(0)) == Seq::<u8>::empty());
    assert(steps_marks(steps@.take(0)) == Seq::<bool>::empty());
    while i < steps.len()
        invariant
            i <= steps.len(),
            folder.accepts_writes(),
            folder.written() == steps_text(steps@.take(i as int)),
            folder.fws_marks() == steps_marks(steps@.take(i as int)),
            steps_allowed(steps@),
        decreases steps.len() - i,
    {
        let ghost t0 = steps@.take(i as int);
        assert(steps@.take(i + 1).drop_last() =~= t0);
        assert(step_allowed(steps_text(t0), steps@[i as int]));
        match &steps[i] {
            FoldStep::Bytes(b) => folder.write_bytes(b.as_slice()),
            FoldStep::FwsBytes(b) => folder.write_fws_bytes(b.as_slice()),
            FoldStep::Fws => folder.write_fws(),
            FoldStep::Crlf => folder.write_crlf(),
        }
        proof {
            assert(steps@.take(i + 1) =~= t0.push(steps@[i as int]));
        }
        i += 1;
    }
    assert(steps@.take(steps.len() as int) =~= steps@);
    folder
}

/// Runs the writes `steps` on a fresh line folder, flushes it, and returns
/// the folded output: unfolding it gives back what the steps wrote; lines
/// are only cut at folding whitespace, where they had to be, and never so
/// that a fold holds whitespace only; text past the line limit follows no
/// folding whitespace that could have been cut at; and each fold is cut as
/// late as the limit allows.
#[verifier::spinoff_prover]
#[verifier::rlimit(100)]
pub fn with_line_folder(steps: &[FoldStep]) -> (r: Vec<u8>)
    requires
        steps_allowed(steps@),
    ensures
        unfold(r@) == steps_text(steps@),
        well_folded(r@, steps_marks(steps@)),
{
    let mut folder = write_steps(steps);
    folder.flush();
    proof {
        law_folded_lines(folder);
    }
    folder.inner
}

/// How a line folder folds: the lines of its output are free of line
/// breaks and joined by them; a line is only cut where the two parts could
/// not stay together within the line limit, and a fold never holds
/// whitespace only; each line keeps to the limit where it could have been
/// cut, and is cut as late as the limit allows; once flushed, the marks of
/// the lines are those of the text written.
pub proof fn law_folded_lines(lf: LineFolder)
    requires
        lf.wf(),
    ensures
        folded_lines(lf.output(), lf.lines()),
        folds_within_limit(lf.lines(), lf.line_marks()),
        lf.flushed() ==> join_marks(lf.lines(), lf.line_marks()) == lf.fws_marks(),
        lf.flushed() ==> well_folded(lf.output(), lf.fws_marks()),
{
    let ls = lf.lines();
    let ms = lf.line_marks();
    assert(folded_lines(lf.output(), ls) && folds_within_limit(ls, ms));
}

/// The central property of line folding: whatever was written, unfolding the
/// folded output gives it back.
pub proof fn law_folding_roundtrip(lf: LineFolder)
    requires
        lf.wf(),
        lf.flushed(),
    ensures
        unfold(lf.output()) == lf.written(),
{
}

} // verus!
