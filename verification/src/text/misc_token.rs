//! Words and phrases (RFC 5322 section 3.2.5, RFC 2045).
use vstd::prelude::*;
use crate::dup::{Duplicate, duplicate_vec, seq_view};
use crate::text::quoted::{QuotedString, spec_quoted_string, quoted_string, concat, quoted_out, print_quoted};
use crate::text::words::{Atom, MIMEAtom, spec_mime_atom, mime_atom, spec_atom, atom};
use crate::text::ascii;
use crate::print::{
    Formatter, Print, FoldStep, bytes_allowed, fws_allowed, line_start, free_text, free_items, free_sep,
    joined_text, joined_marks, lemma_free_items, lemma_free_joined, print_seq, fws_sep, comma_fws_sep, steps_text, unmarked,
    write_free,
};
use crate::text::run::{ByteClass, run1, take_run1, in_class, run_end, lemma_run_end, lemma_run_end_exact};
use crate::text::tag::{spec_byte, byte};
use crate::text::whitespace::{spec_fws, fws, spec_opt_cfws, opt_cfws, spec_space0, space0, spec_fold_marker, spec_fold_markers, spec_perm_crlf};

verus! {

impl Duplicate for Atom {
    fn duplicate(&self) -> (r: Atom) {
        Atom(self.0.duplicate())
    }
}

impl Duplicate for MIMEAtom {
    fn duplicate(&self) -> (r: MIMEAtom) {
        MIMEAtom(self.0.duplicate())
    }
}

impl Duplicate for QuotedString {
    fn duplicate(&self) -> (r: QuotedString) {
        let v = duplicate_vec(&self.0);
        assert(seq_view(v@) == seq_view(self.0@));
        QuotedString(v)
    }
}

/// A MIME word: a token or a quoted string (RFC 2045 `value`).
#[derive(Debug, PartialEq, Eq)]
pub enum MIMEWord {
    Quoted(QuotedString),
    Atom(MIMEAtom),
}

pub enum MIMEWordV {
    Quoted(Seq<Seq<u8>>),
    Atom(Seq<u8>),
}

impl View for MIMEWord {
    type V = MIMEWordV;

    open spec fn view(&self) -> MIMEWordV {
        match self {
            MIMEWord::Quoted(q) => MIMEWordV::Quoted(q@),
            MIMEWord::Atom(a) => MIMEWordV::Atom(a@),
        }
    }
}

/// The text a MIME word stands for.
pub open spec fn mime_word_text(w: MIMEWordV) -> Seq<u8> {
    match w {
        MIMEWordV::Quoted(q) => concat(q),
        MIMEWordV::Atom(a) => a,
    }
}

impl Duplicate for MIMEWord {
    fn duplicate(&self) -> (r: MIMEWord) {
        match self {
            MIMEWord::Quoted(q) => MIMEWord::Quoted(q.duplicate()),
            MIMEWord::Atom(a) => MIMEWord::Atom(a.duplicate()),
        }
    }
}

impl MIMEWord {
    /// The text this word stands for.
    pub fn chars(&self) -> (r: Vec<u8>)
        ensures
            r@ == mime_word_text(self@),
    {
        match self {
            MIMEWord::Quoted(q) => q.chars(),
            MIMEWord::Atom(a) => a.0.duplicate(),
        }
    }
}

/// `mime-word = quoted-string / mime-atom`
pub open spec fn spec_mime_word(s: Seq<u8>, i: int) -> Option<(int, MIMEWordV)> {
    match spec_quoted_string(s, i) {
        Some((j, q)) => Some((j, MIMEWordV::Quoted(q))),
        None => match spec_mime_atom(s, i) {
            Some((j, a)) => Some((j, MIMEWordV::Atom(a))),
            None => None,
        },
    }
}

pub fn mime_word(s: &[u8], i: usize) -> (r: Option<(usize, MIMEWord)>)
    ensures
        match r {
            Some((j, w)) => spec_mime_word(s@, i as int) == Some((j as int, w@)),
            None => spec_mime_word(s@, i as int) is None,
        },
{
    match quoted_string(s, i) {
        Some((j, q)) => Some((j, MIMEWord::Quoted(q))),
        None => match mime_atom(s, i) {
            Some((j, a)) => Some((j, MIMEWord::Atom(a))),
            None => None,
        },
    }
}

/// `word = quoted-string / atom`
#[derive(Debug, PartialEq, Eq)]
pub enum Word {
    Quoted(QuotedString),
    Atom(Atom),
}

pub enum WordV {
    Quoted(Seq<Seq<u8>>),
    Atom(Seq<u8>),
}

impl View for Word {
    type V = WordV;

    open spec fn view(&self) -> WordV {
        match self {
            Word::Quoted(q) => WordV::Quoted(q@),
            Word::Atom(a) => WordV::Atom(a@),
        }
    }
}

impl Duplicate for Word {
    fn duplicate(&self) -> (r: Word) {
        match self {
            Word::Quoted(q) => Word::Quoted(q.duplicate()),
            Word::Atom(a) => Word::Atom(a.duplicate()),
        }
    }
}

/// The text a word stands for.
pub open spec fn word_text(w: WordV) -> Seq<u8> {
    match w {
        WordV::Quoted(q) => concat(q),
        WordV::Atom(a) => a,
    }
}

impl Word {
    pub fn chars(&self) -> (r: Vec<u8>)
        ensures
            r@ == word_text(self@),
    {
        match self {
            Word::Quoted(q) => q.chars(),
            Word::Atom(a) => a.0.duplicate(),
        }
    }
}

pub open spec fn spec_word(s: Seq<u8>, i: int) -> Option<(int, WordV)> {
    match spec_quoted_string(s, i) {
        Some((j, q)) => Some((j, WordV::Quoted(q))),
        None => match spec_atom(s, i) {
            Some((j, a)) => Some((j, WordV::Atom(a))),
            None => None,
        },
    }
}

pub fn word(s: &[u8], i: usize) -> (r: Option<(usize, Word)>)
    ensures
        match r {
            Some((j, w)) => spec_word(s@, i as int) == Some((j as int, w@)),
            None => spec_word(s@, i as int) is None,
        },
{
    match quoted_string(s, i) {
        Some((j, q)) => Some((j, Word::Quoted(q))),
        None => match atom(s, i) {
            Some((j, a)) => Some((j, Word::Atom(a))),
            None => None,
        },
    }
}

#[derive(Debug, PartialEq, Eq)]
pub enum PhraseToken {
    Word(Word),
}

impl View for PhraseToken {
    type V = WordV;

    open spec fn view(&self) -> WordV {
        match self {
            PhraseToken::Word(w) => w@,
        }
    }
}

impl Duplicate for PhraseToken {
    fn duplicate(&self) -> (r: PhraseToken) {
        match self {
            PhraseToken::Word(w) => PhraseToken::Word(w.duplicate()),
        }
    }
}

/// `phrase = 1*word`
#[derive(Debug, PartialEq, Eq)]
pub struct Phrase(pub Vec<PhraseToken>);

impl View for Phrase {
    type V = Seq<WordV>;

    open spec fn view(&self) -> Seq<WordV> {
        seq_view(self.0@)
    }
}

impl Duplicate for Phrase {
    fn duplicate(&self) -> (r: Phrase) {
        Phrase(duplicate_vec(&self.0))
    }
}

/// The words at `i`, as many as parse, and where they end.
pub open spec fn spec_words(s: Seq<u8>, i: int) -> (int, Seq<WordV>)
    decreases s.len() - i,
{
    match spec_word(s, i) {
        Some((j, w)) => if i < j <= s.len() {
            let (e, ws) = spec_words(s, j);
            (e, seq![w] + ws)
        } else {
            (i, seq![])
        },
        None => (i, seq![]),
    }
}

pub open spec fn spec_phrase(s: Seq<u8>, i: int) -> Option<(int, Seq<WordV>)> {
    let (e, ws) = spec_words(s, i);
    if ws.len() > 0 {
        Some((e, ws))
    } else {
        None
    }
}

pub fn phrase(s: &[u8], i: usize) -> (r: Option<(usize, Phrase)>)
    ensures
        match r {
            Some((j, p)) => spec_phrase(s@, i as int) == Some((j as int, p@)),
            None => spec_phrase(s@, i as int) is None,
        },
{
    let mut j = i;
    let mut acc: Vec<PhraseToken> = Vec::new();
    loop
        invariant
            i <= j,
            spec_words(s@, i as int).0 == spec_words(s@, j as int).0,
            spec_words(s@, i as int).1 == seq_view(acc@) + spec_words(s@, j as int).1,
        ensures
            spec_words(s@, i as int) == (j as int, seq_view(acc@)),
        decreases s.len() - j,
    {
        match word(s, j) {
            Some((k, w)) => {
                if j < k && k <= s.len() {
                    let ghost a0 = seq_view(acc@);
                    acc.push(PhraseToken::Word(w));
                    assert(seq_view(acc@) =~= a0.push(acc@.last()@));
                    assert(seq_view(acc@) + spec_words(s@, k as int).1 =~= a0 + (seq![acc@.last()@]
                        + spec_words(s@, k as int).1));
                    j = k;
                } else {
                    assert(seq_view(acc@) + Seq::<WordV>::empty() =~= seq_view(acc@));
                    break ;
                }
            },
            None => {
                assert(seq_view(acc@) + Seq::<WordV>::empty() =~= seq_view(acc@));
                break ;
            },
        }
    }
    if acc.len() > 0 {
        Some((j, Phrase(acc)))
    } else {
        None
    }
}

/// A list of phrases (the Keywords field).
#[derive(Debug, PartialEq, Eq)]
pub struct PhraseList(pub Vec<Phrase>);

impl View for PhraseList {
    type V = Seq<Seq<WordV>>;

    open spec fn view(&self) -> Seq<Seq<WordV>> {
        seq_view(self.0@)
    }
}

impl Duplicate for PhraseList {
    fn duplicate(&self) -> (r: PhraseList) {
        PhraseList(duplicate_vec(&self.0))
    }
}

/// A phrase or, in the obsolete syntax, nothing but CFWS.
pub open spec fn spec_nullable_phrase(s: Seq<u8>, i: int) -> (int, Seq<Seq<WordV>>) {
    match spec_phrase(s, i) {
        Some((j, p)) => (j, seq![p]),
        None => (spec_opt_cfws(s, i), seq![]),
    }
}

/// The elements after the first of `elem *("," elem)`.
pub open spec fn spec_more_phrases(s: Seq<u8>, i: int) -> (int, Seq<Seq<WordV>>)
    decreases s.len() - i,
{
    match spec_byte(s, i, ascii::COMMA) {
        Some(k) => {
            let (j, p) = spec_nullable_phrase(s, k);
            if i < j <= s.len() {
                let (e, ps) = spec_more_phrases(s, j);
                (e, p + ps)
            } else {
                (i, seq![])
            }
        },
        None => (i, seq![]),
    }
}

/// ```abnf
/// keywords = phrase *("," phrase)
/// obs-phrase-list = [phrase / CFWS] *("," [phrase / CFWS])
/// ```
/// `None` when the list holds no phrase at all.
pub open spec fn spec_phrase_list(s: Seq<u8>, i: int) -> (int, Option<Seq<Seq<WordV>>>) {
    let (j, p) = spec_nullable_phrase(s, i);
    let (e, ps) = spec_more_phrases(s, j);
    if (p + ps).len() > 0 {
        (e, Some(p + ps))
    } else {
        (e, None)
    }
}

fn nullable_phrase(s: &[u8], i: usize) -> (r: (usize, Vec<Phrase>))
    ensures
        spec_nullable_phrase(s@, i as int) == (r.0 as int, seq_view(r.1@)),
{
    let mut v: Vec<Phrase> = Vec::new();
    match phrase(s, i) {
        Some((j, p)) => {
            v.push(p);
            assert(seq_view(v@) =~= seq![v@[0]@]);
            (j, v)
        },
        None => {
            assert(seq_view(v@) =~= Seq::<Seq<WordV>>::empty());
            (opt_cfws(s, i), v)
        },
    }
}

pub fn phrase_list(s: &[u8], i: usize) -> (r: (usize, Option<PhraseList>))
    ensures
        spec_phrase_list(s@, i as int).0 == r.0 as int,
        match r.1 {
            Some(l) => spec_phrase_list(s@, i as int).1 == Some(l@),
            None => spec_phrase_list(s@, i as int).1 is None,
        },
{
    let (j0, first) = nullable_phrase(s, i);
    let mut acc = first;
    let mut j = j0;
    loop
        invariant
            j0 <= j,
            spec_more_phrases(s@, j0 as int).0 == spec_more_phrases(s@, j as int).0,
            spec_nullable_phrase(s@, i as int).1 + spec_more_phrases(s@, j0 as int).1 == seq_view(
                acc@,
            ) + spec_more_phrases(s@, j as int).1,
        ensures
            spec_more_phrases(s@, j0 as int).0 == j,
            spec_nullable_phrase(s@, i as int).1 + spec_more_phrases(s@, j0 as int).1 == seq_view(
                acc@,
            ),
        decreases s.len() - j,
    {
        match byte(s, j, ascii::COMMA) {
            Some(k) => {
                let (m, p) = nullable_phrase(s, k);
                if j < m && m <= s.len() {
                    let ghost a0 = seq_view(acc@);
                    let ghost pv = seq_view(p@);
                    crate::dup::append_vec(&mut acc, p);
                    assert(a0 + (pv + spec_more_phrases(s@, m as int).1) =~= (a0 + pv)
                        + spec_more_phrases(s@, m as int).1);
                    j = m;
                } else {
                    assert(seq_view(acc@) + Seq::<Seq<WordV>>::empty() =~= seq_view(acc@));
                    break ;
                }
            },
            None => {
                assert(seq_view(acc@) + Seq::<Seq<WordV>>::empty() =~= seq_view(acc@));
                break ;
            },
        }
    }
    if acc.len() > 0 {
        (j, Some(PhraseList(acc)))
    } else {
        (j, None)
    }
}

/// A keywords list of one phrase is that phrase: when the phrase `p` read at
/// `i` ends at `j` and no comma follows it, the list read at `i` holds `p`
/// alone and ends at `j`.
pub proof fn law_phrase_list_single(s: Seq<u8>, i: int, j: int, p: Seq<WordV>)
    requires
        spec_phrase(s, i) == Some((j, p)),
        j < 0 || j >= s.len() || s[j] != ascii::COMMA,
    ensures
        spec_phrase_list(s, i) == (j, Some(seq![p])),
{
    assert(seq![p] + Seq::<Seq<WordV>>::empty() =~= seq![p]);
}

/// A keywords list keeps every phrase, in order: when the phrase `p` read at
/// `i` ends at a comma, at `j`, and another phrase follows the comma, the
/// list read at `i` is `p` followed by the whole list read after the comma,
/// and it ends where that list ends.
pub proof fn law_phrase_list_cons(s: Seq<u8>, i: int, j: int, p: Seq<WordV>, k: int, q: Seq<WordV>)
    requires
        spec_phrase(s, i) == Some((j, p)),
        0 <= j < s.len(),
        s[j] == ascii::COMMA,
        spec_phrase(s, j + 1) == Some((k, q)),
        j + 1 < k <= s.len(),
    ensures
        spec_phrase_list(s, j + 1).1 is Some,
        spec_phrase_list(s, i) == (
            spec_phrase_list(s, j + 1).0,
            Some(seq![p] + spec_phrase_list(s, j + 1).1.unwrap()),
        ),
{
    let (e, ps) = spec_more_phrases(s, k);
    assert(spec_nullable_phrase(s, j + 1) == (k, seq![q]));
    assert(spec_more_phrases(s, j) == (e, seq![q] + ps));
    assert(spec_phrase_list(s, j + 1) == (e, Some(seq![q] + ps)));
}

// ---------------------------------------------------------------- unstructured

#[derive(Debug, Clone, Copy, PartialEq, Eq, Structural)]
pub enum UnstrTxtKind {
    /// folding whitespace
    Fws,
    /// text
    Txt,
}

/// A token of an unstructured header body.
#[derive(Debug, PartialEq, Eq)]
pub struct UnstrToken {
    pub kind: UnstrTxtKind,
    pub text: Vec<u8>,
}

pub struct UnstrTokenV {
    pub kind: UnstrTxtKind,
    pub text: Seq<u8>,
}

impl View for UnstrToken {
    type V = UnstrTokenV;

    open spec fn view(&self) -> UnstrTokenV {
        UnstrTokenV { kind: self.kind, text: self.text@ }
    }
}

impl Duplicate for UnstrToken {
    fn duplicate(&self) -> (r: UnstrToken) {
        UnstrToken { kind: self.kind, text: self.text.duplicate() }
    }
}

impl UnstrToken {
    pub fn from_plain(text: &[u8], kind: UnstrTxtKind) -> (r: UnstrToken)
        ensures
            r@ == (UnstrTokenV { kind, text: text@ }),
    {
        UnstrToken { kind, text: ascii::bytes_to_vec(text) }
    }
}

/// An unstructured header body: text and the whitespace between.
#[derive(Debug, PartialEq, Eq)]
pub struct Unstructured(pub Vec<UnstrToken>);

impl View for Unstructured {
    type V = Seq<UnstrTokenV>;

    open spec fn view(&self) -> Seq<UnstrTokenV> {
        seq_view(self.0@)
    }
}

impl Duplicate for Unstructured {
    fn duplicate(&self) -> (r: Unstructured) {
        Unstructured(duplicate_vec(&self.0))
    }
}

/// The text of an unstructured body: its tokens one after the other.
pub open spec fn unstructured_text(t: Seq<UnstrTokenV>) -> Seq<u8>
    decreases t.len(),
{
    if t.len() == 0 {
        seq![]
    } else {
        unstructured_text(t.drop_last()) + t.last().text
    }
}

impl Unstructured {
    /// The text of this body: its tokens one after the other.
    pub fn text(&self) -> (r: Vec<u8>)
        ensures
            r@ == unstructured_text(self@),
    {
        let mut r: Vec<u8> = Vec::new();
        let mut i: usize = 0;
        while i < self.0.len()
            invariant
                i <= self.0.len(),
                r@ == unstructured_text(self@.take(i as int)),
            decreases self.0.len() - i,
        {
            proof {
                assert(self@.take(i + 1).drop_last() =~= self@.take(i as int));
            }
            ascii::extend_bytes(&mut r, self.0[i].text.as_slice());
            i += 1;
        }
        assert(self@.take(self.0.len() as int) =~= self@);
        r
    }
}

/// Which bytes of the text of `t` are folding whitespace: those of its
/// whitespace tokens.
pub open spec fn unstructured_marks(t: Seq<UnstrTokenV>) -> Seq<bool>
    decreases t.len(),
{
    if t.len() == 0 {
        seq![]
    } else {
        unstructured_marks(t.drop_last()) + match t.last().kind {
            UnstrTxtKind::Fws => crate::print::all_marked(t.last().text.len()),
            UnstrTxtKind::Txt => crate::print::unmarked(t.last().text.len()),
        }
    }
}

/// A token may be written after the text `w`: whitespace as folding
/// whitespace, text as text that cannot be folded.
pub open spec fn unstr_token_allowed(w: Seq<u8>, t: UnstrTokenV) -> bool {
    match t.kind {
        UnstrTxtKind::Fws => fws_allowed(w, t.text),
        UnstrTxtKind::Txt => bytes_allowed(w, t.text),
    }
}

/// Each token may be written after `w` and the tokens before it.
pub open spec fn unstr_printable_after(w: Seq<u8>, t: Seq<UnstrTokenV>) -> bool {
    forall|i: int|
        0 <= i < t.len() ==> unstr_token_allowed(w + unstructured_text(t.take(i)), #[trigger] t[i])
}

/// An unstructured body is printed token by token: whitespace tokens are
/// the places where a line may be folded.
impl Print for Unstructured {
    open spec fn print_text(&self) -> Seq<u8> {
        unstructured_text(self@)
    }

    open spec fn print_marks(&self) -> Seq<bool> {
        unstructured_marks(self@)
    }

    open spec fn printable_after(&self, w: Seq<u8>) -> bool {
        unstr_printable_after(w, self@)
    }

    #[verifier::spinoff_prover]
    fn print<F: Formatter>(&self, fmt: &mut F) {
        let ghost w0 = fmt.written();
        let ghost m0 = fmt.fws_marks();
        let mut i: usize = 0;
        while i < self.0.len()
            invariant
                i <= self.0.len(),
                fmt.accepts_writes(),
                fmt.written() == w0 + unstructured_text(self@.take(i as int)),
                fmt.fws_marks() == m0 + unstructured_marks(self@.take(i as int)),
                unstr_printable_after(w0, self@),
            decreases self.0.len() - i,
        {
            let tok = &self.0[i];
            assert(self@[i as int] == tok@);
            match tok.kind {
                UnstrTxtKind::Fws => fmt.write_fws_bytes(tok.text.as_slice()),
                UnstrTxtKind::Txt => fmt.write_bytes(tok.text.as_slice()),
            }
            proof {
                let t = self@.take(i + 1);
                assert(t.drop_last() =~= self@.take(i as int));
                assert(fmt.written() =~= w0 + unstructured_text(t));
                assert(fmt.fws_marks() =~= m0 + unstructured_marks(t));
            }
            i += 1;
        }
        assert(self@.take(self.0.len() as int) =~= self@);
    }
}

/// The whitespace bytes of `t`, line breaks left out.
pub open spec fn keep_wsp(t: Seq<u8>) -> Seq<u8>
    decreases t.len(),
{
    if t.len() == 0 {
        seq![]
    } else {
        keep_wsp(t.drop_last()) + (if ascii::is_wsp(t.last()) {
            seq![t.last()]
        } else {
            seq![]
        })
    }
}

proof fn lemma_keep_wsp(t: Seq<u8>)
    ensures
        crate::print::all_wsp(keep_wsp(t)),
        crate::print::all_wsp(t) ==> keep_wsp(t) == t,
        forall|x: int| 0 <= x < t.len() && ascii::is_wsp(#[trigger] t[x]) ==> keep_wsp(t).len() > 0,
    decreases t.len(),
{
    if t.len() > 0 {
        lemma_keep_wsp(t.drop_last());
        let a = keep_wsp(t.drop_last());
        let k = keep_wsp(t);
        assert forall|x: int| 0 <= x < k.len() implies ascii::is_wsp(#[trigger] k[x]) by {
            if x < a.len() {
                assert(k[x] == a[x]);
            }
        }
        if crate::print::all_wsp(t) {
            assert(crate::print::all_wsp(t.drop_last())) by {
                assert forall|x: int| 0 <= x < t.drop_last().len() implies ascii::is_wsp(
                    #[trigger] t.drop_last()[x],
                ) by {
                    assert(t.drop_last()[x] == t[x]);
                }
            }
            assert(ascii::is_wsp(t[t.len() - 1]));
            assert(t.drop_last() + seq![t.last()] =~= t);
        }
        assert forall|x: int| 0 <= x < t.len() && ascii::is_wsp(#[trigger] t[x]) implies k.len() > 0 by {
            if x < t.len() - 1 {
                assert(t.drop_last()[x] == t[x]);
            }
        }
    } else {
        assert(keep_wsp(t) =~= t);
    }
}

/// The whitespace bytes of `s[a..b]`, line breaks left out.
fn wsp_bytes(s: &[u8], a: usize, b: usize) -> (r: Vec<u8>)
    requires
        a <= b <= s.len(),
    ensures
        r@ == keep_wsp(s@.subrange(a as int, b as int)),
{
    let mut r: Vec<u8> = Vec::new();
    let mut i = a;
    assert(s@.subrange(a as int, a as int) =~= Seq::<u8>::empty());
    while i < b
        invariant
            a <= i <= b <= s.len(),
            r@ == keep_wsp(s@.subrange(a as int, i as int)),
        decreases b - i,
    {
        assert(s@.subrange(a as int, i + 1).drop_last() =~= s@.subrange(a as int, i as int));
        assert(s@.subrange(a as int, i + 1).last() == s@[i as int]);
        if ascii::is_ws(s[i]) {
            r.push(s[i]);
            assert(r@ =~= keep_wsp(s@.subrange(a as int, i as int)) + seq![s@[i as int]]);
        } else {
            assert(keep_wsp(s@.subrange(a as int, i as int)) + Seq::<u8>::empty() =~= keep_wsp(
                s@.subrange(a as int, i as int),
            ));
        }
        i += 1;
    }
    r
}

/// A run of whitespace ends on whitespace.
proof fn lemma_space0_last(s: Seq<u8>, i: int)
    requires
        spec_space0(s, i) > i,
    ensures
        0 <= spec_space0(s, i) - 1 < s.len(),
        ascii::is_wsp(s[spec_space0(s, i) - 1]),
    decreases s.len() - i,
{
    if spec_space0(s, i + 1) > i + 1 {
        lemma_space0_last(s, i + 1);
    }
}

/// Folding whitespace ends on whitespace.
proof fn lemma_fws_last(s: Seq<u8>, i: int)
    requires
        spec_fws(s, i) is Some,
    ensures
        i <= spec_fws(s, i)->0 - 1 < s.len(),
        ascii::is_wsp(s[spec_fws(s, i)->0 - 1]),
{
    if spec_fold_markers(s, i) > i {
        lemma_fold_markers_last(s, i);
    } else {
        lemma_space0_last(s, i);
        lemma_space0_ge(s, i);
    }
}

proof fn lemma_space0_ge(s: Seq<u8>, i: int)
    ensures
        spec_space0(s, i) >= i,
    decreases s.len() - i,
{
    if 0 <= i < s.len() && ascii::is_wsp(s[i]) {
        lemma_space0_ge(s, i + 1);
    }
}

proof fn lemma_fold_markers_last(s: Seq<u8>, i: int)
    requires
        spec_fold_markers(s, i) > i,
    ensures
        i <= spec_fold_markers(s, i) - 1 < s.len(),
        ascii::is_wsp(s[spec_fold_markers(s, i) - 1]),
    decreases s.len() - i,
{
    assert(spec_fold_marker(s, i) is Some);
    let j = spec_fold_marker(s, i)->0;
    assert(i < j <= s.len());
    assert(spec_fold_markers(s, i) == spec_fold_markers(s, j));
    lemma_fold_markers_ge(s, j);
    if spec_fold_markers(s, j) > j {
        lemma_fold_markers_last(s, j);
    } else {
        let a = spec_space0(s, i);
        let b = spec_perm_crlf(s, a)->0;
        lemma_space0_last(s, b);
    }
}

proof fn lemma_fold_markers_ge(s: Seq<u8>, i: int)
    ensures
        spec_fold_markers(s, i) >= i,
    decreases s.len() - i,
{
    if let Some(j) = spec_fold_marker(s, i) {
        if i < j <= s.len() {
            lemma_fold_markers_ge(s, j);
        }
    }
}

/// A run of whitespace that text follows is folding whitespace.
proof fn lemma_fws_at_run(s: Seq<u8>, p: int, n: int)
    requires
        0 <= p,
        n > 0,
        p + n < s.len(),
        forall|x: int| p <= x < p + n ==> ascii::is_wsp(#[trigger] s[x]),
        in_class(ByteClass::Unstructured, s[p + n]),
    ensures
        spec_fws(s, p) == Some(p + n),
    decreases n,
{
    lemma_space_not_unstructured();
    lemma_space0_exact(s, p, p + n);
    assert(spec_perm_crlf(s, p + n) is None);
    assert(spec_fold_marker(s, p) is None);
    assert(spec_fold_markers(s, p) == p);
}

proof fn lemma_space0_exact(s: Seq<u8>, a: int, b: int)
    requires
        0 <= a <= b < s.len(),
        forall|x: int| a <= x < b ==> ascii::is_wsp(#[trigger] s[x]),
        !ascii::is_wsp(s[b]),
    ensures
        spec_space0(s, a) == b,
    decreases b - a,
{
    if a < b {
        lemma_space0_exact(s, a + 1, b);
    }
}

/// One item of unstructured text: optional folding whitespace, then a run of
/// text.
pub open spec fn spec_unstr_item(s: Seq<u8>, i: int) -> Option<(int, Seq<UnstrTokenV>)> {
    let k = match spec_fws(s, i) {
        Some(k) => k,
        None => i,
    };
    let ws: Seq<UnstrTokenV> = if k > i {
        seq![UnstrTokenV { kind: UnstrTxtKind::Fws, text: keep_wsp(s.subrange(i, k)) }]
    } else {
        seq![]
    };
    match run1(s, k, ByteClass::Unstructured) {
        Some(e) => Some((e, ws.push(UnstrTokenV { kind: UnstrTxtKind::Txt, text: s.subrange(k, e) }))),
        None => None,
    }
}

pub open spec fn spec_unstr_items(s: Seq<u8>, i: int) -> (int, Seq<UnstrTokenV>)
    decreases s.len() - i,
{
    match spec_unstr_item(s, i) {
        Some((j, t)) => if i < j <= s.len() {
            let (e, ts) = spec_unstr_items(s, j);
            (e, t + ts)
        } else {
            (i, seq![])
        },
        None => (i, seq![]),
    }
}

/// ```abnf
/// unstructured = (*([FWS] VCHAR_SEQ) *WSP) / obs-unstruct
/// ```
/// Each folding whitespace becomes a whitespace token that holds its
/// whitespace, line breaks left out.
pub open spec fn spec_unstructured(s: Seq<u8>, i: int) -> (int, Seq<UnstrTokenV>) {
    let (m, ts) = spec_unstr_items(s, i);
    (spec_space0(s, m), ts)
}

fn unstr_item(s: &[u8], i: usize) -> (r: Option<(usize, Vec<UnstrToken>)>)
    ensures
        match r {
            Some((j, t)) => spec_unstr_item(s@, i as int) == Some((j as int, seq_view(t@))),
            None => spec_unstr_item(s@, i as int) is None,
        },
{
    let k = match fws(s, i) {
        Some(k) => k,
        None => i,
    };
    let mut v: Vec<UnstrToken> = Vec::new();
    if k > i {
        proof {
            lemma_fws_last(s@, i as int);
        }
        let sp = wsp_bytes(s, i, k);
        v.push(UnstrToken { kind: UnstrTxtKind::Fws, text: sp });
    }
    if k > s.len() {
        proof {
            assert(crate::text::run::run_end(s@, k as int, ByteClass::Unstructured) == k);
        }
        return None;
    }
    match take_run1(s, k, ByteClass::Unstructured) {
        Some(e) => {
            let ghost v0 = seq_view(v@);
            v.push(UnstrToken { kind: UnstrTxtKind::Txt, text: ascii::sub_to_vec(s, k, e) });
            assert(seq_view(v@) =~= v0.push(v@.last()@));
            if k > i {
                assert(v0 =~= seq![UnstrTokenV { kind: UnstrTxtKind::Fws, text: keep_wsp(s@.subrange(i as int, k as int)) }]);
            } else {
                assert(v0 =~= Seq::<UnstrTokenV>::empty());
            }
            Some((e, v))
        },
        None => None,
    }
}

pub fn unstructured(s: &[u8], i: usize) -> (r: (usize, Unstructured))
    ensures
        spec_unstructured(s@, i as int) == (r.0 as int, r.1@),
{
    let mut j = i;
    let mut acc: Vec<UnstrToken> = Vec::new();
    loop
        invariant
            i <= j,
            spec_unstr_items(s@, i as int).0 == spec_unstr_items(s@, j as int).0,
            spec_unstr_items(s@, i as int).1 == seq_view(acc@) + spec_unstr_items(s@, j as int).1,
        ensures
            spec_unstr_items(s@, i as int) == (j as int, seq_view(acc@)),
        decreases s.len() - j,
    {
        match unstr_item(s, j) {
            Some((k, t)) => {
                if j < k && k <= s.len() {
                    let ghost a0 = seq_view(acc@);
                    let ghost tv = seq_view(t@);
                    crate::dup::append_vec(&mut acc, t);
                    assert(a0 + (tv + spec_unstr_items(s@, k as int).1) =~= (a0 + tv)
                        + spec_unstr_items(s@, k as int).1);
                    j = k;
                } else {
                    assert(seq_view(acc@) + Seq::<UnstrTokenV>::empty() =~= seq_view(acc@));
                    break ;
                }
            },
            None => {
                assert(seq_view(acc@) + Seq::<UnstrTokenV>::empty() =~= seq_view(acc@));
                break ;
            },
        }
    }
    (space0(s, j), Unstructured(acc))
}

// ---------------------------------------------------------------- round trip

/// A text token as the parser makes it: a run of unstructured text.
pub open spec fn txt_token_ok(t: UnstrTokenV) -> bool {
    &&& t.kind == UnstrTxtKind::Txt
    &&& t.text.len() > 0
    &&& forall|k: int| 0 <= k < t.text.len() ==> in_class(ByteClass::Unstructured, #[trigger] t.text[k])
}

/// A whitespace token as the parser makes it: whitespace, at least one byte.
pub open spec fn fws_token_ok(t: UnstrTokenV) -> bool {
    t.kind == UnstrTxtKind::Fws && t.text.len() > 0 && crate::print::all_wsp(t.text)
}

/// Each token is a whitespace or a text token as the parser makes them.
pub open spec fn tokens_ok(u: Seq<UnstrTokenV>) -> bool {
    forall|i: int| 0 <= i < u.len() ==> fws_token_ok(#[trigger] u[i]) || txt_token_ok(u[i])
}

/// Text follows each whitespace token, and ends the tokens.
pub open spec fn fws_then_txt(u: Seq<UnstrTokenV>) -> bool {
    &&& (u.len() > 0 ==> u.last().kind == UnstrTxtKind::Txt)
    &&& forall|i: int, j: int|
        #![trigger u[i], u[j]]
        0 <= i && j == i + 1 && j < u.len() && u[i].kind == UnstrTxtKind::Fws ==> u[j].kind
            == UnstrTxtKind::Txt
}

/// Whitespace follows each text token but the last.
pub open spec fn txt_then_fws(u: Seq<UnstrTokenV>) -> bool {
    forall|i: int, j: int|
        #![trigger u[i], u[j]]
        0 <= i && j == i + 1 && j < u.len() && u[i].kind == UnstrTxtKind::Txt ==> u[j].kind
            == UnstrTxtKind::Fws
}

/// Tokens in the shape the parser gives them: each whitespace token is
/// whitespace followed by text, and two text tokens never follow each
/// other.
pub open spec fn unstr_shaped(u: Seq<UnstrTokenV>) -> bool {
    tokens_ok(u) && fws_then_txt(u) && txt_then_fws(u)
}

proof fn lemma_space_not_unstructured()
    ensures
        !in_class(ByteClass::Unstructured, ascii::SP),
        !in_class(ByteClass::Unstructured, ascii::HT),
        !in_class(ByteClass::Unstructured, ascii::CR),
        !in_class(ByteClass::Unstructured, ascii::LF),
{
}

/// The text of the first `m` tokens and of the others make up the text of
/// all of them.
proof fn lemma_text_split(u: Seq<UnstrTokenV>, m: int)
    requires
        0 <= m <= u.len(),
    ensures
        unstructured_text(u) == unstructured_text(u.take(m)) + unstructured_text(u.skip(m)),
    decreases u.len(),
{
    if m == u.len() {
        assert(u.take(m) =~= u);
        assert(u.skip(m) =~= Seq::<UnstrTokenV>::empty());
        assert(unstructured_text(u) + Seq::<u8>::empty() =~= unstructured_text(u));
    } else {
        let v = u.drop_last();
        lemma_text_split(v, m);
        assert(v.take(m) =~= u.take(m));
        assert(u.skip(m).drop_last() =~= v.skip(m));
        assert(u.skip(m).last() == u.last());
        assert(unstructured_text(u) =~= unstructured_text(u.take(m)) + unstructured_text(u.skip(m)));
    }
}

/// The text of `m + 1` tokens is the text of `m` tokens, then the next one's.
proof fn lemma_text_take_next(u: Seq<UnstrTokenV>, m: int)
    requires
        0 <= m < u.len(),
    ensures
        unstructured_text(u.take(m + 1)) == unstructured_text(u.take(m)) + u[m].text,
{
    assert(u.take(m + 1).drop_last() =~= u.take(m));
}

/// One item: optional whitespace, then a maximal run of text; when
/// `s[i]` is not text, the item starts with whitespace.
proof fn lemma_item_shape(s: Seq<u8>, i: int)
    requires
        spec_unstr_item(s, i) is Some,
    ensures
        ({
            let (j, t) = spec_unstr_item(s, i)->0;
            &&& j <= s.len()
            &&& (j == s.len() || !in_class(ByteClass::Unstructured, s[j]))
            &&& unstr_shaped(t)
            &&& t.len() > 0
            &&& t.last().kind == UnstrTxtKind::Txt
            &&& (!(0 <= i < s.len() && in_class(ByteClass::Unstructured, s[i])) ==> t[0].kind
                == UnstrTxtKind::Fws)
        }),
{
    let (j, t) = spec_unstr_item(s, i)->0;
    let k = match spec_fws(s, i) {
        Some(k) => k,
        None => i,
    };
    if k > i {
        lemma_fws_last(s, i);
        let w = s.subrange(i, k);
        lemma_keep_wsp(w);
        assert(ascii::is_wsp(w[k - 1 - i]));
        assert(fws_token_ok(t[0]));
    }
    assert(0 <= k < s.len());
    lemma_run_end(s, k, ByteClass::Unstructured);
    let txt = UnstrTokenV { kind: UnstrTxtKind::Txt, text: s.subrange(k, j) };
    assert(txt_token_ok(txt)) by {
        assert forall|x: int| 0 <= x < txt.text.len() implies in_class(
            ByteClass::Unstructured,
            #[trigger] txt.text[x],
        ) by {
            assert(txt.text[x] == s[k + x]);
        }
    }
    assert(t.last() == txt);
    if !(0 <= i < s.len() && in_class(ByteClass::Unstructured, s[i])) {
        if k == i {
            assert(run_end(s, i, ByteClass::Unstructured) == i);
        }
    }
}

proof fn lemma_tokens_ok_append(t: Seq<UnstrTokenV>, ts: Seq<UnstrTokenV>)
    requires
        tokens_ok(t),
        tokens_ok(ts),
    ensures
        tokens_ok(t + ts),
{
    let all = t + ts;
    assert forall|x: int| 0 <= x < all.len() implies fws_token_ok(#[trigger] all[x]) || txt_token_ok(
        all[x],
    ) by {
        if x >= t.len() {
            assert(all[x] == ts[x - t.len()]);
        } else {
            assert(all[x] == t[x]);
        }
    }
}

proof fn lemma_fws_then_txt_append(t: Seq<UnstrTokenV>, ts: Seq<UnstrTokenV>)
    requires
        fws_then_txt(t),
        fws_then_txt(ts),
        t.len() > 0,
    ensures
        fws_then_txt(t + ts),
{
    let all = t + ts;
    assert forall|x: int, y: int|
        0 <= x && y == x + 1 && y < all.len() && (#[trigger] all[x]).kind == UnstrTxtKind::Fws implies (#[trigger] all[y]).kind
        == UnstrTxtKind::Txt by {
        if x >= t.len() {
            assert(all[x] == ts[x - t.len()]);
            assert(all[y] == ts[y - t.len()]);
        } else {
            assert(all[x] == t[x]);
            if y < t.len() {
                assert(all[y] == t[y]);
            } else {
                assert(t.last() == t[x]);
            }
        }
    }
    if ts.len() > 0 {
        assert(all.last() == ts.last());
    } else {
        assert(all.last() == t.last());
    }
}

proof fn lemma_txt_then_fws_append(t: Seq<UnstrTokenV>, ts: Seq<UnstrTokenV>)
    requires
        txt_then_fws(t),
        txt_then_fws(ts),
        t.len() > 0,
        ts.len() > 0 ==> ts[0].kind == UnstrTxtKind::Fws,
    ensures
        txt_then_fws(t + ts),
{
    let all = t + ts;
    assert forall|x: int, y: int|
        0 <= x && y == x + 1 && y < all.len() && (#[trigger] all[x]).kind == UnstrTxtKind::Txt implies (#[trigger] all[y]).kind
        == UnstrTxtKind::Fws by {
        if x >= t.len() {
            assert(all[x] == ts[x - t.len()]);
            assert(all[y] == ts[y - t.len()]);
        } else if x == t.len() - 1 {
            assert(all[y] == ts[0]);
        } else {
            assert(all[x] == t[x]);
            assert(all[y] == t[y]);
        }
    }
}

/// An item followed by shaped tokens that start with whitespace is shaped.
proof fn lemma_shaped_append(t: Seq<UnstrTokenV>, ts: Seq<UnstrTokenV>)
    requires
        unstr_shaped(t),
        unstr_shaped(ts),
        t.len() > 0,
        ts.len() > 0 ==> ts[0].kind == UnstrTxtKind::Fws,
    ensures
        unstr_shaped(t + ts),
{
    lemma_tokens_ok_append(t, ts);
    lemma_fws_then_txt_append(t, ts);
    lemma_txt_then_fws_append(t, ts);
}

/// The tokens of the items that start at `i`, in the shape the parser
/// gives; and when `s[i]` is not text, they start with whitespace.
proof fn lemma_items_shaped(s: Seq<u8>, i: int)
    ensures
        unstr_shaped(spec_unstr_items(s, i).1),
        spec_unstr_items(s, i).1.len() > 0 && !(0 <= i < s.len() && in_class(
            ByteClass::Unstructured,
            s[i],
        )) ==> spec_unstr_items(s, i).1[0].kind == UnstrTxtKind::Fws,
    decreases s.len() - i,
{
    match spec_unstr_item(s, i) {
        Some((j, t)) => {
            if i < j <= s.len() {
                lemma_item_shape(s, i);
                lemma_items_shaped(s, j);
                let ts = spec_unstr_items(s, j).1;
                lemma_shaped_append(t, ts);
            }
        },
        None => {},
    }
}

proof fn lemma_no_fws_at_text(s: Seq<u8>, p: int)
    requires
        0 <= p < s.len(),
        in_class(ByteClass::Unstructured, s[p]),
    ensures
        spec_fws(s, p) is None,
{
    lemma_space_not_unstructured();
    assert(spec_space0(s, p) == p);
    assert(spec_perm_crlf(s, p) is None);
    assert(spec_fold_marker(s, p) is None);
    assert(spec_fold_markers(s, p) == p);
}

proof fn lemma_no_item_at_end(s: Seq<u8>)
    ensures
        spec_unstr_item(s, s.len() as int) is None,
{
    let n = s.len() as int;
    assert(spec_space0(s, n) == n);
    assert(spec_perm_crlf(s, n) is None);
    assert(spec_fold_marker(s, n) is None);
    assert(spec_fold_markers(s, n) == n);
    assert(spec_fws(s, n) is None);
    assert(run_end(s, n, ByteClass::Unstructured) == n);
}

/// Where the text of token `m` stands in the text of all tokens.
proof fn lemma_token_bytes(u: Seq<UnstrTokenV>, m: int)
    requires
        0 <= m < u.len(),
    ensures
        unstructured_text(u.take(m)).len() + u[m].text.len() == unstructured_text(u.take(m + 1)).len(),
        unstructured_text(u.take(m + 1)).len() <= unstructured_text(u).len(),
        forall|x: int|
            0 <= x < u[m].text.len() ==> unstructured_text(u)[unstructured_text(u.take(m)).len() + x]
                == #[trigger] u[m].text[x],
{
    lemma_text_split(u, m + 1);
    lemma_text_take_next(u, m);
    let a = unstructured_text(u.take(m));
    let s = unstructured_text(u);
    assert forall|x: int| 0 <= x < u[m].text.len() implies s[a.len() + x] == #[trigger] u[m].text[x] by {
        assert(s[a.len() + x] == unstructured_text(u.take(m + 1))[a.len() + x]);
    }
}

/// Parsing the text of shaped tokens from the start of token `m` (the
/// start of an item) gives back the tokens from `m` on.
proof fn lemma_reparse_items(u: Seq<UnstrTokenV>, m: int)
    requires
        unstr_shaped(u),
        0 <= m <= u.len(),
        m == 0 || m == u.len() || u[m].kind == UnstrTxtKind::Fws,
    ensures
        spec_unstr_items(unstructured_text(u), unstructured_text(u.take(m)).len() as int) == (
            unstructured_text(u).len() as int,
            u.skip(m),
        ),
    decreases u.len() - m,
{
    let s = unstructured_text(u);
    let p = unstructured_text(u.take(m)).len() as int;
    lemma_space_not_unstructured();
    if m == u.len() {
        assert(u.take(m) =~= u);
        assert(u.skip(m) =~= Seq::<UnstrTokenV>::empty());
        lemma_no_item_at_end(s);
    } else if u[m].kind == UnstrTxtKind::Fws {
        assert(fws_token_ok(u[m]) || txt_token_ok(u[m]));
        let w = u[m].text;
        let n = w.len() as int;
        assert(u[m + 1].kind == UnstrTxtKind::Txt);
        assert(txt_token_ok(u[m + 1]));
        let t = u[m + 1].text;
        lemma_token_bytes(u, m);
        lemma_token_bytes(u, m + 1);
        let q = p + n;
        let e = unstructured_text(u.take(m + 2)).len() as int;
        assert forall|x: int| p <= x < p + n implies ascii::is_wsp(#[trigger] s[x]) by {
            assert(s[p + (x - p)] == w[x - p]);
        }
        assert(s[q] == t[0]);
        lemma_fws_at_run(s, p, n);
        assert(s.subrange(p, q) =~= w) by {
            assert forall|x: int| 0 <= x < n implies #[trigger] s.subrange(p, q)[x] == w[x] by {
                assert(s[p + x] == w[x]);
            }
        }
        lemma_keep_wsp(w);
        if m + 2 < u.len() {
            assert(u[m + 2].kind == UnstrTxtKind::Fws);
            assert(fws_token_ok(u[m + 2]) || txt_token_ok(u[m + 2]));
            lemma_token_bytes(u, m + 2);
            assert(s[e] == u[m + 2].text[0]);
        } else {
            assert(u.take(m + 2) =~= u);
        }
        assert forall|x: int| q <= x < e implies in_class(ByteClass::Unstructured, #[trigger] s[x]) by {
            assert(s[q + (x - q)] == t[x - q]);
        }
        lemma_run_end_exact(s, q, e, ByteClass::Unstructured);
        assert(s.subrange(q, e) =~= t);
        let item = seq![
            UnstrTokenV { kind: UnstrTxtKind::Fws, text: w },
            UnstrTokenV { kind: UnstrTxtKind::Txt, text: s.subrange(q, e) },
        ];
        assert(spec_unstr_item(s, p) == Some((e, item)));
        lemma_reparse_items(u, m + 2);
        assert(item + u.skip(m + 2) =~= u.skip(m));
    } else {
        assert(m == 0);
        assert(txt_token_ok(u[m]));
        let t = u[m].text;
        lemma_token_bytes(u, m);
        let e = unstructured_text(u.take(m + 1)).len() as int;
        assert(s[p] == t[0]);
        lemma_no_fws_at_text(s, p);
        if m + 1 < u.len() {
            assert(u[m + 1].kind == UnstrTxtKind::Fws);
            assert(fws_token_ok(u[m + 1]) || txt_token_ok(u[m + 1]));
            lemma_token_bytes(u, m + 1);
            assert(s[e] == u[m + 1].text[0]);
        } else {
            assert(u.take(m + 1) =~= u);
        }
        assert forall|x: int| p <= x < e implies in_class(ByteClass::Unstructured, #[trigger] s[x]) by {
            assert(s[p + (x - p)] == t[x - p]);
        }
        lemma_run_end_exact(s, p, e, ByteClass::Unstructured);
        assert(s.subrange(p, e) =~= t);
        let item = seq![UnstrTokenV { kind: UnstrTxtKind::Txt, text: s.subrange(p, e) }];
        assert(spec_unstr_item(s, p) == Some((e, item)));
        lemma_reparse_items(u, m + 1);
        assert(item + u.skip(m + 1) =~= u.skip(m));
    }
}

/// Shaped tokens may be printed after any text that does not end a line.
proof fn lemma_shaped_printable(w: Seq<u8>, u: Seq<UnstrTokenV>)
    requires
        unstr_shaped(u),
        !line_start(w),
    ensures
        unstr_printable_after(w, u),
{
    lemma_space_not_unstructured();
    assert forall|i: int| 0 <= i < u.len() implies unstr_token_allowed(
        w + unstructured_text(u.take(i)),
        #[trigger] u[i],
    ) by {
        let wi = w + unstructured_text(u.take(i));
        assert(fws_token_ok(u[i]) || txt_token_ok(u[i]));
        if u[i].kind == UnstrTxtKind::Fws {
            if i == 0 {
                assert(u.take(0) =~= Seq::<UnstrTokenV>::empty());
                assert(wi =~= w);
            } else {
                assert(fws_token_ok(u[i - 1]) || txt_token_ok(u[i - 1]));
                if u[i - 1].kind == UnstrTxtKind::Fws {
                    assert(u[i].kind == UnstrTxtKind::Txt);
                }
                let t = u[i - 1].text;
                lemma_text_take_next(u, i - 1);
                assert(wi =~= (w + unstructured_text(u.take(i - 1))) + t);
                assert(wi.last() == t.last());
                assert(in_class(ByteClass::Unstructured, t[t.len() - 1]));
            }
            assert(crate::print::all_wsp(u[i].text));
        } else {
            let t = u[i].text;
            assert(in_class(ByteClass::Unstructured, t[0]));
            assert forall|k: int| 0 <= k && k + 1 < t.len() implies !(#[trigger] t[k] == ascii::CR
                && t[k + 1] == ascii::LF) by {
                assert(in_class(ByteClass::Unstructured, t[k]));
            }
        }
    }
}

/// Print, then parse: an unstructured body, once parsed, can be printed
/// after any text that does not end a line (a field name and its colon),
/// and parsing the printed text gives back the same tokens.
pub proof fn law_unstructured_print_parse(b: Seq<u8>, i: int, w: Seq<u8>)
    requires
        !line_start(w),
    ensures
        unstr_printable_after(w, spec_unstructured(b, i).1),
        spec_unstructured(unstructured_text(spec_unstructured(b, i).1), 0) == (
            unstructured_text(spec_unstructured(b, i).1).len() as int,
            spec_unstructured(b, i).1,
        ),
{
    let u = spec_unstructured(b, i).1;
    lemma_items_shaped(b, i);
    lemma_shaped_printable(w, u);
    lemma_reparse_items(u, 0);
    assert(u.take(0) =~= Seq::<UnstrTokenV>::empty());
    assert(u.skip(0) =~= u);
    let s = unstructured_text(u);
    assert(spec_space0(s, s.len() as int) == s.len());
}


/// The text a word is printed as: an atom as it is, a quoted string quoted.
pub open spec fn word_out(w: WordV) -> Seq<u8> {
    match w {
        WordV::Quoted(q) => quoted_out(concat(q)),
        WordV::Atom(a) => a,
    }
}

/// A word is printed as `word_out` gives it; the text must be free.
impl Print for Word {
    open spec fn print_text(&self) -> Seq<u8> {
        word_out(self@)
    }

    open spec fn print_marks(&self) -> Seq<bool> {
        unmarked(word_out(self@).len())
    }

    open spec fn printable_after(&self, w: Seq<u8>) -> bool {
        free_text(word_out(self@))
    }

    #[verifier::spinoff_prover]
    fn print<F: Formatter>(&self, fmt: &mut F) {
        match self {
            Word::Quoted(q) => {
                let c = q.chars();
                print_quoted(fmt, c.as_slice());
            },
            Word::Atom(a) => write_free(fmt, a.0.as_slice()),
        }
    }
}

impl Print for PhraseToken {
    open spec fn print_text(&self) -> Seq<u8> {
        word_out(self@)
    }

    open spec fn print_marks(&self) -> Seq<bool> {
        unmarked(word_out(self@).len())
    }

    open spec fn printable_after(&self, w: Seq<u8>) -> bool {
        free_text(word_out(self@))
    }

    #[verifier::spinoff_prover]
    fn print<F: Formatter>(&self, fmt: &mut F) {
        match self {
            PhraseToken::Word(w) => w.print(fmt),
        }
    }
}

/// A phrase can be printed: it has words, and each prints as free text.
pub open spec fn phrase_printable(p: Seq<WordV>) -> bool {
    p.len() > 0 && forall|i: int| 0 <= i < p.len() ==> free_text(word_out(#[trigger] p[i]))
}

proof fn lemma_phrase_items(p: &Phrase)
    requires
        phrase_printable(p@),
    ensures
        free_items(p.0@),
{
    assert forall|i: int| 0 <= i < p.0@.len() implies free_text(#[trigger] p.0@[i].print_text()) by {
        assert(p@[i] == p.0@[i]@);
    }
    assert forall|i: int, w: Seq<u8>| 0 <= i < p.0@.len() implies #[trigger] p.0@[i].printable_after(w) by {
        assert(p@[i] == p.0@[i]@);
    }
}

/// A printable phrase prints as free text.
pub proof fn lemma_phrase_free(p: &Phrase)
    requires
        phrase_printable(p@),
    ensures
        free_text(p.print_text()),
{
    lemma_phrase_items(p);
    lemma_free_joined(p.0@, seq![ascii::SP]);
}

/// A phrase is printed word by word, with folding whitespace between words.
impl Print for Phrase {
    open spec fn print_text(&self) -> Seq<u8> {
        joined_text(self.0@, seq![ascii::SP])
    }

    open spec fn print_marks(&self) -> Seq<bool> {
        joined_marks(self.0@, seq![true])
    }

    open spec fn printable_after(&self, w: Seq<u8>) -> bool {
        phrase_printable(self@)
    }

    #[verifier::spinoff_prover]
    fn print<F: Formatter>(&self, fmt: &mut F) {
        let sep = fws_sep();
        proof {
            lemma_phrase_items(self);
            lemma_free_items(fmt.written(), self.0@, sep@);
        }
        print_seq(fmt, self.0.as_slice(), sep.as_slice());
    }
}

/// A list of phrases can be printed: it has phrases, and each can be printed.
pub open spec fn phrase_list_printable(l: Seq<Seq<WordV>>) -> bool {
    l.len() > 0 && forall|i: int| 0 <= i < l.len() ==> phrase_printable(#[trigger] l[i])
}

/// A list of phrases is printed with `"," FWS` between phrases.
impl Print for PhraseList {
    open spec fn print_text(&self) -> Seq<u8> {
        joined_text(self.0@, seq![ascii::COMMA, ascii::SP])
    }

    open spec fn print_marks(&self) -> Seq<bool> {
        joined_marks(self.0@, seq![false, true])
    }

    open spec fn printable_after(&self, w: Seq<u8>) -> bool {
        phrase_list_printable(self@)
    }

    #[verifier::spinoff_prover]
    fn print<F: Formatter>(&self, fmt: &mut F) {
        let sep = comma_fws_sep();
        proof {
            assert forall|i: int| 0 <= i < self.0@.len() implies free_text(#[trigger] self.0@[i].print_text()) by {
                assert(self@[i] == self.0@[i]@);
                lemma_phrase_free(&self.0@[i]);
            }
            assert forall|i: int, w: Seq<u8>| 0 <= i < self.0@.len() implies #[trigger] self.0@[i].printable_after(w) by {
                assert(self@[i] == self.0@[i]@);
            }
            lemma_free_items(fmt.written(), self.0@, sep@);
        }
        print_seq(fmt, self.0.as_slice(), sep.as_slice());
    }
}


/// The text a MIME word is printed as: a token as it is, a quoted string
/// quoted.
pub open spec fn mime_word_out(w: MIMEWordV) -> Seq<u8> {
    match w {
        MIMEWordV::Quoted(q) => quoted_out(concat(q)),
        MIMEWordV::Atom(a) => a,
    }
}

/// A MIME word is printed as `mime_word_out` gives it; the text must be
/// free.
impl Print for MIMEWord {
    open spec fn print_text(&self) -> Seq<u8> {
        mime_word_out(self@)
    }

    open spec fn print_marks(&self) -> Seq<bool> {
        unmarked(mime_word_out(self@).len())
    }

    open spec fn printable_after(&self, w: Seq<u8>) -> bool {
        free_text(mime_word_out(self@))
    }

    #[verifier::spinoff_prover]
    fn print<F: Formatter>(&self, fmt: &mut F) {
        match self {
            MIMEWord::Quoted(q) => {
                let c = q.chars();
                print_quoted(fmt, c.as_slice());
            },
            MIMEWord::Atom(a) => write_free(fmt, a.0.as_slice()),
        }
    }
}

} // verus!
