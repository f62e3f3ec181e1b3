//! Mailboxes and address specifications (RFC 5322 section 3.4).
use vstd::prelude::*;
use vstd::string::StringSliceAdditionalSpecFns;
use crate::dup::{Duplicate, duplicate_vec, seq_view, append_vec};
use crate::text::ascii;
use crate::text::chars::strict_dtext_cp;
use crate::text::misc_token::{Phrase, Word, WordV, spec_phrase, phrase, spec_word, word, word_text};
use crate::text::run::{ByteClass, run1, take_run1};
use crate::text::tag::{spec_byte, byte};
use crate::text::whitespace::{or_pos, spec_opt_cfws, opt_cfws, spec_opt_fws, opt_fws};
use crate::text::words::{Atom, spec_atom, atom, spec_dot_atom_text, dot_atom_text};
use crate::text::quoted::{quoted_out, print_quoted};
use crate::text::misc_token::{phrase_printable, lemma_phrase_free};
use crate::print::{
    Formatter, Print, FoldStep, free_text, free_items, free_sep, seq_printable_after, joined_text, joined_marks, lemma_free_items,
    lemma_free_allowed, lemma_free_join, lemma_free_joined, lemma_free_wrap, print_seq,
    fws_sep, dot_sep, comma_fws_sep, unmarked, write_free,
};

verus! {

#[derive(Debug, PartialEq, Eq)]
pub enum LocalPartToken {
    Dot,
    Word(Word),
}

pub enum LocalPartTokenV {
    Dot,
    Word(WordV),
}

impl View for LocalPartToken {
    type V = LocalPartTokenV;

    open spec fn view(&self) -> LocalPartTokenV {
        match self {
            LocalPartToken::Dot => LocalPartTokenV::Dot,
            LocalPartToken::Word(w) => LocalPartTokenV::Word(w@),
        }
    }
}

impl Duplicate for LocalPartToken {
    fn duplicate(&self) -> (r: LocalPartToken) {
        match self {
            LocalPartToken::Dot => LocalPartToken::Dot,
            LocalPartToken::Word(w) => LocalPartToken::Word(w.duplicate()),
        }
    }
}

/// A local part: words and dots (a non-empty vec).
#[derive(Debug, PartialEq, Eq)]
pub struct LocalPart(pub Vec<LocalPartToken>);

impl View for LocalPart {
    type V = Seq<LocalPartTokenV>;

    open spec fn view(&self) -> Seq<LocalPartTokenV> {
        seq_view(self.0@)
    }
}

impl Duplicate for LocalPart {
    fn duplicate(&self) -> (r: LocalPart) {
        LocalPart(duplicate_vec(&self.0))
    }
}

/// The text of a local part: its words' text and its dots.
pub open spec fn local_part_text(t: Seq<LocalPartTokenV>) -> Seq<u8>
    decreases t.len(),
{
    if t.len() == 0 {
        Seq::empty()
    } else {
        local_part_text(t.drop_last()) + match t.last() {
            LocalPartTokenV::Dot => seq![ascii::PERIOD],
            LocalPartTokenV::Word(w) => word_text(w),
        }
    }
}

impl LocalPart {
    /// The text of this local part.
    pub fn chars(&self) -> (r: Vec<u8>)
        ensures
            r@ == local_part_text(self@),
    {
        let mut r: Vec<u8> = Vec::new();
        let mut i: usize = 0;
        while i < self.0.len()
            invariant
                i <= self.0.len(),
                r@ == local_part_text(self@.take(i as int)),
            decreases self.0.len() - i,
        {
            assert(self@.take(i + 1).drop_last() =~= self@.take(i as int));
            match &self.0[i] {
                LocalPartToken::Dot => {
                    r.push(ascii::PERIOD);
                },
                LocalPartToken::Word(w) => {
                    let t = w.chars();
                    ascii::extend_bytes(&mut r, t.as_slice());
                },
            }
            i += 1;
        }
        assert(self@.take(self.0.len() as int) =~= self@);
        r
    }
}

/// Domain text; must be non-empty.
#[derive(Debug, PartialEq, Eq)]
pub struct Dtext(pub Vec<u8>);

impl View for Dtext {
    type V = Seq<u8>;

    open spec fn view(&self) -> Seq<u8> {
        self.0@
    }
}

impl Duplicate for Dtext {
    fn duplicate(&self) -> (r: Dtext) {
        Dtext(self.0.duplicate())
    }
}

/// The strict part of domain text; if nothing is left, "?".
pub open spec fn strict_dtext_of(s: Seq<u8>) -> Seq<u8> {
    let f = s.filter(|b: u8| strict_dtext_cp(b as u32));
    if f.len() == 0 {
        seq![ascii::QUESTION]
    } else {
        f
    }
}

impl Dtext {
    /// Best-effort conversion of any `Dtext` contents into chars that all
    /// satisfy `is_strict_dtext`: characters of the obsolete syntax are
    /// dropped, and an empty result is replaced by "?".
    pub fn to_strict_best_effort(&self) -> (r: Dtext)
        ensures
            r@ == strict_dtext_of(self@),
    {
        let mut v: Vec<u8> = Vec::new();
        let mut i: usize = 0;
        while i < self.0.len()
            invariant
                i <= self.0.len(),
                v@ == self@.take(i as int).filter(|b: u8| strict_dtext_cp(b as u32)),
            decreases self.0.len() - i,
        {
            let b = self.0[i];
            proof {
                reveal_with_fuel(Seq::<_>::filter, 1);
                assert(self@.take(i + 1).drop_last() =~= self@.take(i as int));
            }
            if crate::text::chars::strict_dtext_code(b as u32) {
                v.push(b);
            }
            i += 1;
        }
        assert(self@.take(self.0.len() as int) =~= self@);
        if v.len() == 0 {
            v.push(ascii::QUESTION);
            assert(v@ =~= seq![ascii::QUESTION]);
        }
        Dtext(v)
    }
}

#[derive(Debug, PartialEq, Eq)]
pub enum Domain {
    /// non-empty
    Atoms(Vec<Atom>),
    Literal(Vec<Dtext>),
}

pub enum DomainV {
    Atoms(Seq<Seq<u8>>),
    Literal(Seq<Seq<u8>>),
}

impl View for Domain {
    type V = DomainV;

    open spec fn view(&self) -> DomainV {
        match self {
            Domain::Atoms(a) => DomainV::Atoms(seq_view(a@)),
            Domain::Literal(d) => DomainV::Literal(seq_view(d@)),
        }
    }
}

impl Duplicate for Domain {
    fn duplicate(&self) -> (r: Domain) {
        match self {
            Domain::Atoms(a) => Domain::Atoms(duplicate_vec(a)),
            Domain::Literal(d) => Domain::Literal(duplicate_vec(d)),
        }
    }
}

#[derive(Debug, PartialEq, Eq)]
pub struct AddrSpec {
    pub local_part: LocalPart,
    pub domain: Domain,
}

pub struct AddrSpecV {
    pub local_part: Seq<LocalPartTokenV>,
    pub domain: DomainV,
}

impl View for AddrSpec {
    type V = AddrSpecV;

    open spec fn view(&self) -> AddrSpecV {
        AddrSpecV { local_part: self.local_part@, domain: self.domain@ }
    }
}

impl Duplicate for AddrSpec {
    fn duplicate(&self) -> (r: AddrSpec) {
        AddrSpec { local_part: self.local_part.duplicate(), domain: self.domain.duplicate() }
    }
}

#[derive(Debug, PartialEq, Eq)]
pub struct MailboxRef {
    /// The actual "email address" like hello@example.com
    pub addrspec: AddrSpec,
    /// The optional name
    pub name: Option<Phrase>,
}

pub struct MailboxRefV {
    pub addrspec: AddrSpecV,
    pub name: Option<Seq<WordV>>,
}

pub open spec fn opt_phrase_view(p: Option<Phrase>) -> Option<Seq<WordV>> {
    match p {
        Some(p) => Some(p@),
        None => None,
    }
}

impl View for MailboxRef {
    type V = MailboxRefV;

    open spec fn view(&self) -> MailboxRefV {
        MailboxRefV { addrspec: self.addrspec@, name: opt_phrase_view(self.name) }
    }
}

impl Duplicate for MailboxRef {
    fn duplicate(&self) -> (r: MailboxRef) {
        MailboxRef {
            addrspec: self.addrspec.duplicate(),
            name: match &self.name {
                Some(p) => Some(p.duplicate()),
                None => None,
            },
        }
    }
}

impl MailboxRef {
    /// Used as placeholder value for a missing or invalid address:
    /// "unknown@unknown".
    pub fn placeholder() -> (r: MailboxRef)
        ensures
            r@ == (MailboxRefV {
                addrspec: AddrSpecV {
                    local_part: seq![LocalPartTokenV::Word(WordV::Atom("unknown".spec_bytes()))],
                    domain: DomainV::Atoms(seq!["unknown".spec_bytes()]),
                },
                name: None,
            }),
    {
        let mut lp: Vec<LocalPartToken> = Vec::new();
        lp.push(LocalPartToken::Word(Word::Atom(Atom(ascii::bytes_to_vec("unknown".as_bytes())))));
        let mut dom: Vec<Atom> = Vec::new();
        dom.push(Atom(ascii::bytes_to_vec("unknown".as_bytes())));
        let r = MailboxRef {
            addrspec: AddrSpec { local_part: LocalPart(lp), domain: Domain::Atoms(dom) },
            name: None,
        };
        assert(r@.addrspec.local_part =~= seq![LocalPartTokenV::Word(WordV::Atom("unknown".spec_bytes()))]);
        assert(seq_view(dom@) =~= seq!["unknown".spec_bytes()]);
        r
    }

    /// A mailbox without a name.
    pub fn from(addr: AddrSpec) -> (r: MailboxRef)
        ensures
            r@ == (MailboxRefV { addrspec: addr@, name: None }),
    {
        MailboxRef { name: None, addrspec: addr }
    }
}

/// A non-empty list of mailboxes.
#[derive(Debug, PartialEq, Eq)]
pub struct MailboxList(pub Vec<MailboxRef>);

impl View for MailboxList {
    type V = Seq<MailboxRefV>;

    open spec fn view(&self) -> Seq<MailboxRefV> {
        seq_view(self.0@)
    }
}

impl Duplicate for MailboxList {
    fn duplicate(&self) -> (r: MailboxList) {
        MailboxList(duplicate_vec(&self.0))
    }
}

// ---------------------------------------------------------------- local part

/// End of a run of dots.
pub open spec fn dot_run_end(s: Seq<u8>, i: int) -> int
    decreases s.len() - i,
{
    if 0 <= i < s.len() && s[i] == ascii::PERIOD {
        dot_run_end(s, i + 1)
    } else {
        i
    }
}

pub open spec fn dots(n: int) -> Seq<LocalPartTokenV> {
    Seq::new(n as nat, |k: int| LocalPartTokenV::Dot)
}

/// `*(1*"." word)`
pub open spec fn spec_local_part_rest(s: Seq<u8>, i: int) -> (int, Seq<LocalPartTokenV>)
    decreases s.len() - i,
{
    let d = dot_run_end(s, i);
    if i < d <= s.len() {
        match spec_word(s, d) {
            Some((j, w)) => if d < j <= s.len() {
                let (e, ts) = spec_local_part_rest(s, j);
                (e, dots(d - i).push(LocalPartTokenV::Word(w)) + ts)
            } else {
                (i, seq![])
            },
            None => (i, seq![]),
        }
    } else {
        (i, seq![])
    }
}

/// Local part
///
/// Compared to the RFC, we allow multiple dots, and dots at the beginning and
/// end (found in Enron emails and supported by Gmail):
/// ```abnf
/// our-local-part      =  *"." word *(1*"." word) *"."
/// ```
pub open spec fn spec_local_part(s: Seq<u8>, i: int) -> Option<(int, Seq<LocalPartTokenV>)> {
    let a = dot_run_end(s, i);
    match spec_word(s, a) {
        Some((j, w)) => {
            let (m, ts) = spec_local_part_rest(s, j);
            let e = dot_run_end(s, m);
            Some((e, dots(a - i).push(LocalPartTokenV::Word(w)) + ts + dots(e - m)))
        },
        None => None,
    }
}

proof fn lemma_dot_run(s: Seq<u8>, i: int)
    requires
        0 <= i,
    ensures
        i <= dot_run_end(s, i),
        i <= s.len() ==> dot_run_end(s, i) <= s.len(),
    decreases s.len() - i,
{
    if 0 <= i < s.len() && s[i] == ascii::PERIOD {
        lemma_dot_run(s, i + 1);
    }
}

fn dot_run(s: &[u8], i: usize) -> (r: usize)
    ensures
        r == dot_run_end(s@, i as int),
{
    let mut j = i;
    while j < s.len() && s[j] == ascii::PERIOD
        invariant
            i <= j,
            dot_run_end(s@, j as int) == dot_run_end(s@, i as int),
        decreases s.len() - j,
    {
        j += 1;
    }
    j
}

fn push_dots(v: &mut Vec<LocalPartToken>, n: usize)
    ensures
        seq_view(final(v)@) == seq_view(old(v)@) + dots(n as int),
{
    let mut k: usize = 0;
    let ghost v0 = seq_view(v@);
    while k < n
        invariant
            k <= n,
            seq_view(v@) == v0 + dots(k as int),
        decreases n - k,
    {
        let ghost vk = seq_view(v@);
        v.push(LocalPartToken::Dot);
        assert(seq_view(v@) =~= vk.push(LocalPartTokenV::Dot));
        assert(v0 + dots(k + 1) =~= (v0 + dots(k as int)).push(LocalPartTokenV::Dot));
        k += 1;
    }
}

pub fn local_part(s: &[u8], i: usize) -> (r: Option<(usize, LocalPart)>)
    ensures
        match r {
            Some((j, l)) => spec_local_part(s@, i as int) == Some((j as int, l@)),
            None => spec_local_part(s@, i as int) is None,
        },
{
    let a = dot_run(s, i);
    proof {
        lemma_dot_run(s@, i as int);
    }
    let (j0, w) = match word(s, a) {
        Some(x) => x,
        None => {
            return None;
        },
    };
    let mut v: Vec<LocalPartToken> = Vec::new();
    push_dots(&mut v, a - i);
    let ghost v1 = seq_view(v@);
    v.push(LocalPartToken::Word(w));
    assert(seq_view(v@) =~= v1.push(v@.last()@));
    assert(v1 =~= dots(a - i));
    let ghost head = seq_view(v@);
    let mut j = j0;
    loop
        invariant
            j0 <= j,
            spec_local_part_rest(s@, j0 as int).0 == spec_local_part_rest(s@, j as int).0,
            head + spec_local_part_rest(s@, j0 as int).1 == seq_view(v@) + spec_local_part_rest(
                s@,
                j as int,
            ).1,
        ensures
            spec_local_part_rest(s@, j0 as int).0 == j,
            head + spec_local_part_rest(s@, j0 as int).1 == seq_view(v@),
        decreases s.len() - j,
    {
        let d = dot_run(s, j);
        proof {
            lemma_dot_run(s@, j as int);
        }
        if j < d && d <= s.len() {
            match word(s, d) {
                Some((k, w2)) => {
                    if d < k && k <= s.len() {
                        let ghost vj = seq_view(v@);
                        push_dots(&mut v, d - j);
                        let ghost vd = seq_view(v@);
                        v.push(LocalPartToken::Word(w2));
                        assert(seq_view(v@) =~= vd.push(v@.last()@));
                        assert(vj + (dots(d - j).push(LocalPartTokenV::Word(w2@))
                            + spec_local_part_rest(s@, k as int).1) =~= seq_view(v@)
                            + spec_local_part_rest(s@, k as int).1);
                        j = k;
                    } else {
                        assert(seq_view(v@) + Seq::<LocalPartTokenV>::empty() =~= seq_view(v@));
                        break ;
                    }
                },
                None => {
                    assert(seq_view(v@) + Seq::<LocalPartTokenV>::empty() =~= seq_view(v@));
                    break ;
                },
            }
        } else {
            assert(seq_view(v@) + Seq::<LocalPartTokenV>::empty() =~= seq_view(v@));
            break ;
        }
    }
    let m = j;
    let e = dot_run(s, m);
    proof {
        lemma_dot_run(s@, m as int);
    }
    let ghost vm = seq_view(v@);
    push_dots(&mut v, e - m);
    assert(seq_view(v@) == dots(a - i).push(LocalPartTokenV::Word(w@)) + spec_local_part_rest(
        s@,
        j0 as int,
    ).1 + dots(e - m));
    Some((e, LocalPart(v)))
}

// ---------------------------------------------------------------- domain

/// `*("." atom)` after the first atom of a domain.
pub open spec fn spec_atoms_rest(s: Seq<u8>, i: int) -> (int, Seq<Seq<u8>>)
    decreases s.len() - i,
{
    match spec_byte(s, i, ascii::PERIOD) {
        Some(k) => match spec_atom(s, k) {
            Some((j, a)) => if i < j <= s.len() {
                let (e, r) = spec_atoms_rest(s, j);
                (e, seq![a] + r)
            } else {
                (i, seq![])
            },
            None => (i, seq![]),
        },
        None => (i, seq![]),
    }
}

/// `*([FWS] dtext)` inside a domain literal.
pub open spec fn spec_dtexts(s: Seq<u8>, i: int) -> (int, Seq<Seq<u8>>)
    decreases s.len() - i,
{
    let k = spec_opt_fws(s, i);
    match run1(s, k, ByteClass::Dtext) {
        Some(e) => if i < e <= s.len() && i <= k {
            let (m, r) = spec_dtexts(s, e);
            (m, seq![s.subrange(k, e)] + r)
        } else {
            (i, seq![])
        },
        None => (i, seq![]),
    }
}

/// `domain-literal = [CFWS] "[" *([FWS] dtext) [FWS] "]" [CFWS]`
pub open spec fn spec_domain_literal(s: Seq<u8>, i: int) -> Option<(int, Seq<Seq<u8>>)> {
    match spec_byte(s, spec_opt_cfws(s, i), ascii::LEFT_BRACKET) {
        Some(a) => {
            let (m, d) = spec_dtexts(s, a);
            let n = spec_opt_fws(s, m);
            match spec_byte(s, n, ascii::RIGHT_BRACKET) {
                Some(e) => Some((spec_opt_cfws(s, e), d)),
                None => None,
            }
        },
        None => None,
    }
}

/// Domain: `atom *("." atom) / domain-literal`, a superset of the RFC's
/// dot-atom / domain-literal / obs-domain.
pub open spec fn spec_domain(s: Seq<u8>, i: int) -> Option<(int, DomainV)> {
    match spec_atom(s, i) {
        Some((j, a)) => {
            let (e, r) = spec_atoms_rest(s, j);
            Some((e, DomainV::Atoms(seq![a] + r)))
        },
        None => match spec_domain_literal(s, i) {
            Some((e, d)) => Some((e, DomainV::Literal(d))),
            None => None,
        },
    }
}

fn domain_literal(s: &[u8], i: usize) -> (r: Option<(usize, Vec<Dtext>)>)
    ensures
        match r {
            Some((j, d)) => spec_domain_literal(s@, i as int) == Some((j as int, seq_view(d@))),
            None => spec_domain_literal(s@, i as int) is None,
        },
{
    let a = match byte(s, opt_cfws(s, i), ascii::LEFT_BRACKET) {
        Some(a) => a,
        None => {
            return None;
        },
    };
    let mut j = a;
    let mut acc: Vec<Dtext> = Vec::new();
    loop
        invariant
            a <= j,
            spec_dtexts(s@, a as int).0 == spec_dtexts(s@, j as int).0,
            spec_dtexts(s@, a as int).1 == seq_view(acc@) + spec_dtexts(s@, j as int).1,
        ensures
            spec_dtexts(s@, a as int) == (j as int, seq_view(acc@)),
        decreases s.len() - j,
    {
        let k = opt_fws(s, j);
        if k > s.len() {
            proof {
                assert(crate::text::run::run_end(s@, k as int, ByteClass::Dtext) == k);
            }
            assert(seq_view(acc@) + Seq::<Seq<u8>>::empty() =~= seq_view(acc@));
            break ;
        }
        match take_run1(s, k, ByteClass::Dtext) {
            Some(e) => {
                if j < e && e <= s.len() && j <= k {
                    let ghost a0 = seq_view(acc@);
                    acc.push(Dtext(ascii::sub_to_vec(s, k, e)));
                    assert(seq_view(acc@) =~= a0.push(s@.subrange(k as int, e as int)));
                    assert(a0 + (seq![s@.subrange(k as int, e as int)] + spec_dtexts(s@, e as int).1)
                        =~= seq_view(acc@) + spec_dtexts(s@, e as int).1);
                    j = e;
                } else {
                    assert(seq_view(acc@) + Seq::<Seq<u8>>::empty() =~= seq_view(acc@));
                    break ;
                }
            },
            None => {
                assert(seq_view(acc@) + Seq::<Seq<u8>>::empty() =~= seq_view(acc@));
                break ;
            },
        }
    }
    let n = opt_fws(s, j);
    match byte(s, n, ascii::RIGHT_BRACKET) {
        Some(e) => Some((opt_cfws(s, e), acc)),
        None => None,
    }
}

pub fn domain(s: &[u8], i: usize) -> (r: Option<(usize, Domain)>)
    ensures
        match r {
            Some((j, d)) => spec_domain(s@, i as int) == Some((j as int, d@)),
            None => spec_domain(s@, i as int) is None,
        },
{
    match atom(s, i) {
        Some((j0, a)) => {
            let mut acc: Vec<Atom> = Vec::new();
            acc.push(a);
            let ghost head = seq_view(acc@);
            assert(head =~= seq![acc@[0]@]);
            let mut j = j0;
            loop
                invariant
                    j0 <= j,
                    spec_atoms_rest(s@, j0 as int).0 == spec_atoms_rest(s@, j as int).0,
                    head + spec_atoms_rest(s@, j0 as int).1 == seq_view(acc@) + spec_atoms_rest(
                        s@,
                        j as int,
                    ).1,
                ensures
                    spec_atoms_rest(s@, j0 as int).0 == j,
                    head + spec_atoms_rest(s@, j0 as int).1 == seq_view(acc@),
                decreases s.len() - j,
            {
                match byte(s, j, ascii::PERIOD) {
                    Some(k) => match atom(s, k) {
                        Some((m, a2)) => {
                            if j < m && m <= s.len() {
                                let ghost a0 = seq_view(acc@);
                                acc.push(a2);
                                assert(seq_view(acc@) =~= a0.push(acc@.last()@));
                                assert(a0 + (seq![acc@.last()@] + spec_atoms_rest(s@, m as int).1)
                                    =~= seq_view(acc@) + spec_atoms_rest(s@, m as int).1);
                                j = m;
                            } else {
                                assert(seq_view(acc@) + Seq::<Seq<u8>>::empty() =~= seq_view(acc@));
                                break ;
                            }
                        },
                        None => {
                            assert(seq_view(acc@) + Seq::<Seq<u8>>::empty() =~= seq_view(acc@));
                            break ;
                        },
                    },
                    None => {
                        assert(seq_view(acc@) + Seq::<Seq<u8>>::empty() =~= seq_view(acc@));
                        break ;
                    },
                }
            }
            Some((j, Domain::Atoms(acc)))
        },
        None => match domain_literal(s, i) {
            Some((e, d)) => Some((e, Domain::Literal(d))),
            None => None,
        },
    }
}

// ---------------------------------------------------------------- addr-spec

/// `*("@" domain)`, skipped for compatibility with Enron emails.
pub open spec fn spec_extra_domains(s: Seq<u8>, i: int) -> int
    decreases s.len() - i,
{
    match spec_byte(s, i, ascii::AT) {
        Some(k) => match spec_domain(s, k) {
            Some((j, _)) => if i < j <= s.len() {
                spec_extra_domains(s, j)
            } else {
                i
            },
            None => i,
        },
        None => i,
    }
}

/// `addr-spec = local-part "@" domain`
pub open spec fn spec_addr_spec(s: Seq<u8>, i: int) -> Option<(int, AddrSpecV)> {
    match spec_local_part(s, i) {
        Some((j, l)) => match spec_byte(s, j, ascii::AT) {
            Some(k) => match spec_domain(s, k) {
                Some((m, d)) => Some((spec_extra_domains(s, m), AddrSpecV { local_part: l, domain: d })),
                None => None,
            },
            None => None,
        },
        None => None,
    }
}

pub fn addr_spec(s: &[u8], i: usize) -> (r: Option<(usize, AddrSpec)>)
    ensures
        match r {
            Some((j, a)) => spec_addr_spec(s@, i as int) == Some((j as int, a@)),
            None => spec_addr_spec(s@, i as int) is None,
        },
{
    let (j, l) = match local_part(s, i) {
        Some(x) => x,
        None => {
            return None;
        },
    };
    let k = match byte(s, j, ascii::AT) {
        Some(k) => k,
        None => {
            return None;
        },
    };
    let (m, d) = match domain(s, k) {
        Some(x) => x,
        None => {
            return None;
        },
    };
    let mut e = m;
    loop
        invariant
            m <= e,
            spec_extra_domains(s@, e as int) == spec_extra_domains(s@, m as int),
        ensures
            spec_extra_domains(s@, m as int) == e,
        decreases s.len() - e,
    {
        match byte(s, e, ascii::AT) {
            Some(k2) => match domain(s, k2) {
                Some((n, _)) => {
                    if e < n && n <= s.len() {
                        e = n;
                    } else {
                        break ;
                    }
                },
                None => {
                    break ;
                },
            },
            None => {
                break ;
            },
        }
    }
    Some((e, AddrSpec { local_part: l, domain: d }))
}

// ---------------------------------------------------------------- mailbox

/// An element of the obsolete domain list: `[CFWS] "@" domain`, or just
/// optional CFWS.
pub open spec fn spec_domain_list_elem(s: Seq<u8>, i: int) -> (int, Option<DomainV>) {
    match spec_byte(s, spec_opt_cfws(s, i), ascii::AT) {
        Some(k) => match spec_domain(s, k) {
            Some((j, d)) => (j, Some(d)),
            None => (spec_opt_cfws(s, i), None),
        },
        None => (spec_opt_cfws(s, i), None),
    }
}

pub open spec fn spec_domain_list_more(s: Seq<u8>, i: int) -> (int, Seq<Option<DomainV>>)
    decreases s.len() - i,
{
    match spec_byte(s, i, ascii::COMMA) {
        Some(k) => {
            let (j, d) = spec_domain_list_elem(s, k);
            if i < j <= s.len() {
                let (e, r) = spec_domain_list_more(s, j);
                (e, seq![d] + r)
            } else {
                (i, seq![])
            }
        },
        None => (i, seq![]),
    }
}

/// Domain list, a relaxed version of the obsolete syntax (it may contain no
/// real domain at all):
/// ```abnf
///    obs-domain-list =   *(CFWS / ",") "@" domain
///                        *("," [CFWS] ["@" domain])
/// ```
pub open spec fn spec_domain_list(s: Seq<u8>, i: int) -> (int, Seq<Option<DomainV>>) {
    let (j, d) = spec_domain_list_elem(s, spec_opt_cfws(s, i));
    let (e, r) = spec_domain_list_more(s, j);
    (e, seq![d] + r)
}

pub open spec fn opt_domain_view(d: Option<Domain>) -> Option<DomainV> {
    match d {
        Some(d) => Some(d@),
        None => None,
    }
}

fn domain_list_elem(s: &[u8], i: usize) -> (r: (usize, Option<Domain>))
    ensures
        spec_domain_list_elem(s@, i as int) == (r.0 as int, opt_domain_view(r.1)),
{
    let c = opt_cfws(s, i);
    match byte(s, c, ascii::AT) {
        Some(k) => match domain(s, k) {
            Some((j, d)) => (j, Some(d)),
            None => (c, None),
        },
        None => (c, None),
    }
}

#[verifier::rlimit(40)]
pub fn domain_list(s: &[u8], i: usize) -> (r: (usize, Vec<Option<Domain>>))
    ensures
        spec_domain_list(s@, i as int).0 == r.0 as int,
        spec_domain_list(s@, i as int).1 == r.1@.map_values(|d: Option<Domain>| opt_domain_view(d)),
{
    let (j0, d0) = domain_list_elem(s, opt_cfws(s, i));
    let mut acc: Vec<Option<Domain>> = Vec::new();
    acc.push(d0);
    let ghost head = acc@.map_values(|d: Option<Domain>| opt_domain_view(d));
    assert(head =~= seq![opt_domain_view(acc@[0])]);
    let mut j = j0;
    loop
        invariant
            j0 <= j,
            spec_domain_list_more(s@, j0 as int).0 == spec_domain_list_more(s@, j as int).0,
            head + spec_domain_list_more(s@, j0 as int).1 == acc@.map_values(
                |d: Option<Domain>| opt_domain_view(d),
            ) + spec_domain_list_more(s@, j as int).1,
        ensures
            spec_domain_list_more(s@, j0 as int).0 == j,
            head + spec_domain_list_more(s@, j0 as int).1 == acc@.map_values(
                |d: Option<Domain>| opt_domain_view(d),
            ),
        decreases s.len() - j,
    {
        let ghost a0 = acc@.map_values(|d: Option<Domain>| opt_domain_view(d));
        match byte(s, j, ascii::COMMA) {
            Some(k) => {
                let (m, d) = domain_list_elem(s, k);
                if j < m && m <= s.len() {
                    let ghost dv = opt_domain_view(d);
                    acc.push(d);
                    assert(acc@.map_values(|d: Option<Domain>| opt_domain_view(d)) =~= a0.push(dv));
                    assert(a0 + (seq![dv] + spec_domain_list_more(s@, m as int).1) =~= a0.push(dv)
                        + spec_domain_list_more(s@, m as int).1);
                    j = m;
                } else {
                    assert(a0 + Seq::<Option<DomainV>>::empty() =~= a0);
                    break ;
                }
            },
            None => {
                assert(a0 + Seq::<Option<DomainV>>::empty() =~= a0);
                break ;
            },
        }
    }
    (j, acc)
}

/// `obs-route = obs-domain-list ":"`
pub open spec fn spec_obs_route(s: Seq<u8>, i: int) -> Option<int> {
    spec_byte(s, spec_domain_list(s, i).0, ascii::COL)
}

/// ```abnf
/// angle-addr      =   [CFWS] "<" [obs-route] addr-spec ">" [CFWS]
/// ```
pub open spec fn spec_angle_addr(s: Seq<u8>, i: int) -> Option<(int, AddrSpecV)> {
    match spec_byte(s, spec_opt_cfws(s, i), ascii::LT) {
        Some(a) => {
            let b = or_pos(spec_obs_route(s, a), a);
            match spec_addr_spec(s, b) {
                Some((j, addr)) => match spec_byte(s, j, ascii::GT) {
                    Some(k) => Some((spec_opt_cfws(s, k), addr)),
                    None => None,
                },
                None => None,
            }
        },
        None => None,
    }
}

pub fn angle_addr(s: &[u8], i: usize) -> (r: Option<(usize, AddrSpec)>)
    ensures
        match r {
            Some((j, a)) => spec_angle_addr(s@, i as int) == Some((j as int, a@)),
            None => spec_angle_addr(s@, i as int) is None,
        },
{
    let a = match byte(s, opt_cfws(s, i), ascii::LT) {
        Some(a) => a,
        None => {
            return None;
        },
    };
    let (dl, _) = domain_list(s, a);
    let b = match byte(s, dl, ascii::COL) {
        Some(b) => b,
        None => a,
    };
    match addr_spec(s, b) {
        Some((j, addr)) => match byte(s, j, ascii::GT) {
            Some(k) => Some((opt_cfws(s, k), addr)),
            None => None,
        },
        None => None,
    }
}

/// `name-addr = [display-name] angle-addr`
pub open spec fn spec_name_addr(s: Seq<u8>, i: int) -> Option<(int, MailboxRefV)> {
    let (b, name) = match spec_phrase(s, i) {
        Some((j, p)) => (j, Some(p)),
        None => (i, None),
    };
    match spec_angle_addr(s, b) {
        Some((e, a)) => Some((e, MailboxRefV { addrspec: a, name })),
        None => None,
    }
}

/// `mailbox = name-addr / addr-spec`
pub open spec fn spec_mailbox(s: Seq<u8>, i: int) -> Option<(int, MailboxRefV)> {
    match spec_name_addr(s, i) {
        Some(r) => Some(r),
        None => match spec_addr_spec(s, i) {
            Some((e, a)) => Some((e, MailboxRefV { addrspec: a, name: None })),
            None => None,
        },
    }
}

fn name_addr(s: &[u8], i: usize) -> (r: Option<(usize, MailboxRef)>)
    ensures
        match r {
            Some((j, m)) => spec_name_addr(s@, i as int) == Some((j as int, m@)),
            None => spec_name_addr(s@, i as int) is None,
        },
{
    let (b, name) = match phrase(s, i) {
        Some((j, p)) => (j, Some(p)),
        None => (i, None),
    };
    match angle_addr(s, b) {
        Some((e, a)) => Some((e, MailboxRef { addrspec: a, name })),
        None => None,
    }
}

pub fn mailbox(s: &[u8], i: usize) -> (r: Option<(usize, MailboxRef)>)
    ensures
        match r {
            Some((j, m)) => spec_mailbox(s@, i as int) == Some((j as int, m@)),
            None => spec_mailbox(s@, i as int) is None,
        },
{
    match name_addr(s, i) {
        Some(r) => Some(r),
        None => match addr_spec(s, i) {
            Some((e, a)) => Some((e, MailboxRef { addrspec: a, name: None })),
            None => None,
        },
    }
}

/// An element of a mailbox list: a mailbox, or (obsolete syntax) only CFWS.
#[verifier::opaque]
pub open spec fn spec_mailbox_elem(s: Seq<u8>, i: int) -> (int, Seq<MailboxRefV>) {
    match spec_mailbox(s, i) {
        Some((j, m)) => (j, seq![m]),
        None => (spec_opt_cfws(s, i), seq![]),
    }
}

pub open spec fn spec_mailbox_more(s: Seq<u8>, i: int) -> (int, Seq<MailboxRefV>)
    decreases s.len() - i,
{
    match spec_byte(s, i, ascii::COMMA) {
        Some(k) => {
            let (j, m) = spec_mailbox_elem(s, k);
            if i < j <= s.len() {
                let (e, r) = spec_mailbox_more(s, j);
                (e, m + r)
            } else {
                (i, seq![])
            }
        },
        None => (i, seq![]),
    }
}

/// Mailbox list that may hold only "null" elements:
/// ```abnf
///    mailbox-list    =   (mailbox *("," mailbox)) / obs-mbox-list
///    obs-mbox-list   =   *([CFWS] ",") mailbox *("," [mailbox / CFWS])
/// ```
/// `None` when it holds no mailbox.
pub open spec fn spec_mailbox_list_nullable(s: Seq<u8>, i: int) -> (int, Option<Seq<MailboxRefV>>) {
    let (j, m) = spec_mailbox_elem(s, i);
    let (e, r) = spec_mailbox_more(s, j);
    if (m + r).len() > 0 {
        (e, Some(m + r))
    } else {
        (e, None)
    }
}

/// A mailbox list with at least one mailbox.
pub open spec fn spec_mailbox_list(s: Seq<u8>, i: int) -> Option<(int, Seq<MailboxRefV>)> {
    match spec_mailbox_list_nullable(s, i) {
        (e, Some(l)) => Some((e, l)),
        (_, None) => None,
    }
}

fn mailbox_elem(s: &[u8], i: usize) -> (r: (usize, Vec<MailboxRef>))
    ensures
        spec_mailbox_elem(s@, i as int) == (r.0 as int, seq_view(r.1@)),
{
    reveal(spec_mailbox_elem);
    let mut v: Vec<MailboxRef> = Vec::new();
    match mailbox(s, i) {
        Some((j, m)) => {
            v.push(m);
            assert(seq_view(v@) =~= seq![v@[0]@]);
            (j, v)
        },
        None => {
            assert(seq_view(v@) =~= Seq::<MailboxRefV>::empty());
            (opt_cfws(s, i), v)
        },
    }
}

pub fn mailbox_list_nullable(s: &[u8], i: usize) -> (r: (usize, Option<MailboxList>))
    ensures
        spec_mailbox_list_nullable(s@, i as int).0 == r.0 as int,
        match r.1 {
            Some(l) => spec_mailbox_list_nullable(s@, i as int).1 == Some(l@),
            None => spec_mailbox_list_nullable(s@, i as int).1 is None,
        },
{
    let (j0, first) = mailbox_elem(s, i);
    let mut acc = first;
    let ghost head = seq_view(acc@);
    let mut j = j0;
    loop
        invariant
            j0 <= j,
            spec_mailbox_more(s@, j0 as int).0 == spec_mailbox_more(s@, j as int).0,
            head + spec_mailbox_more(s@, j0 as int).1 == seq_view(acc@) + spec_mailbox_more(
                s@,
                j as int,
            ).1,
        ensures
            spec_mailbox_more(s@, j0 as int).0 == j,
            head + spec_mailbox_more(s@, j0 as int).1 == seq_view(acc@),
        decreases s.len() - j,
    {
        match byte(s, j, ascii::COMMA) {
            Some(k) => {
                let (m, v) = mailbox_elem(s, k);
                if j < m && m <= s.len() {
                    let ghost a0 = seq_view(acc@);
                    let ghost vv = seq_view(v@);
                    append_vec(&mut acc, v);
                    assert(a0 + (vv + spec_mailbox_more(s@, m as int).1) =~= (a0 + vv)
                        + spec_mailbox_more(s@, m as int).1);
                    j = m;
                } else {
                    assert(seq_view(acc@) + Seq::<MailboxRefV>::empty() =~= seq_view(acc@));
                    break ;
                }
            },
            None => {
                assert(seq_view(acc@) + Seq::<MailboxRefV>::empty() =~= seq_view(acc@));
                break ;
            },
        }
    }
    if acc.len() > 0 {
        (j, Some(MailboxList(acc)))
    } else {
        (j, None)
    }
}

pub fn mailbox_list(s: &[u8], i: usize) -> (r: Option<(usize, MailboxList)>)
    ensures
        match r {
            Some((j, l)) => spec_mailbox_list(s@, i as int) == Some((j as int, l@)),
            None => spec_mailbox_list(s@, i as int) is None,
        },
{
    match mailbox_list_nullable(s, i) {
        (e, Some(l)) => Some((e, l)),
        (_, None) => None,
    }
}


// ---------------------------------------------------------------- printing

/// The text a local part is printed as: its characters as they are when
/// they make a dot-atom, else quoted, so that the output is RFC 5322
/// syntax whatever syntax was parsed.
pub open spec fn local_part_out(t: Seq<LocalPartTokenV>) -> Seq<u8> {
    let c = local_part_text(t);
    if spec_dot_atom_text(c, 0) == Some(c.len() as int) {
        c
    } else {
        quoted_out(c)
    }
}

/// A local part is printed as `local_part_out` gives it; the text must be
/// free.
impl Print for LocalPart {
    open spec fn print_text(&self) -> Seq<u8> {
        local_part_out(self@)
    }

    open spec fn print_marks(&self) -> Seq<bool> {
        unmarked(local_part_out(self@).len())
    }

    open spec fn printable_after(&self, w: Seq<u8>) -> bool {
        free_text(local_part_out(self@))
    }

    #[verifier::spinoff_prover]
    fn print<F: Formatter>(&self, fmt: &mut F) {
        assert(self.printable_after(fmt.written()));
        assert(free_text(local_part_out(self@)));
        let c = self.chars();
        let ghost cs = local_part_text(self@);
        let r = dot_atom_text(c.as_slice(), 0);
        let is_dot_atom = match r {
            Some(e) => e == c.len(),
            None => false,
        };
        proof {
            assert(crate::text::whitespace::opt_int(r) == spec_dot_atom_text(cs, 0));
            if is_dot_atom {
                assert(spec_dot_atom_text(cs, 0) == Some(cs.len() as int));
                assert(local_part_out(self@) == cs);
            } else {
                assert(spec_dot_atom_text(cs, 0) != Some(cs.len() as int));
                assert(local_part_out(self@) == quoted_out(cs));
            }
        }
        if is_dot_atom {
            write_free(fmt, c.as_slice());
        } else {
            print_quoted(fmt, c.as_slice());
        }
        assert(self.print_text() == local_part_out(self@));
        assert(self.print_marks() == unmarked(local_part_out(self@).len()));
    }
}

/// Strict dtext, or `?` in place of none, is free text.
pub proof fn lemma_strict_dtext_free(s: Seq<u8>)
    ensures
        free_text(strict_dtext_of(s)),
{
    let pred = |b: u8| strict_dtext_cp(b as u32);
    let f = s.filter(pred);
    if f.len() > 0 {
        assert forall|k: int| 0 <= k < f.len() implies #[trigger] f[k] != ascii::CR && f[k] != ascii::LF
            && !ascii::is_wsp(f[k]) by {
            s.lemma_filter_pred(pred, k);
        }
        assert(f[f.len() - 1] != ascii::CR);
    }
}

/// Domain literal text is printed in its strict form (`strict_dtext_of`).
impl Print for Dtext {
    open spec fn print_text(&self) -> Seq<u8> {
        strict_dtext_of(self@)
    }

    open spec fn print_marks(&self) -> Seq<bool> {
        unmarked(strict_dtext_of(self@).len())
    }

    open spec fn printable_after(&self, w: Seq<u8>) -> bool {
        true
    }

    #[verifier::spinoff_prover]
    fn print<F: Formatter>(&self, fmt: &mut F) {
        let d = self.to_strict_best_effort();
        proof {
            lemma_strict_dtext_free(self@);
        }
        write_free(fmt, d.0.as_slice());
    }
}

/// A domain can be printed: atoms must be free text, and there must be one.
pub open spec fn domain_printable(d: Domain) -> bool {
    match d {
        Domain::Atoms(a) => a@.len() > 0 && forall|i: int| 0 <= i < a@.len() ==> free_text(#[trigger] a@[i]@),
        Domain::Literal(_) => true,
    }
}

proof fn lemma_dtexts_items(d: Seq<Dtext>)
    ensures
        free_items(d),
{
    assert forall|i: int| 0 <= i < d.len() implies free_text(#[trigger] d[i].print_text()) by {
        lemma_strict_dtext_free(d[i]@);
    }
}

/// A printable domain prints as free text.
pub proof fn lemma_domain_free(d: &Domain)
    requires
        domain_printable(*d),
    ensures
        free_text(d.print_text()),
{
    match d {
        Domain::Atoms(a) => {
            assert(free_items(a@));
            lemma_free_joined(a@, seq![ascii::PERIOD]);
        },
        Domain::Literal(l) => {
            lemma_dtexts_items(l@);
            if l@.len() > 0 {
                lemma_free_joined(l@, seq![ascii::SP]);
            }
            let j = joined_text(l@, seq![ascii::SP]);
            lemma_free_wrap(ascii::LEFT_BRACKET, j, ascii::RIGHT_BRACKET);
        },
    }
}

/// A domain is printed as dot-separated atoms, or as a bracketed literal
/// with folding whitespace between its parts.
impl Print for Domain {
    open spec fn print_text(&self) -> Seq<u8> {
        match self {
            Domain::Atoms(a) => joined_text(a@, seq![ascii::PERIOD]),
            Domain::Literal(d) => seq![ascii::LEFT_BRACKET] + joined_text(d@, seq![ascii::SP]) + seq![
                ascii::RIGHT_BRACKET,
            ],
        }
    }

    open spec fn print_marks(&self) -> Seq<bool> {
        match self {
            Domain::Atoms(a) => joined_marks(a@, seq![false]),
            Domain::Literal(d) => seq![false] + joined_marks(d@, seq![true]) + seq![false],
        }
    }

    open spec fn printable_after(&self, w: Seq<u8>) -> bool {
        domain_printable(*self)
    }

    #[verifier::spinoff_prover]
    fn print<F: Formatter>(&self, fmt: &mut F) {
        match self {
            Domain::Atoms(a) => {
                let sep = dot_sep();
                proof {
                    lemma_free_items(fmt.written(), a@, sep@);
                }
                print_seq(fmt, a.as_slice(), sep.as_slice());
            },
            Domain::Literal(d) => {
                let ghost w0 = fmt.written();
                let ghost m0 = fmt.fws_marks();
                let open: [u8; 1] = [ascii::LEFT_BRACKET];
                assert(open@ == seq![ascii::LEFT_BRACKET]);
                write_free(fmt, open.as_slice());
                let sep = fws_sep();
                proof {
                    lemma_dtexts_items(d@);
                    lemma_free_items(fmt.written(), d@, sep@);
                }
                print_seq(fmt, d.as_slice(), sep.as_slice());
                let close: [u8; 1] = [ascii::RIGHT_BRACKET];
                assert(close@ == seq![ascii::RIGHT_BRACKET]);
                write_free(fmt, close.as_slice());
                assert(fmt.written() =~= w0 + self.print_text());
                assert(fmt.fws_marks() =~= m0 + self.print_marks());
            },
        }
    }
}

/// An address can be printed: its local part prints as free text, and its
/// domain can be printed.
pub open spec fn addr_spec_printable(a: AddrSpec) -> bool {
    free_text(local_part_out(a.local_part@)) && domain_printable(a.domain)
}

/// A printable address prints as free text.
pub proof fn lemma_addr_spec_free(a: &AddrSpec)
    requires
        addr_spec_printable(*a),
    ensures
        free_text(a.print_text()),
{
    lemma_domain_free(&a.domain);
    lemma_free_join(local_part_out(a.local_part@), seq![ascii::AT], a.domain.print_text());
}

/// An address is printed as `local-part "@" domain`.
impl Print for AddrSpec {
    open spec fn print_text(&self) -> Seq<u8> {
        local_part_out(self.local_part@) + seq![ascii::AT] + self.domain.print_text()
    }

    open spec fn print_marks(&self) -> Seq<bool> {
        unmarked(local_part_out(self.local_part@).len()) + seq![false] + self.domain.print_marks()
    }

    open spec fn printable_after(&self, w: Seq<u8>) -> bool {
        addr_spec_printable(*self)
    }

    #[verifier::spinoff_prover]
    fn print<F: Formatter>(&self, fmt: &mut F) {
        let ghost w0 = fmt.written();
        let ghost m0 = fmt.fws_marks();
        self.local_part.print(fmt);
        let at: [u8; 1] = [ascii::AT];
        assert(at@ == seq![ascii::AT]);
        write_free(fmt, at.as_slice());
        self.domain.print(fmt);
        assert(fmt.written() =~= w0 + self.print_text());
        assert(fmt.fws_marks() =~= m0 + self.print_marks());
    }
}

/// A mailbox can be printed: its address can, and so can its name, if any.
pub open spec fn mailbox_printable(m: MailboxRef) -> bool {
    &&& addr_spec_printable(m.addrspec)
    &&& match m.name {
        Some(n) => phrase_printable(n@),
        None => true,
    }
}

/// A printable mailbox prints as free text.
pub proof fn lemma_mailbox_free(m: &MailboxRef)
    requires
        mailbox_printable(*m),
    ensures
        free_text(m.print_text()),
{
    lemma_addr_spec_free(&m.addrspec);
    match &m.name {
        Some(n) => {
            lemma_phrase_free(n);
            let a = m.addrspec.print_text();
            lemma_free_wrap(ascii::LT, a, ascii::GT);
            lemma_free_join(n.print_text(), seq![ascii::SP], seq![ascii::LT] + a + seq![ascii::GT]);
            assert(n.print_text() + seq![ascii::SP] + (seq![ascii::LT] + a + seq![ascii::GT])
                =~= m.print_text());
        },
        None => {},
    }
}

/// A mailbox is printed as its address, or as `name FWS "<" address ">"`.
impl Print for MailboxRef {
    open spec fn print_text(&self) -> Seq<u8> {
        match self.name {
            Some(n) => n.print_text() + seq![ascii::SP, ascii::LT] + self.addrspec.print_text()
                + seq![ascii::GT],
            None => self.addrspec.print_text(),
        }
    }

    open spec fn print_marks(&self) -> Seq<bool> {
        match self.name {
            Some(n) => n.print_marks() + seq![true, false] + self.addrspec.print_marks() + seq![false],
            None => self.addrspec.print_marks(),
        }
    }

    open spec fn printable_after(&self, w: Seq<u8>) -> bool {
        mailbox_printable(*self)
    }

    #[verifier::spinoff_prover]
    fn print<F: Formatter>(&self, fmt: &mut F) {
        match &self.name {
            Some(name) => {
                let ghost w0 = fmt.written();
                let ghost m0 = fmt.fws_marks();
                name.print(fmt);
                proof {
                    lemma_phrase_free(name);
                    lemma_free_allowed(w0, name.print_text());
                }
                fmt.write_fws();
                let lt: [u8; 1] = [ascii::LT];
                assert(lt@ == seq![ascii::LT]);
                write_free(fmt, lt.as_slice());
                self.addrspec.print(fmt);
                let gt: [u8; 1] = [ascii::GT];
                assert(gt@ == seq![ascii::GT]);
                write_free(fmt, gt.as_slice());
                assert(fmt.written() =~= w0 + self.print_text());
                assert(fmt.fws_marks() =~= m0 + self.print_marks());
            },
            None => self.addrspec.print(fmt),
        }
    }
}

/// Mailboxes can be printed as a list: each can be printed.
pub open spec fn mailboxes_printable(s: Seq<MailboxRef>) -> bool {
    forall|i: int| 0 <= i < s.len() ==> mailbox_printable(#[trigger] s[i])
}

/// Printable mailboxes print as free text.
pub proof fn lemma_mailboxes_items(s: Seq<MailboxRef>)
    requires
        mailboxes_printable(s),
    ensures
        free_items(s),
{
    assert forall|i: int| 0 <= i < s.len() implies free_text(#[trigger] s[i].print_text()) by {
        lemma_mailbox_free(&s[i]);
    }
}

/// A mailbox list is printed with `"," FWS` between mailboxes.
impl Print for MailboxList {
    open spec fn print_text(&self) -> Seq<u8> {
        joined_text(self.0@, seq![ascii::COMMA, ascii::SP])
    }

    open spec fn print_marks(&self) -> Seq<bool> {
        joined_marks(self.0@, seq![false, true])
    }

    open spec fn printable_after(&self, w: Seq<u8>) -> bool {
        self.0@.len() > 0 && mailboxes_printable(self.0@)
    }

    #[verifier::spinoff_prover]
    #[verifier::rlimit(40)]
    fn print<F: Formatter>(&self, fmt: &mut F) {
        let sep = comma_fws_sep();
        proof {
            lemma_mailbox_list_printable(fmt.written(), self.0@, sep@);
        }
        print_seq(fmt, self.0.as_slice(), sep.as_slice());
    }
}

proof fn lemma_mailbox_list_printable(w: Seq<u8>, s: Seq<MailboxRef>, sep: Seq<FoldStep>)
    requires
        mailboxes_printable(s),
        free_sep(sep),
    ensures
        seq_printable_after(w, s, sep),
{
    lemma_mailboxes_items(s);
    lemma_free_items(w, s, sep);
}

} // verus!
