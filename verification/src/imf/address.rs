//! Addresses and groups (RFC 5322 section 3.4).
use vstd::prelude::*;
use crate::dup::{Duplicate, seq_view, append_vec};
use crate::imf::mailbox::{MailboxRef, MailboxRefV, MailboxList, spec_mailbox, mailbox, spec_mailbox_list_nullable, mailbox_list_nullable};
use crate::text::ascii;
use crate::imf::mailbox::{mailbox_printable, mailboxes_printable, lemma_mailbox_free, lemma_mailboxes_items};
use crate::text::misc_token::{phrase_printable, lemma_phrase_free};
use crate::print::{
    Formatter, Print, FoldStep, free_text, free_sep, seq_printable_after, joined_text, joined_marks,
    lemma_free_items, lemma_free_join, lemma_free_joined, print_seq, comma_fws_sep, write_free,
};
use crate::text::misc_token::{Phrase, WordV, spec_phrase, phrase};
use crate::text::tag::{spec_byte, byte};
use crate::text::whitespace::{spec_cfws, cfws, spec_opt_cfws, opt_cfws};

verus! {

/// A named group of mailboxes.
#[derive(Debug, PartialEq, Eq)]
pub struct GroupRef {
    pub name: Phrase,
    pub participants: Option<MailboxList>,
}

pub struct GroupRefV {
    pub name: Seq<WordV>,
    pub participants: Option<Seq<MailboxRefV>>,
}

pub open spec fn opt_mailbox_list_view(l: Option<MailboxList>) -> Option<Seq<MailboxRefV>> {
    match l {
        Some(l) => Some(l@),
        None => None,
    }
}

impl View for GroupRef {
    type V = GroupRefV;

    open spec fn view(&self) -> GroupRefV {
        GroupRefV { name: self.name@, participants: opt_mailbox_list_view(self.participants) }
    }
}

impl Duplicate for GroupRef {
    fn duplicate(&self) -> (r: GroupRef) {
        GroupRef {
            name: self.name.duplicate(),
            participants: match &self.participants {
                Some(l) => Some(l.duplicate()),
                None => None,
            },
        }
    }
}

/// An address: a single mailbox or a group.
#[derive(Debug, PartialEq, Eq)]
pub enum AddressRef {
    Single(MailboxRef),
    Many(GroupRef),
}

pub enum AddressRefV {
    Single(MailboxRefV),
    Many(GroupRefV),
}

impl View for AddressRef {
    type V = AddressRefV;

    open spec fn view(&self) -> AddressRefV {
        match self {
            AddressRef::Single(m) => AddressRefV::Single(m@),
            AddressRef::Many(g) => AddressRefV::Many(g@),
        }
    }
}

impl Duplicate for AddressRef {
    fn duplicate(&self) -> (r: AddressRef) {
        match self {
            AddressRef::Single(m) => AddressRef::Single(m.duplicate()),
            AddressRef::Many(g) => AddressRef::Many(g.duplicate()),
        }
    }
}

impl AddressRef {
    /// A single mailbox as an address.
    pub fn from_mailbox(m: MailboxRef) -> (r: AddressRef)
        ensures
            r@ == AddressRefV::Single(m@),
    {
        AddressRef::Single(m)
    }

    /// A group as an address.
    pub fn from_group(g: GroupRef) -> (r: AddressRef)
        ensures
            r@ == AddressRefV::Many(g@),
    {
        AddressRef::Many(g)
    }
}

/// Group:
/// ```abnf
///    group           =   display-name ":" [group-list] ";" [CFWS]
///    display-name    =   phrase
///    group-list      =   mailbox-list / CFWS / obs-group-list
///    obs-group-list  =   1*([CFWS] ",") [CFWS]
/// ```
pub open spec fn spec_group(s: Seq<u8>, i: int) -> Option<(int, GroupRefV)> {
    match spec_phrase(s, i) {
        Some((a, name)) => match spec_byte(s, a, ascii::COL) {
            Some(b) => {
                let (c, l) = spec_mailbox_list_nullable(s, b);
                match spec_byte(s, c, ascii::SEM_COL) {
                    Some(d) => Some((spec_opt_cfws(s, d), GroupRefV { name, participants: l })),
                    None => None,
                }
            },
            None => None,
        },
        None => None,
    }
}

pub fn group(s: &[u8], i: usize) -> (r: Option<(usize, GroupRef)>)
    ensures
        match r {
            Some((j, g)) => spec_group(s@, i as int) == Some((j as int, g@)),
            None => spec_group(s@, i as int) is None,
        },
{
    let (a, name) = match phrase(s, i) {
        Some(p) => p,
        None => return None,
    };
    let b = match byte(s, a, ascii::COL) {
        Some(b) => b,
        None => return None,
    };
    let (c, participants) = mailbox_list_nullable(s, b);
    let d = match byte(s, c, ascii::SEM_COL) {
        Some(d) => d,
        None => return None,
    };
    let g = GroupRef { name, participants };
    assert(g@.participants == spec_mailbox_list_nullable(s@, b as int).1);
    Some((opt_cfws(s, d), g))
}

/// `address = mailbox / group`
pub open spec fn spec_address(s: Seq<u8>, i: int) -> Option<(int, AddressRefV)> {
    match spec_mailbox(s, i) {
        Some((j, m)) => Some((j, AddressRefV::Single(m))),
        None => match spec_group(s, i) {
            Some((j, g)) => Some((j, AddressRefV::Many(g))),
            None => None,
        },
    }
}

pub fn address(s: &[u8], i: usize) -> (r: Option<(usize, AddressRef)>)
    ensures
        match r {
            Some((j, a)) => spec_address(s@, i as int) == Some((j as int, a@)),
            None => spec_address(s@, i as int) is None,
        },
{
    match mailbox(s, i) {
        Some((j, m)) => Some((j, AddressRef::from_mailbox(m))),
        None => match group(s, i) {
            Some((j, g)) => Some((j, AddressRef::from_group(g))),
            None => None,
        },
    }
}

/// An element of an address list: an address, or (obsolete syntax) only CFWS.
#[verifier::opaque]
pub open spec fn spec_address_elem(s: Seq<u8>, i: int) -> (int, Seq<AddressRefV>) {
    match spec_address(s, i) {
        Some((j, a)) => (j, seq![a]),
        None => (spec_opt_cfws(s, i), seq![]),
    }
}

pub open spec fn spec_address_more(s: Seq<u8>, i: int) -> (int, Seq<AddressRefV>)
    decreases s.len() - i,
{
    match spec_byte(s, i, ascii::COMMA) {
        Some(k) => {
            let (j, a) = spec_address_elem(s, k);
            if i < j <= s.len() {
                let (e, r) = spec_address_more(s, j);
                (e, a + r)
            } else {
                (i, seq![])
            }
        },
        None => (i, seq![]),
    }
}

/// The addresses of a list and where it ends, null elements left out.
pub open spec fn spec_address_items(s: Seq<u8>, i: int) -> (int, Seq<AddressRefV>) {
    let (j, a) = spec_address_elem(s, i);
    let (e, r) = spec_address_more(s, j);
    (e, a + r)
}

/// Address list:
/// ```abnf
///   address-list    =   (address *("," address)) / obs-addr-list
///   obs-addr-list   =   *([CFWS] ",") address *("," [address / CFWS])
/// ```
/// `None` when the list holds no address.
pub open spec fn spec_address_list(s: Seq<u8>, i: int) -> Option<(int, Seq<AddressRefV>)> {
    let (e, l) = spec_address_items(s, i);
    if l.len() > 0 {
        Some((e, l))
    } else {
        None
    }
}

fn address_elem(s: &[u8], i: usize) -> (r: (usize, Vec<AddressRef>))
    ensures
        spec_address_elem(s@, i as int) == (r.0 as int, seq_view(r.1@)),
{
    reveal(spec_address_elem);
    let mut v: Vec<AddressRef> = Vec::new();
    match address(s, i) {
        Some((j, a)) => {
            v.push(a);
            assert(seq_view(v@) =~= seq![v@[0]@]);
            (j, v)
        },
        None => {
            assert(seq_view(v@) =~= Seq::<AddressRefV>::empty());
            (opt_cfws(s, i), v)
        },
    }
}

pub fn address_list(s: &[u8], i: usize) -> (r: Option<(usize, Vec<AddressRef>)>)
    ensures
        match r {
            Some((j, l)) => spec_address_list(s@, i as int) == Some((j as int, seq_view(l@))),
            None => spec_address_list(s@, i as int) is None,
        },
{
    let (j0, first) = address_elem(s, i);
    let mut acc = first;
    let ghost head = seq_view(acc@);
    let mut j = j0;
    loop
        invariant
            j0 <= j,
            spec_address_more(s@, j0 as int).0 == spec_address_more(s@, j as int).0,
            head + spec_address_more(s@, j0 as int).1 == seq_view(acc@) + spec_address_more(
                s@,
                j as int,
            ).1,
        ensures
            spec_address_more(s@, j0 as int).0 == j,
            head + spec_address_more(s@, j0 as int).1 == seq_view(acc@),
        decreases s.len() - j,
    {
        match byte(s, j, ascii::COMMA) {
            Some(k) => {
                let (m, v) = address_elem(s, k);
                if j < m && m <= s.len() {
                    let ghost a0 = seq_view(acc@);
                    let ghost vv = seq_view(v@);
                    append_vec(&mut acc, v);
                    assert(a0 + (vv + spec_address_more(s@, m as int).1) =~= (a0 + vv)
                        + spec_address_more(s@, m as int).1);
                    j = m;
                } else {
                    assert(seq_view(acc@) + Seq::<AddressRefV>::empty() =~= seq_view(acc@));
                    break ;
                }
            },
            None => {
                assert(seq_view(acc@) + Seq::<AddressRefV>::empty() =~= seq_view(acc@));
                break ;
            },
        }
    }
    if acc.len() > 0 {
        Some((j, acc))
    } else {
        None
    }
}

/// An address list made of CFWS only: no address.
pub fn address_list_cfws(s: &[u8], i: usize) -> (r: Option<(usize, Vec<AddressRef>)>)
    ensures
        match r {
            Some((j, l)) => spec_cfws(s@, i as int) == Some(j as int) && l@.len() == 0,
            None => spec_cfws(s@, i as int) is None,
        },
{
    match cfws(s, i) {
        Some(j) => Some((j, Vec::new())),
        None => None,
    }
}

/// An address list that may be empty or made of CFWS only.
pub open spec fn spec_nullable_address_list(s: Seq<u8>, i: int) -> (int, Seq<AddressRefV>) {
    match spec_address_list(s, i) {
        Some((j, l)) => (j, l),
        None => match spec_cfws(s, i) {
            Some(j) => (j, seq![]),
            None => (i, seq![]),
        },
    }
}

pub fn nullable_address_list(s: &[u8], i: usize) -> (r: (usize, Vec<AddressRef>))
    ensures
        spec_nullable_address_list(s@, i as int) == (r.0 as int, seq_view(r.1@)),
{
    match address_list(s, i) {
        Some(r) => r,
        None => match address_list_cfws(s, i) {
            Some((j, l)) => {
                assert(seq_view(l@) =~= Seq::<AddressRefV>::empty());
                (j, l)
            },
            None => {
                let l: Vec<AddressRef> = Vec::new();
                assert(seq_view(l@) =~= Seq::<AddressRefV>::empty());
                (i, l)
            },
        },
    }
}


// ---------------------------------------------------------------- printing

/// A group can be printed: its name can, and its mailboxes, if any, can be
/// printed as a list.
pub open spec fn group_printable(g: GroupRef) -> bool {
    &&& phrase_printable(g.name@)
    &&& match g.participants {
        Some(l) => l.0@.len() > 0 && mailboxes_printable(l.0@),
        None => true,
    }
}

/// A printable group prints as free text.
pub proof fn lemma_group_free(g: &GroupRef)
    requires
        group_printable(*g),
    ensures
        free_text(g.print_text()),
{
    lemma_phrase_free(&g.name);
    let n = g.name.print_text();
    match &g.participants {
        Some(l) => {
            lemma_mailboxes_items(l.0@);
            lemma_free_joined(l.0@, seq![ascii::COMMA, ascii::SP]);
            lemma_free_join(n, seq![ascii::COL], l.print_text());
            lemma_free_join(n + seq![ascii::COL] + l.print_text(), seq![], seq![ascii::SEM_COL]);
            assert(n + seq![ascii::COL] + l.print_text() + seq![] + seq![ascii::SEM_COL] =~= g.print_text());
        },
        None => {
            lemma_free_join(n, seq![ascii::COL], seq![ascii::SEM_COL]);
            assert(n + seq![ascii::COL] + seq![ascii::SEM_COL] =~= g.print_text());
        },
    }
}

/// A group is printed as `name ":" [mailbox-list] ";"`.
impl Print for GroupRef {
    open spec fn print_text(&self) -> Seq<u8> {
        self.name.print_text() + seq![ascii::COL] + match self.participants {
            Some(l) => l.print_text(),
            None => seq![],
        } + seq![ascii::SEM_COL]
    }

    open spec fn print_marks(&self) -> Seq<bool> {
        self.name.print_marks() + seq![false] + match self.participants {
            Some(l) => l.print_marks(),
            None => seq![],
        } + seq![false]
    }

    open spec fn printable_after(&self, w: Seq<u8>) -> bool {
        group_printable(*self)
    }

    #[verifier::spinoff_prover]
    fn print<F: Formatter>(&self, fmt: &mut F) {
        let ghost w0 = fmt.written();
        let ghost m0 = fmt.fws_marks();
        self.name.print(fmt);
        let col: [u8; 1] = [ascii::COL];
        assert(col@ == seq![ascii::COL]);
        write_free(fmt, col.as_slice());
        if let Some(l) = &self.participants {
            l.print(fmt);
        }
        let sem: [u8; 1] = [ascii::SEM_COL];
        assert(sem@ == seq![ascii::SEM_COL]);
        write_free(fmt, sem.as_slice());
        assert(fmt.written() =~= w0 + self.print_text());
        assert(fmt.fws_marks() =~= m0 + self.print_marks());
    }
}

/// An address can be printed when its mailbox or group can.
pub open spec fn address_printable(a: AddressRef) -> bool {
    match a {
        AddressRef::Single(m) => mailbox_printable(m),
        AddressRef::Many(g) => group_printable(g),
    }
}

/// An address is printed as its mailbox or its group.
impl Print for AddressRef {
    open spec fn print_text(&self) -> Seq<u8> {
        match self {
            AddressRef::Single(m) => m.print_text(),
            AddressRef::Many(g) => g.print_text(),
        }
    }

    open spec fn print_marks(&self) -> Seq<bool> {
        match self {
            AddressRef::Single(m) => m.print_marks(),
            AddressRef::Many(g) => g.print_marks(),
        }
    }

    open spec fn printable_after(&self, w: Seq<u8>) -> bool {
        address_printable(*self)
    }

    #[verifier::spinoff_prover]
    fn print<F: Formatter>(&self, fmt: &mut F) {
        match self {
            AddressRef::Single(m) => m.print(fmt),
            AddressRef::Many(g) => g.print(fmt),
        }
    }
}

/// Addresses that can be printed as a list: there is one, and each can be
/// printed.
pub open spec fn addresses_printable(s: Seq<AddressRef>) -> bool {
    s.len() > 0 && forall|i: int| 0 <= i < s.len() ==> address_printable(#[trigger] s[i])
}

proof fn lemma_address_list_printable(w: Seq<u8>, s: Seq<AddressRef>, sep: Seq<FoldStep>)
    requires
        addresses_printable(s),
        free_sep(sep),
    ensures
        seq_printable_after(w, s, sep),
{
    assert forall|i: int| 0 <= i < s.len() implies free_text(#[trigger] s[i].print_text()) by {
        match s[i] {
            AddressRef::Single(m) => lemma_mailbox_free(&m),
            AddressRef::Many(g) => lemma_group_free(&g),
        }
    }
    lemma_free_items(w, s, sep);
}

/// An address list is printed with `"," FWS` between addresses.
impl Print for Vec<AddressRef> {
    open spec fn print_text(&self) -> Seq<u8> {
        joined_text(self@, seq![ascii::COMMA, ascii::SP])
    }

    open spec fn print_marks(&self) -> Seq<bool> {
        joined_marks(self@, seq![false, true])
    }

    open spec fn printable_after(&self, w: Seq<u8>) -> bool {
        addresses_printable(self@)
    }

    #[verifier::spinoff_prover]
    fn print<F: Formatter>(&self, fmt: &mut F) {
        let sep = comma_fws_sep();
        proof {
            lemma_address_list_printable(fmt.written(), self@, sep@);
        }
        print_seq(fmt, self.as_slice(), sep.as_slice());
    }
}

} // verus!
