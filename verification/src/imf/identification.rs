//! Message identifiers (RFC 5322 section 3.6.4), leniently parsed.
use vstd::prelude::*;
use crate::dup::{Duplicate, seq_view};
use crate::imf::mailbox::{
    LocalPart, LocalPartTokenV, Domain, DomainV, spec_local_part, local_part, spec_domain, domain,
};
use crate::text::ascii;
use crate::imf::mailbox::{local_part_out, domain_printable, lemma_domain_free};
use crate::print::{
    Formatter, Print, FoldStep, free_text, free_sep, no_crlf, seq_printable_after, joined_text,
    joined_marks, lemma_free_items, lemma_free_join, lemma_free_wrap, print_seq, fws_sep, unmarked,
    write_free,
};
use crate::text::recovery::{
    spec_take_quoted_or_until, take_quoted_or_until, spec_take_quoted_or_until1,
    take_quoted_or_until1,
};
use crate::text::run::{ByteClass, run1, run1_at};
use crate::text::tag::{spec_byte, byte};
use crate::text::whitespace::{spec_cfws, cfws, spec_opt_cfws, opt_cfws};

verus! {

/// A message identifier. It is not strictly RFC-compliant: printing it may
/// use obsolete or non-compliant syntax.
#[derive(Debug, PartialEq, Eq)]
pub enum MessageID {
    /// The compliant (but possibly obsolete) syntax.
    ObsLeftRight { left: LocalPart, right: Domain },
    /// A non-compliant sequence of characters (non-empty, of
    /// `is_invalid_msgid_text`).
    Invalid(Vec<u8>),
}

pub enum MessageIDV {
    ObsLeftRight { left: Seq<LocalPartTokenV>, right: DomainV },
    Invalid(Seq<u8>),
}

impl View for MessageID {
    type V = MessageIDV;

    open spec fn view(&self) -> MessageIDV {
        match self {
            MessageID::ObsLeftRight { left, right } => MessageIDV::ObsLeftRight {
                left: left@,
                right: right@,
            },
            MessageID::Invalid(t) => MessageIDV::Invalid(t@),
        }
    }
}

impl Duplicate for MessageID {
    fn duplicate(&self) -> (r: MessageID) {
        match self {
            MessageID::ObsLeftRight { left, right } => MessageID::ObsLeftRight {
                left: left.duplicate(),
                right: right.duplicate(),
            },
            MessageID::Invalid(t) => MessageID::Invalid(t.duplicate()),
        }
    }
}

/// What must follow a bare message identifier.
#[derive(Debug, Clone, Copy, PartialEq, Eq, Structural)]
pub enum MsgIdEnd {
    /// The end of the input.
    Eof,
    /// `">" [CFWS]`
    Angle,
}

pub open spec fn spec_msg_id_end(s: Seq<u8>, i: int, t: MsgIdEnd) -> Option<int> {
    match t {
        MsgIdEnd::Eof => if i == s.len() {
            Some(i)
        } else {
            None
        },
        MsgIdEnd::Angle => match spec_byte(s, i, ascii::GT) {
            Some(j) => Some(spec_opt_cfws(s, j)),
            None => None,
        },
    }
}

fn msg_id_end(s: &[u8], i: usize, t: MsgIdEnd) -> (r: Option<usize>)
    ensures
        crate::text::whitespace::opt_int(r) == spec_msg_id_end(s@, i as int, t),
{
    match t {
        MsgIdEnd::Eof => if i == s.len() {
            Some(i)
        } else {
            None
        },
        MsgIdEnd::Angle => match byte(s, i, ascii::GT) {
            Some(j) => Some(opt_cfws(s, j)),
            None => None,
        },
    }
}

/// `id-left "@" id-right` then the end marker, where
/// `id-left = local-part` and `id-right = domain` (obsolete supersets).
pub open spec fn spec_msg_id_left_right(s: Seq<u8>, i: int, t: MsgIdEnd) -> Option<
    (int, MessageIDV),
> {
    match spec_local_part(s, i) {
        Some((a, left)) => match spec_byte(s, a, ascii::AT) {
            Some(b) => match spec_domain(s, b) {
                Some((c, right)) => match spec_msg_id_end(s, c, t) {
                    Some(e) => Some((e, MessageIDV::ObsLeftRight { left, right })),
                    None => None,
                },
                None => None,
            },
            None => None,
        },
        None => None,
    }
}

/// `[CFWS] 1*invalid-msgid-text [CFWS]` then the end marker.
pub open spec fn spec_msg_id_invalid(s: Seq<u8>, i: int, t: MsgIdEnd) -> Option<(int, MessageIDV)> {
    let a = spec_opt_cfws(s, i);
    match run1(s, a, ByteClass::InvalidMsgId) {
        Some(b) => match spec_msg_id_end(s, spec_opt_cfws(s, b), t) {
            Some(e) => Some((e, MessageIDV::Invalid(s.subrange(a, b)))),
            None => None,
        },
        None => None,
    }
}

/// A message identifier without its angle brackets, followed by `t`:
/// ```abnf
///    our-msg-id-bare   = id-left "@" id-right / 1*(not <>")
/// ```
pub open spec fn spec_msg_id_bare(s: Seq<u8>, i: int, t: MsgIdEnd) -> Option<(int, MessageIDV)> {
    match spec_msg_id_left_right(s, i, t) {
        Some(r) => Some(r),
        None => spec_msg_id_invalid(s, i, t),
    }
}

pub fn msg_id_bare(s: &[u8], i: usize, t: MsgIdEnd) -> (r: Option<(usize, MessageID)>)
    ensures
        match r {
            Some((j, m)) => spec_msg_id_bare(s@, i as int, t) == Some((j as int, m@)),
            None => spec_msg_id_bare(s@, i as int, t) is None,
        },
{
    if let Some((a, left)) = local_part(s, i) {
        if let Some(b) = byte(s, a, ascii::AT) {
            if let Some((c, right)) = domain(s, b) {
                if let Some(e) = msg_id_end(s, c, t) {
                    return Some((e, MessageID::ObsLeftRight { left, right }));
                }
            }
        }
    }
    let a = opt_cfws(s, i);
    match run1_at(s, a, ByteClass::InvalidMsgId) {
        Some(b) => match msg_id_end(s, opt_cfws(s, b), t) {
            Some(e) => Some((e, MessageID::Invalid(ascii::sub_to_vec(s, a, b)))),
            None => None,
        },
        None => None,
    }
}

/// `our-msg-id-angle = [CFWS] "<" our-msg-id-bare ">" [CFWS]`
pub open spec fn spec_msg_id_angle(s: Seq<u8>, i: int) -> Option<(int, MessageIDV)> {
    match spec_byte(s, spec_opt_cfws(s, i), ascii::LT) {
        Some(a) => spec_msg_id_bare(s, a, MsgIdEnd::Angle),
        None => None,
    }
}

pub fn msg_id_angle(s: &[u8], i: usize) -> (r: Option<(usize, MessageID)>)
    ensures
        match r {
            Some((j, m)) => spec_msg_id_angle(s@, i as int) == Some((j as int, m@)),
            None => spec_msg_id_angle(s@, i as int) is None,
        },
{
    match byte(s, opt_cfws(s, i), ascii::LT) {
        Some(a) => msg_id_bare(s, a, MsgIdEnd::Angle),
        None => None,
    }
}

/// Message identifier:
/// ```abnf
///    msg-id          =   [CFWS] "<" id-left "@" id-right ">" [CFWS]
/// ```
/// Also accepted, as found in the real world: anything but `<>"` in place
/// of `id-left "@" id-right`, and (up to the end of the input) an identifier
/// without angle brackets.
pub open spec fn spec_msg_id(s: Seq<u8>, i: int) -> Option<(int, MessageIDV)> {
    match spec_msg_id_angle(s, i) {
        Some(r) => Some(r),
        None => spec_msg_id_bare(s, i, MsgIdEnd::Eof),
    }
}

pub fn msg_id(s: &[u8], i: usize) -> (r: Option<(usize, MessageID)>)
    ensures
        match r {
            Some((j, m)) => spec_msg_id(s@, i as int) == Some((j as int, m@)),
            None => spec_msg_id(s@, i as int) is None,
        },
{
    match msg_id_angle(s, i) {
        Some(r) => Some(r),
        None => msg_id_bare(s, i, MsgIdEnd::Eof),
    }
}

/// End of a broken identifier that starts with `<` at `i`: up to the next `>`
/// outside quotes, included when present.
pub open spec fn spec_broken_msg_id(s: Seq<u8>, i: int) -> Option<int> {
    match spec_byte(s, i, ascii::LT) {
        Some(a) => {
            let b = spec_take_quoted_or_until(s, a, ascii::GT);
            match spec_byte(s, b, ascii::GT) {
                Some(c) => Some(c),
                None => Some(b),
            }
        },
        None => None,
    }
}

/// One step of a message identifier list: where it ends, and the identifier
/// it read, if any. The alternatives, in order: a message identifier; a
/// broken identifier skipped up to the next `>`; CFWS; junk skipped up to
/// the next `<`.
pub open spec fn spec_msg_list_step(s: Seq<u8>, i: int) -> Option<(int, Option<MessageIDV>)> {
    match spec_msg_id_angle(s, i) {
        Some((j, m)) => Some((j, Some(m))),
        None => match spec_broken_msg_id(s, i) {
            Some(j) => Some((j, None)),
            None => match spec_cfws(s, i) {
                Some(j) => Some((j, None)),
                None => match spec_take_quoted_or_until1(s, i, ascii::LT) {
                    Some(j) => Some((j, None)),
                    None => None,
                },
            },
        },
    }
}

/// The identifiers of a list starting at `i`, and where the list ends.
pub open spec fn spec_msg_list_items(s: Seq<u8>, i: int) -> (int, Seq<MessageIDV>)
    decreases s.len() - i,
{
    match spec_msg_list_step(s, i) {
        Some((j, m)) => if i < j <= s.len() {
            let (e, r) = spec_msg_list_items(s, j);
            match m {
                Some(m) => (e, seq![m] + r),
                None => (e, r),
            }
        } else {
            (i, seq![])
        },
        None => (i, seq![]),
    }
}

fn broken_msg_id(s: &[u8], i: usize) -> (r: Option<usize>)
    ensures
        crate::text::whitespace::opt_int(r) == spec_broken_msg_id(s@, i as int),
{
    match byte(s, i, ascii::LT) {
        Some(a) => {
            let b = take_quoted_or_until(s, a, ascii::GT);
            match byte(s, b, ascii::GT) {
                Some(c) => Some(c),
                None => Some(b),
            }
        },
        None => None,
    }
}

fn msg_list_step(s: &[u8], i: usize) -> (r: Option<(usize, Option<MessageID>)>)
    ensures
        match r {
            Some((j, Some(m))) => spec_msg_list_step(s@, i as int) == Some(
                (j as int, Some(m@)),
            ),
            Some((j, None)) => spec_msg_list_step(s@, i as int) == Some(
                (j as int, None::<MessageIDV>),
            ),
            None => spec_msg_list_step(s@, i as int) is None,
        },
{
    match msg_id_angle(s, i) {
        Some((j, m)) => Some((j, Some(m))),
        None => match broken_msg_id(s, i) {
            Some(j) => Some((j, None)),
            None => match cfws(s, i) {
                Some(j) => Some((j, None)),
                None => match take_quoted_or_until1(s, i, ascii::LT) {
                    Some(j) => Some((j, None)),
                    None => None,
                },
            },
        },
    }
}

/// A *very* lenient parser for lists of message identifiers as used by
/// In-Reply-To and References:
/// ```abnf
///       in-reply-to    =    1*msg-id
///   obs-in-reply-to    =    *(phrase / msg-id)
/// ```
/// Everything between identifiers is skipped (quoted strings as a whole,
/// then any byte up to the next `<`); after a `<` that does not start a valid
/// identifier, everything up to the next `>` is skipped.
pub fn nullable_msg_list(s: &[u8], i: usize) -> (r: (usize, Vec<MessageID>))
    ensures
        spec_msg_list_items(s@, i as int) == (r.0 as int, seq_view(r.1@)),
{
    let mut j = i;
    let mut acc: Vec<MessageID> = Vec::new();
    loop
        invariant
            spec_msg_list_items(s@, i as int).0 == spec_msg_list_items(s@, j as int).0,
            spec_msg_list_items(s@, i as int).1 == seq_view(acc@) + spec_msg_list_items(
                s@,
                j as int,
            ).1,
        ensures
            spec_msg_list_items(s@, i as int) == (j as int, seq_view(acc@)),
        decreases s.len() - j,
    {
        let ghost a0 = seq_view(acc@);
        match msg_list_step(s, j) {
            Some((k, m)) => {
                if j < k && k <= s.len() {
                    match m {
                        Some(m) => {
                            acc.push(m);
                            assert(seq_view(acc@) =~= a0.push(acc@.last()@));
                            assert(a0 + (seq![acc@.last()@] + spec_msg_list_items(s@, k as int).1)
                                =~= seq_view(acc@) + spec_msg_list_items(s@, k as int).1);
                        },
                        None => {},
                    }
                    j = k;
                } else {
                    assert(a0 + Seq::<MessageIDV>::empty() =~= a0);
                    break ;
                }
            },
            None => {
                assert(a0 + Seq::<MessageIDV>::empty() =~= a0);
                break ;
            },
        }
    }
    (j, acc)
}


// ---------------------------------------------------------------- printing

/// A message identifier can be printed: its parts can, or its text holds no
/// line break.
pub open spec fn msg_id_printable(m: MessageID) -> bool {
    match m {
        MessageID::ObsLeftRight { left, right } => free_text(local_part_out(left@)) && domain_printable(right),
        MessageID::Invalid(t) => no_crlf(t@),
    }
}

/// A printable message identifier prints as free text.
pub proof fn lemma_msg_id_free(m: &MessageID)
    requires
        msg_id_printable(*m),
    ensures
        free_text(m.print_text()),
{
    match m {
        MessageID::ObsLeftRight { left, right } => {
            lemma_domain_free(right);
            let inner = local_part_out(left@) + seq![ascii::AT] + right.print_text();
            lemma_free_join(local_part_out(left@), seq![ascii::AT], right.print_text());
            lemma_free_wrap(ascii::LT, inner, ascii::GT);
        },
        MessageID::Invalid(t) => {
            lemma_free_wrap(ascii::LT, t@, ascii::GT);
        },
    }
}

/// A message identifier is printed as `"<" id-left "@" id-right ">"`, or
/// as its text between angle brackets.
impl Print for MessageID {
    open spec fn print_text(&self) -> Seq<u8> {
        match self {
            MessageID::ObsLeftRight { left, right } => seq![ascii::LT] + local_part_out(left@) + seq![
                ascii::AT,
            ] + right.print_text() + seq![ascii::GT],
            MessageID::Invalid(t) => seq![ascii::LT] + t@ + seq![ascii::GT],
        }
    }

    open spec fn print_marks(&self) -> Seq<bool> {
        match self {
            MessageID::ObsLeftRight { left, right } => seq![false] + unmarked(
                local_part_out(left@).len(),
            ) + seq![false] + right.print_marks() + seq![false],
            MessageID::Invalid(t) => unmarked(t@.len() + 2),
        }
    }

    open spec fn printable_after(&self, w: Seq<u8>) -> bool {
        msg_id_printable(*self)
    }

    #[verifier::spinoff_prover]
    fn print<F: Formatter>(&self, fmt: &mut F) {
        let ghost w0 = fmt.written();
        let ghost m0 = fmt.fws_marks();
        let lt: [u8; 1] = [ascii::LT];
        assert(lt@ == seq![ascii::LT]);
        write_free(fmt, lt.as_slice());
        match self {
            MessageID::ObsLeftRight { left, right } => {
                left.print(fmt);
                let at: [u8; 1] = [ascii::AT];
                assert(at@ == seq![ascii::AT]);
                write_free(fmt, at.as_slice());
                right.print(fmt);
            },
            MessageID::Invalid(t) => {
                assert(fmt.written().last() == ascii::LT);
                fmt.write_bytes(t.as_slice());
            },
        }
        let gt: [u8; 1] = [ascii::GT];
        assert(gt@ == seq![ascii::GT]);
        write_free(fmt, gt.as_slice());
        assert(fmt.written() =~= w0 + self.print_text());
        assert(fmt.fws_marks() =~= m0 + self.print_marks());
    }
}

/// Message identifiers that can be printed as a list: there is one, and
/// each can be printed.
pub open spec fn msg_ids_printable(s: Seq<MessageID>) -> bool {
    s.len() > 0 && forall|i: int| 0 <= i < s.len() ==> msg_id_printable(#[trigger] s[i])
}

proof fn lemma_msg_id_list_printable(w: Seq<u8>, s: Seq<MessageID>, sep: Seq<FoldStep>)
    requires
        msg_ids_printable(s),
        free_sep(sep),
    ensures
        seq_printable_after(w, s, sep),
{
    assert forall|i: int| 0 <= i < s.len() implies free_text(#[trigger] s[i].print_text()) by {
        lemma_msg_id_free(&s[i]);
    }
    lemma_free_items(w, s, sep);
}

/// A list of message identifiers is printed with folding whitespace between
/// identifiers.
impl Print for Vec<MessageID> {
    open spec fn print_text(&self) -> Seq<u8> {
        joined_text(self@, seq![ascii::SP])
    }

    open spec fn print_marks(&self) -> Seq<bool> {
        joined_marks(self@, seq![true])
    }

    open spec fn printable_after(&self, w: Seq<u8>) -> bool {
        msg_ids_printable(self@)
    }

    #[verifier::spinoff_prover]
    fn print<F: Formatter>(&self, fmt: &mut F) {
        let sep = fws_sep();
        proof {
            lemma_msg_id_list_printable(fmt.written(), self@, sep@);
        }
        print_seq(fmt, self.as_slice(), sep.as_slice());
    }
}

} // verus!
