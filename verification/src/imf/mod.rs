//! Parse and represent IMF (Internet Message Format) headers (RFC 822,
//! RFC 5322).
pub mod mailbox;
pub mod address;
pub mod mime;
pub mod trace;
pub mod identification;
pub mod datetime;
pub mod field;

use vstd::prelude::*;
use crate::dup::{Duplicate, seq_view, opt_view, duplicate_vec, duplicate_opt, append_vec};
use crate::imf::address::{AddressRef, AddressRefV};
use crate::imf::datetime::DateTime;
use crate::imf::field::{Entry, Field, FieldV};
use crate::imf::identification::{MessageID, MessageIDV};
use crate::imf::mailbox::{AddrSpecV, MailboxList, MailboxRef, MailboxRefV};
use crate::imf::mime::Version;
use crate::imf::trace::ReturnPath;
use crate::text::misc_token::{PhraseList, Unstructured, UnstrTokenV, WordV};

verus! {

/// The date of a message, which may be missing.
#[derive(Debug, Clone, Copy, PartialEq, Eq, Structural)]
pub enum DateTimeOpt {
    Present(DateTime),
    /// Following RFC 5322, the Date header must not be missing; IMAP
    /// (RFC 9051, section 7.5.2) allows it to be missing, e.g. for drafts.
    InvalidMissing,
}

/// The originator fields From and Sender, combined.
#[derive(Debug, PartialEq, Eq)]
#[allow(inconsistent_fields)]
pub enum From {
    Single { from: MailboxRef, sender: Option<MailboxRef> },
    /// `from` holds at least two mailboxes.
    Multiple { from: MailboxList, sender: MailboxRef },
    /// The From header is missing (allowed by IMAP, e.g. for drafts); this
    /// is also the case where both From and Sender are missing.
    InvalidMissingFrom { sender: Option<MailboxRef> },
    /// The Sender header is missing although there are several From
    /// mailboxes (allowed by IMAP).
    InvalidMissingSender { from: MailboxList },
}

#[allow(inconsistent_fields)]
pub enum FromV {
    Single { from: MailboxRefV, sender: Option<MailboxRefV> },
    Multiple { from: Seq<MailboxRefV>, sender: MailboxRefV },
    InvalidMissingFrom { sender: Option<MailboxRefV> },
    InvalidMissingSender { from: Seq<MailboxRefV> },
}

impl View for From {
    type V = FromV;

    open spec fn view(&self) -> FromV {
        match self {
            From::Single { from, sender } => FromV::Single { from: from@, sender: opt_view(*sender) },
            From::Multiple { from, sender } => FromV::Multiple { from: from@, sender: sender@ },
            From::InvalidMissingFrom { sender } => FromV::InvalidMissingFrom {
                sender: opt_view(*sender),
            },
            From::InvalidMissingSender { from } => FromV::InvalidMissingSender { from: from@ },
        }
    }
}

/// A trace field. Received fields are kept as unstructured text: in
/// practice many of them do not follow even the rough grammar of RFC 5322.
#[derive(Debug, PartialEq, Eq)]
pub enum TraceField {
    Received(Unstructured),
    ReturnPath(ReturnPath),
}

pub enum TraceFieldV {
    Received(Seq<UnstrTokenV>),
    ReturnPath(Option<AddrSpecV>),
}

impl View for TraceField {
    type V = TraceFieldV;

    open spec fn view(&self) -> TraceFieldV {
        match self {
            TraceField::Received(u) => TraceFieldV::Received(u@),
            TraceField::ReturnPath(p) => TraceFieldV::ReturnPath(p@),
        }
    }
}

impl Duplicate for TraceField {
    fn duplicate(&self) -> (r: TraceField) {
        match self {
            TraceField::Received(u) => TraceField::Received(u.duplicate()),
            TraceField::ReturnPath(p) => TraceField::ReturnPath(p.duplicate()),
        }
    }
}

/// The IMF header of a message.
#[derive(Debug, PartialEq, Eq)]
pub struct Imf {
    // 3.6.1.  The Origination Date Field
    pub date: DateTimeOpt,
    // 3.6.2.  Originator Fields
    pub from: From,
    pub reply_to: Vec<AddressRef>,
    // 3.6.3.  Destination Address Fields
    pub to: Vec<AddressRef>,
    pub cc: Vec<AddressRef>,
    pub bcc: Option<Vec<AddressRef>>,
    // 3.6.4.  Identification Fields
    pub msg_id: Option<MessageID>,
    pub in_reply_to: Vec<MessageID>,
    pub references: Vec<MessageID>,
    // 3.6.5.  Informational Fields
    pub subject: Option<Unstructured>,
    pub comments: Vec<Unstructured>,
    pub keywords: Vec<PhraseList>,
    // 3.6.7 Trace Fields
    pub trace: Vec<TraceField>,
    // MIME
    pub mime_version: Option<Version>,
}

pub struct ImfV {
    pub date: DateTimeOpt,
    pub from: FromV,
    pub reply_to: Seq<AddressRefV>,
    pub to: Seq<AddressRefV>,
    pub cc: Seq<AddressRefV>,
    pub bcc: Option<Seq<AddressRefV>>,
    pub msg_id: Option<MessageIDV>,
    pub in_reply_to: Seq<MessageIDV>,
    pub references: Seq<MessageIDV>,
    pub subject: Option<Seq<UnstrTokenV>>,
    pub comments: Seq<Seq<UnstrTokenV>>,
    pub keywords: Seq<Seq<Seq<WordV>>>,
    pub trace: Seq<TraceFieldV>,
    pub mime_version: Option<Version>,
}

pub open spec fn opt_seq_view<T: View>(o: Option<Vec<T>>) -> Option<Seq<T::V>> {
    match o {
        Some(v) => Some(seq_view(v@)),
        None => None,
    }
}

impl View for Imf {
    type V = ImfV;

    open spec fn view(&self) -> ImfV {
        ImfV {
            date: self.date,
            from: self.from@,
            reply_to: seq_view(self.reply_to@),
            to: seq_view(self.to@),
            cc: seq_view(self.cc@),
            bcc: opt_seq_view(self.bcc),
            msg_id: opt_view(self.msg_id),
            in_reply_to: seq_view(self.in_reply_to@),
            references: seq_view(self.references@),
            subject: opt_view(self.subject),
            comments: seq_view(self.comments@),
            keywords: seq_view(self.keywords@),
            trace: seq_view(self.trace@),
            mime_version: self.mime_version,
        }
    }
}

/// The empty header: nothing set, date and From missing.
pub open spec fn empty_imf() -> ImfV {
    ImfV {
        date: DateTimeOpt::InvalidMissing,
        from: FromV::InvalidMissingFrom { sender: None },
        reply_to: seq![],
        to: seq![],
        cc: seq![],
        bcc: None,
        msg_id: None,
        in_reply_to: seq![],
        references: seq![],
        subject: None,
        comments: seq![],
        keywords: seq![],
        trace: seq![],
        mime_version: None,
    }
}

/// The From mailboxes, when From is present.
pub open spec fn spec_from_list(f: FromV) -> Option<Seq<MailboxRefV>> {
    match f {
        FromV::Single { from, .. } => Some(seq![from]),
        FromV::Multiple { from, .. } => Some(from),
        FromV::InvalidMissingFrom { .. } => None,
        FromV::InvalidMissingSender { from } => Some(from),
    }
}

/// The Sender mailbox, when Sender is present.
pub open spec fn spec_sender(f: FromV) -> Option<MailboxRefV> {
    match f {
        FromV::Single { sender, .. } => sender,
        FromV::Multiple { sender, .. } => Some(sender),
        FromV::InvalidMissingFrom { sender } => sender,
        FromV::InvalidMissingSender { .. } => None,
    }
}

/// The Sender mailbox, or else the single From mailbox.
pub open spec fn spec_from_or_sender(f: FromV) -> Option<MailboxRefV> {
    match f {
        FromV::Single { from, sender } => match sender {
            Some(s) => Some(s),
            None => Some(from),
        },
        FromV::Multiple { sender, .. } => Some(sender),
        FromV::InvalidMissingFrom { sender } => sender,
        FromV::InvalidMissingSender { .. } => None,
    }
}

/// An entry that names a field present at its position.
pub open spec fn entry_in_range(m: ImfV, e: Entry) -> bool {
    match e {
        Entry::Comments(i) => i < m.comments.len(),
        Entry::Keywords(i) => i < m.keywords.len(),
        Entry::Trace(i) => i < m.trace.len(),
        _ => true,
    }
}

/// The field that an entry names, when the header holds it. Empty address
/// and identifier lists count as absent.
pub open spec fn spec_get_field(m: ImfV, e: Entry) -> Option<FieldV> {
    match e {
        Entry::Date => match m.date {
            DateTimeOpt::Present(d) => Some(FieldV::Date(d)),
            DateTimeOpt::InvalidMissing => None,
        },
        Entry::From => match spec_from_list(m.from) {
            Some(l) => Some(FieldV::From(l)),
            None => None,
        },
        Entry::Sender => match spec_sender(m.from) {
            Some(s) => Some(FieldV::Sender(s)),
            None => None,
        },
        Entry::ReplyTo => if m.reply_to.len() > 0 {
            Some(FieldV::ReplyTo(m.reply_to))
        } else {
            None
        },
        Entry::To => if m.to.len() > 0 {
            Some(FieldV::To(m.to))
        } else {
            None
        },
        Entry::Cc => if m.cc.len() > 0 {
            Some(FieldV::Cc(m.cc))
        } else {
            None
        },
        Entry::Bcc => match m.bcc {
            Some(l) => Some(FieldV::Bcc(l)),
            None => None,
        },
        Entry::MessageID => match m.msg_id {
            Some(i) => Some(FieldV::MessageID(i)),
            None => None,
        },
        Entry::InReplyTo => if m.in_reply_to.len() > 0 {
            Some(FieldV::InReplyTo(m.in_reply_to))
        } else {
            None
        },
        Entry::References => if m.references.len() > 0 {
            Some(FieldV::References(m.references))
        } else {
            None
        },
        Entry::Subject => match m.subject {
            Some(u) => Some(FieldV::Subject(u)),
            None => None,
        },
        Entry::Comments(i) => Some(FieldV::Comments(m.comments[i as int])),
        Entry::Keywords(i) => Some(FieldV::Keywords(m.keywords[i as int])),
        Entry::MIMEVersion => match m.mime_version {
            Some(v) => Some(FieldV::MIMEVersion(v)),
            None => None,
        },
        Entry::Trace(i) => match m.trace[i as int] {
            TraceFieldV::Received(r) => Some(FieldV::Received(r)),
            TraceFieldV::ReturnPath(p) => Some(FieldV::ReturnPath(p)),
        },
    }
}

/// The entries of repeated fields of one kind, by position.
pub open spec fn indexed_entries(n: nat, f: spec_fn(usize) -> Entry) -> Seq<Entry> {
    Seq::new(n, |i: int| f(i as usize))
}

pub open spec fn entry_if(b: bool, e: Entry) -> Seq<Entry> {
    if b {
        seq![e]
    } else {
        seq![]
    }
}

/// The fields that a header holds at most once, each with whether it is
/// there, in the order of RFC 5322.
pub open spec fn single_entry_flags(m: ImfV) -> Seq<(bool, Entry)> {
    seq![
        (m.date is Present, Entry::Date),
        (spec_from_list(m.from) is Some, Entry::From),
        (spec_sender(m.from) is Some, Entry::Sender),
        (m.reply_to.len() > 0, Entry::ReplyTo),
        (m.to.len() > 0, Entry::To),
        (m.cc.len() > 0, Entry::Cc),
        (m.bcc is Some, Entry::Bcc),
        (m.msg_id is Some, Entry::MessageID),
        (m.in_reply_to.len() > 0, Entry::InReplyTo),
        (m.references.len() > 0, Entry::References),
        (m.subject is Some, Entry::Subject),
    ]
}

/// The entries whose flag is set, in order.
pub open spec fn selected(l: Seq<(bool, Entry)>) -> Seq<Entry>
    decreases l.len(),
{
    if l.len() == 0 {
        seq![]
    } else {
        selected(l.drop_last()) + entry_if(l.last().0, l.last().1)
    }
}

/// The entries of the non-trace fields that a header holds, in the order
/// of RFC 5322, the MIME version last.
pub open spec fn spec_other_entries(m: ImfV) -> Seq<Entry> {
    selected(single_entry_flags(m)) + comments_entries(m.comments.len()) + keywords_entries(
        m.keywords.len(),
    ) + entry_if(m.mime_version is Some, Entry::MIMEVersion)
}

pub open spec fn comments_entries(n: nat) -> Seq<Entry> {
    indexed_entries(n, |i: usize| Entry::Comments(i))
}

pub open spec fn keywords_entries(n: nat) -> Seq<Entry> {
    indexed_entries(n, |i: usize| Entry::Keywords(i))
}

pub open spec fn trace_entries(n: nat) -> Seq<Entry> {
    indexed_entries(n, |i: usize| Entry::Trace(i))
}

/// The entries of the trace fields of a header, in their order.
pub open spec fn spec_trace_entries(m: ImfV) -> Seq<Entry> {
    trace_entries(m.trace.len())
}

impl Duplicate for From {
    fn duplicate(&self) -> (r: From) {
        match self {
            From::Single { from, sender } => From::Single {
                from: from.duplicate(),
                sender: duplicate_opt(sender),
            },
            From::Multiple { from, sender } => From::Multiple {
                from: from.duplicate(),
                sender: sender.duplicate(),
            },
            From::InvalidMissingFrom { sender } => From::InvalidMissingFrom {
                sender: duplicate_opt(sender),
            },
            From::InvalidMissingSender { from } => From::InvalidMissingSender {
                from: from.duplicate(),
            },
        }
    }
}

impl Imf {
    /// The empty header.
    pub fn new() -> (r: Imf)
        ensures
            r@ == empty_imf(),
    {
        let r = Imf {
            date: DateTimeOpt::InvalidMissing,
            from: From::InvalidMissingFrom { sender: None },
            reply_to: Vec::new(),
            to: Vec::new(),
            cc: Vec::new(),
            bcc: None,
            msg_id: None,
            in_reply_to: Vec::new(),
            references: Vec::new(),
            subject: None,
            comments: Vec::new(),
            keywords: Vec::new(),
            trace: Vec::new(),
            mime_version: None,
        };
        assert(r@.reply_to =~= seq![]);
        assert(r@.to =~= seq![]);
        assert(r@.cc =~= seq![]);
        assert(r@.in_reply_to =~= seq![]);
        assert(r@.references =~= seq![]);
        assert(r@.comments =~= seq![]);
        assert(r@.keywords =~= seq![]);
        assert(r@.trace =~= seq![]);
        r
    }

    /// The Sender mailbox, or else the single From mailbox.
    pub fn from_or_sender(&self) -> (r: Option<&MailboxRef>)
        ensures
            match r {
                Some(m) => spec_from_or_sender(self@.from) == Some(m@),
                None => spec_from_or_sender(self@.from) is None,
            },
    {
        match &self.from {
            From::Single { from, sender } => match sender {
                Some(s) => Some(s),
                None => Some(from),
            },
            From::Multiple { from: _, sender } => Some(sender),
            From::InvalidMissingFrom { sender } => match sender {
                Some(s) => Some(s),
                None => None,
            },
            From::InvalidMissingSender { from: _ } => None,
        }
    }

    /// The From mailboxes, when From is present.
    pub fn from(&self) -> (r: Option<MailboxList>)
        ensures
            opt_view(r) == spec_from_list(self@.from),
    {
        match &self.from {
            From::Single { from, .. } => {
                let mut v: Vec<MailboxRef> = Vec::new();
                v.push(from.duplicate());
                assert(seq_view(v@) =~= seq![from@]);
                Some(MailboxList(v))
            },
            From::Multiple { from, .. } => Some(from.duplicate()),
            From::InvalidMissingFrom { sender: _ } => None,
            From::InvalidMissingSender { from } => Some(from.duplicate()),
        }
    }

    /// The Sender mailbox, when Sender is present.
    pub fn sender(&self) -> (r: Option<MailboxRef>)
        ensures
            opt_view(r) == spec_sender(self@.from),
    {
        match &self.from {
            From::Single { sender, .. } => duplicate_opt(sender),
            From::Multiple { sender, .. } => Some(sender.duplicate()),
            From::InvalidMissingFrom { sender } => duplicate_opt(sender),
            From::InvalidMissingSender { from: _ } => None,
        }
    }

    /// The field that an entry names, when the header holds it.
    pub fn get_field(&self, f: Entry) -> (r: Option<Field>)
        requires
            entry_in_range(self@, f),
        ensures
            opt_view(r) == spec_get_field(self@, f),
    {
        match f {
            Entry::Date => match &self.date {
                DateTimeOpt::Present(d) => Some(Field::Date(*d)),
                DateTimeOpt::InvalidMissing => None,
            },
            Entry::From => match self.from() {
                Some(l) => Some(Field::From(l)),
                None => None,
            },
            Entry::Sender => match self.sender() {
                Some(s) => Some(Field::Sender(s)),
                None => None,
            },
            Entry::ReplyTo => if self.reply_to.len() > 0 {
                Some(Field::ReplyTo(duplicate_vec(&self.reply_to)))
            } else {
                None
            },
            Entry::To => if self.to.len() > 0 {
                Some(Field::To(duplicate_vec(&self.to)))
            } else {
                None
            },
            Entry::Cc => if self.cc.len() > 0 {
                Some(Field::Cc(duplicate_vec(&self.cc)))
            } else {
                None
            },
            Entry::Bcc => match &self.bcc {
                Some(l) => Some(Field::Bcc(duplicate_vec(l))),
                None => None,
            },
            Entry::MessageID => match &self.msg_id {
                Some(i) => Some(Field::MessageID(i.duplicate())),
                None => None,
            },
            Entry::InReplyTo => if self.in_reply_to.len() > 0 {
                Some(Field::InReplyTo(duplicate_vec(&self.in_reply_to)))
            } else {
                None
            },
            Entry::References => if self.references.len() > 0 {
                Some(Field::References(duplicate_vec(&self.references)))
            } else {
                None
            },
            Entry::Subject => match &self.subject {
                Some(u) => Some(Field::Subject(u.duplicate())),
                None => None,
            },
            Entry::Comments(i) => Some(Field::Comments(self.comments[i].duplicate())),
            Entry::Keywords(i) => Some(Field::Keywords(self.keywords[i].duplicate())),
            Entry::MIMEVersion => match &self.mime_version {
                Some(v) => Some(Field::MIMEVersion(*v)),
                None => None,
            },
            Entry::Trace(i) => match &self.trace[i] {
                TraceField::Received(r) => Some(Field::Received(r.duplicate())),
                TraceField::ReturnPath(p) => Some(Field::ReturnPath(p.duplicate())),
            },
        }
    }

    /// The entries of the fields included in this header: the trace
    /// entries, in order, and the other entries, each once.
    pub fn field_entries(&self) -> (r: (Vec<Entry>, Vec<Entry>))
        ensures
            r.0@ == spec_trace_entries(self@),
            r.1@ == spec_other_entries(self@),
    {
        let mut trace: Vec<Entry> = Vec::new();
        push_indexed(&mut trace, self.trace.len(), 2);
        assert(trace@ =~= trace_entries(self.trace.len() as nat));
        let ghost m = self@;
        let mut fs: Vec<Entry> = Vec::new();
        let ghost flags = single_entry_flags(m);
        let has_date = match &self.date {
            DateTimeOpt::Present(_) => true,
            DateTimeOpt::InvalidMissing => false,
        };
        push_if(&mut fs, has_date, Entry::Date);
        assert(fs@ =~= entry_if(m.date is Present, Entry::Date));
        let has_from = match &self.from {
            From::InvalidMissingFrom { .. } => false,
            _ => true,
        };
        let has_sender = match &self.from {
            From::Single { sender, .. } => sender.is_some(),
            From::Multiple { .. } => true,
            From::InvalidMissingFrom { sender } => sender.is_some(),
            From::InvalidMissingSender { .. } => false,
        };
        push_if(&mut fs, has_from, Entry::From);
        push_if(&mut fs, has_sender, Entry::Sender);
        push_if(&mut fs, self.reply_to.len() > 0, Entry::ReplyTo);
        push_if(&mut fs, self.to.len() > 0, Entry::To);
        push_if(&mut fs, self.cc.len() > 0, Entry::Cc);
        push_if(&mut fs, self.bcc.is_some(), Entry::Bcc);
        push_if(&mut fs, self.msg_id.is_some(), Entry::MessageID);
        push_if(&mut fs, self.in_reply_to.len() > 0, Entry::InReplyTo);
        push_if(&mut fs, self.references.len() > 0, Entry::References);
        push_if(&mut fs, self.subject.is_some(), Entry::Subject);
        proof {
            lemma_selected_flags(m);
        }
        push_indexed(&mut fs, self.comments.len(), 0);
        push_indexed(&mut fs, self.keywords.len(), 1);
        push_if(&mut fs, self.mime_version.is_some(), Entry::MIMEVersion);
        (trace, fs)
    }
}

/// The selected entries of a header, spelled out.
proof fn lemma_selected_flags(m: ImfV)
    ensures
        selected(single_entry_flags(m)) == entry_if(m.date is Present, Entry::Date) + entry_if(
            spec_from_list(m.from) is Some,
            Entry::From,
        ) + entry_if(spec_sender(m.from) is Some, Entry::Sender) + entry_if(
            m.reply_to.len() > 0,
            Entry::ReplyTo,
        ) + entry_if(m.to.len() > 0, Entry::To) + entry_if(m.cc.len() > 0, Entry::Cc) + entry_if(
            m.bcc is Some,
            Entry::Bcc,
        ) + entry_if(m.msg_id is Some, Entry::MessageID) + entry_if(
            m.in_reply_to.len() > 0,
            Entry::InReplyTo,
        ) + entry_if(m.references.len() > 0, Entry::References) + entry_if(
            m.subject is Some,
            Entry::Subject,
        ),
{
    let flags = single_entry_flags(m);
    reveal_with_fuel(selected, 12);
    assert(flags.drop_last() =~= flags.take(10));
    assert(flags.take(10).drop_last() =~= flags.take(9));
    assert(flags.take(9).drop_last() =~= flags.take(8));
    assert(flags.take(8).drop_last() =~= flags.take(7));
    assert(flags.take(7).drop_last() =~= flags.take(6));
    assert(flags.take(6).drop_last() =~= flags.take(5));
    assert(flags.take(5).drop_last() =~= flags.take(4));
    assert(flags.take(4).drop_last() =~= flags.take(3));
    assert(flags.take(3).drop_last() =~= flags.take(2));
    assert(flags.take(2).drop_last() =~= flags.take(1));
    assert(flags.take(1).drop_last() =~= flags.take(0));
    assert(selected(flags.take(1)) =~= entry_if(m.date is Present, Entry::Date));
}

fn push_if(v: &mut Vec<Entry>, b: bool, e: Entry)
    ensures
        final(v)@ == old(v)@ + entry_if(b, e),
{
    if b {
        v.push(e);
    }
    assert(v@ =~= old(v)@ + entry_if(b, e));
}

/// The entries of positions `0..n` of comments (`kind` 0), keywords (1) or
/// trace fields (2).
pub open spec fn kind_entries(kind: u8, n: nat) -> Seq<Entry> {
    if kind == 0 {
        comments_entries(n)
    } else if kind == 1 {
        keywords_entries(n)
    } else {
        trace_entries(n)
    }
}

fn push_indexed(v: &mut Vec<Entry>, n: usize, kind: u8)
    ensures
        final(v)@ == old(v)@ + kind_entries(kind, n as nat),
{
    let ghost v0 = v@;
    let mut i: usize = 0;
    while i < n
        invariant
            i <= n,
            v@ == v0 + kind_entries(kind, i as nat),
        decreases n - i,
    {
        let e = if kind == 0 {
            Entry::Comments(i)
        } else if kind == 1 {
            Entry::Keywords(i)
        } else {
            Entry::Trace(i)
        };
        v.push(e);
        i += 1;
        assert(v@ =~= v0 + kind_entries(kind, i as nat));
    }
}

impl Default for Imf {
    fn default() -> (r: Imf)
        ensures
            r@ == empty_imf(),
    {
        Imf::new()
    }
}

// ---------------------------------------------------------------- building

/// Why a field adds no entry to a header under construction.
#[derive(Debug, Clone, Copy, PartialEq, Eq, Structural)]
pub enum AddFieldErr {
    /// The field results in no entry, but its contents have been taken into
    /// account and no data is lost.
    NoEntry,
    /// The field conflicts with an earlier field and is dropped: its data is
    /// not part of the header.
    Conflict,
}

/// A header under construction, field by field.
#[derive(Debug, PartialEq, Eq)]
pub struct PartialImf {
    date: Option<DateTime>,
    from: Option<MailboxList>,
    sender: Option<MailboxRef>,
    reply_to: Option<Vec<AddressRef>>,
    to: Option<Vec<AddressRef>>,
    cc: Option<Vec<AddressRef>>,
    bcc: Option<Vec<AddressRef>>,
    msg_id: Option<MessageID>,
    in_reply_to: Option<Vec<MessageID>>,
    references: Option<Vec<MessageID>>,
    subject: Option<Unstructured>,
    comments: Vec<Unstructured>,
    keywords: Vec<PhraseList>,
    trace: Vec<TraceField>,
    trace_complete: bool,
    mime_version: Option<Version>,
}

pub struct PartialImfV {
    pub date: Option<DateTime>,
    pub from: Option<Seq<MailboxRefV>>,
    pub sender: Option<MailboxRefV>,
    pub reply_to: Option<Seq<AddressRefV>>,
    pub to: Option<Seq<AddressRefV>>,
    pub cc: Option<Seq<AddressRefV>>,
    pub bcc: Option<Seq<AddressRefV>>,
    pub msg_id: Option<MessageIDV>,
    pub in_reply_to: Option<Seq<MessageIDV>>,
    pub references: Option<Seq<MessageIDV>>,
    pub subject: Option<Seq<UnstrTokenV>>,
    pub comments: Seq<Seq<UnstrTokenV>>,
    pub keywords: Seq<Seq<Seq<WordV>>>,
    pub trace: Seq<TraceFieldV>,
    /// A field other than a trace field has been added: the trace section
    /// is over.
    pub trace_complete: bool,
    pub mime_version: Option<Version>,
}

impl View for PartialImf {
    type V = PartialImfV;

    closed spec fn view(&self) -> PartialImfV {
        PartialImfV {
            date: self.date,
            from: opt_view(self.from),
            sender: opt_view(self.sender),
            reply_to: opt_seq_view(self.reply_to),
            to: opt_seq_view(self.to),
            cc: opt_seq_view(self.cc),
            bcc: opt_seq_view(self.bcc),
            msg_id: opt_view(self.msg_id),
            in_reply_to: opt_seq_view(self.in_reply_to),
            references: opt_seq_view(self.references),
            subject: opt_view(self.subject),
            comments: seq_view(self.comments@),
            keywords: seq_view(self.keywords@),
            trace: seq_view(self.trace@),
            trace_complete: self.trace_complete,
            mime_version: self.mime_version,
        }
    }
}

/// Nothing added yet.
pub open spec fn empty_partial_imf() -> PartialImfV {
    PartialImfV {
        date: None,
        from: None,
        sender: None,
        reply_to: None,
        to: None,
        cc: None,
        bcc: None,
        msg_id: None,
        in_reply_to: None,
        references: None,
        subject: None,
        comments: seq![],
        keywords: seq![],
        trace: seq![],
        trace_complete: false,
        mime_version: None,
    }
}

pub open spec fn is_trace_field(f: FieldV) -> bool {
    f is Received || f is ReturnPath
}

/// Sets an absent value; a value that is already there stays and the new
/// one conflicts.
pub open spec fn spec_set_if_new<T>(o: Option<T>, x: T) -> (Option<T>, bool) {
    match o {
        None => (Some(x), true),
        Some(v) => (Some(v), false),
    }
}

pub open spec fn set_result(ok: bool, e: Entry) -> Result<Entry, AddFieldErr> {
    if ok {
        Ok(e)
    } else {
        Err(AddFieldErr::Conflict)
    }
}

/// Sets an absent list; a list that is already there is extended.
pub open spec fn spec_set_or_extend<T>(o: Option<Seq<T>>, x: Seq<T>) -> (Option<Seq<T>>, bool) {
    match o {
        None => (Some(x), true),
        Some(v) => (Some(v + x), false),
    }
}

pub open spec fn extend_result(first: bool, e: Entry) -> Result<Entry, AddFieldErr> {
    if first {
        Ok(e)
    } else {
        Err(AddFieldErr::NoEntry)
    }
}

/// Adds a field to a header under construction, once the trace section is
/// known to be over or not.
pub open spec fn spec_add_field_body(p: PartialImfV, f: FieldV) -> (PartialImfV, Result<Entry, AddFieldErr>) {
    match f {
        FieldV::Date(d) => {
            let (o, ok) = spec_set_if_new(p.date, d);
            (PartialImfV { date: o, ..p }, set_result(ok, Entry::Date))
        },
        FieldV::From(l) => {
            let (o, ok) = spec_set_if_new(p.from, l);
            (PartialImfV { from: o, ..p }, set_result(ok, Entry::From))
        },
        FieldV::Sender(m) => {
            let (o, ok) = spec_set_if_new(p.sender, m);
            (PartialImfV { sender: o, ..p }, set_result(ok, Entry::Sender))
        },
        FieldV::ReplyTo(l) => {
            let (o, ok) = spec_set_if_new(p.reply_to, l);
            (PartialImfV { reply_to: o, ..p }, set_result(ok, Entry::ReplyTo))
        },
        FieldV::To(l) => {
            let (o, first) = spec_set_or_extend(p.to, l);
            (PartialImfV { to: o, ..p }, extend_result(first, Entry::To))
        },
        FieldV::Cc(l) => {
            let (o, first) = spec_set_or_extend(p.cc, l);
            (PartialImfV { cc: o, ..p }, extend_result(first, Entry::Cc))
        },
        FieldV::Bcc(l) => {
            let (o, first) = spec_set_or_extend(p.bcc, l);
            (PartialImfV { bcc: o, ..p }, extend_result(first, Entry::Bcc))
        },
        FieldV::MessageID(i) => {
            let (o, ok) = spec_set_if_new(p.msg_id, i);
            (PartialImfV { msg_id: o, ..p }, set_result(ok, Entry::MessageID))
        },
        FieldV::InReplyTo(l) => {
            let (o, ok) = spec_set_if_new(p.in_reply_to, l);
            (PartialImfV { in_reply_to: o, ..p }, set_result(ok, Entry::InReplyTo))
        },
        FieldV::References(l) => {
            let (o, ok) = spec_set_if_new(p.references, l);
            (PartialImfV { references: o, ..p }, set_result(ok, Entry::References))
        },
        FieldV::Subject(u) => {
            let (o, ok) = spec_set_if_new(p.subject, u);
            (PartialImfV { subject: o, ..p }, set_result(ok, Entry::Subject))
        },
        FieldV::Comments(u) => (
            PartialImfV { comments: p.comments.push(u), ..p },
            Ok(Entry::Comments(p.comments.len() as usize)),
        ),
        FieldV::Keywords(k) => (
            PartialImfV { keywords: p.keywords.push(k), ..p },
            Ok(Entry::Keywords(p.keywords.len() as usize)),
        ),
        FieldV::Received(u) => (
            PartialImfV { trace: p.trace.push(TraceFieldV::Received(u)), ..p },
            Ok(Entry::Trace(p.trace.len() as usize)),
        ),
        FieldV::ReturnPath(a) => (
            PartialImfV { trace: p.trace.push(TraceFieldV::ReturnPath(a)), ..p },
            Ok(Entry::Trace(p.trace.len() as usize)),
        ),
        FieldV::MIMEVersion(v) => {
            let (o, ok) = spec_set_if_new(p.mime_version, v);
            (PartialImfV { mime_version: o, ..p }, set_result(ok, Entry::MIMEVersion))
        },
    }
}

/// Adds a field to a header under construction: trace fields must come
/// first (a trace field after any other field conflicts); a field that may
/// occur once keeps its first value; To, Cc and Bcc lists are extended;
/// comments, keywords and trace fields are appended.
pub open spec fn spec_add_field(p: PartialImfV, f: FieldV) -> (PartialImfV, Result<Entry, AddFieldErr>) {
    if is_trace_field(f) {
        if p.trace_complete {
            (p, Err(AddFieldErr::Conflict))
        } else {
            spec_add_field_body(p, f)
        }
    } else {
        spec_add_field_body(PartialImfV { trace_complete: true, ..p }, f)
    }
}

/// The originator fields of a header from its From list and Sender.
pub open spec fn spec_combine_from(from: Option<Seq<MailboxRefV>>, sender: Option<MailboxRefV>) -> FromV {
    match from {
        None => FromV::InvalidMissingFrom { sender },
        Some(l) => if l.len() == 1 {
            FromV::Single { from: l[0], sender }
        } else {
            match sender {
                Some(s) => FromV::Multiple { from: l, sender: s },
                None => FromV::InvalidMissingSender { from: l },
            }
        },
    }
}

pub open spec fn or_empty<T>(o: Option<Seq<T>>) -> Seq<T> {
    match o {
        Some(l) => l,
        None => seq![],
    }
}

/// The header that a header under construction makes.
pub open spec fn spec_to_imf(p: PartialImfV) -> ImfV {
    ImfV {
        date: match p.date {
            Some(d) => DateTimeOpt::Present(d),
            None => DateTimeOpt::InvalidMissing,
        },
        from: spec_combine_from(p.from, p.sender),
        reply_to: or_empty(p.reply_to),
        to: or_empty(p.to),
        cc: or_empty(p.cc),
        bcc: p.bcc,
        msg_id: p.msg_id,
        in_reply_to: or_empty(p.in_reply_to),
        references: or_empty(p.references),
        subject: p.subject,
        comments: p.comments,
        keywords: p.keywords,
        trace: p.trace,
        mime_version: p.mime_version,
    }
}

fn set_if_new<T>(o: &mut Option<T>, x: T, y: Entry) -> (r: Result<Entry, AddFieldErr>)
    ensures
        match *old(o) {
            None => *final(o) == Some(x) && r == Ok::<Entry, AddFieldErr>(y),
            Some(_) => *final(o) == *old(o) && r == Err::<Entry, AddFieldErr>(
                AddFieldErr::Conflict,
            ),
        },
{
    if o.is_none() {
        *o = Some(x);
        Ok(y)
    } else {
        Err(AddFieldErr::Conflict)
    }
}

fn set_or_extend<T: View>(o: &mut Option<Vec<T>>, x: Vec<T>, y: Entry) -> (r: Result<Entry, AddFieldErr>)
    ensures
        (opt_seq_view(*final(o)), r) == (
            spec_set_or_extend(opt_seq_view(*old(o)), seq_view(x@)).0,
            extend_result(spec_set_or_extend(opt_seq_view(*old(o)), seq_view(x@)).1, y),
        ),
{
    match o.take() {
        None => {
            *o = Some(x);
            Ok(y)
        },
        Some(v) => {
            let mut v = v;
            append_vec(&mut v, x);
            *o = Some(v);
            Err(AddFieldErr::NoEntry)
        },
    }
}

impl PartialImf {
    /// Nothing added yet.
    pub fn new() -> (r: PartialImf)
        ensures
            r@ == empty_partial_imf(),
    {
        let r = PartialImf {
            date: None,
            from: None,
            sender: None,
            reply_to: None,
            to: None,
            cc: None,
            bcc: None,
            msg_id: None,
            in_reply_to: None,
            references: None,
            subject: None,
            comments: Vec::new(),
            keywords: Vec::new(),
            trace: Vec::new(),
            trace_complete: false,
            mime_version: None,
        };
        assert(r@.comments =~= seq![]);
        assert(r@.keywords =~= seq![]);
        assert(r@.trace =~= seq![]);
        r
    }
}

impl PartialImf {
    /// Adds a field; see `spec_add_field`. The entry of the field is
    /// returned when it adds one.
    pub fn add_field(&mut self, f: Field) -> (r: Result<Entry, AddFieldErr>)
        ensures
            (final(self)@, r) == spec_add_field(old(self)@, f@),
    {
        let is_trace = match &f {
            Field::ReturnPath(_) | Field::Received(_) => true,
            _ => false,
        };
        if is_trace {
            if self.trace_complete {
                return Err(AddFieldErr::Conflict);
            }
        } else {
            self.trace_complete = true;
        }
        let ghost p = self@;
        match f {
            Field::Date(date) => set_if_new(&mut self.date, date, Entry::Date),
            Field::From(from) => set_if_new(&mut self.from, from, Entry::From),
            Field::Sender(sender) => set_if_new(&mut self.sender, sender, Entry::Sender),
            Field::ReplyTo(reply_to) => set_if_new(&mut self.reply_to, reply_to, Entry::ReplyTo),
            Field::To(to) => set_or_extend(&mut self.to, to, Entry::To),
            Field::Cc(cc) => set_or_extend(&mut self.cc, cc, Entry::Cc),
            Field::Bcc(bcc) => set_or_extend(&mut self.bcc, bcc, Entry::Bcc),
            Field::MessageID(id) => set_if_new(&mut self.msg_id, id, Entry::MessageID),
            Field::InReplyTo(in_reply_to) => set_if_new(
                &mut self.in_reply_to,
                in_reply_to,
                Entry::InReplyTo,
            ),
            Field::References(refs) => set_if_new(&mut self.references, refs, Entry::References),
            Field::Subject(subject) => set_if_new(&mut self.subject, subject, Entry::Subject),
            Field::Comments(comments) => {
                let idx = self.comments.len();
                self.comments.push(comments);
                assert(seq_view(self.comments@) =~= p.comments.push(self.comments@.last()@));
                Ok(Entry::Comments(idx))
            },
            Field::Keywords(kwds) => {
                let idx = self.keywords.len();
                self.keywords.push(kwds);
                assert(seq_view(self.keywords@) =~= p.keywords.push(self.keywords@.last()@));
                Ok(Entry::Keywords(idx))
            },
            Field::Received(received) => {
                let idx = self.trace.len();
                self.trace.push(TraceField::Received(received));
                assert(seq_view(self.trace@) =~= p.trace.push(self.trace@.last()@));
                Ok(Entry::Trace(idx))
            },
            Field::ReturnPath(path) => {
                let idx = self.trace.len();
                self.trace.push(TraceField::ReturnPath(path));
                assert(seq_view(self.trace@) =~= p.trace.push(self.trace@.last()@));
                Ok(Entry::Trace(idx))
            },
            Field::MIMEVersion(version) => set_if_new(
                &mut self.mime_version,
                version,
                Entry::MIMEVersion,
            ),
        }
    }

    /// The header that the fields added so far make.
    pub fn to_imf(self) -> (r: Imf)
        ensures
            r@ == spec_to_imf(self@),
    {
        let ghost p = self@;
        let date = match self.date {
            Some(dt) => DateTimeOpt::Present(dt),
            None => DateTimeOpt::InvalidMissing,
        };
        let from = match self.from {
            None => From::InvalidMissingFrom { sender: self.sender },
            Some(l) => {
                if l.0.len() == 1 {
                    let mut v = l.0;
                    let ghost v0 = v@;
                    let first = v.pop().unwrap();
                    assert(first@ == seq_view(v0)[0]);
                    From::Single { from: first, sender: self.sender }
                } else {
                    match self.sender {
                        Some(s) => From::Multiple { from: l, sender: s },
                        None => From::InvalidMissingSender { from: l },
                    }
                }
            },
        };
        let r = Imf {
            date,
            from,
            reply_to: unwrap_or_empty(self.reply_to),
            to: unwrap_or_empty(self.to),
            cc: unwrap_or_empty(self.cc),
            bcc: self.bcc,
            msg_id: self.msg_id,
            in_reply_to: unwrap_or_empty(self.in_reply_to),
            references: unwrap_or_empty(self.references),
            subject: self.subject,
            comments: self.comments,
            keywords: self.keywords,
            trace: self.trace,
            mime_version: self.mime_version,
        };
        r
    }
}

fn unwrap_or_empty<T: View>(o: Option<Vec<T>>) -> (r: Vec<T>)
    ensures
        seq_view(r@) == or_empty(opt_seq_view(o)),
{
    match o {
        Some(v) => v,
        None => {
            let v: Vec<T> = Vec::new();
            assert(seq_view(v@) =~= Seq::<T::V>::empty());
            v
        },
    }
}

impl Default for PartialImf {
    fn default() -> (r: PartialImf)
        ensures
            r@ == empty_partial_imf(),
    {
        PartialImf::new()
    }
}

// ---------------------------------------------------------------- laws

/// The fields that a header holds at most once.
pub open spec fn is_single_field(f: FieldV) -> bool {
    ||| f is Date
    ||| f is From
    ||| f is Sender
    ||| f is ReplyTo
    ||| f is MessageID
    ||| f is InReplyTo
    ||| f is References
    ||| f is Subject
    ||| f is MIMEVersion
}

/// The place of a field that a header holds at most once is already taken.
pub open spec fn slot_taken(p: PartialImfV, f: FieldV) -> bool {
    match f {
        FieldV::Date(_) => p.date is Some,
        FieldV::From(_) => p.from is Some,
        FieldV::Sender(_) => p.sender is Some,
        FieldV::ReplyTo(_) => p.reply_to is Some,
        FieldV::MessageID(_) => p.msg_id is Some,
        FieldV::InReplyTo(_) => p.in_reply_to is Some,
        FieldV::References(_) => p.references is Some,
        FieldV::Subject(_) => p.subject is Some,
        FieldV::MIMEVersion(_) => p.mime_version is Some,
        _ => false,
    }
}

/// The first value wins: a field that a header holds at most once, added
/// when its place is taken, conflicts and changes nothing but marking the
/// trace section as over.
pub proof fn law_first_value_wins(p: PartialImfV, f: FieldV)
    requires
        is_single_field(f),
        slot_taken(p, f),
    ensures
        spec_add_field(p, f) == (PartialImfV { trace_complete: true, ..p }, Err::<
            Entry,
            AddFieldErr,
        >(AddFieldErr::Conflict)),
{
}

/// Trace fields come first: a trace field added after any other field
/// conflicts and changes nothing.
pub proof fn law_late_trace_field_conflicts(p: PartialImfV, f: FieldV)
    requires
        is_trace_field(f),
        p.trace_complete,
    ensures
        spec_add_field(p, f) == (p, Err::<Entry, AddFieldErr>(AddFieldErr::Conflict)),
{
}

/// To, Cc and Bcc accumulate: a list added when one is there extends it,
/// and adds no entry.
pub proof fn law_destination_lists_extend(p: PartialImfV, f: FieldV)
    requires
        match f {
            FieldV::To(_) => p.to is Some,
            FieldV::Cc(_) => p.cc is Some,
            FieldV::Bcc(_) => p.bcc is Some,
            _ => false,
        },
    ensures
        spec_add_field(p, f).1 == Err::<Entry, AddFieldErr>(AddFieldErr::NoEntry),
        match f {
            FieldV::To(l) => spec_add_field(p, f).0.to == Some(p.to.unwrap() + l),
            FieldV::Cc(l) => spec_add_field(p, f).0.cc == Some(p.cc.unwrap() + l),
            FieldV::Bcc(l) => spec_add_field(p, f).0.bcc == Some(p.bcc.unwrap() + l),
            _ => false,
        },
{
}

impl PartialImf {
    /// A header under construction counts its repeated fields by `usize`
    /// positions: `lengths_fit` holds of every one, so the laws that assume
    /// it apply to any header being built.
    pub proof fn lemma_lengths_fit(&self)
        ensures
            lengths_fit(self@),
    {
        assert(self.comments@.len() == self.comments.len());
        assert(self.keywords@.len() == self.keywords.len());
        assert(self.trace@.len() == self.trace.len());
    }
}

/// An address or identifier list that is not empty.
pub open spec fn nonempty_lists(f: FieldV) -> bool {
    match f {
        FieldV::ReplyTo(l) => l.len() > 0,
        FieldV::To(l) => l.len() > 0,
        FieldV::Cc(l) => l.len() > 0,
        FieldV::InReplyTo(l) => l.len() > 0,
        FieldV::References(l) => l.len() > 0,
        _ => true,
    }
}

/// The repeated fields of a header under construction are counted by
/// `usize` positions.
pub open spec fn lengths_fit(p: PartialImfV) -> bool {
    p.comments.len() <= usize::MAX && p.keywords.len() <= usize::MAX && p.trace.len() <= usize::MAX
}

/// The address and identifier lists that a header under construction
/// holds are not empty.
pub open spec fn lists_nonempty(p: PartialImfV) -> bool {
    &&& (p.reply_to matches Some(l) ==> l.len() > 0)
    &&& (p.to matches Some(l) ==> l.len() > 0)
    &&& (p.cc matches Some(l) ==> l.len() > 0)
    &&& (p.in_reply_to matches Some(l) ==> l.len() > 0)
    &&& (p.references matches Some(l) ==> l.len() > 0)
}

/// The header that a header under construction makes holds the field of an
/// entry.
pub open spec fn holds_entry(p: PartialImfV, e: Entry) -> bool {
    entry_in_range(spec_to_imf(p), e) && spec_get_field(spec_to_imf(p), e) is Some
}

/// Adding a field to a header makes no field appear but the one whose
/// entry it returns, and keeps its lists non-empty.
pub proof fn lemma_add_field_appears(p: PartialImfV, f: FieldV, e: Entry)
    requires
        lists_nonempty(p),
        nonempty_lists(f),
        holds_entry(spec_add_field(p, f).0, e),
    ensures
        holds_entry(p, e) || spec_add_field(p, f).1 == Ok::<Entry, AddFieldErr>(e),
{
    let q = spec_add_field(p, f).0;
    assert(imf_sender_is(p) && imf_sender_is(q));
}

/// Adding a field keeps the lists of a header non-empty.
pub proof fn lemma_add_field_nonempty(p: PartialImfV, f: FieldV)
    requires
        lists_nonempty(p),
        nonempty_lists(f),
    ensures
        lists_nonempty(spec_add_field(p, f).0),
{
}

/// The Sender of the header made is the Sender given.
pub open spec fn imf_sender_is(p: PartialImfV) -> bool {
    spec_sender(spec_to_imf(p).from) == p.sender
}

/// What a read gives back of a write: when adding a field returns an
/// entry, the header made afterwards gives back that very field for that
/// entry (empty address and identifier lists are read as absent).
pub proof fn law_read_after_write(p: PartialImfV, f: FieldV)
    requires
        nonempty_lists(f),
        lengths_fit(p),
        spec_add_field(p, f).1 is Ok,
    ensures
        entry_in_range(spec_to_imf(spec_add_field(p, f).0), spec_add_field(p, f).1->Ok_0),
        spec_get_field(spec_to_imf(spec_add_field(p, f).0), spec_add_field(p, f).1->Ok_0) == Some(
            f,
        ),
{
    let q = spec_add_field(p, f).0;
    let e = spec_add_field(p, f).1->Ok_0;
    let m = spec_to_imf(q);
    match f {
        FieldV::From(l) => {
            assert(q.from == Some(l));
            if l.len() == 1 {
                assert(seq![l[0]] =~= l);
            }
            assert(spec_from_list(m.from) == Some(l));
            assert(spec_get_field(m, e) == Some(f));
        },
        FieldV::Sender(x) => {
            assert(q.sender == Some(x));
            assert(spec_sender(m.from) == Some(x));
            assert(spec_get_field(m, e) == Some(f));
        },
        FieldV::Comments(u) => {
            assert(q.comments[p.comments.len() as int] == u);
            assert(spec_get_field(m, e) == Some(f));
        },
        FieldV::Keywords(k) => {
            assert(q.keywords[p.keywords.len() as int] == k);
            assert(spec_get_field(m, e) == Some(f));
        },
        FieldV::Received(u) => {
            assert(q.trace[p.trace.len() as int] == TraceFieldV::Received(u));
            assert(spec_get_field(m, e) == Some(f));
        },
        FieldV::ReturnPath(a) => {
            assert(q.trace[p.trace.len() as int] == TraceFieldV::ReturnPath(a));
            assert(spec_get_field(m, e) == Some(f));
        },
        _ => {
            assert(spec_get_field(m, e) == Some(f));
        },
    }
}

/// Fields added one after another to a header under construction.
pub open spec fn spec_add_fields(p: PartialImfV, fs: Seq<FieldV>) -> PartialImfV
    decreases fs.len(),
{
    if fs.len() == 0 {
        p
    } else {
        spec_add_field(spec_add_fields(p, fs.drop_last()), fs.last()).0
    }
}

/// The addresses of the fields of `fs` that the destination entry `e` (To,
/// Cc or Bcc) names, one list after the other.
pub open spec fn dest_added(fs: Seq<FieldV>, e: Entry) -> Seq<AddressRefV>
    decreases fs.len(),
{
    if fs.len() == 0 {
        seq![]
    } else {
        dest_added(fs.drop_last(), e) + match (fs.last(), e) {
            (FieldV::To(l), Entry::To) => l,
            (FieldV::Cc(l), Entry::Cc) => l,
            (FieldV::Bcc(l), Entry::Bcc) => l,
            _ => seq![],
        }
    }
}

/// A field read at an entry stays once set: adding any field keeps it,
/// To, Cc and Bcc apart.
proof fn lemma_read_stays(q: PartialImfV, g: FieldV, e: Entry, f: FieldV)
    requires
        e != Entry::To && e != Entry::Cc && e != Entry::Bcc,
        entry_in_range(spec_to_imf(q), e),
        spec_get_field(spec_to_imf(q), e) == Some(f),
    ensures
        entry_in_range(spec_to_imf(spec_add_field(q, g).0), e),
        spec_get_field(spec_to_imf(spec_add_field(q, g).0), e) == Some(f),
{
    let q1 = spec_add_field(q, g).0;
    assert(imf_sender_is(q) && imf_sender_is(q1));
    match e {
        Entry::From => {
            assert(q.from is Some);
            assert(q1.from == q.from);
            let l = q.from.unwrap();
            if l.len() == 1 {
                assert(seq![l[0]] =~= l);
            }
        },
        Entry::Comments(i) => {
            assert(q1.comments.len() >= q.comments.len());
            assert(q1.comments[i as int] == q.comments[i as int]);
        },
        Entry::Keywords(i) => {
            assert(q1.keywords[i as int] == q.keywords[i as int]);
        },
        Entry::Trace(i) => {
            assert(q1.trace[i as int] == q.trace[i as int]);
        },
        _ => {},
    }
}

proof fn lemma_accepted_field_stays(p: PartialImfV, f: FieldV, fs: Seq<FieldV>)
    requires
        nonempty_lists(f),
        lengths_fit(p),
        spec_add_field(p, f).1 matches Ok(e) && e != Entry::To && e != Entry::Cc && e != Entry::Bcc,
    ensures
        entry_in_range(
            spec_to_imf(spec_add_fields(spec_add_field(p, f).0, fs)),
            spec_add_field(p, f).1->Ok_0,
        ),
        spec_get_field(
            spec_to_imf(spec_add_fields(spec_add_field(p, f).0, fs)),
            spec_add_field(p, f).1->Ok_0,
        ) == Some(f),
    decreases fs.len(),
{
    let e = spec_add_field(p, f).1->Ok_0;
    if fs.len() == 0 {
        law_read_after_write(p, f);
    } else {
        lemma_accepted_field_stays(p, f, fs.drop_last());
        lemma_read_stays(spec_add_fields(spec_add_field(p, f).0, fs.drop_last()), fs.last(), e, f);
    }
}

/// What a read gives back of a write, whatever follows: when adding a
/// field to a header under construction returns an entry other than To, Cc
/// or Bcc, the header made after any further fields gives back that very
/// field for that entry.
pub proof fn law_accepted_field_stays(p: PartialImf, f: FieldV, fs: Seq<FieldV>)
    requires
        nonempty_lists(f),
        spec_add_field(p@, f).1 matches Ok(e) && e != Entry::To && e != Entry::Cc && e != Entry::Bcc,
    ensures
        entry_in_range(
            spec_to_imf(spec_add_fields(spec_add_field(p@, f).0, fs)),
            spec_add_field(p@, f).1->Ok_0,
        ),
        spec_get_field(
            spec_to_imf(spec_add_fields(spec_add_field(p@, f).0, fs)),
            spec_add_field(p@, f).1->Ok_0,
        ) == Some(f),
{
    p.lemma_lengths_fit();
    lemma_accepted_field_stays(p@, f, fs);
}

/// To, Cc and Bcc gather every list added for them, in order: the header
/// made after adding fields holds the lists it held, then those of the
/// fields added.
pub proof fn law_destination_lists_gather(p: PartialImfV, fs: Seq<FieldV>)
    ensures
        spec_to_imf(spec_add_fields(p, fs)).to == spec_to_imf(p).to + dest_added(fs, Entry::To),
        spec_to_imf(spec_add_fields(p, fs)).cc == spec_to_imf(p).cc + dest_added(fs, Entry::Cc),
        or_empty(spec_to_imf(spec_add_fields(p, fs)).bcc) == or_empty(spec_to_imf(p).bcc)
            + dest_added(fs, Entry::Bcc),
    decreases fs.len(),
{
    if fs.len() == 0 {
        assert(spec_to_imf(p).to + dest_added(fs, Entry::To) =~= spec_to_imf(p).to);
        assert(spec_to_imf(p).cc + dest_added(fs, Entry::Cc) =~= spec_to_imf(p).cc);
        assert(or_empty(spec_to_imf(p).bcc) + dest_added(fs, Entry::Bcc) =~= or_empty(
            spec_to_imf(p).bcc,
        ));
    } else {
        law_destination_lists_gather(p, fs.drop_last());
        let q = spec_add_fields(p, fs.drop_last());
        let g = fs.last();
        let q1 = spec_add_field(q, g).0;
        let a = dest_added(fs.drop_last(), Entry::To);
        let b = dest_added(fs.drop_last(), Entry::Cc);
        let c = dest_added(fs.drop_last(), Entry::Bcc);
        match g {
            FieldV::To(l) => {
                assert(or_empty(q1.to) =~= or_empty(q.to) + l);
                assert(spec_to_imf(p).to + (a + l) =~= spec_to_imf(p).to + a + l);
                assert(b + seq![] =~= b);
                assert(c + seq![] =~= c);
            },
            FieldV::Cc(l) => {
                assert(or_empty(q1.cc) =~= or_empty(q.cc) + l);
                assert(spec_to_imf(p).cc + (b + l) =~= spec_to_imf(p).cc + b + l);
                assert(a + seq![] =~= a);
                assert(c + seq![] =~= c);
            },
            FieldV::Bcc(l) => {
                assert(or_empty(q1.bcc) =~= or_empty(q.bcc) + l);
                assert(or_empty(spec_to_imf(p).bcc) + (c + l) =~= or_empty(spec_to_imf(p).bcc) + c + l);
                assert(a + seq![] =~= a);
                assert(b + seq![] =~= b);
            },
            _ => {
                assert(a + seq![] =~= a);
                assert(b + seq![] =~= b);
                assert(c + seq![] =~= c);
            },
        }
    }
}

/// An entry whose flag is set names a field that the header holds.
proof fn lemma_single_entry(m: ImfV, i: int)
    requires
        0 <= i < 11,
        single_entry_flags(m)[i].0,
    ensures
        entry_in_range(m, single_entry_flags(m)[i].1),
        spec_get_field(m, single_entry_flags(m)[i].1) is Some,
        single_entry_flags(m)[i].1 != Entry::MIMEVersion,
{
}

/// The entries that `selected` keeps have their flag set.
proof fn lemma_selected_contains(l: Seq<(bool, Entry)>, e: Entry)
    requires
        selected(l).contains(e),
    ensures
        exists|i: int| 0 <= i < l.len() && (#[trigger] l[i]).0 && l[i].1 == e,
    decreases l.len(),
{
    let p = selected(l.drop_last());
    let q = entry_if(l.last().0, l.last().1);
    let k = choose|k: int| 0 <= k < (p + q).len() && (p + q)[k] == e;
    if k < p.len() {
        assert(p[k] == e);
        lemma_selected_contains(l.drop_last(), e);
        let i = choose|i: int| 0 <= i < l.drop_last().len() && (#[trigger] l.drop_last()[i]).0
            && l.drop_last()[i].1 == e;
        assert(l[i] == l.drop_last()[i]);
    } else {
        assert(q[k - p.len()] == e);
        assert(l[l.len() - 1].0 && l[l.len() - 1].1 == e);
    }
}

/// The entries that a header lists are exactly the fields it holds: every
/// listed entry names a field of the header, and every field of the header
/// is listed, a trace field among the trace entries, any other among the
/// others.
pub proof fn law_entries_name_fields(m: ImfV, e: Entry)
    ensures
        spec_trace_entries(m).contains(e) || spec_other_entries(m).contains(e) ==> entry_in_range(m, e)
            && spec_get_field(m, e) is Some,
        entry_in_range(m, e) && spec_get_field(m, e) is Some ==> (e is Trace ==> spec_trace_entries(
            m,
        ).contains(e)) && (!(e is Trace) ==> spec_other_entries(m).contains(e)),
{
    lemma_entries_listed(m, e);
    if spec_trace_entries(m).contains(e) || spec_other_entries(m).contains(e) {
        lemma_listed_entries(m, e);
    }
}

/// Every field of a header is listed.
#[verifier::spinoff_prover]
#[verifier::rlimit(50)]
proof fn lemma_entries_listed(m: ImfV, e: Entry)
    ensures
        entry_in_range(m, e) && spec_get_field(m, e) is Some ==> (e is Trace ==> spec_trace_entries(
            m,
        ).contains(e)) && (!(e is Trace) ==> spec_other_entries(m).contains(e)),
{
    if entry_in_range(m, e) && spec_get_field(m, e) is Some {
        let a = selected(single_entry_flags(m));
        let c = comments_entries(m.comments.len());
        let w = keywords_entries(m.keywords.len());
        let v = entry_if(m.mime_version is Some, Entry::MIMEVersion);
        let o = spec_other_entries(m);
        assert(o == a + c + w + v);
        match e {
            Entry::Trace(i) => {
                assert(spec_trace_entries(m)[i as int] == e);
            },
            Entry::Comments(i) => {
                assert(c[i as int] == e);
                assert(o[a.len() + i] == e);
            },
            Entry::Keywords(i) => {
                assert(w[i as int] == e);
                assert(o[a.len() + c.len() + i] == e);
            },
            Entry::MIMEVersion => {
                assert(o[(a.len() + c.len() + w.len()) as int] == e);
            },
            Entry::Date => lemma_single_listed(m, 0),
            Entry::From => lemma_single_listed(m, 1),
            Entry::Sender => lemma_single_listed(m, 2),
            Entry::ReplyTo => lemma_single_listed(m, 3),
            Entry::To => lemma_single_listed(m, 4),
            Entry::Cc => lemma_single_listed(m, 5),
            Entry::Bcc => lemma_single_listed(m, 6),
            Entry::MessageID => lemma_single_listed(m, 7),
            Entry::InReplyTo => lemma_single_listed(m, 8),
            Entry::References => lemma_single_listed(m, 9),
            Entry::Subject => lemma_single_listed(m, 10),
        }
    }
}

/// A field held once whose flag is set is listed.
proof fn lemma_single_listed(m: ImfV, k: int)
    requires
        0 <= k < 11,
        single_entry_flags(m)[k].0,
    ensures
        spec_other_entries(m).contains(single_entry_flags(m)[k].1),
{
    let a = selected(single_entry_flags(m));
    lemma_selected_has(single_entry_flags(m), k);
    let j = choose|j: int| 0 <= j < a.len() && a[j] == single_entry_flags(m)[k].1;
    assert(spec_other_entries(m)[j] == a[j]);
}

/// An entry whose flag is set is selected.
proof fn lemma_selected_has(l: Seq<(bool, Entry)>, k: int)
    requires
        0 <= k < l.len(),
        l[k].0,
    ensures
        exists|j: int| 0 <= j < selected(l).len() && selected(l)[j] == l[k].1,
    decreases l.len(),
{
    let p = selected(l.drop_last());
    let q = entry_if(l.last().0, l.last().1);
    assert(selected(l) == p + q);
    if k == l.len() - 1 {
        assert(selected(l)[p.len() as int] == l[k].1);
    } else {
        assert(l.drop_last()[k] == l[k]);
        lemma_selected_has(l.drop_last(), k);
        let j = choose|j: int| 0 <= j < p.len() && p[j] == l[k].1;
        assert(selected(l)[j] == l[k].1);
    }
}

/// Every listed entry names a field of the header.
proof fn lemma_listed_entries(m: ImfV, e: Entry)
    requires
        spec_trace_entries(m).contains(e) || spec_other_entries(m).contains(e),
    ensures
        entry_in_range(m, e),
        spec_get_field(m, e) is Some,
{
    if spec_trace_entries(m).contains(e) {
        let k = choose|k: int| 0 <= k < spec_trace_entries(m).len() && spec_trace_entries(m)[k] == e;
        assert(e == Entry::Trace(k as usize));
    } else {
        let o = spec_other_entries(m);
        let k = choose|k: int| 0 <= k < o.len() && o[k] == e;
        let a = selected(single_entry_flags(m));
        let c = comments_entries(m.comments.len());
        let w = keywords_entries(m.keywords.len());
        if k < a.len() {
            assert(a[k] == e);
            assert(a.contains(e));
            lemma_selected_contains(single_entry_flags(m), e);
            let i = choose|i: int| 0 <= i < single_entry_flags(m).len() && (#[trigger] single_entry_flags(m)[i]).0
                && single_entry_flags(m)[i].1 == e;
            lemma_single_entry(m, i);
        } else if k < a.len() + c.len() {
            assert(e == c[k - a.len()]);
            assert(e == Entry::Comments((k - a.len()) as usize));
        } else if k < a.len() + c.len() + w.len() {
            assert(e == w[k - a.len() - c.len()]);
            assert(e == Entry::Keywords((k - a.len() - c.len()) as usize));
        } else {
            assert(e == Entry::MIMEVersion);
            assert(m.mime_version is Some);
        }
    }
}

} // verus!
