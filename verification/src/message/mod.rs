//! Top-level messages: their header fields, parsed, and their body.
pub mod field;

use vstd::prelude::*;

use crate::dup::{Duplicate, seq_view};
use crate::header::{FieldRawV, header_kv, spec_header_kv};
use crate::imf::{
    self, Imf, ImfV, PartialImfV, spec_to_imf, spec_get_field, entry_in_range, spec_add_field, lengths_fit,
    holds_entry, lists_nonempty, lemma_add_field_appears, lemma_add_field_nonempty,
};
use crate::imf::field::{field_panics, spec_field, FieldKind, kind_of_name};
use crate::message::field::{MessageEntry, MessageEntryV, MessageField, MessageFieldV, NaiveMessageFields, FieldsState, spec_collect_fields, spec_field_step, no_field_panics};
use crate::mime::{self, AnyMIME, AnyMIMEV, DefaultType, NaiveMIMEV, spec_to_interpreted, spec_mime_get_field};
use crate::text::ascii;

verus! {

/// A complete top-level message: its IMF header, its MIME header, its body
/// as raw bytes, and the entries of its header fields in order.
#[derive(Debug, PartialEq, Eq)]
pub struct Message {
    pub imf: Imf,
    pub mime: AnyMIME,
    pub body: Vec<u8>,
    pub entries: Vec<MessageEntry>,
    pub raw: Vec<u8>,
    pub raw_headers: Vec<u8>,
}

/// Every entry names a field that the headers hold.
pub open spec fn entries_resolve(m: ImfV, x: AnyMIMEV, entries: Seq<MessageEntryV>) -> bool {
    forall|i: int|
        0 <= i < entries.len() ==> match #[trigger] entries[i] {
            MessageEntryV::MIME { e, .. } => spec_mime_get_field(x, e) is Some,
            MessageEntryV::Imf { e, .. } => entry_in_range(m, e) && spec_get_field(m, e) is Some,
            MessageEntryV::Unstructured(_) => true,
        }
}

impl Message {
    /// Every entry names a field that the headers hold.
    pub open spec fn wf(&self) -> bool {
        entries_resolve(self.imf@, self.mime@, seq_view(self.entries@))
    }
}

/// The field that an entry names.
pub open spec fn entry_field(m: ImfV, x: AnyMIMEV, e: MessageEntryV) -> MessageFieldV {
    match e {
        MessageEntryV::MIME { e, raw_body } => MessageFieldV::MIME {
            f: spec_mime_get_field(x, e).unwrap(),
            raw_body,
        },
        MessageEntryV::Imf { e, raw_body } => MessageFieldV::Imf {
            f: spec_get_field(m, e).unwrap(),
            raw_body,
        },
        MessageEntryV::Unstructured(u) => MessageFieldV::Unstructured(u),
    }
}

impl Message {
    /// The header fields of this message, in order.
    pub fn field_list(&self) -> (r: Vec<MessageField>)
        requires
            self.wf(),
        ensures
            r@.len() == self.entries@.len(),
            forall|i: int|
                0 <= i < r@.len() ==> (#[trigger] r@[i])@ == entry_field(
                    self.imf@,
                    self.mime@,
                    self.entries@[i]@,
                ),
    {
        let mut v: Vec<MessageField> = Vec::new();
        let mut i: usize = 0;
        while i < self.entries.len()
            invariant
                i <= self.entries.len(),
                self.wf(),
                v@.len() == i,
                forall|k: int|
                    0 <= k < i ==> (#[trigger] v@[k])@ == entry_field(
                        self.imf@,
                        self.mime@,
                        self.entries@[k]@,
                    ),
            decreases self.entries.len() - i,
        {
            assert(seq_view(self.entries@)[i as int] == self.entries@[i as int]@);
            let field = match &self.entries[i] {
                MessageEntry::MIME { e, raw_body } => {
                    match self.mime.get_field(*e) {
                        Some(f) => MessageField::MIME { f, raw_body: raw_body.duplicate() },
                        None => {
                            assert(false);
                            return v;
                        },
                    }
                },
                MessageEntry::Imf { e, raw_body } => {
                    match self.imf.get_field(*e) {
                        Some(f) => MessageField::Imf { f, raw_body: raw_body.duplicate() },
                        None => {
                            assert(false);
                            return v;
                        },
                    }
                },
                MessageEntry::Unstructured(u) => MessageField::Unstructured(u.duplicate()),
            };
            v.push(field);
            i += 1;
        }
        v
    }
}

/// The header fields of a message have bodies that their parsers have an
/// answer on (see `field_panics`).
pub open spec fn message_parses(s: Seq<u8>) -> bool {
    no_field_panics(spec_header_kv(s).1)
}

/// The headers of a message, gathered.
pub open spec fn spec_message_fields(s: Seq<u8>) -> FieldsState {
    spec_collect_fields(spec_header_kv(s).1)
}

// ---------------------------------------------------------------- invariant

/// A MIME entry names a field that the gathered MIME fields hold.
pub open spec fn naive_resolves(p: NaiveMIMEV, e: mime::field::Entry) -> bool {
    match e {
        mime::field::Entry::ID => p.id is Some,
        mime::field::Entry::Description => p.description is Some,
        _ => true,
    }
}

/// An IMF entry names a field of the header that a header under
/// construction makes.
pub open spec fn imf_resolves(p: PartialImfV, e: imf::field::Entry) -> bool {
    entry_in_range(spec_to_imf(p), e) && spec_get_field(spec_to_imf(p), e) is Some
}

/// Every entry gathered so far names a field, and there are no more
/// repeated IMF fields than fields taken into account.
pub open spec fn state_ok(st: FieldsState, n: int) -> bool {
    &&& forall|i: int|
        0 <= i < st.entries.len() ==> match #[trigger] st.entries[i] {
            MessageEntryV::MIME { e, .. } => naive_resolves(st.mime, e),
            MessageEntryV::Imf { e, .. } => imf_resolves(st.imf, e),
            MessageEntryV::Unstructured(_) => true,
        }
    &&& st.imf.comments.len() + st.imf.keywords.len() + st.imf.trace.len() <= n
}

/// Adding an IMF field keeps every entry of the header naming a field: a
/// field once set stays, lists only grow.
proof fn lemma_add_field_keeps(p: PartialImfV, f: imf::field::FieldV, e: imf::field::Entry)
    requires
        imf_resolves(p, e),
    ensures
        imf_resolves(spec_add_field(p, f).0, e),
{
    let q = spec_add_field(p, f).0;
    assert(q.comments.len() >= p.comments.len());
    assert(q.keywords.len() >= p.keywords.len());
    assert(q.trace.len() >= p.trace.len());
    match e {
        imf::field::Entry::Comments(i) => {
            assert(q.comments[i as int] == p.comments[i as int]);
        },
        imf::field::Entry::Keywords(i) => {
            assert(q.keywords[i as int] == p.keywords[i as int]);
        },
        imf::field::Entry::Trace(i) => {
            assert(q.trace[i as int] == p.trace[i as int]);
        },
        imf::field::Entry::From => {
            assert(q.from is Some);
        },
        imf::field::Entry::Sender => {
            assert(imf::spec_sender(spec_to_imf(p).from) == p.sender);
            assert(imf::spec_sender(spec_to_imf(q).from) == q.sender);
        },
        _ => {},
    }
}

/// One field taken into account keeps every entry naming a field.
proof fn lemma_step_ok(st: FieldsState, f: FieldRawV, n: int)
    requires
        state_ok(st, n),
        n + 1 <= usize::MAX,
    ensures
        state_ok(spec_field_step(st, f), n + 1),
{
    reveal(spec_field_step);
    let st2 = spec_field_step(st, f);
    match crate::mime::field::spec_naive_field(f.name, f.body) {
        Ok(mf) => {
            assert forall|i: int| 0 <= i < st2.entries.len() implies match #[trigger] st2.entries[i] {
                MessageEntryV::MIME { e, .. } => naive_resolves(st2.mime, e),
                MessageEntryV::Imf { e, .. } => imf_resolves(st2.imf, e),
                MessageEntryV::Unstructured(_) => true,
            } by {
                if i < st.entries.len() {
                    assert(st2.entries[i] == st.entries[i]);
                }
            }
        },
        Err(crate::mime::field::InvalidField::Body) => {},
        Err(crate::mime::field::InvalidField::Name) => match spec_field(f.name, f.body) {
            Ok(imff) => {
                let (p, r) = spec_add_field(st.imf, imff);
                assert(lengths_fit(st.imf));
                if r is Ok {
                    crate::imf::field::lemma_parsed_lists_nonempty(f.name, f.body);
                    imf::law_read_after_write(st.imf, imff);
                }
                assert forall|i: int| 0 <= i < st2.entries.len() implies match #[trigger] st2.entries[i] {
                    MessageEntryV::MIME { e, .. } => naive_resolves(st2.mime, e),
                    MessageEntryV::Imf { e, .. } => imf_resolves(st2.imf, e),
                    MessageEntryV::Unstructured(_) => true,
                } by {
                    if i < st.entries.len() {
                        assert(st2.entries[i] == st.entries[i]);
                        if let MessageEntryV::Imf { e, .. } = st.entries[i] {
                            lemma_add_field_keeps(st.imf, imff, e);
                        }
                    }
                }
            },
            Err(crate::imf::field::InvalidField::Name) => {
                assert forall|i: int| 0 <= i < st2.entries.len() implies match #[trigger] st2.entries[i] {
                    MessageEntryV::MIME { e, .. } => naive_resolves(st2.mime, e),
                    MessageEntryV::Imf { e, .. } => imf_resolves(st2.imf, e),
                    MessageEntryV::Unstructured(_) => true,
                } by {
                    if i < st.entries.len() {
                        assert(st2.entries[i] == st.entries[i]);
                    }
                }
            },
            Err(_) => {},
        },
    }
}

/// Every entry gathered from a list of fields names a field.
proof fn lemma_collect_ok(fs: Seq<FieldRawV>)
    requires
        fs.len() <= usize::MAX,
    ensures
        state_ok(spec_collect_fields(fs), fs.len() as int),
    decreases fs.len(),
{
    if fs.len() > 0 {
        lemma_collect_ok(fs.drop_last());
        lemma_step_ok(spec_collect_fields(fs.drop_last()), fs.last(), fs.len() - 1);
    }
}

/// The gathered fields make a well-formed message header.
proof fn lemma_fields_resolve(fs: Seq<FieldRawV>)
    requires
        fs.len() <= usize::MAX,
    ensures
        entries_resolve(
            spec_to_imf(spec_collect_fields(fs).imf),
            spec_to_interpreted(spec_collect_fields(fs).mime, DefaultType::Generic),
            spec_collect_fields(fs).entries,
        ),
{
    let st = spec_collect_fields(fs);
    lemma_collect_ok(fs);
    mime::law_interpreted_keeps_fields(st.mime, DefaultType::Generic);
}

/// Whether the parser of a field body has no answer on it; see
/// `field_panics`.
pub fn field_would_panic(f: &crate::header::FieldRaw) -> (r: bool)
    ensures
        r == field_panics(f.name@, f.body@),
{
    reveal(field_panics);
    match kind_of_name(f.name.bytes()) {
        FieldKind::Date => crate::imf::datetime::checked_date_time(f.body, 0).is_none(),
        FieldKind::MIMEVersion => crate::imf::mime::checked_version(f.body, 0).is_none(),
        _ => false,
    }
}

fn fields_would_panic(fields: &Vec<crate::header::FieldRaw>) -> (r: bool)
    ensures
        r == !no_field_panics(seq_view(fields@)),
{
    let mut i: usize = 0;
    while i < fields.len()
        invariant
            i <= fields.len(),
            forall|k: int| 0 <= k < i ==> !field_panics(#[trigger] seq_view(fields@)[k].name, seq_view(fields@)[k].body),
        decreases fields.len() - i,
    {
        assert(seq_view(fields@)[i as int] == fields@[i as int]@);
        if field_would_panic(&fields[i]) {
            assert(field_panics(seq_view(fields@)[i as int].name, seq_view(fields@)[i as int].body));
            return true;
        }
        i += 1;
    }
    false
}

/// Parses a top-level message: its header fields up to the first empty
/// line, then its body, kept as raw bytes.
pub fn message(s: &[u8]) -> (r: Message)
    requires
        message_parses(s@),
    ensures
        r.imf@ == spec_to_imf(spec_message_fields(s@).imf),
        r.mime@ == spec_to_interpreted(spec_message_fields(s@).mime, DefaultType::Generic),
        seq_view(r.entries@) == spec_message_fields(s@).entries,
        r.body@ == s@.subrange(spec_header_kv(s@).0, s@.len() as int),
        r.raw@ == s@,
        r.raw_headers@ == s@.subrange(0, spec_header_kv(s@).0),
        r.wf(),
{
    let (input_body, headers) = header_kv(s);
    let fields = NaiveMessageFields::from_iter(&headers);
    let n = headers.len();
    proof {
        assert(seq_view(headers@).len() == n);
        lemma_fields_resolve(seq_view(headers@));
    }
    let mime = fields.mime.to_interpreted(DefaultType::Generic);
    let head_len = s.len() - input_body.len();
    Message {
        imf: fields.imf,
        mime,
        body: ascii::bytes_to_vec(input_body),
        entries: fields.entries,
        raw: ascii::bytes_to_vec(s),
        raw_headers: ascii::sub_to_vec(s, 0, head_len),
    }
}

/// Parses a top-level message, or `None` when the parser of one of its
/// field bodies has no answer on it.
pub fn checked_message(s: &[u8]) -> (r: Option<Message>)
    ensures
        r is Some <==> message_parses(s@),
        r matches Some(m) ==> {
            &&& m.imf@ == spec_to_imf(spec_message_fields(s@).imf)
            &&& m.mime@ == spec_to_interpreted(spec_message_fields(s@).mime, DefaultType::Generic)
            &&& seq_view(m.entries@) == spec_message_fields(s@).entries
            &&& m.body@ == s@.subrange(spec_header_kv(s@).0, s@.len() as int)
            &&& m.raw@ == s@
            &&& m.raw_headers@ == s@.subrange(0, spec_header_kv(s@).0)
            &&& m.wf()
        },
{
    let (_, headers) = header_kv(s);
    if fields_would_panic(&headers) {
        None
    } else {
        Some(message(s))
    }
}

/// Parses only the IMF header of a message: the body that follows the
/// header, and the header.
pub fn imf<'a>(s: &'a [u8]) -> (r: (&'a [u8], Imf))
    requires
        message_parses(s@),
    ensures
        r.0@ == s@.subrange(spec_header_kv(s@).0, s@.len() as int),
        r.1@ == spec_to_imf(spec_message_fields(s@).imf),
{
    let (input_body, headers) = header_kv(s);
    let fields = NaiveMessageFields::from_iter(&headers);
    (input_body, fields.imf)
}


// ---------------------------------------------------------------- entries of a message

/// The IMF field that an entry names, if it names one.
pub open spec fn imf_entry_of(x: MessageEntryV) -> Option<imf::field::Entry> {
    match x {
        MessageEntryV::Imf { e, .. } => Some(e),
        _ => None,
    }
}

/// The MIME field that an entry names, if it names one.
pub open spec fn mime_entry_of(x: MessageEntryV) -> Option<mime::field::Entry> {
    match x {
        MessageEntryV::MIME { e, .. } => Some(e),
        _ => None,
    }
}

/// Some entry names the IMF field `e`.
pub open spec fn has_imf_entry(es: Seq<MessageEntryV>, e: imf::field::Entry) -> bool {
    exists|i: int| 0 <= i < es.len() && imf_entry_of(#[trigger] es[i]) == Some(e)
}

/// Some entry names the MIME field `e`.
pub open spec fn has_mime_entry(es: Seq<MessageEntryV>, e: mime::field::Entry) -> bool {
    exists|i: int| 0 <= i < es.len() && mime_entry_of(#[trigger] es[i]) == Some(e)
}

/// Every field that the IMF header holds has an entry.
pub open spec fn imf_entries_complete(p: PartialImfV, es: Seq<MessageEntryV>) -> bool {
    forall|e: imf::field::Entry| #[trigger] holds_entry(p, e) ==> has_imf_entry(es, e)
}

/// Every field that the MIME header gives has an entry.
pub open spec fn mime_entries_complete(p: NaiveMIMEV, es: Seq<MessageEntryV>) -> bool {
    &&& (p.ctype is Some ==> has_mime_entry(es, mime::field::Entry::Type))
    &&& (p.transfer_encoding is Some ==> has_mime_entry(es, mime::field::Entry::TransferEncoding))
    &&& (p.id is Some ==> has_mime_entry(es, mime::field::Entry::ID))
    &&& (p.description is Some ==> has_mime_entry(es, mime::field::Entry::Description))
}

pub open spec fn is_other_imf_entry(x: MessageEntryV) -> bool {
    imf_entry_of(x) matches Some(a) && !(a is Trace)
}

pub open spec fn is_trace_entry(x: MessageEntryV) -> bool {
    imf_entry_of(x) matches Some(a) && a is Trace
}

/// Trace entries come before every other IMF entry.
pub open spec fn trace_entries_first(es: Seq<MessageEntryV>) -> bool {
    forall|i: int, j: int|
        #![trigger es[i], es[j]]
        0 <= i < j < es.len() && is_other_imf_entry(es[i]) ==> !is_trace_entry(es[j])
}

/// Two entries of trace, comments or keywords fields name them in the order
/// of the header's lists.
pub open spec fn entries_ordered(a: Option<imf::field::Entry>, b: Option<imf::field::Entry>) -> bool {
    match (a, b) {
        (Some(imf::field::Entry::Trace(x)), Some(imf::field::Entry::Trace(y))) => x < y,
        (Some(imf::field::Entry::Comments(x)), Some(imf::field::Entry::Comments(y))) => x < y,
        (Some(imf::field::Entry::Keywords(x)), Some(imf::field::Entry::Keywords(y))) => x < y,
        _ => true,
    }
}

/// The entries of trace, comments and keywords fields come in the order of
/// the header's lists.
pub open spec fn list_entries_in_order(es: Seq<MessageEntryV>) -> bool {
    forall|i: int, j: int|
        #![trigger es[i], es[j]]
        0 <= i < j < es.len() ==> entries_ordered(imf_entry_of(es[i]), imf_entry_of(es[j]))
}

/// What the entries of a message keep while its fields are gathered.
pub open spec fn entries_laws(st: FieldsState) -> bool {
    &&& imf_entries_complete(st.imf, st.entries)
    &&& mime_entries_complete(st.mime, st.entries)
    &&& trace_entries_first(st.entries)
    &&& (forall|i: int| 0 <= i < st.entries.len() && is_other_imf_entry(#[trigger] st.entries[i])
        ==> st.imf.trace_complete)
    &&& list_entries_in_order(st.entries)
    &&& lists_nonempty(st.imf)
}

proof fn lemma_push_keeps_entries(es: Seq<MessageEntryV>, x: MessageEntryV)
    ensures
        forall|e: imf::field::Entry| has_imf_entry(es, e) ==> has_imf_entry(#[trigger] es.push(x), e),
        forall|e: mime::field::Entry| has_mime_entry(es, e) ==> has_mime_entry(#[trigger] es.push(x), e),
{
    assert forall|e: imf::field::Entry| has_imf_entry(es, e) implies has_imf_entry(#[trigger] es.push(x), e) by {
        let i = choose|i: int| 0 <= i < es.len() && imf_entry_of(#[trigger] es[i]) == Some(e);
        assert(es.push(x)[i] == es[i]);
    }
    assert forall|e: mime::field::Entry| has_mime_entry(es, e) implies has_mime_entry(#[trigger] es.push(x), e) by {
        let i = choose|i: int| 0 <= i < es.len() && mime_entry_of(#[trigger] es[i]) == Some(e);
        assert(es.push(x)[i] == es[i]);
    }
}

/// Pushing an entry that is neither an IMF nor ... keeps the order laws when
/// it is no trace entry after another IMF entry and no list entry out of order.
proof fn lemma_push_orders(es: Seq<MessageEntryV>, x: MessageEntryV)
    requires
        trace_entries_first(es),
        list_entries_in_order(es),
        is_trace_entry(x) ==> forall|i: int| 0 <= i < es.len() ==> !is_other_imf_entry(#[trigger] es[i]),
        forall|i: int| 0 <= i < es.len() ==> entries_ordered(imf_entry_of(#[trigger] es[i]), imf_entry_of(x)),
    ensures
        trace_entries_first(es.push(x)),
        list_entries_in_order(es.push(x)),
{
    let es2 = es.push(x);
    assert forall|i: int, j: int|
        #![trigger es2[i], es2[j]]
        0 <= i < j < es2.len() && is_other_imf_entry(es2[i]) implies !is_trace_entry(es2[j]) by {
        assert(es2[i] == es[i]);
        if j < es.len() {
            assert(es2[j] == es[j]);
        }
    }
    assert forall|i: int, j: int|
        #![trigger es2[i], es2[j]]
        0 <= i < j < es2.len() implies entries_ordered(imf_entry_of(es2[i]), imf_entry_of(es2[j])) by {
        assert(es2[i] == es[i]);
        if j < es.len() {
            assert(es2[j] == es[j]);
        }
    }
}


/// Taking one field into account keeps the laws of the entries.
proof fn lemma_step_laws(st: FieldsState, f: FieldRawV, n: int)
    requires
        state_ok(st, n),
        entries_laws(st),
        n + 1 <= usize::MAX,
    ensures
        entries_laws(spec_field_step(st, f)),
{
    reveal(spec_field_step);
    let st2 = spec_field_step(st, f);
    let es = st.entries;
    match crate::mime::field::spec_naive_field(f.name, f.body) {
        Ok(mf) => {
            let (m, oe) = crate::mime::spec_naive_add_field(st.mime, mf);
            if let Some(e) = oe {
                let x = MessageEntryV::MIME { e, raw_body: f.body };
                lemma_push_keeps_entries(es, x);
                lemma_push_orders(es, x);
                assert(mime_entry_of(es.push(x)[es.len() as int]) == Some(e));
                assert(has_mime_entry(es.push(x), e));
                assert forall|i: int| 0 <= i < st2.entries.len() && is_other_imf_entry(
                    #[trigger] st2.entries[i],
                ) implies st2.imf.trace_complete by {
                    if i < es.len() {
                        assert(st2.entries[i] == es[i]);
                    }
                }
            }
        },
        Err(crate::mime::field::InvalidField::Body) => {},
        Err(crate::mime::field::InvalidField::Name) => match crate::imf::field::spec_field(f.name, f.body) {
            Ok(imff) => {
                let (p, r) = spec_add_field(st.imf, imff);
                crate::imf::field::lemma_parsed_lists_nonempty(f.name, f.body);
                lemma_add_field_nonempty(st.imf, imff);
                assert(st.imf.trace_complete ==> p.trace_complete);
                match r {
                    Ok(e) => {
                        let x = MessageEntryV::Imf { e, raw_body: f.body };
                        lemma_push_keeps_entries(es, x);
                        assert(imf_entry_of(es.push(x)[es.len() as int]) == Some(e));
                        assert forall|e2: imf::field::Entry| #[trigger] holds_entry(p, e2) implies has_imf_entry(
                            es.push(x),
                            e2,
                        ) by {
                            lemma_add_field_appears(st.imf, imff, e2);
                            if holds_entry(st.imf, e2) {
                                assert(has_imf_entry(es, e2));
                            }
                        }
                        if is_trace_entry(x) {
                            assert(crate::imf::is_trace_field(imff));
                            assert(!st.imf.trace_complete);
                        }
                        assert forall|i: int| 0 <= i < es.len() implies entries_ordered(
                            imf_entry_of(#[trigger] es[i]),
                            imf_entry_of(x),
                        ) by {
                            if let MessageEntryV::Imf { e: a, .. } = es[i] {
                                assert(imf_resolves(st.imf, a));
                            }
                        }
                        lemma_push_orders(es, x);
                        assert forall|i: int| 0 <= i < st2.entries.len() && is_other_imf_entry(
                            #[trigger] st2.entries[i],
                        ) implies st2.imf.trace_complete by {
                            if i < es.len() {
                                assert(st2.entries[i] == es[i]);
                            }
                        }
                    },
                    Err(_) => {
                        assert forall|e2: imf::field::Entry| #[trigger] holds_entry(p, e2) implies has_imf_entry(
                            es,
                            e2,
                        ) by {
                            lemma_add_field_appears(st.imf, imff, e2);
                        }
                    },
                }
            },
            Err(crate::imf::field::InvalidField::Name) => {
                if let Some(u) = crate::header::spec_unstructured_field(f) {
                    let x = MessageEntryV::Unstructured(u);
                    lemma_push_keeps_entries(es, x);
                    lemma_push_orders(es, x);
                    assert forall|i: int| 0 <= i < st2.entries.len() && is_other_imf_entry(
                        #[trigger] st2.entries[i],
                    ) implies st2.imf.trace_complete by {
                        if i < es.len() {
                            assert(st2.entries[i] == es[i]);
                        }
                    }
                }
            },
            Err(_) => {},
        },
    }
}


proof fn lemma_collect_laws(fs: Seq<FieldRawV>)
    requires
        fs.len() <= usize::MAX,
    ensures
        entries_laws(spec_collect_fields(fs)),
    decreases fs.len(),
{
    if fs.len() > 0 {
        lemma_collect_laws(fs.drop_last());
        lemma_collect_ok(fs.drop_last());
        lemma_step_laws(spec_collect_fields(fs.drop_last()), fs.last(), fs.len() - 1);
    } else {
        let st = spec_collect_fields(fs);
        assert forall|e: imf::field::Entry| #[trigger] holds_entry(st.imf, e) implies has_imf_entry(
            st.entries,
            e,
        ) by {
            assert(!holds_entry(st.imf, e));
        }
    }
}

/// The entries of a parsed message: every field that its IMF header holds
/// and every field that its MIME header gives has an entry; trace fields
/// come before every other IMF field; and the entries of trace, comments
/// and keywords fields come in the order of the header's lists.
pub proof fn law_message_entries(s: Seq<u8>)
    requires
        spec_header_kv(s).1.len() <= usize::MAX,
    ensures
        imf_entries_complete(spec_message_fields(s).imf, spec_message_fields(s).entries),
        mime_entries_complete(spec_message_fields(s).mime, spec_message_fields(s).entries),
        trace_entries_first(spec_message_fields(s).entries),
        list_entries_in_order(spec_message_fields(s).entries),
{
    lemma_collect_laws(spec_header_kv(s).1);
}

} // verus!
