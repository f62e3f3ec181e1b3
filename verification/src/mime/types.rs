//! Content-Type (RFC 2045 section 5, RFC 2046).
use vstd::prelude::*;
use vstd::string::StringSliceAdditionalSpecFns;
use crate::dup::{Duplicate, duplicate_vec, seq_view};
use crate::print::{
    Formatter, Print, bytes_allowed, free_text, no_crlf, unmarked, write_free, lemma_graphic_free,
    lemma_line_begun,
};
use crate::mime::charset::{charset_name, lemma_charset_name_graphic};
use crate::mime::charset::{EmailCharset, charset_of};
use crate::text::ascii::{self, lower, equals_lower, bytes_to_vec, lemma_lower_idempotent};
use crate::text::misc_token::{MIMEWord, MIMEWordV, spec_mime_word, mime_word, mime_word_text, mime_word_out};
use crate::text::quoted::QuotedString;
use crate::text::recovery::{spec_take_quoted_or_until, take_quoted_or_until};
use crate::text::tag::{spec_byte, byte, spec_tag, tag};
use crate::text::whitespace::{or_pos, spec_opt_cfws, opt_cfws};
use crate::text::words::{MIMEAtom, spec_mime_atom, mime_atom};

verus! {

// --------- NAIVE TYPE

/// A content-type parameter: `name=value`.
#[derive(Debug, PartialEq, Eq)]
pub struct Parameter {
    pub name: MIMEAtom,
    pub value: MIMEWord,
}

pub struct ParameterV {
    pub name: Seq<u8>,
    pub value: MIMEWordV,
}

impl View for Parameter {
    type V = ParameterV;

    open spec fn view(&self) -> ParameterV {
        ParameterV { name: self.name@, value: self.value@ }
    }
}

impl Duplicate for Parameter {
    fn duplicate(&self) -> (r: Parameter) {
        Parameter { name: self.name.duplicate(), value: self.value.duplicate() }
    }
}

/// A content type as written: main type, subtype, parameters.
#[derive(Debug, PartialEq, Eq)]
pub struct NaiveType {
    pub main: MIMEAtom,
    pub sub: MIMEAtom,
    pub params: Vec<Parameter>,
}

pub struct NaiveTypeV {
    pub main: Seq<u8>,
    pub sub: Seq<u8>,
    pub params: Seq<ParameterV>,
}

impl View for NaiveType {
    type V = NaiveTypeV;

    open spec fn view(&self) -> NaiveTypeV {
        NaiveTypeV { main: self.main@, sub: self.sub@, params: seq_view(self.params@) }
    }
}

impl Duplicate for NaiveType {
    fn duplicate(&self) -> (r: NaiveType) {
        NaiveType {
            main: self.main.duplicate(),
            sub: self.sub.duplicate(),
            params: duplicate_vec(&self.params),
        }
    }
}

/// `parameter = mime-atom ("=" / ":") mime-word`; ":" is not valid but
/// occurs in some emails.
pub open spec fn spec_parameter(s: Seq<u8>, i: int) -> Option<(int, ParameterV)> {
    match spec_mime_atom(s, i) {
        Some((j, name)) => {
            let k = match spec_byte(s, j, ascii::EQ) {
                Some(k) => Some(k),
                None => spec_byte(s, j, ascii::COL),
            };
            match k {
                Some(k) => match spec_mime_word(s, k) {
                    Some((e, v)) => Some((e, ParameterV { name, value: v })),
                    None => None,
                },
                None => None,
            }
        },
        None => None,
    }
}

pub fn parameter(s: &[u8], i: usize) -> (r: Option<(usize, Parameter)>)
    ensures
        match r {
            Some((j, p)) => spec_parameter(s@, i as int) == Some((j as int, p@)),
            None => spec_parameter(s@, i as int) is None,
        },
{
    match mime_atom(s, i) {
        Some((j, name)) => {
            let k = match byte(s, j, ascii::EQ) {
                Some(k) => Some(k),
                None => byte(s, j, ascii::COL),
            };
            match k {
                Some(k) => match mime_word(s, k) {
                    Some((e, v)) => Some((e, Parameter { name, value: v })),
                    None => None,
                },
                None => None,
            }
        },
        None => None,
    }
}

/// Recovery: skips junk up to the next ";" (quoted strings are skipped as a
/// whole).
pub open spec fn spec_param_junk(s: Seq<u8>, i: int) -> int {
    spec_take_quoted_or_until(s, spec_opt_cfws(s, i), ascii::SEM_COL)
}

/// One segment of a parameter list: junk, ";", and a parameter if one parses.
pub open spec fn spec_param_item(s: Seq<u8>, i: int) -> Option<(int, Seq<ParameterV>)> {
    let a = spec_param_junk(s, i);
    if 0 <= a < s.len() && s[a] == ascii::SEM_COL {
        match spec_parameter(s, a + 1) {
            Some((e, p)) => Some((e, seq![p])),
            None => Some((a + 1, seq![])),
        }
    } else {
        None
    }
}

pub open spec fn spec_param_items(s: Seq<u8>, i: int) -> (int, Seq<ParameterV>)
    decreases s.len() - i,
{
    match spec_param_item(s, i) {
        Some((j, p)) => if i < j <= s.len() {
            let (e, ps) = spec_param_items(s, j);
            (e, p + ps)
        } else {
            (i, seq![])
        },
        None => (i, seq![]),
    }
}

/// Parses a parameter list that follows a content-type.
///
/// ```abnf
///   parameter-list   =   *(";" (mime-atom "=" mime-word / any-not-semicolon)) [";"]
/// ```
/// Invalid segments are dropped; the list always ends at the end of its
/// input or of the junk that follows it.
pub open spec fn spec_parameter_list(s: Seq<u8>, i: int) -> (int, Seq<ParameterV>) {
    let (m, ps) = spec_param_items(s, i);
    let n = or_pos(spec_byte(s, m, ascii::SEM_COL), m);
    (spec_param_junk(s, n), ps)
}

fn param_junk(s: &[u8], i: usize) -> (r: usize)
    ensures
        r == spec_param_junk(s@, i as int),
{
    take_quoted_or_until(s, opt_cfws(s, i), ascii::SEM_COL)
}

fn param_item(s: &[u8], i: usize) -> (r: Option<(usize, Vec<Parameter>)>)
    ensures
        match r {
            Some((j, p)) => spec_param_item(s@, i as int) == Some((j as int, seq_view(p@))),
            None => spec_param_item(s@, i as int) is None,
        },
{
    let a = param_junk(s, i);
    if a < s.len() && s[a] == ascii::SEM_COL {
        let mut v: Vec<Parameter> = Vec::new();
        match parameter(s, a + 1) {
            Some((e, p)) => {
                v.push(p);
                assert(seq_view(v@) =~= seq![p@]);
                Some((e, v))
            },
            None => {
                assert(seq_view(v@) =~= Seq::<ParameterV>::empty());
                Some((a + 1, v))
            },
        }
    } else {
        None
    }
}

#[verifier::rlimit(40)]
pub fn parameter_list(s: &[u8], i: usize) -> (r: (usize, Vec<Parameter>))
    ensures
        spec_parameter_list(s@, i as int) == (r.0 as int, seq_view(r.1@)),
{
    let mut j = i;
    let mut acc: Vec<Parameter> = Vec::new();
    loop
        invariant
            i <= j,
            spec_param_items(s@, i as int).0 == spec_param_items(s@, j as int).0,
            spec_param_items(s@, i as int).1 == seq_view(acc@) + spec_param_items(s@, j as int).1,
        ensures
            spec_param_items(s@, i as int) == (j as int, seq_view(acc@)),
        decreases s.len() - j,
    {
        match param_item(s, j) {
            Some((k, p)) => {
                if j < k && k <= s.len() {
                    crate::dup::append_vec(&mut acc, p);
                    j = k;
                } else {
                    assert(seq_view(acc@) + Seq::<ParameterV>::empty() =~= seq_view(acc@));
                    break ;
                }
            },
            None => {
                assert(seq_view(acc@) + Seq::<ParameterV>::empty() =~= seq_view(acc@));
                break ;
            },
        }
    }
    let m = j;
    let n = match byte(s, m, ascii::SEM_COL) {
        Some(n) => n,
        None => m,
    };
    (param_junk(s, n), acc)
}

/// A broken content type written as a bare `broken` name.
pub open spec fn spec_recover_broken_type(s: Seq<u8>, i: int, broken: Seq<u8>) -> Option<int> {
    match spec_tag(s, spec_opt_cfws(s, i), broken) {
        Some(b) => Some(spec_opt_cfws(s, b)),
        None => None,
    }
}

/// `mime-atom "/" mime-atom`, or one of the broken types found in the real
/// world: "text" (text/plain) and ".pdf" (application/pdf).
pub open spec fn spec_type_pair(s: Seq<u8>, i: int) -> Option<(int, Seq<u8>, Seq<u8>)> {
    let strict = match spec_mime_atom(s, i) {
        Some((j, main)) => match spec_byte(s, j, ascii::SLASH) {
            Some(k) => match spec_mime_atom(s, k) {
                Some((e, sub)) => Some((e, main, sub)),
                None => None,
            },
            None => None,
        },
        None => None,
    };
    if strict is Some {
        strict
    } else if let Some(e) = spec_recover_broken_type(s, i, "text".spec_bytes()) {
        Some((e, "text".spec_bytes(), "plain".spec_bytes()))
    } else if let Some(e) = spec_recover_broken_type(s, i, ".pdf".spec_bytes()) {
        Some((e, "application".spec_bytes(), "pdf".spec_bytes()))
    } else {
        None
    }
}

/// `content-type = type-pair parameter-list`
pub open spec fn spec_naive_type(s: Seq<u8>, i: int) -> Option<(int, NaiveTypeV)> {
    match spec_type_pair(s, i) {
        Some((j, main, sub)) => {
            let (e, ps) = spec_parameter_list(s, j);
            Some((e, NaiveTypeV { main, sub, params: ps }))
        },
        None => None,
    }
}

fn recover_broken_type(s: &[u8], i: usize, broken: &[u8]) -> (r: Option<usize>)
    ensures
        crate::text::whitespace::opt_int(r) == spec_recover_broken_type(s@, i as int, broken@),
{
    match tag(s, opt_cfws(s, i), broken) {
        Some(b) => Some(opt_cfws(s, b)),
        None => None,
    }
}

fn strict_type_pair(s: &[u8], i: usize) -> (r: Option<(usize, MIMEAtom, MIMEAtom)>)
    ensures
        match r {
            Some((e, m, t)) => spec_type_pair(s@, i as int) == Some((e as int, m@, t@)),
            None => true,
        },
        r is None ==> (match spec_mime_atom(s@, i as int) {
            Some((j, main)) => match spec_byte(s@, j, ascii::SLASH) {
                Some(k) => spec_mime_atom(s@, k) is None,
                None => true,
            },
            None => true,
        }),
{
    match mime_atom(s, i) {
        Some((j, main)) => match byte(s, j, ascii::SLASH) {
            Some(k) => match mime_atom(s, k) {
                Some((e, sub)) => Some((e, main, sub)),
                None => None,
            },
            None => None,
        },
        None => None,
    }
}

fn type_pair(s: &[u8], i: usize) -> (r: Option<(usize, MIMEAtom, MIMEAtom)>)
    ensures
        match r {
            Some((e, m, t)) => spec_type_pair(s@, i as int) == Some((e as int, m@, t@)),
            None => spec_type_pair(s@, i as int) is None,
        },
{
    if let Some(t) = strict_type_pair(s, i) {
        return Some(t);
    }
    if let Some(e) = recover_broken_type(s, i, "text".as_bytes()) {
        Some((e, MIMEAtom(bytes_to_vec("text".as_bytes())), MIMEAtom(bytes_to_vec("plain".as_bytes()))))
    } else if let Some(e) = recover_broken_type(s, i, ".pdf".as_bytes()) {
        Some((e, MIMEAtom(bytes_to_vec("application".as_bytes())), MIMEAtom(bytes_to_vec("pdf".as_bytes()))))
    } else {
        None
    }
}

/// Parses a Content-Type body.
pub fn naive_type(s: &[u8], i: usize) -> (r: Option<(usize, NaiveType)>)
    ensures
        match r {
            Some((e, t)) => spec_naive_type(s@, i as int) == Some((e as int, t@)),
            None => spec_naive_type(s@, i as int) is None,
        },
{
    match type_pair(s, i) {
        Some((j, main, sub)) => {
            let (e, params) = parameter_list(s, j);
            Some((e, NaiveType { main, sub, params }))
        },
        None => None,
    }
}

// MIME TYPES AS RUST TYPES

/// The first parameter named `name` (lower case), ignoring case.
pub open spec fn first_named(ps: Seq<ParameterV>, name: Seq<u8>) -> Option<ParameterV>
    decreases ps.len(),
{
    if ps.len() == 0 {
        None
    } else {
        match first_named(ps.drop_last(), name) {
            Some(p) => Some(p),
            None => if lower(ps.last().name) == name {
                Some(ps.last())
            } else {
                None
            },
        }
    }
}

/// The parameters not named `name` (lower case), ignoring case, in order.
pub open spec fn without_named(ps: Seq<ParameterV>, name: Seq<u8>) -> Seq<ParameterV>
    decreases ps.len(),
{
    if ps.len() == 0 {
        ps
    } else if lower(ps.last().name) == name {
        without_named(ps.drop_last(), name)
    } else {
        without_named(ps.drop_last(), name).push(ps.last())
    }
}

#[derive(Debug, PartialEq, Eq)]
pub enum MultipartSubtype {
    Alternative,
    Mixed,
    Digest,
    Parallel,
    Report,
    /// neither of the above (capitalization does not matter); should be
    /// treated as Mixed
    Unknown(MIMEAtom),
}

pub enum MultipartSubtypeV {
    Alternative,
    Mixed,
    Digest,
    Parallel,
    Report,
    Unknown(Seq<u8>),
}

impl View for MultipartSubtype {
    type V = MultipartSubtypeV;

    open spec fn view(&self) -> MultipartSubtypeV {
        match self {
            MultipartSubtype::Alternative => MultipartSubtypeV::Alternative,
            MultipartSubtype::Mixed => MultipartSubtypeV::Mixed,
            MultipartSubtype::Digest => MultipartSubtypeV::Digest,
            MultipartSubtype::Parallel => MultipartSubtypeV::Parallel,
            MultipartSubtype::Report => MultipartSubtypeV::Report,
            MultipartSubtype::Unknown(a) => MultipartSubtypeV::Unknown(a@),
        }
    }
}

pub open spec fn multipart_subtype_of(sub: Seq<u8>) -> MultipartSubtypeV {
    let l = lower(sub);
    if l == "alternative".spec_bytes() {
        MultipartSubtypeV::Alternative
    } else if l == "mixed".spec_bytes() {
        MultipartSubtypeV::Mixed
    } else if l == "digest".spec_bytes() {
        MultipartSubtypeV::Digest
    } else if l == "parallel".spec_bytes() {
        MultipartSubtypeV::Parallel
    } else if l == "report".spec_bytes() {
        MultipartSubtypeV::Report
    } else {
        MultipartSubtypeV::Unknown(sub)
    }
}

pub open spec fn multipart_subtype_bytes(t: MultipartSubtypeV) -> Seq<u8> {
    match t {
        MultipartSubtypeV::Alternative => "alternative".spec_bytes(),
        MultipartSubtypeV::Mixed => "mixed".spec_bytes(),
        MultipartSubtypeV::Digest => "digest".spec_bytes(),
        MultipartSubtypeV::Parallel => "parallel".spec_bytes(),
        MultipartSubtypeV::Report => "report".spec_bytes(),
        MultipartSubtypeV::Unknown(v) => v,
    }
}

impl MultipartSubtype {
    pub fn as_bytes(&self) -> (r: &[u8])
        ensures
            r@ == multipart_subtype_bytes(self@),
    {
        match self {
            MultipartSubtype::Alternative => "alternative".as_bytes(),
            MultipartSubtype::Mixed => "mixed".as_bytes(),
            MultipartSubtype::Digest => "digest".as_bytes(),
            MultipartSubtype::Parallel => "parallel".as_bytes(),
            MultipartSubtype::Report => "report".as_bytes(),
            MultipartSubtype::Unknown(v) => v.0.as_slice(),
        }
    }

    /// The multipart subtype of a naive type, by its subtype name.
    pub fn from(nt: &NaiveType) -> (r: MultipartSubtype)
        ensures
            r@ == multipart_subtype_of(nt.sub@),
    {
        let sub = nt.sub.0.as_slice();
        if equals_lower(sub, "alternative".as_bytes()) {
            MultipartSubtype::Alternative
        } else if equals_lower(sub, "mixed".as_bytes()) {
            MultipartSubtype::Mixed
        } else if equals_lower(sub, "digest".as_bytes()) {
            MultipartSubtype::Digest
        } else if equals_lower(sub, "parallel".as_bytes()) {
            MultipartSubtype::Parallel
        } else if equals_lower(sub, "report".as_bytes()) {
            MultipartSubtype::Report
        } else {
            MultipartSubtype::Unknown(nt.sub.duplicate())
        }
    }
}

impl Duplicate for MultipartSubtype {
    fn duplicate(&self) -> (r: MultipartSubtype) {
        match self {
            MultipartSubtype::Alternative => MultipartSubtype::Alternative,
            MultipartSubtype::Mixed => MultipartSubtype::Mixed,
            MultipartSubtype::Digest => MultipartSubtype::Digest,
            MultipartSubtype::Parallel => MultipartSubtype::Parallel,
            MultipartSubtype::Report => MultipartSubtype::Report,
            MultipartSubtype::Unknown(v) => MultipartSubtype::Unknown(v.duplicate()),
        }
    }
}

#[derive(Debug, Clone, Copy, PartialEq, Eq, Structural)]
pub enum MessageSubtype {
    RFC822,
    /// RFC 6532 subtype (message containing UTF-8 headers)
    Global,
}

impl Default for MessageSubtype {
    fn default() -> (r: MessageSubtype)
        ensures
            r == MessageSubtype::RFC822,
    {
        MessageSubtype::RFC822
    }
}

pub open spec fn message_subtype_of(sub: Seq<u8>) -> Option<MessageSubtype> {
    let l = lower(sub);
    if l == "rfc822".spec_bytes() {
        Some(MessageSubtype::RFC822)
    } else if l == "global".spec_bytes() {
        Some(MessageSubtype::Global)
    } else {
        None
    }
}

pub open spec fn message_subtype_bytes(t: MessageSubtype) -> Seq<u8> {
    match t {
        MessageSubtype::RFC822 => "rfc822".spec_bytes(),
        MessageSubtype::Global => "global".spec_bytes(),
    }
}

impl MessageSubtype {
    pub fn as_bytes(&self) -> (r: &'static [u8])
        ensures
            r@ == message_subtype_bytes(*self),
    {
        match self {
            MessageSubtype::RFC822 => "rfc822".as_bytes(),
            MessageSubtype::Global => "global".as_bytes(),
        }
    }

    /// The message subtype of a naive type; fails on unsupported subtypes.
    pub fn try_from(nt: &NaiveType) -> (r: Result<MessageSubtype, ()>)
        ensures
            match r {
                Ok(t) => message_subtype_of(nt.sub@) == Some(t),
                Err(_) => message_subtype_of(nt.sub@) is None,
            },
    {
        let sub = nt.sub.0.as_slice();
        if equals_lower(sub, "rfc822".as_bytes()) {
            Ok(MessageSubtype::RFC822)
        } else if equals_lower(sub, "global".as_bytes()) {
            Ok(MessageSubtype::Global)
        } else {
            Err(())
        }
    }
}

#[derive(Debug, PartialEq, Eq)]
pub enum TextSubtype {
    Plain,
    Html,
    /// none of the above
    Unknown(MIMEAtom),
}

pub enum TextSubtypeV {
    Plain,
    Html,
    Unknown(Seq<u8>),
}

impl View for TextSubtype {
    type V = TextSubtypeV;

    open spec fn view(&self) -> TextSubtypeV {
        match self {
            TextSubtype::Plain => TextSubtypeV::Plain,
            TextSubtype::Html => TextSubtypeV::Html,
            TextSubtype::Unknown(a) => TextSubtypeV::Unknown(a@),
        }
    }
}

impl Duplicate for TextSubtype {
    fn duplicate(&self) -> (r: TextSubtype) {
        match self {
            TextSubtype::Plain => TextSubtype::Plain,
            TextSubtype::Html => TextSubtype::Html,
            TextSubtype::Unknown(v) => TextSubtype::Unknown(v.duplicate()),
        }
    }
}

impl Default for TextSubtype {
    fn default() -> (r: TextSubtype)
        ensures
            r@ == TextSubtypeV::Plain,
    {
        TextSubtype::Plain
    }
}

pub open spec fn text_subtype_of(sub: Seq<u8>) -> TextSubtypeV {
    let l = lower(sub);
    if l == "plain".spec_bytes() {
        TextSubtypeV::Plain
    } else if l == "html".spec_bytes() {
        TextSubtypeV::Html
    } else {
        TextSubtypeV::Unknown(sub)
    }
}

pub open spec fn text_subtype_bytes(t: TextSubtypeV) -> Seq<u8> {
    match t {
        TextSubtypeV::Plain => "plain".spec_bytes(),
        TextSubtypeV::Html => "html".spec_bytes(),
        TextSubtypeV::Unknown(v) => v,
    }
}

impl TextSubtype {
    pub fn as_bytes(&self) -> (r: &[u8])
        ensures
            r@ == text_subtype_bytes(self@),
    {
        match self {
            TextSubtype::Plain => "plain".as_bytes(),
            TextSubtype::Html => "html".as_bytes(),
            TextSubtype::Unknown(b) => b.0.as_slice(),
        }
    }

    pub fn from(nt: &NaiveType) -> (r: TextSubtype)
        ensures
            r@ == text_subtype_of(nt.sub@),
    {
        let sub = nt.sub.0.as_slice();
        if equals_lower(sub, "plain".as_bytes()) {
            TextSubtype::Plain
        } else if equals_lower(sub, "html".as_bytes()) {
            TextSubtype::Html
        } else {
            TextSubtype::Unknown(nt.sub.duplicate())
        }
    }
}

/// A multipart type.
///
/// `boundary` is the boundary that the parsed header gave, which the parser
/// of the body needs; it is `None` for a value built by hand.
#[derive(Debug, PartialEq, Eq)]
pub struct Multipart {
    pub subtype: MultipartSubtype,
    pub boundary: Option<Vec<u8>>,
    /// Invariant: parameters with .name != "boundary"
    pub other_params: Vec<Parameter>,
}

pub struct MultipartV {
    pub subtype: MultipartSubtypeV,
    pub boundary: Option<Seq<u8>>,
    pub other_params: Seq<ParameterV>,
}

pub open spec fn opt_bytes_view(o: Option<Vec<u8>>) -> Option<Seq<u8>> {
    match o {
        Some(v) => Some(v@),
        None => None,
    }
}

impl View for Multipart {
    type V = MultipartV;

    open spec fn view(&self) -> MultipartV {
        MultipartV {
            subtype: self.subtype@,
            boundary: opt_bytes_view(self.boundary),
            other_params: seq_view(self.other_params@),
        }
    }
}

/// The multipart type of a naive type: it needs a boundary parameter (the
/// first one is kept, further ones are dropped).
pub open spec fn multipart_of(nt: NaiveTypeV) -> Option<MultipartV> {
    match first_named(nt.params, "boundary".spec_bytes()) {
        Some(b) => Some(
            MultipartV {
                subtype: multipart_subtype_of(nt.sub),
                boundary: Some(mime_word_text(b.value)),
                other_params: without_named(nt.params, "boundary".spec_bytes()),
            },
        ),
        None => None,
    }
}

/// Splits off the first parameter named `name` (lower case): returns its text
/// and the parameters with another name.
fn split_named(params: &Vec<Parameter>, name: &[u8]) -> (r: (Option<Vec<u8>>, Vec<Parameter>))
    ensures
        match first_named(seq_view(params@), name@) {
            Some(p) => r.0 matches Some(v) && v@ == mime_word_text(p.value),
            None => r.0 is None,
        },
        seq_view(r.1@) == without_named(seq_view(params@), name@),
{
    let mut found: Option<Vec<u8>> = None;
    let mut others: Vec<Parameter> = Vec::new();
    let mut i: usize = 0;
    while i < params.len()
        invariant
            i <= params.len(),
            match first_named(seq_view(params@.take(i as int)), name@) {
                Some(p) => found matches Some(v) && v@ == mime_word_text(p.value),
                None => found is None,
            },
            seq_view(others@) == without_named(seq_view(params@.take(i as int)), name@),
        decreases params.len() - i,
    {
        let ghost pre = seq_view(params@.take(i as int));
        let ghost post = seq_view(params@.take(i + 1));
        assert(post.drop_last() =~= pre);
        assert(post.last() == params@[i as int]@);
        let p = &params[i];
        if equals_lower(p.name.0.as_slice(), name) {
            if found.is_none() {
                found = Some(p.value.chars());
            }
        } else {
            let ghost o0 = seq_view(others@);
            others.push(p.duplicate());
            assert(seq_view(others@) =~= o0.push(params@[i as int]@));
        }
        i += 1;
    }
    assert(params@.take(params.len() as int) =~= params@);
    (found, others)
}

/// The parameters of a multipart type: the boundary is quoted and last.
pub open spec fn multipart_params(m: MultipartV) -> Seq<ParameterV> {
    match m.boundary {
        Some(b) => m.other_params.push(
            ParameterV { name: "boundary".spec_bytes(), value: MIMEWordV::Quoted(seq![b]) },
        ),
        None => m.other_params,
    }
}

impl Multipart {
    /// The multipart type of a naive type; fails when there is no boundary.
    pub fn try_from(nt: &NaiveType) -> (r: Result<Multipart, ()>)
        ensures
            match r {
                Ok(m) => multipart_of(nt@) == Some(m@),
                Err(_) => multipart_of(nt@) is None,
            },
    {
        let (boundary, other_params) = split_named(&nt.params, "boundary".as_bytes());
        match boundary {
            Some(b) => Ok(
                Multipart { subtype: MultipartSubtype::from(nt), boundary: Some(b), other_params },
            ),
            None => Err(()),
        }
    }

    /// The parameters of this type, the boundary (quoted) last.
    pub fn params(&self) -> (r: Vec<Parameter>)
        ensures
            seq_view(r@) == multipart_params(self@),
    {
        let mut params = duplicate_vec(&self.other_params);
        match &self.boundary {
            Some(b) => {
                let ghost p0 = seq_view(params@);
                let mut chunks: Vec<Vec<u8>> = Vec::new();
                chunks.push(b.duplicate());
                let q = QuotedString(chunks);
                assert(q@ =~= seq![b@]);
                params.push(
                    Parameter {
                        name: MIMEAtom(bytes_to_vec("boundary".as_bytes())),
                        value: MIMEWord::Quoted(q),
                    },
                );
                assert(seq_view(params@) =~= p0.push(params@.last()@));
            },
            None => {},
        }
        params
    }
}

#[derive(Debug, PartialEq, Eq)]
pub struct Message {
    pub subtype: MessageSubtype,
    pub params: Vec<Parameter>,
}

pub struct MessageV {
    pub subtype: MessageSubtype,
    pub params: Seq<ParameterV>,
}

impl View for Message {
    type V = MessageV;

    open spec fn view(&self) -> MessageV {
        MessageV { subtype: self.subtype, params: seq_view(self.params@) }
    }
}

impl Default for Message {
    fn default() -> (r: Message)
        ensures
            r@ == (MessageV { subtype: MessageSubtype::RFC822, params: seq![] }),
    {
        let r = Message { subtype: MessageSubtype::RFC822, params: Vec::new() };
        assert(r@.params =~= Seq::<ParameterV>::empty());
        r
    }
}

pub open spec fn message_of(nt: NaiveTypeV) -> Option<MessageV> {
    match message_subtype_of(nt.sub) {
        Some(t) => Some(MessageV { subtype: t, params: nt.params }),
        None => None,
    }
}

impl Message {
    /// The message type of a naive type; fails if the subtype is not supported.
    pub fn try_from(nt: &NaiveType) -> (r: Result<Message, ()>)
        ensures
            match r {
                Ok(m) => message_of(nt@) == Some(m@),
                Err(_) => message_of(nt@) is None,
            },
    {
        match MessageSubtype::try_from(nt) {
            Ok(subtype) => Ok(Message { subtype, params: duplicate_vec(&nt.params) }),
            Err(e) => Err(e),
        }
    }
}

#[derive(Debug, PartialEq, Eq)]
pub struct Text {
    /// NOTE: an unknown subtype combined with an unknown charset should
    /// result in this type be treated as equivalent to the Binary type.
    pub subtype: TextSubtype,
    pub charset: EmailCharset,
    /// Invariant: parameters with .name != "charset"
    pub other_params: Vec<Parameter>,
}

pub struct TextV {
    pub subtype: TextSubtypeV,
    pub charset: EmailCharset,
    pub other_params: Seq<ParameterV>,
}

impl View for Text {
    type V = TextV;

    open spec fn view(&self) -> TextV {
        TextV {
            subtype: self.subtype@,
            charset: self.charset,
            other_params: seq_view(self.other_params@),
        }
    }
}

impl Default for Text {
    fn default() -> (r: Text)
        ensures
            r@ == (TextV {
                subtype: TextSubtypeV::Plain,
                charset: EmailCharset::US_ASCII,
                other_params: seq![],
            }),
    {
        let r = Text {
            subtype: TextSubtype::Plain,
            charset: EmailCharset::US_ASCII,
            other_params: Vec::new(),
        };
        assert(r@.other_params =~= Seq::<ParameterV>::empty());
        r
    }
}

/// The text type of a naive type: the first charset parameter gives the
/// charset (US-ASCII without one), further ones are dropped.
pub open spec fn text_of(nt: NaiveTypeV) -> TextV {
    TextV {
        subtype: text_subtype_of(nt.sub),
        charset: match first_named(nt.params, "charset".spec_bytes()) {
            Some(p) => charset_of(mime_word_text(p.value)),
            None => EmailCharset::US_ASCII,
        },
        other_params: without_named(nt.params, "charset".spec_bytes()),
    }
}

/// The parameters of a text type: the charset name is quoted and last.
pub open spec fn text_params(t: TextV) -> Seq<ParameterV> {
    t.other_params.push(
        ParameterV {
            name: "charset".spec_bytes(),
            value: MIMEWordV::Quoted(
                seq![crate::mime::charset::charset_name(t.charset).spec_bytes()],
            ),
        },
    )
}

impl Text {
    pub fn from(nt: &NaiveType) -> (r: Text)
        ensures
            r@ == text_of(nt@),
    {
        let (charset, other_params) = split_named(&nt.params, "charset".as_bytes());
        let charset = match charset {
            Some(v) => EmailCharset::from_bytes(v.as_slice()),
            None => EmailCharset::US_ASCII,
        };
        Text { subtype: TextSubtype::from(nt), charset, other_params }
    }

    /// The parameters of this type, the charset (quoted) last.
    pub fn params(&self) -> (r: Vec<Parameter>)
        ensures
            seq_view(r@) == text_params(self@),
    {
        let mut params = duplicate_vec(&self.other_params);
        let ghost p0 = seq_view(params@);
        let mut chunks: Vec<Vec<u8>> = Vec::new();
        chunks.push(bytes_to_vec(self.charset.as_bytes()));
        let q = QuotedString(chunks);
        assert(q@ =~= seq![crate::mime::charset::charset_name(self.charset).spec_bytes()]);
        params.push(
            Parameter {
                name: MIMEAtom(bytes_to_vec("charset".as_bytes())),
                value: MIMEWord::Quoted(q),
            },
        );
        assert(seq_view(params@) =~= p0.push(params@.last()@));
        params
    }
}

/// Any other type, kept as written.
#[derive(Debug, PartialEq, Eq)]
pub struct Binary {
    /// The type as written: its main type is not "text"; a "multipart" one
    /// has no boundary, and a "message" one an unsupported subtype.
    pub ctype: NaiveType,
}

pub struct BinaryV {
    pub ctype: NaiveTypeV,
}

impl View for Binary {
    type V = BinaryV;

    open spec fn view(&self) -> BinaryV {
        BinaryV { ctype: self.ctype@ }
    }
}

impl Binary {
    pub fn from(nt: &NaiveType) -> (r: Binary)
        ensures
            r@ == (BinaryV { ctype: nt@ }),
    {
        Binary { ctype: nt.duplicate() }
    }
}

#[derive(Debug, PartialEq, Eq)]
pub enum AnyType {
    /// multipart/*
    Multipart(Multipart),
    /// message/{rfc822, global}
    Message(Message),
    /// text/*
    Text(Text),
    /// everything else
    Binary(Binary),
}

pub enum AnyTypeV {
    Multipart(MultipartV),
    Message(MessageV),
    Text(TextV),
    Binary(BinaryV),
}

impl View for AnyType {
    type V = AnyTypeV;

    open spec fn view(&self) -> AnyTypeV {
        match self {
            AnyType::Multipart(m) => AnyTypeV::Multipart(m@),
            AnyType::Message(m) => AnyTypeV::Message(m@),
            AnyType::Text(t) => AnyTypeV::Text(t@),
            AnyType::Binary(b) => AnyTypeV::Binary(b@),
        }
    }
}

/// The interpretation of a naive type: multipart without a boundary and
/// message with an unsupported subtype fall back to an opaque binary type.
pub open spec fn any_type_of(nt: NaiveTypeV) -> AnyTypeV {
    let m = lower(nt.main);
    if m == "multipart".spec_bytes() {
        match multipart_of(nt) {
            Some(mp) => AnyTypeV::Multipart(mp),
            None => AnyTypeV::Binary(BinaryV { ctype: nt }),
        }
    } else if m == "message".spec_bytes() {
        match message_of(nt) {
            Some(msg) => AnyTypeV::Message(msg),
            None => AnyTypeV::Binary(BinaryV { ctype: nt }),
        }
    } else if m == "text".spec_bytes() {
        AnyTypeV::Text(text_of(nt))
    } else {
        AnyTypeV::Binary(BinaryV { ctype: nt })
    }
}

/// All the parameters of a type.
pub open spec fn any_type_params(t: AnyTypeV) -> Seq<ParameterV> {
    match t {
        AnyTypeV::Multipart(m) => multipart_params(m),
        AnyTypeV::Message(m) => m.params,
        AnyTypeV::Text(t) => text_params(t),
        AnyTypeV::Binary(b) => b.ctype.params,
    }
}

impl NaiveType {
    /// Interprets this content type.
    pub fn to_type(&self) -> (r: AnyType)
        ensures
            r@ == any_type_of(self@),
    {
        AnyType::from(self)
    }
}

impl AnyType {
    pub fn from(nt: &NaiveType) -> (r: AnyType)
        ensures
            r@ == any_type_of(nt@),
    {
        let main = nt.main.0.as_slice();
        if equals_lower(main, "multipart".as_bytes()) {
            match Multipart::try_from(nt) {
                Ok(m) => AnyType::Multipart(m),
                Err(_) => AnyType::Binary(Binary::from(nt)),
            }
        } else if equals_lower(main, "message".as_bytes()) {
            match Message::try_from(nt) {
                Ok(m) => AnyType::Message(m),
                Err(_) => AnyType::Binary(Binary::from(nt)),
            }
        } else if equals_lower(main, "text".as_bytes()) {
            AnyType::Text(Text::from(nt))
        } else {
            AnyType::Binary(Binary::from(nt))
        }
    }

    /// All the parameters of this type.
    pub fn params(&self) -> (r: Vec<Parameter>)
        ensures
            seq_view(r@) == any_type_params(self@),
    {
        match self {
            AnyType::Multipart(t) => t.params(),
            AnyType::Message(t) => duplicate_vec(&t.params),
            AnyType::Text(t) => t.params(),
            AnyType::Binary(t) => duplicate_vec(&t.ctype.params),
        }
    }
}

/// A subtype is printed by its name.
impl Print for MultipartSubtype {
    open spec fn print_text(&self) -> Seq<u8> {
        multipart_subtype_bytes(self@)
    }

    open spec fn print_marks(&self) -> Seq<bool> {
        crate::print::unmarked(self.print_text().len())
    }

    open spec fn printable_after(&self, w: Seq<u8>) -> bool {
        bytes_allowed(w, multipart_subtype_bytes(self@))
    }

    #[verifier::spinoff_prover]
    fn print<F: Formatter>(&self, fmt: &mut F) {
        fmt.write_bytes(self.as_bytes());
    }
}

/// A subtype is printed by its name.
impl Print for MessageSubtype {
    open spec fn print_text(&self) -> Seq<u8> {
        message_subtype_bytes(*self)
    }

    open spec fn print_marks(&self) -> Seq<bool> {
        crate::print::unmarked(self.print_text().len())
    }

    open spec fn printable_after(&self, w: Seq<u8>) -> bool {
        bytes_allowed(w, message_subtype_bytes(*self))
    }

    #[verifier::spinoff_prover]
    fn print<F: Formatter>(&self, fmt: &mut F) {
        fmt.write_bytes(self.as_bytes());
    }
}

/// A subtype is printed by its name.
impl Print for TextSubtype {
    open spec fn print_text(&self) -> Seq<u8> {
        text_subtype_bytes(self@)
    }

    open spec fn print_marks(&self) -> Seq<bool> {
        crate::print::unmarked(self.print_text().len())
    }

    open spec fn printable_after(&self, w: Seq<u8>) -> bool {
        bytes_allowed(w, text_subtype_bytes(self@))
    }

    #[verifier::spinoff_prover]
    fn print<F: Formatter>(&self, fmt: &mut F) {
        fmt.write_bytes(self.as_bytes());
    }
}


// ---------------------------------------------------------------- printing

/// A parameter can be printed: its name and value print as free text.
pub open spec fn parameter_printable(p: Parameter) -> bool {
    free_text(p.name@) && free_text(mime_word_out(p.value@))
}

/// A parameter is printed as `name "=" value`.
impl Print for Parameter {
    open spec fn print_text(&self) -> Seq<u8> {
        self.name@ + seq![ascii::EQ] + mime_word_out(self.value@)
    }

    open spec fn print_marks(&self) -> Seq<bool> {
        unmarked(self.name@.len() + 1 + mime_word_out(self.value@).len())
    }

    open spec fn printable_after(&self, w: Seq<u8>) -> bool {
        parameter_printable(*self)
    }

    #[verifier::spinoff_prover]
    fn print<F: Formatter>(&self, fmt: &mut F) {
        let ghost w0 = fmt.written();
        let ghost m0 = fmt.fws_marks();
        self.name.print(fmt);
        let eq: [u8; 1] = [ascii::EQ];
        assert(eq@ == seq![ascii::EQ]);
        write_free(fmt, eq.as_slice());
        self.value.print(fmt);
        assert(fmt.written() =~= w0 + self.print_text());
        assert(fmt.fws_marks() =~= m0 + self.print_marks());
    }
}

/// The text of parameters, each after `";" FWS`.
pub open spec fn params_text(ps: Seq<Parameter>) -> Seq<u8>
    decreases ps.len(),
{
    if ps.len() == 0 {
        seq![]
    } else {
        params_text(ps.drop_last()) + seq![ascii::SEM_COL, ascii::SP] + ps.last().print_text()
    }
}

/// The folding whitespace of the text of parameters: the space after each
/// `;`.
pub open spec fn params_marks(ps: Seq<Parameter>) -> Seq<bool>
    decreases ps.len(),
{
    if ps.len() == 0 {
        seq![]
    } else {
        params_marks(ps.drop_last()) + seq![false, true] + ps.last().print_marks()
    }
}

/// Each parameter can be printed.
pub open spec fn params_printable(ps: Seq<Parameter>) -> bool {
    forall|i: int| 0 <= i < ps.len() ==> parameter_printable(#[trigger] ps[i])
}

/// Prints parameters, each after `";" FWS`.
pub fn print_params<F: Formatter>(fmt: &mut F, ps: &[Parameter])
    requires
        old(fmt).accepts_writes(),
        params_printable(ps@),
    ensures
        final(fmt).accepts_writes(),
        final(fmt).written() == old(fmt).written() + params_text(ps@),
        final(fmt).fws_marks() == old(fmt).fws_marks() + params_marks(ps@),
{
    let ghost w0 = fmt.written();
    let ghost m0 = fmt.fws_marks();
    let mut i: usize = 0;
    assert(ps@.take(0) =~= Seq::<Parameter>::empty());
    while i < ps.len()
        invariant
            i <= ps.len(),
            fmt.accepts_writes(),
            params_printable(ps@),
            fmt.written() == w0 + params_text(ps@.take(i as int)),
            fmt.fws_marks() == m0 + params_marks(ps@.take(i as int)),
        decreases ps.len() - i,
    {
        let sem: [u8; 1] = [ascii::SEM_COL];
        assert(sem@ == seq![ascii::SEM_COL]);
        write_free(fmt, sem.as_slice());
        fmt.write_fws();
        assert(parameter_printable(ps@[i as int]));
        ps[i].print(fmt);
        proof {
            let t = ps@.take(i + 1);
            assert(t.drop_last() =~= ps@.take(i as int));
            assert(t.last() == ps@[i as int]);
            assert(fmt.written() =~= w0 + params_text(t));
            assert(fmt.fws_marks() =~= m0 + params_marks(t));
        }
        i += 1;
    }
    assert(ps@.take(ps.len() as int) =~= ps@);
}

/// A content type is printed as `main "/" sub` and its parameters, each
/// after `";" FWS`.
impl Print for NaiveType {
    open spec fn print_text(&self) -> Seq<u8> {
        self.main@ + seq![ascii::SLASH] + self.sub@ + params_text(self.params@)
    }

    open spec fn print_marks(&self) -> Seq<bool> {
        unmarked(self.main@.len() + 1 + self.sub@.len()) + params_marks(self.params@)
    }

    open spec fn printable_after(&self, w: Seq<u8>) -> bool {
        free_text(self.main@) && free_text(self.sub@) && params_printable(self.params@)
    }

    #[verifier::spinoff_prover]
    fn print<F: Formatter>(&self, fmt: &mut F) {
        let ghost w0 = fmt.written();
        let ghost m0 = fmt.fws_marks();
        self.main.print(fmt);
        let slash: [u8; 1] = [ascii::SLASH];
        assert(slash@ == seq![ascii::SLASH]);
        write_free(fmt, slash.as_slice());
        self.sub.print(fmt);
        print_params(fmt, self.params.as_slice());
        assert(fmt.written() =~= w0 + self.print_text());
        assert(fmt.fws_marks() =~= m0 + self.print_marks());
    }
}

/// `message/`
pub open spec fn message_prefix() -> Seq<u8> {
    seq![109u8, 101u8, 115u8, 115u8, 97u8, 103u8, 101u8, 47u8]
}

/// A message type is printed as `message/` its subtype, and its
/// parameters, each after `";" FWS`.
impl Print for Message {
    open spec fn print_text(&self) -> Seq<u8> {
        message_prefix() + message_subtype_bytes(self.subtype) + params_text(self.params@)
    }

    open spec fn print_marks(&self) -> Seq<bool> {
        unmarked(message_prefix().len() + message_subtype_bytes(self.subtype).len()) + params_marks(
            self.params@,
        )
    }

    open spec fn printable_after(&self, w: Seq<u8>) -> bool {
        self.subtype.printable_after(w + message_prefix()) && params_printable(self.params@)
    }

    #[verifier::spinoff_prover]
    fn print<F: Formatter>(&self, fmt: &mut F) {
        let ghost w0 = fmt.written();
        let ghost m0 = fmt.fws_marks();
        let prefix: [u8; 8] = [109u8, 101u8, 115u8, 115u8, 97u8, 103u8, 101u8, 47u8];
        assert(prefix@ == message_prefix());
        proof {
            lemma_graphic_free(message_prefix());
        }
        write_free(fmt, prefix.as_slice());
        self.subtype.print(fmt);
        print_params(fmt, self.params.as_slice());
        assert(fmt.written() =~= w0 + self.print_text());
        assert(fmt.fws_marks() =~= m0 + self.print_marks());
    }
}

/// `text/`
pub open spec fn text_prefix() -> Seq<u8> {
    seq![116u8, 101u8, 120u8, 116u8, 47u8]
}

/// `charset=`
pub open spec fn charset_prefix() -> Seq<u8> {
    seq![99u8, 104u8, 97u8, 114u8, 115u8, 101u8, 116u8, 61u8]
}

/// A text type is printed as `text/` its subtype, `";" FWS "charset="` its
/// charset's name, and its other parameters, each after `";" FWS`.
impl Print for Text {
    open spec fn print_text(&self) -> Seq<u8> {
        text_prefix() + text_subtype_bytes(self.subtype@) + seq![ascii::SEM_COL, ascii::SP]
            + charset_prefix() + charset_name(self.charset).spec_bytes() + params_text(
            self.other_params@,
        )
    }

    open spec fn print_marks(&self) -> Seq<bool> {
        unmarked(text_prefix().len() + text_subtype_bytes(self.subtype@).len() + 1) + seq![true]
            + unmarked(charset_prefix().len() + charset_name(self.charset).spec_bytes().len())
            + params_marks(self.other_params@)
    }

    open spec fn printable_after(&self, w: Seq<u8>) -> bool {
        self.subtype.printable_after(w + text_prefix()) && params_printable(self.other_params@)
    }

    #[verifier::spinoff_prover]
    fn print<F: Formatter>(&self, fmt: &mut F) {
        let ghost w0 = fmt.written();
        let ghost m0 = fmt.fws_marks();
        let prefix: [u8; 5] = [116u8, 101u8, 120u8, 116u8, 47u8];
        assert(prefix@ == text_prefix());
        proof {
            lemma_graphic_free(text_prefix());
        }
        write_free(fmt, prefix.as_slice());
        self.subtype.print(fmt);
        let sem: [u8; 1] = [ascii::SEM_COL];
        assert(sem@ == seq![ascii::SEM_COL]);
        write_free(fmt, sem.as_slice());
        fmt.write_fws();
        let cs: [u8; 8] = [99u8, 104u8, 97u8, 114u8, 115u8, 101u8, 116u8, 61u8];
        assert(cs@ == charset_prefix());
        proof {
            lemma_graphic_free(charset_prefix());
            lemma_charset_name_graphic(self.charset);
            lemma_graphic_free(charset_name(self.charset).spec_bytes());
        }
        write_free(fmt, cs.as_slice());
        write_free(fmt, self.charset.as_bytes());
        print_params(fmt, self.other_params.as_slice());
        assert(fmt.written() =~= w0 + self.print_text());
        assert(fmt.fws_marks() =~= m0 + self.print_marks());
    }
}

/// A binary type is printed as its content type.
impl Print for Binary {
    open spec fn print_text(&self) -> Seq<u8> {
        self.ctype.print_text()
    }

    open spec fn print_marks(&self) -> Seq<bool> {
        self.ctype.print_marks()
    }

    open spec fn printable_after(&self, w: Seq<u8>) -> bool {
        self.ctype.printable_after(w)
    }

    #[verifier::spinoff_prover]
    fn print<F: Formatter>(&self, fmt: &mut F) {
        self.ctype.print(fmt);
    }
}

/// `multipart/`
pub open spec fn multipart_prefix() -> Seq<u8> {
    seq![109u8, 117u8, 108u8, 116u8, 105u8, 112u8, 97u8, 114u8, 116u8, 47u8]
}

/// `boundary="`
pub open spec fn boundary_prefix() -> Seq<u8> {
    seq![98u8, 111u8, 117u8, 110u8, 100u8, 97u8, 114u8, 121u8, 61u8, 34u8]
}

/// The text of a multipart type printed with the boundary `b`.
pub open spec fn multipart_text(m: Multipart, b: Seq<u8>) -> Seq<u8> {
    multipart_prefix() + multipart_subtype_bytes(m.subtype@) + seq![ascii::SEM_COL, ascii::SP]
        + boundary_prefix() + b + seq![ascii::DQUOTE] + params_text(m.other_params@)
}

/// The folding whitespace of `multipart_text(m, b)`.
pub open spec fn multipart_marks(m: Multipart, b: Seq<u8>) -> Seq<bool> {
    unmarked(multipart_prefix().len() + multipart_subtype_bytes(m.subtype@).len() + 1) + seq![true]
        + unmarked(boundary_prefix().len() + b.len() + 1) + params_marks(m.other_params@)
}

impl Multipart {
    /// Prints this type with the boundary `b`, always quoted, in place of the
    /// boundary it was parsed with: `multipart/` its subtype, `";" FWS
    /// "boundary=" DQUOTE b DQUOTE`, and its other parameters, each after
    /// `";" FWS`.
    pub fn print_with_boundary<F: Formatter>(&self, fmt: &mut F, b: &[u8])
        requires
            old(fmt).accepts_writes(),
            self.subtype.printable_after(old(fmt).written() + multipart_prefix()),
            no_crlf(b@),
            params_printable(self.other_params@),
        ensures
            final(fmt).accepts_writes(),
            final(fmt).written() == old(fmt).written() + multipart_text(*self, b@),
            final(fmt).fws_marks() == old(fmt).fws_marks() + multipart_marks(*self, b@),
    {
        let ghost w0 = fmt.written();
        let ghost m0 = fmt.fws_marks();
        let prefix: [u8; 10] = [109u8, 117u8, 108u8, 116u8, 105u8, 112u8, 97u8, 114u8, 116u8, 47u8];
        assert(prefix@ == multipart_prefix());
        proof {
            lemma_graphic_free(multipart_prefix());
        }
        write_free(fmt, prefix.as_slice());
        self.subtype.print(fmt);
        let sem: [u8; 1] = [ascii::SEM_COL];
        assert(sem@ == seq![ascii::SEM_COL]);
        write_free(fmt, sem.as_slice());
        fmt.write_fws();
        let bp: [u8; 10] = [98u8, 111u8, 117u8, 110u8, 100u8, 97u8, 114u8, 121u8, 61u8, 34u8];
        assert(bp@ == boundary_prefix());
        proof {
            lemma_graphic_free(boundary_prefix());
        }
        write_free(fmt, bp.as_slice());
        proof {
            lemma_line_begun(fmt.written(), b@);
            assert(fmt.written().last() == ascii::DQUOTE);
        }
        fmt.write_bytes(b);
        let q: [u8; 1] = [ascii::DQUOTE];
        assert(q@ == seq![ascii::DQUOTE]);
        write_free(fmt, q.as_slice());
        print_params(fmt, self.other_params.as_slice());
        assert(fmt.written() =~= w0 + multipart_text(*self, b@));
        assert(fmt.fws_marks() =~= m0 + multipart_marks(*self, b@));
    }
}


/// The text of a type printed with the boundary `b` for a multipart type.
pub open spec fn any_type_text(t: AnyType, b: Seq<u8>) -> Seq<u8> {
    match t {
        AnyType::Multipart(m) => multipart_text(m, b),
        AnyType::Message(m) => m.print_text(),
        AnyType::Text(x) => x.print_text(),
        AnyType::Binary(x) => x.print_text(),
    }
}

/// The folding whitespace of `any_type_text(t, b)`.
pub open spec fn any_type_marks(t: AnyType, b: Seq<u8>) -> Seq<bool> {
    match t {
        AnyType::Multipart(m) => multipart_marks(m, b),
        AnyType::Message(m) => m.print_marks(),
        AnyType::Text(x) => x.print_marks(),
        AnyType::Binary(x) => x.print_marks(),
    }
}

/// A type can be printed after `w` with the boundary `b`.
pub open spec fn any_type_printable(t: AnyType, w: Seq<u8>, b: Seq<u8>) -> bool {
    match t {
        AnyType::Multipart(m) => m.subtype.printable_after(w + multipart_prefix()) && no_crlf(b)
            && params_printable(m.other_params@),
        AnyType::Message(m) => m.printable_after(w),
        AnyType::Text(x) => x.printable_after(w),
        AnyType::Binary(x) => x.printable_after(w),
    }
}

impl AnyType {
    /// Prints this type; a multipart type with the boundary `b`.
    pub fn print_with_boundary<F: Formatter>(&self, fmt: &mut F, b: &[u8])
        requires
            old(fmt).accepts_writes(),
            any_type_printable(*self, old(fmt).written(), b@),
        ensures
            final(fmt).accepts_writes(),
            final(fmt).written() == old(fmt).written() + any_type_text(*self, b@),
            final(fmt).fws_marks() == old(fmt).fws_marks() + any_type_marks(*self, b@),
    {
        match self {
            AnyType::Multipart(m) => m.print_with_boundary(fmt, b),
            AnyType::Message(m) => m.print(fmt),
            AnyType::Text(x) => x.print(fmt),
            AnyType::Binary(x) => x.print(fmt),
        }
    }
}


// ---------------------------------------------------------------- laws on subtypes

/// The bytes of the subtype names.
proof fn reveal_subtype_names()
    ensures
        "alternative".spec_bytes() == seq![97u8, 108u8, 116u8, 101u8, 114u8, 110u8, 97u8, 116u8, 105u8, 118u8, 101u8],
        "mixed".spec_bytes() == seq![109u8, 105u8, 120u8, 101u8, 100u8],
        "digest".spec_bytes() == seq![100u8, 105u8, 103u8, 101u8, 115u8, 116u8],
        "parallel".spec_bytes() == seq![112u8, 97u8, 114u8, 97u8, 108u8, 108u8, 101u8, 108u8],
        "report".spec_bytes() == seq![114u8, 101u8, 112u8, 111u8, 114u8, 116u8],
        "plain".spec_bytes() == seq![112u8, 108u8, 97u8, 105u8, 110u8],
        "html".spec_bytes() == seq![104u8, 116u8, 109u8, 108u8],
        "rfc822".spec_bytes() == seq![114u8, 102u8, 99u8, 56u8, 50u8, 50u8],
        "global".spec_bytes() == seq![103u8, 108u8, 111u8, 98u8, 97u8, 108u8],
{
    reveal_strlit("alternative");
    vstd::string::is_ascii_spec_bytes("alternative");
    assert(vstd::string::is_ascii("alternative"));
    assert("alternative".spec_bytes() =~= seq![97u8, 108u8, 116u8, 101u8, 114u8, 110u8, 97u8, 116u8, 105u8, 118u8, 101u8]);
    reveal_strlit("mixed");
    vstd::string::is_ascii_spec_bytes("mixed");
    assert(vstd::string::is_ascii("mixed"));
    assert("mixed".spec_bytes() =~= seq![109u8, 105u8, 120u8, 101u8, 100u8]);
    reveal_strlit("digest");
    vstd::string::is_ascii_spec_bytes("digest");
    assert(vstd::string::is_ascii("digest"));
    assert("digest".spec_bytes() =~= seq![100u8, 105u8, 103u8, 101u8, 115u8, 116u8]);
    reveal_strlit("parallel");
    vstd::string::is_ascii_spec_bytes("parallel");
    assert(vstd::string::is_ascii("parallel"));
    assert("parallel".spec_bytes() =~= seq![112u8, 97u8, 114u8, 97u8, 108u8, 108u8, 101u8, 108u8]);
    reveal_strlit("report");
    vstd::string::is_ascii_spec_bytes("report");
    assert(vstd::string::is_ascii("report"));
    assert("report".spec_bytes() =~= seq![114u8, 101u8, 112u8, 111u8, 114u8, 116u8]);
    reveal_strlit("plain");
    vstd::string::is_ascii_spec_bytes("plain");
    assert(vstd::string::is_ascii("plain"));
    assert("plain".spec_bytes() =~= seq![112u8, 108u8, 97u8, 105u8, 110u8]);
    reveal_strlit("html");
    vstd::string::is_ascii_spec_bytes("html");
    assert(vstd::string::is_ascii("html"));
    assert("html".spec_bytes() =~= seq![104u8, 116u8, 109u8, 108u8]);
    reveal_strlit("rfc822");
    vstd::string::is_ascii_spec_bytes("rfc822");
    assert(vstd::string::is_ascii("rfc822"));
    assert("rfc822".spec_bytes() =~= seq![114u8, 102u8, 99u8, 56u8, 50u8, 50u8]);
    reveal_strlit("global");
    vstd::string::is_ascii_spec_bytes("global");
    assert(vstd::string::is_ascii("global"));
    assert("global".spec_bytes() =~= seq![103u8, 108u8, 111u8, 98u8, 97u8, 108u8]);
}

/// A multipart subtype is read by its name, ignoring case: the subtype read
/// from `s` prints back as `s` up to case, whatever `s` is.
pub proof fn law_multipart_subtype_name(s: Seq<u8>)
    ensures
        lower(multipart_subtype_bytes(multipart_subtype_of(s))) == lower(s),
{
    lemma_lower_idempotent(s);
}

/// Each known multipart subtype is what its name reads as, in any case:
/// `alternative` is `Alternative`, `mixed` is `Mixed`, and so on; a name
/// that is no known subtype's is kept as it was written.
pub proof fn law_multipart_subtype_of_name(s: Seq<u8>, t: MultipartSubtypeV)
    ensures
        (t !is Unknown && lower(s) == multipart_subtype_bytes(t)) ==> multipart_subtype_of(s) == t,
        multipart_subtype_of(s) is Unknown ==> multipart_subtype_of(s) == MultipartSubtypeV::Unknown(s),
{
    reveal_subtype_names();
}

/// A text subtype is read by its name, ignoring case: the subtype read from
/// `s` prints back as `s` up to case, whatever `s` is.
pub proof fn law_text_subtype_name(s: Seq<u8>)
    ensures
        lower(text_subtype_bytes(text_subtype_of(s))) == lower(s),
{
    lemma_lower_idempotent(s);
}

/// `plain` reads as `Plain` and `html` as `Html`, in any case; a name that is
/// neither is kept as it was written.
pub proof fn law_text_subtype_of_name(s: Seq<u8>, t: TextSubtypeV)
    ensures
        (t !is Unknown && lower(s) == text_subtype_bytes(t)) ==> text_subtype_of(s) == t,
        text_subtype_of(s) is Unknown ==> text_subtype_of(s) == TextSubtypeV::Unknown(s),
{
    reveal_subtype_names();
}


/// A message subtype is read by its name, in any case, and only by it:
/// `rfc822` is RFC822 and `global` is Global; any other name is no supported
/// message subtype.
pub proof fn law_message_subtype_of_name(s: Seq<u8>, t: MessageSubtype)
    ensures
        message_subtype_of(s) == Some(t) <==> lower(s) == message_subtype_bytes(t),
{
    reveal_subtype_names();
}


/// A type is interpreted by its main type, in any case: text types are those
/// whose main type is `text`, multipart types have the main type
/// `multipart`, message types `message`; every other main type is binary.
pub proof fn law_any_type_main(nt: NaiveTypeV)
    ensures
        any_type_of(nt) is Text <==> lower(nt.main) == seq![116u8, 101u8, 120u8, 116u8],
        any_type_of(nt) is Multipart ==> lower(nt.main) == seq![109u8, 117u8, 108u8, 116u8, 105u8, 112u8, 97u8, 114u8, 116u8],
        any_type_of(nt) is Message ==> lower(nt.main) == seq![109u8, 101u8, 115u8, 115u8, 97u8, 103u8, 101u8],
        lower(nt.main) != seq![116u8, 101u8, 120u8, 116u8] && lower(nt.main) != seq![109u8, 117u8, 108u8, 116u8, 105u8, 112u8, 97u8, 114u8, 116u8] && lower(nt.main) != seq![109u8, 101u8, 115u8, 115u8, 97u8, 103u8, 101u8]
            ==> any_type_of(nt) is Binary,
{
    reveal_strlit("multipart");
    vstd::string::is_ascii_spec_bytes("multipart");
    assert(vstd::string::is_ascii("multipart"));
    assert("multipart".spec_bytes() =~= seq![109u8, 117u8, 108u8, 116u8, 105u8, 112u8, 97u8, 114u8, 116u8]);
    reveal_strlit("message");
    vstd::string::is_ascii_spec_bytes("message");
    assert(vstd::string::is_ascii("message"));
    assert("message".spec_bytes() =~= seq![109u8, 101u8, 115u8, 115u8, 97u8, 103u8, 101u8]);
    reveal_strlit("text");
    vstd::string::is_ascii_spec_bytes("text");
    assert(vstd::string::is_ascii("text"));
    assert("text".spec_bytes() =~= seq![116u8, 101u8, 120u8, 116u8]);
}


/// The parameter kept for a name is the first one so named, ignoring case;
/// there is none only when no parameter is so named.
pub proof fn law_first_named(ps: Seq<ParameterV>, name: Seq<u8>)
    ensures
        match first_named(ps, name) {
            Some(p) => exists|k: int|
                0 <= k < ps.len() && ps[k] == p && lower(ps[k].name) == name && forall|j: int|
                    0 <= j < k ==> lower(#[trigger] ps[j].name) != name,
            None => forall|k: int| 0 <= k < ps.len() ==> lower(#[trigger] ps[k].name) != name,
        },
    decreases ps.len(),
{
    if ps.len() > 0 {
        let d = ps.drop_last();
        law_first_named(d, name);
        match first_named(d, name) {
            Some(p) => {
                let k = choose|k: int|
                    0 <= k < d.len() && d[k] == p && lower(d[k].name) == name && forall|j: int|
                        0 <= j < k ==> lower(#[trigger] d[j].name) != name;
                assert(ps[k] == d[k]);
                assert forall|j: int| 0 <= j < k implies lower(#[trigger] ps[j].name) != name by {
                    assert(ps[j] == d[j]);
                }
            },
            None => {
                assert forall|k: int| 0 <= k < d.len() implies lower(#[trigger] ps[k].name) != name by {
                    assert(ps[k] == d[k]);
                }
                if lower(ps.last().name) == name {
                    let k = ps.len() - 1;
                    assert(ps[k] == ps.last());
                }
            },
        }
    }
}

/// The other parameters are those with another name, ignoring case, all of
/// them, in their order.
pub proof fn law_without_named(ps: Seq<ParameterV>, name: Seq<u8>)
    ensures
        without_named(ps, name) == ps.filter(|p: ParameterV| lower(p.name) != name),
    decreases ps.len(),
{
    reveal_with_fuel(Seq::<_>::filter, 1);
    if ps.len() > 0 {
        law_without_named(ps.drop_last(), name);
    }
}

} // verus!
