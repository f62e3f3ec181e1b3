//! Content-Transfer-Encoding (RFC 2045 section 6).
use vstd::prelude::*;
use vstd::string::StringSliceAdditionalSpecFns;
use crate::text::ascii::{self, lower};
use crate::print::{Formatter, Print, bytes_allowed};
use crate::text::tag::{spec_tag_no_case, tag_no_case, spec_byte, byte};
use crate::text::whitespace::{opt_cfws, spec_opt_cfws, or_pos};
use crate::text::words::{MIMEAtom, spec_mime_atom, mime_atom};

verus! {

#[derive(Debug, PartialEq, Eq)]
pub enum Mechanism {
    _7Bit,
    _8Bit,
    Binary,
    QuotedPrintable,
    Base64,
    Other(MIMEAtom),
}

/// The mathematical value of a mechanism.
pub enum MechanismV {
    _7Bit,
    _8Bit,
    Binary,
    QuotedPrintable,
    Base64,
    Other(Seq<u8>),
}

impl View for Mechanism {
    type V = MechanismV;

    open spec fn view(&self) -> MechanismV {
        match self {
            Mechanism::_7Bit => MechanismV::_7Bit,
            Mechanism::_8Bit => MechanismV::_8Bit,
            Mechanism::Binary => MechanismV::Binary,
            Mechanism::QuotedPrintable => MechanismV::QuotedPrintable,
            Mechanism::Base64 => MechanismV::Base64,
            Mechanism::Other(a) => MechanismV::Other(a@),
        }
    }
}

/// The name of a mechanism as written in a header.
pub open spec fn mechanism_bytes(m: MechanismV) -> Seq<u8> {
    match m {
        MechanismV::_7Bit => "7bit".spec_bytes(),
        MechanismV::_8Bit => "8bit".spec_bytes(),
        MechanismV::Binary => "binary".spec_bytes(),
        MechanismV::QuotedPrintable => "quoted-printable".spec_bytes(),
        MechanismV::Base64 => "base64".spec_bytes(),
        MechanismV::Other(a) => a,
    }
}

/// The mechanisms allowed for multipart and message/rfc822 entities.
pub open spec fn is_identity_encoding(m: MechanismV) -> bool {
    m is _7Bit || m is _8Bit || m is Binary
}

/// RFC 2046: an entity that only allows 7bit, 8bit and binary keeps these,
/// and gets the default mechanism otherwise.
pub open spec fn identity_encoding(m: MechanismV) -> MechanismV {
    if is_identity_encoding(m) {
        m
    } else {
        MechanismV::_7Bit
    }
}

impl Default for Mechanism {
    fn default() -> (r: Mechanism)
        ensures
            r@ == MechanismV::_7Bit,
    {
        Mechanism::_7Bit
    }
}

impl Mechanism {
    pub fn as_bytes(&self) -> (r: &[u8])
        ensures
            r@ == mechanism_bytes(self@),
    {
        match self {
            Mechanism::_7Bit => "7bit".as_bytes(),
            Mechanism::_8Bit => "8bit".as_bytes(),
            Mechanism::Binary => "binary".as_bytes(),
            Mechanism::QuotedPrintable => "quoted-printable".as_bytes(),
            Mechanism::Base64 => "base64".as_bytes(),
            Mechanism::Other(x) => x.0.as_slice(),
        }
    }

    /// A copy of this mechanism.
    pub fn copy(&self) -> (r: Mechanism)
        ensures
            r@ == self@,
    {
        match self {
            Mechanism::_7Bit => Mechanism::_7Bit,
            Mechanism::_8Bit => Mechanism::_8Bit,
            Mechanism::Binary => Mechanism::Binary,
            Mechanism::QuotedPrintable => Mechanism::QuotedPrintable,
            Mechanism::Base64 => Mechanism::Base64,
            Mechanism::Other(x) => Mechanism::Other(MIMEAtom(ascii::bytes_to_vec(x.0.as_slice()))),
        }
    }

    /// RFC 2046: for entities of type "multipart", no encoding other than
    /// 7bit, 8bit and binary is permitted; any other is ignored.
    pub fn to_multipart_encoding(&self) -> (r: Mechanism)
        ensures
            r@ == identity_encoding(self@),
    {
        match self {
            Mechanism::_7Bit => Mechanism::_7Bit,
            Mechanism::_8Bit => Mechanism::_8Bit,
            Mechanism::Binary => Mechanism::Binary,
            _ => Mechanism::_7Bit,
        }
    }

    /// RFC 2046: the same restriction for entities of type "message/rfc822".
    pub fn to_message_rfc822_encoding(&self) -> (r: Mechanism)
        ensures
            r@ == identity_encoding(self@),
    {
        match self {
            Mechanism::_7Bit => Mechanism::_7Bit,
            Mechanism::_8Bit => Mechanism::_8Bit,
            Mechanism::Binary => Mechanism::Binary,
            _ => Mechanism::_7Bit,
        }
    }
}

/// The known mechanism named (case-insensitively) at `i`, in the order the
/// names are tried.
pub open spec fn spec_known_mechanism(s: Seq<u8>, i: int) -> Option<(int, MechanismV)> {
    if let Some(j) = spec_tag_no_case(s, i, "7bit".spec_bytes()) {
        Some((j, MechanismV::_7Bit))
    } else if let Some(j) = spec_tag_no_case(s, i, "8bit".spec_bytes()) {
        Some((j, MechanismV::_8Bit))
    } else if let Some(j) = spec_tag_no_case(s, i, "binary".spec_bytes()) {
        Some((j, MechanismV::Binary))
    } else if let Some(j) = spec_tag_no_case(s, i, "quoted-printable".spec_bytes()) {
        Some((j, MechanismV::QuotedPrintable))
    } else if let Some(j) = spec_tag_no_case(s, i, "base64".spec_bytes()) {
        Some((j, MechanismV::Base64))
    } else {
        None
    }
}

/// ```abnf
/// mechanism = [CFWS] known-name [CFWS] [";"] [CFWS] / mime-atom
/// ```
/// (the ";" is not in the RFC but was found in some emails).
pub open spec fn spec_mechanism(s: Seq<u8>, i: int) -> Option<(int, MechanismV)> {
    let a = spec_opt_cfws(s, i);
    match spec_known_mechanism(s, a) {
        Some((j, m)) => {
            let k = spec_opt_cfws(s, j);
            let l = or_pos(spec_byte(s, k, ascii::SEM_COL), k);
            Some((spec_opt_cfws(s, l), m))
        },
        None => match spec_mime_atom(s, i) {
            Some((j, a)) => Some((j, MechanismV::Other(a))),
            None => None,
        },
    }
}

fn known_mechanism(s: &[u8], i: usize) -> (r: Option<(usize, Mechanism)>)
    ensures
        match r {
            Some((j, m)) => spec_known_mechanism(s@, i as int) == Some((j as int, m@)),
            None => spec_known_mechanism(s@, i as int) is None,
        },
{
    if let Some(j) = tag_no_case(s, i, "7bit".as_bytes()) {
        Some((j, Mechanism::_7Bit))
    } else if let Some(j) = tag_no_case(s, i, "8bit".as_bytes()) {
        Some((j, Mechanism::_8Bit))
    } else if let Some(j) = tag_no_case(s, i, "binary".as_bytes()) {
        Some((j, Mechanism::Binary))
    } else if let Some(j) = tag_no_case(s, i, "quoted-printable".as_bytes()) {
        Some((j, Mechanism::QuotedPrintable))
    } else if let Some(j) = tag_no_case(s, i, "base64".as_bytes()) {
        Some((j, Mechanism::Base64))
    } else {
        None
    }
}

/// Parses a Content-Transfer-Encoding body.
pub fn mechanism(s: &[u8], i: usize) -> (r: Option<(usize, Mechanism)>)
    ensures
        match r {
            Some((j, m)) => spec_mechanism(s@, i as int) == Some((j as int, m@)),
            None => spec_mechanism(s@, i as int) is None,
        },
{
    let a = opt_cfws(s, i);
    match known_mechanism(s, a) {
        Some((j, m)) => {
            let k = opt_cfws(s, j);
            let l = match byte(s, k, ascii::SEM_COL) {
                Some(l) => l,
                None => k,
            };
            Some((opt_cfws(s, l), m))
        },
        None => match mime_atom(s, i) {
            Some((j, a)) => Some((j, Mechanism::Other(a))),
            None => None,
        },
    }
}

/// Restricting an encoding to the identity encodings is idempotent, and
/// always yields 7bit, 8bit or binary.
pub proof fn law_identity_encoding(m: MechanismV)
    ensures
        is_identity_encoding(identity_encoding(m)),
        identity_encoding(identity_encoding(m)) == identity_encoding(m),
{
}

/// A mechanism is printed by its name.
impl Print for Mechanism {
    open spec fn print_text(&self) -> Seq<u8> {
        mechanism_bytes(self@)
    }

    open spec fn print_marks(&self) -> Seq<bool> {
        crate::print::unmarked(self.print_text().len())
    }

    open spec fn printable_after(&self, w: Seq<u8>) -> bool {
        bytes_allowed(w, mechanism_bytes(self@))
    }

    fn print<F: Formatter>(&self, fmt: &mut F) {
        fmt.write_bytes(self.as_bytes());
    }
}


// ---------------------------------------------------------------- laws

/// The bytes of the mechanism names, which are their own lower case.
proof fn reveal_mechanism_names()
    ensures
        "7bit".spec_bytes() == seq![55u8, 98u8, 105u8, 116u8],
        lower(seq![55u8, 98u8, 105u8, 116u8]) == seq![55u8, 98u8, 105u8, 116u8],
        "8bit".spec_bytes() == seq![56u8, 98u8, 105u8, 116u8],
        lower(seq![56u8, 98u8, 105u8, 116u8]) == seq![56u8, 98u8, 105u8, 116u8],
        "binary".spec_bytes() == seq![98u8, 105u8, 110u8, 97u8, 114u8, 121u8],
        lower(seq![98u8, 105u8, 110u8, 97u8, 114u8, 121u8]) == seq![98u8, 105u8, 110u8, 97u8, 114u8, 121u8],
        "quoted-printable".spec_bytes() == seq![113u8, 117u8, 111u8, 116u8, 101u8, 100u8, 45u8, 112u8, 114u8, 105u8, 110u8, 116u8, 97u8, 98u8, 108u8, 101u8],
        lower(seq![113u8, 117u8, 111u8, 116u8, 101u8, 100u8, 45u8, 112u8, 114u8, 105u8, 110u8, 116u8, 97u8, 98u8, 108u8, 101u8]) == seq![113u8, 117u8, 111u8, 116u8, 101u8, 100u8, 45u8, 112u8, 114u8, 105u8, 110u8, 116u8, 97u8, 98u8, 108u8, 101u8],
        "base64".spec_bytes() == seq![98u8, 97u8, 115u8, 101u8, 54u8, 52u8],
        lower(seq![98u8, 97u8, 115u8, 101u8, 54u8, 52u8]) == seq![98u8, 97u8, 115u8, 101u8, 54u8, 52u8],
{
    reveal_strlit("7bit");
    vstd::string::is_ascii_spec_bytes("7bit");
    assert(vstd::string::is_ascii("7bit"));
    assert("7bit".spec_bytes() =~= seq![55u8, 98u8, 105u8, 116u8]);
    assert(lower(seq![55u8, 98u8, 105u8, 116u8]) =~= seq![55u8, 98u8, 105u8, 116u8]);
    reveal_strlit("8bit");
    vstd::string::is_ascii_spec_bytes("8bit");
    assert(vstd::string::is_ascii("8bit"));
    assert("8bit".spec_bytes() =~= seq![56u8, 98u8, 105u8, 116u8]);
    assert(lower(seq![56u8, 98u8, 105u8, 116u8]) =~= seq![56u8, 98u8, 105u8, 116u8]);
    reveal_strlit("binary");
    vstd::string::is_ascii_spec_bytes("binary");
    assert(vstd::string::is_ascii("binary"));
    assert("binary".spec_bytes() =~= seq![98u8, 105u8, 110u8, 97u8, 114u8, 121u8]);
    assert(lower(seq![98u8, 105u8, 110u8, 97u8, 114u8, 121u8]) =~= seq![98u8, 105u8, 110u8, 97u8, 114u8, 121u8]);
    reveal_strlit("quoted-printable");
    vstd::string::is_ascii_spec_bytes("quoted-printable");
    assert(vstd::string::is_ascii("quoted-printable"));
    assert("quoted-printable".spec_bytes() =~= seq![113u8, 117u8, 111u8, 116u8, 101u8, 100u8, 45u8, 112u8, 114u8, 105u8, 110u8, 116u8, 97u8, 98u8, 108u8, 101u8]);
    assert(lower(seq![113u8, 117u8, 111u8, 116u8, 101u8, 100u8, 45u8, 112u8, 114u8, 105u8, 110u8, 116u8, 97u8, 98u8, 108u8, 101u8]) =~= seq![113u8, 117u8, 111u8, 116u8, 101u8, 100u8, 45u8, 112u8, 114u8, 105u8, 110u8, 116u8, 97u8, 98u8, 108u8, 101u8]);
    reveal_strlit("base64");
    vstd::string::is_ascii_spec_bytes("base64");
    assert(vstd::string::is_ascii("base64"));
    assert("base64".spec_bytes() =~= seq![98u8, 97u8, 115u8, 101u8, 54u8, 52u8]);
    assert(lower(seq![98u8, 97u8, 115u8, 101u8, 54u8, 52u8]) =~= seq![98u8, 97u8, 115u8, 101u8, 54u8, 52u8]);
}

/// A known mechanism is read by its name, in any case: what is read at `i`
/// is, up to case, the name of the mechanism it is read as.
pub proof fn law_known_mechanism_named(s: Seq<u8>, i: int)
    ensures
        spec_known_mechanism(s, i) matches Some((j, m)) ==> m !is Other && lower(s.subrange(i, j))
            == mechanism_bytes(m),
{
    reveal_mechanism_names();
}

/// Each known mechanism's name, in any case, reads as that mechanism:
/// `7bit`, `8bit`, `binary`, `quoted-printable`, `base64`.
pub proof fn law_known_mechanism_of_name(s: Seq<u8>, i: int, m: MechanismV)
    requires
        m !is Other,
        0 <= i,
        i + mechanism_bytes(m).len() <= s.len(),
        lower(s.subrange(i, i + mechanism_bytes(m).len())) == mechanism_bytes(m),
    ensures
        spec_known_mechanism(s, i) == Some((i + mechanism_bytes(m).len(), m)),
{
    reveal_mechanism_names();
    let n = mechanism_bytes(m);
    let t = lower(s.subrange(i, i + n.len()));
    assert(n.len() >= 4);
    assert(t[0] == ascii::lower_byte(s[i]) && t[1] == ascii::lower_byte(s[i + 1]));
    assert(lower(s.subrange(i, i + 4))[0] == ascii::lower_byte(s[i]));
    if i + 6 <= s.len() {
        assert(lower(s.subrange(i, i + 6))[1] == ascii::lower_byte(s[i + 1]));
        assert(lower(s.subrange(i, i + 6))[0] == ascii::lower_byte(s[i]));
    }
    if i + 16 <= s.len() {
        assert(lower(s.subrange(i, i + 16))[0] == ascii::lower_byte(s[i]));
    }
}

} // verus!
