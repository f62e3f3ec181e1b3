//! Character sets named in MIME headers (IANA names).
use vstd::prelude::*;
use crate::print::graphic;
use vstd::string::StringSliceAdditionalSpecFns;
use crate::text::ascii::{lower, to_ascii_lowercase, bytes_eq};

verus! {

/// Specific implementation of charset.
///
/// This crate has its own charset list, following IANA's one; the encoding
/// standard that decoders implement does not know US-ASCII, so using its
/// datastructures directly would lose information.
#[allow(non_camel_case_types)]
#[derive(Debug, Clone, Copy, PartialEq, Eq, Structural)]
pub enum EmailCharset {
    US_ASCII,
    ISO_8859_1,
    ISO_8859_2,
    ISO_8859_3,
    ISO_8859_4,
    ISO_8859_5,
    ISO_8859_6,
    ISO_8859_7,
    ISO_8859_8,
    ISO_8859_9,
    ISO_8859_10,
    Shift_JIS,
    EUC_JP,
    ISO_2022_KR,
    EUC_KR,
    ISO_2022_JP,
    ISO_2022_JP_2,
    ISO_8859_6_E,
    ISO_8859_6_I,
    ISO_8859_8_E,
    ISO_8859_8_I,
    GB2312,
    Big5,
    KOI8_R,
    UTF_8,
    Unknown,
}

/// The charset that a lower-cased label names.
pub open spec fn charset_of_lower(l: Seq<u8>) -> EmailCharset {
    if l == seq![117u8, 115u8, 45u8, 97u8, 115u8, 99u8, 105u8, 105u8] || l == seq![97u8, 115u8, 99u8, 105u8, 105u8] {
        EmailCharset::US_ASCII
    } else if l == seq![105u8, 115u8, 111u8, 45u8, 56u8, 56u8, 53u8, 57u8, 45u8, 49u8] {
        EmailCharset::ISO_8859_1
    } else if l == seq![105u8, 115u8, 111u8, 45u8, 56u8, 56u8, 53u8, 57u8, 45u8, 50u8] {
        EmailCharset::ISO_8859_2
    } else if l == seq![105u8, 115u8, 111u8, 45u8, 56u8, 56u8, 53u8, 57u8, 45u8, 51u8] {
        EmailCharset::ISO_8859_3
    } else if l == seq![105u8, 115u8, 111u8, 45u8, 56u8, 56u8, 53u8, 57u8, 45u8, 52u8] {
        EmailCharset::ISO_8859_4
    } else if l == seq![105u8, 115u8, 111u8, 45u8, 56u8, 56u8, 53u8, 57u8, 45u8, 53u8] {
        EmailCharset::ISO_8859_5
    } else if l == seq![105u8, 115u8, 111u8, 45u8, 56u8, 56u8, 53u8, 57u8, 45u8, 54u8] {
        EmailCharset::ISO_8859_6
    } else if l == seq![105u8, 115u8, 111u8, 45u8, 56u8, 56u8, 53u8, 57u8, 45u8, 55u8] {
        EmailCharset::ISO_8859_7
    } else if l == seq![105u8, 115u8, 111u8, 45u8, 56u8, 56u8, 53u8, 57u8, 45u8, 56u8] {
        EmailCharset::ISO_8859_8
    } else if l == seq![105u8, 115u8, 111u8, 45u8, 56u8, 56u8, 53u8, 57u8, 45u8, 57u8] {
        EmailCharset::ISO_8859_9
    } else if l == seq![105u8, 115u8, 111u8, 45u8, 56u8, 56u8, 53u8, 57u8, 45u8, 49u8, 48u8] {
        EmailCharset::ISO_8859_10
    } else if l == seq![115u8, 104u8, 105u8, 102u8, 116u8, 95u8, 106u8, 105u8, 115u8] {
        EmailCharset::Shift_JIS
    } else if l == seq![101u8, 117u8, 99u8, 45u8, 106u8, 112u8] {
        EmailCharset::EUC_JP
    } else if l == seq![105u8, 115u8, 111u8, 45u8, 50u8, 48u8, 50u8, 50u8, 45u8, 107u8, 114u8] {
        EmailCharset::ISO_2022_KR
    } else if l == seq![101u8, 117u8, 99u8, 45u8, 107u8, 114u8] {
        EmailCharset::EUC_KR
    } else if l == seq![105u8, 115u8, 111u8, 45u8, 50u8, 48u8, 50u8, 50u8, 45u8, 106u8, 112u8] {
        EmailCharset::ISO_2022_JP
    } else if l == seq![105u8, 115u8, 111u8, 45u8, 50u8, 48u8, 50u8, 50u8, 45u8, 106u8, 112u8, 45u8, 50u8] {
        EmailCharset::ISO_2022_JP_2
    } else if l == seq![105u8, 115u8, 111u8, 45u8, 56u8, 56u8, 53u8, 57u8, 45u8, 54u8, 45u8, 101u8] {
        EmailCharset::ISO_8859_6_E
    } else if l == seq![105u8, 115u8, 111u8, 45u8, 56u8, 56u8, 53u8, 57u8, 45u8, 54u8, 45u8, 105u8] {
        EmailCharset::ISO_8859_6_I
    } else if l == seq![105u8, 115u8, 111u8, 45u8, 56u8, 56u8, 53u8, 57u8, 45u8, 56u8, 45u8, 101u8] {
        EmailCharset::ISO_8859_8_E
    } else if l == seq![105u8, 115u8, 111u8, 45u8, 56u8, 56u8, 53u8, 57u8, 45u8, 56u8, 45u8, 105u8] {
        EmailCharset::ISO_8859_8_I
    } else if l == seq![103u8, 98u8, 50u8, 51u8, 49u8, 50u8] {
        EmailCharset::GB2312
    } else if l == seq![98u8, 105u8, 103u8, 53u8] {
        EmailCharset::Big5
    } else if l == seq![107u8, 111u8, 105u8, 56u8, 45u8, 114u8] {
        EmailCharset::KOI8_R
    } else if l == seq![117u8, 116u8, 102u8, 45u8, 56u8] || l == seq![117u8, 116u8, 102u8, 56u8] {
        EmailCharset::UTF_8
    } else {
        EmailCharset::Unknown
    }
}

/// The charset that a label names, ignoring ASCII case.
pub open spec fn charset_of(label: Seq<u8>) -> EmailCharset {
    charset_of_lower(lower(label))
}

/// The IANA name of each charset; an unknown charset is named UTF-8.
pub open spec fn charset_name(c: EmailCharset) -> &'static str {
    match c {
        EmailCharset::US_ASCII => "US-ASCII",
        EmailCharset::ISO_8859_1 => "ISO-8859-1",
        EmailCharset::ISO_8859_2 => "ISO-8859-2",
        EmailCharset::ISO_8859_3 => "ISO-8859-3",
        EmailCharset::ISO_8859_4 => "ISO-8859-4",
        EmailCharset::ISO_8859_5 => "ISO-8859-5",
        EmailCharset::ISO_8859_6 => "ISO-8859-6",
        EmailCharset::ISO_8859_7 => "ISO-8859-7",
        EmailCharset::ISO_8859_8 => "ISO-8859-8",
        EmailCharset::ISO_8859_9 => "ISO-8859-9",
        EmailCharset::ISO_8859_10 => "ISO-8859-10",
        EmailCharset::Shift_JIS => "Shift_JIS",
        EmailCharset::EUC_JP => "EUC-JP",
        EmailCharset::ISO_2022_KR => "ISO-2022-KR",
        EmailCharset::EUC_KR => "EUC-KR",
        EmailCharset::ISO_2022_JP => "ISO-2022-JP",
        EmailCharset::ISO_2022_JP_2 => "ISO-2022-JP-2",
        EmailCharset::ISO_8859_6_E => "ISO-8859-6-E",
        EmailCharset::ISO_8859_6_I => "ISO-8859-6-I",
        EmailCharset::ISO_8859_8_E => "ISO-8859-8-E",
        EmailCharset::ISO_8859_8_I => "ISO-8859-8-I",
        EmailCharset::GB2312 => "GB2312",
        EmailCharset::Big5 => "Big5",
        EmailCharset::KOI8_R => "KOI8-R",
        EmailCharset::UTF_8 => "UTF-8",
        EmailCharset::Unknown => "UTF-8",
    }
}

impl Default for EmailCharset {
    fn default() -> (r: Self)
        ensures
            r == EmailCharset::US_ASCII,
    {
        EmailCharset::US_ASCII
    }
}

impl EmailCharset {
    /// The charset named by `s`, ignoring ASCII case (`From<&[u8]>` in spirit).
    pub fn from_bytes(s: &[u8]) -> (r: EmailCharset)
        ensures
            r == charset_of(s@),
    {
        let l = to_ascii_lowercase(s);
        let l = l.as_slice();
        if bytes_eq(l, [117u8, 115u8, 45u8, 97u8, 115u8, 99u8, 105u8, 105u8].as_slice()) || bytes_eq(l, [97u8, 115u8, 99u8, 105u8, 105u8].as_slice()) {
            EmailCharset::US_ASCII
        } else if bytes_eq(l, [105u8, 115u8, 111u8, 45u8, 56u8, 56u8, 53u8, 57u8, 45u8, 49u8].as_slice()) {
            EmailCharset::ISO_8859_1
        } else if bytes_eq(l, [105u8, 115u8, 111u8, 45u8, 56u8, 56u8, 53u8, 57u8, 45u8, 50u8].as_slice()) {
            EmailCharset::ISO_8859_2
        } else if bytes_eq(l, [105u8, 115u8, 111u8, 45u8, 56u8, 56u8, 53u8, 57u8, 45u8, 51u8].as_slice()) {
            EmailCharset::ISO_8859_3
        } else if bytes_eq(l, [105u8, 115u8, 111u8, 45u8, 56u8, 56u8, 53u8, 57u8, 45u8, 52u8].as_slice()) {
            EmailCharset::ISO_8859_4
        } else if bytes_eq(l, [105u8, 115u8, 111u8, 45u8, 56u8, 56u8, 53u8, 57u8, 45u8, 53u8].as_slice()) {
            EmailCharset::ISO_8859_5
        } else if bytes_eq(l, [105u8, 115u8, 111u8, 45u8, 56u8, 56u8, 53u8, 57u8, 45u8, 54u8].as_slice()) {
            EmailCharset::ISO_8859_6
        } else if bytes_eq(l, [105u8, 115u8, 111u8, 45u8, 56u8, 56u8, 53u8, 57u8, 45u8, 55u8].as_slice()) {
            EmailCharset::ISO_8859_7
        } else if bytes_eq(l, [105u8, 115u8, 111u8, 45u8, 56u8, 56u8, 53u8, 57u8, 45u8, 56u8].as_slice()) {
            EmailCharset::ISO_8859_8
        } else if bytes_eq(l, [105u8, 115u8, 111u8, 45u8, 56u8, 56u8, 53u8, 57u8, 45u8, 57u8].as_slice()) {
            EmailCharset::ISO_8859_9
        } else if bytes_eq(l, [105u8, 115u8, 111u8, 45u8, 56u8, 56u8, 53u8, 57u8, 45u8, 49u8, 48u8].as_slice()) {
            EmailCharset::ISO_8859_10
        } else if bytes_eq(l, [115u8, 104u8, 105u8, 102u8, 116u8, 95u8, 106u8, 105u8, 115u8].as_slice()) {
            EmailCharset::Shift_JIS
        } else if bytes_eq(l, [101u8, 117u8, 99u8, 45u8, 106u8, 112u8].as_slice()) {
            EmailCharset::EUC_JP
        } else if bytes_eq(l, [105u8, 115u8, 111u8, 45u8, 50u8, 48u8, 50u8, 50u8, 45u8, 107u8, 114u8].as_slice()) {
            EmailCharset::ISO_2022_KR
        } else if bytes_eq(l, [101u8, 117u8, 99u8, 45u8, 107u8, 114u8].as_slice()) {
            EmailCharset::EUC_KR
        } else if bytes_eq(l, [105u8, 115u8, 111u8, 45u8, 50u8, 48u8, 50u8, 50u8, 45u8, 106u8, 112u8].as_slice()) {
            EmailCharset::ISO_2022_JP
        } else if bytes_eq(l, [105u8, 115u8, 111u8, 45u8, 50u8, 48u8, 50u8, 50u8, 45u8, 106u8, 112u8, 45u8, 50u8].as_slice()) {
            EmailCharset::ISO_2022_JP_2
        } else if bytes_eq(l, [105u8, 115u8, 111u8, 45u8, 56u8, 56u8, 53u8, 57u8, 45u8, 54u8, 45u8, 101u8].as_slice()) {
            EmailCharset::ISO_8859_6_E
        } else if bytes_eq(l, [105u8, 115u8, 111u8, 45u8, 56u8, 56u8, 53u8, 57u8, 45u8, 54u8, 45u8, 105u8].as_slice()) {
            EmailCharset::ISO_8859_6_I
        } else if bytes_eq(l, [105u8, 115u8, 111u8, 45u8, 56u8, 56u8, 53u8, 57u8, 45u8, 56u8, 45u8, 101u8].as_slice()) {
            EmailCharset::ISO_8859_8_E
        } else if bytes_eq(l, [105u8, 115u8, 111u8, 45u8, 56u8, 56u8, 53u8, 57u8, 45u8, 56u8, 45u8, 105u8].as_slice()) {
            EmailCharset::ISO_8859_8_I
        } else if bytes_eq(l, [103u8, 98u8, 50u8, 51u8, 49u8, 50u8].as_slice()) {
            EmailCharset::GB2312
        } else if bytes_eq(l, [98u8, 105u8, 103u8, 53u8].as_slice()) {
            EmailCharset::Big5
        } else if bytes_eq(l, [107u8, 111u8, 105u8, 56u8, 45u8, 114u8].as_slice()) {
            EmailCharset::KOI8_R
        } else if bytes_eq(l, [117u8, 116u8, 102u8, 45u8, 56u8].as_slice()) || bytes_eq(l, [117u8, 116u8, 102u8, 56u8].as_slice()) {
            EmailCharset::UTF_8
        } else {
            EmailCharset::Unknown
        }
    }

    /// The charset named by the text `s`, ignoring ASCII case.
    pub fn from_str(s: &str) -> (r: EmailCharset)
        ensures
            r == charset_of(s.spec_bytes()),
    {
        Self::from_bytes(s.as_bytes())
    }

    /// The UTF-8 charset.
    pub fn utf8() -> (r: EmailCharset)
        ensures
            r == EmailCharset::UTF_8,
    {
        EmailCharset::UTF_8
    }

    /// The IANA name of the charset.
    pub fn as_str(&self) -> (r: &'static str)
        ensures
            r == charset_name(*self),
    {
        match self {
            EmailCharset::US_ASCII => "US-ASCII",
            EmailCharset::ISO_8859_1 => "ISO-8859-1",
            EmailCharset::ISO_8859_2 => "ISO-8859-2",
            EmailCharset::ISO_8859_3 => "ISO-8859-3",
            EmailCharset::ISO_8859_4 => "ISO-8859-4",
            EmailCharset::ISO_8859_5 => "ISO-8859-5",
            EmailCharset::ISO_8859_6 => "ISO-8859-6",
            EmailCharset::ISO_8859_7 => "ISO-8859-7",
            EmailCharset::ISO_8859_8 => "ISO-8859-8",
            EmailCharset::ISO_8859_9 => "ISO-8859-9",
            EmailCharset::ISO_8859_10 => "ISO-8859-10",
            EmailCharset::Shift_JIS => "Shift_JIS",
            EmailCharset::EUC_JP => "EUC-JP",
            EmailCharset::ISO_2022_KR => "ISO-2022-KR",
            EmailCharset::EUC_KR => "EUC-KR",
            EmailCharset::ISO_2022_JP => "ISO-2022-JP",
            EmailCharset::ISO_2022_JP_2 => "ISO-2022-JP-2",
            EmailCharset::ISO_8859_6_E => "ISO-8859-6-E",
            EmailCharset::ISO_8859_6_I => "ISO-8859-6-I",
            EmailCharset::ISO_8859_8_E => "ISO-8859-8-E",
            EmailCharset::ISO_8859_8_I => "ISO-8859-8-I",
            EmailCharset::GB2312 => "GB2312",
            EmailCharset::Big5 => "Big5",
            EmailCharset::KOI8_R => "KOI8-R",
            EmailCharset::UTF_8 => "UTF-8",
            EmailCharset::Unknown => "UTF-8",
        }
    }

    /// The bytes of the IANA name of the charset.
    pub fn as_bytes(&self) -> (r: &'static [u8])
        ensures
            r@ == charset_name(*self).spec_bytes(),
    {
        self.as_str().as_bytes()
    }
}

/// The IANA name of a charset is text without whitespace.
pub proof fn lemma_charset_name_graphic(c: EmailCharset)
    ensures
        graphic(charset_name(c).spec_bytes()),
        charset_name(c).spec_bytes().len() > 0,
{
    reveal_name(c);
    let n = charset_name(c).spec_bytes();
    assert forall|k: int| 0 <= k < n.len() implies 0x21 <= #[trigger] n[k] <= 0x7e by {}
}

/// Reveals the bytes of the IANA name of a charset.
proof fn reveal_name(c: EmailCharset)
    ensures
        c == EmailCharset::US_ASCII ==> charset_name(c).spec_bytes() == seq![85u8, 83u8, 45u8, 65u8, 83u8, 67u8, 73u8, 73u8],
        c == EmailCharset::ISO_8859_1 ==> charset_name(c).spec_bytes() == seq![73u8, 83u8, 79u8, 45u8, 56u8, 56u8, 53u8, 57u8, 45u8, 49u8],
        c == EmailCharset::ISO_8859_2 ==> charset_name(c).spec_bytes() == seq![73u8, 83u8, 79u8, 45u8, 56u8, 56u8, 53u8, 57u8, 45u8, 50u8],
        c == EmailCharset::ISO_8859_3 ==> charset_name(c).spec_bytes() == seq![73u8, 83u8, 79u8, 45u8, 56u8, 56u8, 53u8, 57u8, 45u8, 51u8],
        c == EmailCharset::ISO_8859_4 ==> charset_name(c).spec_bytes() == seq![73u8, 83u8, 79u8, 45u8, 56u8, 56u8, 53u8, 57u8, 45u8, 52u8],
        c == EmailCharset::ISO_8859_5 ==> charset_name(c).spec_bytes() == seq![73u8, 83u8, 79u8, 45u8, 56u8, 56u8, 53u8, 57u8, 45u8, 53u8],
        c == EmailCharset::ISO_8859_6 ==> charset_name(c).spec_bytes() == seq![73u8, 83u8, 79u8, 45u8, 56u8, 56u8, 53u8, 57u8, 45u8, 54u8],
        c == EmailCharset::ISO_8859_7 ==> charset_name(c).spec_bytes() == seq![73u8, 83u8, 79u8, 45u8, 56u8, 56u8, 53u8, 57u8, 45u8, 55u8],
        c == EmailCharset::ISO_8859_8 ==> charset_name(c).spec_bytes() == seq![73u8, 83u8, 79u8, 45u8, 56u8, 56u8, 53u8, 57u8, 45u8, 56u8],
        c == EmailCharset::ISO_8859_9 ==> charset_name(c).spec_bytes() == seq![73u8, 83u8, 79u8, 45u8, 56u8, 56u8, 53u8, 57u8, 45u8, 57u8],
        c == EmailCharset::ISO_8859_10 ==> charset_name(c).spec_bytes() == seq![73u8, 83u8, 79u8, 45u8, 56u8, 56u8, 53u8, 57u8, 45u8, 49u8, 48u8],
        c == EmailCharset::Shift_JIS ==> charset_name(c).spec_bytes() == seq![83u8, 104u8, 105u8, 102u8, 116u8, 95u8, 74u8, 73u8, 83u8],
        c == EmailCharset::EUC_JP ==> charset_name(c).spec_bytes() == seq![69u8, 85u8, 67u8, 45u8, 74u8, 80u8],
        c == EmailCharset::ISO_2022_KR ==> charset_name(c).spec_bytes() == seq![73u8, 83u8, 79u8, 45u8, 50u8, 48u8, 50u8, 50u8, 45u8, 75u8, 82u8],
        c == EmailCharset::EUC_KR ==> charset_name(c).spec_bytes() == seq![69u8, 85u8, 67u8, 45u8, 75u8, 82u8],
        c == EmailCharset::ISO_2022_JP ==> charset_name(c).spec_bytes() == seq![73u8, 83u8, 79u8, 45u8, 50u8, 48u8, 50u8, 50u8, 45u8, 74u8, 80u8],
        c == EmailCharset::ISO_2022_JP_2 ==> charset_name(c).spec_bytes() == seq![73u8, 83u8, 79u8, 45u8, 50u8, 48u8, 50u8, 50u8, 45u8, 74u8, 80u8, 45u8, 50u8],
        c == EmailCharset::ISO_8859_6_E ==> charset_name(c).spec_bytes() == seq![73u8, 83u8, 79u8, 45u8, 56u8, 56u8, 53u8, 57u8, 45u8, 54u8, 45u8, 69u8],
        c == EmailCharset::ISO_8859_6_I ==> charset_name(c).spec_bytes() == seq![73u8, 83u8, 79u8, 45u8, 56u8, 56u8, 53u8, 57u8, 45u8, 54u8, 45u8, 73u8],
        c == EmailCharset::ISO_8859_8_E ==> charset_name(c).spec_bytes() == seq![73u8, 83u8, 79u8, 45u8, 56u8, 56u8, 53u8, 57u8, 45u8, 56u8, 45u8, 69u8],
        c == EmailCharset::ISO_8859_8_I ==> charset_name(c).spec_bytes() == seq![73u8, 83u8, 79u8, 45u8, 56u8, 56u8, 53u8, 57u8, 45u8, 56u8, 45u8, 73u8],
        c == EmailCharset::GB2312 ==> charset_name(c).spec_bytes() == seq![71u8, 66u8, 50u8, 51u8, 49u8, 50u8],
        c == EmailCharset::Big5 ==> charset_name(c).spec_bytes() == seq![66u8, 105u8, 103u8, 53u8],
        c == EmailCharset::KOI8_R ==> charset_name(c).spec_bytes() == seq![75u8, 79u8, 73u8, 56u8, 45u8, 82u8],
        c == EmailCharset::UTF_8 ==> charset_name(c).spec_bytes() == seq![85u8, 84u8, 70u8, 45u8, 56u8],
        c == EmailCharset::Unknown ==> charset_name(c).spec_bytes() == seq![85u8, 84u8, 70u8, 45u8, 56u8],
{
    match c {
        EmailCharset::US_ASCII => {
            reveal_strlit("US-ASCII");
            vstd::string::is_ascii_spec_bytes("US-ASCII");
            assert(vstd::string::is_ascii("US-ASCII"));
            assert("US-ASCII".spec_bytes() =~= seq![85u8, 83u8, 45u8, 65u8, 83u8, 67u8, 73u8, 73u8]);
        },
        EmailCharset::ISO_8859_1 => {
            reveal_strlit("ISO-8859-1");
            vstd::string::is_ascii_spec_bytes("ISO-8859-1");
            assert(vstd::string::is_ascii("ISO-8859-1"));
            assert("ISO-8859-1".spec_bytes() =~= seq![73u8, 83u8, 79u8, 45u8, 56u8, 56u8, 53u8, 57u8, 45u8, 49u8]);
        },
        EmailCharset::ISO_8859_2 => {
            reveal_strlit("ISO-8859-2");
            vstd::string::is_ascii_spec_bytes("ISO-8859-2");
            assert(vstd::string::is_ascii("ISO-8859-2"));
            assert("ISO-8859-2".spec_bytes() =~= seq![73u8, 83u8, 79u8, 45u8, 56u8, 56u8, 53u8, 57u8, 45u8, 50u8]);
        },
        EmailCharset::ISO_8859_3 => {
            reveal_strlit("ISO-8859-3");
            vstd::string::is_ascii_spec_bytes("ISO-8859-3");
            assert(vstd::string::is_ascii("ISO-8859-3"));
            assert("ISO-8859-3".spec_bytes() =~= seq![73u8, 83u8, 79u8, 45u8, 56u8, 56u8, 53u8, 57u8, 45u8, 51u8]);
        },
        EmailCharset::ISO_8859_4 => {
            reveal_strlit("ISO-8859-4");
            vstd::string::is_ascii_spec_bytes("ISO-8859-4");
            assert(vstd::string::is_ascii("ISO-8859-4"));
            assert("ISO-8859-4".spec_bytes() =~= seq![73u8, 83u8, 79u8, 45u8, 56u8, 56u8, 53u8, 57u8, 45u8, 52u8]);
        },
        EmailCharset::ISO_8859_5 => {
            reveal_strlit("ISO-8859-5");
            vstd::string::is_ascii_spec_bytes("ISO-8859-5");
            assert(vstd::string::is_ascii("ISO-8859-5"));
            assert("ISO-8859-5".spec_bytes() =~= seq![73u8, 83u8, 79u8, 45u8, 56u8, 56u8, 53u8, 57u8, 45u8, 53u8]);
        },
        EmailCharset::ISO_8859_6 => {
            reveal_strlit("ISO-8859-6");
            vstd::string::is_ascii_spec_bytes("ISO-8859-6");
            assert(vstd::string::is_ascii("ISO-8859-6"));
            assert("ISO-8859-6".spec_bytes() =~= seq![73u8, 83u8, 79u8, 45u8, 56u8, 56u8, 53u8, 57u8, 45u8, 54u8]);
        },
        EmailCharset::ISO_8859_7 => {
            reveal_strlit("ISO-8859-7");
            vstd::string::is_ascii_spec_bytes("ISO-8859-7");
            assert(vstd::string::is_ascii("ISO-8859-7"));
            assert("ISO-8859-7".spec_bytes() =~= seq![73u8, 83u8, 79u8, 45u8, 56u8, 56u8, 53u8, 57u8, 45u8, 55u8]);
        },
        EmailCharset::ISO_8859_8 => {
            reveal_strlit("ISO-8859-8");
            vstd::string::is_ascii_spec_bytes("ISO-8859-8");
            assert(vstd::string::is_ascii("ISO-8859-8"));
            assert("ISO-8859-8".spec_bytes() =~= seq![73u8, 83u8, 79u8, 45u8, 56u8, 56u8, 53u8, 57u8, 45u8, 56u8]);
        },
        EmailCharset::ISO_8859_9 => {
            reveal_strlit("ISO-8859-9");
            vstd::string::is_ascii_spec_bytes("ISO-8859-9");
            assert(vstd::string::is_ascii("ISO-8859-9"));
            assert("ISO-8859-9".spec_bytes() =~= seq![73u8, 83u8, 79u8, 45u8, 56u8, 56u8, 53u8, 57u8, 45u8, 57u8]);
        },
        EmailCharset::ISO_8859_10 => {
            reveal_strlit("ISO-8859-10");
            vstd::string::is_ascii_spec_bytes("ISO-8859-10");
            assert(vstd::string::is_ascii("ISO-8859-10"));
            assert("ISO-8859-10".spec_bytes() =~= seq![73u8, 83u8, 79u8, 45u8, 56u8, 56u8, 53u8, 57u8, 45u8, 49u8, 48u8]);
        },
        EmailCharset::Shift_JIS => {
            reveal_strlit("Shift_JIS");
            vstd::string::is_ascii_spec_bytes("Shift_JIS");
            assert(vstd::string::is_ascii("Shift_JIS"));
            assert("Shift_JIS".spec_bytes() =~= seq![83u8, 104u8, 105u8, 102u8, 116u8, 95u8, 74u8, 73u8, 83u8]);
        },
        EmailCharset::EUC_JP => {
            reveal_strlit("EUC-JP");
            vstd::string::is_ascii_spec_bytes("EUC-JP");
            assert(vstd::string::is_ascii("EUC-JP"));
            assert("EUC-JP".spec_bytes() =~= seq![69u8, 85u8, 67u8, 45u8, 74u8, 80u8]);
        },
        EmailCharset::ISO_2022_KR => {
            reveal_strlit("ISO-2022-KR");
            vstd::string::is_ascii_spec_bytes("ISO-2022-KR");
            assert(vstd::string::is_ascii("ISO-2022-KR"));
            assert("ISO-2022-KR".spec_bytes() =~= seq![73u8, 83u8, 79u8, 45u8, 50u8, 48u8, 50u8, 50u8, 45u8, 75u8, 82u8]);
        },
        EmailCharset::EUC_KR => {
            reveal_strlit("EUC-KR");
            vstd::string::is_ascii_spec_bytes("EUC-KR");
            assert(vstd::string::is_ascii("EUC-KR"));
            assert("EUC-KR".spec_bytes() =~= seq![69u8, 85u8, 67u8, 45u8, 75u8, 82u8]);
        },
        EmailCharset::ISO_2022_JP => {
            reveal_strlit("ISO-2022-JP");
            vstd::string::is_ascii_spec_bytes("ISO-2022-JP");
            assert(vstd::string::is_ascii("ISO-2022-JP"));
            assert("ISO-2022-JP".spec_bytes() =~= seq![73u8, 83u8, 79u8, 45u8, 50u8, 48u8, 50u8, 50u8, 45u8, 74u8, 80u8]);
        },
        EmailCharset::ISO_2022_JP_2 => {
            reveal_strlit("ISO-2022-JP-2");
            vstd::string::is_ascii_spec_bytes("ISO-2022-JP-2");
            assert(vstd::string::is_ascii("ISO-2022-JP-2"));
            assert("ISO-2022-JP-2".spec_bytes() =~= seq![73u8, 83u8, 79u8, 45u8, 50u8, 48u8, 50u8, 50u8, 45u8, 74u8, 80u8, 45u8, 50u8]);
        },
        EmailCharset::ISO_8859_6_E => {
            reveal_strlit("ISO-8859-6-E");
            vstd::string::is_ascii_spec_bytes("ISO-8859-6-E");
            assert(vstd::string::is_ascii("ISO-8859-6-E"));
            assert("ISO-8859-6-E".spec_bytes() =~= seq![73u8, 83u8, 79u8, 45u8, 56u8, 56u8, 53u8, 57u8, 45u8, 54u8, 45u8, 69u8]);
        },
        EmailCharset::ISO_8859_6_I => {
            reveal_strlit("ISO-8859-6-I");
            vstd::string::is_ascii_spec_bytes("ISO-8859-6-I");
            assert(vstd::string::is_ascii("ISO-8859-6-I"));
            assert("ISO-8859-6-I".spec_bytes() =~= seq![73u8, 83u8, 79u8, 45u8, 56u8, 56u8, 53u8, 57u8, 45u8, 54u8, 45u8, 73u8]);
        },
        EmailCharset::ISO_8859_8_E => {
            reveal_strlit("ISO-8859-8-E");
            vstd::string::is_ascii_spec_bytes("ISO-8859-8-E");
            assert(vstd::string::is_ascii("ISO-8859-8-E"));
            assert("ISO-8859-8-E".spec_bytes() =~= seq![73u8, 83u8, 79u8, 45u8, 56u8, 56u8, 53u8, 57u8, 45u8, 56u8, 45u8, 69u8]);
        },
        EmailCharset::ISO_8859_8_I => {
            reveal_strlit("ISO-8859-8-I");
            vstd::string::is_ascii_spec_bytes("ISO-8859-8-I");
            assert(vstd::string::is_ascii("ISO-8859-8-I"));
            assert("ISO-8859-8-I".spec_bytes() =~= seq![73u8, 83u8, 79u8, 45u8, 56u8, 56u8, 53u8, 57u8, 45u8, 56u8, 45u8, 73u8]);
        },
        EmailCharset::GB2312 => {
            reveal_strlit("GB2312");
            vstd::string::is_ascii_spec_bytes("GB2312");
            assert(vstd::string::is_ascii("GB2312"));
            assert("GB2312".spec_bytes() =~= seq![71u8, 66u8, 50u8, 51u8, 49u8, 50u8]);
        },
        EmailCharset::Big5 => {
            reveal_strlit("Big5");
            vstd::string::is_ascii_spec_bytes("Big5");
            assert(vstd::string::is_ascii("Big5"));
            assert("Big5".spec_bytes() =~= seq![66u8, 105u8, 103u8, 53u8]);
        },
        EmailCharset::KOI8_R => {
            reveal_strlit("KOI8-R");
            vstd::string::is_ascii_spec_bytes("KOI8-R");
            assert(vstd::string::is_ascii("KOI8-R"));
            assert("KOI8-R".spec_bytes() =~= seq![75u8, 79u8, 73u8, 56u8, 45u8, 82u8]);
        },
        EmailCharset::UTF_8 => {
            reveal_strlit("UTF-8");
            vstd::string::is_ascii_spec_bytes("UTF-8");
            assert(vstd::string::is_ascii("UTF-8"));
            assert("UTF-8".spec_bytes() =~= seq![85u8, 84u8, 70u8, 45u8, 56u8]);
        },
        EmailCharset::Unknown => {
            reveal_strlit("UTF-8");
            vstd::string::is_ascii_spec_bytes("UTF-8");
            assert(vstd::string::is_ascii("UTF-8"));
            assert("UTF-8".spec_bytes() =~= seq![85u8, 84u8, 70u8, 45u8, 56u8]);
        },
    }
}

proof fn roundtrip_us_ascii()
    ensures
        charset_of(charset_name(EmailCharset::US_ASCII).spec_bytes()) == EmailCharset::US_ASCII,
{
    reveal_name(EmailCharset::US_ASCII);
    let t = seq![117u8, 115u8, 45u8, 97u8, 115u8, 99u8, 105u8, 105u8];
    assert(lower(charset_name(EmailCharset::US_ASCII).spec_bytes()) =~= t);
}

proof fn roundtrip_iso_8859_1()
    ensures
        charset_of(charset_name(EmailCharset::ISO_8859_1).spec_bytes()) == EmailCharset::ISO_8859_1,
{
    reveal_name(EmailCharset::ISO_8859_1);
    let t = seq![105u8, 115u8, 111u8, 45u8, 56u8, 56u8, 53u8, 57u8, 45u8, 49u8];
    assert(lower(charset_name(EmailCharset::ISO_8859_1).spec_bytes()) =~= t);
    assert(t.len() != seq![117u8, 115u8, 45u8, 97u8, 115u8, 99u8, 105u8, 105u8].len());
    assert(t.len() != seq![97u8, 115u8, 99u8, 105u8, 105u8].len());
}

proof fn roundtrip_iso_8859_2()
    ensures
        charset_of(charset_name(EmailCharset::ISO_8859_2).spec_bytes()) == EmailCharset::ISO_8859_2,
{
    reveal_name(EmailCharset::ISO_8859_2);
    let t = seq![105u8, 115u8, 111u8, 45u8, 56u8, 56u8, 53u8, 57u8, 45u8, 50u8];
    assert(lower(charset_name(EmailCharset::ISO_8859_2).spec_bytes()) =~= t);
    assert(t.len() != seq![117u8, 115u8, 45u8, 97u8, 115u8, 99u8, 105u8, 105u8].len());
    assert(t.len() != seq![97u8, 115u8, 99u8, 105u8, 105u8].len());
    assert(t[9] != seq![105u8, 115u8, 111u8, 45u8, 56u8, 56u8, 53u8, 57u8, 45u8, 49u8][9]);
}

proof fn roundtrip_iso_8859_3()
    ensures
        charset_of(charset_name(EmailCharset::ISO_8859_3).spec_bytes()) == EmailCharset::ISO_8859_3,
{
    reveal_name(EmailCharset::ISO_8859_3);
    let t = seq![105u8, 115u8, 111u8, 45u8, 56u8, 56u8, 53u8, 57u8, 45u8, 51u8];
    assert(lower(charset_name(EmailCharset::ISO_8859_3).spec_bytes()) =~= t);
    assert(t.len() != seq![117u8, 115u8, 45u8, 97u8, 115u8, 99u8, 105u8, 105u8].len());
    assert(t.len() != seq![97u8, 115u8, 99u8, 105u8, 105u8].len());
    assert(t[9] != seq![105u8, 115u8, 111u8, 45u8, 56u8, 56u8, 53u8, 57u8, 45u8, 49u8][9]);
    assert(t[9] != seq![105u8, 115u8, 111u8, 45u8, 56u8, 56u8, 53u8, 57u8, 45u8, 50u8][9]);
}

proof fn roundtrip_iso_8859_4()
    ensures
        charset_of(charset_name(EmailCharset::ISO_8859_4).spec_bytes()) == EmailCharset::ISO_8859_4,
{
    reveal_name(EmailCharset::ISO_8859_4);
    let t = seq![105u8, 115u8, 111u8, 45u8, 56u8, 56u8, 53u8, 57u8, 45u8, 52u8];
    assert(lower(charset_name(EmailCharset::ISO_8859_4).spec_bytes()) =~= t);
    assert(t.len() != seq![117u8, 115u8, 45u8, 97u8, 115u8, 99u8, 105u8, 105u8].len());
    assert(t.len() != seq![97u8, 115u8, 99u8, 105u8, 105u8].len());
    assert(t[9] != seq![105u8, 115u8, 111u8, 45u8, 56u8, 56u8, 53u8, 57u8, 45u8, 49u8][9]);
    assert(t[9] != seq![105u8, 115u8, 111u8, 45u8, 56u8, 56u8, 53u8, 57u8, 45u8, 50u8][9]);
    assert(t[9] != seq![105u8, 115u8, 111u8, 45u8, 56u8, 56u8, 53u8, 57u8, 45u8, 51u8][9]);
}

proof fn roundtrip_iso_8859_5()
    ensures
        charset_of(charset_name(EmailCharset::ISO_8859_5).spec_bytes()) == EmailCharset::ISO_8859_5,
{
    reveal_name(EmailCharset::ISO_8859_5);
    let t = seq![105u8, 115u8, 111u8, 45u8, 56u8, 56u8, 53u8, 57u8, 45u8, 53u8];
    assert(lower(charset_name(EmailCharset::ISO_8859_5).spec_bytes()) =~= t);
    assert(t.len() != seq![117u8, 115u8, 45u8, 97u8, 115u8, 99u8, 105u8, 105u8].len());
    assert(t.len() != seq![97u8, 115u8, 99u8, 105u8, 105u8].len());
    assert(t[9] != seq![105u8, 115u8, 111u8, 45u8, 56u8, 56u8, 53u8, 57u8, 45u8, 49u8][9]);
    assert(t[9] != seq![105u8, 115u8, 111u8, 45u8, 56u8, 56u8, 53u8, 57u8, 45u8, 50u8][9]);
    assert(t[9] != seq![105u8, 115u8, 111u8, 45u8, 56u8, 56u8, 53u8, 57u8, 45u8, 51u8][9]);
    assert(t[9] != seq![105u8, 115u8, 111u8, 45u8, 56u8, 56u8, 53u8, 57u8, 45u8, 52u8][9]);
}

proof fn roundtrip_iso_8859_6()
    ensures
        charset_of(charset_name(EmailCharset::ISO_8859_6).spec_bytes()) == EmailCharset::ISO_8859_6,
{
    reveal_name(EmailCharset::ISO_8859_6);
    let t = seq![105u8, 115u8, 111u8, 45u8, 56u8, 56u8, 53u8, 57u8, 45u8, 54u8];
    assert(lower(charset_name(EmailCharset::ISO_8859_6).spec_bytes()) =~= t);
    assert(t.len() != seq![117u8, 115u8, 45u8, 97u8, 115u8, 99u8, 105u8, 105u8].len());
    assert(t.len() != seq![97u8, 115u8, 99u8, 105u8, 105u8].len());
    assert(t[9] != seq![105u8, 115u8, 111u8, 45u8, 56u8, 56u8, 53u8, 57u8, 45u8, 49u8][9]);
    assert(t[9] != seq![105u8, 115u8, 111u8, 45u8, 56u8, 56u8, 53u8, 57u8, 45u8, 50u8][9]);
    assert(t[9] != seq![105u8, 115u8, 111u8, 45u8, 56u8, 56u8, 53u8, 57u8, 45u8, 51u8][9]);
    assert(t[9] != seq![105u8, 115u8, 111u8, 45u8, 56u8, 56u8, 53u8, 57u8, 45u8, 52u8][9]);
    assert(t[9] != seq![105u8, 115u8, 111u8, 45u8, 56u8, 56u8, 53u8, 57u8, 45u8, 53u8][9]);
}

proof fn roundtrip_iso_8859_7()
    ensures
        charset_of(charset_name(EmailCharset::ISO_8859_7).spec_bytes()) == EmailCharset::ISO_8859_7,
{
    reveal_name(EmailCharset::ISO_8859_7);
    let t = seq![105u8, 115u8, 111u8, 45u8, 56u8, 56u8, 53u8, 57u8, 45u8, 55u8];
    assert(lower(charset_name(EmailCharset::ISO_8859_7).spec_bytes()) =~= t);
    assert(t.len() != seq![117u8, 115u8, 45u8, 97u8, 115u8, 99u8, 105u8, 105u8].len());
    assert(t.len() != seq![97u8, 115u8, 99u8, 105u8, 105u8].len());
    assert(t[9] != seq![105u8, 115u8, 111u8, 45u8, 56u8, 56u8, 53u8, 57u8, 45u8, 49u8][9]);
    assert(t[9] != seq![105u8, 115u8, 111u8, 45u8, 56u8, 56u8, 53u8, 57u8, 45u8, 50u8][9]);
    assert(t[9] != seq![105u8, 115u8, 111u8, 45u8, 56u8, 56u8, 53u8, 57u8, 45u8, 51u8][9]);
    assert(t[9] != seq![105u8, 115u8, 111u8, 45u8, 56u8, 56u8, 53u8, 57u8, 45u8, 52u8][9]);
    assert(t[9] != seq![105u8, 115u8, 111u8, 45u8, 56u8, 56u8, 53u8, 57u8, 45u8, 53u8][9]);
    assert(t[9] != seq![105u8, 115u8, 111u8, 45u8, 56u8, 56u8, 53u8, 57u8, 45u8, 54u8][9]);
}

proof fn roundtrip_iso_8859_8()
    ensures
        charset_of(charset_name(EmailCharset::ISO_8859_8).spec_bytes()) == EmailCharset::ISO_8859_8,
{
    reveal_name(EmailCharset::ISO_8859_8);
    let t = seq![105u8, 115u8, 111u8, 45u8, 56u8, 56u8, 53u8, 57u8, 45u8, 56u8];
    assert(lower(charset_name(EmailCharset::ISO_8859_8).spec_bytes()) =~= t);
    assert(t.len() != seq![117u8, 115u8, 45u8, 97u8, 115u8, 99u8, 105u8, 105u8].len());
    assert(t.len() != seq![97u8, 115u8, 99u8, 105u8, 105u8].len());
    assert(t[9] != seq![105u8, 115u8, 111u8, 45u8, 56u8, 56u8, 53u8, 57u8, 45u8, 49u8][9]);
    assert(t[9] != seq![105u8, 115u8, 111u8, 45u8, 56u8, 56u8, 53u8, 57u8, 45u8, 50u8][9]);
    assert(t[9] != seq![105u8, 115u8, 111u8, 45u8, 56u8, 56u8, 53u8, 57u8, 45u8, 51u8][9]);
    assert(t[9] != seq![105u8, 115u8, 111u8, 45u8, 56u8, 56u8, 53u8, 57u8, 45u8, 52u8][9]);
    assert(t[9] != seq![105u8, 115u8, 111u8, 45u8, 56u8, 56u8, 53u8, 57u8, 45u8, 53u8][9]);
    assert(t[9] != seq![105u8, 115u8, 111u8, 45u8, 56u8, 56u8, 53u8, 57u8, 45u8, 54u8][9]);
    assert(t[9] != seq![105u8, 115u8, 111u8, 45u8, 56u8, 56u8, 53u8, 57u8, 45u8, 55u8][9]);
}

proof fn roundtrip_iso_8859_9()
    ensures
        charset_of(charset_name(EmailCharset::ISO_8859_9).spec_bytes()) == EmailCharset::ISO_8859_9,
{
    reveal_name(EmailCharset::ISO_8859_9);
    let t = seq![105u8, 115u8, 111u8, 45u8, 56u8, 56u8, 53u8, 57u8, 45u8, 57u8];
    assert(lower(charset_name(EmailCharset::ISO_8859_9).spec_bytes()) =~= t);
    assert(t.len() != seq![117u8, 115u8, 45u8, 97u8, 115u8, 99u8, 105u8, 105u8].len());
    assert(t.len() != seq![97u8, 115u8, 99u8, 105u8, 105u8].len());
    assert(t[9] != seq![105u8, 115u8, 111u8, 45u8, 56u8, 56u8, 53u8, 57u8, 45u8, 49u8][9]);
    assert(t[9] != seq![105u8, 115u8, 111u8, 45u8, 56u8, 56u8, 53u8, 57u8, 45u8, 50u8][9]);
    assert(t[9] != seq![105u8, 115u8, 111u8, 45u8, 56u8, 56u8, 53u8, 57u8, 45u8, 51u8][9]);
    assert(t[9] != seq![105u8, 115u8, 111u8, 45u8, 56u8, 56u8, 53u8, 57u8, 45u8, 52u8][9]);
    assert(t[9] != seq![105u8, 115u8, 111u8, 45u8, 56u8, 56u8, 53u8, 57u8, 45u8, 53u8][9]);
    assert(t[9] != seq![105u8, 115u8, 111u8, 45u8, 56u8, 56u8, 53u8, 57u8, 45u8, 54u8][9]);
    assert(t[9] != seq![105u8, 115u8, 111u8, 45u8, 56u8, 56u8, 53u8, 57u8, 45u8, 55u8][9]);
    assert(t[9] != seq![105u8, 115u8, 111u8, 45u8, 56u8, 56u8, 53u8, 57u8, 45u8, 56u8][9]);
}

proof fn roundtrip_iso_8859_10()
    ensures
        charset_of(charset_name(EmailCharset::ISO_8859_10).spec_bytes()) == EmailCharset::ISO_8859_10,
{
    reveal_name(EmailCharset::ISO_8859_10);
    let t = seq![105u8, 115u8, 111u8, 45u8, 56u8, 56u8, 53u8, 57u8, 45u8, 49u8, 48u8];
    assert(lower(charset_name(EmailCharset::ISO_8859_10).spec_bytes()) =~= t);
    assert(t.len() != seq![117u8, 115u8, 45u8, 97u8, 115u8, 99u8, 105u8, 105u8].len());
    assert(t.len() != seq![97u8, 115u8, 99u8, 105u8, 105u8].len());
    assert(t.len() != seq![105u8, 115u8, 111u8, 45u8, 56u8, 56u8, 53u8, 57u8, 45u8, 49u8].len());
    assert(t.len() != seq![105u8, 115u8, 111u8, 45u8, 56u8, 56u8, 53u8, 57u8, 45u8, 50u8].len());
    assert(t.len() != seq![105u8, 115u8, 111u8, 45u8, 56u8, 56u8, 53u8, 57u8, 45u8, 51u8].len());
    assert(t.len() != seq![105u8, 115u8, 111u8, 45u8, 56u8, 56u8, 53u8, 57u8, 45u8, 52u8].len());
    assert(t.len() != seq![105u8, 115u8, 111u8, 45u8, 56u8, 56u8, 53u8, 57u8, 45u8, 53u8].len());
    assert(t.len() != seq![105u8, 115u8, 111u8, 45u8, 56u8, 56u8, 53u8, 57u8, 45u8, 54u8].len());
    assert(t.len() != seq![105u8, 115u8, 111u8, 45u8, 56u8, 56u8, 53u8, 57u8, 45u8, 55u8].len());
    assert(t.len() != seq![105u8, 115u8, 111u8, 45u8, 56u8, 56u8, 53u8, 57u8, 45u8, 56u8].len());
    assert(t.len() != seq![105u8, 115u8, 111u8, 45u8, 56u8, 56u8, 53u8, 57u8, 45u8, 57u8].len());
}

proof fn roundtrip_shift_jis()
    ensures
        charset_of(charset_name(EmailCharset::Shift_JIS).spec_bytes()) == EmailCharset::Shift_JIS,
{
    reveal_name(EmailCharset::Shift_JIS);
    let t = seq![115u8, 104u8, 105u8, 102u8, 116u8, 95u8, 106u8, 105u8, 115u8];
    assert(lower(charset_name(EmailCharset::Shift_JIS).spec_bytes()) =~= t);
    assert(t.len() != seq![117u8, 115u8, 45u8, 97u8, 115u8, 99u8, 105u8, 105u8].len());
    assert(t.len() != seq![97u8, 115u8, 99u8, 105u8, 105u8].len());
    assert(t.len() != seq![105u8, 115u8, 111u8, 45u8, 56u8, 56u8, 53u8, 57u8, 45u8, 49u8].len());
    assert(t.len() != seq![105u8, 115u8, 111u8, 45u8, 56u8, 56u8, 53u8, 57u8, 45u8, 50u8].len());
    assert(t.len() != seq![105u8, 115u8, 111u8, 45u8, 56u8, 56u8, 53u8, 57u8, 45u8, 51u8].len());
    assert(t.len() != seq![105u8, 115u8, 111u8, 45u8, 56u8, 56u8, 53u8, 57u8, 45u8, 52u8].len());
    assert(t.len() != seq![105u8, 115u8, 111u8, 45u8, 56u8, 56u8, 53u8, 57u8, 45u8, 53u8].len());
    assert(t.len() != seq![105u8, 115u8, 111u8, 45u8, 56u8, 56u8, 53u8, 57u8, 45u8, 54u8].len());
    assert(t.len() != seq![105u8, 115u8, 111u8, 45u8, 56u8, 56u8, 53u8, 57u8, 45u8, 55u8].len());
    assert(t.len() != seq![105u8, 115u8, 111u8, 45u8, 56u8, 56u8, 53u8, 57u8, 45u8, 56u8].len());
    assert(t.len() != seq![105u8, 115u8, 111u8, 45u8, 56u8, 56u8, 53u8, 57u8, 45u8, 57u8].len());
    assert(t.len() != seq![105u8, 115u8, 111u8, 45u8, 56u8, 56u8, 53u8, 57u8, 45u8, 49u8, 48u8].len());
}

proof fn roundtrip_euc_jp()
    ensures
        charset_of(charset_name(EmailCharset::EUC_JP).spec_bytes()) == EmailCharset::EUC_JP,
{
    reveal_name(EmailCharset::EUC_JP);
    let t = seq![101u8, 117u8, 99u8, 45u8, 106u8, 112u8];
    assert(lower(charset_name(EmailCharset::EUC_JP).spec_bytes()) =~= t);
    assert(t.len() != seq![117u8, 115u8, 45u8, 97u8, 115u8, 99u8, 105u8, 105u8].len());
    assert(t.len() != seq![97u8, 115u8, 99u8, 105u8, 105u8].len());
    assert(t.len() != seq![105u8, 115u8, 111u8, 45u8, 56u8, 56u8, 53u8, 57u8, 45u8, 49u8].len());
    assert(t.len() != seq![105u8, 115u8, 111u8, 45u8, 56u8, 56u8, 53u8, 57u8, 45u8, 50u8].len());
    assert(t.len() != seq![105u8, 115u8, 111u8, 45u8, 56u8, 56u8, 53u8, 57u8, 45u8, 51u8].len());
    assert(t.len() != seq![105u8, 115u8, 111u8, 45u8, 56u8, 56u8, 53u8, 57u8, 45u8, 52u8].len());
    assert(t.len() != seq![105u8, 115u8, 111u8, 45u8, 56u8, 56u8, 53u8, 57u8, 45u8, 53u8].len());
    assert(t.len() != seq![105u8, 115u8, 111u8, 45u8, 56u8, 56u8, 53u8, 57u8, 45u8, 54u8].len());
    assert(t.len() != seq![105u8, 115u8, 111u8, 45u8, 56u8, 56u8, 53u8, 57u8, 45u8, 55u8].len());
    assert(t.len() != seq![105u8, 115u8, 111u8, 45u8, 56u8, 56u8, 53u8, 57u8, 45u8, 56u8].len());
    assert(t.len() != seq![105u8, 115u8, 111u8, 45u8, 56u8, 56u8, 53u8, 57u8, 45u8, 57u8].len());
    assert(t.len() != seq![105u8, 115u8, 111u8, 45u8, 56u8, 56u8, 53u8, 57u8, 45u8, 49u8, 48u8].len());
    assert(t.len() != seq![115u8, 104u8, 105u8, 102u8, 116u8, 95u8, 106u8, 105u8, 115u8].len());
}

proof fn roundtrip_iso_2022_kr()
    ensures
        charset_of(charset_name(EmailCharset::ISO_2022_KR).spec_bytes()) == EmailCharset::ISO_2022_KR,
{
    reveal_name(EmailCharset::ISO_2022_KR);
    let t = seq![105u8, 115u8, 111u8, 45u8, 50u8, 48u8, 50u8, 50u8, 45u8, 107u8, 114u8];
    assert(lower(charset_name(EmailCharset::ISO_2022_KR).spec_bytes()) =~= t);
    assert(t.len() != seq![117u8, 115u8, 45u8, 97u8, 115u8, 99u8, 105u8, 105u8].len());
    assert(t.len() != seq![97u8, 115u8, 99u8, 105u8, 105u8].len());
    assert(t.len() != seq![105u8, 115u8, 111u8, 45u8, 56u8, 56u8, 53u8, 57u8, 45u8, 49u8].len());
    assert(t.len() != seq![105u8, 115u8, 111u8, 45u8, 56u8, 56u8, 53u8, 57u8, 45u8, 50u8].len());
    assert(t.len() != seq![105u8, 115u8, 111u8, 45u8, 56u8, 56u8, 53u8, 57u8, 45u8, 51u8].len());
    assert(t.len() != seq![105u8, 115u8, 111u8, 45u8, 56u8, 56u8, 53u8, 57u8, 45u8, 52u8].len());
    assert(t.len() != seq![105u8, 115u8, 111u8, 45u8, 56u8, 56u8, 53u8, 57u8, 45u8, 53u8].len());
    assert(t.len() != seq![105u8, 115u8, 111u8, 45u8, 56u8, 56u8, 53u8, 57u8, 45u8, 54u8].len());
    assert(t.len() != seq![105u8, 115u8, 111u8, 45u8, 56u8, 56u8, 53u8, 57u8, 45u8, 55u8].len());
    assert(t.len() != seq![105u8, 115u8, 111u8, 45u8, 56u8, 56u8, 53u8, 57u8, 45u8, 56u8].len());
    assert(t.len() != seq![105u8, 115u8, 111u8, 45u8, 56u8, 56u8, 53u8, 57u8, 45u8, 57u8].len());
    assert(t[4] != seq![105u8, 115u8, 111u8, 45u8, 56u8, 56u8, 53u8, 57u8, 45u8, 49u8, 48u8][4]);
    assert(t.len() != seq![115u8, 104u8, 105u8, 102u8, 116u8, 95u8, 106u8, 105u8, 115u8].len());
    assert(t.len() != seq![101u8, 117u8, 99u8, 45u8, 106u8, 112u8].len());
}

proof fn roundtrip_euc_kr()
    ensures
        charset_of(charset_name(EmailCharset::EUC_KR).spec_bytes()) == EmailCharset::EUC_KR,
{
    reveal_name(EmailCharset::EUC_KR);
    let t = seq![101u8, 117u8, 99u8, 45u8, 107u8, 114u8];
    assert(lower(charset_name(EmailCharset::EUC_KR).spec_bytes()) =~= t);
    assert(t.len() != seq![117u8, 115u8, 45u8, 97u8, 115u8, 99u8, 105u8, 105u8].len());
    assert(t.len() != seq![97u8, 115u8, 99u8, 105u8, 105u8].len());
    assert(t.len() != seq![105u8, 115u8, 111u8, 45u8, 56u8, 56u8, 53u8, 57u8, 45u8, 49u8].len());
    assert(t.len() != seq![105u8, 115u8, 111u8, 45u8, 56u8, 56u8, 53u8, 57u8, 45u8, 50u8].len());
    assert(t.len() != seq![105u8, 115u8, 111u8, 45u8, 56u8, 56u8, 53u8, 57u8, 45u8, 51u8].len());
    assert(t.len() != seq![105u8, 115u8, 111u8, 45u8, 56u8, 56u8, 53u8, 57u8, 45u8, 52u8].len());
    assert(t.len() != seq![105u8, 115u8, 111u8, 45u8, 56u8, 56u8, 53u8, 57u8, 45u8, 53u8].len());
    assert(t.len() != seq![105u8, 115u8, 111u8, 45u8, 56u8, 56u8, 53u8, 57u8, 45u8, 54u8].len());
    assert(t.len() != seq![105u8, 115u8, 111u8, 45u8, 56u8, 56u8, 53u8, 57u8, 45u8, 55u8].len());
    assert(t.len() != seq![105u8, 115u8, 111u8, 45u8, 56u8, 56u8, 53u8, 57u8, 45u8, 56u8].len());
    assert(t.len() != seq![105u8, 115u8, 111u8, 45u8, 56u8, 56u8, 53u8, 57u8, 45u8, 57u8].len());
    assert(t.len() != seq![105u8, 115u8, 111u8, 45u8, 56u8, 56u8, 53u8, 57u8, 45u8, 49u8, 48u8].len());
    assert(t.len() != seq![115u8, 104u8, 105u8, 102u8, 116u8, 95u8, 106u8, 105u8, 115u8].len());
    assert(t[4] != seq![101u8, 117u8, 99u8, 45u8, 106u8, 112u8][4]);
    assert(t.len() != seq![105u8, 115u8, 111u8, 45u8, 50u8, 48u8, 50u8, 50u8, 45u8, 107u8, 114u8].len());
}

proof fn roundtrip_iso_2022_jp()
    ensures
        charset_of(charset_name(EmailCharset::ISO_2022_JP).spec_bytes()) == EmailCharset::ISO_2022_JP,
{
    reveal_name(EmailCharset::ISO_2022_JP);
    let t = seq![105u8, 115u8, 111u8, 45u8, 50u8, 48u8, 50u8, 50u8, 45u8, 106u8, 112u8];
    assert(lower(charset_name(EmailCharset::ISO_2022_JP).spec_bytes()) =~= t);
    assert(t.len() != seq![117u8, 115u8, 45u8, 97u8, 115u8, 99u8, 105u8, 105u8].len());
    assert(t.len() != seq![97u8, 115u8, 99u8, 105u8, 105u8].len());
    assert(t.len() != seq![105u8, 115u8, 111u8, 45u8, 56u8, 56u8, 53u8, 57u8, 45u8, 49u8].len());
    assert(t.len() != seq![105u8, 115u8, 111u8, 45u8, 56u8, 56u8, 53u8, 57u8, 45u8, 50u8].len());
    assert(t.len() != seq![105u8, 115u8, 111u8, 45u8, 56u8, 56u8, 53u8, 57u8, 45u8, 51u8].len());
    assert(t.len() != seq![105u8, 115u8, 111u8, 45u8, 56u8, 56u8, 53u8, 57u8, 45u8, 52u8].len());
    assert(t.len() != seq![105u8, 115u8, 111u8, 45u8, 56u8, 56u8, 53u8, 57u8, 45u8, 53u8].len());
    assert(t.len() != seq![105u8, 115u8, 111u8, 45u8, 56u8, 56u8, 53u8, 57u8, 45u8, 54u8].len());
    assert(t.len() != seq![105u8, 115u8, 111u8, 45u8, 56u8, 56u8, 53u8, 57u8, 45u8, 55u8].len());
    assert(t.len() != seq![105u8, 115u8, 111u8, 45u8, 56u8, 56u8, 53u8, 57u8, 45u8, 56u8].len());
    assert(t.len() != seq![105u8, 115u8, 111u8, 45u8, 56u8, 56u8, 53u8, 57u8, 45u8, 57u8].len());
    assert(t[4] != seq![105u8, 115u8, 111u8, 45u8, 56u8, 56u8, 53u8, 57u8, 45u8, 49u8, 48u8][4]);
    assert(t.len() != seq![115u8, 104u8, 105u8, 102u8, 116u8, 95u8, 106u8, 105u8, 115u8].len());
    assert(t.len() != seq![101u8, 117u8, 99u8, 45u8, 106u8, 112u8].len());
    assert(t[9] != seq![105u8, 115u8, 111u8, 45u8, 50u8, 48u8, 50u8, 50u8, 45u8, 107u8, 114u8][9]);
    assert(t.len() != seq![101u8, 117u8, 99u8, 45u8, 107u8, 114u8].len());
}

proof fn roundtrip_iso_2022_jp_2()
    ensures
        charset_of(charset_name(EmailCharset::ISO_2022_JP_2).spec_bytes()) == EmailCharset::ISO_2022_JP_2,
{
    reveal_name(EmailCharset::ISO_2022_JP_2);
    let t = seq![105u8, 115u8, 111u8, 45u8, 50u8, 48u8, 50u8, 50u8, 45u8, 106u8, 112u8, 45u8, 50u8];
    assert(lower(charset_name(EmailCharset::ISO_2022_JP_2).spec_bytes()) =~= t);
    assert(t.len() != seq![117u8, 115u8, 45u8, 97u8, 115u8, 99u8, 105u8, 105u8].len());
    assert(t.len() != seq![97u8, 115u8, 99u8, 105u8, 105u8].len());
    assert(t.len() != seq![105u8, 115u8, 111u8, 45u8, 56u8, 56u8, 53u8, 57u8, 45u8, 49u8].len());
    assert(t.len() != seq![105u8, 115u8, 111u8, 45u8, 56u8, 56u8, 53u8, 57u8, 45u8, 50u8].len());
    assert(t.len() != seq![105u8, 115u8, 111u8, 45u8, 56u8, 56u8, 53u8, 57u8, 45u8, 51u8].len());
    assert(t.len() != seq![105u8, 115u8, 111u8, 45u8, 56u8, 56u8, 53u8, 57u8, 45u8, 52u8].len());
    assert(t.len() != seq![105u8, 115u8, 111u8, 45u8, 56u8, 56u8, 53u8, 57u8, 45u8, 53u8].len());
    assert(t.len() != seq![105u8, 115u8, 111u8, 45u8, 56u8, 56u8, 53u8, 57u8, 45u8, 54u8].len());
    assert(t.len() != seq![105u8, 115u8, 111u8, 45u8, 56u8, 56u8, 53u8, 57u8, 45u8, 55u8].len());
    assert(t.len() != seq![105u8, 115u8, 111u8, 45u8, 56u8, 56u8, 53u8, 57u8, 45u8, 56u8].len());
    assert(t.len() != seq![105u8, 115u8, 111u8, 45u8, 56u8, 56u8, 53u8, 57u8, 45u8, 57u8].len());
    assert(t.len() != seq![105u8, 115u8, 111u8, 45u8, 56u8, 56u8, 53u8, 57u8, 45u8, 49u8, 48u8].len());
    assert(t.len() != seq![115u8, 104u8, 105u8, 102u8, 116u8, 95u8, 106u8, 105u8, 115u8].len());
    assert(t.len() != seq![101u8, 117u8, 99u8, 45u8, 106u8, 112u8].len());
    assert(t.len() != seq![105u8, 115u8, 111u8, 45u8, 50u8, 48u8, 50u8, 50u8, 45u8, 107u8, 114u8].len());
    assert(t.len() != seq![101u8, 117u8, 99u8, 45u8, 107u8, 114u8].len());
    assert(t.len() != seq![105u8, 115u8, 111u8, 45u8, 50u8, 48u8, 50u8, 50u8, 45u8, 106u8, 112u8].len());
}

proof fn roundtrip_iso_8859_6_e()
    ensures
        charset_of(charset_name(EmailCharset::ISO_8859_6_E).spec_bytes()) == EmailCharset::ISO_8859_6_E,
{
    reveal_name(EmailCharset::ISO_8859_6_E);
    let t = seq![105u8, 115u8, 111u8, 45u8, 56u8, 56u8, 53u8, 57u8, 45u8, 54u8, 45u8, 101u8];
    assert(lower(charset_name(EmailCharset::ISO_8859_6_E).spec_bytes()) =~= t);
    assert(t.len() != seq![117u8, 115u8, 45u8, 97u8, 115u8, 99u8, 105u8, 105u8].len());
    assert(t.len() != seq![97u8, 115u8, 99u8, 105u8, 105u8].len());
    assert(t.len() != seq![105u8, 115u8, 111u8, 45u8, 56u8, 56u8, 53u8, 57u8, 45u8, 49u8].len());
    assert(t.len() != seq![105u8, 115u8, 111u8, 45u8, 56u8, 56u8, 53u8, 57u8, 45u8, 50u8].len());
    assert(t.len() != seq![105u8, 115u8, 111u8, 45u8, 56u8, 56u8, 53u8, 57u8, 45u8, 51u8].len());
    assert(t.len() != seq![105u8, 115u8, 111u8, 45u8, 56u8, 56u8, 53u8, 57u8, 45u8, 52u8].len());
    assert(t.len() != seq![105u8, 115u8, 111u8, 45u8, 56u8, 56u8, 53u8, 57u8, 45u8, 53u8].len());
    assert(t.len() != seq![105u8, 115u8, 111u8, 45u8, 56u8, 56u8, 53u8, 57u8, 45u8, 54u8].len());
    assert(t.len() != seq![105u8, 115u8, 111u8, 45u8, 56u8, 56u8, 53u8, 57u8, 45u8, 55u8].len());
    assert(t.len() != seq![105u8, 115u8, 111u8, 45u8, 56u8, 56u8, 53u8, 57u8, 45u8, 56u8].len());
    assert(t.len() != seq![105u8, 115u8, 111u8, 45u8, 56u8, 56u8, 53u8, 57u8, 45u8, 57u8].len());
    assert(t.len() != seq![105u8, 115u8, 111u8, 45u8, 56u8, 56u8, 53u8, 57u8, 45u8, 49u8, 48u8].len());
    assert(t.len() != seq![115u8, 104u8, 105u8, 102u8, 116u8, 95u8, 106u8, 105u8, 115u8].len());
    assert(t.len() != seq![101u8, 117u8, 99u8, 45u8, 106u8, 112u8].len());
    assert(t.len() != seq![105u8, 115u8, 111u8, 45u8, 50u8, 48u8, 50u8, 50u8, 45u8, 107u8, 114u8].len());
    assert(t.len() != seq![101u8, 117u8, 99u8, 45u8, 107u8, 114u8].len());
    assert(t.len() != seq![105u8, 115u8, 111u8, 45u8, 50u8, 48u8, 50u8, 50u8, 45u8, 106u8, 112u8].len());
    assert(t.len() != seq![105u8, 115u8, 111u8, 45u8, 50u8, 48u8, 50u8, 50u8, 45u8, 106u8, 112u8, 45u8, 50u8].len());
}

proof fn roundtrip_iso_8859_6_i()
    ensures
        charset_of(charset_name(EmailCharset::ISO_8859_6_I).spec_bytes()) == EmailCharset::ISO_8859_6_I,
{
    reveal_name(EmailCharset::ISO_8859_6_I);
    let t = seq![105u8, 115u8, 111u8, 45u8, 56u8, 56u8, 53u8, 57u8, 45u8, 54u8, 45u8, 105u8];
    assert(lower(charset_name(EmailCharset::ISO_8859_6_I).spec_bytes()) =~= t);
    assert(t.len() != seq![117u8, 115u8, 45u8, 97u8, 115u8, 99u8, 105u8, 105u8].len());
    assert(t.len() != seq![97u8, 115u8, 99u8, 105u8, 105u8].len());
    assert(t.len() != seq![105u8, 115u8, 111u8, 45u8, 56u8, 56u8, 53u8, 57u8, 45u8, 49u8].len());
    assert(t.len() != seq![105u8, 115u8, 111u8, 45u8, 56u8, 56u8, 53u8, 57u8, 45u8, 50u8].len());
    assert(t.len() != seq![105u8, 115u8, 111u8, 45u8, 56u8, 56u8, 53u8, 57u8, 45u8, 51u8].len());
    assert(t.len() != seq![105u8, 115u8, 111u8, 45u8, 56u8, 56u8, 53u8, 57u8, 45u8, 52u8].len());
    assert(t.len() != seq![105u8, 115u8, 111u8, 45u8, 56u8, 56u8, 53u8, 57u8, 45u8, 53u8].len());
    assert(t.len() != seq![105u8, 115u8, 111u8, 45u8, 56u8, 56u8, 53u8, 57u8, 45u8, 54u8].len());
    assert(t.len() != seq![105u8, 115u8, 111u8, 45u8, 56u8, 56u8, 53u8, 57u8, 45u8, 55u8].len());
    assert(t.len() != seq![105u8, 115u8, 111u8, 45u8, 56u8, 56u8, 53u8, 57u8, 45u8, 56u8].len());
    assert(t.len() != seq![105u8, 115u8, 111u8, 45u8, 56u8, 56u8, 53u8, 57u8, 45u8, 57u8].len());
    assert(t.len() != seq![105u8, 115u8, 111u8, 45u8, 56u8, 56u8, 53u8, 57u8, 45u8, 49u8, 48u8].len());
    assert(t.len() != seq![115u8, 104u8, 105u8, 102u8, 116u8, 95u8, 106u8, 105u8, 115u8].len());
    assert(t.len() != seq![101u8, 117u8, 99u8, 45u8, 106u8, 112u8].len());
    assert(t.len() != seq![105u8, 115u8, 111u8, 45u8, 50u8, 48u8, 50u8, 50u8, 45u8, 107u8, 114u8].len());
    assert(t.len() != seq![101u8, 117u8, 99u8, 45u8, 107u8, 114u8].len());
    assert(t.len() != seq![105u8, 115u8, 111u8, 45u8, 50u8, 48u8, 50u8, 50u8, 45u8, 106u8, 112u8].len());
    assert(t.len() != seq![105u8, 115u8, 111u8, 45u8, 50u8, 48u8, 50u8, 50u8, 45u8, 106u8, 112u8, 45u8, 50u8].len());
    assert(t[11] != seq![105u8, 115u8, 111u8, 45u8, 56u8, 56u8, 53u8, 57u8, 45u8, 54u8, 45u8, 101u8][11]);
}

proof fn roundtrip_iso_8859_8_e()
    ensures
        charset_of(charset_name(EmailCharset::ISO_8859_8_E).spec_bytes()) == EmailCharset::ISO_8859_8_E,
{
    reveal_name(EmailCharset::ISO_8859_8_E);
    let t = seq![105u8, 115u8, 111u8, 45u8, 56u8, 56u8, 53u8, 57u8, 45u8, 56u8, 45u8, 101u8];
    assert(lower(charset_name(EmailCharset::ISO_8859_8_E).spec_bytes()) =~= t);
    assert(t.len() != seq![117u8, 115u8, 45u8, 97u8, 115u8, 99u8, 105u8, 105u8].len());
    assert(t.len() != seq![97u8, 115u8, 99u8, 105u8, 105u8].len());
    assert(t.len() != seq![105u8, 115u8, 111u8, 45u8, 56u8, 56u8, 53u8, 57u8, 45u8, 49u8].len());
    assert(t.len() != seq![105u8, 115u8, 111u8, 45u8, 56u8, 56u8, 53u8, 57u8, 45u8, 50u8].len());
    assert(t.len() != seq![105u8, 115u8, 111u8, 45u8, 56u8, 56u8, 53u8, 57u8, 45u8, 51u8].len());
    assert(t.len() != seq![105u8, 115u8, 111u8, 45u8, 56u8, 56u8, 53u8, 57u8, 45u8, 52u8].len());
    assert(t.len() != seq![105u8, 115u8, 111u8, 45u8, 56u8, 56u8, 53u8, 57u8, 45u8, 53u8].len());
    assert(t.len() != seq![105u8, 115u8, 111u8, 45u8, 56u8, 56u8, 53u8, 57u8, 45u8, 54u8].len());
    assert(t.len() != seq![105u8, 115u8, 111u8, 45u8, 56u8, 56u8, 53u8, 57u8, 45u8, 55u8].len());
    assert(t.len() != seq![105u8, 115u8, 111u8, 45u8, 56u8, 56u8, 53u8, 57u8, 45u8, 56u8].len());
    assert(t.len() != seq![105u8, 115u8, 111u8, 45u8, 56u8, 56u8, 53u8, 57u8, 45u8, 57u8].len());
    assert(t.len() != seq![105u8, 115u8, 111u8, 45u8, 56u8, 56u8, 53u8, 57u8, 45u8, 49u8, 48u8].len());
    assert(t.len() != seq![115u8, 104u8, 105u8, 102u8, 116u8, 95u8, 106u8, 105u8, 115u8].len());
    assert(t.len() != seq![101u8, 117u8, 99u8, 45u8, 106u8, 112u8].len());
    assert(t.len() != seq![105u8, 115u8, 111u8, 45u8, 50u8, 48u8, 50u8, 50u8, 45u8, 107u8, 114u8].len());
    assert(t.len() != seq![101u8, 117u8, 99u8, 45u8, 107u8, 114u8].len());
    assert(t.len() != seq![105u8, 115u8, 111u8, 45u8, 50u8, 48u8, 50u8, 50u8, 45u8, 106u8, 112u8].len());
    assert(t.len() != seq![105u8, 115u8, 111u8, 45u8, 50u8, 48u8, 50u8, 50u8, 45u8, 106u8, 112u8, 45u8, 50u8].len());
    assert(t[9] != seq![105u8, 115u8, 111u8, 45u8, 56u8, 56u8, 53u8, 57u8, 45u8, 54u8, 45u8, 101u8][9]);
    assert(t[9] != seq![105u8, 115u8, 111u8, 45u8, 56u8, 56u8, 53u8, 57u8, 45u8, 54u8, 45u8, 105u8][9]);
}

proof fn roundtrip_iso_8859_8_i()
    ensures
        charset_of(charset_name(EmailCharset::ISO_8859_8_I).spec_bytes()) == EmailCharset::ISO_8859_8_I,
{
    reveal_name(EmailCharset::ISO_8859_8_I);
    let t = seq![105u8, 115u8, 111u8, 45u8, 56u8, 56u8, 53u8, 57u8, 45u8, 56u8, 45u8, 105u8];
    assert(lower(charset_name(EmailCharset::ISO_8859_8_I).spec_bytes()) =~= t);
    assert(t.len() != seq![117u8, 115u8, 45u8, 97u8, 115u8, 99u8, 105u8, 105u8].len());
    assert(t.len() != seq![97u8, 115u8, 99u8, 105u8, 105u8].len());
    assert(t.len() != seq![105u8, 115u8, 111u8, 45u8, 56u8, 56u8, 53u8, 57u8, 45u8, 49u8].len());
    assert(t.len() != seq![105u8, 115u8, 111u8, 45u8, 56u8, 56u8, 53u8, 57u8, 45u8, 50u8].len());
    assert(t.len() != seq![105u8, 115u8, 111u8, 45u8, 56u8, 56u8, 53u8, 57u8, 45u8, 51u8].len());
    assert(t.len() != seq![105u8, 115u8, 111u8, 45u8, 56u8, 56u8, 53u8, 57u8, 45u8, 52u8].len());
    assert(t.len() != seq![105u8, 115u8, 111u8, 45u8, 56u8, 56u8, 53u8, 57u8, 45u8, 53u8].len());
    assert(t.len() != seq![105u8, 115u8, 111u8, 45u8, 56u8, 56u8, 53u8, 57u8, 45u8, 54u8].len());
    assert(t.len() != seq![105u8, 115u8, 111u8, 45u8, 56u8, 56u8, 53u8, 57u8, 45u8, 55u8].len());
    assert(t.len() != seq![105u8, 115u8, 111u8, 45u8, 56u8, 56u8, 53u8, 57u8, 45u8, 56u8].len());
    assert(t.len() != seq![105u8, 115u8, 111u8, 45u8, 56u8, 56u8, 53u8, 57u8, 45u8, 57u8].len());
    assert(t.len() != seq![105u8, 115u8, 111u8, 45u8, 56u8, 56u8, 53u8, 57u8, 45u8, 49u8, 48u8].len());
    assert(t.len() != seq![115u8, 104u8, 105u8, 102u8, 116u8, 95u8, 106u8, 105u8, 115u8].len());
    assert(t.len() != seq![101u8, 117u8, 99u8, 45u8, 106u8, 112u8].len());
    assert(t.len() != seq![105u8, 115u8, 111u8, 45u8, 50u8, 48u8, 50u8, 50u8, 45u8, 107u8, 114u8].len());
    assert(t.len() != seq![101u8, 117u8, 99u8, 45u8, 107u8, 114u8].len());
    assert(t.len() != seq![105u8, 115u8, 111u8, 45u8, 50u8, 48u8, 50u8, 50u8, 45u8, 106u8, 112u8].len());
    assert(t.len() != seq![105u8, 115u8, 111u8, 45u8, 50u8, 48u8, 50u8, 50u8, 45u8, 106u8, 112u8, 45u8, 50u8].len());
    assert(t[9] != seq![105u8, 115u8, 111u8, 45u8, 56u8, 56u8, 53u8, 57u8, 45u8, 54u8, 45u8, 101u8][9]);
    assert(t[9] != seq![105u8, 115u8, 111u8, 45u8, 56u8, 56u8, 53u8, 57u8, 45u8, 54u8, 45u8, 105u8][9]);
    assert(t[11] != seq![105u8, 115u8, 111u8, 45u8, 56u8, 56u8, 53u8, 57u8, 45u8, 56u8, 45u8, 101u8][11]);
}

proof fn roundtrip_gb2312()
    ensures
        charset_of(charset_name(EmailCharset::GB2312).spec_bytes()) == EmailCharset::GB2312,
{
    reveal_name(EmailCharset::GB2312);
    let t = seq![103u8, 98u8, 50u8, 51u8, 49u8, 50u8];
    assert(lower(charset_name(EmailCharset::GB2312).spec_bytes()) =~= t);
    assert(t.len() != seq![117u8, 115u8, 45u8, 97u8, 115u8, 99u8, 105u8, 105u8].len());
    assert(t.len() != seq![97u8, 115u8, 99u8, 105u8, 105u8].len());
    assert(t.len() != seq![105u8, 115u8, 111u8, 45u8, 56u8, 56u8, 53u8, 57u8, 45u8, 49u8].len());
    assert(t.len() != seq![105u8, 115u8, 111u8, 45u8, 56u8, 56u8, 53u8, 57u8, 45u8, 50u8].len());
    assert(t.len() != seq![105u8, 115u8, 111u8, 45u8, 56u8, 56u8, 53u8, 57u8, 45u8, 51u8].len());
    assert(t.len() != seq![105u8, 115u8, 111u8, 45u8, 56u8, 56u8, 53u8, 57u8, 45u8, 52u8].len());
    assert(t.len() != seq![105u8, 115u8, 111u8, 45u8, 56u8, 56u8, 53u8, 57u8, 45u8, 53u8].len());
    assert(t.len() != seq![105u8, 115u8, 111u8, 45u8, 56u8, 56u8, 53u8, 57u8, 45u8, 54u8].len());
    assert(t.len() != seq![105u8, 115u8, 111u8, 45u8, 56u8, 56u8, 53u8, 57u8, 45u8, 55u8].len());
    assert(t.len() != seq![105u8, 115u8, 111u8, 45u8, 56u8, 56u8, 53u8, 57u8, 45u8, 56u8].len());
    assert(t.len() != seq![105u8, 115u8, 111u8, 45u8, 56u8, 56u8, 53u8, 57u8, 45u8, 57u8].len());
    assert(t.len() != seq![105u8, 115u8, 111u8, 45u8, 56u8, 56u8, 53u8, 57u8, 45u8, 49u8, 48u8].len());
    assert(t.len() != seq![115u8, 104u8, 105u8, 102u8, 116u8, 95u8, 106u8, 105u8, 115u8].len());
    assert(t[0] != seq![101u8, 117u8, 99u8, 45u8, 106u8, 112u8][0]);
    assert(t.len() != seq![105u8, 115u8, 111u8, 45u8, 50u8, 48u8, 50u8, 50u8, 45u8, 107u8, 114u8].len());
    assert(t[0] != seq![101u8, 117u8, 99u8, 45u8, 107u8, 114u8][0]);
    assert(t.len() != seq![105u8, 115u8, 111u8, 45u8, 50u8, 48u8, 50u8, 50u8, 45u8, 106u8, 112u8].len());
    assert(t.len() != seq![105u8, 115u8, 111u8, 45u8, 50u8, 48u8, 50u8, 50u8, 45u8, 106u8, 112u8, 45u8, 50u8].len());
    assert(t.len() != seq![105u8, 115u8, 111u8, 45u8, 56u8, 56u8, 53u8, 57u8, 45u8, 54u8, 45u8, 101u8].len());
    assert(t.len() != seq![105u8, 115u8, 111u8, 45u8, 56u8, 56u8, 53u8, 57u8, 45u8, 54u8, 45u8, 105u8].len());
    assert(t.len() != seq![105u8, 115u8, 111u8, 45u8, 56u8, 56u8, 53u8, 57u8, 45u8, 56u8, 45u8, 101u8].len());
    assert(t.len() != seq![105u8, 115u8, 111u8, 45u8, 56u8, 56u8, 53u8, 57u8, 45u8, 56u8, 45u8, 105u8].len());
}

proof fn roundtrip_big5()
    ensures
        charset_of(charset_name(EmailCharset::Big5).spec_bytes()) == EmailCharset::Big5,
{
    reveal_name(EmailCharset::Big5);
    let t = seq![98u8, 105u8, 103u8, 53u8];
    assert(lower(charset_name(EmailCharset::Big5).spec_bytes()) =~= t);
    assert(t.len() != seq![117u8, 115u8, 45u8, 97u8, 115u8, 99u8, 105u8, 105u8].len());
    assert(t.len() != seq![97u8, 115u8, 99u8, 105u8, 105u8].len());
    assert(t.len() != seq![105u8, 115u8, 111u8, 45u8, 56u8, 56u8, 53u8, 57u8, 45u8, 49u8].len());
    assert(t.len() != seq![105u8, 115u8, 111u8, 45u8, 56u8, 56u8, 53u8, 57u8, 45u8, 50u8].len());
    assert(t.len() != seq![105u8, 115u8, 111u8, 45u8, 56u8, 56u8, 53u8, 57u8, 45u8, 51u8].len());
    assert(t.len() != seq![105u8, 115u8, 111u8, 45u8, 56u8, 56u8, 53u8, 57u8, 45u8, 52u8].len());
    assert(t.len() != seq![105u8, 115u8, 111u8, 45u8, 56u8, 56u8, 53u8, 57u8, 45u8, 53u8].len());
    assert(t.len() != seq![105u8, 115u8, 111u8, 45u8, 56u8, 56u8, 53u8, 57u8, 45u8, 54u8].len());
    assert(t.len() != seq![105u8, 115u8, 111u8, 45u8, 56u8, 56u8, 53u8, 57u8, 45u8, 55u8].len());
    assert(t.len() != seq![105u8, 115u8, 111u8, 45u8, 56u8, 56u8, 53u8, 57u8, 45u8, 56u8].len());
    assert(t.len() != seq![105u8, 115u8, 111u8, 45u8, 56u8, 56u8, 53u8, 57u8, 45u8, 57u8].len());
    assert(t.len() != seq![105u8, 115u8, 111u8, 45u8, 56u8, 56u8, 53u8, 57u8, 45u8, 49u8, 48u8].len());
    assert(t.len() != seq![115u8, 104u8, 105u8, 102u8, 116u8, 95u8, 106u8, 105u8, 115u8].len());
    assert(t.len() != seq![101u8, 117u8, 99u8, 45u8, 106u8, 112u8].len());
    assert(t.len() != seq![105u8, 115u8, 111u8, 45u8, 50u8, 48u8, 50u8, 50u8, 45u8, 107u8, 114u8].len());
    assert(t.len() != seq![101u8, 117u8, 99u8, 45u8, 107u8, 114u8].len());
    assert(t.len() != seq![105u8, 115u8, 111u8, 45u8, 50u8, 48u8, 50u8, 50u8, 45u8, 106u8, 112u8].len());
    assert(t.len() != seq![105u8, 115u8, 111u8, 45u8, 50u8, 48u8, 50u8, 50u8, 45u8, 106u8, 112u8, 45u8, 50u8].len());
    assert(t.len() != seq![105u8, 115u8, 111u8, 45u8, 56u8, 56u8, 53u8, 57u8, 45u8, 54u8, 45u8, 101u8].len());
    assert(t.len() != seq![105u8, 115u8, 111u8, 45u8, 56u8, 56u8, 53u8, 57u8, 45u8, 54u8, 45u8, 105u8].len());
    assert(t.len() != seq![105u8, 115u8, 111u8, 45u8, 56u8, 56u8, 53u8, 57u8, 45u8, 56u8, 45u8, 101u8].len());
    assert(t.len() != seq![105u8, 115u8, 111u8, 45u8, 56u8, 56u8, 53u8, 57u8, 45u8, 56u8, 45u8, 105u8].len());
    assert(t.len() != seq![103u8, 98u8, 50u8, 51u8, 49u8, 50u8].len());
}

proof fn roundtrip_koi8_r()
    ensures
        charset_of(charset_name(EmailCharset::KOI8_R).spec_bytes()) == EmailCharset::KOI8_R,
{
    reveal_name(EmailCharset::KOI8_R);
    let t = seq![107u8, 111u8, 105u8, 56u8, 45u8, 114u8];
    assert(lower(charset_name(EmailCharset::KOI8_R).spec_bytes()) =~= t);
    assert(t.len() != seq![117u8, 115u8, 45u8, 97u8, 115u8, 99u8, 105u8, 105u8].len());
    assert(t.len() != seq![97u8, 115u8, 99u8, 105u8, 105u8].len());
    assert(t.len() != seq![105u8, 115u8, 111u8, 45u8, 56u8, 56u8, 53u8, 57u8, 45u8, 49u8].len());
    assert(t.len() != seq![105u8, 115u8, 111u8, 45u8, 56u8, 56u8, 53u8, 57u8, 45u8, 50u8].len());
    assert(t.len() != seq![105u8, 115u8, 111u8, 45u8, 56u8, 56u8, 53u8, 57u8, 45u8, 51u8].len());
    assert(t.len() != seq![105u8, 115u8, 111u8, 45u8, 56u8, 56u8, 53u8, 57u8, 45u8, 52u8].len());
    assert(t.len() != seq![105u8, 115u8, 111u8, 45u8, 56u8, 56u8, 53u8, 57u8, 45u8, 53u8].len());
    assert(t.len() != seq![105u8, 115u8, 111u8, 45u8, 56u8, 56u8, 53u8, 57u8, 45u8, 54u8].len());
    assert(t.len() != seq![105u8, 115u8, 111u8, 45u8, 56u8, 56u8, 53u8, 57u8, 45u8, 55u8].len());
    assert(t.len() != seq![105u8, 115u8, 111u8, 45u8, 56u8, 56u8, 53u8, 57u8, 45u8, 56u8].len());
    assert(t.len() != seq![105u8, 115u8, 111u8, 45u8, 56u8, 56u8, 53u8, 57u8, 45u8, 57u8].len());
    assert(t.len() != seq![105u8, 115u8, 111u8, 45u8, 56u8, 56u8, 53u8, 57u8, 45u8, 49u8, 48u8].len());
    assert(t.len() != seq![115u8, 104u8, 105u8, 102u8, 116u8, 95u8, 106u8, 105u8, 115u8].len());
    assert(t[0] != seq![101u8, 117u8, 99u8, 45u8, 106u8, 112u8][0]);
    assert(t.len() != seq![105u8, 115u8, 111u8, 45u8, 50u8, 48u8, 50u8, 50u8, 45u8, 107u8, 114u8].len());
    assert(t[0] != seq![101u8, 117u8, 99u8, 45u8, 107u8, 114u8][0]);
    assert(t.len() != seq![105u8, 115u8, 111u8, 45u8, 50u8, 48u8, 50u8, 50u8, 45u8, 106u8, 112u8].len());
    assert(t.len() != seq![105u8, 115u8, 111u8, 45u8, 50u8, 48u8, 50u8, 50u8, 45u8, 106u8, 112u8, 45u8, 50u8].len());
    assert(t.len() != seq![105u8, 115u8, 111u8, 45u8, 56u8, 56u8, 53u8, 57u8, 45u8, 54u8, 45u8, 101u8].len());
    assert(t.len() != seq![105u8, 115u8, 111u8, 45u8, 56u8, 56u8, 53u8, 57u8, 45u8, 54u8, 45u8, 105u8].len());
    assert(t.len() != seq![105u8, 115u8, 111u8, 45u8, 56u8, 56u8, 53u8, 57u8, 45u8, 56u8, 45u8, 101u8].len());
    assert(t.len() != seq![105u8, 115u8, 111u8, 45u8, 56u8, 56u8, 53u8, 57u8, 45u8, 56u8, 45u8, 105u8].len());
    assert(t[0] != seq![103u8, 98u8, 50u8, 51u8, 49u8, 50u8][0]);
    assert(t.len() != seq![98u8, 105u8, 103u8, 53u8].len());
}

proof fn roundtrip_utf_8()
    ensures
        charset_of(charset_name(EmailCharset::UTF_8).spec_bytes()) == EmailCharset::UTF_8,
{
    reveal_name(EmailCharset::UTF_8);
    let t = seq![117u8, 116u8, 102u8, 45u8, 56u8];
    assert(lower(charset_name(EmailCharset::UTF_8).spec_bytes()) =~= t);
    assert(t.len() != seq![117u8, 115u8, 45u8, 97u8, 115u8, 99u8, 105u8, 105u8].len());
    assert(t[0] != seq![97u8, 115u8, 99u8, 105u8, 105u8][0]);
    assert(t.len() != seq![105u8, 115u8, 111u8, 45u8, 56u8, 56u8, 53u8, 57u8, 45u8, 49u8].len());
    assert(t.len() != seq![105u8, 115u8, 111u8, 45u8, 56u8, 56u8, 53u8, 57u8, 45u8, 50u8].len());
    assert(t.len() != seq![105u8, 115u8, 111u8, 45u8, 56u8, 56u8, 53u8, 57u8, 45u8, 51u8].len());
    assert(t.len() != seq![105u8, 115u8, 111u8, 45u8, 56u8, 56u8, 53u8, 57u8, 45u8, 52u8].len());
    assert(t.len() != seq![105u8, 115u8, 111u8, 45u8, 56u8, 56u8, 53u8, 57u8, 45u8, 53u8].len());
    assert(t.len() != seq![105u8, 115u8, 111u8, 45u8, 56u8, 56u8, 53u8, 57u8, 45u8, 54u8].len());
    assert(t.len() != seq![105u8, 115u8, 111u8, 45u8, 56u8, 56u8, 53u8, 57u8, 45u8, 55u8].len());
    assert(t.len() != seq![105u8, 115u8, 111u8, 45u8, 56u8, 56u8, 53u8, 57u8, 45u8, 56u8].len());
    assert(t.len() != seq![105u8, 115u8, 111u8, 45u8, 56u8, 56u8, 53u8, 57u8, 45u8, 57u8].len());
    assert(t.len() != seq![105u8, 115u8, 111u8, 45u8, 56u8, 56u8, 53u8, 57u8, 45u8, 49u8, 48u8].len());
    assert(t.len() != seq![115u8, 104u8, 105u8, 102u8, 116u8, 95u8, 106u8, 105u8, 115u8].len());
    assert(t.len() != seq![101u8, 117u8, 99u8, 45u8, 106u8, 112u8].len());
    assert(t.len() != seq![105u8, 115u8, 111u8, 45u8, 50u8, 48u8, 50u8, 50u8, 45u8, 107u8, 114u8].len());
    assert(t.len() != seq![101u8, 117u8, 99u8, 45u8, 107u8, 114u8].len());
    assert(t.len() != seq![105u8, 115u8, 111u8, 45u8, 50u8, 48u8, 50u8, 50u8, 45u8, 106u8, 112u8].len());
    assert(t.len() != seq![105u8, 115u8, 111u8, 45u8, 50u8, 48u8, 50u8, 50u8, 45u8, 106u8, 112u8, 45u8, 50u8].len());
    assert(t.len() != seq![105u8, 115u8, 111u8, 45u8, 56u8, 56u8, 53u8, 57u8, 45u8, 54u8, 45u8, 101u8].len());
    assert(t.len() != seq![105u8, 115u8, 111u8, 45u8, 56u8, 56u8, 53u8, 57u8, 45u8, 54u8, 45u8, 105u8].len());
    assert(t.len() != seq![105u8, 115u8, 111u8, 45u8, 56u8, 56u8, 53u8, 57u8, 45u8, 56u8, 45u8, 101u8].len());
    assert(t.len() != seq![105u8, 115u8, 111u8, 45u8, 56u8, 56u8, 53u8, 57u8, 45u8, 56u8, 45u8, 105u8].len());
    assert(t.len() != seq![103u8, 98u8, 50u8, 51u8, 49u8, 50u8].len());
    assert(t.len() != seq![98u8, 105u8, 103u8, 53u8].len());
    assert(t.len() != seq![107u8, 111u8, 105u8, 56u8, 45u8, 114u8].len());
}

proof fn roundtrip_unknown()
    ensures
        charset_of(charset_name(EmailCharset::Unknown).spec_bytes()) == EmailCharset::UTF_8,
{
    reveal_name(EmailCharset::Unknown);
    let t = seq![117u8, 116u8, 102u8, 45u8, 56u8];
    assert(lower(charset_name(EmailCharset::Unknown).spec_bytes()) =~= t);
    assert(t.len() != seq![117u8, 115u8, 45u8, 97u8, 115u8, 99u8, 105u8, 105u8].len());
    assert(t[0] != seq![97u8, 115u8, 99u8, 105u8, 105u8][0]);
    assert(t.len() != seq![105u8, 115u8, 111u8, 45u8, 56u8, 56u8, 53u8, 57u8, 45u8, 49u8].len());
    assert(t.len() != seq![105u8, 115u8, 111u8, 45u8, 56u8, 56u8, 53u8, 57u8, 45u8, 50u8].len());
    assert(t.len() != seq![105u8, 115u8, 111u8, 45u8, 56u8, 56u8, 53u8, 57u8, 45u8, 51u8].len());
    assert(t.len() != seq![105u8, 115u8, 111u8, 45u8, 56u8, 56u8, 53u8, 57u8, 45u8, 52u8].len());
    assert(t.len() != seq![105u8, 115u8, 111u8, 45u8, 56u8, 56u8, 53u8, 57u8, 45u8, 53u8].len());
    assert(t.len() != seq![105u8, 115u8, 111u8, 45u8, 56u8, 56u8, 53u8, 57u8, 45u8, 54u8].len());
    assert(t.len() != seq![105u8, 115u8, 111u8, 45u8, 56u8, 56u8, 53u8, 57u8, 45u8, 55u8].len());
    assert(t.len() != seq![105u8, 115u8, 111u8, 45u8, 56u8, 56u8, 53u8, 57u8, 45u8, 56u8].len());
    assert(t.len() != seq![105u8, 115u8, 111u8, 45u8, 56u8, 56u8, 53u8, 57u8, 45u8, 57u8].len());
    assert(t.len() != seq![105u8, 115u8, 111u8, 45u8, 56u8, 56u8, 53u8, 57u8, 45u8, 49u8, 48u8].len());
    assert(t.len() != seq![115u8, 104u8, 105u8, 102u8, 116u8, 95u8, 106u8, 105u8, 115u8].len());
    assert(t.len() != seq![101u8, 117u8, 99u8, 45u8, 106u8, 112u8].len());
    assert(t.len() != seq![105u8, 115u8, 111u8, 45u8, 50u8, 48u8, 50u8, 50u8, 45u8, 107u8, 114u8].len());
    assert(t.len() != seq![101u8, 117u8, 99u8, 45u8, 107u8, 114u8].len());
    assert(t.len() != seq![105u8, 115u8, 111u8, 45u8, 50u8, 48u8, 50u8, 50u8, 45u8, 106u8, 112u8].len());
    assert(t.len() != seq![105u8, 115u8, 111u8, 45u8, 50u8, 48u8, 50u8, 50u8, 45u8, 106u8, 112u8, 45u8, 50u8].len());
    assert(t.len() != seq![105u8, 115u8, 111u8, 45u8, 56u8, 56u8, 53u8, 57u8, 45u8, 54u8, 45u8, 101u8].len());
    assert(t.len() != seq![105u8, 115u8, 111u8, 45u8, 56u8, 56u8, 53u8, 57u8, 45u8, 54u8, 45u8, 105u8].len());
    assert(t.len() != seq![105u8, 115u8, 111u8, 45u8, 56u8, 56u8, 53u8, 57u8, 45u8, 56u8, 45u8, 101u8].len());
    assert(t.len() != seq![105u8, 115u8, 111u8, 45u8, 56u8, 56u8, 53u8, 57u8, 45u8, 56u8, 45u8, 105u8].len());
    assert(t.len() != seq![103u8, 98u8, 50u8, 51u8, 49u8, 50u8].len());
    assert(t.len() != seq![98u8, 105u8, 103u8, 53u8].len());
    assert(t.len() != seq![107u8, 111u8, 105u8, 56u8, 45u8, 114u8].len());
}

/// Reading back the name of a charset gives the charset again; the name of
/// an unknown charset reads back as UTF-8.
pub proof fn law_charset_name_roundtrip(c: EmailCharset)
    ensures
        charset_of(charset_name(c).spec_bytes()) == (if c == EmailCharset::Unknown {
            EmailCharset::UTF_8
        } else {
            c
        }),
{
    match c {
        EmailCharset::US_ASCII => roundtrip_us_ascii(),
        EmailCharset::ISO_8859_1 => roundtrip_iso_8859_1(),
        EmailCharset::ISO_8859_2 => roundtrip_iso_8859_2(),
        EmailCharset::ISO_8859_3 => roundtrip_iso_8859_3(),
        EmailCharset::ISO_8859_4 => roundtrip_iso_8859_4(),
        EmailCharset::ISO_8859_5 => roundtrip_iso_8859_5(),
        EmailCharset::ISO_8859_6 => roundtrip_iso_8859_6(),
        EmailCharset::ISO_8859_7 => roundtrip_iso_8859_7(),
        EmailCharset::ISO_8859_8 => roundtrip_iso_8859_8(),
        EmailCharset::ISO_8859_9 => roundtrip_iso_8859_9(),
        EmailCharset::ISO_8859_10 => roundtrip_iso_8859_10(),
        EmailCharset::Shift_JIS => roundtrip_shift_jis(),
        EmailCharset::EUC_JP => roundtrip_euc_jp(),
        EmailCharset::ISO_2022_KR => roundtrip_iso_2022_kr(),
        EmailCharset::EUC_KR => roundtrip_euc_kr(),
        EmailCharset::ISO_2022_JP => roundtrip_iso_2022_jp(),
        EmailCharset::ISO_2022_JP_2 => roundtrip_iso_2022_jp_2(),
        EmailCharset::ISO_8859_6_E => roundtrip_iso_8859_6_e(),
        EmailCharset::ISO_8859_6_I => roundtrip_iso_8859_6_i(),
        EmailCharset::ISO_8859_8_E => roundtrip_iso_8859_8_e(),
        EmailCharset::ISO_8859_8_I => roundtrip_iso_8859_8_i(),
        EmailCharset::GB2312 => roundtrip_gb2312(),
        EmailCharset::Big5 => roundtrip_big5(),
        EmailCharset::KOI8_R => roundtrip_koi8_r(),
        EmailCharset::UTF_8 => roundtrip_utf_8(),
        EmailCharset::Unknown => roundtrip_unknown(),
    }
}

/// The name of a charset read from a label is that label, up to ASCII case:
/// a label that names a known charset (other than the aliases `ascii` and
/// `utf8`) gives back its own text as the charset's IANA name.
pub proof fn law_charset_label_name(s: Seq<u8>)
    requires
        charset_of(s) != EmailCharset::Unknown,
        lower(s) != seq![97u8, 115u8, 99u8, 105u8, 105u8],
        lower(s) != seq![117u8, 116u8, 102u8, 56u8],
    ensures
        lower(charset_name(charset_of(s)).spec_bytes()) == lower(s),
{
    let c = charset_of(s);
    reveal_name(c);
    match c {
        EmailCharset::US_ASCII => {
            assert(lower(seq![85u8, 83u8, 45u8, 65u8, 83u8, 67u8, 73u8, 73u8]) =~= seq![117u8, 115u8, 45u8, 97u8, 115u8, 99u8, 105u8, 105u8]);
        },
        EmailCharset::ISO_8859_1 => {
            assert(lower(seq![73u8, 83u8, 79u8, 45u8, 56u8, 56u8, 53u8, 57u8, 45u8, 49u8]) =~= seq![105u8, 115u8, 111u8, 45u8, 56u8, 56u8, 53u8, 57u8, 45u8, 49u8]);
        },
        EmailCharset::ISO_8859_2 => {
            assert(lower(seq![73u8, 83u8, 79u8, 45u8, 56u8, 56u8, 53u8, 57u8, 45u8, 50u8]) =~= seq![105u8, 115u8, 111u8, 45u8, 56u8, 56u8, 53u8, 57u8, 45u8, 50u8]);
        },
        EmailCharset::ISO_8859_3 => {
            assert(lower(seq![73u8, 83u8, 79u8, 45u8, 56u8, 56u8, 53u8, 57u8, 45u8, 51u8]) =~= seq![105u8, 115u8, 111u8, 45u8, 56u8, 56u8, 53u8, 57u8, 45u8, 51u8]);
        },
        EmailCharset::ISO_8859_4 => {
            assert(lower(seq![73u8, 83u8, 79u8, 45u8, 56u8, 56u8, 53u8, 57u8, 45u8, 52u8]) =~= seq![105u8, 115u8, 111u8, 45u8, 56u8, 56u8, 53u8, 57u8, 45u8, 52u8]);
        },
        EmailCharset::ISO_8859_5 => {
            assert(lower(seq![73u8, 83u8, 79u8, 45u8, 56u8, 56u8, 53u8, 57u8, 45u8, 53u8]) =~= seq![105u8, 115u8, 111u8, 45u8, 56u8, 56u8, 53u8, 57u8, 45u8, 53u8]);
        },
        EmailCharset::ISO_8859_6 => {
            assert(lower(seq![73u8, 83u8, 79u8, 45u8, 56u8, 56u8, 53u8, 57u8, 45u8, 54u8]) =~= seq![105u8, 115u8, 111u8, 45u8, 56u8, 56u8, 53u8, 57u8, 45u8, 54u8]);
        },
        EmailCharset::ISO_8859_7 => {
            assert(lower(seq![73u8, 83u8, 79u8, 45u8, 56u8, 56u8, 53u8, 57u8, 45u8, 55u8]) =~= seq![105u8, 115u8, 111u8, 45u8, 56u8, 56u8, 53u8, 57u8, 45u8, 55u8]);
        },
        EmailCharset::ISO_8859_8 => {
            assert(lower(seq![73u8, 83u8, 79u8, 45u8, 56u8, 56u8, 53u8, 57u8, 45u8, 56u8]) =~= seq![105u8, 115u8, 111u8, 45u8, 56u8, 56u8, 53u8, 57u8, 45u8, 56u8]);
        },
        EmailCharset::ISO_8859_9 => {
            assert(lower(seq![73u8, 83u8, 79u8, 45u8, 56u8, 56u8, 53u8, 57u8, 45u8, 57u8]) =~= seq![105u8, 115u8, 111u8, 45u8, 56u8, 56u8, 53u8, 57u8, 45u8, 57u8]);
        },
        EmailCharset::ISO_8859_10 => {
            assert(lower(seq![73u8, 83u8, 79u8, 45u8, 56u8, 56u8, 53u8, 57u8, 45u8, 49u8, 48u8]) =~= seq![105u8, 115u8, 111u8, 45u8, 56u8, 56u8, 53u8, 57u8, 45u8, 49u8, 48u8]);
        },
        EmailCharset::Shift_JIS => {
            assert(lower(seq![83u8, 104u8, 105u8, 102u8, 116u8, 95u8, 74u8, 73u8, 83u8]) =~= seq![115u8, 104u8, 105u8, 102u8, 116u8, 95u8, 106u8, 105u8, 115u8]);
        },
        EmailCharset::EUC_JP => {
            assert(lower(seq![69u8, 85u8, 67u8, 45u8, 74u8, 80u8]) =~= seq![101u8, 117u8, 99u8, 45u8, 106u8, 112u8]);
        },
        EmailCharset::ISO_2022_KR => {
            assert(lower(seq![73u8, 83u8, 79u8, 45u8, 50u8, 48u8, 50u8, 50u8, 45u8, 75u8, 82u8]) =~= seq![105u8, 115u8, 111u8, 45u8, 50u8, 48u8, 50u8, 50u8, 45u8, 107u8, 114u8]);
        },
        EmailCharset::EUC_KR => {
            assert(lower(seq![69u8, 85u8, 67u8, 45u8, 75u8, 82u8]) =~= seq![101u8, 117u8, 99u8, 45u8, 107u8, 114u8]);
        },
        EmailCharset::ISO_2022_JP => {
            assert(lower(seq![73u8, 83u8, 79u8, 45u8, 50u8, 48u8, 50u8, 50u8, 45u8, 74u8, 80u8]) =~= seq![105u8, 115u8, 111u8, 45u8, 50u8, 48u8, 50u8, 50u8, 45u8, 106u8, 112u8]);
        },
        EmailCharset::ISO_2022_JP_2 => {
            assert(lower(seq![73u8, 83u8, 79u8, 45u8, 50u8, 48u8, 50u8, 50u8, 45u8, 74u8, 80u8, 45u8, 50u8]) =~= seq![105u8, 115u8, 111u8, 45u8, 50u8, 48u8, 50u8, 50u8, 45u8, 106u8, 112u8, 45u8, 50u8]);
        },
        EmailCharset::ISO_8859_6_E => {
            assert(lower(seq![73u8, 83u8, 79u8, 45u8, 56u8, 56u8, 53u8, 57u8, 45u8, 54u8, 45u8, 69u8]) =~= seq![105u8, 115u8, 111u8, 45u8, 56u8, 56u8, 53u8, 57u8, 45u8, 54u8, 45u8, 101u8]);
        },
        EmailCharset::ISO_8859_6_I => {
            assert(lower(seq![73u8, 83u8, 79u8, 45u8, 56u8, 56u8, 53u8, 57u8, 45u8, 54u8, 45u8, 73u8]) =~= seq![105u8, 115u8, 111u8, 45u8, 56u8, 56u8, 53u8, 57u8, 45u8, 54u8, 45u8, 105u8]);
        },
        EmailCharset::ISO_8859_8_E => {
            assert(lower(seq![73u8, 83u8, 79u8, 45u8, 56u8, 56u8, 53u8, 57u8, 45u8, 56u8, 45u8, 69u8]) =~= seq![105u8, 115u8, 111u8, 45u8, 56u8, 56u8, 53u8, 57u8, 45u8, 56u8, 45u8, 101u8]);
        },
        EmailCharset::ISO_8859_8_I => {
            assert(lower(seq![73u8, 83u8, 79u8, 45u8, 56u8, 56u8, 53u8, 57u8, 45u8, 56u8, 45u8, 73u8]) =~= seq![105u8, 115u8, 111u8, 45u8, 56u8, 56u8, 53u8, 57u8, 45u8, 56u8, 45u8, 105u8]);
        },
        EmailCharset::GB2312 => {
            assert(lower(seq![71u8, 66u8, 50u8, 51u8, 49u8, 50u8]) =~= seq![103u8, 98u8, 50u8, 51u8, 49u8, 50u8]);
        },
        EmailCharset::Big5 => {
            assert(lower(seq![66u8, 105u8, 103u8, 53u8]) =~= seq![98u8, 105u8, 103u8, 53u8]);
        },
        EmailCharset::KOI8_R => {
            assert(lower(seq![75u8, 79u8, 73u8, 56u8, 45u8, 82u8]) =~= seq![107u8, 111u8, 105u8, 56u8, 45u8, 114u8]);
        },
        EmailCharset::UTF_8 => {
            assert(lower(seq![85u8, 84u8, 70u8, 45u8, 56u8]) =~= seq![117u8, 116u8, 102u8, 45u8, 56u8]);
        },
        EmailCharset::Unknown => {},
    }
}

// ---------------------------------------------------------------- decoding

/// Whether `encoding_rs::Encoding::for_label` knows the label.
pub uninterp spec fn label_known(label: Seq<u8>) -> bool;

/// What the encoding that `encoding_rs::Encoding::for_label` finds for the
/// label gives back from `Encoding::decode` of the bytes, as UTF-8 bytes.
pub uninterp spec fn label_decoded(label: Seq<u8>, bytes: Seq<u8>) -> Seq<u8>;

/// The label of the encoding that unknown charsets fall back to.
pub open spec fn windows_1252_label() -> Seq<u8> {
    "windows-1252".spec_bytes()
}

/// `encoding_rs::Encoding::for_label(label).is_some()`. The label table of
/// `encoding_rs` (the WHATWG one) holds `windows-1252`.
#[verifier::external_body]
pub(crate) fn encoding_known(label: &[u8]) -> (r: bool)
    ensures
        r == label_known(label@),
        label@ == windows_1252_label() ==> r,
{
    encoding_rs::Encoding::for_label(label).is_some()
}

/// `Encoding::decode` of the bytes by the encoding that
/// `encoding_rs::Encoding::for_label` finds for the label, as UTF-8 bytes.
/// Which text comes out is left to the name `label_decoded`.
#[verifier::external_body]
pub(crate) fn decode_with_label(label: &[u8], bytes: &[u8]) -> (r: Vec<u8>)
    requires
        label_known(label@),
    ensures
        r@ == label_decoded(label@, bytes@),
{
    encoding_rs::Encoding::for_label(label).unwrap().decode(bytes).0.as_bytes().to_vec()
}

/// The label that decodes a charset: the charset itself where it is known,
/// windows-1252 otherwise.
pub open spec fn effective_label(charset: Seq<u8>) -> Seq<u8> {
    if label_known(charset) {
        charset
    } else {
        windows_1252_label()
    }
}

/// The label that decodes a charset, known to `encoding_rs`.
pub(crate) fn charset_label<'a>(charset: &'a [u8]) -> (r: &'a [u8])
    ensures
        r@ == effective_label(charset@),
        label_known(r@),
{
    if encoding_known(charset) {
        charset
    } else {
        let w = "windows-1252".as_bytes();
        let k = encoding_known(w);
        assert(k);
        w
    }
}

impl EmailCharset {
    /// The encoding that decodes text in this charset, by its label: the
    /// charset's name where `encoding_rs` knows it, windows-1252 otherwise.
    pub fn as_encoding(&self) -> (r: &'static [u8])
        ensures
            r@ == effective_label(charset_name(*self).spec_bytes()),
    {
        charset_label(self.as_bytes())
    }
}

} // verus!
