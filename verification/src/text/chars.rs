//! Character classes of RFC 5322 / RFC 2045 / RFC 2047, on code points.
//!
//! Every class is stated once as a spec predicate over a code point; the
//! executable tests take a `char` (or a byte, for the byte-level parsers:
//! bytes `>= 0x80` are parts of UTF-8 encoded non-ASCII characters).
use vstd::prelude::*;

verus! {

pub open spec fn in_range(c: u32, lo: u32, hi: u32) -> bool {
    lo <= c && c <= hi
}

pub open spec fn non_ascii(c: u32) -> bool {
    c >= 0x80
}

pub open spec fn alnum_cp(c: u32) -> bool {
    in_range(c, 0x30, 0x39) || in_range(c, 0x41, 0x5A) || in_range(c, 0x61, 0x7A)
}

/// VCHAR, with the UTF-8 extension of RFC 6532.
pub open spec fn vchar_cp(c: u32) -> bool {
    in_range(c, 0x21, 0x7E) || non_ascii(c)
}

/// atext, with the UTF-8 extension of RFC 6532.
pub open spec fn atext_cp(c: u32) -> bool {
    alnum_cp(c) || c == 0x21 || in_range(c, 0x23, 0x27) || c == 0x2A || c == 0x2B || c == 0x2D
        || c == 0x2F || c == 0x3D || c == 0x3F || in_range(c, 0x5E, 0x60) || in_range(c, 0x7B, 0x7E)
        || non_ascii(c)
}

/// specials of RFC 5322.
pub open spec fn special_cp(c: u32) -> bool {
    c == 0x28 || c == 0x29 || c == 0x3C || c == 0x3E || c == 0x5B || c == 0x5D || c == 0x3A
        || c == 0x3B || c == 0x40 || c == 0x5C || c == 0x2C || c == 0x2E || c == 0x22
}

/// obs-NO-WS-CTL: %d1-8 / %d11 / %d12 / %d14-31 / %d127.
pub open spec fn obs_no_ws_ctl_cp(c: u32) -> bool {
    in_range(c, 0x01, 0x08) || c == 0x0B || c == 0x0C || in_range(c, 0x0E, 0x1F) || c == 0x7F
}

/// ctext without the obsolete part.
pub open spec fn restr_ctext_cp(c: u32) -> bool {
    in_range(c, 0x21, 0x27) || in_range(c, 0x2A, 0x5B) || in_range(c, 0x5D, 0x7E) || non_ascii(c)
}

pub open spec fn ctext_cp(c: u32) -> bool {
    restr_ctext_cp(c) || obs_no_ws_ctl_cp(c)
}

/// qtext without the obsolete part.
pub open spec fn restr_qtext_cp(c: u32) -> bool {
    c == 0x21 || in_range(c, 0x23, 0x5B) || in_range(c, 0x5D, 0x7E)
}

pub open spec fn qtext_cp(c: u32) -> bool {
    restr_qtext_cp(c) || obs_no_ws_ctl_cp(c)
}

/// dtext without the obsolete part (UTF-8 allowed).
pub open spec fn strict_dtext_cp(c: u32) -> bool {
    non_ascii(c) || in_range(c, 0x21, 0x5A) || in_range(c, 0x5E, 0x7E)
}

pub open spec fn obs_dtext_cp(c: u32) -> bool {
    !non_ascii(c) && obs_no_ws_ctl_cp(c)
}

pub open spec fn dtext_cp(c: u32) -> bool {
    strict_dtext_cp(c) || obs_dtext_cp(c)
}

/// RFC 2045 token characters: printable ASCII without tspecials.
pub open spec fn token_text_cp(c: u32) -> bool {
    in_range(c, 0x21, 0x7E) && !(c == 0x28 || c == 0x29 || c == 0x3C || c == 0x3E || c == 0x40
        || c == 0x2C || c == 0x3B || c == 0x3A || c == 0x5C || c == 0x22 || c == 0x2F || c == 0x5B
        || c == 0x5D || c == 0x3F || c == 0x3D)
}

/// RFC 2047 4.2: printable ASCII other than "=", "?" and "_".
pub open spec fn safe_char2_cp(c: u32) -> bool {
    in_range(c, 0x20, 0x7E) && c != 0x5F && c != 0x3F && c != 0x3D
}

/// Base64 alphabet (without padding).
pub open spec fn bchar_cp(c: u32) -> bool {
    alnum_cp(c) || c == 0x2B || c == 0x2F
}

/// obs-utext: %d0 / obs-NO-WS-CTL / VCHAR.
pub open spec fn unstructured_cp(c: u32) -> bool {
    vchar_cp(c) || obs_no_ws_ctl_cp(c) || c == 0
}

/// The very lenient text allowed in non-compliant message identifiers.
pub open spec fn invalid_msgid_text_cp(c: u32) -> bool {
    non_ascii(c) || (in_range(c, 0x21, 0x7E) && c != 0x3C && c != 0x3E && c != 0x22)
}

/// Field-name characters: printable US-ASCII except ":".
pub open spec fn ftext_cp(c: u32) -> bool {
    in_range(c, 0x21, 0x7E) && c != 0x3A
}

pub fn is_vchar(c: char) -> (r: bool)
    ensures
        r == vchar_cp(c as u32),
{
    let c = c as u32;
    (0x21 <= c && c <= 0x7E) || c >= 0x80
}

pub fn is_atext(c: char) -> (r: bool)
    ensures
        r == atext_cp(c as u32),
{
    atext_code(c as u32)
}

pub fn atext_code(c: u32) -> (r: bool)
    ensures
        r == atext_cp(c),
{
    (0x30 <= c && c <= 0x39) || (0x41 <= c && c <= 0x5A) || (0x61 <= c && c <= 0x7A) || c == 0x21
        || (0x23 <= c && c <= 0x27) || c == 0x2A || c == 0x2B || c == 0x2D || c == 0x2F || c == 0x3D
        || c == 0x3F || (0x5E <= c && c <= 0x60) || (0x7B <= c && c <= 0x7E) || c >= 0x80
}

pub fn is_special(c: char) -> (r: bool)
    ensures
        r == special_cp(c as u32),
{
    let c = c as u32;
    c == 0x28 || c == 0x29 || c == 0x3C || c == 0x3E || c == 0x5B || c == 0x5D || c == 0x3A
        || c == 0x3B || c == 0x40 || c == 0x5C || c == 0x2C || c == 0x2E || c == 0x22
}

pub fn is_obs_no_ws_ctl(c: char) -> (r: bool)
    ensures
        r == obs_no_ws_ctl_cp(c as u32),
{
    obs_no_ws_ctl_code(c as u32)
}

pub fn obs_no_ws_ctl_code(c: u32) -> (r: bool)
    ensures
        r == obs_no_ws_ctl_cp(c),
{
    (0x01 <= c && c <= 0x08) || c == 0x0B || c == 0x0C || (0x0E <= c && c <= 0x1F) || c == 0x7F
}

pub fn is_restr_ctext(c: char) -> (r: bool)
    ensures
        r == restr_ctext_cp(c as u32),
{
    let c = c as u32;
    (0x21 <= c && c <= 0x27) || (0x2A <= c && c <= 0x5B) || (0x5D <= c && c <= 0x7E) || c >= 0x80
}

pub fn is_ctext(c: char) -> (r: bool)
    ensures
        r == ctext_cp(c as u32),
{
    is_restr_ctext(c) || is_obs_no_ws_ctl(c)
}

pub fn is_restr_qtext(c: char) -> (r: bool)
    ensures
        r == restr_qtext_cp(c as u32),
{
    let c = c as u32;
    c == 0x21 || (0x23 <= c && c <= 0x5B) || (0x5D <= c && c <= 0x7E)
}

pub fn is_qtext(c: char) -> (r: bool)
    ensures
        r == qtext_cp(c as u32),
{
    is_restr_qtext(c) || is_obs_no_ws_ctl(c)
}

pub fn is_strict_dtext(c: char) -> (r: bool)
    ensures
        r == strict_dtext_cp(c as u32),
{
    strict_dtext_code(c as u32)
}

pub fn strict_dtext_code(c: u32) -> (r: bool)
    ensures
        r == strict_dtext_cp(c),
{
    c >= 0x80 || (0x21 <= c && c <= 0x5A) || (0x5E <= c && c <= 0x7E)
}

pub fn is_obs_dtext(c: char) -> (r: bool)
    ensures
        r == obs_dtext_cp(c as u32),
{
    let c = c as u32;
    c < 0x80 && obs_no_ws_ctl_code(c)
}

pub fn is_dtext(c: char) -> (r: bool)
    ensures
        r == dtext_cp(c as u32),
{
    is_strict_dtext(c) || is_obs_dtext(c)
}

pub fn is_token_text(c: char) -> (r: bool)
    ensures
        r == token_text_cp(c as u32),
{
    token_text_code(c as u32)
}

pub fn token_text_code(c: u32) -> (r: bool)
    ensures
        r == token_text_cp(c),
{
    0x21 <= c && c <= 0x7E && !(c == 0x28 || c == 0x29 || c == 0x3C || c == 0x3E || c == 0x40
        || c == 0x2C || c == 0x3B || c == 0x3A || c == 0x5C || c == 0x22 || c == 0x2F || c == 0x5B
        || c == 0x5D || c == 0x3F || c == 0x3D)
}

pub fn is_safe_char2(c: char) -> (r: bool)
    ensures
        r == safe_char2_cp(c as u32),
{
    safe_char2_code(c as u32)
}

pub fn safe_char2_code(c: u32) -> (r: bool)
    ensures
        r == safe_char2_cp(c),
{
    0x20 <= c && c <= 0x7E && c != 0x5F && c != 0x3F && c != 0x3D
}

pub fn is_bchar(c: char) -> (r: bool)
    ensures
        r == bchar_cp(c as u32),
{
    bchar_code(c as u32)
}

pub fn bchar_code(c: u32) -> (r: bool)
    ensures
        r == bchar_cp(c),
{
    (0x30 <= c && c <= 0x39) || (0x41 <= c && c <= 0x5A) || (0x61 <= c && c <= 0x7A) || c == 0x2B
        || c == 0x2F
}

pub fn is_unstructured(c: char) -> (r: bool)
    ensures
        r == unstructured_cp(c as u32),
{
    is_vchar(c) || is_obs_no_ws_ctl(c) || c as u32 == 0
}

pub fn is_invalid_msgid_text(c: char) -> (r: bool)
    ensures
        r == invalid_msgid_text_cp(c as u32),
{
    invalid_msgid_text_code(c as u32)
}

pub fn invalid_msgid_text_code(c: u32) -> (r: bool)
    ensures
        r == invalid_msgid_text_cp(c),
{
    c >= 0x80 || (0x21 <= c && c <= 0x7E && c != 0x3C && c != 0x3E && c != 0x22)
}

pub fn ftext_code(c: u32) -> (r: bool)
    ensures
        r == ftext_cp(c),
{
    0x21 <= c && c <= 0x7E && c != 0x3A
}

pub fn ctext_code(c: u32) -> (r: bool)
    ensures
        r == ctext_cp(c),
{
    (0x21 <= c && c <= 0x27) || (0x2A <= c && c <= 0x5B) || (0x5D <= c && c <= 0x7E) || c >= 0x80
        || obs_no_ws_ctl_code(c)
}

pub fn qtext_code(c: u32) -> (r: bool)
    ensures
        r == qtext_cp(c),
{
    c == 0x21 || (0x23 <= c && c <= 0x5B) || (0x5D <= c && c <= 0x7E) || obs_no_ws_ctl_code(c)
}

pub fn vchar_code(c: u32) -> (r: bool)
    ensures
        r == vchar_cp(c),
{
    (0x21 <= c && c <= 0x7E) || c >= 0x80
}

pub fn dtext_code(c: u32) -> (r: bool)
    ensures
        r == dtext_cp(c),
{
    strict_dtext_code(c) || (c < 0x80 && obs_no_ws_ctl_code(c))
}

} // verus!
