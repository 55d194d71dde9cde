//! Masterdata and request tokens: ASCII-insensitive matching and the code
//! vocabularies for groups, attributes, art states and event kinds.
//!
//! Tokens are compared on their UTF-8 bytes after trimming whitespace (the
//! Unicode `White_Space` characters) and folding ASCII letters to lower case.

use vstd::prelude::*;
use vstd::string::StrSliceExecFns;
use vstd::utf8::{decode_utf8, encode_utf8, encode_utf8_decode_utf8};
use crate::types::{Unit, Attr, EventType, DefaultImage, spec_is_real_unit};

verus! {

/// ASCII lower-case fold of one byte.
pub open spec fn lower_byte(c: u8) -> u8 {
    if 65 <= c && c <= 90 {
        (c + 32) as u8
    } else {
        c
    }
}

/// ASCII lower-case fold of a byte string.
pub open spec fn lower(s: Seq<u8>) -> Seq<u8> {
    s.map_values(|c: u8| lower_byte(c))
}

/// Normal form of a token: its characters without surrounding whitespace,
/// as UTF-8 bytes folded to ASCII lower case.
pub open spec fn norm(s: Seq<u8>) -> Seq<u8> {
    lower(encode_utf8(trimmed(decode_utf8(s))))
}

/// UTF-8 bytes of a string slice.
pub open spec fn bytes(s: &str) -> Seq<u8> {
    encode_utf8(s@)
}

fn lower_of(c: u8) -> (r: u8)
    ensures
        r == lower_byte(c),
{
    if 65 <= c && c <= 90 {
        c + 32
    } else {
        c
    }
}

/// Normal form of a token (see [`norm`]).
pub fn norm_token(s: &str) -> (r: Vec<u8>)
    ensures
        r@ == norm(bytes(s)),
{
    let t = trim_str(s);
    let b = t.as_bytes();
    proof {
        encode_utf8_decode_utf8(s@);
    }
    let mut out: Vec<u8> = Vec::new();
    let mut i: usize = 0;
    while i < b.len()
        invariant
            i <= b@.len(),
            out@ =~= lower(b@.subrange(0, i as int)),
        decreases b@.len() - i,
    {
        out.push(lower_of(b[i]));
        i = i + 1;
        assert(out@ =~= lower(b@.subrange(0, i as int)));
    }
    assert(b@.subrange(0, i as int) =~= b@);
    out
}

/// Unicode whitespace (the `White_Space` property).
pub open spec fn is_space(c: char) -> bool {
    let u = c as u32;
    (9 <= u && u <= 13) || u == 32 || u == 0x85 || u == 0xA0 || u == 0x1680 || (0x2000 <= u && u
        <= 0x200A) || u == 0x2028 || u == 0x2029 || u == 0x202F || u == 0x205F || u == 0x3000
}

/// Drops leading whitespace.
pub open spec fn trim_front(s: Seq<char>) -> Seq<char>
    decreases s.len(),
{
    if s.len() > 0 && is_space(s[0]) {
        trim_front(s.drop_first())
    } else {
        s
    }
}

/// Drops trailing whitespace.
pub open spec fn trim_back(s: Seq<char>) -> Seq<char>
    decreases s.len(),
{
    if s.len() > 0 && is_space(s.last()) {
        trim_back(s.drop_last())
    } else {
        s
    }
}

/// A string without its leading and trailing whitespace.
pub open spec fn trimmed(s: Seq<char>) -> Seq<char> {
    trim_back(trim_front(s))
}

/// ASCII lower-case fold of one character.
pub open spec fn lower_char(c: char) -> char {
    if 'A' <= c && c <= 'Z' {
        ((c as u32) + 32) as char
    } else {
        c
    }
}

/// ASCII lower-case fold of a string.
pub open spec fn lower_chars(s: Seq<char>) -> Seq<char> {
    s.map_values(|c: char| lower_char(c))
}

fn char_is_space(c: char) -> (r: bool)
    ensures
        r == is_space(c),
{
    let u = c as u32;
    (9 <= u && u <= 13) || u == 32 || u == 0x85 || u == 0xA0 || u == 0x1680 || (0x2000 <= u && u
        <= 0x200A) || u == 0x2028 || u == 0x2029 || u == 0x202F || u == 0x205F || u == 0x3000
}

/// The string without its leading and trailing whitespace.
pub fn trim_str(s: &str) -> (r: &str)
    ensures
        r@ == trimmed(s@),
{
    let n = s.unicode_len();
    let mut lo: usize = 0;
    assert(s@.subrange(0, n as int) =~= s@);
    while lo < n && char_is_space(s.get_char(lo))
        invariant
            lo <= n,
            n == s@.len(),
            trim_front(s@.subrange(lo as int, n as int)) == trim_front(s@),
        decreases n - lo,
    {
        assert(s@.subrange(lo as int, n as int).drop_first() =~= s@.subrange(lo + 1, n as int));
        lo = lo + 1;
    }
    assert(trim_front(s@) == s@.subrange(lo as int, n as int));
    let mut hi: usize = n;
    while hi > lo && char_is_space(s.get_char(hi - 1))
        invariant
            lo <= hi <= n,
            n == s@.len(),
            trim_back(s@.subrange(lo as int, hi as int)) == trim_back(s@.subrange(lo as int, n as int)),
        decreases hi,
    {
        assert(s@.subrange(lo as int, hi as int).drop_last() =~= s@.subrange(lo as int, hi - 1));
        hi = hi - 1;
    }
    s.substring_char(lo, hi)
}

/// Whether two strings hold the same characters.
pub fn str_eq(a: &str, b: &str) -> (r: bool)
    ensures
        r == (a@ == b@),
{
    let r = bytes_eq(a.as_bytes(), b.as_bytes());
    proof {
        encode_utf8_decode_utf8(a@);
        encode_utf8_decode_utf8(b@);
    }
    r
}

fn lower_eq(c: char, d: char) -> (r: bool)
    ensures
        r == (lower_char(c) == d),
{
    let cu = c as u32;
    let du = d as u32;
    if 65 <= cu && cu <= 90 {
        let r = cu + 32 == du;
        proof {
            vstd::utf8::char_u32_cast(d, du);
            if lower_char(c) == d {
                assert(((cu + 32) as u32) as char == d);
                vstd::utf8::char_u32_cast(d, du);
            }
        }
        r
    } else {
        c == d
    }
}

/// Whether the ASCII lower-case fold of `s` is `lit`.
pub fn lower_matches(s: &str, lit: &str) -> (r: bool)
    ensures
        r == (lower_chars(s@) == lit@),
{
    let n = s.unicode_len();
    if n != lit.unicode_len() {
        assert(lower_chars(s@).len() != lit@.len());
        return false;
    }
    let mut i: usize = 0;
    while i < n
        invariant
            i <= n,
            n == s@.len(),
            n == lit@.len(),
            forall|j: int| 0 <= j < i ==> lower_char(s@[j]) == lit@[j],
        decreases n - i,
    {
        if !lower_eq(s.get_char(i), lit.get_char(i)) {
            assert(lower_chars(s@)[i as int] != lit@[i as int]);
            return false;
        }
        i = i + 1;
    }
    assert(lower_chars(s@) =~= lit@);
    true
}

/// Byte-string equality.
pub fn bytes_eq(a: &[u8], b: &[u8]) -> (r: bool)
    ensures
        r == (a@ == b@),
{
    if a.len() != b.len() {
        return false;
    }
    let mut i: usize = 0;
    while i < a.len()
        invariant
            i <= a@.len(),
            a@.len() == b@.len(),
            forall|j: int| 0 <= j < i ==> a@[j] == b@[j],
        decreases a@.len() - i,
    {
        if a[i] != b[i] {
            return false;
        }
        i = i + 1;
    }
    assert(a@ =~= b@);
    true
}

/// Byte strings equal up to ASCII case.
pub fn bytes_eq_ignore_case(a: &[u8], b: &[u8]) -> (r: bool)
    ensures
        r == (lower(a@) == lower(b@)),
{
    if a.len() != b.len() {
        assert(lower(a@).len() != lower(b@).len());
        return false;
    }
    let mut i: usize = 0;
    while i < a.len()
        invariant
            i <= a@.len(),
            a@.len() == b@.len(),
            forall|j: int| 0 <= j < i ==> lower_byte(a@[j]) == lower_byte(b@[j]),
        decreases a@.len() - i,
    {
        if lower_of(a[i]) != lower_of(b[i]) {
            assert(lower(a@)[i as int] != lower(b@)[i as int]);
            return false;
        }
        i = i + 1;
    }
    assert(lower(a@) =~= lower(b@));
    true
}

/// Two strings equal up to ASCII case (no trimming).
pub fn eq_ignore_ascii_case(a: &str, b: &str) -> (r: bool)
    ensures
        r == (lower(bytes(a)) == lower(bytes(b))),
{
    bytes_eq_ignore_case(a.as_bytes(), b.as_bytes())
}

/// Group named by a normalised token.
pub open spec fn spec_unit_of_token(t: Seq<u8>) -> Option<Unit> {
    if t == seq![108u8, 105, 103, 104, 116, 95, 115, 111, 117, 110, 100]
        || t == seq![108u8, 101, 111, 110, 101, 101, 100] || t == seq![108u8, 110] {
        Some(Unit::LightSound)
    } else if t == seq![105u8, 100, 111, 108] || t == seq![109u8, 109, 106] {
        Some(Unit::Idol)
    } else if t == seq![115u8, 116, 114, 101, 101, 116] || t == seq![118u8, 98, 115] {
        Some(Unit::Street)
    } else if t == seq![116u8, 104, 101, 109, 101, 112, 97, 114, 107]
        || t == seq![116u8, 104, 101, 109, 101, 95, 112, 97, 114, 107]
        || t == seq![119u8, 120, 115] {
        Some(Unit::Themepark)
    } else if t == seq![115u8, 99, 104, 111, 111, 108, 95, 114, 101, 102, 117, 115, 97, 108]
        || t == seq![50u8, 53, 106, 105] {
        Some(Unit::SchoolRefusal)
    } else if t == seq![112u8, 105, 97, 112, 114, 111] || t == seq![118u8, 115] {
        Some(Unit::Piapro)
    } else {
        None
    }
}

/// Group named by a code such as `idol` or `vbs`.
pub open spec fn spec_parse_unit(s: Seq<char>) -> Option<Unit> {
    spec_unit_of_token(norm(encode_utf8(s)))
}

/// Parses a group code (case-insensitive, surrounding whitespace ignored).
pub fn parse_unit_code(s: &str) -> (r: Option<Unit>)
    ensures
        r == spec_parse_unit(s@),
        r matches Some(u) ==> spec_is_real_unit(u),
{
    let t = norm_token(s);
    let t = t.as_slice();
    if bytes_eq(t, &[108u8, 105, 103, 104, 116, 95, 115, 111, 117, 110, 100])
        || bytes_eq(t, &[108u8, 101, 111, 110, 101, 101, 100]) || bytes_eq(t, &[108u8, 110]) {
        Some(Unit::LightSound)
    } else if bytes_eq(t, &[105u8, 100, 111, 108]) || bytes_eq(t, &[109u8, 109, 106]) {
        Some(Unit::Idol)
    } else if bytes_eq(t, &[115u8, 116, 114, 101, 101, 116]) || bytes_eq(t, &[118u8, 98, 115]) {
        Some(Unit::Street)
    } else if bytes_eq(t, &[116u8, 104, 101, 109, 101, 112, 97, 114, 107])
        || bytes_eq(t, &[116u8, 104, 101, 109, 101, 95, 112, 97, 114, 107])
        || bytes_eq(t, &[119u8, 120, 115]) {
        Some(Unit::Themepark)
    } else if bytes_eq(t, &[115u8, 99, 104, 111, 111, 108, 95, 114, 101, 102, 117, 115, 97, 108])
        || bytes_eq(t, &[50u8, 53, 106, 105]) {
        Some(Unit::SchoolRefusal)
    } else if bytes_eq(t, &[112u8, 105, 97, 112, 114, 111]) || bytes_eq(t, &[118u8, 115]) {
        Some(Unit::Piapro)
    } else {
        None
    }
}

/// Attribute named by a normalised token.
pub open spec fn spec_attr_of_token(t: Seq<u8>) -> Option<Attr> {
    if t == seq![99u8, 117, 116, 101] {
        Some(Attr::Cute)
    } else if t == seq![99u8, 111, 111, 108] {
        Some(Attr::Cool)
    } else if t == seq![112u8, 117, 114, 101] {
        Some(Attr::Pure)
    } else if t == seq![104u8, 97, 112, 112, 121] {
        Some(Attr::Happy)
    } else if t == seq![109u8, 121, 115, 116, 101, 114, 105, 111, 117, 115] {
        Some(Attr::Mysterious)
    } else {
        None
    }
}

/// Attribute named by a code such as `cool`.
pub open spec fn spec_parse_attr(s: Seq<char>) -> Option<Attr> {
    spec_attr_of_token(norm(encode_utf8(s)))
}

/// Parses an attribute code (case-insensitive, surrounding whitespace ignored).
pub fn parse_attr_code(s: &str) -> (r: Option<Attr>)
    ensures
        r == spec_parse_attr(s@),
{
    let t = norm_token(s);
    let t = t.as_slice();
    if bytes_eq(t, &[99u8, 117, 116, 101]) {
        Some(Attr::Cute)
    } else if bytes_eq(t, &[99u8, 111, 111, 108]) {
        Some(Attr::Cool)
    } else if bytes_eq(t, &[112u8, 117, 114, 101]) {
        Some(Attr::Pure)
    } else if bytes_eq(t, &[104u8, 97, 112, 112, 121]) {
        Some(Attr::Happy)
    } else if bytes_eq(t, &[109u8, 121, 115, 116, 101, 114, 105, 111, 117, 115]) {
        Some(Attr::Mysterious)
    } else {
        None
    }
}

/// Art state named by a user card's `default_image` field.
pub open spec fn spec_default_image_kind(s: Seq<char>) -> DefaultImage {
    if norm(encode_utf8(s)) == seq![115u8, 112, 101, 99, 105, 97, 108, 95, 116, 114, 97, 105, 110, 105, 110, 103] {
        DefaultImage::SpecialTraining
    } else {
        DefaultImage::Original
    }
}

/// Art state of a user card: `special_training` or the original art.
pub fn default_image_kind(s: &str) -> (r: DefaultImage)
    ensures
        r == spec_default_image_kind(s@),
{
    let t = norm_token(s);
    if bytes_eq(t.as_slice(), &[115u8, 112, 101, 99, 105, 97, 108, 95, 116, 114, 97, 105, 110, 105, 110, 103]) {
        DefaultImage::SpecialTraining
    } else {
        DefaultImage::Original
    }
}

/// Whether a user card's `special_training_status` says the training is done.
pub open spec fn spec_is_after_training(s: Seq<char>) -> bool {
    norm(encode_utf8(s)) == seq![100u8, 111, 110, 101]
}

/// Whether a user card's special training is done.
pub fn is_after_training(s: &str) -> (r: bool)
    ensures
        r == spec_is_after_training(s@),
{
    let t = norm_token(s);
    bytes_eq(t.as_slice(), &[100u8, 111, 110, 101])
}

/// Whether a code is blank or `none` (no restriction).
pub open spec fn spec_is_blank_or_none(s: Seq<char>) -> bool {
    let t = norm(encode_utf8(s));
    t.len() == 0 || t == seq![110u8, 111, 110, 101]
}

/// Whether a code is blank or `none`.
pub fn is_blank_or_none(s: &str) -> (r: bool)
    ensures
        r == spec_is_blank_or_none(s@),
{
    let t = norm_token(s);
    t.len() == 0 || bytes_eq(t.as_slice(), &[110u8, 111, 110, 101])
}

/// Event kind named by a code.
pub open spec fn spec_event_type_of_token(t: Seq<u8>) -> Option<EventType> {
    if t == seq![109u8, 97, 114, 97, 116, 104, 111, 110] {
        Some(EventType::Marathon)
    } else if t == seq![99u8, 104, 101, 101, 114, 102, 117, 108]
        || t == seq![99u8, 104, 101, 101, 114, 102, 117, 108, 95, 99, 97, 114, 110, 105, 118, 97, 108]
        || t == seq![99u8, 104, 101, 101, 114, 102, 117, 108, 99, 97, 114, 110, 105, 118, 97, 108] {
        Some(EventType::CheerfulCarnival)
    } else if t == seq![119u8, 111, 114, 108, 100, 95, 98, 108, 111, 111, 109]
        || t == seq![119u8, 111, 114, 108, 100, 98, 108, 111, 111, 109]
        || t == seq![119u8, 108] {
        Some(EventType::WorldBloom)
    } else {
        None
    }
}

/// Event kind named by a code such as `marathon` or `world_bloom`.
pub open spec fn spec_parse_event_type(s: Seq<char>) -> Option<EventType> {
    spec_event_type_of_token(norm(encode_utf8(s)))
}

/// Parses an event kind code.
pub fn parse_event_type(s: &str) -> (r: Option<EventType>)
    ensures
        r == spec_parse_event_type(s@),
{
    let t = norm_token(s);
    let t = t.as_slice();
    if bytes_eq(t, &[109u8, 97, 114, 97, 116, 104, 111, 110]) {
        Some(EventType::Marathon)
    } else if bytes_eq(t, &[99u8, 104, 101, 101, 114, 102, 117, 108])
        || bytes_eq(t, &[99u8, 104, 101, 101, 114, 102, 117, 108, 95, 99, 97, 114, 110, 105, 118, 97, 108])
        || bytes_eq(t, &[99u8, 104, 101, 101, 114, 102, 117, 108, 99, 97, 114, 110, 105, 118, 97, 108]) {
        Some(EventType::CheerfulCarnival)
    } else if bytes_eq(t, &[119u8, 111, 114, 108, 100, 95, 98, 108, 111, 111, 109])
        || bytes_eq(t, &[119u8, 111, 114, 108, 100, 98, 108, 111, 111, 109])
        || bytes_eq(t, &[119u8, 108]) {
        Some(EventType::WorldBloom)
    } else {
        None
    }
}

} // verus!
