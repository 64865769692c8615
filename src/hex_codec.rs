//! Hex strings, with or without a `0x` in front.
use crate::error::ArgError;
use crate::text::{chars_of, push_str, string_of};
use vstd::prelude::*;

verus! {

pub open spec fn is_hex_char(c: char) -> bool {
    ('0' <= c <= '9') || ('a' <= c <= 'f') || ('A' <= c <= 'F')
}

pub open spec fn hex_val(c: char) -> nat {
    if '0' <= c <= '9' {
        (c as u32 - '0' as u32) as nat
    } else if 'a' <= c <= 'f' {
        (c as u32 - 'a' as u32 + 10) as nat
    } else {
        (c as u32 - 'A' as u32 + 10) as nat
    }
}

pub open spec fn all_hex(s: Seq<char>) -> bool {
    forall|i: int| 0 <= i < s.len() ==> is_hex_char(#[trigger] s[i])
}

/// An even number of hex digits.
pub open spec fn is_hex_str(s: Seq<char>) -> bool {
    s.len() % 2 == 0 && all_hex(s)
}

/// The bytes that pairs of hex digits stand for, the high digit first.
pub open spec fn hex_decoded(s: Seq<char>) -> Seq<u8> {
    Seq::new(s.len() / 2, |i: int| (hex_val(s[2 * i]) * 16 + hex_val(s[2 * i + 1])) as u8)
}

/// The lowercase hex digit of `d < 16`.
pub open spec fn hex_digit(d: nat) -> char {
    if d < 10 {
        (d + 48) as char
    } else {
        (d + 87) as char
    }
}

/// Two lowercase hex digits for each byte, the high digit first.
pub open spec fn hex_lower(b: Seq<u8>) -> Seq<char> {
    Seq::new(
        2 * b.len(),
        |i: int|
            if i % 2 == 0 {
                hex_digit((b[i / 2] / 16) as nat)
            } else {
                hex_digit((b[i / 2] % 16) as nat)
            },
    )
}

/// Whether `s` starts with `0x`.
pub open spec fn has_0x(s: Seq<char>) -> bool {
    s.len() >= 2 && s[0] == '0' && s[1] == 'x'
}

/// `s` without a leading `0x`.
pub open spec fn strip_0x(s: Seq<char>) -> Seq<char> {
    if has_0x(s) {
        s.subrange(2, s.len() as int)
    } else {
        s
    }
}

proof fn lemma_hex_digit_val(d: nat)
    requires
        d < 16,
    ensures
        is_hex_char(hex_digit(d)),
        hex_val(hex_digit(d)) == d,
{
}

/// Lowercase hex digits read back as the bytes they were written from.
pub proof fn lemma_hex_round_trip(b: Seq<u8>)
    ensures
        is_hex_str(hex_lower(b)),
        hex_decoded(hex_lower(b)) == b,
{
    let h = hex_lower(b);
    assert forall|i: int| 0 <= i < h.len() implies is_hex_char(#[trigger] h[i]) by {
        lemma_hex_digit_val((b[i / 2] / 16) as nat);
        lemma_hex_digit_val((b[i / 2] % 16) as nat);
    }
    assert(h.len() % 2 == 0);
    assert forall|i: int| 0 <= i < b.len() implies #[trigger] hex_decoded(h)[i] == b[i] by {
        assert((2 * i) % 2 == 0);
        assert((2 * i + 1) % 2 == 1);
        assert((2 * i) / 2 == i);
        assert((2 * i + 1) / 2 == i);
        lemma_hex_digit_val((b[i] / 16) as nat);
        lemma_hex_digit_val((b[i] % 16) as nat);
    }
    assert(hex_decoded(h) =~= b);
}

/// `0x` in front of hex digits is taken off again.
pub proof fn lemma_strip_0x(h: Seq<char>)
    ensures
        strip_0x(seq!['0', 'x'] + h) == h,
{
    assert((seq!['0', 'x'] + h).subrange(2, h.len() + 2 as int) =~= h);
}

/// Relies on `hex::decode`: it accepts an even number of digits of either
/// case and reads each pair as one byte, the high digit first.
#[verifier::external_body]
pub(crate) fn hex_decode(s: &str) -> (r: Option<Vec<u8>>)
    ensures
        match r {
            Some(b) => is_hex_str(s@) && b@ == hex_decoded(s@),
            None => !is_hex_str(s@),
        },
{
    hex::decode(s).ok()
}

/// Relies on `hex::encode`: two lowercase digits per byte.
#[verifier::external_body]
pub(crate) fn hex_encode(b: &[u8]) -> (r: String)
    ensures
        r@ == hex_lower(b@),
{
    hex::encode(b)
}

/// Whether the characters `cs` start with `0x`.
pub fn starts_with_0x(cs: &Vec<char>) -> (r: bool)
    ensures
        r == has_0x(cs@),
{
    cs.len() >= 2 && cs[0] == '0' && cs[1] == 'x'
}

/// Decodes a hex string, with or without a leading `0x`.
pub fn decode_hex(s: &str) -> (r: Result<Vec<u8>, ArgError>)
    ensures
        match r {
            Ok(b) => is_hex_str(strip_0x(s@)) && b@ == hex_decoded(strip_0x(s@)),
            Err(ArgError::Decode(m)) => !is_hex_str(strip_0x(s@)) && m@ == s@,
            Err(_) => false,
        },
{
    let cs = chars_of(s);
    let digits = if starts_with_0x(&cs) {
        string_of(&cs, 2, cs.len())
    } else {
        string_of(&cs, 0, cs.len())
    };
    assert(cs@.subrange(0, cs@.len() as int) == cs@);
    match hex_decode(digits.as_str()) {
        Some(b) => Ok(b),
        None => Err(ArgError::Decode(string_of(&cs, 0, cs.len()))),
    }
}

/// Bytes that are read and shown as hex.
pub struct HexEncodedBytes(pub Vec<u8>);

impl HexEncodedBytes {
    /// Reads hex digits, with or without a leading `0x`.
    pub fn from_str(s: &str) -> (r: Result<HexEncodedBytes, ArgError>)
        ensures
            match r {
                Ok(h) => is_hex_str(strip_0x(s@)) && h.0@ == hex_decoded(strip_0x(s@)),
                Err(ArgError::Decode(m)) => !is_hex_str(strip_0x(s@)) && m@ == s@,
                Err(_) => false,
            },
    {
        match decode_hex(s) {
            Ok(b) => Ok(HexEncodedBytes(b)),
            Err(e) => Err(e),
        }
    }

    /// `0x` followed by two lowercase digits per byte.
    pub fn to_display_string(&self) -> (r: String)
        ensures
            r@ == seq!['0', 'x'] + hex_lower(self.0@),
    {
        let mut r = String::new();
        crate::text::push_char(&mut r, '0');
        crate::text::push_char(&mut r, 'x');
        let h = hex_encode(self.0.as_slice());
        push_str(&mut r, h.as_str());
        assert(r@ == seq!['0', 'x'] + hex_lower(self.0@));
        r
    }

    /// The bytes.
    pub fn inner(&self) -> (r: &[u8])
        ensures
            r@ == self.0@,
    {
        self.0.as_slice()
    }
}

} // verus!
