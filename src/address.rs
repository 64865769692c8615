//! Account addresses: the chain's checksummed (SS58) text form, or hex.
use crate::error::ArgError;
use crate::hex_codec::{
    all_hex, has_0x, hex_decode, hex_decoded, is_hex_char, is_hex_str, starts_with_0x,
};
use crate::text::{chars_of, push_char, string_of};
use blake2::Digest;
use vstd::prelude::*;

verus! {

/// The number of bytes in an account address.
pub const ADDRESS_LENGTH: usize = 32;

/// The characters of Bitcoin's base-58 alphabet.
pub open spec fn is_base58_char(c: char) -> bool {
    ('1' <= c <= '9') || ('A' <= c <= 'H') || ('J' <= c <= 'N') || ('P' <= c <= 'Z') || ('a' <= c
        <= 'k') || ('m' <= c <= 'z')
}

/// What base-58 decoding gives for `s`, or `None` where it fails.
pub uninterp spec fn base58_of(s: Seq<char>) -> Option<Seq<u8>>;

/// The BLAKE2b-512 digest of `data`.
pub uninterp spec fn blake2b_512_of(data: Seq<u8>) -> Seq<u8>;

/// Relies on `bs58::decode(..).into_vec()` with Bitcoin's alphabet: the
/// result depends on the string alone, and a character outside the alphabet
/// fails the decoding.
#[verifier::external_body]
fn base58_decode(s: &str) -> (r: Option<Vec<u8>>)
    ensures
        match r {
            Some(b) => base58_of(s@) == Some(b@),
            None => base58_of(s@) is None,
        },
        !all_base58(s@) ==> r is None,
{
    bs58::decode(s).into_vec().ok()
}

/// Relies on `blake2::Blake2b512`: a 64-byte digest of the input.
#[verifier::external_body]
fn blake2b_512(data: &[u8]) -> (r: Vec<u8>)
    ensures
        r@ == blake2b_512_of(data@),
        r@.len() == 64,
{
    blake2::Blake2b512::digest(data).to_vec()
}

/// The bytes of `"SS58PRE"`, which the checksum hashes before the payload.
pub open spec fn ss58_context() -> Seq<u8> {
    seq![83u8, 83u8, 53u8, 56u8, 80u8, 82u8, 69u8]
}

/// The length of the network prefix of decoded SS58 bytes: one byte below
/// 64, two bytes below 128.
pub open spec fn ss58_prefix_len(b: Seq<u8>) -> nat {
    if b[0] < 64 {
        1
    } else {
        2
    }
}

/// The 32-byte account inside decoded SS58 bytes: a prefix, the account and
/// two checksum bytes, which are the first two of the BLAKE2b-512 digest of
/// `"SS58PRE"` followed by prefix and account.
pub open spec fn ss58_account(b: Seq<u8>) -> Option<Seq<u8>> {
    if b.len() > 0 && b[0] < 128 && b.len() == ss58_prefix_len(b) + 34 && blake2b_512_of(
        ss58_context() + b.subrange(0, b.len() - 2),
    ).subrange(0, 2) == b.subrange(b.len() - 2, b.len() as int) {
        let p = ss58_prefix_len(b) as int;
        Some(b.subrange(p, p + 32))
    } else {
        None
    }
}

pub open spec fn all_base58(s: Seq<char>) -> bool {
    forall|i: int| 0 <= i < s.len() ==> is_base58_char(#[trigger] s[i])
}

/// The account of an SS58 address string: base-58 text whose decoding
/// holds a prefix, the account and a checksum.
pub open spec fn ss58_address(s: Seq<char>) -> Option<Seq<u8>> {
    if !all_base58(s) {
        None
    } else {
        match base58_of(s) {
            Some(b) => ss58_account(b),
            None => None,
        }
    }
}

/// `n` copies of `'0'`.
pub open spec fn zeros(n: nat) -> Seq<char> {
    Seq::new(n, |i: int| '0')
}

/// The account of a hex address: `0x` and at most 64 digits, padded with
/// zeros on the left, or exactly 64 digits without the `0x`.
pub open spec fn hex_address(s: Seq<char>) -> Option<Seq<u8>> {
    if has_0x(s) && s.len() - 2 <= 64 && all_hex(s.subrange(2, s.len() as int)) {
        Some(hex_decoded(zeros((66 - s.len()) as nat) + s.subrange(2, s.len() as int)))
    } else if s.len() == 64 && all_hex(s) {
        Some(hex_decoded(s))
    } else {
        None
    }
}

/// The account an address string names: the SS58 form is tried first.
pub open spec fn address_of(s: Seq<char>) -> Option<Seq<u8>> {
    if ss58_address(s) is Some {
        ss58_address(s)
    } else {
        hex_address(s)
    }
}

/// Decodes an SS58 address into its account bytes.
pub fn ss58_to_address(s: &str) -> (r: Option<Vec<u8>>)
    ensures
        match r {
            Some(a) => ss58_address(s@) == Some(a@),
            None => ss58_address(s@) is None,
        },
{
    let b = match base58_decode(s) {
        Some(b) => b,
        None => return None,
    };
    let n = b.len();
    if n == 0 || b[0] >= 128 {
        return None;
    }
    let p: usize = if b[0] < 64 {
        1
    } else {
        2
    };
    if n != p + 34 {
        return None;
    }
    let mut hashed: Vec<u8> = vec![83u8, 83u8, 53u8, 56u8, 80u8, 82u8, 69u8];
    let mut i: usize = 0;
    while i < n - 2
        invariant
            i <= n - 2,
            n == b@.len(),
            hashed@ == ss58_context() + b@.subrange(0, i as int),
        decreases n - 2 - i,
    {
        hashed.push(b[i]);
        i += 1;
        assert(hashed@ == ss58_context() + b@.subrange(0, i as int));
    }
    let digest = blake2b_512(hashed.as_slice());
    if digest[0] != b[n - 2] || digest[1] != b[n - 1] {
        proof {
            let c = blake2b_512_of(ss58_context() + b@.subrange(0, n - 2));
            let t = b@.subrange(n - 2, n as int);
            assert(c.subrange(0, 2)[0] != t[0] || c.subrange(0, 2)[1] != t[1]);
        }
        return None;
    }
    let ghost c = digest@.subrange(0, 2);
    assert(c =~= b@.subrange(n - 2, n as int));
    let mut account: Vec<u8> = Vec::new();
    let mut k: usize = p;
    while k < p + 32
        invariant
            p <= k <= p + 32,
            p + 34 == n,
            n == b@.len(),
            account@ == b@.subrange(p as int, k as int),
        decreases p + 32 - k,
    {
        account.push(b[k]);
        k += 1;
        assert(account@ == b@.subrange(p as int, k as int));
    }
    Some(account)
}

/// Reads a hex address: `0x` and at most 64 digits, or exactly 64 digits.
pub fn hex_to_address(s: &str) -> (r: Option<Vec<u8>>)
    ensures
        match r {
            Some(a) => hex_address(s@) == Some(a@),
            None => hex_address(s@) is None,
        },
{
    let cs = chars_of(s);
    let n = cs.len();
    if starts_with_0x(&cs) && n - 2 <= 64 {
        let mut padded = String::new();
        let mut k: usize = n;
        while k < 66
            invariant
                n <= k <= 66,
                padded@ == zeros((k - n) as nat),
            decreases 66 - k,
        {
            push_char(&mut padded, '0');
            k += 1;
            assert(padded@ =~= zeros((k - n) as nat));
        }
        let digits = string_of(&cs, 2, n);
        let mut full = padded;
        full.append(digits.as_str());
        let ghost rest = cs@.subrange(2, n as int);
        assert(full@ == zeros((66 - n) as nat) + rest);
        match hex_decode(full.as_str()) {
            Some(b) => {
                assert(all_hex(rest)) by {
                    assert forall|i: int| 0 <= i < rest.len() implies is_hex_char(#[trigger] rest[i]) by {
                        assert(full@[66 - n + i] == rest[i]);
                    }
                }
                return Some(b);
            },
            None => {
                proof {
                    if all_hex(rest) {
                        assert forall|i: int| 0 <= i < full@.len() implies is_hex_char(
                            #[trigger] full@[i],
                        ) by {
                            if i >= 66 - n {
                                assert(full@[i] == rest[i - (66 - n)]);
                            }
                        }
                        assert(is_hex_str(full@));
                    }
                }
            },
        }
    }
    if n == 64 {
        match hex_decode(s) {
            Some(b) => {
                return Some(b);
            },
            None => {},
        }
    }
    None
}

/// A `0x`-prefixed address of 64 hex digits and an SS58 address of the same
/// account read as the same address.
pub proof fn lemma_address_forms_agree(hex_form: Seq<char>, ss58_form: Seq<char>)
    requires
        hex_form.len() == 66,
        has_0x(hex_form),
        all_hex(hex_form.subrange(2, 66)),
        ss58_address(ss58_form) == Some(hex_decoded(hex_form.subrange(2, 66))),
    ensures
        address_of(hex_form) == address_of(ss58_form),
        address_of(hex_form) == Some(hex_decoded(hex_form.subrange(2, 66))),
{
    assert(!is_base58_char(hex_form[0]));
    assert(!all_base58(hex_form));
    assert(zeros(0) + hex_form.subrange(2, 66) =~= hex_form.subrange(2, 66));
}

/// Reads an account address: first as SS58, then as hex.
pub fn parse_address(s: &str) -> (r: Result<Vec<u8>, ArgError>)
    ensures
        match r {
            Ok(a) => address_of(s@) == Some(a@) && a@.len() == ADDRESS_LENGTH,
            Err(ArgError::AddressFormat(m)) => address_of(s@) is None && m@ == s@,
            Err(_) => false,
        },
{
    match ss58_to_address(s) {
        Some(a) => {
            return Ok(a);
        },
        None => {},
    }
    match hex_to_address(s) {
        Some(a) => Ok(a),
        None => {
            let cs = chars_of(s);
            let m = string_of(&cs, 0, cs.len());
            assert(cs@.subrange(0, cs@.len() as int) == cs@);
            Err(ArgError::AddressFormat(m))
        },
    }
}

} // verus!
