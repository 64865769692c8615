//! Typed command-line arguments and their canonical encoding.
use crate::address::{address_of, all_base58, is_base58_char, parse_address, ss58_address, zeros};
use crate::canonical::{enc_bytes, le_bytes, uleb128, write_u64_as_uleb128};
use crate::decimal::{decimal_value, fits_decimal, parse_decimal_le};
use crate::error::ArgError;
use crate::decimal::lemma_decimal_round_trip;
use crate::hex_codec::{
    all_hex, decode_hex, has_0x, hex_decoded, hex_lower, is_hex_str, lemma_hex_round_trip,
    lemma_strip_0x, strip_0x,
};
use crate::text::{chars_of, dec_str, push_char, string_of};
use crate::type_args::{push_chars, word_at};
use vstd::prelude::*;
use vstd::string::*;
use vstd::utf8::encode_utf8;

verus! {

/// Type of a function argument.
#[derive(Clone, Copy, Debug, PartialEq, Eq, Structural)]
pub enum FunctionArgType {
    Signer,
    Address,
    Bool,
    Hex,
    String,
    U8,
    U16,
    U32,
    U64,
    U128,
    U256,
    Raw,
}

/// A literal of JSON: what an argument's value is read as.
#[derive(Debug)]
pub enum JsonValue {
    Null,
    Bool(bool),
    /// A number, in the text JSON prints it with.
    Number(String),
    Str(String),
    Array(Vec<JsonValue>),
    Object,
}

/// An argument in its canonical encoding, with the depth to which vectors
/// nest in it (0 for a scalar).
#[derive(Debug)]
pub struct ArgWithType {
    pub vector_depth: u64,
    pub arg: Vec<u8>,
}

/// Why a literal has no encoding, as the contracts see it.
pub enum EncodeFailure {
    /// The type's own parser refused the text of a scalar.
    Scalar(Seq<char>),
    DepthMismatch,
    Unsupported,
}

/// The name of each argument type, as written before the colon.
pub open spec fn arg_type_name(t: FunctionArgType) -> Seq<char> {
    match t {
        FunctionArgType::Signer => seq!['s', 'i', 'g', 'n', 'e', 'r'],
        FunctionArgType::Address => seq!['a', 'd', 'd', 'r', 'e', 's', 's'],
        FunctionArgType::Bool => seq!['b', 'o', 'o', 'l'],
        FunctionArgType::Hex => seq!['h', 'e', 'x'],
        FunctionArgType::String => seq!['s', 't', 'r', 'i', 'n', 'g'],
        FunctionArgType::U8 => seq!['u', '8'],
        FunctionArgType::U16 => seq!['u', '1', '6'],
        FunctionArgType::U32 => seq!['u', '3', '2'],
        FunctionArgType::U64 => seq!['u', '6', '4'],
        FunctionArgType::U128 => seq!['u', '1', '2', '8'],
        FunctionArgType::U256 => seq!['u', '2', '5', '6'],
        FunctionArgType::Raw => seq!['r', 'a', 'w'],
    }
}

/// The argument type with the (lowercase) name `s`.
pub open spec fn arg_type_named(s: Seq<char>) -> Option<FunctionArgType> {
    if s == arg_type_name(FunctionArgType::Signer) {
        Some(FunctionArgType::Signer)
    } else if s == arg_type_name(FunctionArgType::Address) {
        Some(FunctionArgType::Address)
    } else if s == arg_type_name(FunctionArgType::Bool) {
        Some(FunctionArgType::Bool)
    } else if s == arg_type_name(FunctionArgType::Hex) {
        Some(FunctionArgType::Hex)
    } else if s == arg_type_name(FunctionArgType::String) {
        Some(FunctionArgType::String)
    } else if s == arg_type_name(FunctionArgType::U8) {
        Some(FunctionArgType::U8)
    } else if s == arg_type_name(FunctionArgType::U16) {
        Some(FunctionArgType::U16)
    } else if s == arg_type_name(FunctionArgType::U32) {
        Some(FunctionArgType::U32)
    } else if s == arg_type_name(FunctionArgType::U64) {
        Some(FunctionArgType::U64)
    } else if s == arg_type_name(FunctionArgType::U128) {
        Some(FunctionArgType::U128)
    } else if s == arg_type_name(FunctionArgType::U256) {
        Some(FunctionArgType::U256)
    } else if s == arg_type_name(FunctionArgType::Raw) {
        Some(FunctionArgType::Raw)
    } else {
        None
    }
}

/// The width in bytes of an integer type.
pub open spec fn int_width(t: FunctionArgType) -> nat {
    match t {
        FunctionArgType::U8 => 1,
        FunctionArgType::U16 => 2,
        FunctionArgType::U32 => 4,
        FunctionArgType::U64 => 8,
        FunctionArgType::U128 => 16,
        _ => 32,
    }
}

pub open spec fn true_text() -> Seq<char> {
    seq!['t', 'r', 'u', 'e']
}

pub open spec fn false_text() -> Seq<char> {
    seq!['f', 'a', 'l', 's', 'e']
}

/// The encoding of the scalar written `text` as type `t`, or `None` where
/// the type's parser refuses the text.
pub open spec fn scalar_enc(t: FunctionArgType, text: Seq<char>) -> Option<Seq<u8>> {
    match t {
        FunctionArgType::Signer | FunctionArgType::Address => address_of(text),
        FunctionArgType::Bool => if text == true_text() {
            Some(seq![1u8])
        } else if text == false_text() {
            Some(seq![0u8])
        } else {
            None
        },
        FunctionArgType::Hex => if is_hex_str(strip_0x(text)) {
            Some(enc_bytes(hex_decoded(strip_0x(text))))
        } else {
            None
        },
        FunctionArgType::String => Some(enc_bytes(encode_utf8(text))),
        FunctionArgType::Raw => if is_hex_str(strip_0x(text)) {
            Some(hex_decoded(strip_0x(text)))
        } else {
            None
        },
        _ => if fits_decimal(text, int_width(t)) {
            Some(le_bytes(decimal_value(text), int_width(t)))
        } else {
            None
        },
    }
}

/// The error that type `t` reports for the scalar text `text`.
pub open spec fn scalar_error(t: FunctionArgType, e: ArgError, text: Seq<char>) -> bool {
    match t {
        FunctionArgType::Signer | FunctionArgType::Address => e matches ArgError::AddressFormat(m)
            && m@ == text,
        FunctionArgType::Hex | FunctionArgType::Raw => e matches ArgError::Decode(m) && m@ == text,
        _ => e matches ArgError::Parse(m) && m@ == text,
    }
}

/// The error that stands for an [`EncodeFailure`].
pub open spec fn reports(t: FunctionArgType, e: ArgError, f: EncodeFailure) -> bool {
    match f {
        EncodeFailure::Scalar(text) => scalar_error(t, e, text),
        EncodeFailure::DepthMismatch => e is DepthMismatch,
        EncodeFailure::Unsupported => e is UnsupportedLiteral,
    }
}

/// The number of elements of an array literal; 0 for any other literal.
pub open spec fn item_count(v: JsonValue) -> nat {
    match v {
        JsonValue::Array(items) => items@.len(),
        _ => 0,
    }
}

pub open spec fn scalar_result(t: FunctionArgType, text: Seq<char>) -> Result<
    (Seq<u8>, Option<nat>),
    EncodeFailure,
> {
    match scalar_enc(t, text) {
        Some(b) => Ok((b, None)),
        None => Err(EncodeFailure::Scalar(text)),
    }
}

/// The largest vector depth that an argument can carry.
pub const MAX_DEPTH: u64 = 0xffff_ffff_ffff_ffff;

/// A literal's encoding and depth from the state of [`enc_items`]: an array
/// puts its element count in front and nests one level deeper than its
/// elements (an empty one is one level deep).
pub open spec fn finish(v: JsonValue, r: Result<(Seq<u8>, Option<nat>), EncodeFailure>) -> Result<
    (Seq<u8>, nat),
    EncodeFailure,
> {
    match r {
        Err(e) => Err(e),
        Ok((b, d)) => match v {
            JsonValue::Array(items) => {
                let depth = match d {
                    Some(x) => x + 1,
                    None => 1,
                };
                if depth > MAX_DEPTH {
                    Err(EncodeFailure::DepthMismatch)
                } else {
                    Ok((uleb128(items@.len()) + b, depth))
                }
            },
            _ => Ok((b, 0)),
        },
    }
}

/// For a scalar, its encoding; for an array, the encodings of its first `k`
/// elements run together and their common depth, or the first failure met
/// going from the first element on (an element that fails, or one whose
/// depth differs from those before it).
pub open spec fn enc_items(t: FunctionArgType, v: JsonValue, k: nat) -> Result<
    (Seq<u8>, Option<nat>),
    EncodeFailure,
>
    decreases v, k,
{
    match v {
        JsonValue::Null => Err(EncodeFailure::Unsupported),
        JsonValue::Object => Err(EncodeFailure::Unsupported),
        JsonValue::Bool(b) => scalar_result(
            t,
            if b {
                true_text()
            } else {
                false_text()
            },
        ),
        JsonValue::Number(s) => scalar_result(t, s@),
        JsonValue::Str(s) => scalar_result(t, s@),
        JsonValue::Array(items) => {
            if k == 0 || k > items@.len() {
                Ok((seq![], None))
            } else {
                let child = items@[k - 1];
                match enc_items(t, v, (k - 1) as nat) {
                    Err(e) => Err(e),
                    Ok((b, d)) => match finish(child, enc_items(t, child, item_count(child))) {
                        Err(e) => Err(e),
                        Ok((cb, cd)) => if d is Some && d != Some(cd) {
                            Err(EncodeFailure::DepthMismatch)
                        } else {
                            Ok((b + cb, Some(cd)))
                        },
                    },
                }
            }
        },
    }
}

/// The encoding and depth of literal `v` read as type `t`.
pub open spec fn encode_json(t: FunctionArgType, v: JsonValue) -> Result<(Seq<u8>, nat), EncodeFailure> {
    finish(v, enc_items(t, v, item_count(v)))
}

/// Whether the argument type is written as a string, so that a bare value
/// is taken as a JSON string.
pub open spec fn is_textual(t: FunctionArgType) -> bool {
    t is Address || t is Signer || t is Hex || t is String || t is Raw
}

/// The name of a type, in lowercase as `str::to_lowercase` gives it.
pub uninterp spec fn lower_of(s: Seq<char>) -> Seq<char>;

/// Relies on `str::to_lowercase`: the result depends on the characters
/// alone.
#[verifier::external_body]
fn to_lowercase(s: &str) -> (r: String)
    ensures
        r@ == lower_of(s@),
{
    s.to_lowercase()
}

fn name_chars(t: FunctionArgType) -> (r: Vec<char>)
    ensures
        r@ == arg_type_name(t),
{
    let r = match t {
        FunctionArgType::Signer => vec!['s', 'i', 'g', 'n', 'e', 'r'],
        FunctionArgType::Address => vec!['a', 'd', 'd', 'r', 'e', 's', 's'],
        FunctionArgType::Bool => vec!['b', 'o', 'o', 'l'],
        FunctionArgType::Hex => vec!['h', 'e', 'x'],
        FunctionArgType::String => vec!['s', 't', 'r', 'i', 'n', 'g'],
        FunctionArgType::U8 => vec!['u', '8'],
        FunctionArgType::U16 => vec!['u', '1', '6'],
        FunctionArgType::U32 => vec!['u', '3', '2'],
        FunctionArgType::U64 => vec!['u', '6', '4'],
        FunctionArgType::U128 => vec!['u', '1', '2', '8'],
        FunctionArgType::U256 => vec!['u', '2', '5', '6'],
        FunctionArgType::Raw => vec!['r', 'a', 'w'],
    };
    assert(r@ =~= arg_type_name(t));
    r
}

/// All argument types, in the order in which names are looked up.
fn all_types() -> (r: Vec<FunctionArgType>)
    ensures
        r@ == seq![
            FunctionArgType::Signer,
            FunctionArgType::Address,
            FunctionArgType::Bool,
            FunctionArgType::Hex,
            FunctionArgType::String,
            FunctionArgType::U8,
            FunctionArgType::U16,
            FunctionArgType::U32,
            FunctionArgType::U64,
            FunctionArgType::U128,
            FunctionArgType::U256,
            FunctionArgType::Raw,
        ],
{
    vec![
        FunctionArgType::Signer,
        FunctionArgType::Address,
        FunctionArgType::Bool,
        FunctionArgType::Hex,
        FunctionArgType::String,
        FunctionArgType::U8,
        FunctionArgType::U16,
        FunctionArgType::U32,
        FunctionArgType::U64,
        FunctionArgType::U128,
        FunctionArgType::U256,
        FunctionArgType::Raw,
    ]
}

impl FunctionArgType {
    /// The type with the lowercase name `name`.
    pub fn from_lowercase(name: &str) -> (r: Result<FunctionArgType, ArgError>)
        ensures
            match r {
                Ok(t) => arg_type_named(name@) == Some(t),
                Err(ArgError::InvalidArgType(m)) => arg_type_named(name@) is None && m@ == name@,
                Err(_) => false,
            },
    {
        let cs = chars_of(name);
        let types = all_types();
        let mut i: usize = 0;
        while i < types.len()
            invariant
                i <= types@.len(),
                types@.len() == 12,
                cs@ == name@,
                types@ == all_types_spec(),
                forall|j: int| 0 <= j < i ==> cs@ != arg_type_name(#[trigger] types@[j]),
            decreases types@.len() - i,
        {
            let w = name_chars(types[i]);
            if word_at(&cs, 0, cs.len(), &w) {
                assert(cs@.subrange(0, cs@.len() as int) == cs@);
                proof {
                    lemma_named_first(name@, i as int);
                }
                return Ok(types[i]);
            }
            assert(cs@.subrange(0, cs@.len() as int) == cs@);
            i += 1;
        }
        proof {
            assert(forall|j: int| 0 <= j < 12 ==> name@ != arg_type_name(#[trigger] all_types_spec()[j]));
            assert(name@ != arg_type_name(all_types_spec()[0]));
            assert(name@ != arg_type_name(all_types_spec()[1]));
            assert(name@ != arg_type_name(all_types_spec()[2]));
            assert(name@ != arg_type_name(all_types_spec()[3]));
            assert(name@ != arg_type_name(all_types_spec()[4]));
            assert(name@ != arg_type_name(all_types_spec()[5]));
            assert(name@ != arg_type_name(all_types_spec()[6]));
            assert(name@ != arg_type_name(all_types_spec()[7]));
            assert(name@ != arg_type_name(all_types_spec()[8]));
            assert(name@ != arg_type_name(all_types_spec()[9]));
            assert(name@ != arg_type_name(all_types_spec()[10]));
            assert(name@ != arg_type_name(all_types_spec()[11]));
        }
        Err(ArgError::InvalidArgType(string_of(&cs, 0, cs.len())))
    }

    /// The type named `s`, in any case.
    pub fn from_str(s: &str) -> (r: Result<FunctionArgType, ArgError>)
        ensures
            match r {
                Ok(t) => arg_type_named(lower_of(s@)) == Some(t),
                Err(ArgError::InvalidArgType(m)) => arg_type_named(lower_of(s@)) is None && m@
                    == lower_of(s@),
                Err(_) => false,
            },
    {
        let lowered = to_lowercase(s);
        FunctionArgType::from_lowercase(lowered.as_str())
    }

    /// The type's name.
    pub fn to_display_string(&self) -> (r: String)
        ensures
            r@ == arg_type_name(*self),
    {
        let mut r = String::new();
        push_chars(&mut r, &name_chars(*self));
        r
    }

    /// Parses a standalone (not vector) argument into its canonical encoding.
    pub fn parse_arg_str(&self, arg: &str) -> (r: Result<Vec<u8>, ArgError>)
        ensures
            match r {
                Ok(b) => scalar_enc(*self, arg@) == Some(b@),
                Err(e) => scalar_enc(*self, arg@) is None && scalar_error(*self, e, arg@),
            },
    {
        match self {
            FunctionArgType::Signer | FunctionArgType::Address => parse_address(arg),
            FunctionArgType::Bool => {
                let cs = chars_of(arg);
                let t = vec!['t', 'r', 'u', 'e'];
                let f = vec!['f', 'a', 'l', 's', 'e'];
                assert(t@ =~= true_text());
                assert(f@ =~= false_text());
                assert(cs@.subrange(0, cs@.len() as int) == cs@);
                if word_at(&cs, 0, cs.len(), &t) {
                    Ok(vec![1u8])
                } else if word_at(&cs, 0, cs.len(), &f) {
                    Ok(vec![0u8])
                } else {
                    Err(ArgError::Parse(string_of(&cs, 0, cs.len())))
                }
            },
            FunctionArgType::Hex => match decode_hex(arg) {
                Ok(b) => {
                    let mut out: Vec<u8> = Vec::new();
                    write_u64_as_uleb128(&mut out, b.len());
                    let mut b = b;
                    out.append(&mut b);
                    Ok(out)
                },
                Err(e) => Err(e),
            },
            FunctionArgType::String => {
                let mut out: Vec<u8> = Vec::new();
                let mut bytes = arg.as_bytes_vec();
                write_u64_as_uleb128(&mut out, bytes.len());
                out.append(&mut bytes);
                Ok(out)
            },
            FunctionArgType::Raw => decode_hex(arg),
            _ => {
                let cs = chars_of(arg);
                let width: usize = match self {
                    FunctionArgType::U8 => 1,
                    FunctionArgType::U16 => 2,
                    FunctionArgType::U32 => 4,
                    FunctionArgType::U64 => 8,
                    FunctionArgType::U128 => 16,
                    _ => 32,
                };
                match parse_decimal_le(&cs, width) {
                    Some(b) => Ok(b),
                    None => {
                        assert(cs@.subrange(0, cs@.len() as int) == cs@);
                        Err(ArgError::Parse(string_of(&cs, 0, cs.len())))
                    },
                }
            },
        }
    }

    /// Encodes a literal: a scalar by its type's parser, an array as its
    /// element count followed by its elements, all of which must nest to the
    /// same depth.
    pub fn parse_arg_json(&self, arg: &JsonValue) -> (r: Result<ArgWithType, ArgError>)
        ensures
            match r {
                Ok(a) => encode_json(*self, *arg) == Ok::<(Seq<u8>, nat), EncodeFailure>(
                    (a.arg@, a.vector_depth as nat),
                ),
                Err(e) => match encode_json(*self, *arg) {
                    Ok(_) => false,
                    Err(f) => reports(*self, e, f),
                },
            },
        decreases arg,
    {
        match arg {
            JsonValue::Null => Err(ArgError::UnsupportedLiteral),
            JsonValue::Object => Err(ArgError::UnsupportedLiteral),
            JsonValue::Bool(value) => {
                let text = if *value {
                    "true"
                } else {
                    "false"
                };
                proof {
                    reveal_strlit("true");
                    reveal_strlit("false");
                }
                assert(text@ == true_text() || !*value);
                assert(text@ == false_text() || *value);
                match self.parse_arg_str(text) {
                    Ok(b) => Ok(ArgWithType { vector_depth: 0, arg: b }),
                    Err(e) => Err(e),
                }
            },
            JsonValue::Number(value) => match self.parse_arg_str(value.as_str()) {
                Ok(b) => Ok(ArgWithType { vector_depth: 0, arg: b }),
                Err(e) => Err(e),
            },
            JsonValue::Str(value) => match self.parse_arg_str(value.as_str()) {
                Ok(b) => Ok(ArgWithType { vector_depth: 0, arg: b }),
                Err(e) => Err(e),
            },
            JsonValue::Array(items) => {
                let mut bcs: Vec<u8> = Vec::new();
                write_u64_as_uleb128(&mut bcs, items.len());
                let ghost prefix = bcs@;
                let mut common: Option<u64> = None;
                let mut i: usize = 0;
                while i < items.len()
                    invariant
                        i <= items@.len(),
                        prefix == uleb128(items@.len()),
                        *arg == JsonValue::Array(*items),
                        enc_items(*self, *arg, i as nat) matches Ok((b, d)) && bcs@ == prefix + b
                            && d == match common {
                            Some(x) => Some(x as nat),
                            None => None::<nat>,
                        },
                    decreases items@.len() - i,
                {
                    proof {
                        vstd::std_specs::vec::axiom_vec_index_decreases(*items, i as int);
                    }
                    let ArgWithType { vector_depth: sub_depth, arg: mut sub_bcs } =
                        match self.parse_arg_json(&items[i]) {
                        Ok(a) => a,
                        Err(e) => {
                            proof {
                                lemma_failure_persists(*self, *arg, (i + 1) as nat, items@.len());
                            }
                            return Err(e);
                        },
                    };
                    match common {
                        Some(check) => {
                            if check != sub_depth {
                                proof {
                                    lemma_failure_persists(*self, *arg, (i + 1) as nat, items@.len());
                                }
                                return Err(ArgError::DepthMismatch);
                            }
                        },
                        None => {},
                    }
                    common = Some(sub_depth);
                    bcs.append(&mut sub_bcs);
                    i += 1;
                    assert(bcs@ =~= prefix + enc_items(*self, *arg, i as nat)->Ok_0.0);
                }
                let depth = match common {
                    Some(d) => {
                        if d == MAX_DEPTH {
                            return Err(ArgError::DepthMismatch);
                        }
                        d + 1
                    },
                    None => 1,
                };
                Ok(ArgWithType { vector_depth: depth, arg: bcs })
            },
        }
    }
}

/// The position of the first `:` at or after `k`.
pub open spec fn colon_from(s: Seq<char>, k: nat) -> Option<nat>
    decreases s.len() - k,
{
    if k >= s.len() {
        None
    } else if s[k as int] == ':' {
        Some(k)
    } else {
        colon_from(s, k + 1)
    }
}

/// The JSON text of a value: a bare (non-array) value of a textual type is
/// put between double quotes, so that it reads as a JSON string.
pub open spec fn json_text(t: FunctionArgType, v: Seq<char>) -> Seq<char> {
    if !(v.len() > 0 && v[0] == '[') && is_textual(t) {
        seq!['"'] + v + seq!['"']
    } else {
        v
    }
}

/// Splits `<type>:<value>` at its first colon into the type and the JSON
/// text of the value.
pub fn split_typed_arg(s: &str) -> (r: Result<(FunctionArgType, String), ArgError>)
    ensures
        match colon_from(s@, 0) {
            None => r matches Err(ArgError::MissingType),
            Some(c) => match arg_type_named(lower_of(s@.subrange(0, c as int))) {
                None => r matches Err(ArgError::InvalidArgType(m)) && m@ == lower_of(
                    s@.subrange(0, c as int),
                ),
                Some(t) => r matches Ok((t2, j)) && t2 == t && j@ == json_text(
                    t,
                    s@.subrange(c + 1 as int, s@.len() as int),
                ),
            },
        },
{
    let cs = chars_of(s);
    let n = cs.len();
    let mut c: usize = 0;
    while c < n && cs[c] != ':'
        invariant
            c <= n,
            n == cs@.len(),
            cs@ == s@,
            colon_from(s@, 0) == colon_from(s@, c as nat),
        decreases n - c,
    {
        c += 1;
    }
    if c == n {
        return Err(ArgError::MissingType);
    }
    let ty_text = string_of(&cs, 0, c);
    let ty = match FunctionArgType::from_str(ty_text.as_str()) {
        Ok(t) => t,
        Err(e) => {
            return Err(e);
        },
    };
    let value = string_of(&cs, c + 1, n);
    let bracket = c + 1 < n && cs[c + 1] == '[';
    let textual = match ty {
        FunctionArgType::Address | FunctionArgType::Signer | FunctionArgType::Hex
        | FunctionArgType::String | FunctionArgType::Raw => true,
        _ => false,
    };
    if !bracket && textual {
        let mut quoted = String::new();
        push_char(&mut quoted, '"');
        quoted.append(value.as_str());
        push_char(&mut quoted, '"');
        Ok((ty, quoted))
    } else {
        Ok((ty, value))
    }
}

impl ArgWithType {
    /// Encodes the literal `json` as an argument of type `ty`.
    pub fn from_json(ty: FunctionArgType, json: &JsonValue) -> (r: Result<ArgWithType, ArgError>)
        ensures
            match r {
                Ok(a) => encode_json(ty, *json) == Ok::<(Seq<u8>, nat), EncodeFailure>(
                    (a.arg@, a.vector_depth as nat),
                ),
                Err(e) => match encode_json(ty, *json) {
                    Ok(_) => false,
                    Err(f) => reports(ty, e, f),
                },
            },
    {
        ty.parse_arg_json(json)
    }
}

/// Arguments, each with its type.
pub struct ArgWithTypeVec {
    pub args: Vec<ArgWithType>,
}

/// The text in which the value that `text` denotes as type `t` is written
/// back: decimal for integers, `0x` and lowercase hex for bytes and
/// addresses, the text itself for booleans and strings.
pub open spec fn canonical_text(t: FunctionArgType, text: Seq<char>) -> Seq<char> {
    match t {
        FunctionArgType::Signer | FunctionArgType::Address => seq!['0', 'x'] + hex_lower(
            address_of(text)->Some_0,
        ),
        FunctionArgType::Hex | FunctionArgType::Raw => seq!['0', 'x'] + hex_lower(
            hex_decoded(strip_0x(text)),
        ),
        FunctionArgType::Bool | FunctionArgType::String => text,
        _ => dec_str(decimal_value(text)),
    }
}

/// Encoding is stable under re-reading: the value a scalar's text encodes,
/// written back in its canonical text, encodes to the same bytes.
pub proof fn lemma_reencode_stable(t: FunctionArgType, text: Seq<char>)
    requires
        scalar_enc(t, text) is Some,
    ensures
        scalar_enc(t, canonical_text(t, text)) == scalar_enc(t, text),
{
    let c = canonical_text(t, text);
    match t {
        FunctionArgType::Signer | FunctionArgType::Address => {
            let a = address_of(text)->Some_0;
            lemma_address_len(text);
            lemma_hex_round_trip(a);
            let h = hex_lower(a);
            assert(c.subrange(2, 66) =~= h);
            assert(!is_base58_char(c[0]));
            assert(!all_base58(c));
            assert(all_hex(c.subrange(2, c.len() as int)));
            assert(zeros(0) + h =~= h);
        },
        FunctionArgType::Hex | FunctionArgType::Raw => {
            let b = hex_decoded(strip_0x(text));
            lemma_hex_round_trip(b);
            lemma_strip_0x(hex_lower(b));
        },
        FunctionArgType::Bool | FunctionArgType::String => {},
        _ => {
            lemma_decimal_round_trip(decimal_value(text));
        },
    }
}

/// An address is 32 bytes long.
pub proof fn lemma_address_len(text: Seq<char>)
    requires
        address_of(text) is Some,
    ensures
        address_of(text)->Some_0.len() == 32,
{
    if ss58_address(text) is None {
        if has_0x(text) && text.len() - 2 <= 64 && all_hex(text.subrange(2, text.len() as int)) {
            assert((zeros((66 - text.len()) as nat) + text.subrange(2, text.len() as int)).len() == 64);
        }
    }
}

/// Once the elements up to `k` fail, every longer run fails the same way.
proof fn lemma_failure_persists(t: FunctionArgType, v: JsonValue, k: nat, n: nat)
    requires
        v is Array,
        0 < k <= n <= item_count(v),
        enc_items(t, v, k) is Err,
    ensures
        enc_items(t, v, n) == enc_items(t, v, k),
    decreases n - k,
{
    if n > k {
        lemma_failure_persists(t, v, k, (n - 1) as nat);
    }
}

pub open spec fn all_types_spec() -> Seq<FunctionArgType> {
    seq![
        FunctionArgType::Signer,
        FunctionArgType::Address,
        FunctionArgType::Bool,
        FunctionArgType::Hex,
        FunctionArgType::String,
        FunctionArgType::U8,
        FunctionArgType::U16,
        FunctionArgType::U32,
        FunctionArgType::U64,
        FunctionArgType::U128,
        FunctionArgType::U256,
        FunctionArgType::Raw,
    ]
}

proof fn lemma_named_first(s: Seq<char>, i: int)
    requires
        0 <= i < 12,
        s == arg_type_name(all_types_spec()[i]),
        forall|j: int| 0 <= j < i ==> s != arg_type_name(#[trigger] all_types_spec()[j]),
    ensures
        arg_type_named(s) == Some(all_types_spec()[i]),
{
    assert(i > 0 ==> s != arg_type_name(all_types_spec()[0]));
    assert(i > 1 ==> s != arg_type_name(all_types_spec()[1]));
    assert(i > 2 ==> s != arg_type_name(all_types_spec()[2]));
    assert(i > 3 ==> s != arg_type_name(all_types_spec()[3]));
    assert(i > 4 ==> s != arg_type_name(all_types_spec()[4]));
    assert(i > 5 ==> s != arg_type_name(all_types_spec()[5]));
    assert(i > 6 ==> s != arg_type_name(all_types_spec()[6]));
    assert(i > 7 ==> s != arg_type_name(all_types_spec()[7]));
    assert(i > 8 ==> s != arg_type_name(all_types_spec()[8]));
    assert(i > 9 ==> s != arg_type_name(all_types_spec()[9]));
    assert(i > 10 ==> s != arg_type_name(all_types_spec()[10]));
}

} // verus!
