use smove::args::{split_typed_arg, ArgWithType, FunctionArgType, JsonValue};
use smove::canonical::write_u64_as_uleb128;
use smove::decimal::parse_decimal_le;
use smove::error::ArgError;

fn num(s: &str) -> JsonValue {
    JsonValue::Number(s.to_string())
}

fn chars(s: &str) -> Vec<char> {
    s.chars().collect()
}

#[test]
fn u64_42_is_eight_little_endian_bytes() {
    let a = FunctionArgType::U64.parse_arg_json(&num("42")).unwrap();
    assert_eq!(a.arg, vec![42, 0, 0, 0, 0, 0, 0, 0]);
    assert_eq!(a.vector_depth, 0);
}

#[test]
fn bool_vector_has_count_then_bytes() {
    let v = JsonValue::Array(vec![JsonValue::Bool(true), JsonValue::Bool(false)]);
    let a = FunctionArgType::Bool.parse_arg_json(&v).unwrap();
    assert_eq!(a.arg, vec![2, 1, 0]);
    assert_eq!(a.vector_depth, 1);
}

#[test]
fn nested_vectors_of_equal_depth_encode() {
    let v = JsonValue::Array(vec![
        JsonValue::Array(vec![num("1"), num("2")]),
        JsonValue::Array(vec![num("3")]),
    ]);
    let a = FunctionArgType::U8.parse_arg_json(&v).unwrap();
    assert_eq!(a.arg, vec![2, 2, 1, 2, 1, 3]);
    assert_eq!(a.vector_depth, 2);
}

#[test]
fn mixed_vector_depth_is_refused() {
    let v = JsonValue::Array(vec![num("1"), JsonValue::Array(vec![num("2")])]);
    let r = FunctionArgType::U8.parse_arg_json(&v);
    assert!(matches!(r, Err(ArgError::DepthMismatch)));
}

#[test]
fn empty_vector_is_one_level_deep() {
    let a = FunctionArgType::U16.parse_arg_json(&JsonValue::Array(vec![])).unwrap();
    assert_eq!(a.arg, vec![0]);
    assert_eq!(a.vector_depth, 1);
}

#[test]
fn empty_and_full_inner_vectors_share_depth() {
    let v = JsonValue::Array(vec![
        JsonValue::Array(vec![]),
        JsonValue::Array(vec![num("7")]),
    ]);
    let a = FunctionArgType::U8.parse_arg_json(&v).unwrap();
    assert_eq!(a.arg, vec![2, 0, 1, 7]);
    assert_eq!(a.vector_depth, 2);
}

#[test]
fn null_and_object_have_no_encoding() {
    assert!(matches!(
        FunctionArgType::U8.parse_arg_json(&JsonValue::Null),
        Err(ArgError::UnsupportedLiteral)
    ));
    assert!(matches!(
        FunctionArgType::U8.parse_arg_json(&JsonValue::Object),
        Err(ArgError::UnsupportedLiteral)
    ));
}

#[test]
fn element_failure_comes_before_later_depth_mismatch() {
    let v = JsonValue::Array(vec![num("300"), JsonValue::Array(vec![])]);
    let r = FunctionArgType::U8.parse_arg_json(&v);
    assert!(matches!(r, Err(ArgError::Parse(ref m)) if m == "300"));
}

#[test]
fn integer_widths() {
    assert_eq!(FunctionArgType::U8.parse_arg_str("255").unwrap(), vec![255]);
    assert!(matches!(FunctionArgType::U8.parse_arg_str("256"), Err(ArgError::Parse(_))));
    assert_eq!(FunctionArgType::U16.parse_arg_str("258").unwrap(), vec![2, 1]);
    assert_eq!(FunctionArgType::U32.parse_arg_str("+7").unwrap(), vec![7, 0, 0, 0]);
    assert_eq!(
        FunctionArgType::U128.parse_arg_str("1").unwrap(),
        [vec![1u8], vec![0u8; 15]].concat()
    );
    assert!(matches!(FunctionArgType::U64.parse_arg_str("-1"), Err(ArgError::Parse(_))));
    assert!(matches!(FunctionArgType::U64.parse_arg_str(""), Err(ArgError::Parse(_))));
    assert!(matches!(FunctionArgType::U64.parse_arg_str("+"), Err(ArgError::Parse(_))));
    assert!(matches!(FunctionArgType::U64.parse_arg_str("1.5"), Err(ArgError::Parse(_))));
}

#[test]
fn u256_bounds() {
    let max = "115792089237316195423570985008687907853269984665640564039457584007913129639935";
    assert_eq!(FunctionArgType::U256.parse_arg_str(max).unwrap(), vec![0xff; 32]);
    let over = "115792089237316195423570985008687907853269984665640564039457584007913129639936";
    assert!(matches!(FunctionArgType::U256.parse_arg_str(over), Err(ArgError::Parse(_))));
    let mut two_pow_128 = vec![0u8; 32];
    two_pow_128[16] = 1;
    assert_eq!(
        FunctionArgType::U256
            .parse_arg_str("340282366920938463463374607431768211456")
            .unwrap(),
        two_pow_128
    );
}

#[test]
fn decimal_parser_leading_zeros() {
    assert_eq!(parse_decimal_le(&chars("0007"), 2), Some(vec![7, 0]));
    assert_eq!(parse_decimal_le(&chars("65536"), 2), None);
    assert_eq!(parse_decimal_le(&chars("12a"), 4), None);
}

#[test]
fn bool_scalars() {
    assert_eq!(FunctionArgType::Bool.parse_arg_str("true").unwrap(), vec![1]);
    assert_eq!(FunctionArgType::Bool.parse_arg_str("false").unwrap(), vec![0]);
    assert!(matches!(FunctionArgType::Bool.parse_arg_str("True"), Err(ArgError::Parse(_))));
}

#[test]
fn string_and_bytes_are_length_prefixed() {
    assert_eq!(FunctionArgType::String.parse_arg_str("hi").unwrap(), vec![2, b'h', b'i']);
    assert_eq!(FunctionArgType::String.parse_arg_str("é").unwrap(), vec![2, 0xc3, 0xa9]);
    assert_eq!(FunctionArgType::Hex.parse_arg_str("0x0a0B").unwrap(), vec![2, 10, 11]);
    assert_eq!(FunctionArgType::Raw.parse_arg_str("0a0b").unwrap(), vec![10, 11]);
    assert!(matches!(FunctionArgType::Hex.parse_arg_str("0x123"), Err(ArgError::Decode(_))));
    assert!(matches!(FunctionArgType::Raw.parse_arg_str("zz"), Err(ArgError::Decode(_))));
}

#[test]
fn long_string_length_uses_two_prefix_bytes() {
    let s = "a".repeat(200);
    let b = FunctionArgType::String.parse_arg_str(&s).unwrap();
    assert_eq!(&b[..2], &[0xc8, 0x01]);
    assert_eq!(b.len(), 202);
}

#[test]
fn uleb128_prefixes() {
    let mut b = vec![9];
    write_u64_as_uleb128(&mut b, 300);
    assert_eq!(b, vec![9, 0xac, 0x02]);
    let mut z = vec![];
    write_u64_as_uleb128(&mut z, 0);
    assert_eq!(z, vec![0]);
    let mut m = vec![];
    write_u64_as_uleb128(&mut m, 127);
    write_u64_as_uleb128(&mut m, 128);
    assert_eq!(m, vec![0x7f, 0x80, 0x01]);
}

#[test]
fn arg_type_names_are_read_in_any_case() {
    assert_eq!(FunctionArgType::from_str("U64").unwrap(), FunctionArgType::U64);
    assert_eq!(FunctionArgType::from_str("Address").unwrap(), FunctionArgType::Address);
    assert_eq!(FunctionArgType::from_str("raw").unwrap(), FunctionArgType::Raw);
    let r = FunctionArgType::from_str("Vector");
    assert!(matches!(r, Err(ArgError::InvalidArgType(ref m)) if m == "vector"));
    assert_eq!(FunctionArgType::U128.to_display_string(), "u128");
    assert_eq!(FunctionArgType::Signer.to_display_string(), "signer");
}

#[test]
fn typed_args_split_at_first_colon() {
    let (t, j) = split_typed_arg("address:0x1").unwrap();
    assert_eq!(t, FunctionArgType::Address);
    assert_eq!(j, "\"0x1\"");
    let (t, j) = split_typed_arg("u8:[1,2]").unwrap();
    assert_eq!(t, FunctionArgType::U8);
    assert_eq!(j, "[1,2]");
    let (t, j) = split_typed_arg("string:a:b").unwrap();
    assert_eq!(t, FunctionArgType::String);
    assert_eq!(j, "\"a:b\"");
    let (_, j) = split_typed_arg("hex:[\"0x01\"]").unwrap();
    assert_eq!(j, "[\"0x01\"]");
    let (_, j) = split_typed_arg("u64:42").unwrap();
    assert_eq!(j, "42");
    assert!(matches!(split_typed_arg("nocolon"), Err(ArgError::MissingType)));
    assert!(matches!(split_typed_arg("int:5"), Err(ArgError::InvalidArgType(_))));
}

#[test]
fn arg_from_json_encodes() {
    let a = ArgWithType::from_json(
        FunctionArgType::Address,
        &JsonValue::Array(vec![JsonValue::Str("0x1".to_string())]),
    )
    .unwrap();
    let mut expected = vec![1u8];
    expected.extend(vec![0u8; 31]);
    expected.push(1);
    assert_eq!(a.arg, expected);
    assert_eq!(a.vector_depth, 1);
}

fn literal(value: serde_json::Value) -> JsonValue {
    match value {
        serde_json::Value::Null => JsonValue::Null,
        serde_json::Value::Bool(b) => JsonValue::Bool(b),
        serde_json::Value::Number(n) => JsonValue::Number(n.to_string()),
        serde_json::Value::String(s) => JsonValue::Str(s),
        serde_json::Value::Array(items) => JsonValue::Array(items.into_iter().map(literal).collect()),
        serde_json::Value::Object(_) => JsonValue::Object,
    }
}

/// Encodes `value` as written after `<ty>:` on the command line.
fn encode(ty: &str, value: &str) -> Result<ArgWithType, ArgError> {
    let (t, text) = split_typed_arg(&format!("{ty}:{value}"))?;
    let json = serde_json::from_str::<serde_json::Value>(&text).unwrap();
    ArgWithType::from_json(t, &literal(json))
}

#[test]
fn encode_text_u64() {
    let a = encode("u64", "42").unwrap();
    assert_eq!(a.arg, 42u64.to_le_bytes().to_vec());
}

#[test]
fn encode_text_bool_vector() {
    assert_eq!(encode("bool", "[true, false]").unwrap().arg, vec![2, 1, 0]);
}

#[test]
fn encode_text_vector_depths() {
    let a = encode("u8", "[[1,2],[3]]").unwrap();
    assert_eq!(a.arg, vec![2, 2, 1, 2, 1, 3]);
    assert!(matches!(encode("u8", "[1,[2]]"), Err(ArgError::DepthMismatch)));
}

#[test]
fn encode_text_bare_and_quoted_strings() {
    assert_eq!(encode("string", "abc").unwrap().arg, vec![3, b'a', b'b', b'c']);
    assert_eq!(encode("hex", "0x0102").unwrap().arg, vec![2, 1, 2]);
    assert_eq!(encode("raw", "0102").unwrap().arg, vec![1, 2]);
    let addrs = encode("address", "[[\"0xace\", \"0xbee\"], []]").unwrap();
    assert_eq!(addrs.vector_depth, 2);
    assert_eq!(addrs.arg.len(), 1 + 1 + 32 * 2 + 1);
    assert!(matches!(encode("u8", "null"), Err(ArgError::UnsupportedLiteral)));
}

#[test]
fn reencoding_canonical_text_is_stable() {
    let first = encode("hex", "0xABCD").unwrap().arg;
    let second = encode("hex", "0xabcd").unwrap().arg;
    assert_eq!(first, second);
    let a = encode("u32", "\"+0042\"").unwrap().arg;
    let b = encode("u32", "42").unwrap().arg;
    assert_eq!(a, b);
    let x = encode("address", "0x1").unwrap().arg;
    let y = encode("address", "0x0000000000000000000000000000000000000000000000000000000000000001").unwrap().arg;
    assert_eq!(x, y);
}
