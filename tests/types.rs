use smove::error::ArgError;
use smove::type_args::{MoveType, TypeTag};

#[test]
fn vector_of_u8_parses() {
    let t = MoveType::from_str("vector<u8>").unwrap();
    assert!(matches!(t, MoveType::Vector { ref items } if matches!(**items, MoveType::U8)));
    assert_eq!(t.to_display_string(), "vector<u8>");
}

#[test]
fn mutable_reference_to_signer_parses() {
    let t = MoveType::from_str("&mut signer").unwrap();
    assert!(matches!(t, MoveType::Reference { mutable: true, ref to } if matches!(**to, MoveType::Signer)));
    assert_eq!(t.to_display_string(), "&mut signer");
}

#[test]
fn shared_reference_parses() {
    let t = MoveType::from_str("&u64").unwrap();
    assert!(matches!(t, MoveType::Reference { mutable: false, ref to } if matches!(**to, MoveType::U64)));
    assert_eq!(t.to_display_string(), "&u64");
}

#[test]
fn generic_is_kept_unparsed() {
    let t = MoveType::from_str("SomeGeneric<T>").unwrap();
    assert!(matches!(t, MoveType::Unparsable(ref s) if s == "SomeGeneric<T>"));
    assert_eq!(t.to_display_string(), "unparsable<SomeGeneric<T>>");
}

#[test]
fn parser_never_fails() {
    for s in ["", "&", "&mut ", "vector<", "vector<>", "vector<vector<u8>", "u9", "&&u8", "mut u8", "0x1::m::S"] {
        assert!(MoveType::from_str(s).is_ok());
    }
    let t = MoveType::from_str("&mut vector<T>").unwrap();
    assert!(matches!(t, MoveType::Reference { mutable: true, ref to } if matches!(**to, MoveType::Unparsable(ref s) if s == "vector<T>")));
}

#[test]
fn nested_vectors_and_all_primitives_parse() {
    let t = MoveType::from_str("vector<vector<u256>>").unwrap();
    assert_eq!(t.to_display_string(), "vector<vector<u256>>");
    for s in ["bool", "u8", "u16", "u32", "u64", "u128", "u256", "address", "signer"] {
        let t = MoveType::from_str(s).unwrap();
        assert_eq!(t.to_display_string(), s);
        assert!(!matches!(t, MoveType::Unparsable(_)));
    }
}

#[test]
fn type_tags_of_types() {
    let t = MoveType::from_str("vector<u16>").unwrap();
    assert_eq!(TypeTag::try_from(&t).unwrap(), TypeTag::Vector(Box::new(TypeTag::U16)));
    let r = MoveType::from_str("&u8").unwrap();
    assert!(matches!(TypeTag::try_from(&r), Err(ArgError::TypeConversion)));
    let u = MoveType::from_str("vector<Coin>").unwrap();
    assert!(matches!(TypeTag::try_from(&u), Err(ArgError::TypeConversion)));
    let back = MoveType::from_tag(&TypeTag::Vector(Box::new(TypeTag::Address)));
    assert_eq!(back.to_display_string(), "vector<address>");
}
