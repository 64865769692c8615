use smove::address::{hex_to_address, parse_address, ss58_to_address};
use smove::args::{ArgWithType, ArgWithTypeVec};
use smove::bundle::{
    encode_bundle, ids_are_distinct, publish_order, sort_modules, ModuleDescriptor, ModuleId,
    SortError,
};
use smove::commands::{Bundle, CallHash, CreateTransaction, GasToWeight, Node, Rpc, GetModuleAbi};
use smove::error::ArgError;
use smove::hex_codec::{decode_hex, HexEncodedBytes};
use smove::rpc::{gas_to_weight_line, Estimation, Weight, EXECUTED};
use smove::script_args::ScriptFunctionArguments;
use smove::script_transaction::ScriptTransaction;
use smove::type_args::{MoveType, TypeArgVec, TypeTag};

const ALICE_SS58: &str = "5GrwvaEF5zXb26Fz9rcQpDWS57CtERHpNehXCPcNoHGKutQY";
const ALICE_HEX: &str = "0xd43593c715fdd31c61141abd04a99fd6822c8558854ccde39a5684e7a56da27d";

fn id(name: &str) -> ModuleId {
    ModuleId { address: vec![0u8; 32], name: name.to_string() }
}

fn module(name: &str, deps: &[&str]) -> ModuleDescriptor {
    ModuleDescriptor {
        id: id(name),
        dependencies: deps.iter().map(|d| id(d)).collect(),
        bytecode: name.as_bytes().to_vec(),
    }
}

#[test]
fn ss58_and_hex_name_the_same_account() {
    let a = parse_address(ALICE_SS58).unwrap();
    let b = parse_address(ALICE_HEX).unwrap();
    assert_eq!(a, b);
    assert_eq!(a.len(), 32);
    assert_eq!(a[0], 0xd4);
}

#[test]
fn ss58_with_bad_checksum_is_refused() {
    assert_eq!(ss58_to_address("5GrwvaEF5zXb26Fz9rcQpDWS57CtERHpNehXCPcNoHGKutQZ"), None);
    assert!(matches!(
        parse_address("5GrwvaEF5zXb26Fz9rcQpDWS57CtERHpNehXCPcNoHGKutQZ"),
        Err(ArgError::AddressFormat(_))
    ));
}

#[test]
fn short_hex_addresses_are_padded() {
    let mut one = vec![0u8; 32];
    one[31] = 1;
    assert_eq!(parse_address("0x1").unwrap(), one);
    assert_eq!(hex_to_address("0x").unwrap(), vec![0u8; 32]);
    let bare = "0000000000000000000000000000000000000000000000000000000000000001";
    assert_eq!(parse_address(bare).unwrap(), one);
    assert_eq!(hex_to_address("1"), None);
    let long = format!("0x{}", "1".repeat(65));
    assert!(matches!(parse_address(&long), Err(ArgError::AddressFormat(_))));
    assert!(matches!(parse_address("0xzz"), Err(ArgError::AddressFormat(_))));
}

#[test]
fn hex_strings_decode_and_display() {
    assert_eq!(decode_hex("0x0a0B").unwrap(), vec![10, 11]);
    assert_eq!(decode_hex("ff").unwrap(), vec![255]);
    assert_eq!(decode_hex("").unwrap(), Vec::<u8>::new());
    assert!(matches!(decode_hex("0x1"), Err(ArgError::Decode(ref m)) if m == "0x1"));
    let h = HexEncodedBytes::from_str("0xABcd").unwrap();
    assert_eq!(h.inner(), &[0xab, 0xcd]);
    assert_eq!(h.to_display_string(), "0xabcd");
}

#[test]
fn modules_are_ordered_after_their_dependencies() {
    let mods = vec![module("A", &["B"]), module("B", &["C"]), module("C", &[])];
    assert_eq!(publish_order(&mods).unwrap(), vec![2, 1, 0]);
    let codes = sort_modules(&mods).unwrap();
    assert_eq!(codes, vec![b"C".to_vec(), b"B".to_vec(), b"A".to_vec()]);
}

#[test]
fn dependencies_outside_the_set_are_ignored() {
    let mods = vec![module("A", &["B"]), module("B", &["C"])];
    let codes = sort_modules(&mods).unwrap();
    assert_eq!(codes, vec![b"B".to_vec(), b"A".to_vec()]);
}

#[test]
fn order_follows_identifiers_between_independent_modules() {
    let mods = vec![module("Z", &[]), module("M", &["Z"]), module("B", &[])];
    let codes = sort_modules(&mods).unwrap();
    assert_eq!(codes, vec![b"B".to_vec(), b"Z".to_vec(), b"M".to_vec()]);
}

#[test]
fn cyclic_dependencies_are_reported() {
    let mods = vec![module("A", &["B"]), module("B", &["A"])];
    assert!(matches!(sort_modules(&mods), Err(SortError::CyclicDependency(ref c)) if c == &vec![0, 1, 0]));
    let selfdep = vec![module("A", &["A"])];
    assert!(matches!(publish_order(&selfdep), Err(SortError::CyclicDependency(ref c)) if c == &vec![0, 0]));
    let longer = vec![module("C", &["A"]), module("B", &["C"]), module("A", &["B"]), module("D", &[])];
    assert!(matches!(publish_order(&longer), Err(SortError::CyclicDependency(ref c)) if c == &vec![2, 1, 0, 2]));
}

#[test]
fn duplicate_identifiers_are_detected() {
    assert!(ids_are_distinct(&vec![module("A", &[]), module("B", &[])]));
    assert!(!ids_are_distinct(&vec![module("A", &[]), module("A", &["B"])]));
}

#[test]
fn bundle_is_count_then_prefixed_modules() {
    let b = encode_bundle(&vec![vec![1, 2], vec![], vec![3]]);
    assert_eq!(b, vec![3, 2, 1, 2, 0, 1, 3]);
}

#[test]
fn script_transaction_encoding() {
    let tx = ScriptTransaction {
        bytecode: vec![1, 2],
        args: vec![vec![3]],
        type_args: vec![
            TypeTag::U8,
            TypeTag::Vector(Box::new(TypeTag::U64)),
            TypeTag::U256,
        ],
    };
    assert_eq!(tx.encode(), vec![2, 1, 2, 1, 1, 3, 3, 1, 6, 2, 10]);
}

#[test]
fn create_transaction_collects_arguments() {
    let cmd = CreateTransaction {
        compiled_script_path: "s.mv".to_string(),
        script_function_args: ScriptFunctionArguments {
            type_arg_vec: TypeArgVec { type_args: vec![MoveType::from_str("u16").unwrap()] },
            arg_vec: ArgWithTypeVec {
                args: vec![ArgWithType { vector_depth: 0, arg: vec![5] }],
            },
        },
    };
    assert_eq!(cmd.script_function_args.args().unwrap(), vec![vec![5u8]]);
    let tx = cmd.transaction(vec![9]).unwrap();
    assert_eq!(tx.type_args, vec![TypeTag::U16]);
    assert_eq!(tx.encode(), vec![1, 9, 1, 1, 5, 1, 8]);
    let bad = CreateTransaction {
        compiled_script_path: "s.mv".to_string(),
        script_function_args: ScriptFunctionArguments {
            type_arg_vec: TypeArgVec { type_args: vec![MoveType::from_str("&u8").unwrap()] },
            arg_vec: ArgWithTypeVec { args: vec![] },
        },
    };
    assert!(matches!(bad.transaction(vec![]), Err(ArgError::TypeConversion)));
}

#[test]
fn failed_execution_shows_no_gas() {
    let e = Estimation {
        gas_used: 500,
        vm_status_code: 4002,
        total_weight_including_gas_used: Weight { ref_time: 7, proof_size: 8 },
    };
    assert_eq!(
        e.to_display_string(),
        "Estimate (gas_used: 0, total_extrinsic cost with gas_used: Weight { ref_time: 0, proof_size: 0 }, vm_status_code: OUT_OF_GAS)"
    );
}

#[test]
fn executed_estimation_shows_figures() {
    let e = Estimation {
        gas_used: 500,
        vm_status_code: EXECUTED,
        total_weight_including_gas_used: Weight { ref_time: 7, proof_size: 8 },
    };
    assert_eq!(
        e.to_display_string(),
        "Estimate (gas_used: 500, total_extrinsic cost with gas_used: Weight { ref_time: 7, proof_size: 8 }, vm_status_code: EXECUTED)"
    );
}

#[test]
fn weight_lines() {
    let w = Weight { ref_time: 10, proof_size: 0 };
    assert_eq!(w.to_display_string(), "Weight (ref_time: 10, proof_size: 0)");
    assert_eq!(
        gas_to_weight_line(3, &w),
        "Value of 3 gas converted to weight has a value of Weight (ref_time: 10, proof_size: 0)"
    );
    assert_eq!(GasToWeight { gas: 3 }.method(), "mvm_gasToWeight");
}

#[test]
fn call_hash_of_empty_transaction() {
    let h = CallHash::call_hash(&vec![]);
    assert_eq!(
        h.to_display_string(),
        "0x69217a3079908094e11121d042354a7c1f55b6482ca1a51e1b250dfd1ed0eef9"
    );
}

#[test]
fn bundle_excludes_named_modules() {
    let b = Bundle { name: None, modules_exclude: vec!["foo".to_string()] };
    assert!(b.excludes("foo.mv"));
    assert!(!b.excludes("bar.mv"));
    assert!(!b.excludes("foo"));
    assert_eq!(b.bundle_name("pkg"), "pkg");
    let named = Bundle { name: Some("mine".to_string()), modules_exclude: vec![] };
    assert_eq!(named.bundle_name("pkg"), "mine");
}

#[test]
fn rpc_methods() {
    let r = Rpc::GetModuleAbi {
        cmd: GetModuleAbi { address: "0x1".to_string(), name: "m".to_string() },
    };
    assert_eq!(r.method(), "mvm_getModuleABI");
    assert_eq!(Node::default_url(), "http://localhost:9944/");
}
