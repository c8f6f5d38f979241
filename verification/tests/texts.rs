use huff_parser::hashing::selector;
use huff_parser::sizes::{size_word, table_size};
use huff_parser::text::{decimal_string, primitive_string, signature_string, type_string};
use huff_parser::{PrimitiveEVMType, TableKind, TokenKind};
use huff_utils::types::PrimitiveEVMType as Theirs;

#[test]
fn decimal_numbers() {
    assert_eq!(decimal_string(0), "0");
    assert_eq!(decimal_string(7), "7");
    assert_eq!(decimal_string(10), "10");
    assert_eq!(decimal_string(256), "256");
    assert_eq!(decimal_string(1_000_000), "1000000");
    assert_eq!(decimal_string(u128::MAX), u128::MAX.to_string());
}

#[test]
fn names_of_types() {
    assert_eq!(primitive_string(PrimitiveEVMType::Address), "address");
    assert_eq!(primitive_string(PrimitiveEVMType::String), "string");
    assert_eq!(primitive_string(PrimitiveEVMType::Bool), "bool");
    assert_eq!(primitive_string(PrimitiveEVMType::DynBytes), "bytes");
    assert_eq!(primitive_string(PrimitiveEVMType::Uint(256)), "uint256");
    assert_eq!(primitive_string(PrimitiveEVMType::Int(8)), "int8");
    assert_eq!(primitive_string(PrimitiveEVMType::Bytes(32)), "bytes32");
}

#[test]
fn names_of_array_types() {
    let array = |sizes: Vec<usize>| TokenKind::ArrayType(PrimitiveEVMType::Uint(8), sizes);
    assert_eq!(type_string(&array(vec![0])), "uint8[]");
    assert_eq!(type_string(&array(vec![5])), "uint8[5]");
    assert_eq!(type_string(&array(vec![2, 0, 10])), "uint8[2][][10]");
    assert_eq!(type_string(&array(vec![])), "uint8");
    assert_eq!(type_string(&TokenKind::PrimitiveType(PrimitiveEVMType::Bool)), "bool");
    assert_eq!(type_string(&TokenKind::Comma), "");
}

#[test]
fn names_of_types_agree_with_the_lexer_crate() {
    let pairs = [
        (PrimitiveEVMType::Address, Theirs::Address),
        (PrimitiveEVMType::String, Theirs::String),
        (PrimitiveEVMType::Bool, Theirs::Bool),
        (PrimitiveEVMType::DynBytes, Theirs::DynBytes),
        (PrimitiveEVMType::Uint(64), Theirs::Uint(64)),
        (PrimitiveEVMType::Int(128), Theirs::Int(128)),
        (PrimitiveEVMType::Bytes(4), Theirs::Bytes(4)),
    ];
    for (ours, theirs) in pairs {
        assert_eq!(primitive_string(ours), theirs.to_string());
    }
}

#[test]
fn signatures() {
    let types = |names: &[&str]| names.iter().map(|s| s.to_string()).collect::<Vec<String>>();
    assert_eq!(signature_string("f", &types(&[])), "f()");
    assert_eq!(signature_string("f", &types(&["uint256"])), "f(uint256)");
    assert_eq!(
        signature_string("transfer", &types(&["address", "uint256"])),
        "transfer(address,uint256)"
    );
    assert_eq!(signature_string("", &types(&["a", "", "b"])), "(a,,b)");
}

#[test]
fn selectors() {
    let types = |names: &[&str]| names.iter().map(|s| s.to_string()).collect::<Vec<String>>();
    assert_eq!(selector("test", &types(&[])), [0xf8, 0xa8, 0xfd, 0x6d]);
    assert_eq!(selector("test", &types(&["uint256"])), [0x29, 0xe9, 0x9f, 0x07]);
    assert_eq!(selector("balanceOf", &types(&["address"])), [0x70, 0xa0, 0x82, 0x31]);
    assert_eq!(
        selector("transferFrom", &types(&["address", "address", "uint256"])),
        [0x23, 0xb8, 0x72, 0xdd]
    );
}

#[test]
fn size_words() {
    let mut expected = [0u8; 32];
    assert_eq!(size_word(0), expected);
    expected[31] = 0x06;
    assert_eq!(size_word(6), expected);
    expected[31] = 0x10;
    assert_eq!(size_word(10), expected);
    expected[30] = 0x01;
    expected[31] = 0x28;
    assert_eq!(size_word(128), expected);
    let w = size_word(u128::MAX);
    // 340282366920938463463374607431768211455 has 39 digits
    assert_eq!(w[12], 0x03);
    assert_eq!(w[13], 0x40);
    assert_eq!(w[31], 0x55);
    assert_eq!(w[11], 0);
}

#[test]
fn size_words_agree_with_the_outside_function() {
    for n in [0u128, 1, 9, 10, 99, 100, 12345, 4096] {
        assert_eq!(size_word(n), huff_utils::bytes_util::str_to_bytes32(&n.to_string()));
    }
}

#[test]
fn sizes_of_empty_tables() {
    let none = Vec::new();
    assert_eq!(table_size(TableKind::JumpTable, &none), 0);
    assert_eq!(table_size(TableKind::JumpTablePacked, &none), 0);
    assert_eq!(table_size(TableKind::CodeTable, &none), 0);
}
