use starknet_live::provider::digits::{
    decode_hex_felt, decode_hex_hash, parse_number, FromHexError,
};
use starknet_live::provider::models::{
    felt_to_hash, BlockStatus, BlockWithTxHashes, FieldElement, MaybePreConfirmedBlockWithTxHashes,
};
use starknet_live::provider::BlockExt;

type Felt = starknet_rust::core::types::Felt;

fn felt(hex: &str) -> FieldElement {
    FieldElement {
        bytes: Felt::from_hex(hex).unwrap().to_bytes_be(),
    }
}

fn block(status: BlockStatus) -> MaybePreConfirmedBlockWithTxHashes {
    MaybePreConfirmedBlockWithTxHashes::Block(BlockWithTxHashes {
        status,
        block_hash: felt("0x123"),
        block_number: 10,
    })
}

#[test]
fn field_elements_are_read_from_hexadecimal() {
    for (text, expected) in [
        ("0x123", vec![0x01, 0x23]),
        ("0xAbCd", vec![0xab, 0xcd]),
        ("0x0x0x7", vec![0x07]),
        ("ff", vec![0xff]),
        ("0x", vec![]),
        ("", vec![]),
        ("0x000", vec![0, 0]),
    ] {
        assert_eq!(decode_hex_felt(text).unwrap(), expected, "{text}");
    }
}

#[test]
fn what_is_not_hexadecimal_is_refused() {
    for text in ["0xg", "0X12", "0x12 ", "x", "0x-1", "\u{e9}", "0x1\u{e9}", "00x", "00x1"] {
        assert!(decode_hex_felt(text).is_err(), "{text}");
        assert!(decode_hex_hash(text).is_err(), "{text}");
    }
}

#[test]
fn the_first_byte_that_is_no_digit_is_reported() {
    for (text, c, index) in [
        ("0x12g4", 'g', 2),
        // A zero goes before an odd number of bytes.
        ("0x1g3", 'g', 2),
        ("g", 'g', 1),
        ("\u{e9}", '\u{c3}', 0),
        ("0x1\u{e9}", '\u{c3}', 2),
        ("0x12\u{e9}", '\u{c3}', 2),
        ("ab xy", ' ', 3),
    ] {
        let expected = FromHexError::InvalidHexCharacter { c, index };
        assert_eq!(decode_hex_felt(text), Err(expected), "{text}");
        assert_eq!(decode_hex_hash(text).unwrap_err(), expected, "{text}");
    }
}

#[test]
fn hashes_have_a_fixed_width() {
    let mut expected = vec![0; 32];
    expected[30] = 0x01;
    expected[31] = 0x23;
    for text in ["0x123", "0x0123", "0x000000000000123", "123"] {
        assert_eq!(decode_hex_hash(text).unwrap().0, expected);
    }
    assert_eq!(decode_hex_hash("0x").unwrap().0, vec![0; 32]);
    let long = format!("0xff{}", "ab".repeat(32));
    assert_eq!(decode_hex_hash(&long).unwrap().0, vec![0xab; 32]);
}

#[test]
fn the_hash_of_a_head_is_that_of_its_block() {
    for text in ["0x0", "0x123", "0x7fffffffffffffffffffffffffffffff"] {
        assert_eq!(
            decode_hex_hash(text).unwrap(),
            felt_to_hash(&felt(text)),
            "{text}"
        );
    }
}

#[test]
fn numbers_are_read_in_their_radix() {
    assert_eq!(parse_number("101", 2), Some(5));
    assert_eq!(parse_number("101", 10), Some(101));
    assert_eq!(parse_number("+101", 16), Some(257));
    assert_eq!(parse_number("12", 2), None);
    assert_eq!(parse_number("++1", 10), None);
    assert_eq!(parse_number("000000000000000000000000000001", 10), Some(1));
    for text in ["", "+", "+7", "7f", "7", "-7", "18446744073709551616", "0x7"] {
        assert_eq!(parse_number(text, 10), text.parse::<u64>().ok(), "{text}");
        assert_eq!(
            parse_number(text, 16),
            u64::from_str_radix(text, 16).ok(),
            "{text}"
        );
    }
}

#[test]
fn a_block_that_layer_one_accepted_is_final() {
    assert!(block(BlockStatus::AcceptedOnL1).is_finalized());
    assert!(!block(BlockStatus::AcceptedOnL2).is_finalized());
    assert!(!block(BlockStatus::PreConfirmed).is_finalized());
    assert!(!MaybePreConfirmedBlockWithTxHashes::PreConfirmedBlock.is_finalized());
}

#[test]
fn a_confirmed_block_has_a_cursor() {
    let cursor = block(BlockStatus::AcceptedOnL2).cursor().unwrap();
    assert_eq!(cursor.number, 10);
    assert_eq!(cursor.hash, felt_to_hash(&felt("0x123")));
    assert!(MaybePreConfirmedBlockWithTxHashes::PreConfirmedBlock
        .cursor()
        .is_none());
}

#[test]
fn field_elements_are_equal_by_their_bytes() {
    assert!(felt("0x123") == felt("0x0123"));
    assert!(felt("0x123") != felt("0x124"));
    let mut other = felt("0x123");
    other.bytes[0] = 1;
    assert!(felt("0x123") != other);
}
