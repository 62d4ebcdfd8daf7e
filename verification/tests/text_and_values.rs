use deposit_graph::eth::{parse_address, EthAddress, TxHash, Uint256};
use deposit_graph::text::{
    chars_of, contains_str, decimal_i64, decimal_u64, hex_digit, lower_hex_u64, starts_with_str,
    string_of,
};

fn u256(limbs: [u64; 4]) -> Uint256 {
    Uint256 { limbs }
}

#[test]
fn decimal_rendering_of_integers() {
    assert_eq!(decimal_u64(0), "0");
    assert_eq!(decimal_u64(7), "7");
    assert_eq!(decimal_u64(11155111), "11155111");
    assert_eq!(decimal_u64(u64::MAX), "18446744073709551615");
    assert_eq!(decimal_i64(0), "0");
    assert_eq!(decimal_i64(-42), "-42");
    assert_eq!(decimal_i64(1700000000123), "1700000000123");
    assert_eq!(decimal_i64(i64::MIN), "-9223372036854775808");
}

#[test]
fn hex_rendering_of_integers() {
    assert_eq!(lower_hex_u64(0), "0");
    assert_eq!(lower_hex_u64(255), "ff");
    assert_eq!(lower_hex_u64(0x1a2b), "1a2b");
    assert_eq!(lower_hex_u64(u64::MAX), "ffffffffffffffff");
    assert_eq!(hex_digit(10), 'a');
    assert_eq!(hex_digit(9), '9');
}

#[test]
fn substring_search() {
    assert!(contains_str("PRIVATE_KEY", "KEY"));
    assert!(contains_str("abc", ""));
    assert!(!contains_str("HOST", "KEY"));
    assert!(!contains_str("KE", "KEY"));
    assert!(starts_with_str("# comment", "#"));
    assert!(!starts_with_str(" #x", "#"));
    assert!(starts_with_str("", ""));
}

#[test]
fn chars_round_trip() {
    let v = chars_of("añb\u{2026}");
    assert_eq!(v, vec!['a', 'ñ', 'b', '\u{2026}']);
    assert_eq!(string_of(&v), "añb\u{2026}");
}

#[test]
fn u256_decimal_rendering() {
    assert_eq!(Uint256::from_u64(0).to_decimal(), "0");
    assert_eq!(Uint256::from_u64(12345).to_decimal(), "12345");
    assert_eq!(u256([0, 1, 0, 0]).to_decimal(), "18446744073709551616");
    assert_eq!(
        u256([u64::MAX; 4]).to_decimal(),
        "115792089237316195423570985008687907853269984665640564039457584007913129639935"
    );
}

#[test]
fn u256_fits_and_narrowing() {
    assert!(Uint256::from_u64(u64::MAX).fits_u64());
    assert!(!u256([0, 1, 0, 0]).fits_u64());
    assert!(!u256([0, 0, 0, 1]).fits_u64());
    assert_eq!(Uint256::from_u64(987654321).as_u64(), 987654321);
}

fn sample_address() -> EthAddress {
    let mut bytes = [0u8; 20];
    for (i, b) in bytes.iter_mut().enumerate() {
        *b = (i as u8) * 13 + 1;
    }
    EthAddress { bytes }
}

#[test]
fn address_renderings() {
    let a = sample_address();
    assert_eq!(a.to_full_text(), "0x010e1b2835424f5c697683909daab7c4d1deebf8");
    assert_eq!(a.to_short_text(), "0x010e\u{2026}ebf8");
}

#[test]
fn renderings_match_ethers() {
    let a = sample_address();
    let h = ethers::types::Address::from(a.bytes);
    assert_eq!(a.to_short_text(), format!("{}", h));
    assert_eq!(a.to_full_text(), format!("{:?}", h));
    let t = TxHash { bytes: [0x5a; 32] };
    assert_eq!(t.to_full_text(), format!("{:?}", ethers::types::H256::from(t.bytes)));
    let big = u256([1, 2, 3, 4]);
    assert_eq!(big.to_decimal(), ethers::types::U256(big.limbs).to_string());
}

#[test]
fn address_parse_errors_carry_the_parser_text() {
    assert_eq!(parse_address("0x1234").err().unwrap(), "Invalid input length");
    assert!(parse_address("0xzz0e1b2835424f5c697683909daab7c4d1deebf8").err().unwrap().starts_with("Invalid character"));
}

#[test]
fn tx_hash_rendering() {
    let mut bytes = [0u8; 32];
    bytes[0] = 0xab;
    bytes[31] = 0x01;
    let h = TxHash { bytes };
    let expected = format!("0xab{}01", "0".repeat(60));
    assert_eq!(h.to_full_text(), expected);
}

#[test]
fn address_parsing() {
    let a = sample_address();
    let text = "0x010e1b2835424f5c697683909daab7c4d1deebf8";
    assert_eq!(parse_address(text).unwrap().bytes, a.bytes);
    assert_eq!(parse_address(&text[2..]).unwrap().bytes, a.bytes);
    assert_eq!(parse_address("0x010E1B2835424F5C697683909DAAB7C4D1DEEBF8").unwrap().bytes, a.bytes);
    // spaces, tabs and line breaks are skipped
    assert_eq!(parse_address("0x010e1b2835 424f5c697683909daab7c4d1deebf8\n").unwrap().bytes, a.bytes);
    assert!(parse_address("0x010e1b2835424f5c697683909daab7c4d1deebf").is_err());
    assert!(parse_address("0x010e1b2835424f5c697683909daab7c4d1deebf800").is_err());
    assert!(parse_address("0x010e1b2835424f5c697683909daab7c4d1deebfg").is_err());
    assert!(parse_address("").is_err());
}

#[test]
fn address_error_texts() {
    assert_eq!(
        parse_address("0xzz0e1b2835424f5c697683909daab7c4d1deebf8").err().unwrap(),
        "Invalid character 'z' at position 0"
    );
    // skipped whitespace counts in the position, which is taken after `0x`
    assert_eq!(parse_address("0x01 2g").err().unwrap(), "Invalid character 'g' at position 4");
    assert_eq!(parse_address("0x\t a1 \u{e9}").err().unwrap(), "Invalid character '\u{e9}' at position 5");
    assert_eq!(parse_address("x").err().unwrap(), "Invalid character 'x' at position 0");
    // a rejected character after the fortieth digit is a length error
    assert_eq!(
        parse_address("0x010e1b2835424f5c697683909daab7c4d1deebf8g").err().unwrap(),
        "Invalid input length"
    );
    assert_eq!(parse_address("").err().unwrap(), "Invalid input length");
    let outside = "0x01 2g".parse::<ethers::types::Address>().err().unwrap().to_string();
    assert_eq!(parse_address("0x01 2g").err().unwrap(), outside);
}
