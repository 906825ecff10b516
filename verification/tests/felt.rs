use slot_session::felt::Felt;

fn bytes_of_u64(n: u64) -> [u8; 32] {
    let mut bytes = [0u8; 32];
    bytes[24..].copy_from_slice(&n.to_be_bytes());
    bytes
}

const PRIME: [u8; 32] = [
    0x08, 0, 0, 0, 0, 0, 0, 0x11, 0, 0, 0, 0, 0, 0, 0, 0, 0, 0, 0, 0, 0, 0, 0, 0, 0, 0, 0, 0, 0, 0, 0,
    0x01,
];

#[test]
fn bytes_below_the_modulus_are_an_element() {
    let felt = Felt::from_bytes_be(bytes_of_u64(1)).expect("one is an element");
    assert_eq!(felt.to_bytes_be(), bytes_of_u64(1));
    assert_eq!(Felt::from_bytes_be([0u8; 32]).unwrap().to_decimal(), "0");
}

#[test]
fn the_modulus_is_no_element() {
    assert_eq!(Felt::from_bytes_be(PRIME), None);
    assert_eq!(Felt::from_bytes_be([0xff; 32]), None);
}

#[test]
fn the_largest_element_is_the_modulus_less_one() {
    let mut bytes = PRIME;
    bytes[31] = 0;
    let felt = Felt::from_bytes_be(bytes).expect("below the modulus");
    assert_eq!(
        felt.to_decimal(),
        "3618502788666131213697322783095070105623107215331596699973092056135872020480"
    );
    assert_eq!(
        felt.to_hex(),
        "0x800000000000011000000000000000000000000000000000000000000000000"
    );
}

#[test]
fn decimal_numerals_are_read() {
    assert_eq!(Felt::from_dec_str("255").unwrap().to_bytes_be(), bytes_of_u64(255));
    assert_eq!(Felt::from_dec_str("007").unwrap().to_bytes_be(), bytes_of_u64(7));
    assert_eq!(Felt::from_dec_str("").unwrap().to_bytes_be(), [0u8; 32]);
    assert_eq!(
        Felt::from_dec_str("23448594291968334").unwrap().to_bytes_be(),
        bytes_of_u64(0x534e5f4d41494e)
    );
}

#[test]
fn what_is_no_numeral_is_refused() {
    assert_eq!(Felt::from_dec_str("12a"), None);
    assert_eq!(Felt::from_dec_str("0x10"), None);
    assert_eq!(Felt::from_dec_str("-1"), None);
    assert_eq!(Felt::from_dec_str(" 1"), None);
}

#[test]
fn numerals_at_or_above_the_modulus_are_refused() {
    assert_eq!(
        Felt::from_dec_str(
            "3618502788666131213697322783095070105623107215331596699973092056135872020481"
        ),
        None
    );
    assert!(Felt::from_dec_str(
        "3618502788666131213697322783095070105623107215331596699973092056135872020480"
    )
    .is_some());
    assert_eq!(Felt::from_dec_str(&"9".repeat(100)), None);
}

#[test]
fn numerals_are_written_without_leading_zeros() {
    let felt = Felt::from_bytes_be(bytes_of_u64(0x534e5f4d41494e)).unwrap();
    assert_eq!(felt.to_decimal(), "23448594291968334");
    assert_eq!(felt.to_hex(), "0x534e5f4d41494e");
    assert_eq!(Felt::from_bytes_be([0u8; 32]).unwrap().to_hex(), "0x0");
    assert_eq!(Felt::from_bytes_be(bytes_of_u64(0xabcdef)).unwrap().to_hex(), "0xabcdef");
}

#[test]
fn decimal_round_trip() {
    for n in [0u64, 1, 9, 10, 99, 100, 65535, u64::MAX] {
        let felt = Felt::from_bytes_be(bytes_of_u64(n)).unwrap();
        assert_eq!(felt.to_decimal(), n.to_string());
        assert_eq!(Felt::from_dec_str(&felt.to_decimal()), Some(felt));
    }
}
