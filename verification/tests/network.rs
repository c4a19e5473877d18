use ethers_abirpc::error::Error;
use ethers_abirpc::network::{address_from, Address};

#[test]
fn address_from_parses_prefixed_hex() {
    let a = address_from("0x000000000000000000000000000000000000dead").unwrap();
    assert_eq!(a, Address { high: 0, low: 0xdead });
}

#[test]
fn address_from_parses_unprefixed_hex() {
    let a = address_from("000000000000000000000000000000000000dead").unwrap();
    assert_eq!(a, Address { high: 0, low: 0xdead });
}

#[test]
fn address_from_is_case_insensitive_in_digits() {
    let a = address_from("0x0123456789abcdefABCDEF0123456789abcdef01").unwrap();
    assert_eq!(
        a,
        Address {
            high: 0x01234567,
            low: 0x89abcdefabcdef0123456789abcdef01,
        }
    );
}

#[test]
fn address_from_parses_the_largest_address() {
    let a = address_from("0xffffffffffffffffffffffffffffffffffffffff").unwrap();
    assert_eq!(
        a,
        Address {
            high: u32::MAX,
            low: u128::MAX,
        }
    );
}

#[test]
fn address_from_rejects_wrong_length() {
    assert!(matches!(
        address_from("0x00"),
        Err(Error::Error(m)) if m == "invalid address"
    ));
    // Thirty-nine digits.
    assert!(address_from("0x00000000000000000000000000000000000dead").is_err());
    // Forty-one digits.
    assert!(address_from("0x0000000000000000000000000000000000000dead").is_err());
    assert!(address_from("").is_err());
}

#[test]
fn address_from_rejects_non_hex_digits() {
    assert!(address_from("0x00000000000000000000000000000000000ghijk").is_err());
    // A second prefix inside the digits is no digit either.
    assert!(address_from("0x0x00000000000000000000000000000000000dea").is_err());
}
