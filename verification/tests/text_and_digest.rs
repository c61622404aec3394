use net_stalker::digest::{sha256_hex, sha384_hex};
use net_stalker::text::{decimal_digits_of, decimal_of, digit_str, lower_hex_of};

#[test]
fn decimal_writes_years() {
    assert_eq!(decimal_of(2025), "2025");
    assert_eq!(decimal_of(0), "0");
    assert_eq!(decimal_of(-7), "-7");
    assert_eq!(decimal_of(i32::MIN), i32::MIN.to_string());
    assert_eq!(decimal_of(i32::MAX), i32::MAX.to_string());
    assert_eq!(decimal_digits_of(u64::MAX), u64::MAX.to_string());
}

#[test]
fn digits_are_lower_case_hex() {
    let all: String = (0u8..16).map(digit_str).collect();
    assert_eq!(all, "0123456789abcdef");
}

#[test]
fn lower_hex_writes_two_digits_per_byte() {
    assert_eq!(lower_hex_of(&vec![0x00, 0xab, 0x0f, 0xf0]), "00ab0ff0");
    assert_eq!(lower_hex_of(&vec![]), "");
}

#[test]
fn sha256_hex_of_abc() {
    assert_eq!(
        sha256_hex("abc"),
        "ba7816bf8f01cfea414140de5dae2223b00361a396177a9cb410ff61f20015ad"
    );
    assert_eq!(sha256_hex("まほー").len(), 64);
}

#[test]
fn sha384_hex_of_abc() {
    assert_eq!(
        sha384_hex("abc"),
        "cb00753f45a35e8bb5a03d699ac65007272c32ab0eded1631a8b605a43ff5bed8086072ba1e7cc2358baeca134c825a7"
    );
}
