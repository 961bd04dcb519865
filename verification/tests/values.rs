use loans_backend::address::generate_btc_address;
use loans_backend::ltv::Ltv;
use loans_backend::transaction::{sign_transaction, validate_unsigned_tx};

#[test]
fn ratios_are_judged_as_numbers() {
    for value in [
        0.0,
        -0.0,
        0.7,
        1.0,
        f64::MIN_POSITIVE,
        5e-324,
        -5e-324,
        1.0 - f64::EPSILON / 2.0,
        1.0 + f64::EPSILON,
        0.5,
        2.0,
        -1.0,
        f64::MAX,
        f64::MIN,
        f64::INFINITY,
        f64::NEG_INFINITY,
        f64::NAN,
        -f64::NAN,
        f64::from_bits(0x7ff0_0000_0000_0001),
        f64::from_bits(0xffff_ffff_ffff_ffff),
    ] {
        let accepted = value > 0.0 && value <= 1.0;
        let ltv = Ltv { bits: value.to_bits() };
        assert_eq!(ltv.is_acceptable(), accepted, "{} {:x}", value, value.to_bits());
    }
}

#[test]
fn ratios_at_the_edges() {
    assert!(!Ltv { bits: 0 }.is_acceptable());
    assert!(Ltv { bits: 1 }.is_acceptable());
    assert!(Ltv { bits: 0x3ff0_0000_0000_0000 }.is_acceptable());
    assert!(!Ltv { bits: 0x3ff0_0000_0000_0001 }.is_acceptable());
    assert!(!Ltv { bits: 0x7ff0_0000_0000_0000 }.is_acceptable());
    assert!(!Ltv { bits: 0x7ff8_0000_0000_0000 }.is_acceptable());
    assert!(!Ltv { bits: 0x8000_0000_0000_0000 }.is_acceptable());
    assert!(!Ltv { bits: 0xfff8_0000_0000_0000 }.is_acceptable());
}

#[test]
fn addresses_end_in_the_time() {
    assert_eq!(generate_btc_address(0), "btc_address_0");
    assert_eq!(generate_btc_address(9), "btc_address_9");
    assert_eq!(generate_btc_address(10), "btc_address_10");
    assert_eq!(
        generate_btc_address(1_234_567_890),
        "btc_address_1234567890"
    );
    assert_eq!(
        generate_btc_address(u64::MAX),
        "btc_address_18446744073709551615"
    );
    assert_ne!(generate_btc_address(12), generate_btc_address(120));
}

#[test]
fn transactions_are_signed_at_the_end() {
    assert_eq!(sign_transaction(&vec![]), Ok(b"signed".to_vec()));
    assert_eq!(sign_transaction(&b"pay ".to_vec()), Ok(b"pay signed".to_vec()));
    assert_ne!(sign_transaction(&vec![1]), sign_transaction(&vec![2]));
}

#[test]
fn empty_transactions_are_refused() {
    assert_eq!(
        validate_unsigned_tx(&vec![]),
        Err("Unsigned transaction is empty".to_string())
    );
    assert_eq!(validate_unsigned_tx(&vec![0]), Ok(()));
}
