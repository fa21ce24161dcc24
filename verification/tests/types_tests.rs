use fcay::types::{AccountClass, CurrencyCode, DifferenceKey, ExchangeRate, Milliunits};

#[test]
fn test_milliunits_from_to_scaled_i64() {
    assert_eq!(Milliunits::from_scaled_i64(12_345).to_scaled_i64(), 12_345);
}

#[test]
fn test_milliunits_convert_currency() {
    assert_eq!(
        Milliunits::from_scaled_i64(12_345)
            .convert_currency(ExchangeRate::from_scaled_i64(1_234_567)),
        Milliunits::from_scaled_i64(15_241)
    )
}

#[test]
fn test_exchange_rate_from_to_scaled_i64() {
    assert_eq!(
        ExchangeRate::from_scaled_i64(12_345_678).to_scaled_i64(),
        12_345_678
    );
}

#[test]
fn test_milliunits_smallest_unit() {
    assert_eq!(
        Milliunits::smallest_unit(0),
        Milliunits::from_scaled_i64(1000)
    );
    assert_eq!(
        Milliunits::smallest_unit(1),
        Milliunits::from_scaled_i64(100)
    );
    assert_eq!(Milliunits::smallest_unit(2), Milliunits::from_scaled_i64(10));
    assert_eq!(Milliunits::smallest_unit(3), Milliunits::from_scaled_i64(1));
}

#[test]
fn test_round_bankers_half_to_even() {
    // ties go to the even neighbour, in both signs
    assert_eq!(
        Milliunits::from_scaled_i64(12_345).round_bankers(2),
        Milliunits::from_scaled_i64(12_340)
    );
    assert_eq!(
        Milliunits::from_scaled_i64(12_355).round_bankers(2),
        Milliunits::from_scaled_i64(12_360)
    );
    assert_eq!(
        Milliunits::from_scaled_i64(-12_345).round_bankers(2),
        Milliunits::from_scaled_i64(-12_340)
    );
    // above the tie rounds away
    assert_eq!(
        Milliunits::from_scaled_i64(12_346).round_bankers(2),
        Milliunits::from_scaled_i64(12_350)
    );
    // full precision is untouched
    assert_eq!(
        Milliunits::from_scaled_i64(12_345).round_bankers(3),
        Milliunits::from_scaled_i64(12_345)
    );
}

#[test]
fn test_milliunits_arithmetic() {
    let a = Milliunits::from_scaled_i64(1_500);
    let b = Milliunits::from_scaled_i64(-2_250);
    assert_eq!(a.add(b), Milliunits::from_scaled_i64(-750));
    assert_eq!(a.sub(b), Milliunits::from_scaled_i64(3_750));
    assert_eq!(b.neg(), Milliunits::from_scaled_i64(2_250));
    assert_eq!(b.abs(), Milliunits::from_scaled_i64(2_250));
    assert!(Milliunits::zero().is_zero());
    assert!(!a.is_zero());
}

#[test]
fn test_currency_code_parse() {
    let eur = CurrencyCode::from_str("eur").unwrap();
    assert_eq!(eur.to_str(), "EUR");
    assert_eq!(eur, CurrencyCode::from_str("EUR").unwrap());
    assert!(CurrencyCode::from_str("EU").is_err());
    assert!(CurrencyCode::from_str("EURO").is_err());
    assert!(CurrencyCode::from_str("E1R").is_err());
}

#[test]
fn test_difference_key() {
    let eur = CurrencyCode::from_str("EUR").unwrap();
    let key = DifferenceKey::new(eur, AccountClass::Debit);
    assert_eq!(key.currency, eur);
    assert_eq!(key.account_class, AccountClass::Debit);
    assert_ne!(key, DifferenceKey::new(eur, AccountClass::Tracking));
}
