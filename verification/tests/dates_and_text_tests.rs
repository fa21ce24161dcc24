use fcay::dates::{format_iso_date, parse_iso_date, Date};
use fcay::import_id_generator::ImportIdGenerator;
use fcay::records::{account_class_from_str, account_class_to_str, difference_transaction_from_row};
use fcay::text::u64_to_string;
use fcay::types::AccountClass;

#[test]
fn test_parse_iso_date() {
    assert_eq!(
        parse_iso_date("2024-01-01").unwrap(),
        Date { year: 2024, month: 1, day: 1 }
    );
    assert_eq!(
        parse_iso_date("1999-12-31").unwrap(),
        Date { year: 1999, month: 12, day: 31 }
    );
    // leap years
    assert!(parse_iso_date("2024-02-29").is_ok());
    assert!(parse_iso_date("2023-02-29").is_err());
    assert!(parse_iso_date("1900-02-29").is_err());
    assert!(parse_iso_date("2000-02-29").is_ok());
    // malformed input
    assert!(parse_iso_date("2024-13-01").is_err());
    assert!(parse_iso_date("2024-00-01").is_err());
    assert!(parse_iso_date("2024-04-31").is_err());
    assert!(parse_iso_date("2024/01/01").is_err());
    assert!(parse_iso_date("24-01-01").is_err());
    assert!(parse_iso_date("").is_err());
}

#[test]
fn test_format_iso_date() {
    assert_eq!(format_iso_date(Date { year: 2024, month: 1, day: 9 }), "2024-01-09");
    assert_eq!(format_iso_date(Date { year: 987, month: 11, day: 30 }), "0987-11-30");
}

#[test]
fn test_iso_date_round_trip() {
    let d = Date { year: 2021, month: 6, day: 5 };
    assert_eq!(parse_iso_date(&format_iso_date(d)).unwrap(), d);
}

#[test]
fn test_u64_to_string() {
    assert_eq!(u64_to_string(0), "0");
    assert_eq!(u64_to_string(907), "907");
    assert_eq!(u64_to_string(18_446_744_073_709_551_615), "18446744073709551615");
}

#[test]
fn test_import_id_generator() {
    let mut gen = ImportIdGenerator::new(Date { year: 2024, month: 3, day: 7 }, 9, 5, 2, 31);
    assert_eq!(gen.next_import_id().raw, "FCAY:20240307:090502031:0");
    assert_eq!(gen.next_import_id().raw, "FCAY:20240307:090502031:1");
    assert_eq!(gen.next_import_id().raw, "FCAY:20240307:090502031:2");
}

#[test]
fn test_account_class_codec() {
    assert_eq!(account_class_to_str(AccountClass::Debit), "D");
    assert_eq!(account_class_to_str(AccountClass::Credit), "C");
    assert_eq!(account_class_to_str(AccountClass::Tracking), "T");
    assert_eq!(account_class_from_str("D"), Some(AccountClass::Debit));
    assert_eq!(account_class_from_str("C"), Some(AccountClass::Credit));
    assert_eq!(account_class_from_str("T"), Some(AccountClass::Tracking));
    assert_eq!(account_class_from_str("X"), None);
    assert_eq!(account_class_from_str(""), None);
    assert_eq!(account_class_from_str("DD"), None);
}

#[test]
fn test_difference_transaction_from_row() {
    let rec = difference_transaction_from_row(
        "d-1".to_string(),
        -2000,
        &"EUR".to_string(),
        &"D".to_string(),
        &None,
        &None,
    )
    .unwrap();
    assert_eq!(rec.difference_transaction_id.raw, "d-1");
    assert_eq!(rec.amount.to_scaled_i64(), -2000);
    assert_eq!(rec.difference_key.currency.to_str(), "EUR");
    assert_eq!(rec.difference_key.account_class, AccountClass::Debit);
    assert!(rec.transfer_key.is_none());

    let rec = difference_transaction_from_row(
        "d-2".to_string(),
        500,
        &"EUR".to_string(),
        &"T".to_string(),
        &Some("GBP".to_string()),
        &Some("C".to_string()),
    )
    .unwrap();
    let t = rec.transfer_key.unwrap();
    assert_eq!(t.currency.to_str(), "GBP");
    assert_eq!(t.account_class, AccountClass::Credit);

    // inconsistent transfer columns
    assert!(difference_transaction_from_row(
        "d-3".to_string(),
        0,
        &"EUR".to_string(),
        &"D".to_string(),
        &Some("GBP".to_string()),
        &None,
    )
    .is_none());
    // invalid class letter
    assert!(difference_transaction_from_row(
        "d-4".to_string(),
        0,
        &"EUR".to_string(),
        &"Z".to_string(),
        &None,
        &None,
    )
    .is_none());
}
