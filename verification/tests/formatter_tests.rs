use fcay::budget_formatter::{BudgetFormatter, BudgetSettings, CurrencyFormat, DateFormat};
use fcay::dates::Date;
use fcay::types::{CurrencyCode, ExchangeRate, Milliunits};

fn us_settings() -> BudgetSettings {
    BudgetSettings {
        date_format: DateFormat { format: "MM/DD/YYYY".to_string() },
        currency_format: CurrencyFormat {
            iso_code: "USD".to_string(),
            decimal_digits: 2,
            decimal_separator: ".".to_string(),
            symbol_first: true,
            group_separator: ",".to_string(),
            currency_symbol: "$".to_string(),
            display_symbol: true,
        },
    }
}

fn other_settings() -> BudgetSettings {
    BudgetSettings {
        date_format: DateFormat { format: "YYYY-MM-DD".to_string() },
        currency_format: CurrencyFormat {
            iso_code: "ABC".to_string(),
            decimal_digits: 3,
            decimal_separator: ",".to_string(),
            symbol_first: false,
            group_separator: ".".to_string(),
            currency_symbol: "X".to_string(),
            display_symbol: true,
        },
    }
}

fn no_symbol_settings() -> BudgetSettings {
    BudgetSettings {
        date_format: DateFormat { format: "YYYY-MM-DD".to_string() },
        currency_format: CurrencyFormat {
            iso_code: "ABC".to_string(),
            decimal_digits: 3,
            decimal_separator: ",".to_string(),
            symbol_first: false,
            group_separator: ".".to_string(),
            currency_symbol: "X".to_string(),
            display_symbol: false,
        },
    }
}

#[test]
fn test_format_milliunits() {
    assert_eq!(
        BudgetFormatter::new(us_settings()).format_milliunits(Milliunits::from_scaled_i64(-12_345)),
        "-$12.35"
    );
    assert_eq!(
        BudgetFormatter::new(other_settings())
            .format_milliunits(Milliunits::from_scaled_i64(-12_345)),
        "-12,345X"
    );
    assert_eq!(
        BudgetFormatter::new(no_symbol_settings())
            .format_milliunits(Milliunits::from_scaled_i64(-123_456)),
        "-123,456"
    );
    assert_eq!(
        BudgetFormatter::new(us_settings())
            .format_milliunits(Milliunits::from_scaled_i64(123_456_789_012_345)),
        "$123,456,789,012.35"
    );
    assert_eq!(
        BudgetFormatter::new(us_settings()).format_milliunits(Milliunits::from_scaled_i64(123)),
        "$0.12"
    );
}

#[test]
fn test_format_milliunits_with_code() {
    assert_eq!(
        BudgetFormatter::new(us_settings()).format_milliunits_with_code(
            CurrencyCode::from_str("USD").unwrap(),
            Milliunits::from_scaled_i64(-12_345_678)
        ),
        "USD -12,345.68"
    );
    assert_eq!(
        BudgetFormatter::new(other_settings()).format_milliunits_with_code(
            CurrencyCode::from_str("ABC").unwrap(),
            Milliunits::from_scaled_i64(-12_345_678)
        ),
        "-12.345,678 ABC"
    );
    assert_eq!(
        BudgetFormatter::new(no_symbol_settings()).format_milliunits_with_code(
            CurrencyCode::from_str("XXY").unwrap(),
            Milliunits::from_scaled_i64(-123_456_789)
        ),
        "-123.456,789 XXY"
    );
}

#[test]
fn test_format_date() {
    assert_eq!(
        BudgetFormatter::new(us_settings()).format_date(Date { year: 2011, month: 4, day: 27 }),
        "04/27/2011"
    );
    assert_eq!(
        BudgetFormatter::new(other_settings()).format_date(Date { year: 2011, month: 4, day: 27 }),
        "2011-04-27"
    );
}

#[test]
fn test_format_exchange_rate() {
    assert_eq!(
        BudgetFormatter::new(no_symbol_settings())
            .format_exchange_rate(ExchangeRate::from_scaled_i64(1_100_000)),
        "1,100000"
    );
    assert_eq!(
        BudgetFormatter::new(us_settings())
            .format_exchange_rate(ExchangeRate::from_scaled_i64(1_234_567)),
        "$1.234567"
    );
}
