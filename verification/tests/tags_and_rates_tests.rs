use fcay::currency_converter_client::CurrencyConverterClient;
use fcay::dates::Date;
use fcay::exchange_rates::{verify_fetched, ExchangeRatesCache};
use fcay::tags::{find_convert_tag, find_no_convert_tag, scan_currency_tags, scan_difference_tags,
    TagScan};
use fcay::types::{CurrencyCode, ExchangeRate};

fn eur() -> CurrencyCode {
    CurrencyCode::from_str("EUR").unwrap()
}

fn gbp() -> CurrencyCode {
    CurrencyCode::from_str("GBP").unwrap()
}

fn usd() -> CurrencyCode {
    CurrencyCode::from_str("USD").unwrap()
}

#[test]
fn test_convert_tags() {
    assert!(find_convert_tag("pay <CONVERT> now"));
    assert!(find_convert_tag("pay <convert> now"));
    assert!(!find_convert_tag("pay <NO CONVERT> now"));
    assert!(!find_convert_tag("pay CONVERT now"));
    assert!(find_no_convert_tag("x <NO CONVERT>"));
    assert!(find_no_convert_tag("x <NOCONVERT>"));
    assert!(find_no_convert_tag("x <no-convert>"));
    assert!(find_no_convert_tag("x <NO - CONVERT>"));
    assert!(!find_no_convert_tag("x <CONVERT>"));
}

#[test]
fn test_currency_tag_scan() {
    match scan_currency_tags("Savings <EUR>") {
        TagScan::OneTag(c) => assert_eq!(c, eur()),
        _ => panic!("expected one tag"),
    }
    match scan_currency_tags("Savings <eur> ok") {
        TagScan::OneTag(c) => assert_eq!(c, eur()),
        _ => panic!("expected one tag"),
    }
    assert!(matches!(scan_currency_tags("Savings"), TagScan::NoTag));
    assert!(matches!(scan_currency_tags("<EUR> <GBP>"), TagScan::ManyTags));
    // the difference marker is not a bare currency marker
    assert!(matches!(scan_currency_tags("<EUR DIFFERENCE>"), TagScan::NoTag));
    // four letters are no marker
    assert!(matches!(scan_currency_tags("<EURO>"), TagScan::NoTag));
}

#[test]
fn test_difference_tag_scan() {
    match scan_difference_tags("Diff <EUR DIFFERENCE>") {
        TagScan::OneTag(c) => assert_eq!(c, eur()),
        _ => panic!("expected one tag"),
    }
    match scan_difference_tags("Diff <eur-difference>") {
        TagScan::OneTag(c) => assert_eq!(c, eur()),
        _ => panic!("expected one tag"),
    }
    assert!(matches!(scan_difference_tags("Diff <EURDIFFERENCE>"), TagScan::NoTag));
    assert!(matches!(scan_difference_tags("Diff <EUR>"), TagScan::NoTag));
    assert!(matches!(
        scan_difference_tags("<EUR DIFFERENCE> <GBP DIFFERENCE>"),
        TagScan::ManyTags
    ));
}

#[test]
fn test_rates_cache() {
    let mut cache = ExchangeRatesCache::new();
    let d = Date { year: 2024, month: 1, day: 1 };
    let d2 = Date { year: 2024, month: 1, day: 2 };
    assert!(cache.get_exchange_rate(eur(), d).is_none());
    cache.insert_rate(eur(), d, ExchangeRate::from_scaled_i64(1_100_000));
    assert_eq!(
        cache.get_exchange_rate(eur(), d).map(|r| r.to_scaled_i64()),
        Some(1_100_000)
    );
    assert!(cache.get_exchange_rate(eur(), d2).is_none());
    assert!(cache.get_exchange_rate(gbp(), d).is_none());

    let all = vec![eur(), gbp()];
    assert_eq!(cache.missing_currencies(&all, d), vec![gbp()]);
    assert_eq!(cache.missing_currencies(&all, d2), vec![eur(), gbp()]);
}

#[test]
fn test_verify_fetched() {
    let requested = vec![eur(), gbp()];
    let full = vec![
        (gbp(), ExchangeRate::from_scaled_i64(1)),
        (eur(), ExchangeRate::from_scaled_i64(2)),
    ];
    assert!(verify_fetched(&requested, &full).is_ok());
    let partial = vec![(eur(), ExchangeRate::from_scaled_i64(2))];
    assert_eq!(verify_fetched(&requested, &partial), Err(gbp()));
}

#[test]
fn test_chunk_currency_pairs() {
    let client = CurrencyConverterClient::new("SECRET-REDACTED".to_string(),
        "https://rates.example".to_string(), 2);
    let pairs = vec![(eur(), usd()), (gbp(), usd()), (eur(), gbp())];
    let chunks = client.chunk_currency_pairs(&pairs);
    assert_eq!(chunks.len(), 2);
    assert_eq!(chunks[0], vec![(eur(), usd()), (gbp(), usd())]);
    assert_eq!(chunks[1], vec![(eur(), gbp())]);
    let empty: Vec<(CurrencyCode, CurrencyCode)> = Vec::new();
    assert_eq!(client.chunk_currency_pairs(&empty).len(), 0);
}

#[test]
fn test_build_request_url() {
    let client = CurrencyConverterClient::new("k123".to_string(),
        "https://rates.example".to_string(), 2);
    let pairs = vec![(eur(), usd()), (gbp(), usd())];
    let url = client.build_request_url(Date { year: 2024, month: 1, day: 9 }, &pairs);
    assert_eq!(
        url,
        "https://rates.example/api/v7/convert?q=EUR_USD,GBP_USD&compact=ultra&date=2024-01-09&apiKey=k123"
    );
}
