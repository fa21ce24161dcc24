use fcay::budget_formatter::{BudgetFormatter, BudgetSettings, CurrencyFormat, DateFormat};
use fcay::dates::Date;
use fcay::exchange_rates::ExchangeRatesCache;
use fcay::foreign_accounts::{
    AccountData, AccountInput, AccountKind, ClassifyError, ForeignAccounts,
};
use fcay::foreign_transactions_processor::{
    Cleared, ForeignTransactionsProcessor, SavedTransaction, SubTransactionInput,
    TransactionInput,
};
use fcay::import_id_generator::ImportIdGenerator;
use fcay::records::{DifferenceTransaction, DifferenceTransactionStore};
use fcay::types::{
    AccountClass, CurrencyCode, DifferenceKey, ExchangeRate, Milliunits, YnabAccountId,
    YnabImportId, YnabTransactionId,
};

fn usd() -> CurrencyCode {
    CurrencyCode::from_str("USD").unwrap()
}

fn eur() -> CurrencyCode {
    CurrencyCode::from_str("EUR").unwrap()
}

fn settings() -> BudgetSettings {
    BudgetSettings {
        date_format: DateFormat { format: "YYYY-MM-DD".to_string() },
        currency_format: CurrencyFormat {
            iso_code: "USD".to_string(),
            decimal_digits: 2,
            decimal_separator: ".".to_string(),
            symbol_first: false,
            group_separator: ",".to_string(),
            currency_symbol: "$".to_string(),
            display_symbol: false,
        },
    }
}

fn account(id: &str, name: &str, kind: AccountKind, balance: i64) -> AccountInput {
    AccountInput {
        id: YnabAccountId::new(id.to_string()),
        name: name.to_string(),
        note: None,
        kind,
        balance,
        deleted: false,
        closed: false,
    }
}

/// One foreign EUR checking account with a 100.00 balance, and its
/// difference account with the given balance.
fn eur_accounts(difference_balance: i64) -> Vec<AccountInput> {
    vec![
        account("acc-eur", "Savings <EUR>", AccountKind::Checking, 100_000),
        account(
            "acc-diff",
            "Diff <EUR DIFFERENCE>",
            AccountKind::Checking,
            difference_balance,
        ),
        account("acc-local", "Chequing", AccountKind::Checking, 55_000),
    ]
}

fn transaction(id: &str, account_id: &str, date: &str, amount: i64) -> TransactionInput {
    TransactionInput {
        id: YnabTransactionId::new(id.to_string()),
        account_id: YnabAccountId::new(account_id.to_string()),
        date: date.to_string(),
        amount,
        payee_id: None,
        payee_name: Some("Shop".to_string()),
        category_id: None,
        category_name: None,
        memo: None,
        cleared: Cleared::Cleared,
        approved: true,
        flag_color: None,
        transfer_account_id: None,
        import_id: None,
        matched_transaction_id: None,
        deleted: false,
        subtransactions: Vec::new(),
    }
}

fn engine(
    accounts: Vec<AccountInput>,
    records: DifferenceTransactionStore,
) -> ForeignTransactionsProcessor {
    let (foreign_accounts, difference_balances) =
        ForeignAccounts::load(&accounts, usd()).unwrap();
    let mut cache = ExchangeRatesCache::new();
    cache.insert_rate(
        eur(),
        Date { year: 2024, month: 1, day: 1 },
        ExchangeRate::from_scaled_i64(1_100_000),
    );
    ForeignTransactionsProcessor::new(
        Date { year: 2024, month: 1, day: 1 },
        false,
        false,
        BudgetFormatter::new(settings()),
        usd(),
        cache,
        ImportIdGenerator::new(Date { year: 2024, month: 1, day: 1 }, 0, 0, 0, 0),
        foreign_accounts,
        difference_balances,
        records,
    )
}

#[test]
fn classify_valid_registry() {
    let (fa, db) = ForeignAccounts::load(&eur_accounts(0), usd()).unwrap();
    let key = DifferenceKey::new(eur(), AccountClass::Debit);
    assert_eq!(
        fa.get_account_data(&YnabAccountId::new("acc-eur".to_string())),
        Some(&AccountData::Foreign { difference_key: key })
    );
    assert_eq!(
        fa.get_account_data(&YnabAccountId::new("acc-diff".to_string())),
        Some(&AccountData::Difference { difference_key: key })
    );
    assert_eq!(
        fa.get_account_data(&YnabAccountId::new("acc-local".to_string())),
        Some(&AccountData::Local { force_convert: false })
    );
    assert_eq!(
        fa.get_difference_account_id(key).map(|i| i.raw.as_str()),
        Some("acc-diff")
    );
    assert_eq!(fa.get_all_used_foreign_currencies().as_slice(), &[eur()]);
    // balances were seeded from the current account balances
    assert_eq!(db.balances.len(), 1);
    assert_eq!(db.balances[0].0, key);
    assert_eq!(db.balances[0].1.foreign_accounts_total.to_scaled_i64(), 100_000);
    assert_eq!(db.balances[0].1.difference_account_balance.to_scaled_i64(), 0);
}

#[test]
fn classify_local_currency_tag_is_local() {
    let mut accounts = eur_accounts(0);
    accounts.push(account("acc-usd", "Cash <USD>", AccountKind::Cash, 1_000));
    let (fa, _) = ForeignAccounts::load(&accounts, usd()).unwrap();
    assert_eq!(
        fa.get_account_data(&YnabAccountId::new("acc-usd".to_string())),
        Some(&AccountData::Local { force_convert: false })
    );
}

#[test]
fn classify_duplicate_difference_account_fails() {
    let mut accounts = eur_accounts(0);
    accounts.push(account(
        "acc-diff2",
        "Another <EUR DIFFERENCE>",
        AccountKind::Checking,
        0,
    ));
    let err = ForeignAccounts::load(&accounts, usd()).unwrap_err();
    assert!(matches!(err, ClassifyError::DuplicateDifferenceAccount { index: 3, .. }));
}

#[test]
fn classify_tags_in_name_and_note_fail() {
    let mut accounts = eur_accounts(0);
    accounts[0].note = Some("actually <GBP>".to_string());
    let err = ForeignAccounts::load(&accounts, usd()).unwrap_err();
    assert!(matches!(err, ClassifyError::AccountTag { index: 0, .. }));
}

#[test]
fn classify_difference_for_local_currency_fails() {
    let mut accounts = eur_accounts(0);
    accounts.push(account(
        "acc-usd-diff",
        "Bad <USD DIFFERENCE>",
        AccountKind::Checking,
        0,
    ));
    let err = ForeignAccounts::load(&accounts, usd()).unwrap_err();
    assert!(matches!(err, ClassifyError::AccountTag { index: 3, .. }));
}

#[test]
fn classify_no_foreign_accounts_fails() {
    let accounts = vec![account("acc-local", "Chequing", AccountKind::Checking, 0)];
    let err = ForeignAccounts::load(&accounts, usd()).unwrap_err();
    assert!(matches!(err, ClassifyError::NoForeignAccounts));
}

#[test]
fn classify_missing_difference_account_fails() {
    let accounts = vec![account("acc-eur", "Savings <EUR>", AccountKind::Checking, 0)];
    let err = ForeignAccounts::load(&accounts, usd()).unwrap_err();
    assert!(matches!(err, ClassifyError::MissingDifferenceAccount { .. }));
}

#[test]
fn scenario_new_eur_transaction_creates_difference() {
    // local currency USD, one foreign EUR account (100.00), one difference
    // account (0.00), a new EUR transaction of -20.00 on 2024-01-01 at
    // EUR->USD = 1.10
    let mut engine = engine(eur_accounts(0), DifferenceTransactionStore::new());
    let txns = vec![transaction("t1", "acc-eur", "2024-01-01", -20_000)];
    let mods = engine.process_transactions(&txns).unwrap();
    assert_eq!(mods.update_transactions.len(), 0);
    assert_eq!(mods.create_transactions.len(), 1);
    let create = &mods.create_transactions[0];
    assert_eq!(create.account_id.raw, "acc-diff");
    assert_eq!(create.amount.to_scaled_i64(), -2_000);
    assert_eq!(create.date, Date { year: 2024, month: 1, day: 1 });
    assert_eq!(create.memo, "<-20.00 EUR @1.100000/EUR = -22.00>");
    assert_eq!(create.approved, Some(false));
    let import_id = create.import_id.as_ref().unwrap();
    // the import id maps back to the source transaction
    assert_eq!(mods.create_import_ids_foreign_ynab_transaction_ids.len(), 1);
    assert_eq!(
        mods.create_import_ids_foreign_ynab_transaction_ids[0].0.raw,
        import_id.raw
    );
    assert_eq!(mods.create_import_ids_foreign_ynab_transaction_ids[0].1.raw, "t1");
    // the delta was applied to the difference balance
    assert_eq!(engine.difference_balances.balances[0].1.difference_account_balance.to_scaled_i64(), -2_000);
}

#[test]
fn soft_delete_no_convert_memo_updates_to_zero() {
    // the source transaction carries <NO CONVERT> and was reconciled before:
    // always a zero-amount update tagged <DELETED>, never a create
    let key = DifferenceKey::new(eur(), AccountClass::Debit);
    let mut store = DifferenceTransactionStore::new();
    store.insert(
        YnabTransactionId::new("t1".to_string()),
        DifferenceTransaction {
            difference_transaction_id: YnabTransactionId::new("d1".to_string()),
            amount: Milliunits::from_scaled_i64(-2_000),
            difference_key: key,
            transfer_key: None,
        },
    );
    let mut engine = engine(eur_accounts(-2_000), store);
    let mut txn = transaction("t1", "acc-eur", "2024-01-01", -20_000);
    txn.memo = Some("groceries <NO CONVERT>".to_string());
    let mods = engine.process_transactions(&vec![txn]).unwrap();
    assert_eq!(mods.create_transactions.len(), 0);
    assert_eq!(mods.update_transactions.len(), 1);
    let update = &mods.update_transactions[0];
    assert_eq!(update.id.raw, "d1");
    assert_eq!(update.amount.to_scaled_i64(), 0);
    assert_eq!(update.memo, "<DELETED> groceries <NO CONVERT>");
    // the earlier delta was netted out of the ledger
    assert_eq!(
        engine.difference_balances.balances[0].1.difference_account_balance.to_scaled_i64(),
        0
    );
}

#[test]
fn deleted_transaction_with_record_updates_to_zero() {
    let key = DifferenceKey::new(eur(), AccountClass::Debit);
    let mut store = DifferenceTransactionStore::new();
    store.insert(
        YnabTransactionId::new("t1".to_string()),
        DifferenceTransaction {
            difference_transaction_id: YnabTransactionId::new("d1".to_string()),
            amount: Milliunits::from_scaled_i64(-2_000),
            difference_key: key,
            transfer_key: None,
        },
    );
    let mut engine = engine(eur_accounts(-2_000), store);
    let mut txn = transaction("t1", "acc-eur", "2024-01-01", -20_000);
    txn.deleted = true;
    let mods = engine.process_transactions(&vec![txn]).unwrap();
    assert_eq!(mods.create_transactions.len(), 0);
    assert_eq!(mods.update_transactions.len(), 1);
    assert_eq!(mods.update_transactions[0].amount.to_scaled_i64(), 0);
    assert!(mods.update_transactions[0].memo.starts_with("<DELETED>"));
}

#[test]
fn transfer_to_plain_local_account_moves_to_zero() {
    let mut engine = engine(eur_accounts(0), DifferenceTransactionStore::new());
    let mut txn = transaction("t1", "acc-eur", "2024-01-01", -20_000);
    txn.transfer_account_id = Some(YnabAccountId::new("acc-local".to_string()));
    let mods = engine.process_transactions(&txns_of(txn)).unwrap();
    // no record and a zero amount: nothing is created
    assert_eq!(mods.create_transactions.len(), 0);
    assert_eq!(mods.update_transactions.len(), 0);
}

fn txns_of(t: TransactionInput) -> Vec<TransactionInput> {
    vec![t]
}

#[test]
fn split_components_are_processed_separately() {
    let mut engine = engine(eur_accounts(0), DifferenceTransactionStore::new());
    let mut txn = transaction("t1", "acc-eur", "2024-01-01", -20_000);
    txn.subtransactions = vec![
        SubTransactionInput {
            id: YnabTransactionId::new("s1".to_string()),
            payee_id: None,
            category_id: None,
            amount: -15_000,
            memo: None,
            transfer_account_id: None,
            deleted: false,
        },
        SubTransactionInput {
            id: YnabTransactionId::new("s2".to_string()),
            payee_id: None,
            category_id: None,
            amount: -5_000,
            memo: None,
            transfer_account_id: None,
            deleted: false,
        },
    ];
    let mods = engine.process_transactions(&txns_of(txn)).unwrap();
    // one create per split; the parent itself counts as deleted
    assert_eq!(mods.create_transactions.len(), 2);
    assert!(mods.create_transactions[0].memo.contains(" (split 1/2)"));
    assert!(mods.create_transactions[1].memo.contains(" (split 2/2)"));
    assert_eq!(mods.create_transactions[0].amount.to_scaled_i64(), -1_500);
    assert_eq!(mods.create_transactions[1].amount.to_scaled_i64(), -500);
}

#[test]
fn adjustment_creates_true_up() {
    // EUR total 100.00 at 1.10 expects a 10.00 difference balance; the
    // ledger holds 0.00, so a 10.00 adjustment is created, dated today
    let mut engine = engine(eur_accounts(0), DifferenceTransactionStore::new());
    let mut mods = fcay::foreign_transactions_processor::TransactionsModificationsData::new();
    engine.create_adjustments(&mut mods).unwrap();
    assert_eq!(mods.create_transactions.len(), 1);
    let create = &mods.create_transactions[0];
    assert_eq!(create.account_id.raw, "acc-diff");
    assert_eq!(create.amount.to_scaled_i64(), 10_000);
    assert_eq!(
        create.payee_name.as_deref(),
        Some("Exchange Rate Adjustment <EUR>")
    );
    assert_eq!(
        create.memo,
        "Exchange rate adjustment: 100.00 EUR @1.100000/EUR = 110.00"
    );
}

#[test]
fn engine_is_idempotent_once_settled() {
    // second run: the cursor makes the batch empty, and the difference
    // balance already equals the expected translation gain -> no intents
    let mut engine = engine(eur_accounts(10_000), DifferenceTransactionStore::new());
    let empty: Vec<TransactionInput> = Vec::new();
    let mods = engine.process_transactions(&empty).unwrap();
    assert!(mods.is_empty());
    let mut mods = mods;
    engine.create_adjustments(&mut mods).unwrap();
    assert!(mods.is_empty());
    assert!(!mods.has_changes());
}

#[test]
fn missing_rate_aborts_the_batch() {
    let accounts = vec![
        account("acc-eur", "Savings <EUR>", AccountKind::Checking, 100_000),
        account("acc-diff", "Diff <EUR DIFFERENCE>", AccountKind::Checking, 0),
    ];
    let (fa, db) = ForeignAccounts::load(&accounts, usd()).unwrap();
    let mut engine = ForeignTransactionsProcessor::new(
        Date { year: 2024, month: 1, day: 1 },
        false,
        false,
        BudgetFormatter::new(settings()),
        usd(),
        ExchangeRatesCache::new(),
        ImportIdGenerator::new(Date { year: 2024, month: 1, day: 1 }, 0, 0, 0, 0),
        fa,
        db,
        DifferenceTransactionStore::new(),
    );
    let err = engine
        .process_transactions(&txns_of(transaction("t1", "acc-eur", "2024-01-01", -20_000)))
        .unwrap_err();
    assert!(matches!(
        err,
        fcay::foreign_transactions_processor::EngineError::MissingExchangeRate { .. }
    ));
}

#[test]
fn invalid_date_aborts_the_batch() {
    let mut engine = engine(eur_accounts(0), DifferenceTransactionStore::new());
    let err = engine
        .process_transactions(&txns_of(transaction("t1", "acc-eur", "01/01/2024", -20_000)))
        .unwrap_err();
    assert!(matches!(
        err,
        fcay::foreign_transactions_processor::EngineError::InvalidTransactionDate { index: 0 }
    ));
}

#[test]
fn unknown_account_aborts_the_batch() {
    let mut engine = engine(eur_accounts(0), DifferenceTransactionStore::new());
    let err = engine
        .process_transactions(&txns_of(transaction("t1", "acc-nope", "2024-01-01", -20_000)))
        .unwrap_err();
    assert!(matches!(
        err,
        fcay::foreign_transactions_processor::EngineError::UnknownAccount { index: 0 }
    ));
}

#[test]
fn created_responses_become_records() {
    let mut engine = engine(eur_accounts(0), DifferenceTransactionStore::new());
    let txns = vec![transaction("t1", "acc-eur", "2024-01-01", -20_000)];
    let mods = engine.process_transactions(&txns).unwrap();
    let import_id = mods.create_transactions[0].import_id.as_ref().unwrap().raw.clone();
    let created = vec![SavedTransaction {
        id: YnabTransactionId::new("d-new".to_string()),
        account_id: YnabAccountId::new("acc-diff".to_string()),
        amount: -2_000,
        import_id: Some(YnabImportId::new(import_id)),
        transfer_account_id: None,
    }];
    let records = engine.created_transactions_to_records(&created, &mods).unwrap();
    assert_eq!(records.len(), 1);
    assert_eq!(records[0].foreign_transaction_id.raw, "t1");
    assert_eq!(records[0].inner.difference_transaction_id.raw, "d-new");
    assert_eq!(records[0].inner.amount.to_scaled_i64(), -2_000);
    assert_eq!(
        records[0].inner.difference_key,
        DifferenceKey::new(eur(), AccountClass::Debit)
    );
    // a response without one of this batch's import ids is not recorded
    let stray = vec![SavedTransaction {
        id: YnabTransactionId::new("d-other".to_string()),
        account_id: YnabAccountId::new("acc-diff".to_string()),
        amount: 1,
        import_id: Some(YnabImportId::new("FCAY:other".to_string())),
        transfer_account_id: None,
    }];
    assert_eq!(engine.created_transactions_to_records(&stray, &mods).unwrap().len(), 0);
}

#[test]
fn updated_responses_become_records() {
    let engine = engine(eur_accounts(0), DifferenceTransactionStore::new());
    let updated = vec![SavedTransaction {
        id: YnabTransactionId::new("d1".to_string()),
        account_id: YnabAccountId::new("acc-diff".to_string()),
        amount: 0,
        import_id: None,
        transfer_account_id: None,
    }];
    let records = engine.updated_transactions_to_records(&updated).unwrap();
    assert_eq!(records.len(), 1);
    assert_eq!(records[0].difference_transaction_id.raw, "d1");
    assert_eq!(records[0].amount.to_scaled_i64(), 0);
}
