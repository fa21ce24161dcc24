//! A verified reconciliation engine for foreign-currency accounts in a
//! budgeting ledger.
//!
//! The library keeps, for every tracked foreign currency, a synthetic
//! "difference" account whose balance carries the accumulated
//! currency-translation gain or loss.  It classifies ledger accounts by
//! currency role, decides for each changed transaction whether a difference
//! entry must be created, updated or neutralized, maintains running balances
//! per currency bucket, and computes true-up adjustment transactions.
//!
//! All I/O (the remote ledger, the rate provider, the persistent store) is
//! left to the surrounding application; the library works on plain values
//! and its behaviour is specified and proved.

pub mod budget_formatter;
pub mod constants;
pub mod currency_converter_client;
pub mod dates;
pub mod exchange_rates;
pub mod foreign_accounts;
pub mod foreign_transactions_processor;
pub mod import_id_generator;
pub mod records;
pub mod tags;
pub mod text;
pub mod types;
