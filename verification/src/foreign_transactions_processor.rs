//! The reconciliation engine.
//!
//! For every changed ledger transaction (and every split component of a
//! parent), the engine decides whether a real currency-difference entry, a
//! zeroing ("soft delete"), or no entry is owed; computes the difference
//! amount and memo; matches the transaction against the persisted record of
//! earlier reconciliations to update rather than duplicate; keeps the
//! per-key balance ledger current; and finally computes the true-up
//! adjustment per difference key.  The engine is pure: it consumes plain
//! values and produces create/update intents; sending them and persisting
//! records is the caller's part.

use vstd::prelude::*;
use crate::budget_formatter::{
    spec_format_exchange_rate, spec_format_milliunits, spec_format_milliunits_with_code,
    BudgetFormatter, BudgetSettings,
};
use crate::constants::{adjustment_memo_prefix, format_adjustment_payee_name,
    spec_adjustment_payee_name};
use crate::dates::{parse_iso_date, spec_parse_iso_date, Date};
use crate::exchange_rates::ExchangeRatesCache;
use crate::foreign_accounts::{
    balances_cover_registry, AccountData, DifferenceBalances, ForeignAccounts,
    spec_bal_update,
};
use crate::import_id_generator::ImportIdGenerator;
use crate::records::{DifferenceTransactionStore, DifferenceTransactionV};
use crate::tags::{find_convert_tag, find_no_convert_tag, has_convert_tag, has_no_convert_tag};
use crate::text::{dec_digits, push_u64_decimal};
use crate::types::{
    spec_convert_currency, round_scaled_half_even, CurrencyCode, DifferenceKey, ExchangeRate,
    Milliunits, YnabAccountId, YnabImportId, YnabTransactionId,
};

verus! {

/// The cleared state of a transaction in the remote ledger.
#[derive(Clone, Copy, Debug, PartialEq, Eq, Structural)]
pub enum Cleared {
    Cleared,
    Uncleared,
    Reconciled,
}

/// The flag colour of a transaction in the remote ledger.
#[derive(Clone, Copy, Debug, PartialEq, Eq, Structural)]
pub enum FlagColor {
    Red,
    Orange,
    Yellow,
    Green,
    Blue,
    Purple,
}

/// One split component of a parent transaction, as the engine reads it.
#[derive(Debug)]
pub struct SubTransactionInput {
    pub id: YnabTransactionId,
    pub payee_id: Option<String>,
    pub category_id: Option<String>,
    /// The amount in milliunits.
    pub amount: i64,
    pub memo: Option<String>,
    pub transfer_account_id: Option<YnabAccountId>,
    pub deleted: bool,
}

/// One changed transaction of the batch, as the engine reads it.
#[derive(Debug)]
pub struct TransactionInput {
    pub id: YnabTransactionId,
    pub account_id: YnabAccountId,
    /// The ISO `YYYY-MM-DD` date text, as the ledger sends it.
    pub date: String,
    /// The amount in milliunits.
    pub amount: i64,
    pub payee_id: Option<String>,
    pub payee_name: Option<String>,
    pub category_id: Option<String>,
    pub category_name: Option<String>,
    pub memo: Option<String>,
    pub cleared: Cleared,
    pub approved: bool,
    pub flag_color: Option<FlagColor>,
    pub transfer_account_id: Option<YnabAccountId>,
    pub import_id: Option<String>,
    pub matched_transaction_id: Option<String>,
    pub deleted: bool,
    pub subtransactions: Vec<SubTransactionInput>,
}

/// The view of an owned optional text.
pub open spec fn opt_view(o: Option<String>) -> Option<Seq<char>> {
    match o {
        Option::Some(s) => Option::Some(s@),
        Option::None => Option::None,
    }
}

/// The view of an owned optional account id.
pub open spec fn opt_id_view(o: Option<YnabAccountId>) -> Option<Seq<char>> {
    match o {
        Option::Some(s) => Option::Some(s@),
        Option::None => Option::None,
    }
}

/// The value of one split component.
#[verifier::ext_equal]
pub ghost struct SubTransactionInputV {
    pub id: Seq<char>,
    pub payee_id: Option<Seq<char>>,
    pub category_id: Option<Seq<char>>,
    pub amount: int,
    pub memo: Option<Seq<char>>,
    pub transfer_account_id: Option<Seq<char>>,
    pub deleted: bool,
}

impl View for SubTransactionInput {
    type V = SubTransactionInputV;

    open spec fn view(&self) -> SubTransactionInputV {
        SubTransactionInputV {
            id: self.id@,
            payee_id: opt_view(self.payee_id),
            category_id: opt_view(self.category_id),
            amount: self.amount as int,
            memo: opt_view(self.memo),
            transfer_account_id: opt_id_view(self.transfer_account_id),
            deleted: self.deleted,
        }
    }
}

/// The value of one changed transaction.
#[verifier::ext_equal]
pub ghost struct TransactionInputV {
    pub id: Seq<char>,
    pub account_id: Seq<char>,
    pub date: Seq<char>,
    pub amount: int,
    pub payee_id: Option<Seq<char>>,
    pub payee_name: Option<Seq<char>>,
    pub category_id: Option<Seq<char>>,
    pub category_name: Option<Seq<char>>,
    pub memo: Option<Seq<char>>,
    pub cleared: Cleared,
    pub approved: bool,
    pub flag_color: Option<FlagColor>,
    pub transfer_account_id: Option<Seq<char>>,
    pub import_id: Option<Seq<char>>,
    pub matched_transaction_id: Option<Seq<char>>,
    pub deleted: bool,
    pub subtransactions: Seq<SubTransactionInputV>,
}

impl View for TransactionInput {
    type V = TransactionInputV;

    open spec fn view(&self) -> TransactionInputV {
        TransactionInputV {
            id: self.id@,
            account_id: self.account_id@,
            date: self.date@,
            amount: self.amount as int,
            payee_id: opt_view(self.payee_id),
            payee_name: opt_view(self.payee_name),
            category_id: opt_view(self.category_id),
            category_name: opt_view(self.category_name),
            memo: opt_view(self.memo),
            cleared: self.cleared,
            approved: self.approved,
            flag_color: self.flag_color,
            transfer_account_id: opt_id_view(self.transfer_account_id),
            import_id: opt_view(self.import_id),
            matched_transaction_id: opt_view(self.matched_transaction_id),
            deleted: self.deleted,
            subtransactions: self.subtransactions@.map_values(|s: SubTransactionInput| s@),
        }
    }
}

/// What a parent transaction shares with all its components.
#[derive(Clone, Copy, Debug, PartialEq, Eq, Structural)]
pub struct ForeignCommonData {
    /// The difference key of the transaction's own account, when foreign.
    pub difference_key: Option<DifferenceKey>,
    pub transaction_date: Date,
    pub transaction_cleared: Cleared,
    pub transaction_approved: bool,
    pub transaction_flag_color: Option<FlagColor>,
    pub transaction_has_matched_transaction_id: bool,
    pub transaction_has_import_id: bool,
}

/// What one component (a parent or one split) carries of its own.
#[derive(Debug)]
pub struct ForeignTransactionData {
    pub ynab_transaction_id: YnabTransactionId,
    pub payee_id: Option<String>,
    pub payee_name: Option<String>,
    pub transfer_account_id: Option<YnabAccountId>,
    pub category_id: Option<String>,
    pub category_name: Option<String>,
    pub amount: Milliunits,
    pub memo: Option<String>,
    pub difference_memo_prefix: String,
    pub deleted: bool,
}

/// The value of one component.
#[verifier::ext_equal]
pub ghost struct ForeignTransactionDataV {
    pub id: Seq<char>,
    pub payee_id: Option<Seq<char>>,
    pub payee_name: Option<Seq<char>>,
    pub transfer_account_id: Option<Seq<char>>,
    pub category_id: Option<Seq<char>>,
    pub category_name: Option<Seq<char>>,
    pub amount: int,
    pub memo: Option<Seq<char>>,
    pub prefix: Seq<char>,
    pub deleted: bool,
}

impl View for ForeignTransactionData {
    type V = ForeignTransactionDataV;

    open spec fn view(&self) -> ForeignTransactionDataV {
        ForeignTransactionDataV {
            id: self.ynab_transaction_id@,
            payee_id: opt_view(self.payee_id),
            payee_name: opt_view(self.payee_name),
            transfer_account_id: opt_id_view(self.transfer_account_id),
            category_id: opt_view(self.category_id),
            category_name: opt_view(self.category_name),
            amount: self.amount@,
            memo: opt_view(self.memo),
            prefix: self.difference_memo_prefix@,
            deleted: self.deleted,
        }
    }
}

/// A create intent against the remote ledger.
#[derive(Debug)]
pub struct SaveTransactionIntent {
    pub account_id: YnabAccountId,
    pub date: Date,
    pub amount: Milliunits,
    pub payee_id: Option<String>,
    pub payee_name: Option<String>,
    pub category_id: Option<String>,
    pub memo: String,
    pub cleared: Option<Cleared>,
    pub approved: Option<bool>,
    pub flag_color: Option<FlagColor>,
    pub import_id: Option<YnabImportId>,
}

/// The value of a create intent.
#[verifier::ext_equal]
pub ghost struct SaveIntentV {
    pub account_id: Seq<char>,
    pub date: Date,
    pub amount: int,
    pub payee_id: Option<Seq<char>>,
    pub payee_name: Option<Seq<char>>,
    pub category_id: Option<Seq<char>>,
    pub memo: Seq<char>,
    pub cleared: Option<Cleared>,
    pub approved: Option<bool>,
    pub flag_color: Option<FlagColor>,
    pub import_id: Option<Seq<char>>,
}

impl View for SaveTransactionIntent {
    type V = SaveIntentV;

    open spec fn view(&self) -> SaveIntentV {
        SaveIntentV {
            account_id: self.account_id@,
            date: self.date,
            amount: self.amount@,
            payee_id: opt_view(self.payee_id),
            payee_name: opt_view(self.payee_name),
            category_id: opt_view(self.category_id),
            memo: self.memo@,
            cleared: self.cleared,
            approved: self.approved,
            flag_color: self.flag_color,
            import_id: match self.import_id {
                Option::Some(i) => Option::Some(i@),
                Option::None => Option::None,
            },
        }
    }
}

/// An update intent against an existing difference transaction.
#[derive(Debug)]
pub struct UpdateTransactionIntent {
    pub id: YnabTransactionId,
    pub account_id: YnabAccountId,
    pub date: Date,
    pub amount: Milliunits,
    pub payee_id: Option<String>,
    pub category_id: Option<String>,
    pub memo: String,
    pub cleared: Option<Cleared>,
    pub approved: Option<bool>,
    pub flag_color: Option<FlagColor>,
    pub import_id: Option<YnabImportId>,
}

/// The value of an update intent.
#[verifier::ext_equal]
pub ghost struct UpdateIntentV {
    pub id: Seq<char>,
    pub account_id: Seq<char>,
    pub date: Date,
    pub amount: int,
    pub payee_id: Option<Seq<char>>,
    pub category_id: Option<Seq<char>>,
    pub memo: Seq<char>,
    pub cleared: Option<Cleared>,
    pub approved: Option<bool>,
    pub flag_color: Option<FlagColor>,
    pub import_id: Option<Seq<char>>,
}

impl View for UpdateTransactionIntent {
    type V = UpdateIntentV;

    open spec fn view(&self) -> UpdateIntentV {
        UpdateIntentV {
            id: self.id@,
            account_id: self.account_id@,
            date: self.date,
            amount: self.amount@,
            payee_id: opt_view(self.payee_id),
            category_id: opt_view(self.category_id),
            memo: self.memo@,
            cleared: self.cleared,
            approved: self.approved,
            flag_color: self.flag_color,
            import_id: match self.import_id {
                Option::Some(i) => Option::Some(i@),
                Option::None => Option::None,
            },
        }
    }
}

/// Everything one batch intends to change: creates, updates, the mapping
/// from fresh import ids back to the foreign transactions they reconcile,
/// and the stale record ids to delete.
#[derive(Debug)]
pub struct TransactionsModificationsData {
    pub create_transactions: Vec<SaveTransactionIntent>,
    pub update_transactions: Vec<UpdateTransactionIntent>,
    pub create_import_ids_foreign_ynab_transaction_ids: Vec<(YnabImportId, YnabTransactionId)>,
    pub delete_difference_transaction_ids: Vec<YnabTransactionId>,
}

pub open spec fn creates_view(v: Seq<SaveTransactionIntent>) -> Seq<SaveIntentV> {
    v.map_values(|x: SaveTransactionIntent| x@)
}

pub open spec fn updates_view(v: Seq<UpdateTransactionIntent>) -> Seq<UpdateIntentV> {
    v.map_values(|x: UpdateTransactionIntent| x@)
}

pub open spec fn pairs_view(v: Seq<(YnabImportId, YnabTransactionId)>) -> Seq<
    (Seq<char>, Seq<char>),
> {
    v.map_values(|x: (YnabImportId, YnabTransactionId)| (x.0@, x.1@))
}

pub open spec fn ids_view(v: Seq<YnabTransactionId>) -> Seq<Seq<char>> {
    v.map_values(|x: YnabTransactionId| x@)
}

impl TransactionsModificationsData {
    pub fn new() -> (r: TransactionsModificationsData)
        ensures
            r.create_transactions@.len() == 0,
            r.update_transactions@.len() == 0,
            r.create_import_ids_foreign_ynab_transaction_ids@.len() == 0,
            r.delete_difference_transaction_ids@.len() == 0,
    {
        TransactionsModificationsData {
            create_transactions: Vec::new(),
            update_transactions: Vec::new(),
            create_import_ids_foreign_ynab_transaction_ids: Vec::new(),
            delete_difference_transaction_ids: Vec::new(),
        }
    }

    /// Whether the batch intends any create or update.
    pub fn has_changes(&self) -> (r: bool)
        ensures
            r == (self.create_transactions@.len() > 0 || self.update_transactions@.len() > 0),
    {
        self.create_transactions.len() > 0 || self.update_transactions.len() > 0
    }

    /// Whether the batch intends nothing.
    pub fn is_empty(&self) -> (r: bool)
        ensures
            r == (self.create_transactions@.len() == 0 && self.update_transactions@.len() == 0),
    {
        self.create_transactions.len() == 0 && self.update_transactions.len() == 0
    }
}

/// How processing a batch fails.  Any failure aborts the batch before any
/// remote mutation.
#[derive(Clone, Copy, Debug, PartialEq, Eq, Structural)]
pub enum EngineError {
    /// The transaction at this position names an account the registry does
    /// not know.
    UnknownAccount { index: usize },
    /// The transaction at this position carries an invalid date text.
    InvalidTransactionDate { index: usize },
    /// No exchange rate is known for this currency and date.
    MissingExchangeRate { currency: CurrencyCode, date: Date },
    /// A computed amount or running total left the representable range.
    AmountOverflow,
    /// A needed difference key has no registered difference account or
    /// balance entry.
    UnregisteredDifferenceKey { key: DifferenceKey },
    /// A saved transaction's account is no registered difference account,
    /// though the engine only writes to difference accounts.
    NotDifferenceAccount { index: usize },
}

/// The immutable surroundings of one batch.
#[verifier::ext_equal]
pub ghost struct EngineEnv {
    pub accounts: Map<Seq<char>, AccountData>,
    pub diff_ids: Map<DifferenceKey, Seq<char>>,
    pub rates: Map<(CurrencyCode, Date), int>,
    pub records: Map<Seq<char>, DifferenceTransactionV>,
    pub settings: BudgetSettings,
    pub local_currency: CurrencyCode,
    pub today: Date,
    pub import_prefix: Seq<char>,
    pub auto_approve_transactions: bool,
    pub auto_approve_adjustments: bool,
}

/// The mutable state of one batch.
#[verifier::ext_equal]
pub ghost struct EngineStateV {
    pub balances: Map<DifferenceKey, (int, int)>,
    pub counter: nat,
    pub creates: Seq<SaveIntentV>,
    pub updates: Seq<UpdateIntentV>,
    pub import_pairs: Seq<(Seq<char>, Seq<char>)>,
    pub deletes: Seq<Seq<char>>,
}

/// The memo suffix: the original memo after one space, or nothing.
pub open spec fn spec_memo_suffix(memo: Option<Seq<char>>) -> Seq<char> {
    match memo {
        Option::None => Seq::empty(),
        Option::Some(m) => seq![' '] + m,
    }
}

/// The memo carries a force-convert marker.
pub open spec fn spec_force_convert_memo(memo: Option<Seq<char>>) -> bool {
    memo matches Some(m) && has_convert_tag(m)
}

/// The memo carries a no-convert marker.
pub open spec fn spec_force_no_convert_memo(memo: Option<Seq<char>>) -> bool {
    memo matches Some(m) && has_no_convert_tag(m)
}

/// The transfer counterpart is a local account tagged force-convert.
pub open spec fn spec_convert_transfer_account(
    env: EngineEnv,
    transfer_account_id: Option<Seq<char>>,
) -> bool {
    match transfer_account_id {
        Option::Some(tid) => env.accounts.contains_key(tid) && (env.accounts[tid]
            matches AccountData::Local { force_convert } && force_convert),
        Option::None => false,
    }
}

/// The soft-delete rule: the component is deleted, or its memo forbids
/// conversion, or it is a transfer that neither a force-convert counterpart
/// nor a force-convert memo rescues, or it is an unapproved transaction
/// already matched to an import (the reconciliation race-condition guard).
pub open spec fn spec_soft_delete(
    env: EngineEnv,
    common: ForeignCommonData,
    f: ForeignTransactionDataV,
) -> bool {
    ||| f.deleted
    ||| spec_force_no_convert_memo(f.memo)
    ||| (f.transfer_account_id is Some && !spec_convert_transfer_account(env, f.transfer_account_id)
        && !spec_force_convert_memo(f.memo))
    ||| (common.transaction_has_matched_transaction_id && common.transaction_has_import_id
        && !common.transaction_approved)
}

/// The human-readable exchange summary put in difference memos:
/// `AMT CUR @RATE/CUR = CONVERTED`.
pub open spec fn spec_exchange_summary(
    settings: BudgetSettings,
    currency: CurrencyCode,
    amount: int,
    rate: int,
    converted: int,
) -> Seq<char> {
    spec_format_milliunits_with_code(&settings.currency_format, currency, amount) + " @"@
        + spec_format_exchange_rate(&settings.currency_format, rate) + "/"@ + currency.chars()
        + " = "@ + spec_format_milliunits(&settings.currency_format, converted)
}

/// What one component owes: the difference amount at scale 3 and the memo,
/// or the error that aborts the batch.  First match wins: soft-delete, then
/// conversion on a foreign account, then moved-to-local.
pub open spec fn spec_decide(
    env: EngineEnv,
    common: ForeignCommonData,
    f: ForeignTransactionDataV,
) -> Result<(int, Seq<char>), EngineError> {
    if spec_soft_delete(env, common, f) {
        Ok((0int, "<DELETED>"@ + f.prefix + spec_memo_suffix(f.memo)))
    } else if common.difference_key is Some {
        let k = common.difference_key->0;
        if !env.rates.contains_key((k.currency, common.transaction_date)) {
            Err(
                EngineError::MissingExchangeRate {
                    currency: k.currency,
                    date: common.transaction_date,
                },
            )
        } else {
            let rate = env.rates[(k.currency, common.transaction_date)];
            if f.amount == i64::MIN as int || rate == i64::MIN as int {
                Err(EngineError::AmountOverflow)
            } else {
                let conv = spec_convert_currency(f.amount, rate);
                if !(i64::MIN < conv <= i64::MAX) {
                    Err(EngineError::AmountOverflow)
                } else {
                    let diff = conv - f.amount;
                    if !(i64::MIN + 1000 <= diff <= i64::MAX - 1000) {
                        Err(EngineError::AmountOverflow)
                    } else {
                        let digits = env.settings.currency_format.decimal_digits;
                        let rounded = round_scaled_half_even(diff, (3 - digits) as nat);
                        let memo = "<"@ + spec_exchange_summary(
                            env.settings,
                            k.currency,
                            f.amount,
                            rate,
                            conv,
                        ) + ">"@ + f.prefix + spec_memo_suffix(f.memo);
                        Ok((rounded, memo))
                    }
                }
            }
        }
    } else {
        Ok((0int, "<MOVED TO LOCAL CURRENCY ACCOUNT>"@ + f.prefix + spec_memo_suffix(f.memo)))
    }
}

/// A record considered existing for a component: stored for its foreign id
/// and not already slated for deletion this batch.
pub open spec fn spec_existing_record(
    env: EngineEnv,
    st: EngineStateV,
    id: Seq<char>,
) -> Option<DifferenceTransactionV> {
    if env.records.contains_key(id) {
        let rec = env.records[id];
        if st.deletes.contains(rec.difference_transaction_id) {
            Option::None
        } else {
            Option::Some(rec)
        }
    } else {
        Option::None
    }
}

/// The difference key of the transfer counterpart, when it is a foreign
/// account.
pub open spec fn spec_transfer_key(
    env: EngineEnv,
    transfer_account_id: Option<Seq<char>>,
) -> Option<DifferenceKey> {
    match transfer_account_id {
        Option::Some(tid) => if env.accounts.contains_key(tid) {
            match env.accounts[tid] {
                AccountData::Foreign { difference_key } => Option::Some(difference_key),
                _ => Option::None,
            }
        } else {
            Option::None
        },
        Option::None => Option::None,
    }
}

/// The text of the import id issued at a counter value.
pub open spec fn spec_import_id_text(prefix: Seq<char>, counter: nat) -> Seq<char> {
    prefix + ":"@ + dec_digits(counter)
}

/// Processes one component: decides amount and memo, nets out the earlier
/// record's delta, then emits an update against the existing difference
/// transaction, or a create with a fresh import id for a nonzero amount,
/// and applies the new delta to the balance ledger.
pub open spec fn spec_process_one(
    env: EngineEnv,
    st: EngineStateV,
    common: ForeignCommonData,
    f: ForeignTransactionDataV,
) -> Result<EngineStateV, EngineError> {
    match spec_decide(env, common, f) {
        Err(e) => Err(e),
        Ok((amount, memo)) => {
            let existing = spec_existing_record(env, st, f.id);
            let balances1 = match existing {
                Option::Some(rec) => spec_bal_update(
                    st.balances,
                    rec.difference_key,
                    rec.transfer_key,
                    -rec.amount,
                ),
                Option::None => Option::Some(st.balances),
            };
            match balances1 {
                Option::None => Err(EngineError::AmountOverflow),
                Option::Some(bal1) => {
                    let key_opt = if common.difference_key is Some {
                        common.difference_key
                    } else {
                        match existing {
                            Option::Some(rec) => Option::Some(rec.difference_key),
                            Option::None => Option::None,
                        }
                    };
                    if key_opt is None {
                        Ok(EngineStateV { balances: bal1, ..st })
                    } else {
                        let key = key_opt->0;
                        if !env.diff_ids.contains_key(key) || !bal1.contains_key(key) {
                            Err(EngineError::UnregisteredDifferenceKey { key })
                        } else {
                            let account_id = env.diff_ids[key];
                            let st1 = EngineStateV { balances: bal1, ..st };
                            let st2 = match existing {
                                Option::Some(rec) => EngineStateV {
                                    updates: st1.updates.push(
                                        UpdateIntentV {
                                            id: rec.difference_transaction_id,
                                            account_id,
                                            date: common.transaction_date,
                                            amount,
                                            payee_id: f.payee_id,
                                            category_id: f.category_id,
                                            memo,
                                            cleared: Option::Some(common.transaction_cleared),
                                            approved: Option::None,
                                            flag_color: common.transaction_flag_color,
                                            import_id: Option::None,
                                        },
                                    ),
                                    ..st1
                                },
                                Option::None => if amount != 0 {
                                    let iid = spec_import_id_text(env.import_prefix, st1.counter);
                                    EngineStateV {
                                        creates: st1.creates.push(
                                            SaveIntentV {
                                                account_id,
                                                date: common.transaction_date,
                                                amount,
                                                payee_id: f.payee_id,
                                                payee_name: Option::None,
                                                category_id: f.category_id,
                                                memo,
                                                cleared: Option::Some(
                                                    common.transaction_cleared,
                                                ),
                                                approved: Option::Some(
                                                    env.auto_approve_transactions,
                                                ),
                                                flag_color: common.transaction_flag_color,
                                                import_id: Option::Some(iid),
                                            },
                                        ),
                                        import_pairs: st1.import_pairs.push((iid, f.id)),
                                        counter: st1.counter + 1,
                                        ..st1
                                    }
                                } else {
                                    st1
                                },
                            };
                            let tkey = spec_transfer_key(env, f.transfer_account_id);
                            if tkey matches Some(t) && !st2.balances.contains_key(t) {
                                Err(EngineError::UnregisteredDifferenceKey { key: tkey->0 })
                            } else {
                                match spec_bal_update(st2.balances, key, tkey, amount) {
                                    Option::None => Err(EngineError::AmountOverflow),
                                    Option::Some(b) => Ok(EngineStateV { balances: b, ..st2 }),
                                }
                            }
                        }
                    }
                },
            }
        },
    }
}

/// Every stored record's keys are registered and balanced, and its amount
/// is representable with its negation.
pub open spec fn records_keys_known(
    records: Map<Seq<char>, DifferenceTransactionV>,
    balances: Map<DifferenceKey, (int, int)>,
    diff_ids: Map<DifferenceKey, Seq<char>>,
) -> bool {
    forall|id: Seq<char>|
        #[trigger] records.contains_key(id) ==> {
            let rec = records[id];
            &&& balances.contains_key(rec.difference_key)
            &&& diff_ids.contains_key(rec.difference_key)
            &&& (rec.transfer_key matches Some(t) ==> balances.contains_key(t))
            &&& rec.amount != i64::MIN as int
        }
}

/// An update of known keys keeps the set of known keys.
pub proof fn lemma_bal_update_preserves_domain(
    m: Map<DifferenceKey, (int, int)>,
    key: DifferenceKey,
    tkey: Option<DifferenceKey>,
    delta: int,
)
    requires
        m.contains_key(key),
        tkey matches Some(t) ==> m.contains_key(t),
        spec_bal_update(m, key, tkey, delta) is Some,
    ensures
        forall|k: DifferenceKey|
            spec_bal_update(m, key, tkey, delta)->0.contains_key(k) <==> #[trigger] m.contains_key(
                k,
            ),
{
}

/// Copies an optional text.
pub fn clone_opt_string(o: &Option<String>) -> (r: Option<String>)
    ensures
        opt_view(r) == crate::foreign_accounts::opt_str_view(o),
{
    match o {
        Option::Some(s) => Some(s.clone()),
        Option::None => None,
    }
}

/// Copies an optional account id.
pub fn clone_opt_account_id(o: &Option<YnabAccountId>) -> (r: Option<YnabAccountId>)
    ensures
        opt_id_view(r) == match o {
            Option::Some(s) => Option::Some(s@),
            Option::None => Option::<Seq<char>>::None,
        },
{
    match o {
        Option::Some(s) => Some(s.clone_id()),
        Option::None => None,
    }
}

/// Whether the id list holds this id.
fn ids_contain(v: &Vec<YnabTransactionId>, id: &YnabTransactionId) -> (r: bool)
    ensures
        r == ids_view(v@).contains(id@),
{
    let mut i: usize = 0;
    while i < v.len()
        invariant
            i <= v@.len(),
            forall|k: int| 0 <= k < i ==> (#[trigger] v@[k])@ != id@,
        decreases v@.len() - i,
    {
        if v[i].eq_id(id) {
            proof {
                assert(ids_view(v@)[i as int] == id@);
            }
            return true;
        }
        i = i + 1;
    }
    proof {
        assert forall|k: int| 0 <= k < ids_view(v@).len() implies ids_view(v@)[k] != id@ by {
            assert(ids_view(v@)[k] == v@[k]@);
        }
    }
    false
}

/// Appends a tag, the split prefix and the original memo.
fn build_tag_memo(tag: &str, prefix: &str, memo: &Option<String>) -> (r: String)
    ensures
        r@ == tag@ + prefix@ + spec_memo_suffix(crate::foreign_accounts::opt_str_view(memo)),
{
    let mut s = String::new();
    s.append(tag);
    s.append(prefix);
    match memo {
        Option::Some(m) => {
            s.append(" ");
            s.append(m.as_str());
        },
        Option::None => {},
    }
    proof {
        reveal_strlit(" ");
        assert(s@ =~= tag@ + prefix@ + spec_memo_suffix(
            crate::foreign_accounts::opt_str_view(memo),
        ));
    }
    s
}

/// The reconciliation engine for one batch: the registry and settings of
/// the budget, the rates and records loaded for the batch, and the running
/// balances it mutates.
pub struct ForeignTransactionsProcessor {
    pub today_date: Date,
    pub auto_approve_transactions: bool,
    pub auto_approve_adjustments: bool,
    pub budget_formatter: BudgetFormatter,
    pub local_currency: CurrencyCode,
    pub exchange_rates_cache: ExchangeRatesCache,
    pub import_id_generator: ImportIdGenerator,
    pub foreign_accounts: ForeignAccounts,
    pub difference_balances: DifferenceBalances,
    pub records: DifferenceTransactionStore,
}

impl ForeignTransactionsProcessor {
    /// The immutable surroundings of the batch.
    pub open spec fn env(&self) -> EngineEnv {
        EngineEnv {
            accounts: self.foreign_accounts.accounts_map(),
            diff_ids: self.foreign_accounts.diff_map(),
            rates: self.exchange_rates_cache.map_view(),
            records: self.records.map_view(),
            settings: self.budget_formatter.settings,
            local_currency: self.local_currency,
            today: self.today_date,
            import_prefix: self.import_id_generator.prefix@,
            auto_approve_transactions: self.auto_approve_transactions,
            auto_approve_adjustments: self.auto_approve_adjustments,
        }
    }

    /// The mutable state, paired with the intents gathered so far.
    pub open spec fn state_of(&self, mods: &TransactionsModificationsData) -> EngineStateV {
        EngineStateV {
            balances: self.difference_balances.map_view(),
            counter: self.import_id_generator.next_number as nat,
            creates: creates_view(mods.create_transactions@),
            updates: updates_view(mods.update_transactions@),
            import_pairs: pairs_view(mods.create_import_ids_foreign_ynab_transaction_ids@),
            deletes: ids_view(mods.delete_difference_transaction_ids@),
        }
    }

    /// The engine's soundness: well-formed settings and registry, a sound
    /// ledger that covers the registry, and records whose keys are known.
    pub open spec fn wf(&self) -> bool {
        &&& self.budget_formatter.settings.wf()
        &&& self.foreign_accounts.wf()
        &&& self.difference_balances.wf()
        &&& balances_cover_registry(&self.foreign_accounts, &self.difference_balances)
        &&& records_keys_known(
            self.records.map_view(),
            self.difference_balances.map_view(),
            self.foreign_accounts.diff_map(),
        )
    }

    /// Assembles the engine for one batch.
    pub fn new(
        today_date: Date,
        auto_approve_transactions: bool,
        auto_approve_adjustments: bool,
        budget_formatter: BudgetFormatter,
        local_currency: CurrencyCode,
        exchange_rates_cache: ExchangeRatesCache,
        import_id_generator: ImportIdGenerator,
        foreign_accounts: ForeignAccounts,
        difference_balances: DifferenceBalances,
        records: DifferenceTransactionStore,
    ) -> (r: ForeignTransactionsProcessor)
        ensures
            r == (ForeignTransactionsProcessor {
                today_date,
                auto_approve_transactions,
                auto_approve_adjustments,
                budget_formatter,
                local_currency,
                exchange_rates_cache,
                import_id_generator,
                foreign_accounts,
                difference_balances,
                records,
            }),
    {
        ForeignTransactionsProcessor {
            today_date,
            auto_approve_transactions,
            auto_approve_adjustments,
            budget_formatter,
            local_currency,
            exchange_rates_cache,
            import_id_generator,
            foreign_accounts,
            difference_balances,
            records,
        }
    }

    /// The exchange summary of one conversion; see `spec_exchange_summary`.
    fn format_exchange(
        &self,
        currency: CurrencyCode,
        amount: Milliunits,
        exchange_rate: ExchangeRate,
        converted: Milliunits,
    ) -> (r: String)
        requires
            self.budget_formatter.settings.wf(),
            currency.wf(),
            amount@ != i64::MIN,
            exchange_rate@ != i64::MIN,
            converted@ != i64::MIN,
        ensures
            r@ == spec_exchange_summary(
                self.budget_formatter.settings,
                currency,
                amount@,
                exchange_rate@,
                converted@,
            ),
    {
        let mut s = String::new();
        let part = self.budget_formatter.format_milliunits_with_code(currency, amount);
        s.append(part.as_str());
        s.append(" @");
        let part = self.budget_formatter.format_exchange_rate(exchange_rate);
        s.append(part.as_str());
        s.append("/");
        let part = currency.to_str();
        s.append(part.as_str());
        s.append(" = ");
        let part = self.budget_formatter.format_milliunits(converted);
        s.append(part.as_str());
        proof {
            assert(s@ =~= spec_exchange_summary(
                self.budget_formatter.settings,
                currency,
                amount@,
                exchange_rate@,
                converted@,
            ));
        }
        s
    }

    /// Processes one parent transaction or one split component.
    fn process_parent_or_subtransaction(
        &mut self,
        transactions_modifications: &mut TransactionsModificationsData,
        common: &ForeignCommonData,
        foreign: &ForeignTransactionData,
    ) -> (r: Result<(), EngineError>)
        requires
            old(self).wf(),
            old(self).import_id_generator.next_number < u64::MAX,
            common.difference_key matches Some(k) ==> k.wf() && old(
                self,
            ).difference_balances.map_view().contains_key(k) && old(
                self,
            ).foreign_accounts.diff_map().contains_key(k),
        ensures
            final(self).wf(),
            final(self).env() == old(self).env(),
            final(self).import_id_generator.next_number >= old(
                self,
            ).import_id_generator.next_number,
            match spec_process_one(
                old(self).env(),
                old(self).state_of(old(transactions_modifications)),
                *common,
                foreign@,
            ) {
                Result::Ok(stv) => r is Ok && final(self).state_of(
                    final(transactions_modifications),
                ) == stv,
                Result::Err(e) => r == Result::<(), EngineError>::Err(e),
            },
    {
        let ghost env = self.env();
        let ghost st0 = self.state_of(transactions_modifications);
        // decide amount and memo
        let force_convert = match &foreign.memo {
            Option::Some(m) => find_convert_tag(m.as_str()),
            Option::None => false,
        };
        let force_no_convert = match &foreign.memo {
            Option::Some(m) => find_no_convert_tag(m.as_str()),
            Option::None => false,
        };
        let convert_transfer_account = match &foreign.transfer_account_id {
            Option::Some(account_id) => match self.foreign_accounts.get_account_data(account_id) {
                Option::Some(AccountData::Local { force_convert }) => *force_convert,
                _ => false,
            },
            Option::None => false,
        };
        let soft_delete = foreign.deleted || force_no_convert || (
        foreign.transfer_account_id.is_some() && !convert_transfer_account && !force_convert) || (
        common.transaction_has_matched_transaction_id && common.transaction_has_import_id
            && !common.transaction_approved);
        proof {
            assert(soft_delete == spec_soft_delete(env, *common, foreign@));
        }
        let (difference_amount, difference_memo): (Milliunits, String) = if soft_delete {
            (
                Milliunits::zero(),
                build_tag_memo(
                    "<DELETED>",
                    foreign.difference_memo_prefix.as_str(),
                    &foreign.memo,
                ),
            )
        } else if let Some(difference_key) = common.difference_key {
            let exchange_rate = match self.exchange_rates_cache.get_exchange_rate(
                difference_key.currency,
                common.transaction_date,
            ) {
                Option::Some(rate) => rate,
                Option::None => {
                    return Err(
                        EngineError::MissingExchangeRate {
                            currency: difference_key.currency,
                            date: common.transaction_date,
                        },
                    );
                },
            };
            if foreign.amount.to_scaled_i64() == i64::MIN || exchange_rate.to_scaled_i64()
                == i64::MIN {
                return Err(EngineError::AmountOverflow);
            }
            let converted = match foreign.amount.checked_convert_currency(exchange_rate) {
                Option::Some(c) => c,
                Option::None => {
                    return Err(EngineError::AmountOverflow);
                },
            };
            if converted.to_scaled_i64() == i64::MIN {
                return Err(EngineError::AmountOverflow);
            }
            let diff = match converted.checked_sub(foreign.amount) {
                Option::Some(d) => d,
                Option::None => {
                    return Err(EngineError::AmountOverflow);
                },
            };
            let d = diff.to_scaled_i64();
            if !(d >= i64::MIN + 1000 && d <= i64::MAX - 1000) {
                return Err(EngineError::AmountOverflow);
            }
            let rounded = diff.round_bankers(
                self.budget_formatter.settings.currency_format.decimal_digits,
            );
            let summary = self.format_exchange(
                difference_key.currency,
                foreign.amount,
                exchange_rate,
                converted,
            );
            let mut memo = String::new();
            memo.append("<");
            memo.append(summary.as_str());
            memo.append(">");
            memo.append(foreign.difference_memo_prefix.as_str());
            match &foreign.memo {
                Option::Some(m) => {
                    memo.append(" ");
                    memo.append(m.as_str());
                },
                Option::None => {},
            }
            proof {
                reveal_strlit("<");
                reveal_strlit(">");
                reveal_strlit(" ");
                assert(memo@ =~= "<"@ + spec_exchange_summary(
                    env.settings,
                    difference_key.currency,
                    foreign@.amount,
                    self.exchange_rates_cache.map_view()[
                        (difference_key.currency, common.transaction_date)],
                    spec_convert_currency(
                        foreign@.amount,
                        self.exchange_rates_cache.map_view()[
                            (difference_key.currency, common.transaction_date)],
                    ),
                ) + ">"@ + foreign@.prefix + spec_memo_suffix(foreign@.memo));
            }
            (rounded, memo)
        } else {
            (
                Milliunits::zero(),
                build_tag_memo(
                    "<MOVED TO LOCAL CURRENCY ACCOUNT>",
                    foreign.difference_memo_prefix.as_str(),
                    &foreign.memo,
                ),
            )
        };
        proof {
            reveal_strlit("<DELETED>");
            reveal_strlit("<MOVED TO LOCAL CURRENCY ACCOUNT>");
            assert(spec_decide(env, *common, foreign@) == Ok::<(int, Seq<char>), EngineError>((
                difference_amount@,
                difference_memo@,
            )));
        }
        // the existing record, unless slated for deletion this batch
        let opt_existing_difference_transaction = match self
            .records
            .get_difference_transaction_by_foreign_id(&foreign.ynab_transaction_id) {
            Option::Some(rec) => {
                if ids_contain(
                    &transactions_modifications.delete_difference_transaction_ids,
                    &rec.difference_transaction_id,
                ) {
                    None
                } else {
                    Some(
                        crate::records::DifferenceTransaction {
                            difference_transaction_id: rec.difference_transaction_id.clone_id(),
                            amount: rec.amount,
                            difference_key: rec.difference_key,
                            transfer_key: rec.transfer_key,
                        },
                    )
                }
            },
            Option::None => None,
        };
        proof {
            match &opt_existing_difference_transaction {
                Option::Some(rec) => {
                    assert(spec_existing_record(env, st0, foreign@.id) == Option::Some(rec@));
                },
                Option::None => {
                    assert(spec_existing_record(env, st0, foreign@.id) is None);
                },
            }
        }
        // net out the earlier delta
        if let Some(old_difference_transaction) = &opt_existing_difference_transaction {
            match self.difference_balances.update(
                old_difference_transaction.difference_key,
                old_difference_transaction.transfer_key,
                old_difference_transaction.amount.neg(),
            ) {
                Ok(()) => {
                    proof {
                        lemma_bal_update_preserves_domain(
                            st0.balances,
                            old_difference_transaction.difference_key,
                            old_difference_transaction.transfer_key,
                            -old_difference_transaction.amount@,
                        );
                    }
                },
                Err(_) => {
                    return Err(EngineError::AmountOverflow);
                },
            }
        }
        // resolve the effective key
        let opt_difference_key: Option<DifferenceKey> = match (
            common.difference_key,
            &opt_existing_difference_transaction,
        ) {
            (Option::Some(difference_key), _) => Some(difference_key),
            (Option::None, Option::Some(existing)) => Some(existing.difference_key),
            (Option::None, Option::None) => None,
        };
        let difference_key = match opt_difference_key {
            Option::Some(difference_key) => difference_key,
            Option::None => {
                return Ok(());
            },
        };
        let difference_account_id = match self.foreign_accounts.get_difference_account_id(
            difference_key,
        ) {
            Option::Some(id) => id.clone_id(),
            Option::None => {
                return Err(EngineError::UnregisteredDifferenceKey { key: difference_key });
            },
        };
        // emit the intent
        if let Some(difference_transaction) = &opt_existing_difference_transaction {
            let intent = UpdateTransactionIntent {
                id: difference_transaction.difference_transaction_id.clone_id(),
                account_id: difference_account_id,
                date: common.transaction_date,
                amount: difference_amount,
                payee_id: clone_opt_string(&foreign.payee_id),
                category_id: clone_opt_string(&foreign.category_id),
                memo: difference_memo,
                cleared: Some(common.transaction_cleared),
                approved: None,
                flag_color: common.transaction_flag_color,
                import_id: None,
            };
            let ghost pre = transactions_modifications.update_transactions@;
            transactions_modifications.update_transactions.push(intent);
            proof {
                assert(updates_view(transactions_modifications.update_transactions@)
                    =~= updates_view(pre).push(intent@));
            }
        } else if !difference_amount.is_zero() {
            let difference_import_id = self.import_id_generator.next_import_id();
            let ghost pre_pairs =
                transactions_modifications.create_import_ids_foreign_ynab_transaction_ids@;
            transactions_modifications.create_import_ids_foreign_ynab_transaction_ids.push(
                (difference_import_id.clone_id(), foreign.ynab_transaction_id.clone_id()),
            );
            let intent = SaveTransactionIntent {
                account_id: difference_account_id,
                date: common.transaction_date,
                amount: difference_amount,
                payee_id: clone_opt_string(&foreign.payee_id),
                payee_name: None,
                category_id: clone_opt_string(&foreign.category_id),
                memo: difference_memo,
                cleared: Some(common.transaction_cleared),
                approved: Some(self.auto_approve_transactions),
                flag_color: common.transaction_flag_color,
                import_id: Some(difference_import_id),
            };
            let ghost pre = transactions_modifications.create_transactions@;
            transactions_modifications.create_transactions.push(intent);
            proof {
                assert(creates_view(transactions_modifications.create_transactions@)
                    =~= creates_view(pre).push(intent@));
                assert(pairs_view(
                    transactions_modifications.create_import_ids_foreign_ynab_transaction_ids@,
                ) =~= pairs_view(pre_pairs).push(
                    (intent@.import_id->0, foreign@.id),
                ));
            }
        }
        // the transfer counterpart's key
        let transfer_difference_key: Option<DifferenceKey> = match &foreign.transfer_account_id {
            Option::Some(id) => match self.foreign_accounts.get_account_data(id) {
                Option::Some(AccountData::Foreign { difference_key }) => Some(*difference_key),
                _ => None,
            },
            Option::None => None,
        };
        proof {
            assert(transfer_difference_key == spec_transfer_key(env, foreign@.transfer_account_id));
            match transfer_difference_key {
                Option::Some(t) => {
                    assert(self.difference_balances.map_view().contains_key(t));
                },
                Option::None => {},
            }
            assert(self.difference_balances.map_view().contains_key(difference_key));
        }
        // apply the new delta
        let ghost bal_pre = self.difference_balances.map_view();
        match self.difference_balances.update(
            difference_key,
            transfer_difference_key,
            difference_amount,
        ) {
            Ok(()) => {
                proof {
                    lemma_bal_update_preserves_domain(
                        bal_pre,
                        difference_key,
                        transfer_difference_key,
                        difference_amount@,
                    );
                }
            },
            Err(_) => {
                return Err(EngineError::AmountOverflow);
            },
        }
        proof {
            assert(self.state_of(transactions_modifications) =~= spec_process_one(
                env,
                st0,
                *common,
                foreign@,
            )->Ok_0);
        }
        Ok(())
    }
}


/// The memo prefix of split component `i` of `n`.
pub open spec fn spec_split_prefix(i: int, n: int) -> Seq<char> {
    " (split "@ + dec_digits(i as nat) + "/"@ + dec_digits(n as nat) + ")"@
}

/// Builds the memo prefix of split component `i` of `n`.
fn build_split_prefix(i: u64, n: u64) -> (r: String)
    ensures
        r@ == spec_split_prefix(i as int, n as int),
{
    let mut s = String::new();
    s.append(" (split ");
    push_u64_decimal(&mut s, i);
    s.append("/");
    push_u64_decimal(&mut s, n);
    s.append(")");
    proof {
        reveal_strlit(" (split ");
        reveal_strlit("/");
        reveal_strlit(")");
        assert(s@ =~= spec_split_prefix(i as int, n as int));
    }
    s
}

/// The component data of split `j` of a parent: its own fields, the
/// parent's payee as fallback, the split memo prefix, and the parent's
/// deletion inherited.
pub open spec fn spec_sub_data(t: TransactionInputV, j: int) -> ForeignTransactionDataV {
    let sub = t.subtransactions[j];
    ForeignTransactionDataV {
        id: sub.id,
        payee_id: if sub.payee_id is Some {
            sub.payee_id
        } else {
            t.payee_id
        },
        payee_name: Option::None,
        transfer_account_id: sub.transfer_account_id,
        category_id: sub.category_id,
        category_name: Option::None,
        amount: sub.amount,
        memo: sub.memo,
        prefix: spec_split_prefix(j + 1, t.subtransactions.len() as int),
        deleted: sub.deleted || t.deleted,
    }
}

/// The component data of the parent itself.  A parent with splits is
/// treated as deleted: its components carry the difference entries.
pub open spec fn spec_parent_data(t: TransactionInputV) -> ForeignTransactionDataV {
    ForeignTransactionDataV {
        id: t.id,
        payee_id: t.payee_id,
        payee_name: t.payee_name,
        transfer_account_id: t.transfer_account_id,
        category_id: t.category_id,
        category_name: t.category_name,
        amount: t.amount,
        memo: t.memo,
        prefix: Seq::empty(),
        deleted: t.deleted || t.subtransactions.len() > 0,
    }
}

/// What a parent shares with its components, given its parsed date.
pub open spec fn spec_common_data(env: EngineEnv, t: TransactionInputV, date: Date)
    -> ForeignCommonData {
    ForeignCommonData {
        difference_key: match env.accounts[t.account_id] {
            AccountData::Foreign { difference_key } => Option::Some(difference_key),
            _ => Option::None,
        },
        transaction_date: date,
        transaction_cleared: t.cleared,
        transaction_approved: t.approved,
        transaction_flag_color: t.flag_color,
        transaction_has_matched_transaction_id: t.matched_transaction_id is Some,
        transaction_has_import_id: t.import_id is Some,
    }
}

/// Processes the splits of one parent from component `j` on.
pub open spec fn spec_process_subs(
    env: EngineEnv,
    st: EngineStateV,
    common: ForeignCommonData,
    t: TransactionInputV,
    j: int,
) -> Result<EngineStateV, EngineError>
    decreases t.subtransactions.len() - j,
{
    if j < 0 || j >= t.subtransactions.len() {
        Ok(st)
    } else {
        match spec_process_one(env, st, common, spec_sub_data(t, j)) {
            Err(e) => Err(e),
            Ok(st1) => spec_process_subs(env, st1, common, t, j + 1),
        }
    }
}

/// Processes one parent transaction: transactions in difference accounts
/// are skipped (the engine created them), an unknown account or an invalid
/// date aborts, otherwise every split and then the parent itself is
/// processed.
pub open spec fn spec_process_parent(
    env: EngineEnv,
    st: EngineStateV,
    t: TransactionInputV,
    index: usize,
) -> Result<EngineStateV, EngineError> {
    if !env.accounts.contains_key(t.account_id) {
        Err(EngineError::UnknownAccount { index })
    } else if env.accounts[t.account_id] is Difference {
        Ok(st)
    } else {
        match spec_parse_iso_date(t.date) {
            Option::None => Err(EngineError::InvalidTransactionDate { index }),
            Option::Some(date) => {
                let common = spec_common_data(env, t, date);
                match spec_process_subs(env, st, common, t, 0) {
                    Err(e) => Err(e),
                    Ok(st1) => spec_process_one(env, st1, common, spec_parent_data(t)),
                }
            },
        }
    }
}

/// Processes the parents from position `i` on.
pub open spec fn spec_process_txns_from(
    env: EngineEnv,
    st: EngineStateV,
    txns: Seq<TransactionInputV>,
    i: int,
) -> Result<EngineStateV, EngineError>
    decreases txns.len() - i,
{
    if i < 0 || i >= txns.len() {
        Ok(st)
    } else {
        match spec_process_parent(env, st, txns[i], i as usize) {
            Err(e) => Err(e),
            Ok(st1) => spec_process_txns_from(env, st1, txns, i + 1),
        }
    }
}

/// The ids of the deleted parents among the first `n` transactions: their
/// stored records are slated for deletion, so that a difference transaction
/// the user removed is not modified again.
pub open spec fn spec_delete_ids(txns: Seq<TransactionInputV>, n: int) -> Seq<Seq<char>>
    decreases n,
{
    if n <= 0 {
        Seq::empty()
    } else {
        let rest = spec_delete_ids(txns, n - 1);
        if txns[n - 1].deleted {
            rest.push(txns[n - 1].id)
        } else {
            rest
        }
    }
}

/// Processing a whole batch: the deletion prepass over all parents, then
/// the fold over every parent and its splits.
pub open spec fn spec_process_transactions(
    env: EngineEnv,
    balances0: Map<DifferenceKey, (int, int)>,
    counter0: nat,
    txns: Seq<TransactionInputV>,
) -> Result<EngineStateV, EngineError> {
    let st0 = EngineStateV {
        balances: balances0,
        counter: counter0,
        creates: Seq::empty(),
        updates: Seq::empty(),
        import_pairs: Seq::empty(),
        deletes: spec_delete_ids(txns, txns.len() as int),
    };
    spec_process_txns_from(env, st0, txns, 0)
}

/// The view of a transaction batch.
pub open spec fn txns_view(v: Seq<TransactionInput>) -> Seq<TransactionInputV> {
    v.map_values(|t: TransactionInput| t@)
}

/// How many components (parents and splits) remain from parent `i` on.
pub open spec fn spec_units_from(txns: Seq<TransactionInputV>, i: int) -> int
    decreases txns.len() - i,
{
    if i < 0 || i >= txns.len() {
        0
    } else {
        1 + txns[i].subtransactions.len() + spec_units_from(txns, i + 1)
    }
}

/// One component consumes at most one import id.
pub proof fn lemma_process_one_counter(
    env: EngineEnv,
    st: EngineStateV,
    common: ForeignCommonData,
    f: ForeignTransactionDataV,
)
    ensures
        spec_process_one(env, st, common, f) matches Ok(st2) ==> st.counter <= st2.counter
            <= st.counter + 1,
{
}

/// The component count of a suffix is never negative.
pub proof fn lemma_units_nonneg(txns: Seq<TransactionInputV>, i: int)
    ensures
        spec_units_from(txns, i) >= 0,
    decreases txns.len() - i,
{
    if 0 <= i < txns.len() {
        lemma_units_nonneg(txns, i + 1);
    }
}

impl ForeignTransactionsProcessor {
    /// Processes the whole batch: the deletion prepass, then every parent
    /// and its splits in order.  Succeeds exactly when the functional model
    /// of the batch succeeds, and then carries exactly its state.
    #[verifier::loop_isolation(false)]
    #[verifier::rlimit(100)]
    pub fn process_transactions(&mut self, latest_transactions: &Vec<TransactionInput>) -> (r:
        Result<TransactionsModificationsData, EngineError>)
        requires
            old(self).wf(),
            old(self).import_id_generator.next_number as int + spec_units_from(
                txns_view(latest_transactions@),
                0,
            ) <= u64::MAX,
        ensures
            final(self).wf(),
            final(self).env() == old(self).env(),
            r is Ok <==> spec_process_transactions(
                old(self).env(),
                old(self).difference_balances.map_view(),
                old(self).import_id_generator.next_number as nat,
                txns_view(latest_transactions@),
            ) is Ok,
            r matches Ok(mods) ==> final(self).state_of(&mods) == spec_process_transactions(
                old(self).env(),
                old(self).difference_balances.map_view(),
                old(self).import_id_generator.next_number as nat,
                txns_view(latest_transactions@),
            )->Ok_0,
            r matches Err(e) ==> Err::<EngineStateV, EngineError>(e) == spec_process_transactions(
                old(self).env(),
                old(self).difference_balances.map_view(),
                old(self).import_id_generator.next_number as nat,
                txns_view(latest_transactions@),
            ),
    {
        let ghost env = self.env();
        let ghost txv = txns_view(latest_transactions@);
        let n = latest_transactions.len();
        let mut transactions_modifications = TransactionsModificationsData::new();
        // the deletion prepass: records of parents the user deleted must go
        let mut i: usize = 0;
        while i < n
            invariant
                i <= n,
                n == latest_transactions@.len(),
                txv == txns_view(latest_transactions@),
                ids_view(transactions_modifications.delete_difference_transaction_ids@)
                    == spec_delete_ids(txv, i as int),
                transactions_modifications.create_transactions@.len() == 0,
                transactions_modifications.update_transactions@.len() == 0,
                transactions_modifications.create_import_ids_foreign_ynab_transaction_ids@.len()
                    == 0,
            decreases n - i,
        {
            if latest_transactions[i].deleted {
                let ghost pre = transactions_modifications.delete_difference_transaction_ids@;
                transactions_modifications.delete_difference_transaction_ids.push(
                    latest_transactions[i].id.clone_id(),
                );
                proof {
                    assert(ids_view(
                        transactions_modifications.delete_difference_transaction_ids@,
                    ) =~= ids_view(pre).push(txv[i as int].id));
                }
            }
            proof {
                assert(txv[i as int] == latest_transactions@[i as int]@);
            }
            i = i + 1;
        }
        let ghost st0 = EngineStateV {
            balances: self.difference_balances.map_view(),
            counter: self.import_id_generator.next_number as nat,
            creates: Seq::empty(),
            updates: Seq::empty(),
            import_pairs: Seq::empty(),
            deletes: spec_delete_ids(txv, txv.len() as int),
        };
        proof {
            assert(self.state_of(&transactions_modifications) =~= st0);
        }
        // the main pass over every parent
        let mut i: usize = 0;
        while i < n
            invariant
                i <= n,
                n == latest_transactions@.len(),
                txv == txns_view(latest_transactions@),
                self.wf(),
                self.env() == env,
                spec_process_txns_from(env, st0, txv, 0) == spec_process_txns_from(
                    env,
                    self.state_of(&transactions_modifications),
                    txv,
                    i as int,
                ),
                self.import_id_generator.next_number as int + spec_units_from(txv, i as int)
                    <= u64::MAX,
            decreases n - i,
        {
            let ghost st_i = self.state_of(&transactions_modifications);
            proof {
                assert(txv[i as int] == latest_transactions@[i as int]@);
            }
            let t = &latest_transactions[i];
            let data: Option<AccountData> = match self.foreign_accounts.get_account_data(
                &t.account_id,
            ) {
                Option::Some(d) => Some(*d),
                Option::None => None,
            };
            let data = match data {
                Option::Some(d) => d,
                Option::None => {
                    return Err(EngineError::UnknownAccount { index: i });
                },
            };
            match data {
                AccountData::Difference { .. } => {
                    // created by this engine; not processed again
                },
                _ => {
                    let date = match parse_iso_date(t.date.as_str()) {
                        Ok(d) => d,
                        Err(_) => {
                            return Err(EngineError::InvalidTransactionDate { index: i });
                        },
                    };
                    let difference_key: Option<DifferenceKey> = match data {
                        AccountData::Foreign { difference_key } => Some(difference_key),
                        _ => None,
                    };
                    let common = ForeignCommonData {
                        difference_key,
                        transaction_date: date,
                        transaction_cleared: t.cleared,
                        transaction_approved: t.approved,
                        transaction_flag_color: t.flag_color,
                        transaction_has_matched_transaction_id: t.matched_transaction_id.is_some(),
                        transaction_has_import_id: t.import_id.is_some(),
                    };
                    proof {
                        assert(common == spec_common_data(env, txv[i as int], date));
                    }
                    let ghost st_parent = self.state_of(&transactions_modifications);
                    let sub_count = t.subtransactions.len();
                    let mut j: usize = 0;
                    while j < sub_count
                        invariant
                            j <= sub_count,
                            sub_count == t.subtransactions@.len(),
                            i < n,
                            n == latest_transactions@.len(),
                            txv == txns_view(latest_transactions@),
                            t == &latest_transactions@[i as int],
                            txv[i as int] == latest_transactions@[i as int]@,
                            common.difference_key matches Some(k) ==> k.wf() && self
                                .difference_balances.map_view().contains_key(k) && self
                                .foreign_accounts.diff_map().contains_key(k),
                            self.wf(),
                            self.env() == env,
                            spec_process_subs(env, st_parent, common, txv[i as int], 0)
                                == spec_process_subs(
                                env,
                                self.state_of(&transactions_modifications),
                                common,
                                txv[i as int],
                                j as int,
                            ),
                            self.import_id_generator.next_number as int + (sub_count - j) + 1
                                + spec_units_from(txv, i as int + 1) <= u64::MAX,
                        decreases sub_count - j,
                    {
                        let sub = &t.subtransactions[j];
                        proof {
                            assert(txv[i as int].subtransactions[j as int]
                                == t.subtransactions@[j as int]@);
                        }
                        let payee_id: Option<String> = match (&sub.payee_id, &t.payee_id) {
                            (Option::Some(p), _) => Some(p.clone()),
                            (Option::None, Option::Some(p)) => Some(p.clone()),
                            (Option::None, Option::None) => None,
                        };
                        let foreign = ForeignTransactionData {
                            ynab_transaction_id: sub.id.clone_id(),
                            payee_id,
                            payee_name: None,
                            transfer_account_id: clone_opt_account_id(&sub.transfer_account_id),
                            category_id: clone_opt_string(&sub.category_id),
                            category_name: None,
                            amount: Milliunits::from_scaled_i64(sub.amount),
                            memo: clone_opt_string(&sub.memo),
                            difference_memo_prefix: build_split_prefix(
                                j as u64 + 1,
                                sub_count as u64,
                            ),
                            deleted: sub.deleted || t.deleted,
                        };
                        proof {
                            assert(foreign@ =~= spec_sub_data(txv[i as int], j as int));
                            lemma_units_nonneg(txv, i as int + 1);
                            lemma_process_one_counter(
                                env,
                                self.state_of(&transactions_modifications),
                                common,
                                foreign@,
                            );
                        }
                        match self.process_parent_or_subtransaction(
                            &mut transactions_modifications,
                            &common,
                            &foreign,
                        ) {
                            Ok(()) => {},
                            Err(e) => {
                                return Err(e);
                            },
                        }
                        j = j + 1;
                    }
                    let foreign = ForeignTransactionData {
                        ynab_transaction_id: t.id.clone_id(),
                        payee_id: clone_opt_string(&t.payee_id),
                        payee_name: clone_opt_string(&t.payee_name),
                        transfer_account_id: clone_opt_account_id(&t.transfer_account_id),
                        category_id: clone_opt_string(&t.category_id),
                        category_name: clone_opt_string(&t.category_name),
                        amount: Milliunits::from_scaled_i64(t.amount),
                        memo: clone_opt_string(&t.memo),
                        difference_memo_prefix: String::new(),
                        deleted: t.deleted || t.subtransactions.len() > 0,
                    };
                    proof {
                        assert(foreign@ =~= spec_parent_data(txv[i as int]));
                        lemma_units_nonneg(txv, i as int + 1);
                        lemma_process_one_counter(
                            env,
                            self.state_of(&transactions_modifications),
                            common,
                            foreign@,
                        );
                    }
                    match self.process_parent_or_subtransaction(
                        &mut transactions_modifications,
                        &common,
                        &foreign,
                    ) {
                        Ok(()) => {},
                        Err(e) => {
                            return Err(e);
                        },
                    }
                },
            }
            proof {
                assert(spec_process_parent(env, st_i, txv[i as int], i) == Ok::<
                    EngineStateV,
                    EngineError,
                >(self.state_of(&transactions_modifications)));
            }
            i = i + 1;
        }
        Ok(transactions_modifications)
    }
}

/// The view of the balance entries, in ledger order.
pub open spec fn bal_entries_view(
    s: Seq<(DifferenceKey, crate::foreign_accounts::ForeignTotalAndDifferenceBalance)>,
) -> Seq<(DifferenceKey, (int, int))> {
    s.map_values(
        |e: (DifferenceKey, crate::foreign_accounts::ForeignTotalAndDifferenceBalance)| (e.0, e.1@),
    )
}

/// The true-up of one balance entry: for a key with a difference account,
/// the expected difference balance is the rounded translation gain of the
/// foreign total at today's rate; a nonzero gap becomes a create intent
/// dated today.  The engine creates for any nonzero gap, driving the
/// difference balance to exact equality.
pub open spec fn spec_adjust_entry(
    env: EngineEnv,
    st: EngineStateV,
    entry: (DifferenceKey, (int, int)),
) -> Result<EngineStateV, EngineError> {
    let key = entry.0;
    let totals = entry.1;
    if !env.diff_ids.contains_key(key) {
        Ok(st)
    } else if !env.rates.contains_key((key.currency, env.today)) {
        Err(EngineError::MissingExchangeRate { currency: key.currency, date: env.today })
    } else {
        let rate = env.rates[(key.currency, env.today)];
        if totals.0 == i64::MIN as int || rate == i64::MIN as int {
            Err(EngineError::AmountOverflow)
        } else {
            let conv = spec_convert_currency(totals.0, rate);
            if !(i64::MIN < conv <= i64::MAX) {
                Err(EngineError::AmountOverflow)
            } else {
                let diff = conv - totals.0;
                if !(i64::MIN + 1000 <= diff <= i64::MAX - 1000) {
                    Err(EngineError::AmountOverflow)
                } else {
                    let digits = env.settings.currency_format.decimal_digits;
                    let expected = round_scaled_half_even(diff, (3 - digits) as nat);
                    let adj = expected - totals.1;
                    if !(i64::MIN <= adj <= i64::MAX) {
                        Err(EngineError::AmountOverflow)
                    } else if adj == 0 {
                        Ok(st)
                    } else {
                        let intent = SaveIntentV {
                            account_id: env.diff_ids[key],
                            date: env.today,
                            amount: adj,
                            payee_id: Option::None,
                            payee_name: Option::Some(spec_adjustment_payee_name(key)),
                            category_id: Option::None,
                            memo: "Exchange rate adjustment: "@ + spec_exchange_summary(
                                env.settings,
                                key.currency,
                                totals.0,
                                rate,
                                conv,
                            ),
                            cleared: Option::None,
                            approved: Option::Some(env.auto_approve_adjustments),
                            flag_color: Option::None,
                            import_id: Option::Some(
                                spec_import_id_text(env.import_prefix, st.counter),
                            ),
                        };
                        Ok(
                            EngineStateV {
                                creates: st.creates.push(intent),
                                counter: st.counter + 1,
                                ..st
                            },
                        )
                    }
                }
            }
        }
    }
}

/// The true-up pass from entry `j` on.
pub open spec fn spec_adjust_from(
    env: EngineEnv,
    st: EngineStateV,
    entries: Seq<(DifferenceKey, (int, int))>,
    j: int,
) -> Result<EngineStateV, EngineError>
    decreases entries.len() - j,
{
    if j < 0 || j >= entries.len() {
        Ok(st)
    } else {
        match spec_adjust_entry(env, st, entries[j]) {
            Err(e) => Err(e),
            Ok(st1) => spec_adjust_from(env, st1, entries, j + 1),
        }
    }
}

impl ForeignTransactionsProcessor {
    /// Computes the true-up adjustment per difference key, appending a
    /// create intent for every nonzero gap.  The balance ledger itself is
    /// left as the batch computed it.
    #[verifier::loop_isolation(false)]
    pub fn create_adjustments(
        &mut self,
        transactions_modifications: &mut TransactionsModificationsData,
    ) -> (r: Result<(), EngineError>)
        requires
            old(self).wf(),
            old(self).import_id_generator.next_number as int + old(
                self,
            ).difference_balances.balances@.len() <= u64::MAX,
        ensures
            final(self).wf(),
            final(self).env() == old(self).env(),
            final(self).difference_balances == old(self).difference_balances,
            match spec_adjust_from(
                old(self).env(),
                old(self).state_of(old(transactions_modifications)),
                bal_entries_view(old(self).difference_balances.balances@),
                0,
            ) {
                Result::Ok(stv) => r is Ok && final(self).state_of(
                    final(transactions_modifications),
                ) == stv,
                Result::Err(e) => r == Result::<(), EngineError>::Err(e),
            },
    {
        let ghost env = self.env();
        let ghost st_begin = self.state_of(transactions_modifications);
        let ghost entries = bal_entries_view(self.difference_balances.balances@);
        let n = self.difference_balances.balances.len();
        let mut idx: usize = 0;
        while idx < n
            invariant
                idx <= n,
                self.wf(),
                self.env() == env,
                self.difference_balances == old(self).difference_balances,
                spec_adjust_from(env, st_begin, entries, 0) == spec_adjust_from(
                    env,
                    self.state_of(transactions_modifications),
                    entries,
                    idx as int,
                ),
                self.import_id_generator.next_number as int + (n - idx) <= u64::MAX,
            decreases n - idx,
        {
            let entry = self.difference_balances.balances[idx];
            let difference_key = entry.0;
            proof {
                assert(entries[idx as int] == (entry.0, entry.1@));
            }
            let difference_account_id: Option<YnabAccountId> = match self
                .foreign_accounts
                .get_difference_account_id(difference_key) {
                Option::Some(id) => Some(id.clone_id()),
                Option::None => None,
            };
            if let Some(difference_account_id) = difference_account_id {
                let exchange_rate = match self.exchange_rates_cache.get_exchange_rate(
                    difference_key.currency,
                    self.today_date,
                ) {
                    Option::Some(rate) => rate,
                    Option::None => {
                        return Err(
                            EngineError::MissingExchangeRate {
                                currency: difference_key.currency,
                                date: self.today_date,
                            },
                        );
                    },
                };
                let total = entry.1.foreign_accounts_total;
                if total.to_scaled_i64() == i64::MIN || exchange_rate.to_scaled_i64()
                    == i64::MIN {
                    return Err(EngineError::AmountOverflow);
                }
                let converted = match total.checked_convert_currency(exchange_rate) {
                    Option::Some(c) => c,
                    Option::None => {
                        return Err(EngineError::AmountOverflow);
                    },
                };
                if converted.to_scaled_i64() == i64::MIN {
                    return Err(EngineError::AmountOverflow);
                }
                let diff = match converted.checked_sub(total) {
                    Option::Some(d) => d,
                    Option::None => {
                        return Err(EngineError::AmountOverflow);
                    },
                };
                let d = diff.to_scaled_i64();
                if !(d >= i64::MIN + 1000 && d <= i64::MAX - 1000) {
                    return Err(EngineError::AmountOverflow);
                }
                let expected = diff.round_bankers(
                    self.budget_formatter.settings.currency_format.decimal_digits,
                );
                let adjustment = match expected.checked_sub(entry.1.difference_account_balance) {
                    Option::Some(a) => a,
                    Option::None => {
                        return Err(EngineError::AmountOverflow);
                    },
                };
                if !adjustment.is_zero() {
                    let adjustment_payee_name = format_adjustment_payee_name(difference_key);
                    let summary = self.format_exchange(
                        difference_key.currency,
                        total,
                        exchange_rate,
                        converted,
                    );
                    let mut memo = String::new();
                    memo.append(adjustment_memo_prefix());
                    memo.append(summary.as_str());
                    let difference_import_id = self.import_id_generator.next_import_id();
                    let intent = SaveTransactionIntent {
                        account_id: difference_account_id,
                        date: self.today_date,
                        amount: adjustment,
                        payee_id: None,
                        payee_name: Some(adjustment_payee_name),
                        category_id: None,
                        memo,
                        cleared: None,
                        approved: Some(self.auto_approve_adjustments),
                        flag_color: None,
                        import_id: Some(difference_import_id),
                    };
                    let ghost pre = transactions_modifications.create_transactions@;
                    let ghost intent_v = intent@;
                    transactions_modifications.create_transactions.push(intent);
                    proof {
                        assert(intent_v.memo =~= "Exchange rate adjustment: "@
                            + spec_exchange_summary(
                            env.settings,
                            difference_key.currency,
                            entry.1@.0,
                            exchange_rate@,
                            converted@,
                        ));
                        assert(creates_view(transactions_modifications.create_transactions@)
                            =~= creates_view(pre).push(intent_v));
                    }
                }
            }
            proof {
                assert(spec_adjust_entry(env, st_begin, entries[idx as int]) is Ok || true);
                assert(spec_adjust_from(env, st_begin, entries, 0) == spec_adjust_from(
                    env,
                    self.state_of(transactions_modifications),
                    entries,
                    idx as int + 1,
                ));
            }
            idx = idx + 1;
        }
        Ok(())
    }
}

/// One transaction as the remote ledger returns it after a create or
/// update: what the engine needs to persist its record.
#[derive(Debug)]
pub struct SavedTransaction {
    pub id: YnabTransactionId,
    pub account_id: YnabAccountId,
    /// The amount in milliunits, as the ledger stored it.
    pub amount: i64,
    pub import_id: Option<YnabImportId>,
    pub transfer_account_id: Option<YnabAccountId>,
}

/// The difference key of a saved transaction's account; it must be a
/// difference account, since the engine only writes there.
pub open spec fn spec_saved_difference_key(
    accounts: Map<Seq<char>, AccountData>,
    t: &SavedTransaction,
) -> Option<DifferenceKey> {
    if accounts.contains_key(t.account_id@) {
        match accounts[t.account_id@] {
            AccountData::Difference { difference_key } => Option::Some(difference_key),
            _ => Option::None,
        }
    } else {
        Option::None
    }
}

/// The transfer key of a saved transaction: its counterpart's key, when
/// that is a foreign account.
pub open spec fn spec_saved_transfer_key(
    accounts: Map<Seq<char>, AccountData>,
    t: &SavedTransaction,
) -> Option<DifferenceKey> {
    match t.transfer_account_id {
        Option::Some(a) => if accounts.contains_key(a@) {
            match accounts[a@] {
                AccountData::Foreign { difference_key } => Option::Some(difference_key),
                _ => Option::None,
            }
        } else {
            Option::None
        },
        Option::None => Option::None,
    }
}

/// The record rows of the first `n` update responses, in order; the first
/// response whose account is no difference account is an error.
pub open spec fn spec_updated_records(
    accounts: Map<Seq<char>, AccountData>,
    s: Seq<SavedTransaction>,
    n: int,
) -> Result<Seq<DifferenceTransactionV>, EngineError>
    decreases n,
{
    if n <= 0 {
        Ok(Seq::empty())
    } else {
        match spec_updated_records(accounts, s, n - 1) {
            Err(e) => Err(e),
            Ok(rest) => match spec_saved_difference_key(accounts, &s[n - 1]) {
                Option::None => Err(EngineError::NotDifferenceAccount { index: (n - 1) as usize }),
                Option::Some(key) => Ok(
                    rest.push(
                        DifferenceTransactionV {
                            difference_transaction_id: s[n - 1].id@,
                            amount: s[n - 1].amount as int,
                            difference_key: key,
                            transfer_key: spec_saved_transfer_key(accounts, &s[n - 1]),
                        },
                    ),
                ),
            },
        }
    }
}

/// The last pairing of an import id issued this batch, when one exists.
pub open spec fn spec_pairs_lookup(s: Seq<(Seq<char>, Seq<char>)>, iid: Seq<char>) -> Option<
    Seq<char>,
>
    decreases s.len(),
{
    if s.len() == 0 {
        Option::None
    } else if s.last().0 == iid {
        Option::Some(s.last().1)
    } else {
        spec_pairs_lookup(s.drop_last(), iid)
    }
}

/// The record rows of the first `n` create responses: only responses whose
/// import id the engine issued this batch are recorded, keyed by the
/// foreign transaction the import id was issued for.
pub open spec fn spec_created_records(
    accounts: Map<Seq<char>, AccountData>,
    pairs: Seq<(Seq<char>, Seq<char>)>,
    s: Seq<SavedTransaction>,
    n: int,
) -> Result<Seq<crate::records::CreateDifferenceTransactionV>, EngineError>
    decreases n,
{
    if n <= 0 {
        Ok(Seq::empty())
    } else {
        match spec_created_records(accounts, pairs, s, n - 1) {
            Err(e) => Err(e),
            Ok(rest) => match s[n - 1].import_id {
                Option::None => Ok(rest),
                Option::Some(iid) => match spec_pairs_lookup(pairs, iid@) {
                    Option::None => Ok(rest),
                    Option::Some(foreign_id) => match spec_saved_difference_key(
                        accounts,
                        &s[n - 1],
                    ) {
                        Option::None => Err(
                            EngineError::NotDifferenceAccount { index: (n - 1) as usize },
                        ),
                        Option::Some(key) => Ok(
                            rest.push(
                                crate::records::CreateDifferenceTransactionV {
                                    foreign_transaction_id: foreign_id,
                                    inner: DifferenceTransactionV {
                                        difference_transaction_id: s[n - 1].id@,
                                        amount: s[n - 1].amount as int,
                                        difference_key: key,
                                        transfer_key: spec_saved_transfer_key(
                                            accounts,
                                            &s[n - 1],
                                        ),
                                    },
                                },
                            ),
                        ),
                    },
                },
            },
        }
    }
}

/// A failed update-record prefix stays failed.
pub proof fn lemma_updated_records_stops(
    accounts: Map<Seq<char>, AccountData>,
    s: Seq<SavedTransaction>,
    n1: int,
    n2: int,
)
    requires
        0 <= n1 <= n2,
        spec_updated_records(accounts, s, n1) is Err,
    ensures
        spec_updated_records(accounts, s, n2) == spec_updated_records(accounts, s, n1),
    decreases n2,
{
    if n2 > n1 {
        lemma_updated_records_stops(accounts, s, n1, n2 - 1);
    }
}

/// A failed create-record prefix stays failed.
pub proof fn lemma_created_records_stops(
    accounts: Map<Seq<char>, AccountData>,
    pairs: Seq<(Seq<char>, Seq<char>)>,
    s: Seq<SavedTransaction>,
    n1: int,
    n2: int,
)
    requires
        0 <= n1 <= n2,
        spec_created_records(accounts, pairs, s, n1) is Err,
    ensures
        spec_created_records(accounts, pairs, s, n2) == spec_created_records(accounts, pairs, s, n1),
    decreases n2,
{
    if n2 > n1 {
        lemma_created_records_stops(accounts, pairs, s, n1, n2 - 1);
    }
}

/// Searches the issued import-id pairs backwards.
fn find_pair(
    v: &Vec<(YnabImportId, YnabTransactionId)>,
    iid: &YnabImportId,
    i: usize,
) -> (r: Option<usize>)
    requires
        i <= v@.len(),
    ensures
        match r {
            Option::Some(j) => j < i && v@[j as int].0@ == iid@ && spec_pairs_lookup(
                pairs_view(v@.take(i as int)),
                iid@,
            ) == Option::Some(v@[j as int].1@),
            Option::None => spec_pairs_lookup(pairs_view(v@.take(i as int)), iid@) is None,
        },
    decreases i,
{
    if i == 0 {
        proof {
            assert(pairs_view(v@.take(0)) =~= Seq::<(Seq<char>, Seq<char>)>::empty());
        }
        None
    } else {
        proof {
            assert(pairs_view(v@.take(i as int)).drop_last() =~= pairs_view(
                v@.take(i as int - 1),
            ));
            assert(pairs_view(v@.take(i as int)).last() == (v@[i as int - 1].0@, v@[
                i as int - 1].1@));
        }
        if v[i - 1].0.eq_id(iid) {
            Some(i - 1)
        } else {
            find_pair(v, iid, i - 1)
        }
    }
}

impl ForeignTransactionsProcessor {
    /// The difference key of a saved transaction's account; `None` when the
    /// account is not a registered difference account.
    pub fn difference_account_key_for_save(&self, account_id: &YnabAccountId) -> (r: Option<
        DifferenceKey,
    >)
        ensures
            r is Some <==> (self.foreign_accounts.accounts_map().contains_key(account_id@)
                && self.foreign_accounts.accounts_map()[account_id@] is Difference),
            r matches Some(k) ==> self.foreign_accounts.accounts_map()[account_id@] == (
            AccountData::Difference { difference_key: k }),
    {
        match self.foreign_accounts.get_account_data(account_id) {
            Option::Some(AccountData::Difference { difference_key }) => Some(*difference_key),
            _ => None,
        }
    }

    /// The transfer key of a saved transaction's counterpart; `None` when
    /// the counterpart is no foreign account.
    pub fn transfer_account_key_for_save(&self, account_id: &YnabAccountId) -> (r: Option<
        DifferenceKey,
    >)
        ensures
            r is Some <==> (self.foreign_accounts.accounts_map().contains_key(account_id@)
                && self.foreign_accounts.accounts_map()[account_id@] is Foreign),
            r matches Some(k) ==> self.foreign_accounts.accounts_map()[account_id@] == (
            AccountData::Foreign { difference_key: k }),
    {
        match self.foreign_accounts.get_account_data(account_id) {
            Option::Some(AccountData::Foreign { difference_key }) => Some(*difference_key),
            _ => None,
        }
    }

    /// Turns the ledger's update responses into the record rows to persist.
    #[verifier::loop_isolation(false)]
    pub fn updated_transactions_to_records(&self, updated: &Vec<SavedTransaction>) -> (r: Result<
        Vec<crate::records::DifferenceTransaction>,
        EngineError,
    >)
        ensures
            r is Ok <==> spec_updated_records(
                self.foreign_accounts.accounts_map(),
                updated@,
                updated@.len() as int,
            ) is Ok,
            r matches Ok(v) ==> v@.map_values(
                |x: crate::records::DifferenceTransaction| x@,
            ) == spec_updated_records(
                self.foreign_accounts.accounts_map(),
                updated@,
                updated@.len() as int,
            )->Ok_0,
            r matches Err(e) ==> Err::<Seq<DifferenceTransactionV>, EngineError>(e)
                == spec_updated_records(
                self.foreign_accounts.accounts_map(),
                updated@,
                updated@.len() as int,
            ),
    {
        let ghost amap = self.foreign_accounts.accounts_map();
        let mut out: Vec<crate::records::DifferenceTransaction> = Vec::new();
        proof {
            assert(out@.map_values(|x: crate::records::DifferenceTransaction| x@) =~= Seq::<
                DifferenceTransactionV,
            >::empty());
        }
        let mut i: usize = 0;
        while i < updated.len()
            invariant
                i <= updated@.len(),
                spec_updated_records(amap, updated@, i as int) == Ok::<
                    Seq<DifferenceTransactionV>,
                    EngineError,
                >(out@.map_values(|x: crate::records::DifferenceTransaction| x@)),
            decreases updated@.len() - i,
        {
            let t = &updated[i];
            let key = match self.difference_account_key_for_save(&t.account_id) {
                Option::Some(k) => k,
                Option::None => {
                    proof {
                        lemma_updated_records_stops(
                            amap,
                            updated@,
                            i as int + 1,
                            updated@.len() as int,
                        );
                    }
                    return Err(EngineError::NotDifferenceAccount { index: i });
                },
            };
            let transfer_key = match &t.transfer_account_id {
                Option::Some(a) => self.transfer_account_key_for_save(a),
                Option::None => None,
            };
            let ghost pre = out@;
            let rec = crate::records::DifferenceTransaction {
                difference_transaction_id: t.id.clone_id(),
                amount: Milliunits::from_scaled_i64(t.amount),
                difference_key: key,
                transfer_key,
            };
            out.push(rec);
            proof {
                assert(out@.map_values(|x: crate::records::DifferenceTransaction| x@)
                    =~= pre.map_values(|x: crate::records::DifferenceTransaction| x@).push(
                    out@.last()@,
                ));
            }
            i = i + 1;
        }
        Ok(out)
    }

    /// Turns the ledger's create responses into the record rows to persist,
    /// correlated through the import ids issued this batch.
    #[verifier::loop_isolation(false)]
    pub fn created_transactions_to_records(
        &self,
        created: &Vec<SavedTransaction>,
        transactions_modifications: &TransactionsModificationsData,
    ) -> (r: Result<Vec<crate::records::CreateDifferenceTransaction>, EngineError>)
        ensures
            r is Ok <==> spec_created_records(
                self.foreign_accounts.accounts_map(),
                pairs_view(
                    transactions_modifications.create_import_ids_foreign_ynab_transaction_ids@,
                ),
                created@,
                created@.len() as int,
            ) is Ok,
            r matches Ok(v) ==> v@.map_values(
                |x: crate::records::CreateDifferenceTransaction| x@,
            ) == spec_created_records(
                self.foreign_accounts.accounts_map(),
                pairs_view(
                    transactions_modifications.create_import_ids_foreign_ynab_transaction_ids@,
                ),
                created@,
                created@.len() as int,
            )->Ok_0,
            r matches Err(e) ==> Err::<Seq<crate::records::CreateDifferenceTransactionV>,
                EngineError>(e) == spec_created_records(
                self.foreign_accounts.accounts_map(),
                pairs_view(
                    transactions_modifications.create_import_ids_foreign_ynab_transaction_ids@,
                ),
                created@,
                created@.len() as int,
            ),
    {
        let ghost amap = self.foreign_accounts.accounts_map();
        let ghost pairs = pairs_view(
            transactions_modifications.create_import_ids_foreign_ynab_transaction_ids@,
        );
        let pair_vec = &transactions_modifications.create_import_ids_foreign_ynab_transaction_ids;
        let mut out: Vec<crate::records::CreateDifferenceTransaction> = Vec::new();
        proof {
            assert(out@.map_values(|x: crate::records::CreateDifferenceTransaction| x@) =~= Seq::<
                crate::records::CreateDifferenceTransactionV,
            >::empty());
        }
        let mut i: usize = 0;
        while i < created.len()
            invariant
                i <= created@.len(),
                spec_created_records(amap, pairs, created@, i as int) == Ok::<
                    Seq<crate::records::CreateDifferenceTransactionV>,
                    EngineError,
                >(out@.map_values(|x: crate::records::CreateDifferenceTransaction| x@)),
            decreases created@.len() - i,
        {
            let t = &created[i];
            match &t.import_id {
                Option::None => {},
                Option::Some(iid) => {
                    proof {
                        assert(pair_vec@.take(pair_vec@.len() as int) =~= pair_vec@);
                    }
                    match find_pair(pair_vec, iid, pair_vec.len()) {
                        Option::None => {},
                        Option::Some(j) => {
                            let foreign_id = pair_vec[j].1.clone_id();
                            let key = match self.difference_account_key_for_save(&t.account_id) {
                                Option::Some(k) => k,
                                Option::None => {
                                    proof {
                                        lemma_created_records_stops(
                                            amap,
                                            pairs,
                                            created@,
                                            i as int + 1,
                                            created@.len() as int,
                                        );
                                    }
                                    return Err(EngineError::NotDifferenceAccount { index: i });
                                },
                            };
                            let transfer_key = match &t.transfer_account_id {
                                Option::Some(a) => self.transfer_account_key_for_save(a),
                                Option::None => None,
                            };
                            let ghost pre = out@;
                            out.push(
                                crate::records::CreateDifferenceTransaction {
                                    foreign_transaction_id: foreign_id,
                                    inner: crate::records::DifferenceTransaction {
                                        difference_transaction_id: t.id.clone_id(),
                                        amount: Milliunits::from_scaled_i64(t.amount),
                                        difference_key: key,
                                        transfer_key,
                                    },
                                },
                            );
                            proof {
                                assert(out@.map_values(
                                    |x: crate::records::CreateDifferenceTransaction| x@,
                                ) =~= pre.map_values(
                                    |x: crate::records::CreateDifferenceTransaction| x@,
                                ).push(out@.last()@));
                            }
                        },
                    }
                },
            }
            i = i + 1;
        }
        Ok(out)
    }
}

/// Idempotence of the engine on an unchanged ledger: a second run fetches
/// no transactions (the cursor advanced), and processing an empty batch
/// computes zero create and update intents and leaves balances and the
/// import counter untouched.
pub proof fn lemma_process_empty_batch(
    env: EngineEnv,
    balances0: Map<DifferenceKey, (int, int)>,
    counter0: nat,
)
    ensures
        spec_process_transactions(env, balances0, counter0, Seq::empty()) matches Ok(st) && {
            &&& st.creates.len() == 0
            &&& st.updates.len() == 0
            &&& st.balances == balances0
            &&& st.counter == counter0
        },
{
}

/// One balance entry is settled: when its key has a difference account and
/// a rate for today, the expected difference balance is representable and
/// already equals the booked one.
pub open spec fn spec_entry_settled(env: EngineEnv, entry: (DifferenceKey, (int, int))) -> bool {
    env.diff_ids.contains_key(entry.0) ==> {
        &&& env.rates.contains_key((entry.0.currency, env.today))
        &&& {
            let rate = env.rates[(entry.0.currency, env.today)];
            &&& entry.1.0 != i64::MIN as int
            &&& rate != i64::MIN as int
            &&& i64::MIN < spec_convert_currency(entry.1.0, rate) <= i64::MAX
            &&& i64::MIN + 1000 <= spec_convert_currency(entry.1.0, rate) - entry.1.0 <= i64::MAX
                - 1000
            &&& round_scaled_half_even(
                spec_convert_currency(entry.1.0, rate) - entry.1.0,
                (3 - env.settings.currency_format.decimal_digits) as nat,
            ) == entry.1.1
        }
    }
}

/// Idempotence of the true-up: once every entry is settled (as the
/// adjustment pass itself leaves it), another adjustment pass computes no
/// intents and changes nothing.
pub proof fn lemma_adjustments_settled(
    env: EngineEnv,
    st: EngineStateV,
    entries: Seq<(DifferenceKey, (int, int))>,
    j: int,
)
    requires
        forall|k: int| 0 <= k < entries.len() ==> spec_entry_settled(env, #[trigger] entries[k]),
    ensures
        spec_adjust_from(env, st, entries, j) == Ok::<EngineStateV, EngineError>(st),
    decreases entries.len() - j,
{
    if 0 <= j < entries.len() {
        assert(spec_adjust_entry(env, st, entries[j]) == Ok::<EngineStateV, EngineError>(st));
        lemma_adjustments_settled(env, st, entries, j + 1);
    }
}

/// Soft-delete semantics: a deleted component, or one whose memo carries a
/// no-convert marker, always yields the zero amount and a memo tagged
/// `<DELETED>`; it never becomes a create, and when a record of an earlier
/// reconciliation exists it becomes exactly one zero-amount update.
pub proof fn lemma_soft_delete_semantics(
    env: EngineEnv,
    st: EngineStateV,
    common: ForeignCommonData,
    f: ForeignTransactionDataV,
)
    requires
        f.deleted || spec_force_no_convert_memo(f.memo),
    ensures
        spec_decide(env, common, f) == Ok::<(int, Seq<char>), EngineError>(
            (0int, "<DELETED>"@ + f.prefix + spec_memo_suffix(f.memo)),
        ),
        spec_process_one(env, st, common, f) matches Ok(st2) ==> {
            &&& st2.creates == st.creates
            &&& (spec_existing_record(env, st, f.id) is Some ==> {
                &&& st2.updates.len() == st.updates.len() + 1
                &&& st2.updates.last().amount == 0
                &&& st2.updates.last().memo == "<DELETED>"@ + f.prefix + spec_memo_suffix(f.memo)
            })
        },
{
}

/// Balance consistency: whenever the true-up of one entry succeeds, the
/// booked difference balance plus the emitted adjustment (zero when none
/// was owed) equals the banker's-rounded expected balance exactly.
pub proof fn lemma_balance_consistency(
    env: EngineEnv,
    st: EngineStateV,
    entry: (DifferenceKey, (int, int)),
)
    requires
        env.diff_ids.contains_key(entry.0),
        env.rates.contains_key((entry.0.currency, env.today)),
        spec_adjust_entry(env, st, entry) is Ok,
    ensures
        ({
            let st2 = spec_adjust_entry(env, st, entry)->Ok_0;
            let rate = env.rates[(entry.0.currency, env.today)];
            let expected = round_scaled_half_even(
                spec_convert_currency(entry.1.0, rate) - entry.1.0,
                (3 - env.settings.currency_format.decimal_digits) as nat,
            );
            entry.1.1 + (if st2.creates.len() > st.creates.len() {
                st2.creates.last().amount
            } else {
                0
            }) == expected
        }),
{
}

/// Reprocessing an unchanged, already-reconciled component is
/// balance-neutral: when the stored record carries exactly the amount and
/// keys the decision computes again, the engine emits one update restating
/// the record, creates nothing, and leaves every balance as it was.
pub proof fn lemma_reprocessing_preserves_balances(
    env: EngineEnv,
    st: EngineStateV,
    common: ForeignCommonData,
    f: ForeignTransactionDataV,
)
    requires
        spec_decide(env, common, f) is Ok,
        spec_existing_record(env, st, f.id) matches Some(rec) && {
            &&& rec.amount == spec_decide(env, common, f)->Ok_0.0
            &&& (common.difference_key matches Some(k) ==> k == rec.difference_key)
            &&& rec.transfer_key == spec_transfer_key(env, f.transfer_account_id)
            &&& env.diff_ids.contains_key(rec.difference_key)
            &&& st.balances.contains_key(rec.difference_key)
            &&& (rec.transfer_key matches Some(t) ==> st.balances.contains_key(t))
            &&& i64::MIN <= st.balances[rec.difference_key].1 <= i64::MAX
            &&& i64::MIN <= st.balances[rec.difference_key].1 - rec.amount <= i64::MAX
            &&& (rec.transfer_key matches Some(t) ==> i64::MIN <= st.balances[t].0 <= i64::MAX
                && i64::MIN <= st.balances[t].0 + rec.amount <= i64::MAX)
        },
    ensures
        spec_process_one(env, st, common, f) matches Ok(st2) && {
            &&& st2.balances =~= st.balances
            &&& st2.creates == st.creates
            &&& st2.updates.len() == st.updates.len() + 1
            &&& st2.updates.last().amount == spec_existing_record(env, st, f.id)->0.amount
        },
{
    let rec = spec_existing_record(env, st, f.id)->0;
    let a = rec.amount;
    let k = rec.difference_key;
    let m = st.balances;
    let m1 = spec_bal_update(m, k, rec.transfer_key, -a)->0;
    assert(spec_bal_update(m, k, rec.transfer_key, -a) is Some);
    let m2 = spec_bal_update(m1, k, rec.transfer_key, a);
    assert(m2 is Some);
    assert(m2->0 =~= m);
}

/// The engine's internal invariant made explicit: a component without an
/// effective difference key always carries a zero amount, so nothing is
/// ever owed to no bucket.
pub proof fn lemma_no_key_means_zero_amount(
    env: EngineEnv,
    common: ForeignCommonData,
    f: ForeignTransactionDataV,
)
    requires
        common.difference_key is None,
        spec_decide(env, common, f) is Ok,
    ensures
        spec_decide(env, common, f)->Ok_0.0 == 0,
{
}

} // verus!
