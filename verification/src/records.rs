//! Persisted state: the per-budget sync cursor, the record of every
//! difference transaction ever written (the idempotence anchor), and the
//! run-state gating that keeps dry runs from writing.

use vstd::prelude::*;
use crate::dates::Date;
use crate::types::{AccountClass, CurrencyCode, DifferenceKey, Milliunits, YnabTransactionId};

verus! {

/// The per-budget cursor: fixed start date, the remote ledger's incremental
/// knowledge token, and the date of the last run.
#[derive(Debug)]
pub struct BudgetState {
    pub start_date: Date,
    pub ynab_server_knowledge: Option<i64>,
    pub last_run_date: Option<Date>,
}

/// One persisted difference-transaction record: the remote id of the
/// difference transaction, the amount last applied, and the keys it was
/// booked under.
#[derive(Debug)]
pub struct DifferenceTransaction {
    pub difference_transaction_id: YnabTransactionId,
    pub amount: Milliunits,
    pub difference_key: DifferenceKey,
    pub transfer_key: Option<DifferenceKey>,
}

/// The value of a difference-transaction record.
#[verifier::ext_equal]
pub ghost struct DifferenceTransactionV {
    pub difference_transaction_id: Seq<char>,
    pub amount: int,
    pub difference_key: DifferenceKey,
    pub transfer_key: Option<DifferenceKey>,
}

impl View for DifferenceTransaction {
    type V = DifferenceTransactionV;

    open spec fn view(&self) -> DifferenceTransactionV {
        DifferenceTransactionV {
            difference_transaction_id: self.difference_transaction_id@,
            amount: self.amount@,
            difference_key: self.difference_key,
            transfer_key: self.transfer_key,
        }
    }
}

/// A record to be created, keyed by the foreign transaction it reconciles.
#[derive(Debug)]
pub struct CreateDifferenceTransaction {
    pub foreign_transaction_id: YnabTransactionId,
    pub inner: DifferenceTransaction,
}

/// The value of a record to be created.
#[verifier::ext_equal]
pub ghost struct CreateDifferenceTransactionV {
    pub foreign_transaction_id: Seq<char>,
    pub inner: DifferenceTransactionV,
}

impl View for CreateDifferenceTransaction {
    type V = CreateDifferenceTransactionV;

    open spec fn view(&self) -> CreateDifferenceTransactionV {
        CreateDifferenceTransactionV {
            foreign_transaction_id: self.foreign_transaction_id@,
            inner: self.inner@,
        }
    }
}

/// Everything one batch persists atomically: whether real changes were
/// sent, and the record writes that accompany them.
#[derive(Debug)]
pub struct UpdateBudgetState {
    pub had_changes: bool,
    pub create_difference_transactions: Vec<CreateDifferenceTransaction>,
    pub update_difference_transactions: Vec<DifferenceTransaction>,
    pub delete_difference_transaction_ids: Vec<YnabTransactionId>,
}

/// Which budget row a run may write: a live run always writes; a dry run
/// never writes, whether or not the budget row exists yet.
#[derive(Clone, Copy, Debug, PartialEq, Eq, Structural)]
pub enum BudgetRunState {
    DryRun(Option<i32>),
    Live(i32),
}

impl BudgetRunState {
    /// The budget row to write when changes were really sent: only a live
    /// run has one.
    pub fn live_database_budget_id(&self) -> (r: Option<i32>)
        ensures
            r == match *self {
                BudgetRunState::DryRun(_) => Option::<i32>::None,
                BudgetRunState::Live(id) => Option::Some(id),
            },
    {
        match self {
            BudgetRunState::DryRun(_) => None,
            BudgetRunState::Live(id) => Some(*id),
        }
    }

    /// The budget row to read in any mode: a dry run may read an existing
    /// row.
    pub fn dry_run_database_budget_id(&self) -> (r: Option<i32>)
        ensures
            r == match *self {
                BudgetRunState::DryRun(option_id) => option_id,
                BudgetRunState::Live(id) => Option::Some(id),
            },
    {
        match self {
            BudgetRunState::DryRun(option_id) => *option_id,
            BudgetRunState::Live(id) => Some(*id),
        }
    }
}

/// The stored letter of an account class.
pub open spec fn spec_account_class_str(value: AccountClass) -> Seq<char> {
    match value {
        AccountClass::Debit => seq!['D'],
        AccountClass::Credit => seq!['C'],
        AccountClass::Tracking => seq!['T'],
    }
}

/// Encodes an account class as its stored letter.
pub fn account_class_to_str(value: AccountClass) -> (r: &'static str)
    ensures
        r@ == spec_account_class_str(value),
{
    let r = match value {
        AccountClass::Debit => "D",
        AccountClass::Credit => "C",
        AccountClass::Tracking => "T",
    };
    proof {
        reveal_strlit("D");
        reveal_strlit("C");
        reveal_strlit("T");
        assert(r@ =~= spec_account_class_str(value));
    }
    r
}

/// Decodes a stored letter; `None` for any other text.
pub fn account_class_from_str(value: &str) -> (r: Option<AccountClass>)
    ensures
        r is Some <==> (value@ == spec_account_class_str(AccountClass::Debit) || value@
            == spec_account_class_str(AccountClass::Credit) || value@ == spec_account_class_str(
            AccountClass::Tracking,
        )),
        r is Some ==> value@ == spec_account_class_str(r->0),
    {
    proof {
        reveal_strlit("D");
        reveal_strlit("C");
        reveal_strlit("T");
    }
    let n = value.unicode_len();
    if n != 1 {
        proof {
            assert(value@ != spec_account_class_str(AccountClass::Debit));
            assert(value@ != spec_account_class_str(AccountClass::Credit));
            assert(value@ != spec_account_class_str(AccountClass::Tracking));
        }
        return None;
    }
    let c = value.get_char(0);
    let r = if c == 'D' {
        Some(AccountClass::Debit)
    } else if c == 'C' {
        Some(AccountClass::Credit)
    } else if c == 'T' {
        Some(AccountClass::Tracking)
    } else {
        None
    };
    proof {
        assert(value@ =~= seq![value@[0]]);
        if c != 'D' && c != 'C' && c != 'T' {
            assert(value@ != spec_account_class_str(AccountClass::Debit));
            assert(value@ != spec_account_class_str(AccountClass::Credit));
            assert(value@ != spec_account_class_str(AccountClass::Tracking));
        }
    }
    r
}

/// Decodes one stored record row into a `DifferenceTransaction`: the
/// currency codes and class letters must parse, and the two transfer
/// columns must be both absent or both present and valid.
pub fn difference_transaction_from_row(
    difference_transaction_id: String,
    amount: i64,
    difference_currency_code: &String,
    difference_account_class: &String,
    transfer_currency_code: &Option<String>,
    transfer_account_class: &Option<String>,
) -> (r: Option<DifferenceTransaction>)
    ensures
        r matches Some(rec) ==> {
            &&& rec.difference_transaction_id@ == difference_transaction_id@
            &&& rec.amount@ == amount
            &&& rec.difference_key.wf()
            &&& rec.transfer_key matches Some(k) ==> k.wf()
            &&& (rec.transfer_key is Some <==> transfer_currency_code is Some)
        },
{
    let currency = match CurrencyCode::from_str(difference_currency_code.as_str()) {
        Ok(c) => c,
        Err(_) => {
            return None;
        },
    };
    let account_class = match account_class_from_str(difference_account_class.as_str()) {
        Some(c) => c,
        None => {
            return None;
        },
    };
    let transfer_key = match (transfer_currency_code, transfer_account_class) {
        (Option::None, Option::None) => None,
        (Option::Some(tc), Option::Some(ta)) => {
            let tcur = match CurrencyCode::from_str(tc.as_str()) {
                Ok(c) => c,
                Err(_) => {
                    return None;
                },
            };
            let tclass = match account_class_from_str(ta.as_str()) {
                Some(c) => c,
                None => {
                    return None;
                },
            };
            Some(DifferenceKey { currency: tcur, account_class: tclass })
        },
        _ => {
            return None;
        },
    };
    Some(
        DifferenceTransaction {
            difference_transaction_id: YnabTransactionId::new(difference_transaction_id),
            amount: Milliunits::from_scaled_i64(amount),
            difference_key: DifferenceKey { currency, account_class },
            transfer_key,
        },
    )
}

/// The map denoted by the record list, keyed by foreign transaction id.
pub open spec fn rec_map_of(s: Seq<(YnabTransactionId, DifferenceTransaction)>) -> Map<
    Seq<char>,
    DifferenceTransactionV,
>
    decreases s.len(),
{
    if s.len() == 0 {
        Map::empty()
    } else {
        rec_map_of(s.drop_last()).insert(s.last().0@, s.last().1@)
    }
}

/// The in-memory image of the persisted record table for one batch, keyed
/// by foreign (source) transaction id.
#[derive(Debug)]
pub struct DifferenceTransactionStore {
    pub records: Vec<(YnabTransactionId, DifferenceTransaction)>,
}

impl DifferenceTransactionStore {
    /// The records by foreign transaction id.
    pub open spec fn map_view(&self) -> Map<Seq<char>, DifferenceTransactionV> {
        rec_map_of(self.records@)
    }

    pub fn new() -> (r: DifferenceTransactionStore)
        ensures
            r.map_view() == Map::<Seq<char>, DifferenceTransactionV>::empty(),
    {
        let r = DifferenceTransactionStore { records: Vec::new() };
        proof {
            assert(r.map_view() =~= Map::<Seq<char>, DifferenceTransactionV>::empty());
        }
        r
    }

    /// Adds the record loaded for one foreign transaction id.
    pub fn insert(&mut self, foreign_transaction_id: YnabTransactionId, record:
        DifferenceTransaction)
        ensures
            final(self).map_view() == old(self).map_view().insert(
                foreign_transaction_id@,
                record@,
            ),
    {
        let ghost pre = self.records@;
        self.records.push((foreign_transaction_id, record));
        proof {
            assert(self.records@.drop_last() =~= pre);
        }
    }

    /// The record of a foreign transaction, when one is stored.
    pub fn get_difference_transaction_by_foreign_id(&self, foreign_ynab_transaction_id:
        &YnabTransactionId) -> (r: Option<&DifferenceTransaction>)
        ensures
            r is Some <==> self.map_view().contains_key(foreign_ynab_transaction_id@),
            r is Some ==> r->0@ == self.map_view()[foreign_ynab_transaction_id@],
    {
        proof {
            assert(self.records@.take(self.records@.len() as int) =~= self.records@);
        }
        match find_record(&self.records, foreign_ynab_transaction_id, self.records.len()) {
            Some(j) => Some(&self.records[j].1),
            None => None,
        }
    }
}

/// Searches the record list backwards; the last match is what the map
/// holds.
fn find_record(
    v: &Vec<(YnabTransactionId, DifferenceTransaction)>,
    id: &YnabTransactionId,
    i: usize,
) -> (r: Option<usize>)
    requires
        i <= v@.len(),
    ensures
        match r {
            Option::Some(j) => j < i && v@[j as int].0@ == id@ && rec_map_of(
                v@.take(i as int),
            ).contains_key(id@) && rec_map_of(v@.take(i as int))[id@] == v@[j as int].1@,
            Option::None => !rec_map_of(v@.take(i as int)).contains_key(id@),
        },
    decreases i,
{
    if i == 0 {
        None
    } else {
        proof {
            assert(v@.take(i as int).drop_last() =~= v@.take(i as int - 1));
            assert(v@.take(i as int).last() == v@[i as int - 1]);
        }
        if v[i - 1].0.eq_id(id) {
            Some(i - 1)
        } else {
            find_record(v, id, i - 1)
        }
    }
}

} // verus!
