//! Fixed labels and limits of the reconciliation engine.

use vstd::prelude::*;
use crate::types::DifferenceKey;

verus! {

/// How many transactions one save request to the remote ledger may carry.
pub const SAVE_TRANSACTIONS_CHUNK_SIZE: usize = 50;

/// The default limit of currency pairs per rate-provider request.
pub const DEFAULT_CURRENCY_CONVERTER_API_MAX_CURRENCY_PAIRS_PER_REQUEST: usize = 2;

/// The fixed prefix of every generated import identifier.
pub fn import_id_prefix() -> (r: &'static str)
    ensures
        r@ == "FCAY"@,
{
    "FCAY"
}

/// The fixed prefix of every adjustment transaction's memo.
pub fn adjustment_memo_prefix() -> (r: &'static str)
    ensures
        r@ == "Exchange rate adjustment: "@,
{
    "Exchange rate adjustment: "
}

/// The payee name of an adjustment transaction for a difference key.
pub open spec fn spec_adjustment_payee_name(key: DifferenceKey) -> Seq<char> {
    "Exchange Rate Adjustment <"@ + key.currency.chars() + ">"@
}

/// Builds the payee name of an adjustment transaction.
pub fn format_adjustment_payee_name(key: DifferenceKey) -> (r: String)
    requires
        key.wf(),
    ensures
        r@ == spec_adjustment_payee_name(key),
{
    let mut s = String::new();
    s.append("Exchange Rate Adjustment <");
    let code = key.currency.to_str();
    s.append(code.as_str());
    s.append(">");
    proof {
        assert(s@ =~= spec_adjustment_payee_name(key));
    }
    s
}

} // verus!
