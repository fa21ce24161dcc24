//! The exchange-rate memo of one run: rates by (currency, date), oriented
//! from the foreign currency into the local currency.
//!
//! The layered lookup (in-process memo, then the persistent store's exact
//! rate, then the store's rates for the whole currency set on that date,
//! then a batched remote fetch) is driven by the caller, who performs the
//! store and network reads; this module holds the memo, decides which
//! currencies still must be fetched, and checks a fetch for completeness.

use vstd::prelude::*;
use crate::dates::Date;
use crate::types::{CurrencyCode, ExchangeRate};

verus! {

/// The map denoted by the memo entries.
pub open spec fn rate_map_of(s: Seq<(CurrencyCode, Date, ExchangeRate)>) -> Map<
    (CurrencyCode, Date),
    int,
>
    decreases s.len(),
{
    if s.len() == 0 {
        Map::empty()
    } else {
        rate_map_of(s.drop_last()).insert((s.last().0, s.last().1), s.last().2@)
    }
}

/// The in-process memo of exchange rates, keyed by (currency, date).
#[derive(Debug)]
pub struct ExchangeRatesCache {
    pub entries: Vec<(CurrencyCode, Date, ExchangeRate)>,
}

impl ExchangeRatesCache {
    /// The known rates by (currency, date).
    pub open spec fn map_view(&self) -> Map<(CurrencyCode, Date), int> {
        rate_map_of(self.entries@)
    }

    pub fn new() -> (r: ExchangeRatesCache)
        ensures
            r.map_view() == Map::<(CurrencyCode, Date), int>::empty(),
    {
        let r = ExchangeRatesCache { entries: Vec::new() };
        proof {
            assert(r.map_view() =~= Map::<(CurrencyCode, Date), int>::empty());
        }
        r
    }

    /// The memoized rate for a currency and date, when one is known.
    pub fn get_exchange_rate(&self, from_currency: CurrencyCode, date: Date) -> (r: Option<
        ExchangeRate,
    >)
        ensures
            r is Some <==> self.map_view().contains_key((from_currency, date)),
            r is Some ==> r->0@ == self.map_view()[(from_currency, date)],
    {
        proof {
            assert(self.entries@.take(self.entries@.len() as int) =~= self.entries@);
        }
        match find_rate(&self.entries, from_currency, date, self.entries.len()) {
            Some(j) => Some(self.entries[j].2),
            None => None,
        }
    }

    /// Memoizes one rate.
    pub fn insert_rate(&mut self, from_currency: CurrencyCode, date: Date, rate: ExchangeRate)
        ensures
            final(self).map_view() == old(self).map_view().insert((from_currency, date), rate@),
    {
        let ghost pre = self.entries@;
        self.entries.push((from_currency, date, rate));
        proof {
            assert(self.entries@.drop_last() =~= pre);
        }
    }

    /// The currencies of the full foreign set that the memo still lacks for
    /// a date, in the set's order: exactly these must be fetched.
    pub fn missing_currencies(&self, anticipate_from_currencies: &Vec<CurrencyCode>, date: Date)
        -> (r: Vec<CurrencyCode>)
        ensures
            r@ == spec_missing(self.map_view(), anticipate_from_currencies@, date),
    {
        let mut r: Vec<CurrencyCode> = Vec::new();
        let mut i: usize = 0;
        while i < anticipate_from_currencies.len()
            invariant
                i <= anticipate_from_currencies@.len(),
                r@ == spec_missing(
                    self.map_view(),
                    anticipate_from_currencies@.take(i as int),
                    date,
                ),
            decreases anticipate_from_currencies@.len() - i,
        {
            let ghost pre = r@;
            let c = anticipate_from_currencies[i];
            if self.get_exchange_rate(c, date).is_none() {
                r.push(c);
            }
            proof {
                assert(anticipate_from_currencies@.take(i as int + 1).drop_last()
                    =~= anticipate_from_currencies@.take(i as int));
                assert(anticipate_from_currencies@.take(i as int + 1).last()
                    == anticipate_from_currencies@[i as int]);
            }
            i = i + 1;
        }
        proof {
            assert(anticipate_from_currencies@.take(anticipate_from_currencies@.len() as int)
                =~= anticipate_from_currencies@);
        }
        r
    }
}

/// The currencies of `want` that `m` has no rate for on `date`, in order.
pub open spec fn spec_missing(
    m: Map<(CurrencyCode, Date), int>,
    want: Seq<CurrencyCode>,
    date: Date,
) -> Seq<CurrencyCode>
    decreases want.len(),
{
    if want.len() == 0 {
        Seq::empty()
    } else {
        let rest = spec_missing(m, want.drop_last(), date);
        if m.contains_key((want.last(), date)) {
            rest
        } else {
            rest.push(want.last())
        }
    }
}

/// Searches the memo backwards for a (currency, date) key.
fn find_rate(
    v: &Vec<(CurrencyCode, Date, ExchangeRate)>,
    c: CurrencyCode,
    d: Date,
    i: usize,
) -> (r: Option<usize>)
    requires
        i <= v@.len(),
    ensures
        match r {
            Option::Some(j) => j < i && v@[j as int].0 == c && v@[j as int].1 == d && rate_map_of(
                v@.take(i as int),
            ).contains_key((c, d)) && rate_map_of(v@.take(i as int))[(c, d)] == v@[j as int].2@,
            Option::None => !rate_map_of(v@.take(i as int)).contains_key((c, d)),
        },
    decreases i,
{
    if i == 0 {
        None
    } else {
        proof {
            assert(v@.take(i as int).drop_last() =~= v@.take(i as int - 1));
            assert(v@.take(i as int).last() == v@[i as int - 1]);
        }
        if v[i - 1].0 == c && v[i - 1].1 == d {
            Some(i - 1)
        } else {
            find_rate(v, c, d, i - 1)
        }
    }
}

/// Checks that a remote fetch answered every requested currency; gives the
/// first unanswered one otherwise.  The answered rates are returned in
/// request order, ready to be persisted and memoized.
pub fn verify_fetched(
    requested: &Vec<CurrencyCode>,
    fetched: &Vec<(CurrencyCode, ExchangeRate)>,
) -> (r: Result<(), CurrencyCode>)
    ensures
        r is Ok <==> (forall|j: int|
            0 <= j < requested@.len() ==> fetched_contains(fetched@, #[trigger] requested@[j])),
        r matches Err(c) ==> exists|j: int|
            0 <= j < requested@.len() && requested@[j] == c && !fetched_contains(fetched@, c),
{
    let mut i: usize = 0;
    while i < requested.len()
        invariant
            i <= requested@.len(),
            forall|j: int| 0 <= j < i ==> fetched_contains(fetched@, #[trigger] requested@[j]),
        decreases requested@.len() - i,
    {
        if !fetched_contains_exec(fetched, requested[i]) {
            return Err(requested[i]);
        }
        i = i + 1;
    }
    Ok(())
}

/// The fetch answered this currency.
pub open spec fn fetched_contains(s: Seq<(CurrencyCode, ExchangeRate)>, c: CurrencyCode) -> bool {
    exists|j: int| 0 <= j < s.len() && s[j].0 == c
}

fn fetched_contains_exec(v: &Vec<(CurrencyCode, ExchangeRate)>, c: CurrencyCode) -> (r: bool)
    ensures
        r == fetched_contains(v@, c),
{
    let mut i: usize = 0;
    while i < v.len()
        invariant
            i <= v@.len(),
            forall|j: int| 0 <= j < i ==> v@[j].0 != c,
        decreases v@.len() - i,
    {
        if v[i].0 == c {
            return true;
        }
        i = i + 1;
    }
    false
}

} // verus!
