//! The request side of the currency-rate provider: chunking the currency
//! pairs to the provider's per-request limit and building each request URL.
//! Sending the requests and decoding the responses is the caller's part.

use vstd::prelude::*;
use crate::dates::{spec_format_iso_date, format_iso_date, Date};
use crate::types::CurrencyCode;

verus! {

/// The query text of a list of currency pairs: `FROM_TO`, comma-separated.
pub open spec fn spec_pairs_query(pairs: Seq<(CurrencyCode, CurrencyCode)>) -> Seq<char>
    decreases pairs.len(),
{
    if pairs.len() == 0 {
        Seq::empty()
    } else if pairs.len() == 1 {
        pairs.last().0.chars() + "_"@ + pairs.last().1.chars()
    } else {
        spec_pairs_query(pairs.drop_last()) + ","@ + pairs.last().0.chars() + "_"@
            + pairs.last().1.chars()
    }
}

/// One request URL of the provider for a date and a chunk of pairs.
pub open spec fn spec_request_url(
    base_url: Seq<char>,
    api_key: Seq<char>,
    date: Date,
    pairs: Seq<(CurrencyCode, CurrencyCode)>,
) -> Seq<char> {
    base_url + "/api/v7/convert?q="@ + spec_pairs_query(pairs) + "&compact=ultra&date="@
        + spec_format_iso_date(date) + "&apiKey="@ + api_key
}

/// The chunks of `s` with `k` elements each (the last possibly shorter).
pub open spec fn spec_chunks(
    s: Seq<(CurrencyCode, CurrencyCode)>,
    k: int,
) -> Seq<Seq<(CurrencyCode, CurrencyCode)>>
    recommends
        k >= 1,
    decreases s.len(),
{
    if s.len() == 0 || k < 1 {
        Seq::empty()
    } else if s.len() <= k {
        seq![s]
    } else {
        seq![s.take(k)] + spec_chunks(s.skip(k), k)
    }
}

/// The client of the currency-rate provider: its key, endpoint, and
/// per-request pair limit.
#[derive(Debug)]
pub struct CurrencyConverterClient {
    pub api_key: String,
    pub base_url: String,
    pub max_pairs_per_request: usize,
}

impl CurrencyConverterClient {
    pub fn new(api_key: String, base_url: String, max_pairs_per_request: usize) -> (r:
        CurrencyConverterClient)
        requires
            max_pairs_per_request >= 1,
        ensures
            r.api_key@ == api_key@,
            r.base_url@ == base_url@,
            r.max_pairs_per_request == max_pairs_per_request,
    {
        CurrencyConverterClient { api_key, base_url, max_pairs_per_request }
    }

    /// Splits the pairs to fetch into request-sized chunks.
    pub fn chunk_currency_pairs(&self, pairs: &Vec<(CurrencyCode, CurrencyCode)>) -> (r: Vec<
        Vec<(CurrencyCode, CurrencyCode)>,
    >)
        requires
            self.max_pairs_per_request >= 1,
        ensures
            r@.len() == spec_chunks(pairs@, self.max_pairs_per_request as int).len(),
            forall|j: int|
                0 <= j < r@.len() ==> (#[trigger] r@[j])@ == spec_chunks(
                    pairs@,
                    self.max_pairs_per_request as int,
                )[j],
    {
        let r = chunk_pairs_from(pairs, 0, self.max_pairs_per_request);
        proof {
            assert(pairs@.skip(0) =~= pairs@);
        }
        r
    }

    /// Builds the provider URL for one date and one chunk of pairs.
    pub fn build_request_url(&self, date: Date, pairs_chunk: &Vec<(CurrencyCode, CurrencyCode)>)
        -> (r: String)
        requires
            forall|j: int|
                0 <= j < pairs_chunk@.len() ==> (#[trigger] pairs_chunk@[j]).0.wf()
                    && pairs_chunk@[j].1.wf(),
        ensures
            r@ == spec_request_url(self.base_url@, self.api_key@, date, pairs_chunk@),
    {
        let mut s = String::new();
        s.append(self.base_url.as_str());
        s.append("/api/v7/convert?q=");
        let mut i: usize = 0;
        while i < pairs_chunk.len()
            invariant
                i <= pairs_chunk@.len(),
                forall|j: int|
                    0 <= j < pairs_chunk@.len() ==> (#[trigger] pairs_chunk@[j]).0.wf()
                        && pairs_chunk@[j].1.wf(),
                s@ == self.base_url@ + "/api/v7/convert?q="@ + spec_pairs_query(
                    pairs_chunk@.take(i as int),
                ),
            decreases pairs_chunk@.len() - i,
        {
            if i > 0 {
                s.append(",");
            }
            let from = pairs_chunk[i].0.to_str();
            s.append(from.as_str());
            s.append("_");
            let to = pairs_chunk[i].1.to_str();
            s.append(to.as_str());
            proof {
                assert(pairs_chunk@.take(i as int + 1).drop_last() =~= pairs_chunk@.take(i as int));
                assert(pairs_chunk@.take(i as int + 1).last() == pairs_chunk@[i as int]);
                assert(s@ =~= self.base_url@ + "/api/v7/convert?q="@ + spec_pairs_query(
                    pairs_chunk@.take(i as int + 1),
                ));
            }
            i = i + 1;
        }
        s.append("&compact=ultra&date=");
        let iso = format_iso_date(date);
        s.append(iso.as_str());
        s.append("&apiKey=");
        s.append(self.api_key.as_str());
        proof {
            assert(pairs_chunk@.take(pairs_chunk@.len() as int) =~= pairs_chunk@);
            assert(s@ =~= spec_request_url(self.base_url@, self.api_key@, date, pairs_chunk@));
        }
        s
    }
}

/// Chunks the suffix of `pairs` from position `i` on.
fn chunk_pairs_from(pairs: &Vec<(CurrencyCode, CurrencyCode)>, i: usize, k: usize) -> (r: Vec<
    Vec<(CurrencyCode, CurrencyCode)>,
>)
    requires
        k >= 1,
        i <= pairs@.len(),
    ensures
        r@.len() == spec_chunks(pairs@.skip(i as int), k as int).len(),
        forall|j: int|
            0 <= j < r@.len() ==> (#[trigger] r@[j])@ == spec_chunks(
                pairs@.skip(i as int),
                k as int,
            )[j],
    decreases pairs@.len() - i,
{
    if i == pairs.len() {
        proof {
            assert(pairs@.skip(i as int) =~= Seq::empty());
        }
        Vec::new()
    } else {
        let n = pairs.len();
        let remaining = n - i;
        let take_n = if remaining <= k {
            remaining
        } else {
            k
        };
        let mut chunk: Vec<(CurrencyCode, CurrencyCode)> = Vec::new();
        let mut j: usize = 0;
        while j < take_n
            invariant
                j <= take_n,
                n == pairs@.len(),
                i + take_n <= n,
                chunk@ == pairs@.subrange(i as int, i as int + j as int),
            decreases take_n - j,
        {
            chunk.push(pairs[i + j]);
            proof {
                assert(chunk@ =~= pairs@.subrange(i as int, i as int + j as int + 1));
            }
            j = j + 1;
        }
        let mut rest = chunk_pairs_from(pairs, i + take_n, k);
        let mut r: Vec<Vec<(CurrencyCode, CurrencyCode)>> = Vec::new();
        r.push(chunk);
        r.append(&mut rest);
        proof {
            let suffix = pairs@.skip(i as int);
            if remaining <= k {
                assert(suffix =~= pairs@.subrange(i as int, i as int + take_n as int));
                assert(spec_chunks(suffix, k as int) =~= seq![suffix]);
            } else {
                assert(suffix.take(k as int) =~= pairs@.subrange(i as int, i as int + k as int));
                assert(suffix.skip(k as int) =~= pairs@.skip(i as int + k as int));
            }
        }
        r
    }
}

} // verus!
