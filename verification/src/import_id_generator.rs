//! Fresh, unique import identifiers for created transactions: a fixed
//! prefix built from the process start time, then a strictly increasing
//! sequence number.

use vstd::prelude::*;
use crate::constants::import_id_prefix;
use crate::dates::Date;
use crate::text::{dec_digits, push_u64_decimal, push_u64_padded, zero_pad};
use crate::types::YnabImportId;

verus! {

/// The prefix of every import id of a run started at the given instant:
/// the fixed marker, the date, and the time to the millisecond.
pub open spec fn spec_import_id_prefix(
    date: Date,
    hour: u32,
    minute: u32,
    second: u32,
    millisecond: u32,
) -> Seq<char> {
    "FCAY:"@ + zero_pad(dec_digits(date.year as nat), 4) + zero_pad(dec_digits(date.month as nat), 2)
        + zero_pad(dec_digits(date.day as nat), 2) + ":"@ + zero_pad(dec_digits(hour as nat), 2)
        + zero_pad(dec_digits(minute as nat), 2) + zero_pad(dec_digits(second as nat), 2)
        + zero_pad(dec_digits(millisecond as nat), 3)
}

/// Generates import ids unique within and across runs: runs differ in the
/// start-time prefix, ids of one run in the sequence number.
#[derive(Debug)]
pub struct ImportIdGenerator {
    pub prefix: String,
    pub next_number: u64,
}

impl ImportIdGenerator {
    /// Starts a generator for a run begun at the given instant.
    pub fn new(start_date: Date, hour: u32, minute: u32, second: u32, millisecond: u32) -> (r:
        ImportIdGenerator)
        ensures
            r.prefix@ == spec_import_id_prefix(start_date, hour, minute, second, millisecond),
            r.next_number == 0,
    {
        let mut s = String::new();
        s.append(import_id_prefix());
        s.append(":");
        push_u64_padded(&mut s, start_date.year as u64, 4);
        push_u64_padded(&mut s, start_date.month as u64, 2);
        push_u64_padded(&mut s, start_date.day as u64, 2);
        s.append(":");
        push_u64_padded(&mut s, hour as u64, 2);
        push_u64_padded(&mut s, minute as u64, 2);
        push_u64_padded(&mut s, second as u64, 2);
        push_u64_padded(&mut s, millisecond as u64, 3);
        proof {
            reveal_strlit("FCAY");
            reveal_strlit(":");
            reveal_strlit("FCAY:");
            assert(s@ =~= spec_import_id_prefix(start_date, hour, minute, second, millisecond));
        }
        ImportIdGenerator { prefix: s, next_number: 0 }
    }

    /// The text of the import id with a given sequence number.
    pub open spec fn spec_import_id(&self, number: u64) -> Seq<char> {
        self.prefix@ + ":"@ + dec_digits(number as nat)
    }

    /// The next fresh import id: the prefix, a separator, and the current
    /// sequence number, which then increments.
    pub fn next_import_id(&mut self) -> (r: YnabImportId)
        requires
            old(self).next_number < u64::MAX,
        ensures
            final(self).prefix@ == old(self).prefix@,
            final(self).next_number == old(self).next_number + 1,
            r@ == old(self).spec_import_id(old(self).next_number),
    {
        let mut s = self.prefix.clone();
        s.append(":");
        push_u64_decimal(&mut s, self.next_number);
        self.next_number = self.next_number + 1;
        proof {
            reveal_strlit(":");
        }
        YnabImportId::new(s)
    }
}

/// Import identifiers of one run are pairwise distinct: the run's prefix
/// is shared and the strictly increasing sequence numbers render
/// differently, so no two issued ids collide.
pub proof fn lemma_import_ids_unique(g: &ImportIdGenerator, n1: u64, n2: u64)
    requires
        n1 != n2,
    ensures
        g.spec_import_id(n1) != g.spec_import_id(n2),
{
    crate::text::lemma_dec_digits_injective(n1 as nat, n2 as nat);
    let p = g.prefix@ + ":"@;
    let s1 = dec_digits(n1 as nat);
    let s2 = dec_digits(n2 as nat);
    if s1.len() == s2.len() {
        assert(g.spec_import_id(n1) != g.spec_import_id(n2)) by {
            if p + s1 == p + s2 {
                assert forall|i: int| 0 <= i < s1.len() implies s1[i] == s2[i] by {
                    assert(s1[i] == (p + s1)[p.len() + i]);
                    assert(s2[i] == (p + s2)[p.len() + i]);
                }
                assert(s1 =~= s2);
            }
        }
    } else {
        assert(g.spec_import_id(n1).len() != g.spec_import_id(n2).len());
    }
}

} // verus!
