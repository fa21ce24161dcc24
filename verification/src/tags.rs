//! The tag language of account names, notes and memos.
//!
//! Accounts and transactions are tagged with angle-bracket markers, matched
//! case-insensitively over ASCII letters:
//!
//! - `<XXX>` with three letters: a foreign-currency account marker;
//! - `<XXX DIFFERENCE>` (one or more spaces or dashes between the code and
//!   the word): a difference-account marker;
//! - `<CONVERT>`: a force-convert marker;
//! - `<NO CONVERT>` (any number of spaces or dashes, also none): a
//!   no-convert marker.

use vstd::prelude::*;
use crate::types::{
    is_alpha_char, is_upper_alpha, spec_to_upper, upper_alpha_of, CurrencyCode,
};

verus! {

/// Case-insensitive match of `c` against an upper-case pattern character.
pub open spec fn eq_ci(c: char, u: char) -> bool {
    spec_to_upper(c) == u
}

/// The characters the tag language lets stand between words: whitespace and
/// dashes.
pub open spec fn is_ws_dash(c: char) -> bool {
    c == ' ' || c == '\t' || c == '\n' || c == '\r' || c == '\u{b}' || c == '\u{c}' || c == '-'
}

/// The length of the longest run of whitespace-or-dash characters starting
/// at position `i`.
pub open spec fn ws_dash_run(s: Seq<char>, i: int) -> int
    decreases s.len() - i,
{
    if 0 <= i < s.len() && is_ws_dash(s[i]) {
        1 + ws_dash_run(s, i + 1)
    } else {
        0
    }
}

/// A `<CONVERT>` marker starts at position `i`.
pub open spec fn convert_tag_at(s: Seq<char>, i: int) -> bool {
    &&& 0 <= i
    &&& i + 9 <= s.len()
    &&& s[i] == '<'
    &&& eq_ci(s[i + 1], 'C')
    &&& eq_ci(s[i + 2], 'O')
    &&& eq_ci(s[i + 3], 'N')
    &&& eq_ci(s[i + 4], 'V')
    &&& eq_ci(s[i + 5], 'E')
    &&& eq_ci(s[i + 6], 'R')
    &&& eq_ci(s[i + 7], 'T')
    &&& s[i + 8] == '>'
}

/// A `<NO CONVERT>` marker starts at position `i`.
pub open spec fn no_convert_tag_at(s: Seq<char>, i: int) -> bool {
    &&& 0 <= i
    &&& i + 3 <= s.len()
    &&& s[i] == '<'
    &&& eq_ci(s[i + 1], 'N')
    &&& eq_ci(s[i + 2], 'O')
    &&& {
        let m = ws_dash_run(s, i + 3);
        &&& i + 3 + m + 8 <= s.len()
        &&& eq_ci(s[i + 3 + m], 'C')
        &&& eq_ci(s[i + 4 + m], 'O')
        &&& eq_ci(s[i + 5 + m], 'N')
        &&& eq_ci(s[i + 6 + m], 'V')
        &&& eq_ci(s[i + 7 + m], 'E')
        &&& eq_ci(s[i + 8 + m], 'R')
        &&& eq_ci(s[i + 9 + m], 'T')
        &&& s[i + 10 + m] == '>'
    }
}

/// A bare currency marker `<XXX>` starts at position `i`.
pub open spec fn currency_tag_at(s: Seq<char>, i: int) -> bool {
    &&& 0 <= i
    &&& i + 5 <= s.len()
    &&& s[i] == '<'
    &&& is_alpha_char(s[i + 1])
    &&& is_alpha_char(s[i + 2])
    &&& is_alpha_char(s[i + 3])
    &&& s[i + 4] == '>'
}

/// The currency code captured by a currency marker at position `i`.
pub open spec fn currency_tag_code_at(s: Seq<char>, i: int) -> CurrencyCode {
    CurrencyCode {
        c0: spec_to_upper(s[i + 1]),
        c1: spec_to_upper(s[i + 2]),
        c2: spec_to_upper(s[i + 3]),
    }
}

/// A difference-account marker `<XXX DIFFERENCE>` starts at position `i`.
pub open spec fn difference_tag_at(s: Seq<char>, i: int) -> bool {
    &&& 0 <= i
    &&& i + 4 <= s.len()
    &&& s[i] == '<'
    &&& is_alpha_char(s[i + 1])
    &&& is_alpha_char(s[i + 2])
    &&& is_alpha_char(s[i + 3])
    &&& {
        let m = ws_dash_run(s, i + 4);
        &&& m >= 1
        &&& i + 4 + m + 11 <= s.len()
        &&& eq_ci(s[i + 4 + m], 'D')
        &&& eq_ci(s[i + 5 + m], 'I')
        &&& eq_ci(s[i + 6 + m], 'F')
        &&& eq_ci(s[i + 7 + m], 'F')
        &&& eq_ci(s[i + 8 + m], 'E')
        &&& eq_ci(s[i + 9 + m], 'R')
        &&& eq_ci(s[i + 10 + m], 'E')
        &&& eq_ci(s[i + 11 + m], 'N')
        &&& eq_ci(s[i + 12 + m], 'C')
        &&& eq_ci(s[i + 13 + m], 'E')
        &&& s[i + 14 + m] == '>'
    }
}

/// The text holds a `<CONVERT>` marker somewhere.
pub open spec fn has_convert_tag(s: Seq<char>) -> bool {
    exists|i: int| convert_tag_at(s, i)
}

/// The text holds a `<NO CONVERT>` marker somewhere.
pub open spec fn has_no_convert_tag(s: Seq<char>) -> bool {
    exists|i: int| no_convert_tag_at(s, i)
}

/// The upper-case form of a character.
pub fn to_upper_char(c: char) -> (r: char)
    ensures
        r == spec_to_upper(c),
{
    match upper_alpha_of(c) {
        Some(u) => u,
        None => c,
    }
}

/// Whether `c` is whitespace or a dash.
pub fn ws_dash(c: char) -> (r: bool)
    ensures
        r == is_ws_dash(c),
{
    c == ' ' || c == '\t' || c == '\n' || c == '\r' || c == '\u{b}' || c == '\u{c}' || c == '-'
}

/// The longest run of whitespace-or-dash characters starting at `i`.
fn ws_dash_run_from(s: &str, i: usize, n: usize) -> (m: usize)
    requires
        i <= n,
        n == s@.len(),
    ensures
        m == ws_dash_run(s@, i as int),
        i + m <= n,
    decreases n - i,
{
    if i < n && ws_dash(s.get_char(i)) {
        1 + ws_dash_run_from(s, i + 1, n)
    } else {
        0
    }
}

/// Whether a `<CONVERT>` marker starts at position `i`.
fn convert_tag_at_exec(s: &str, i: usize, n: usize) -> (r: bool)
    requires
        i < n,
        n == s@.len(),
    ensures
        r == convert_tag_at(s@, i as int),
{
    if n - i < 9 {
        return false;
    }
    s.get_char(i) == '<' && to_upper_char(s.get_char(i + 1)) == 'C' && to_upper_char(
        s.get_char(i + 2),
    ) == 'O' && to_upper_char(s.get_char(i + 3)) == 'N' && to_upper_char(s.get_char(i + 4)) == 'V'
        && to_upper_char(s.get_char(i + 5)) == 'E' && to_upper_char(s.get_char(i + 6)) == 'R'
        && to_upper_char(s.get_char(i + 7)) == 'T' && s.get_char(i + 8) == '>'
}

/// Whether a `<NO CONVERT>` marker starts at position `i`.
fn no_convert_tag_at_exec(s: &str, i: usize, n: usize) -> (r: bool)
    requires
        i < n,
        n == s@.len(),
    ensures
        r == no_convert_tag_at(s@, i as int),
{
    if n - i < 3 {
        return false;
    }
    if !(s.get_char(i) == '<' && to_upper_char(s.get_char(i + 1)) == 'N' && to_upper_char(
        s.get_char(i + 2),
    ) == 'O') {
        return false;
    }
    let m = ws_dash_run_from(s, i + 3, n);
    if n - (i + 3 + m) < 8 {
        return false;
    }
    to_upper_char(s.get_char(i + 3 + m)) == 'C' && to_upper_char(s.get_char(i + 4 + m)) == 'O'
        && to_upper_char(s.get_char(i + 5 + m)) == 'N' && to_upper_char(s.get_char(i + 6 + m))
        == 'V' && to_upper_char(s.get_char(i + 7 + m)) == 'E' && to_upper_char(
        s.get_char(i + 8 + m),
    ) == 'R' && to_upper_char(s.get_char(i + 9 + m)) == 'T' && s.get_char(i + 10 + m) == '>'
}

/// Whether a bare currency marker starts at `i`; gives the captured code.
fn currency_tag_at_exec(s: &str, i: usize, n: usize) -> (r: Option<CurrencyCode>)
    requires
        i < n,
        n == s@.len(),
    ensures
        r is Some <==> currency_tag_at(s@, i as int),
        r is Some ==> r->0 == currency_tag_code_at(s@, i as int) && r->0.wf(),
{
    if n - i < 5 {
        return None;
    }
    if s.get_char(i) != '<' || s.get_char(i + 4) != '>' {
        return None;
    }
    let u1 = upper_alpha_of(s.get_char(i + 1));
    let u2 = upper_alpha_of(s.get_char(i + 2));
    let u3 = upper_alpha_of(s.get_char(i + 3));
    match (u1, u2, u3) {
        (Some(c0), Some(c1), Some(c2)) => Some(CurrencyCode { c0, c1, c2 }),
        _ => None,
    }
}

/// Whether a difference-account marker starts at `i`; gives the captured
/// code.
fn difference_tag_at_exec(s: &str, i: usize, n: usize) -> (r: Option<CurrencyCode>)
    requires
        i < n,
        n == s@.len(),
    ensures
        r is Some <==> difference_tag_at(s@, i as int),
        r is Some ==> r->0 == currency_tag_code_at(s@, i as int) && r->0.wf(),
{
    if n - i < 4 {
        return None;
    }
    if s.get_char(i) != '<' {
        return None;
    }
    let u1 = upper_alpha_of(s.get_char(i + 1));
    let u2 = upper_alpha_of(s.get_char(i + 2));
    let u3 = upper_alpha_of(s.get_char(i + 3));
    let (c0, c1, c2) = match (u1, u2, u3) {
        (Some(c0), Some(c1), Some(c2)) => (c0, c1, c2),
        _ => { return None; },
    };
    let m = ws_dash_run_from(s, i + 4, n);
    if m < 1 || n - (i + 4 + m) < 11 {
        return None;
    }
    if to_upper_char(s.get_char(i + 4 + m)) == 'D' && to_upper_char(s.get_char(i + 5 + m)) == 'I'
        && to_upper_char(s.get_char(i + 6 + m)) == 'F' && to_upper_char(s.get_char(i + 7 + m))
        == 'F' && to_upper_char(s.get_char(i + 8 + m)) == 'E' && to_upper_char(
        s.get_char(i + 9 + m),
    ) == 'R' && to_upper_char(s.get_char(i + 10 + m)) == 'E' && to_upper_char(
        s.get_char(i + 11 + m),
    ) == 'N' && to_upper_char(s.get_char(i + 12 + m)) == 'C' && to_upper_char(
        s.get_char(i + 13 + m),
    ) == 'E' && s.get_char(i + 14 + m) == '>' {
        Some(CurrencyCode { c0, c1, c2 })
    } else {
        None
    }
}

/// Whether the text holds a `<CONVERT>` marker.
pub fn find_convert_tag(s: &str) -> (r: bool)
    ensures
        r == has_convert_tag(s@),
{
    let n = s.unicode_len();
    let mut i: usize = 0;
    while i < n
        invariant
            n == s@.len(),
            i <= n,
            forall|k: int| 0 <= k < i ==> !convert_tag_at(s@, k),
        decreases n - i,
    {
        if convert_tag_at_exec(s, i, n) {
            return true;
        }
        i = i + 1;
    }
    false
}

/// Whether the text holds a `<NO CONVERT>` marker.
pub fn find_no_convert_tag(s: &str) -> (r: bool)
    ensures
        r == has_no_convert_tag(s@),
{
    let n = s.unicode_len();
    let mut i: usize = 0;
    while i < n
        invariant
            n == s@.len(),
            i <= n,
            forall|k: int| 0 <= k < i ==> !no_convert_tag_at(s@, k),
        decreases n - i,
    {
        if no_convert_tag_at_exec(s, i, n) {
            return true;
        }
        i = i + 1;
    }
    false
}

/// The result of scanning a text for currency or difference markers.
pub enum TagScan {
    /// No marker occurs.
    NoTag,
    /// Exactly one marker occurs; the captured currency code.
    OneTag(CurrencyCode),
    /// Two or more markers occur.
    ManyTags,
}

/// What scanning a text for bare currency markers yields: whether none,
/// exactly one (with its captured code), or several occur.
pub open spec fn spec_scan_currency(s: Seq<char>) -> TagScan {
    if exists|k1: int, k2: int| k1 != k2 && currency_tag_at(s, k1) && currency_tag_at(s, k2) {
        TagScan::ManyTags
    } else if exists|k: int| currency_tag_at(s, k) {
        TagScan::OneTag(currency_tag_code_at(s, choose|k: int| currency_tag_at(s, k)))
    } else {
        TagScan::NoTag
    }
}

/// What scanning a text for difference-account markers yields.
pub open spec fn spec_scan_difference(s: Seq<char>) -> TagScan {
    if exists|k1: int, k2: int| k1 != k2 && difference_tag_at(s, k1) && difference_tag_at(s, k2) {
        TagScan::ManyTags
    } else if exists|k: int| difference_tag_at(s, k) {
        TagScan::OneTag(currency_tag_code_at(s, choose|k: int| difference_tag_at(s, k)))
    } else {
        TagScan::NoTag
    }
}

/// Scans for bare currency markers `<XXX>`.
pub fn scan_currency_tags(s: &str) -> (r: TagScan)
    ensures
        r == spec_scan_currency(s@),
        r matches TagScan::OneTag(c) ==> c.wf(),
{
    let n = s.unicode_len();
    let mut i: usize = 0;
    let mut found: Option<CurrencyCode> = None;
    let ghost mut first: int = 0;
    while i < n
        invariant
            n == s@.len(),
            i <= n,
            match found {
                Option::None => forall|k: int| 0 <= k < i ==> !currency_tag_at(s@, k),
                Option::Some(c) => {
                    &&& 0 <= first < i
                    &&& currency_tag_at(s@, first)
                    &&& c == currency_tag_code_at(s@, first)
                    &&& c.wf()
                    &&& forall|k: int|
                        0 <= k < i && k != first ==> !currency_tag_at(s@, k)
                },
            },
        decreases n - i,
    {
        if let Some(code) = currency_tag_at_exec(s, i, n) {
            if found.is_some() {
                proof {
                    assert(first != i && currency_tag_at(s@, first) && currency_tag_at(
                        s@,
                        i as int,
                    ));
                }
                return TagScan::ManyTags;
            }
            found = Some(code);
            proof {
                first = i as int;
            }
        }
        i = i + 1;
    }
    proof {
        assert(forall|k: int| currency_tag_at(s@, k) ==> 0 <= k < n);
    }
    match found {
        None => {
            proof {
                assert(forall|k: int| !currency_tag_at(s@, k));
            }
            TagScan::NoTag
        },
        Some(code) => {
            proof {
                assert(currency_tag_at(s@, first));
                let k0 = choose|k: int| currency_tag_at(s@, k);
                assert(currency_tag_at(s@, k0));
                assert(k0 == first);
                assert(forall|k1: int, k2: int|
                    k1 != k2 && currency_tag_at(s@, k1) && currency_tag_at(s@, k2) ==> false);
            }
            TagScan::OneTag(code)
        },
    }
}

/// Scans for difference-account markers `<XXX DIFFERENCE>`.
pub fn scan_difference_tags(s: &str) -> (r: TagScan)
    ensures
        r == spec_scan_difference(s@),
        r matches TagScan::OneTag(c) ==> c.wf(),
{
    let n = s.unicode_len();
    let mut i: usize = 0;
    let mut found: Option<CurrencyCode> = None;
    let ghost mut first: int = 0;
    while i < n
        invariant
            n == s@.len(),
            i <= n,
            match found {
                Option::None => forall|k: int| 0 <= k < i ==> !difference_tag_at(s@, k),
                Option::Some(c) => {
                    &&& 0 <= first < i
                    &&& difference_tag_at(s@, first)
                    &&& c == currency_tag_code_at(s@, first)
                    &&& c.wf()
                    &&& forall|k: int|
                        0 <= k < i && k != first ==> !difference_tag_at(s@, k)
                },
            },
        decreases n - i,
    {
        if let Some(code) = difference_tag_at_exec(s, i, n) {
            if found.is_some() {
                proof {
                    assert(first != i && difference_tag_at(s@, first) && difference_tag_at(
                        s@,
                        i as int,
                    ));
                }
                return TagScan::ManyTags;
            }
            found = Some(code);
            proof {
                first = i as int;
            }
        }
        i = i + 1;
    }
    proof {
        assert(forall|k: int| difference_tag_at(s@, k) ==> 0 <= k < n);
    }
    match found {
        None => {
            proof {
                assert(forall|k: int| !difference_tag_at(s@, k));
            }
            TagScan::NoTag
        },
        Some(code) => {
            proof {
                assert(difference_tag_at(s@, first));
                let k0 = choose|k: int| difference_tag_at(s@, k);
                assert(difference_tag_at(s@, k0));
                assert(k0 == first);
                assert(forall|k1: int, k2: int|
                    k1 != k2 && difference_tag_at(s@, k1) && difference_tag_at(s@, k2) ==> false);
            }
            TagScan::OneTag(code)
        },
    }
}

} // verus!
