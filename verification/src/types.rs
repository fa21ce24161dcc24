//! Core value types: currency codes, fixed-scale monetary amounts,
//! exchange rates, account classes and difference keys.
//!
//! A `Milliunits` value is an exact decimal with a fixed scale of 3
//! (thousandths of the major currency unit), held as a scaled `i64`.
//! An `ExchangeRate` is an exact decimal with a fixed scale of 6.
//! All rounding is round-half-to-even ("banker's rounding") unless a
//! function says otherwise.

use vstd::prelude::*;

verus! {

/// `10^k`.
pub open spec fn pow10(k: nat) -> int
    decreases k,
{
    if k == 0 {
        1
    } else {
        10 * pow10((k - 1) as nat)
    }
}

pub proof fn lemma_pow10_pos(k: nat)
    ensures
        pow10(k) >= 1,
    decreases k,
{
    if k > 0 {
        lemma_pow10_pos((k - 1) as nat);
    }
}

pub proof fn lemma_pow10_mono(a: nat, b: nat)
    requires
        a <= b,
    ensures
        pow10(a) <= pow10(b),
    decreases b,
{
    if a < b {
        lemma_pow10_mono(a, (b - 1) as nat);
        lemma_pow10_pos((b - 1) as nat);
    }
}

/// `10^k` as an `i64`, for small `k`.
pub fn pow10_i64(k: u32) -> (r: i64)
    requires
        k <= 6,
    ensures
        r == pow10(k as nat),
        1 <= r <= 1000000,
    decreases k,
{
    proof {
        lemma_pow10_pos(k as nat);
        lemma_pow10_mono(k as nat, 6);
        assert(pow10(6) == 1000000) by {
            reveal_with_fuel(pow10, 7);
        }
    }
    if k == 0 {
        1
    } else {
        let p = pow10_i64(k - 1);
        proof {
            lemma_pow10_pos((k - 1) as nat);
        }
        10 * p
    }
}

/// Round the quotient `n / d` to the nearest integer, ties to the even
/// neighbour, for `n >= 0`, `d > 0`.
pub open spec fn div_round_half_even_nonneg(n: int, d: int) -> int {
    let q = n / d;
    let r = n % d;
    if 2 * r < d {
        q
    } else if 2 * r > d {
        q + 1
    } else if q % 2 == 0 {
        q
    } else {
        q + 1
    }
}

/// Round `n / d` to the nearest integer, ties to even, by rounding the
/// magnitude and keeping the sign (the symmetric form of banker's rounding).
pub open spec fn div_round_half_even(n: int, d: int) -> int {
    if n >= 0 {
        div_round_half_even_nonneg(n, d)
    } else {
        -div_round_half_even_nonneg(-n, d)
    }
}

/// Round `n / d` to the nearest integer, ties away from zero, by rounding
/// the magnitude and keeping the sign.
pub open spec fn div_round_half_up_nonneg(n: int, d: int) -> int {
    let q = n / d;
    let r = n % d;
    if 2 * r >= d {
        q + 1
    } else {
        q
    }
}

pub open spec fn div_round_half_up(n: int, d: int) -> int {
    if n >= 0 {
        div_round_half_up_nonneg(n, d)
    } else {
        -div_round_half_up_nonneg(-n, d)
    }
}

/// A scaled amount `n`, rounded to a multiple of `10^k`, ties to even.
pub open spec fn round_scaled_half_even(n: int, k: nat) -> int {
    div_round_half_even(n, pow10(k)) * pow10(k)
}

/// The scaled result of converting a milliunit amount `m` (scale 3) with an
/// exchange rate `r` (scale 6): the product has scale 9 and is rounded back
/// to scale 3 with banker's rounding.
pub open spec fn spec_convert_currency(m: int, r: int) -> int {
    div_round_half_even(m * r, 1000000)
}

/// One account class of the ledger: on-budget debit or credit accounts, or
/// off-budget tracking accounts.
#[derive(Clone, Copy, Debug, PartialEq, Eq, Structural)]
pub enum AccountClass {
    Debit,
    Credit,
    Tracking,
}

/// A currency code: exactly three ASCII letters, stored uppercase.
#[derive(Clone, Copy, Debug, PartialEq, Eq, Structural)]
pub struct CurrencyCode {
    pub c0: char,
    pub c1: char,
    pub c2: char,
}

/// An ASCII upper-case letter.
pub open spec fn is_upper_alpha(c: char) -> bool {
    'A' <= c && c <= 'Z'
}

/// An ASCII letter, either case.
pub open spec fn is_alpha_char(c: char) -> bool {
    ('A' <= c && c <= 'Z') || ('a' <= c && c <= 'z')
}

/// The upper-case form of an ASCII letter; other characters are unchanged.
pub open spec fn spec_to_upper(c: char) -> char {
    if 'a' <= c && c <= 'z' {
        (((c as u32) - 32) as u8) as char
    } else {
        c
    }
}

/// Maps an ASCII letter to its upper-case form; `None` for anything else.
pub fn upper_alpha_of(c: char) -> (r: Option<char>)
    ensures
        r is Some <==> is_alpha_char(c),
        r is Some ==> r->0 == spec_to_upper(c) && is_upper_alpha(spec_to_upper(c)),
{
    match c {
        'A' | 'a' => Some('A'),
        'B' | 'b' => Some('B'),
        'C' | 'c' => Some('C'),
        'D' | 'd' => Some('D'),
        'E' | 'e' => Some('E'),
        'F' | 'f' => Some('F'),
        'G' | 'g' => Some('G'),
        'H' | 'h' => Some('H'),
        'I' | 'i' => Some('I'),
        'J' | 'j' => Some('J'),
        'K' | 'k' => Some('K'),
        'L' | 'l' => Some('L'),
        'M' | 'm' => Some('M'),
        'N' | 'n' => Some('N'),
        'O' | 'o' => Some('O'),
        'P' | 'p' => Some('P'),
        'Q' | 'q' => Some('Q'),
        'R' | 'r' => Some('R'),
        'S' | 's' => Some('S'),
        'T' | 't' => Some('T'),
        'U' | 'u' => Some('U'),
        'V' | 'v' => Some('V'),
        'W' | 'w' => Some('W'),
        'X' | 'x' => Some('X'),
        'Y' | 'y' => Some('Y'),
        'Z' | 'z' => Some('Z'),
        _ => None,
    }
}

/// The single-character string of an ASCII upper-case letter.
pub fn upper_alpha_str(c: char) -> (r: &'static str)
    requires
        is_upper_alpha(c),
    ensures
        r@ == seq![c],
{
    let r = match c {
        'A' => "A",
        'B' => "B",
        'C' => "C",
        'D' => "D",
        'E' => "E",
        'F' => "F",
        'G' => "G",
        'H' => "H",
        'I' => "I",
        'J' => "J",
        'K' => "K",
        'L' => "L",
        'M' => "M",
        'N' => "N",
        'O' => "O",
        'P' => "P",
        'Q' => "Q",
        'R' => "R",
        'S' => "S",
        'T' => "T",
        'U' => "U",
        'V' => "V",
        'W' => "W",
        'X' => "X",
        'Y' => "Y",
        'Z' => "Z",
        _ => "",
    };
    proof {
        reveal_strlit("A");
        reveal_strlit("B");
        reveal_strlit("C");
        reveal_strlit("D");
        reveal_strlit("E");
        reveal_strlit("F");
        reveal_strlit("G");
        reveal_strlit("H");
        reveal_strlit("I");
        reveal_strlit("J");
        reveal_strlit("K");
        reveal_strlit("L");
        reveal_strlit("M");
        reveal_strlit("N");
        reveal_strlit("O");
        reveal_strlit("P");
        reveal_strlit("Q");
        reveal_strlit("R");
        reveal_strlit("S");
        reveal_strlit("T");
        reveal_strlit("U");
        reveal_strlit("V");
        reveal_strlit("W");
        reveal_strlit("X");
        reveal_strlit("Y");
        reveal_strlit("Z");
        assert(r@ =~= seq![c]);
    }
    r
}

impl CurrencyCode {
    /// The three characters of the code.
    pub open spec fn chars(self) -> Seq<char> {
        seq![self.c0, self.c1, self.c2]
    }

    /// Every code holds exactly three upper-case ASCII letters.
    pub open spec fn wf(self) -> bool {
        is_upper_alpha(self.c0) && is_upper_alpha(self.c1) && is_upper_alpha(self.c2)
    }

    /// Parses a currency code: exactly three ASCII letters, normalized to
    /// upper case.  Anything else is a parse error.
    pub fn from_str(code: &str) -> (r: Result<CurrencyCode, CurrencyCodeError>)
        ensures
            r is Ok <==> code@.len() == 3 && is_alpha_char(code@[0]) && is_alpha_char(code@[1])
                && is_alpha_char(code@[2]),
            r is Ok ==> {
                let c = r->Ok_0;
                c.wf() && c.chars() == seq![
                    spec_to_upper(code@[0]),
                    spec_to_upper(code@[1]),
                    spec_to_upper(code@[2]),
                ]
            },
    {
        if code.unicode_len() != 3 {
            return Err(CurrencyCodeError::Invalid);
        }
        let u0 = upper_alpha_of(code.get_char(0));
        let u1 = upper_alpha_of(code.get_char(1));
        let u2 = upper_alpha_of(code.get_char(2));
        match (u0, u1, u2) {
            (Some(c0), Some(c1), Some(c2)) => Ok(CurrencyCode { c0, c1, c2 }),
            _ => Err(CurrencyCodeError::Invalid),
        }
    }

    /// The code as a string of its three letters.
    pub fn to_str(&self) -> (r: String)
        requires
            self.wf(),
        ensures
            r@ == self.chars(),
    {
        let mut r = String::new();
        r.append(upper_alpha_str(self.c0));
        r.append(upper_alpha_str(self.c1));
        r.append(upper_alpha_str(self.c2));
        proof {
            assert(r@ =~= self.chars());
        }
        r
    }
}

/// The error of `CurrencyCode::from_str`: the input was not three ASCII
/// letters.
#[derive(Clone, Copy, Debug, PartialEq, Eq, Structural)]
pub enum CurrencyCodeError {
    Invalid,
}

/// The unit of aggregation: all balances and difference accounts are
/// partitioned by (currency, account class).
#[derive(Clone, Copy, Debug, PartialEq, Eq, Structural)]
pub struct DifferenceKey {
    pub currency: CurrencyCode,
    pub account_class: AccountClass,
}

impl DifferenceKey {
    pub open spec fn wf(self) -> bool {
        self.currency.wf()
    }

    pub fn new(currency: CurrencyCode, account_class: AccountClass) -> (r: DifferenceKey)
        ensures
            r == (DifferenceKey { currency, account_class }),
    {
        DifferenceKey { currency, account_class }
    }
}

/// A monetary amount at fixed scale 3: `scaled` thousandths of the major
/// currency unit.
#[derive(Clone, Copy, Debug, PartialEq, Eq, Structural)]
pub struct Milliunits {
    pub scaled: i64,
}

impl View for Milliunits {
    type V = int;

    open spec fn view(&self) -> int {
        self.scaled as int
    }
}

impl Milliunits {
    pub fn from_scaled_i64(value: i64) -> (r: Milliunits)
        ensures
            r@ == value,
    {
        Milliunits { scaled: value }
    }

    pub fn to_scaled_i64(self) -> (r: i64)
        ensures
            r == self@,
    {
        self.scaled
    }

    pub fn zero() -> (r: Milliunits)
        ensures
            r@ == 0,
    {
        Milliunits { scaled: 0 }
    }

    pub fn is_zero(&self) -> (r: bool)
        ensures
            r == (self@ == 0),
    {
        self.scaled == 0
    }

    pub fn add(self, other: Milliunits) -> (r: Milliunits)
        requires
            i64::MIN <= self@ + other@ <= i64::MAX,
        ensures
            r@ == self@ + other@,
    {
        Milliunits { scaled: self.scaled + other.scaled }
    }

    /// The sum, or `None` where it would leave the representable range.
    pub fn checked_add(self, other: Milliunits) -> (r: Option<Milliunits>)
        ensures
            r is Some <==> i64::MIN <= self@ + other@ <= i64::MAX,
            r is Some ==> r->0@ == self@ + other@,
    {
        let s: i128 = self.scaled as i128 + other.scaled as i128;
        if s >= i64::MIN as i128 && s <= i64::MAX as i128 {
            Some(Milliunits { scaled: s as i64 })
        } else {
            None
        }
    }

    pub fn sub(self, other: Milliunits) -> (r: Milliunits)
        requires
            i64::MIN <= self@ - other@ <= i64::MAX,
        ensures
            r@ == self@ - other@,
    {
        Milliunits { scaled: self.scaled - other.scaled }
    }

    /// The difference, or `None` where it would leave the representable range.
    pub fn checked_sub(self, other: Milliunits) -> (r: Option<Milliunits>)
        ensures
            r is Some <==> i64::MIN <= self@ - other@ <= i64::MAX,
            r is Some ==> r->0@ == self@ - other@,
    {
        let s: i128 = self.scaled as i128 - other.scaled as i128;
        if s >= i64::MIN as i128 && s <= i64::MAX as i128 {
            Some(Milliunits { scaled: s as i64 })
        } else {
            None
        }
    }

    pub fn neg(self) -> (r: Milliunits)
        requires
            self@ != i64::MIN,
        ensures
            r@ == -self@,
    {
        Milliunits { scaled: -self.scaled }
    }

    pub fn abs(&self) -> (r: Milliunits)
        requires
            self@ != i64::MIN,
        ensures
            r@ == if self@ >= 0 { self@ } else { -self@ },
    {
        if self.scaled < 0 {
            Milliunits { scaled: -self.scaled }
        } else {
            Milliunits { scaled: self.scaled }
        }
    }

    /// `self < other`, compared as amounts.
    pub fn lt(self, other: Milliunits) -> (r: bool)
        ensures
            r == (self@ < other@),
    {
        self.scaled < other.scaled
    }

    /// Rounds to `currency_decimal_digits` decimal digits using banker's
    /// rounding; the result keeps scale 3.
    pub fn round_bankers(self, currency_decimal_digits: u32) -> (r: Milliunits)
        requires
            currency_decimal_digits <= 3,
            i64::MIN + 1000 <= self@ <= i64::MAX - 1000,
        ensures
            r@ == round_scaled_half_even(self@, (3 - currency_decimal_digits) as nat),
    {
        let k = 3 - currency_decimal_digits;
        let d_signed: i64 = pow10_i64(k);
        proof {
            lemma_pow10_mono(k as nat, 3);
            assert(pow10(3) == 1000) by {
                reveal_with_fuel(pow10, 4);
            }
            assert(1 <= d_signed <= 1000);
        }
        let d: u64 = d_signed as u64;
        let neg = self.scaled < 0;
        let a: u64 = if neg {
            (-self.scaled) as u64
        } else {
            self.scaled as u64
        };
        let q = a / d;
        let r = a % d;
        proof {
            assert(q <= a && r < d) by (nonlinear_arith)
                requires
                    d > 0,
                    q == a as int / d as int,
                    r == a as int % (d as int),
                    a >= 0,
            ;
        }
        let rq: u64 = if 2 * r < d {
            q
        } else if 2 * r > d {
            q + 1
        } else if q % 2 == 0 {
            q
        } else {
            q + 1
        };
        proof {
            assert(rq == div_round_half_even_nonneg(a as int, d as int));
            vstd::arithmetic::div_mod::lemma_fundamental_div_mod(a as int, d as int);
            assert(rq * d <= a + 500 && rq * d >= 0) by (nonlinear_arith)
                requires
                    0 < d <= 1000,
                    a >= 0,
                    a as int == (d as int) * (q as int) + r,
                    q == a as int / d as int,
                    r == a as int % (d as int),
                    0 <= r < d,
                    rq == q || (rq == q + 1 && 2 * r >= d),
            ;
        }
        let m = rq * d;
        let scaled: i64 = if neg {
            -(m as i64)
        } else {
            m as i64
        };
        proof {
            let n = self@;
            let dd = d as int;
            let qn = div_round_half_even_nonneg(a as int, dd);
            assert(m == qn * dd);
            if neg {
                assert(n < 0 && a as int == -n);
                assert(div_round_half_even(n, dd) == -qn);
                assert((-qn) * dd == -(qn * dd)) by (nonlinear_arith);
            }
            assert(scaled == round_scaled_half_even(n, k as nat));
        }
        Milliunits { scaled }
    }

    /// Converts through an exchange rate: the scale-9 product is rounded
    /// back to scale 3 with banker's rounding.
    pub fn convert_currency(self, exchange_rate: ExchangeRate) -> (r: Milliunits)
        requires
            i64::MIN <= spec_convert_currency(self@, exchange_rate@) <= i64::MAX,
        ensures
            r@ == spec_convert_currency(self@, exchange_rate@),
    {
        match self.checked_convert_currency(exchange_rate) {
            Some(r) => r,
            None => Milliunits { scaled: 0 },  // unreachable under the precondition
        }
    }

    /// As `convert_currency`, with `None` where the result would leave the
    /// representable range.
    pub fn checked_convert_currency(self, exchange_rate: ExchangeRate) -> (r: Option<Milliunits>)
        ensures
            r is Some <==> i64::MIN <= spec_convert_currency(self@, exchange_rate@) <= i64::MAX,
            r is Some ==> r->0@ == spec_convert_currency(self@, exchange_rate@),
    {
        let am: u128 = if self.scaled < 0 {
            (-(self.scaled as i128)) as u128
        } else {
            self.scaled as u128
        };
        let bm: u128 = if exchange_rate.scaled < 0 {
            (-(exchange_rate.scaled as i128)) as u128
        } else {
            exchange_rate.scaled as u128
        };
        proof {
            assert(am * bm <= 0x4000_0000_0000_0000_0000_0000_0000_0000u128) by (nonlinear_arith)
                requires
                    am <= 0x8000_0000_0000_0000u128,
                    bm <= 0x8000_0000_0000_0000u128,
            ;
        }
        let p: u128 = am * bm;
        let neg = (self.scaled < 0) != (exchange_rate.scaled < 0);
        let ghost product: int = self@ * exchange_rate@;
        proof {
            assert(product == if neg { -(p as int) } else { p as int }) by (nonlinear_arith)
                requires
                    am == if self@ < 0 { -self@ } else { self@ },
                    bm == if exchange_rate@ < 0 { -exchange_rate@ } else { exchange_rate@ },
                    p == am * bm,
                    neg == ((self@ < 0) != (exchange_rate@ < 0)),
                    product == self@ * exchange_rate@,
            ;
        }
        let d: u128 = 1000000;
        let q = p / d;
        let r = p % d;
        proof {
            assert(q <= p && r < d) by (nonlinear_arith)
                requires
                    d > 0,
                    q == p as int / d as int,
                    r == p as int % (d as int),
                    p >= 0,
            ;
        }
        let rq: u128 = if 2 * r < d {
            q
        } else if 2 * r > d {
            q + 1
        } else if q % 2 == 0 {
            q
        } else {
            q + 1
        };
        proof {
            assert(rq == div_round_half_even_nonneg(p as int, d as int));
            if p == 0 {
                assert(product == 0);
            }
            assert(spec_convert_currency(self@, exchange_rate@) == if neg && p != 0 {
                -(rq as int)
            } else {
                rq as int
            });
        }
        if neg {
            let signed: i128 = -(rq as i128);
            if signed >= i64::MIN as i128 {
                Some(Milliunits { scaled: signed as i64 })
            } else {
                None
            }
        } else {
            if rq <= i64::MAX as u128 {
                Some(Milliunits { scaled: rq as i64 })
            } else {
                None
            }
        }
    }

    /// The smallest representable amount of a currency displayed with
    /// `currency_decimal_digits` decimal digits.
    pub fn smallest_unit(currency_decimal_digits: u32) -> (r: Milliunits)
        requires
            currency_decimal_digits <= 3,
        ensures
            r@ == pow10((3 - currency_decimal_digits) as nat),
    {
        Milliunits { scaled: pow10_i64(3 - currency_decimal_digits) }
    }
}

/// An exchange rate at fixed scale 6: one unit of a foreign currency equals
/// `scaled` millionths of a unit of the local currency.
#[derive(Clone, Copy, Debug, PartialEq, Eq, Structural)]
pub struct ExchangeRate {
    pub scaled: i64,
}

impl View for ExchangeRate {
    type V = int;

    open spec fn view(&self) -> int {
        self.scaled as int
    }
}

impl ExchangeRate {
    pub fn from_scaled_i64(value: i64) -> (r: ExchangeRate)
        ensures
            r@ == value,
    {
        ExchangeRate { scaled: value }
    }

    pub fn to_scaled_i64(self) -> (r: i64)
        ensures
            r == self@,
    {
        self.scaled
    }
}

/// The identifier of a transaction in the remote ledger.
#[derive(Debug)]
pub struct YnabTransactionId {
    pub raw: String,
}

impl View for YnabTransactionId {
    type V = Seq<char>;

    open spec fn view(&self) -> Seq<char> {
        self.raw@
    }
}

impl YnabTransactionId {
    pub fn new(raw: String) -> (r: YnabTransactionId)
        ensures
            r@ == raw@,
    {
        YnabTransactionId { raw }
    }

    /// A copy with the same text.
    pub fn clone_id(&self) -> (r: YnabTransactionId)
        ensures
            r@ == self@,
    {
        YnabTransactionId { raw: self.raw.clone() }
    }

    pub fn eq_id(&self, other: &YnabTransactionId) -> (r: bool)
        ensures
            r == (self@ == other@),
    {
        self.raw == other.raw
    }
}

/// A client-generated import identifier attached to created transactions,
/// used for remote-side deduplication and response correlation.
#[derive(Debug)]
pub struct YnabImportId {
    pub raw: String,
}

impl View for YnabImportId {
    type V = Seq<char>;

    open spec fn view(&self) -> Seq<char> {
        self.raw@
    }
}

impl YnabImportId {
    pub fn new(raw: String) -> (r: YnabImportId)
        ensures
            r@ == raw@,
    {
        YnabImportId { raw }
    }

    /// A copy with the same text.
    pub fn clone_id(&self) -> (r: YnabImportId)
        ensures
            r@ == self@,
    {
        YnabImportId { raw: self.raw.clone() }
    }

    pub fn eq_id(&self, other: &YnabImportId) -> (r: bool)
        ensures
            r == (self@ == other@),
    {
        self.raw == other.raw
    }
}

/// The identifier of an account in the remote ledger.
#[derive(Debug)]
pub struct YnabAccountId {
    pub raw: String,
}

impl View for YnabAccountId {
    type V = Seq<char>;

    open spec fn view(&self) -> Seq<char> {
        self.raw@
    }
}

impl YnabAccountId {
    pub fn new(raw: String) -> (r: YnabAccountId)
        ensures
            r@ == raw@,
    {
        YnabAccountId { raw }
    }

    /// A copy with the same text.
    pub fn clone_id(&self) -> (r: YnabAccountId)
        ensures
            r@ == self@,
    {
        YnabAccountId { raw: self.raw.clone() }
    }

    pub fn eq_id(&self, other: &YnabAccountId) -> (r: bool)
        ensures
            r == (self@ == other@),
    {
        self.raw == other.raw
    }
}

/// Scale invariant of rounding: rounding a scale-3 amount to `digits`
/// display digits leaves a multiple of the display unit `10^(3-digits)`,
/// so the value still carries exactly at scale 3.  (Amounts and rates are
/// held as scaled integers, so their scales 3 and 6 are fixed by
/// construction; this is the residue of the scale invariant that rounding
/// has to maintain.)
pub proof fn lemma_round_keeps_scale(n: int, k: nat)
    ensures
        round_scaled_half_even(n, k) % pow10(k) == 0,
{
    lemma_pow10_pos(k);
    vstd::arithmetic::div_mod::lemma_mod_multiples_basic(div_round_half_even(n, pow10(k)), pow10(k));
}

} // verus!
