//! Human-readable rendering of amounts, exchange rates and dates, following
//! the budget's own currency and date format settings.  The rendered text
//! feeds the memos of difference transactions, so it is part of the
//! engine's contract.

use vstd::prelude::*;
use crate::dates::Date;
use crate::text::{
    dec_digits, grouped_digits, push_u64_decimal, push_u64_grouped, push_u64_padded, zero_pad,
};
use crate::types::{div_round_half_up_nonneg, pow10, pow10_i64, CurrencyCode, Milliunits, ExchangeRate};

verus! {

/// The currency format of a budget, as its settings carry it.
#[derive(Debug)]
pub struct CurrencyFormat {
    /// The ISO code of the budget's local currency.
    pub iso_code: String,
    /// How many decimal digits amounts are displayed with.
    pub decimal_digits: u32,
    pub decimal_separator: String,
    pub symbol_first: bool,
    pub group_separator: String,
    pub currency_symbol: String,
    pub display_symbol: bool,
}

/// The date format of a budget: a pattern over `YYYY`, `MM` and `DD`.
#[derive(Debug)]
pub struct DateFormat {
    pub format: String,
}

/// The display settings of a budget.
#[derive(Debug)]
pub struct BudgetSettings {
    pub date_format: DateFormat,
    pub currency_format: CurrencyFormat,
}

impl BudgetSettings {
    /// The display precision the engine supports: at least one decimal
    /// digit (amounts are always written with a decimal separator) and at
    /// most the scale of `Milliunits`.
    pub open spec fn wf(&self) -> bool {
        1 <= self.currency_format.decimal_digits <= 3
    }
}

/// The digits of `ip`, grouped in threes, then the decimal separator, then
/// the digits of `fp` zero-padded to `decimals` characters.
pub open spec fn spec_render_parts(
    cf: &CurrencyFormat,
    ip: nat,
    fp: nat,
    decimals: nat,
) -> Seq<char> {
    grouped_digits(ip, cf.group_separator@) + cf.decimal_separator@ + zero_pad(
        dec_digits(fp),
        decimals,
    )
}

/// The full rendering of a scaled decimal value `n` of scale `scale`:
/// rounded half-up (away from zero) to the displayed precision unless
/// `all_decimal_digits`, grouped and signed, with the currency symbol
/// placed as the settings say.
pub open spec fn spec_format_currency_custom(
    cf: &CurrencyFormat,
    symbol: Seq<char>,
    spacer: Seq<char>,
    force_display_symbol: bool,
    minus_before_symbol_first: bool,
    all_decimal_digits: bool,
    n: int,
    scale: nat,
) -> Seq<char> {
    let digits = if all_decimal_digits {
        scale
    } else {
        cf.decimal_digits as nat
    };
    let a = if n >= 0 {
        n
    } else {
        -n
    };
    let shown = if all_decimal_digits {
        a
    } else {
        div_round_half_up_nonneg(a, pow10((scale - digits) as nat))
    };
    let body = spec_render_parts(
        cf,
        (shown / pow10(digits)) as nat,
        (shown % pow10(digits)) as nat,
        digits,
    );
    let signed_body = if !minus_before_symbol_first && n < 0 {
        seq!['-'] + body
    } else {
        body
    };
    let sym_body = if cf.display_symbol || force_display_symbol {
        if cf.symbol_first {
            symbol + spacer + signed_body
        } else {
            signed_body + spacer + symbol
        }
    } else {
        signed_body
    };
    if minus_before_symbol_first && n < 0 {
        seq!['-'] + sym_body
    } else {
        sym_body
    }
}

/// An amount in the budget's own currency: rounded to the displayed
/// precision, symbol per the settings, the sign leading everything.
pub open spec fn spec_format_milliunits(cf: &CurrencyFormat, n: int) -> Seq<char> {
    spec_format_currency_custom(
        cf,
        cf.currency_symbol@,
        Seq::<char>::empty(),
        false,
        true,
        false,
        n,
        3,
    )
}

/// An amount labelled with a currency code instead of the symbol.
pub open spec fn spec_format_milliunits_with_code(
    cf: &CurrencyFormat,
    code: CurrencyCode,
    n: int,
) -> Seq<char> {
    spec_format_currency_custom(cf, code.chars(), " "@, true, false, false, n, 3)
}

/// An exchange rate, written with all six decimal digits.
pub open spec fn spec_format_exchange_rate(cf: &CurrencyFormat, n: int) -> Seq<char> {
    spec_format_currency_custom(
        cf,
        cf.currency_symbol@,
        Seq::<char>::empty(),
        false,
        true,
        true,
        n,
        6,
    )
}

/// A date rendered through the budget's pattern, from position `i` on:
/// `YYYY` becomes the four-digit year, `MM` and `DD` the two-digit month
/// and day, everything else stands as it is.
pub open spec fn spec_format_date_from(fmt: Seq<char>, i: int, d: Date) -> Seq<char>
    decreases fmt.len() - i,
{
    if i < 0 || i >= fmt.len() {
        Seq::<char>::empty()
    } else if i + 4 <= fmt.len() && fmt[i] == 'Y' && fmt[i + 1] == 'Y' && fmt[i + 2] == 'Y'
        && fmt[i + 3] == 'Y' {
        zero_pad(dec_digits(d.year as nat), 4) + spec_format_date_from(fmt, i + 4, d)
    } else if i + 2 <= fmt.len() && fmt[i] == 'M' && fmt[i + 1] == 'M' {
        zero_pad(dec_digits(d.month as nat), 2) + spec_format_date_from(fmt, i + 2, d)
    } else if i + 2 <= fmt.len() && fmt[i] == 'D' && fmt[i + 1] == 'D' {
        zero_pad(dec_digits(d.day as nat), 2) + spec_format_date_from(fmt, i + 2, d)
    } else {
        seq![fmt[i]] + spec_format_date_from(fmt, i + 1, d)
    }
}

pub open spec fn spec_format_date(fmt: Seq<char>, d: Date) -> Seq<char> {
    spec_format_date_from(fmt, 0, d)
}

/// Renders amounts, rates and dates per the budget's settings.
#[derive(Debug)]
pub struct BudgetFormatter {
    pub settings: BudgetSettings,
}

impl BudgetFormatter {
    pub fn new(settings: BudgetSettings) -> (r: BudgetFormatter)
        ensures
            r.settings == settings,
    {
        BudgetFormatter { settings }
    }

    /// The shared rendering body; see `spec_format_currency_custom`.
    #[verifier::rlimit(100)]
    fn format_currency_custom(
        &self,
        currency_symbol: &str,
        currency_symbol_spacer: &str,
        force_display_symbol: bool,
        minus_before_symbol_first: bool,
        all_decimal_digits: bool,
        scaled: i64,
        scale: u32,
    ) -> (r: String)
        requires
            self.settings.wf(),
            scale == 3 || scale == 6,
            scaled != i64::MIN,
        ensures
            r@ == spec_format_currency_custom(
                &self.settings.currency_format,
                currency_symbol@,
                currency_symbol_spacer@,
                force_display_symbol,
                minus_before_symbol_first,
                all_decimal_digits,
                scaled as int,
                scale as nat,
            ),
    {
        let cf = &self.settings.currency_format;
        let digits: u32 = if all_decimal_digits {
            scale
        } else {
            cf.decimal_digits
        };
        let neg = scaled < 0;
        let a: u64 = if neg {
            (-scaled) as u64
        } else {
            scaled as u64
        };
        let shown: u64 = if all_decimal_digits {
            a
        } else {
            let d = pow10_i64(scale - digits) as u64;
            let q = a / d;
            let rem = a % d;
            proof {
                assert(rem < d) by (nonlinear_arith)
                    requires
                        d > 0,
                        rem == a as int % (d as int),
                        a >= 0,
                ;
                assert(q <= a) by (nonlinear_arith)
                    requires
                        d > 0,
                        q == a as int / d as int,
                        a >= 0,
                ;
            }
            if 2 * rem >= d {
                q + 1
            } else {
                q
            }
        };
        let p: u64 = pow10_i64(digits) as u64;
        let ip = shown / p;
        let fp = shown % p;
        proof {
            assert(ip == shown as int / p as int && fp == shown as int % (p as int));
        }
        let mut body = String::new();
        push_u64_grouped(&mut body, ip, cf.group_separator.as_str());
        body.append(cf.decimal_separator.as_str());
        push_u64_padded(&mut body, fp, digits);
        proof {
            assert(body@ =~= spec_render_parts(
                cf,
                (shown as int / pow10(digits as nat)) as nat,
                (shown as int % pow10(digits as nat)) as nat,
                digits as nat,
            ));
        }
        let mut out = String::new();
        if minus_before_symbol_first && neg {
            out.append("-");
        }
        let show_symbol = cf.display_symbol || force_display_symbol;
        if show_symbol && cf.symbol_first {
            out.append(currency_symbol);
            out.append(currency_symbol_spacer);
        }
        if !minus_before_symbol_first && neg {
            out.append("-");
        }
        out.append(body.as_str());
        if show_symbol && !cf.symbol_first {
            out.append(currency_symbol_spacer);
            out.append(currency_symbol);
        }
        proof {
            reveal_strlit("-");
            assert(out@ =~= spec_format_currency_custom(
                cf,
                currency_symbol@,
                currency_symbol_spacer@,
                force_display_symbol,
                minus_before_symbol_first,
                all_decimal_digits,
                scaled as int,
                scale as nat,
            ));
        }
        out
    }

    /// An amount in the budget's own currency.
    pub fn format_milliunits(&self, amount: Milliunits) -> (r: String)
        requires
            self.settings.wf(),
            amount@ != i64::MIN,
        ensures
            r@ == spec_format_milliunits(&self.settings.currency_format, amount@),
    {
        let r = self.format_currency_custom(
            self.settings.currency_format.currency_symbol.as_str(),
            "",
            false,
            true,
            false,
            amount.to_scaled_i64(),
            3,
        );
        proof {
            reveal_strlit("");
            assert(""@ =~= Seq::<char>::empty());
        }
        r
    }

    /// An amount labelled with a currency code instead of the symbol.
    pub fn format_milliunits_with_code(&self, currency: CurrencyCode, amount: Milliunits) -> (r:
        String)
        requires
            self.settings.wf(),
            currency.wf(),
            amount@ != i64::MIN,
        ensures
            r@ == spec_format_milliunits_with_code(
                &self.settings.currency_format,
                currency,
                amount@,
            ),
    {
        let code = currency.to_str();
        let r = self.format_currency_custom(
            code.as_str(),
            " ",
            true,
            false,
            false,
            amount.to_scaled_i64(),
            3,
        );
        r
    }

    /// An exchange rate with all six decimal digits.
    pub fn format_exchange_rate(&self, exchange_rate: ExchangeRate) -> (r: String)
        requires
            self.settings.wf(),
            exchange_rate@ != i64::MIN,
        ensures
            r@ == spec_format_exchange_rate(
                &self.settings.currency_format,
                exchange_rate@,
            ),
    {
        let r = self.format_currency_custom(
            self.settings.currency_format.currency_symbol.as_str(),
            "",
            false,
            true,
            true,
            exchange_rate.to_scaled_i64(),
            6,
        );
        proof {
            reveal_strlit("");
            assert(""@ =~= Seq::<char>::empty());
        }
        r
    }

    /// A date through the budget's date pattern.
    pub fn format_date(&self, date: Date) -> (r: String)
        ensures
            r@ == spec_format_date(self.settings.date_format.format@, date),
    {
        let fmt = self.settings.date_format.format.as_str();
        let n = fmt.unicode_len();
        let mut out = String::new();
        push_date_from(&mut out, fmt, 0, n, date);
        proof {
            assert(out@ =~= spec_format_date(self.settings.date_format.format@, date));
        }
        out
    }
}

/// Appends the rendering of the pattern suffix starting at `i`.
fn push_date_from(out: &mut String, fmt: &str, i: usize, n: usize, date: Date)
    requires
        i <= n,
        n == fmt@.len(),
    ensures
        final(out)@ == old(out)@ + spec_format_date_from(fmt@, i as int, date),
    decreases n - i,
{
    if i >= n {
        proof {
            assert(out@ =~= old(out)@ + spec_format_date_from(fmt@, i as int, date));
        }
        return ;
    }
    if n - i >= 4 && fmt.get_char(i) == 'Y' && fmt.get_char(i + 1) == 'Y' && fmt.get_char(i + 2)
        == 'Y' && fmt.get_char(i + 3) == 'Y' {
        push_u64_padded(out, date.year as u64, 4);
        push_date_from(out, fmt, i + 4, n, date);
    } else if n - i >= 2 && fmt.get_char(i) == 'M' && fmt.get_char(i + 1) == 'M' {
        push_u64_padded(out, date.month as u64, 2);
        push_date_from(out, fmt, i + 2, n, date);
    } else if n - i >= 2 && fmt.get_char(i) == 'D' && fmt.get_char(i + 1) == 'D' {
        push_u64_padded(out, date.day as u64, 2);
        push_date_from(out, fmt, i + 2, n, date);
    } else {
        let c = fmt.get_char(i);
        out.push(c);
        push_date_from(out, fmt, i + 1, n, date);
    }
    proof {
        assert(out@ =~= old(out)@ + spec_format_date_from(fmt@, i as int, date));
    }
}

} // verus!
