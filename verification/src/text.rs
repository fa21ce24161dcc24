//! Rendering of unsigned numbers as decimal text: plain digits, zero-padded
//! fields, and digit groups of three separated by a configurable separator.

use vstd::prelude::*;

verus! {

/// The decimal digit character for `0 <= d <= 9`.
pub open spec fn digit_char(d: int) -> char {
    if d == 0 {
        '0'
    } else if d == 1 {
        '1'
    } else if d == 2 {
        '2'
    } else if d == 3 {
        '3'
    } else if d == 4 {
        '4'
    } else if d == 5 {
        '5'
    } else if d == 6 {
        '6'
    } else if d == 7 {
        '7'
    } else if d == 8 {
        '8'
    } else {
        '9'
    }
}

/// The decimal digits of `n`, most significant first, without leading zeros
/// (a single `'0'` for zero).
pub open spec fn dec_digits(n: nat) -> Seq<char>
    decreases n,
{
    if n < 10 {
        seq![digit_char(n as int)]
    } else {
        dec_digits(n / 10) + seq![digit_char((n % 10) as int)]
    }
}

/// `s` left-padded with `'0'` to at least `w` characters.
pub open spec fn zero_pad(s: Seq<char>, w: nat) -> Seq<char> {
    if s.len() >= w {
        s
    } else {
        Seq::new((w - s.len()) as nat, |i: int| '0') + s
    }
}

/// The decimal digits of `n` grouped in threes from the right, groups
/// separated by `sep`.
pub open spec fn grouped_digits(n: nat, sep: Seq<char>) -> Seq<char>
    decreases n,
{
    if n < 1000 {
        dec_digits(n)
    } else {
        grouped_digits(n / 1000, sep) + sep + zero_pad(dec_digits(n % 1000), 3)
    }
}

/// Relies on `String::push` of std, which vstd leaves unspecified: it
/// appends the given character to the end of the string.
pub assume_specification[ String::push ](s: &mut String, ch: char)
    ensures
        final(s)@ == old(s)@ + seq![ch],
;

/// The single-character string of a decimal digit.
pub fn digit_str(d: u64) -> (r: &'static str)
    requires
        d < 10,
    ensures
        r@ == seq![digit_char(d as int)],
{
    let r = match d {
        0 => "0",
        1 => "1",
        2 => "2",
        3 => "3",
        4 => "4",
        5 => "5",
        6 => "6",
        7 => "7",
        8 => "8",
        _ => "9",
    };
    proof {
        reveal_strlit("0");
        reveal_strlit("1");
        reveal_strlit("2");
        reveal_strlit("3");
        reveal_strlit("4");
        reveal_strlit("5");
        reveal_strlit("6");
        reveal_strlit("7");
        reveal_strlit("8");
        reveal_strlit("9");
        assert(r@ =~= seq![digit_char(d as int)]);
    }
    r
}

/// Appends the decimal digits of `n` to `s`.
pub fn push_u64_decimal(s: &mut String, n: u64)
    ensures
        final(s)@ == old(s)@ + dec_digits(n as nat),
    decreases n,
{
    if n >= 10 {
        push_u64_decimal(s, n / 10);
    }
    s.append(digit_str(n % 10));
    proof {
        assert(s@ =~= old(s)@ + dec_digits(n as nat));
    }
}

/// The decimal digits of `n` as a string.
pub fn u64_to_string(n: u64) -> (r: String)
    ensures
        r@ == dec_digits(n as nat),
{
    let mut s = String::new();
    push_u64_decimal(&mut s, n);
    proof {
        assert(s@ =~= dec_digits(n as nat));
    }
    s
}

/// The number of decimal digits of a value below `10^k` is at most `k`.
pub proof fn lemma_dec_digits_len_bound(n: nat, k: nat)
    requires
        n < crate::types::pow10(k),
        k >= 1,
    ensures
        1 <= dec_digits(n).len() <= k,
    decreases k,
{
    if n >= 10 {
        if k == 1 {
            assert(crate::types::pow10(1) == 10) by {
                reveal_with_fuel(crate::types::pow10, 2);
            }
        }
        assert(crate::types::pow10(k) == 10 * crate::types::pow10((k - 1) as nat));
        assert(n / 10 < crate::types::pow10((k - 1) as nat)) by (nonlinear_arith)
            requires
                n < 10 * crate::types::pow10((k - 1) as nat),
        ;
        lemma_dec_digits_len_bound(n / 10, (k - 1) as nat);
    }
}

/// The number of decimal digits of `n`.
pub fn dec_len(n: u64) -> (r: u32)
    ensures
        r == dec_digits(n as nat).len(),
        1 <= r <= 20,
    decreases n,
{
    proof {
        assert(crate::types::pow10(20) == 0x56bc75e2d63100000) by {
            reveal_with_fuel(crate::types::pow10, 21);
        }
        lemma_dec_digits_len_bound(n as nat, 20);
    }
    if n < 10 {
        1
    } else {
        1 + dec_len(n / 10)
    }
}

/// Appends the decimal digits of `n`, left-padded with zeros to at least
/// `width` characters.
pub fn push_u64_padded(s: &mut String, n: u64, width: u32)
    requires
        width <= 1000,
    ensures
        final(s)@ == old(s)@ + zero_pad(dec_digits(n as nat), width as nat),
{
    let len = dec_len(n);
    let mut i: u32 = len;
    while i < width
        invariant
            len == dec_digits(n as nat).len(),
            if len >= width {
                i == len
            } else {
                len <= i <= width
            },
            s@ == old(s)@ + Seq::new((i - len) as nat, |j: int| '0'),
        decreases width - i,
    {
        s.append("0");
        proof {
            reveal_strlit("0");
            assert(s@ =~= old(s)@ + Seq::new((i + 1 - len) as nat, |j: int| '0'));
        }
        i = i + 1;
    }
    push_u64_decimal(s, n);
    proof {
        assert(s@ =~= old(s)@ + zero_pad(dec_digits(n as nat), width as nat));
    }
}

/// Appends the decimal digits of `n` grouped in threes from the right,
/// groups separated by `sep`.
pub fn push_u64_grouped(s: &mut String, n: u64, sep: &str)
    ensures
        final(s)@ == old(s)@ + grouped_digits(n as nat, sep@),
    decreases n,
{
    if n < 1000 {
        push_u64_decimal(s, n);
    } else {
        push_u64_grouped(s, n / 1000, sep);
        s.append(sep);
        push_u64_padded(s, n % 1000, 3);
        proof {
            assert(s@ =~= old(s)@ + grouped_digits(n as nat, sep@));
        }
    }
}

/// Decimal rendering is injective: different numbers render differently.
pub proof fn lemma_dec_digits_injective(a: nat, b: nat)
    requires
        a != b,
    ensures
        dec_digits(a) != dec_digits(b),
    decreases a + b,
{
    if a < 10 && b < 10 {
        assert(dec_digits(a)[0] != dec_digits(b)[0]);
    } else if a < 10 {
        assert(dec_digits(a).len() == 1);
        assert(dec_digits(b).len() == dec_digits(b / 10).len() + 1);
    } else if b < 10 {
        assert(dec_digits(b).len() == 1);
        assert(dec_digits(a).len() == dec_digits(a / 10).len() + 1);
    } else {
        if a % 10 != b % 10 {
            assert(dec_digits(a) != dec_digits(b)) by {
                if dec_digits(a) == dec_digits(b) {
                    assert(dec_digits(a).last() == dec_digits(b).last());
                    assert(digit_char((a % 10) as int) == digit_char((b % 10) as int));
                    assert(false);
                }
            }
        } else {
            assert(a / 10 != b / 10) by {
                vstd::arithmetic::div_mod::lemma_fundamental_div_mod(a as int, 10);
                vstd::arithmetic::div_mod::lemma_fundamental_div_mod(b as int, 10);
            }
            lemma_dec_digits_injective(a / 10, b / 10);
            assert(dec_digits(a) != dec_digits(b)) by {
                if dec_digits(a) == dec_digits(b) {
                    assert(dec_digits(a).drop_last() =~= dec_digits(a / 10));
                    assert(dec_digits(b).drop_last() =~= dec_digits(b / 10));
                    assert(false);
                }
            }
        }
    }
}

} // verus!
