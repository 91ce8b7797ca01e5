//! Decimal rendering of integers and of scaled money amounts.
//!
//! The spec functions define, digit by digit, the exact text that a
//! number renders to; the exec functions build that text and are
//! proved to match it.

use vstd::prelude::*;
use vstd::string::StringExecFns;
use crate::money::MAX_SCALE;

verus! {

/// `10^e`.
pub open spec fn pow10(e: nat) -> nat
    decreases e,
{
    if e == 0 {
        1
    } else {
        10 * pow10((e - 1) as nat)
    }
}

pub proof fn lemma_pow10_pos(e: nat)
    ensures
        pow10(e) >= 1,
    decreases e,
{
    if e > 0 {
        lemma_pow10_pos((e - 1) as nat);
    }
}

pub proof fn lemma_pow10_mono(a: nat, b: nat)
    requires
        a <= b,
    ensures
        pow10(a) <= pow10(b),
    decreases b,
{
    if a < b {
        lemma_pow10_mono(a, (b - 1) as nat);
        lemma_pow10_pos((b - 1) as nat);
    }
}

/// The digit character for a value below ten.
pub open spec fn digit_char(d: nat) -> char {
    if d == 0 {
        '0'
    } else if d == 1 {
        '1'
    } else if d == 2 {
        '2'
    } else if d == 3 {
        '3'
    } else if d == 4 {
        '4'
    } else if d == 5 {
        '5'
    } else if d == 6 {
        '6'
    } else if d == 7 {
        '7'
    } else if d == 8 {
        '8'
    } else {
        '9'
    }
}

/// Decimal digits of `n`, most significant first, with no leading
/// zeros except for `n == 0` itself.
pub open spec fn dec_str(n: nat) -> Seq<char>
    decreases n,
{
    if n < 10 {
        seq![digit_char(n)]
    } else {
        dec_str(n / 10) + seq![digit_char(n % 10)]
    }
}

/// The last `k` decimal digits of `m`, zero-padded on the left to
/// exactly `k` characters.
pub open spec fn frac_str(m: nat, k: nat) -> Seq<char>
    decreases k,
{
    if k == 0 {
        Seq::empty()
    } else {
        frac_str(m / 10, (k - 1) as nat) + seq![digit_char(m % 10)]
    }
}

/// Rendering of the amount `m / 10^scale`: the integer part, then a
/// point and exactly `scale` fraction digits (no point when the scale
/// is zero). `2500 / 10^2` renders as `25.00`.
pub open spec fn money_str(m: nat, scale: nat) -> Seq<char> {
    if scale == 0 {
        dec_str(m)
    } else {
        dec_str(m / pow10(scale)) + "."@ + frac_str(m, scale)
    }
}

fn digit_str(d: u128) -> (r: &'static str)
    requires
        d < 10,
    ensures
        r@ == seq![digit_char(d as nat)],
{
    let r = match d {
        0 => "0",
        1 => "1",
        2 => "2",
        3 => "3",
        4 => "4",
        5 => "5",
        6 => "6",
        7 => "7",
        8 => "8",
        _ => "9",
    };
    proof {
        reveal_strlit("0");
        reveal_strlit("1");
        reveal_strlit("2");
        reveal_strlit("3");
        reveal_strlit("4");
        reveal_strlit("5");
        reveal_strlit("6");
        reveal_strlit("7");
        reveal_strlit("8");
        reveal_strlit("9");
        assert(r@ =~= seq![digit_char(d as nat)]);
    }
    r
}

fn pow10_u128(e: u32) -> (r: u128)
    requires
        e <= MAX_SCALE,
    ensures
        r == pow10(e as nat),
{
    let mut r: u128 = 1;
    let mut i: u32 = 0;
    while i < e
        invariant
            i <= e <= MAX_SCALE,
            r == pow10(i as nat),
        decreases e - i,
    {
        proof {
            lemma_pow10_mono(i as nat + 1, MAX_SCALE as nat);
            reveal_with_fuel(pow10, 29);
            assert(pow10(MAX_SCALE as nat) == 10000000000000000000000000000);
        }
        r = r * 10;
        i = i + 1;
    }
    r
}

/// Appends the decimal digits of `n` to `s`.
pub fn push_dec(n: u128, s: &mut String)
    ensures
        final(s)@ == old(s)@ + dec_str(n as nat),
    decreases n,
{
    if n >= 10 {
        push_dec(n / 10, s);
    }
    let d = digit_str(n % 10);
    s.append(d);
    proof {
        assert(s@ =~= old(s)@ + dec_str(n as nat));
    }
}

fn push_frac(m: u128, k: u32, s: &mut String)
    ensures
        final(s)@ == old(s)@ + frac_str(m as nat, k as nat),
    decreases k,
{
    if k == 0 {
        proof {
            assert(s@ =~= old(s)@ + frac_str(m as nat, 0));
        }
    } else {
        push_frac(m / 10, k - 1, s);
        let d = digit_str(m % 10);
        s.append(d);
        proof {
            assert(s@ =~= old(s)@ + frac_str(m as nat, k as nat));
        }
    }
}

/// Appends the rendering of the amount `m / 10^scale` to `s`.
pub fn push_money(m: u128, scale: u32, s: &mut String)
    requires
        scale <= MAX_SCALE,
    ensures
        final(s)@ == old(s)@ + money_str(m as nat, scale as nat),
{
    if scale == 0 {
        push_dec(m, s);
    } else {
        let p = pow10_u128(scale);
        proof {
            lemma_pow10_pos(scale as nat);
        }
        push_dec(m / p, s);
        s.append(".");
        push_frac(m, scale, s);
        proof {
            assert(s@ =~= old(s)@ + money_str(m as nat, scale as nat));
        }
    }
}

} // verus!
