//! Parsing decimal literals into exact `Money` amounts.
//!
//! The accepted grammar is a nonempty run of digits, optionally
//! followed by a point and another nonempty run of digits: `25`,
//! `2.50`. The mantissa is the digits with the point removed, the
//! scale is the number of fraction digits.

use vstd::prelude::*;
use crate::money::MAX_SCALE;
use crate::money::Money;

verus! {

/// ASCII digit.
pub open spec fn is_digit_byte(b: u8) -> bool {
    48 <= b <= 57
}

/// ASCII point.
pub open spec fn is_dot_byte(b: u8) -> bool {
    b == 46
}

pub open spec fn all_digits(s: Seq<u8>) -> bool {
    forall|i: int| 0 <= i < s.len() ==> is_digit_byte(#[trigger] s[i])
}

/// The number a digit run denotes.
pub open spec fn digits_val(s: Seq<u8>) -> nat
    decreases s.len(),
{
    if s.len() == 0 {
        0
    } else {
        digits_val(s.drop_last()) * 10 + (s.last() - 48) as nat
    }
}

pub open spec fn has_dot(s: Seq<u8>) -> bool {
    exists|i: int| 0 <= i < s.len() && is_dot_byte(#[trigger] s[i])
}

/// The position of the point; meaningful when the text is valid, for
/// then the point is unique.
pub open spec fn dot_pos(s: Seq<u8>) -> int {
    choose|i: int| 0 <= i < s.len() && is_dot_byte(#[trigger] s[i])
}

/// A decimal literal: digits, or digits point digits, both runs
/// nonempty.
pub open spec fn valid_decimal(s: Seq<u8>) -> bool {
    if has_dot(s) {
        &&& 1 <= dot_pos(s) < s.len() - 1
        &&& all_digits(s.subrange(0, dot_pos(s)))
        &&& all_digits(s.subrange(dot_pos(s) + 1, s.len() as int))
    } else {
        s.len() >= 1 && all_digits(s)
    }
}

/// The text with the point removed: the mantissa digits.
pub open spec fn without_dot(s: Seq<u8>) -> Seq<u8> {
    s.filter(|b: u8| !is_dot_byte(b))
}

pub open spec fn decimal_mantissa(s: Seq<u8>) -> nat {
    digits_val(without_dot(s))
}

pub open spec fn decimal_scale(s: Seq<u8>) -> nat {
    if has_dot(s) {
        (s.len() - 1 - dot_pos(s)) as nat
    } else {
        0
    }
}

/// A longer digit run never denotes a smaller number.
proof fn lemma_digits_val_prefix(s: Seq<u8>, k: int)
    requires
        0 <= k <= s.len(),
    ensures
        digits_val(s.take(k)) <= digits_val(s),
    decreases s.len(),
{
    if k < s.len() {
        assert(s.drop_last().take(k) =~= s.take(k));
        lemma_digits_val_prefix(s.drop_last(), k);
        assert(digits_val(s) == digits_val(s.drop_last()) * 10 + (s.last() - 48) as nat);
        assert(digits_val(s.drop_last()) * 10 >= digits_val(s.drop_last()));
    } else {
        assert(s.take(k) =~= s);
    }
}

/// Filtering a prefix yields a prefix of the filtered whole.
proof fn lemma_without_dot_take(s: Seq<u8>, k: int)
    requires
        0 <= k <= s.len(),
    ensures
        without_dot(s.take(k)) == without_dot(s).take(without_dot(s.take(k)).len() as int),
        without_dot(s.take(k)).len() <= without_dot(s).len(),
    decreases s.len(),
{
    reveal(Seq::filter);
    if k == s.len() {
        assert(s.take(k) =~= s);
        assert(without_dot(s).take(without_dot(s).len() as int) =~= without_dot(s));
    } else {
        assert(s.drop_last().take(k) =~= s.take(k));
        lemma_without_dot_take(s.drop_last(), k);
        let pred = |b: u8| !is_dot_byte(b);
        assert(s.filter(pred) == if pred(s.last()) {
            s.drop_last().filter(pred).push(s.last())
        } else {
            s.drop_last().filter(pred)
        });
        let wk = without_dot(s.take(k));
        assert(without_dot(s.drop_last()).take(wk.len() as int) == wk);
        assert(without_dot(s).take(wk.len() as int) =~= without_dot(s.drop_last()).take(
            wk.len() as int,
        ));
    }
}

/// Parses a decimal literal. Returns the exact amount, or `None` when
/// the text is not a decimal literal, the mantissa does not fit, or
/// the scale is too large.
pub fn parse_decimal(bytes: &[u8]) -> (r: Option<Money>)
    ensures
        (match r {
            Some(m) => {
                &&& valid_decimal(bytes@)
                &&& decimal_mantissa(bytes@) <= u64::MAX
                &&& decimal_scale(bytes@) <= MAX_SCALE
                &&& m.inv()
                &&& m.mantissa == decimal_mantissa(bytes@)
                &&& m.scale == decimal_scale(bytes@)
            },
            None => !({
                &&& valid_decimal(bytes@)
                &&& decimal_mantissa(bytes@) <= u64::MAX
                &&& decimal_scale(bytes@) <= MAX_SCALE
            }),
        }),
{
    let n = bytes.len();
    if n == 0 {
        return None;
    }
    // Locate the first point, if any; `n` stands for none.
    let mut dot: usize = n;
    let mut k: usize = 0;
    while k < n
        invariant
            n == bytes@.len(),
            k <= n,
            dot <= n,
            dot == n ==> forall|j: int| 0 <= j < k ==> !is_dot_byte(#[trigger] bytes@[j]),
            dot < n ==> is_dot_byte(bytes@[dot as int]),
        decreases n - k,
    {
        if dot == n && bytes[k] == 46 {
            dot = k;
        }
        k = k + 1;
    }
    // Every other byte must be a digit.
    let mut k: usize = 0;
    while k < n
        invariant
            n == bytes@.len(),
            k <= n,
            dot <= n,
            dot < n ==> is_dot_byte(bytes@[dot as int]),
            dot == n ==> forall|j: int| 0 <= j < n ==> !is_dot_byte(#[trigger] bytes@[j]),
            forall|j: int|
                0 <= j < k && j != dot ==> is_digit_byte(#[trigger] bytes@[j]),
        decreases n - k,
    {
        if k != dot {
            let b = bytes[k];
            if b < 48 || b > 57 {
                proof {
                    lemma_invalid_at(bytes@, dot as int, k as int);
                }
                return None;
            }
        }
        k = k + 1;
    }
    proof {
        if dot < n {
            lemma_unique_dot(bytes@, dot as int);
        }
    }
    // Structure of the point: not first, not last, and a small scale.
    let scale: u32 = if dot < n {
        if dot == 0 || dot == n - 1 {
            return None;
        }
        if n - 1 - dot > MAX_SCALE as usize {
            return None;
        }
        (n - 1 - dot) as u32
    } else {
        0
    };
    proof {
        lemma_valid_now(bytes@, dot as int);
    }
    // Accumulate the mantissa, refusing overflow.
    let mut acc: u64 = 0;
    let mut k: usize = 0;
    proof {
        reveal(Seq::filter);
        assert(bytes@.take(0) =~= Seq::<u8>::empty());
        assert(without_dot(bytes@.take(0)) =~= Seq::<u8>::empty());
    }
    while k < n
        invariant
            n == bytes@.len(),
            k <= n,
            dot <= n,
            dot < n ==> is_dot_byte(bytes@[dot as int]),
            forall|j: int|
                0 <= j < n && j != dot ==> is_digit_byte(#[trigger] bytes@[j]),
            acc == digits_val(without_dot(bytes@.take(k as int))),
        decreases n - k,
    {
        let ghost pre = without_dot(bytes@.take(k as int));
        proof {
            reveal(Seq::filter);
            assert(bytes@.take(k as int + 1).drop_last() =~= bytes@.take(k as int));
            assert(bytes@.take(k as int + 1).last() == bytes@[k as int]);
        }
        if k != dot {
            let d = bytes[k] - 48;
            let head = u64::MAX - (d as u64);
            if acc > head / 10 {
                proof {
                    assert(without_dot(bytes@.take(k as int + 1)) == pre.push(bytes@[k as int]));
                    assert(pre.push(bytes@[k as int]).drop_last() =~= pre);
                    assert(digits_val(pre.push(bytes@[k as int])) == acc * 10 + d);
                    assert(acc * 10 + d > u64::MAX) by {
                        assert(acc >= head / 10 + 1);
                        assert(10 * acc >= 10 * (head / 10 + 1));
                        assert(10 * (head / 10) + 10 > head);
                    }
                    lemma_without_dot_take(bytes@, k as int + 1);
                    lemma_digits_val_prefix(
                        without_dot(bytes@),
                        without_dot(bytes@.take(k as int + 1)).len() as int,
                    );
                }
                return None;
            }
            proof {
                assert(10 * acc + d <= u64::MAX) by {
                    assert(acc <= head / 10);
                    assert(10 * acc <= 10 * (head / 10));
                    assert(10 * (head / 10) <= head);
                }
            }
            acc = acc * 10 + (d as u64);
            proof {
                assert(without_dot(bytes@.take(k as int + 1)) == pre.push(bytes@[k as int]));
                assert(pre.push(bytes@[k as int]).drop_last() =~= pre);
            }
        } else {
            proof {
                assert(without_dot(bytes@.take(k as int + 1)) == pre);
            }
        }
        k = k + 1;
    }
    proof {
        assert(bytes@.take(n as int) =~= bytes@);
    }
    Some(Money::new(acc, scale))
}

/// A non-digit away from the (first) point makes the text invalid,
/// whatever position `dot_pos` chooses.
proof fn lemma_invalid_at(s: Seq<u8>, dot: int, q: int)
    requires
        0 <= q < s.len(),
        dot <= s.len(),
        !is_digit_byte(s[q]),
        dot == s.len() ==> !has_dot(s),
        dot < s.len() ==> 0 <= dot && is_dot_byte(s[dot]),
        q != dot,
    ensures
        !valid_decimal(s),
{
    if has_dot(s) {
        let p = dot_pos(s);
        assert(0 <= p < s.len() && is_dot_byte(s[p]));
        if valid_decimal(s) {
            if q != p {
                if q < p {
                    assert(s.subrange(0, p)[q] == s[q]);
                } else {
                    assert(s.subrange(p + 1, s.len() as int)[q - p - 1] == s[q]);
                }
            } else {
                // q is a point, so it is not the first point `dot`;
                // then `dot` is a non-digit inside a digit run.
                assert(dot < s.len());
                if dot < p {
                    assert(s.subrange(0, p)[dot] == s[dot]);
                } else {
                    assert(s.subrange(p + 1, s.len() as int)[dot - p - 1] == s[dot]);
                }
            }
        }
    }
}

/// When every byte but `dot` is a digit, `dot` is the only point, so
/// `dot_pos` picks it.
proof fn lemma_unique_dot(s: Seq<u8>, dot: int)
    requires
        0 <= dot < s.len(),
        is_dot_byte(s[dot]),
        forall|j: int| 0 <= j < s.len() && j != dot ==> is_digit_byte(#[trigger] s[j]),
    ensures
        has_dot(s),
        dot_pos(s) == dot,
{
    assert(has_dot(s));
    let p = dot_pos(s);
    assert(0 <= p < s.len() && is_dot_byte(s[p]));
    if p != dot {
        assert(is_digit_byte(s[p]));
    }
}

/// After both scans succeed the text is a valid decimal literal.
proof fn lemma_valid_now(s: Seq<u8>, dot: int)
    requires
        s.len() >= 1,
        0 <= dot <= s.len(),
        dot == s.len() ==> !has_dot(s),
        dot < s.len() ==> is_dot_byte(s[dot]) && 1 <= dot < s.len() - 1 && dot_pos(s) == dot
            && has_dot(s),
        forall|j: int| 0 <= j < s.len() && j != dot ==> is_digit_byte(#[trigger] s[j]),
    ensures
        valid_decimal(s),
        (if dot < s.len() {
            decimal_scale(s) == s.len() - 1 - dot
        } else {
            decimal_scale(s) == 0
        }),
{
    if dot < s.len() {
        assert(all_digits(s.subrange(0, dot))) by {
            assert(forall|j: int| 0 <= j < dot ==> s.subrange(0, dot)[j] == s[j]);
        }
        assert(all_digits(s.subrange(dot + 1, s.len() as int))) by {
            assert(forall|j: int|
                0 <= j < s.len() - dot - 1 ==> #[trigger] s.subrange(dot + 1, s.len() as int)[j] == s[j + dot + 1]);
        }
    }
}

} // verus!
