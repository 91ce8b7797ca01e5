//! Exact decimal currency amounts.
//!
//! An amount is a non-negative integer mantissa together with a scale:
//! the amount's value is `mantissa / 10^scale`. Arithmetic and
//! rendering work on these plain integers, so `10 * 2.50` is exactly
//! `25.00` and never a rounded binary float.

use vstd::prelude::*;

verus! {

/// Largest supported scale (number of digits after the decimal point).
pub const MAX_SCALE: u32 = 28;

/// An exact decimal amount: `mantissa / 10^scale`.
#[derive(Clone, Copy, PartialEq, Eq, Structural, Debug)]
pub struct Money {
    pub mantissa: u64,
    pub scale: u32,
}

impl Money {
    /// Well-formedness: the scale stays small enough that `10^scale`
    /// fits comfortably in machine arithmetic.
    pub open spec fn inv(self) -> bool {
        self.scale <= MAX_SCALE
    }

    pub fn new(mantissa: u64, scale: u32) -> (r: Money)
        requires
            scale <= MAX_SCALE,
        ensures
            r.inv(),
            r.mantissa == mantissa,
            r.scale == scale,
    {
        Money { mantissa, scale }
    }

    /// Exact subtotal of `count` items at this unit cost, as a widened
    /// mantissa at the same scale. `u32 * u64` always fits in `u128`,
    /// so the product is exact for every input.
    pub fn subtotal_mantissa(&self, count: u32) -> (r: u128)
        ensures
            r == count * self.mantissa,
    {
        proof {
            assert((count as int) * (self.mantissa as int) <= (u32::MAX as int) * (
            u64::MAX as int)) by (nonlinear_arith)
                requires
                    count <= u32::MAX && self.mantissa <= u64::MAX,
            ;
        }
        (count as u128) * (self.mantissa as u128)
    }

    /// Renders the amount exactly, e.g. `2.50` for mantissa 250 at
    /// scale 2.
    pub fn render(&self) -> (r: String)
        requires
            self.inv(),
        ensures
            r@ == crate::numeral::money_str(self.mantissa as nat, self.scale as nat),
    {
        let mut s = String::new();
        crate::numeral::push_money(self.mantissa as u128, self.scale, &mut s);
        proof {
            assert(s@ =~= crate::numeral::money_str(self.mantissa as nat, self.scale as nat));
        }
        s
    }

    /// Renders the exact subtotal of `count` items at this unit cost,
    /// e.g. `25.00` for 10 items at `2.50`.
    pub fn render_subtotal(&self, count: u32) -> (r: String)
        requires
            self.inv(),
        ensures
            r@ == crate::numeral::money_str((count * self.mantissa) as nat, self.scale as nat),
    {
        let sub = self.subtotal_mantissa(count);
        let mut s = String::new();
        crate::numeral::push_money(sub, self.scale, &mut s);
        proof {
            assert(s@ =~= crate::numeral::money_str((count * self.mantissa) as nat, self.scale as nat));
        }
        s
    }
}

} // verus!
