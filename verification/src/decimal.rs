//! Exact decimal numbers, as the venues send prices and quantities.
//!
//! A [`Decimal`] is an integer mantissa and a scale: it stands for
//! `mantissa / 10^scale`. The bounds on both are those of
//! `rust_decimal::Decimal`, so that every value here is one of its values and
//! the two convert without loss; comparison is left to that crate.

use crate::rank::Ranked;
use std::cmp::Ordering;
use vstd::prelude::*;

verus! {

/// The largest scale a decimal can have.
pub const MAX_SCALE: u32 = 28;

/// The largest mantissa a decimal can have, `2^96 - 1`; the smallest is its
/// negation.
pub const MAX_MANTISSA: i128 = 0xFFFF_FFFF_FFFF_FFFF_FFFF_FFFF;

/// Whether `mantissa` and `scale` lie within the bounds of a decimal.
pub open spec fn representable(mantissa: i128, scale: u32) -> bool {
    -MAX_MANTISSA <= mantissa <= MAX_MANTISSA && scale <= MAX_SCALE
}

/// `10^n`.
pub open spec fn pow10(n: nat) -> int
    decreases n,
{
    if n == 0 {
        1
    } else {
        10 * pow10((n - 1) as nat)
    }
}

/// The number `mantissa / 10^scale` in units of `10^-28`, which is an integer
/// for every scale up to [`MAX_SCALE`].
pub open spec fn scaled(mantissa: i128, scale: u32) -> int {
    mantissa * pow10((MAX_SCALE - scale) as nat)
}

/// An exact decimal number `mantissa / 10^scale`.
#[derive(Clone, Copy, Debug)]
pub struct Decimal {
    mantissa: i128,
    scale: u32,
}

/// How `mantissa_a / 10^scale_a` stands to `mantissa_b / 10^scale_b`.
///
/// Builds both numbers with `rust_decimal::Decimal::from_i128_with_scale` and
/// compares them with that type's `Ord::cmp`. Trusted: the constructor keeps
/// mantissa and scale as given (and panics outside the bounds that `requires`
/// states), and `cmp` orders decimals by their numeric value, whatever their
/// scales.
#[verifier::external_body]
fn decimal_order(mantissa_a: i128, scale_a: u32, mantissa_b: i128, scale_b: u32) -> (order:
    Ordering)
    requires
        representable(mantissa_a, scale_a),
        representable(mantissa_b, scale_b),
    ensures
        match order {
            Ordering::Less => scaled(mantissa_a, scale_a) < scaled(mantissa_b, scale_b),
            Ordering::Equal => scaled(mantissa_a, scale_a) == scaled(mantissa_b, scale_b),
            Ordering::Greater => scaled(mantissa_a, scale_a) > scaled(mantissa_b, scale_b),
        },
{
    let a = rust_decimal::Decimal::from_i128_with_scale(mantissa_a, scale_a);
    let b = rust_decimal::Decimal::from_i128_with_scale(mantissa_b, scale_b);
    a.cmp(&b)
}

impl Decimal {
    #[verifier::type_invariant]
    spec fn within_bounds(self) -> bool {
        representable(self.mantissa, self.scale)
    }

    /// The mantissa of the number.
    pub closed spec fn spec_mantissa(&self) -> i128 {
        self.mantissa
    }

    /// The scale of the number.
    pub closed spec fn spec_scale(&self) -> u32 {
        self.scale
    }

    /// The number in units of `10^-28`: two decimals are numerically equal
    /// exactly when their values are.
    pub open spec fn value(&self) -> int {
        scaled(self.spec_mantissa(), self.spec_scale())
    }

    /// The decimal `mantissa / 10^scale`, or `None` where either part is out
    /// of bounds.
    pub fn new(mantissa: i128, scale: u32) -> (decimal: Option<Decimal>)
        ensures
            decimal.is_some() == representable(mantissa, scale),
            decimal matches Some(d) ==> d.spec_mantissa() == mantissa && d.spec_scale() == scale,
    {
        if -MAX_MANTISSA <= mantissa && mantissa <= MAX_MANTISSA && scale <= MAX_SCALE {
            Some(Decimal { mantissa, scale })
        } else {
            None
        }
    }

    /// The mantissa of the number.
    pub fn mantissa(&self) -> (mantissa: i128)
        ensures
            mantissa == self.spec_mantissa(),
            representable(mantissa, self.spec_scale()),
    {
        proof {
            use_type_invariant(self);
        }
        self.mantissa
    }

    /// The scale of the number.
    pub fn scale(&self) -> (scale: u32)
        ensures
            scale == self.spec_scale(),
            representable(self.spec_mantissa(), scale),
    {
        proof {
            use_type_invariant(self);
        }
        self.scale
    }
}

impl Ranked for Decimal {
    open spec fn rank(&self) -> int {
        self.value()
    }

    fn ranks_below(&self, other: &Self) -> (below: bool) {
        proof {
            use_type_invariant(self);
            use_type_invariant(other);
            assert(self.rank() == scaled(self.mantissa, self.scale));
            assert(other.rank() == scaled(other.mantissa, other.scale));
        }
        match decimal_order(self.mantissa, self.scale, other.mantissa, other.scale) {
            Ordering::Less => true,
            Ordering::Equal => false,
            Ordering::Greater => false,
        }
    }
}

} // verus!
