//! Amounts of money as they are compared, carried and reported.
use vstd::prelude::*;

verus! {

/// An amount in EUR, held as the 64 bits of an IEEE 754 double.
///
/// The library carries amounts and compares them; adding them up is left to
/// the caller.
#[derive(Debug, Clone, Copy, PartialEq, Eq, Structural)]
pub struct Eur {
    pub bits: u64,
}

/// The bits of the sign.
pub open spec fn sign_bit() -> int {
    0x8000_0000_0000_0000
}

/// The bits of positive infinity; larger magnitudes are not numbers.
pub open spec fn infinity_bits() -> int {
    0x7ff0_0000_0000_0000
}

impl Eur {
    /// The bits without the sign.
    pub open spec fn magnitude(self) -> int {
        self.bits as int % sign_bit()
    }

    /// Whether the bits hold no number.
    pub open spec fn is_nan(self) -> bool {
        self.magnitude() > infinity_bits()
    }

    /// An integer that orders numbers as their values are ordered: doubles of
    /// one sign are ordered by their magnitude bits, and both zeros are equal.
    pub open spec fn rank(self) -> int {
        if self.bits as int >= sign_bit() {
            -self.magnitude()
        } else {
            self.magnitude()
        }
    }

    /// Whether `self > other`, which no comparison with a non-number is.
    pub open spec fn above(self, other: Eur) -> bool {
        !self.is_nan() && !other.is_nan() && self.rank() > other.rank()
    }

    /// Whether this amount is strictly more than `limit`.
    pub fn exceeds(&self, limit: &Eur) -> (more: bool)
        ensures
            more == self.above(*limit),
    {
        let sign: u64 = 0x8000_0000_0000_0000;
        let infinity: u64 = 0x7ff0_0000_0000_0000;
        let a: u64 = self.bits % sign;
        let b: u64 = limit.bits % sign;
        if a > infinity || b > infinity {
            return false;
        }
        let a_negative = self.bits >= sign;
        let b_negative = limit.bits >= sign;
        if a_negative {
            b_negative && a < b
        } else if b_negative {
            a > 0 || b > 0
        } else {
            a > b
        }
    }

    /// Nothing spent.
    pub fn zero() -> (amount: Eur)
        ensures
            amount.bits == 0,
    {
        Eur { bits: 0 }
    }
}

/// The amount reported, or nothing where none was.
pub open spec fn amount_or_zero(amount: Option<Eur>) -> Eur {
    match amount {
        Some(a) => a,
        None => Eur { bits: 0 },
    }
}

/// The amount reported, or nothing where none was.
pub fn or_zero(amount: Option<Eur>) -> (known: Eur)
    ensures
        known == amount_or_zero(amount),
{
    match amount {
        Some(a) => a,
        None => Eur { bits: 0 },
    }
}

/// Whether `spent` is strictly more than a limit that is set.
pub open spec fn over(limit: Option<Eur>, spent: Eur) -> bool {
    limit matches Some(l) && spent.above(l)
}

/// No amount is more than itself, and of two amounts at most one is more than
/// the other.
pub proof fn law_more_is_strict(a: Eur, b: Eur)
    ensures
        !a.above(a),
        !(a.above(b) && b.above(a)),
{
}

/// More than something that is more than a third amount is more than the third.
pub proof fn law_more_is_transitive(a: Eur, b: Eur, c: Eur)
    requires
        a.above(b),
        b.above(c),
    ensures
        a.above(c),
{
}

/// When an amount is more than another, by their bits as doubles: those of one
/// sign are ordered by their bits, a positive one is more than a negative one
/// unless both are zero, and what is no number is never more or less.
pub proof fn law_amounts_compare_as_doubles(a: Eur, b: Eur, more: bool)
    requires
        call_ensures(Eur::exceeds, (&a, &b), more),
    ensures
        a.bits <= 0x7ff0_0000_0000_0000u64 && b.bits <= 0x7ff0_0000_0000_0000u64 ==> more == (a.bits
            > b.bits),
        0x8000_0000_0000_0000u64 <= a.bits <= 0xfff0_0000_0000_0000u64 && 0x8000_0000_0000_0000u64
            <= b.bits <= 0xfff0_0000_0000_0000u64 ==> more == (a.bits < b.bits),
        a.bits <= 0x7ff0_0000_0000_0000u64 && 0x8000_0000_0000_0000u64 <= b.bits
            <= 0xfff0_0000_0000_0000u64 ==> more == (a.bits > 0 || b.bits
            > 0x8000_0000_0000_0000u64),
        0x8000_0000_0000_0000u64 <= a.bits <= 0xfff0_0000_0000_0000u64 && b.bits
            <= 0x7ff0_0000_0000_0000u64 ==> !more,
        0x7ff0_0000_0000_0000u64 < a.bits < 0x8000_0000_0000_0000u64 || a.bits
            > 0xfff0_0000_0000_0000u64 ==> !more,
        0x7ff0_0000_0000_0000u64 < b.bits < 0x8000_0000_0000_0000u64 || b.bits
            > 0xfff0_0000_0000_0000u64 ==> !more,
        more == a.above(b),
{
}

/// An amount that was reported counts as it is, and none counts as nothing; a
/// limit is passed only where it is set and the amount is more.
pub proof fn law_limits_count_where_they_are_set(
    amount: Option<Eur>,
    known: Eur,
    limit: Option<Eur>,
    spent: Eur,
)
    requires
        call_ensures(or_zero, (amount,), known),
    ensures
        amount matches Some(a) ==> known == a,
        amount is None ==> known.bits == 0,
        limit is None ==> !over(limit, spent),
        limit matches Some(l) ==> (over(limit, spent) <==> spent.above(l)),
{
}

} // verus!
