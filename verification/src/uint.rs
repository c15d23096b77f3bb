//! Unsigned integers of 512 bits.

use vstd::arithmetic::div_mod::{lemma_fundamental_div_mod, lemma_fundamental_div_mod_converse};
use vstd::prelude::*;

verus! {

/// An unsigned integer of 512 bits, as four digits of 128 bits with the least significant first.
#[derive(Clone, Copy, Debug, PartialEq, Eq, Hash, Structural)]
pub struct U512 {
    pub d0: u128,
    pub d1: u128,
    pub d2: u128,
    pub d3: u128,
}

/// Two to the power of 128.
pub open spec fn base() -> int {
    0x1_0000_0000_0000_0000_0000_0000_0000_0000int
}

/// One more than the largest value.
pub open spec fn limit() -> int {
    base() * base() * base() * base()
}

impl View for U512 {
    type V = int;

    open spec fn view(&self) -> int {
        self.d0 + base() * (self.d1 + base() * (self.d2 + base() * self.d3))
    }
}

/// The sum of two digits and a carry, as a digit and the next carry.
fn add_digits(a: u128, b: u128, carry: bool) -> (r: (u128, bool))
    ensures
        r.0 + (if r.1 { base() } else { 0 }) == a + b + (if carry { 1int } else { 0 }),
{
    match a.checked_add(b) {
        Some(s) => {
            if carry {
                if s == 0xffff_ffff_ffff_ffff_ffff_ffff_ffff_ffff {
                    (0, true)
                } else {
                    (s + 1, false)
                }
            } else {
                (s, false)
            }
        },
        None => {
            let s = a - (0xffff_ffff_ffff_ffff_ffff_ffff_ffff_ffff - b) - 1;
            if carry {
                (s + 1, true)
            } else {
                (s, true)
            }
        },
    }
}

/// The difference of two digits and a borrow, as a digit and the next borrow.
fn sub_digits(a: u128, b: u128, borrow: bool) -> (r: (u128, bool))
    ensures
        r.0 - (if r.1 { base() } else { 0 }) == a - b - (if borrow { 1int } else { 0 }),
{
    if a > b {
        if borrow {
            (a - b - 1, false)
        } else {
            (a - b, false)
        }
    } else if a == b {
        if borrow {
            (0xffff_ffff_ffff_ffff_ffff_ffff_ffff_ffff, true)
        } else {
            (0, false)
        }
    } else {
        let s = 0xffff_ffff_ffff_ffff_ffff_ffff_ffff_ffff - (b - a);
        if borrow {
            (s, true)
        } else {
            (s + 1, true)
        }
    }
}

/// A number is one digit and a multiple of the base in one way only.
proof fn lemma_digit(d: int, rest: int, e: int, other: int)
    requires
        0 <= d < base(),
        0 <= e < base(),
        d + base() * rest == e + base() * other,
    ensures
        d == e,
        rest == other,
{
}

impl U512 {
    /// A value is below the limit.
    pub proof fn lemma_bounds(self)
        ensures
            0 <= self@ < limit(),
    {
    }

    /// Values with the same view are equal.
    pub proof fn lemma_view_injective(self, other: U512)
        ensures
            (self@ == other@) == (self == other),
    {
        if self@ == other@ {
            lemma_digit(self.d0 as int, self.d1 + base() * (self.d2 + base() * self.d3), other.d0 as int, other.d1 + base() * (
            other.d2 + base() * other.d3));
            lemma_digit(self.d1 as int, self.d2 + base() * self.d3, other.d1 as int, other.d2 + base() * other.d3);
            lemma_digit(self.d2 as int, self.d3 as int, other.d2 as int, other.d3 as int);
        }
    }

    /// This is the given number.
    pub open spec fn stands_for(self, n: int) -> bool {
        self@ == n
    }

    /// The number as a value of this type.
    pub open spec fn of(n: int) -> U512 {
        choose|u: U512| #[trigger] u.stands_for(n)
    }

    /// A number is the one that stands for what it is.
    pub proof fn lemma_of(self)
        ensures
            U512::of(self@) == self,
    {
        let other = U512::of(self@);
        assert(self.stands_for(self@));
        self.lemma_view_injective(other);
    }

    /// Every number below the limit can be represented.
    pub proof fn lemma_of_number(n: int)
        requires
            0 <= n < limit(),
        ensures
            U512::of(n)@ == n,
    {
        let b = base();
        let n1 = n / b;
        let n2 = n1 / b;
        let n3 = n2 / b;
        lemma_fundamental_div_mod(n, b);
        lemma_fundamental_div_mod(n1, b);
        lemma_fundamental_div_mod(n2, b);
        assert(0 <= n1 < b * b * b);
        assert(0 <= n2 < b * b);
        assert(0 <= n3 < b);
        let u = U512 { d0: (n % b) as u128, d1: (n1 % b) as u128, d2: (n2 % b) as u128, d3: n3 as u128 };
        assert(u.stands_for(n));
    }

    /// Returns zero.
    pub fn zero() -> (r: U512)
        ensures
            r@ == 0,
    {
        U512 { d0: 0, d1: 0, d2: 0, d3: 0 }
    }

    /// Returns one.
    pub fn one() -> (r: U512)
        ensures
            r@ == 1,
    {
        U512 { d0: 1, d1: 0, d2: 0, d3: 0 }
    }

    /// Returns whether the value is zero.
    pub fn is_zero(&self) -> (r: bool)
        ensures
            r == (self@ == 0),
    {
        self.d0 == 0 && self.d1 == 0 && self.d2 == 0 && self.d3 == 0
    }

    /// Returns the value of a smaller integer.
    pub fn from_u64(n: u64) -> (r: U512)
        ensures
            r@ == n,
    {
        U512 { d0: n as u128, d1: 0, d2: 0, d3: 0 }
    }

    /// Returns the value as a smaller integer, if it fits.
    pub fn to_u64(&self) -> (r: Option<u64>)
        ensures
            match r {
                Some(n) => n == self@,
                None => self@ > u64::MAX,
            },
    {
        if self.d1 == 0 && self.d2 == 0 && self.d3 == 0 && self.d0 <= 0xffff_ffff_ffff_ffff {
            Some(self.d0 as u64)
        } else {
            None
        }
    }

    /// Returns whether this value is less than `other`.
    pub fn less_than(&self, other: &U512) -> (r: bool)
        ensures
            r == (self@ < other@),
    {
        if self.d3 != other.d3 {
            self.d3 < other.d3
        } else if self.d2 != other.d2 {
            self.d2 < other.d2
        } else if self.d1 != other.d1 {
            self.d1 < other.d1
        } else {
            self.d0 < other.d0
        }
    }

    /// Returns the sum, if it fits.
    pub fn checked_add(&self, other: &U512) -> (r: Option<U512>)
        ensures
            match r {
                Some(s) => s@ == self@ + other@,
                None => self@ + other@ >= limit(),
            },
    {
        let (d0, c0) = add_digits(self.d0, other.d0, false);
        let (d1, c1) = add_digits(self.d1, other.d1, c0);
        let (d2, c2) = add_digits(self.d2, other.d2, c1);
        let (d3, c3) = add_digits(self.d3, other.d3, c2);
        let s = U512 { d0, d1, d2, d3 };
        assert(s@ + (if c3 { limit() } else { 0 }) == self@ + other@);
        if c3 {
            None
        } else {
            Some(s)
        }
    }

    /// Returns the difference, if it is not negative.
    pub fn checked_sub(&self, other: &U512) -> (r: Option<U512>)
        ensures
            match r {
                Some(s) => s@ == self@ - other@,
                None => self@ < other@,
            },
    {
        let (d0, c0) = sub_digits(self.d0, other.d0, false);
        let (d1, c1) = sub_digits(self.d1, other.d1, c0);
        let (d2, c2) = sub_digits(self.d2, other.d2, c1);
        let (d3, c3) = sub_digits(self.d3, other.d3, c2);
        let s = U512 { d0, d1, d2, d3 };
        assert(s@ - (if c3 { limit() } else { 0 }) == self@ - other@);
        if c3 {
            None
        } else {
            Some(s)
        }
    }

    /// Returns the sum of two values whose sum fits.
    pub fn plus(&self, other: &U512) -> (r: U512)
        requires
            self@ + other@ < limit(),
        ensures
            r@ == self@ + other@,
    {
        match self.checked_add(other) {
            Some(s) => s,
            None => U512::zero(),
        }
    }

    /// Returns the difference of a value and one that is not larger.
    pub fn minus(&self, other: &U512) -> (r: U512)
        requires
            other@ <= self@,
        ensures
            r@ == self@ - other@,
    {
        match self.checked_sub(other) {
            Some(s) => s,
            None => U512::zero(),
        }
    }

    /// Returns the value halved and what is left over.
    fn halve(&self) -> (r: (U512, bool))
        ensures
            2 * r.0@ + (if r.1 { 1int } else { 0 }) == self@,
    {
        let half: u128 = 0x8000_0000_0000_0000_0000_0000_0000_0000;
        let h = U512 {
            d0: self.d0 / 2 + (self.d1 % 2) * half,
            d1: self.d1 / 2 + (self.d2 % 2) * half,
            d2: self.d2 / 2 + (self.d3 % 2) * half,
            d3: self.d3 / 2,
        };
        (h, self.d0 % 2 == 1)
    }

    /// Returns quotient and remainder.
    pub fn div_rem(&self, d: &U512) -> (r: (U512, U512))
        requires
            d@ != 0,
        ensures
            r.0@ == self@ / d@,
            r.1@ == self@ % d@,
        decreases self@,
    {
        proof {
            self.lemma_bounds();
            d.lemma_bounds();
        }
        if self.is_zero() {
            proof {
                lemma_fundamental_div_mod_converse(0, d@, 0, 0);
            }
            return (U512::zero(), U512::zero());
        }
        let (half, odd) = self.halve();
        let (q, r) = half.div_rem(d);
        proof {
            half.lemma_bounds();
            q.lemma_bounds();
            r.lemma_bounds();
            vstd::arithmetic::div_mod::lemma_fundamental_div_mod(half@, d@);
            assert(half@ == d@ * q@ + r@);
            assert(q@ <= d@ * q@) by (nonlinear_arith)
                requires
                    d@ >= 1,
                    q@ >= 0,
            ;
        }
        let to_go = d.minus(&r);
        let twice = q.plus(&q);
        let (q1, r1) = if r.less_than(&to_go) {
            (twice, r.plus(&r))
        } else {
            (twice.plus(&U512::one()), r.minus(&to_go))
        };
        proof {
            assert(d@ * (2 * q@) == 2 * (d@ * q@)) by (nonlinear_arith);
            assert(d@ * (2 * q@ + 1) == 2 * (d@ * q@) + d@) by (nonlinear_arith);
            assert(d@ * (2 * q@ + 2) == 2 * (d@ * q@) + 2 * d@) by (nonlinear_arith);
            assert(2 * half@ == d@ * q1@ + r1@);
            assert(0 <= r1@ < d@);
            assert(q1@ * d@ == d@ * q1@) by (nonlinear_arith);
            assert((q1@ + 1) * d@ == d@ * q1@ + d@) by (nonlinear_arith);
        }
        if odd {
            let r2 = r1.plus(&U512::one());
            if r2 == *d {
                proof {
                    assert(q1@ + 1 <= (q1@ + 1) * d@) by (nonlinear_arith)
                        requires
                            d@ >= 1,
                            q1@ >= 0,
                    ;
                    lemma_fundamental_div_mod_converse(self@, d@, q1@ + 1, 0);
                }
                (q1.plus(&U512::one()), U512::zero())
            } else {
                proof {
                    r2.lemma_view_injective(*d);
                    lemma_fundamental_div_mod_converse(self@, d@, q1@, r2@);
                }
                (q1, r2)
            }
        } else {
            proof {
                lemma_fundamental_div_mod_converse(self@, d@, q1@, r1@);
            }
            (q1, r1)
        }
    }

    /// Returns the quotient.
    pub fn divided_by(&self, d: &U512) -> (r: U512)
        requires
            d@ != 0,
        ensures
            r@ == self@ / d@,
    {
        self.div_rem(d).0
    }
}

} // verus!
