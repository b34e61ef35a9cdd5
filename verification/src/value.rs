//! The values a rule set can be applied to: integer types of the widths the
//! library supports, seen uniformly through their mathematical value.
use vstd::prelude::*;
use crate::render::dec_repr;
use crate::render::u64_decimal;
use crate::render::i64_decimal;

verus! {

/// A value that rules can test and that can render itself in decimal.
///
/// `as_int` is the mathematical integer the value stands for; the other
/// methods are all specified through it, so implementations at different
/// integer widths behave alike on the values both widths can hold.
pub trait FizzValue: Copy + Sized {
    /// The mathematical integer this value stands for.
    spec fn as_int(self) -> int;

    /// The value's decimal form.
    fn render(self) -> (r: String)
        ensures
            r@ == dec_repr(self.as_int()),
    ;

    /// Whether the value is divisible by `d`.
    fn divisible_by(self, d: Self) -> (r: bool)
        requires
            d.as_int() > 0,
        ensures
            r == (self.as_int() % d.as_int() == 0),
    ;

    /// The value standing for the small constant `n`.
    fn from_u8(n: u8) -> (r: Self)
        ensures
            r.as_int() == n as int,
    ;
}

impl FizzValue for u8 {
    open spec fn as_int(self) -> int {
        self as int
    }

    fn render(self) -> (r: String) {
        u64_decimal(self as u64)
    }

    fn divisible_by(self, d: Self) -> (r: bool) {
        self % d == 0
    }

    fn from_u8(n: u8) -> (r: Self) {
        n
    }
}

impl FizzValue for u16 {
    open spec fn as_int(self) -> int {
        self as int
    }

    fn render(self) -> (r: String) {
        u64_decimal(self as u64)
    }

    fn divisible_by(self, d: Self) -> (r: bool) {
        self % d == 0
    }

    fn from_u8(n: u8) -> (r: Self) {
        n as u16
    }
}

impl FizzValue for u32 {
    open spec fn as_int(self) -> int {
        self as int
    }

    fn render(self) -> (r: String) {
        u64_decimal(self as u64)
    }

    fn divisible_by(self, d: Self) -> (r: bool) {
        self % d == 0
    }

    fn from_u8(n: u8) -> (r: Self) {
        n as u32
    }
}

impl FizzValue for u64 {
    open spec fn as_int(self) -> int {
        self as int
    }

    fn render(self) -> (r: String) {
        u64_decimal(self)
    }

    fn divisible_by(self, d: Self) -> (r: bool) {
        self % d == 0
    }

    fn from_u8(n: u8) -> (r: Self) {
        n as u64
    }
}

impl FizzValue for usize {
    open spec fn as_int(self) -> int {
        self as int
    }

    fn render(self) -> (r: String) {
        u64_decimal(self as u64)
    }

    fn divisible_by(self, d: Self) -> (r: bool) {
        self % d == 0
    }

    fn from_u8(n: u8) -> (r: Self) {
        n as usize
    }
}

/// Negating a multiple of a positive divisor gives a multiple again.
proof fn lemma_neg_multiple(a: int, d: int)
    requires
        d > 0,
        a % d == 0,
    ensures
        (-a) % d == 0,
{
    vstd::arithmetic::div_mod::lemma_fundamental_div_mod(a, d);
    let k = a / d;
    assert(-a == (-k) * d) by (nonlinear_arith)
        requires
            a == d * k + a % d,
            a % d == 0,
    ;
    vstd::arithmetic::div_mod::lemma_mod_multiples_basic(-k, d);
}

/// For a positive divisor, a number and its negation are divisible alike.
proof fn lemma_neg_divisible(a: int, d: int)
    requires
        d > 0,
    ensures
        ((-a) % d == 0) == (a % d == 0),
{
    if a % d == 0 {
        lemma_neg_multiple(a, d);
    }
    if (-a) % d == 0 {
        lemma_neg_multiple(-a, d);
    }
}

impl FizzValue for i32 {
    open spec fn as_int(self) -> int {
        self as int
    }

    fn render(self) -> (r: String) {
        i64_decimal(self as i64)
    }

    fn divisible_by(self, d: Self) -> (r: bool) {
        let a: i64 = self as i64;
        let m: u64 = if a >= 0 {
            a as u64
        } else {
            (-a) as u64
        };
        proof {
            if a < 0 {
                lemma_neg_divisible(m as int, d as int);
            }
        }
        m % (d as u64) == 0
    }

    fn from_u8(n: u8) -> (r: Self) {
        n as i32
    }
}

impl FizzValue for i64 {
    open spec fn as_int(self) -> int {
        self as int
    }

    fn render(self) -> (r: String) {
        i64_decimal(self)
    }

    fn divisible_by(self, d: Self) -> (r: bool) {
        let m: u64 = if self == i64::MIN {
            9223372036854775808u64
        } else if self >= 0 {
            self as u64
        } else {
            (-self) as u64
        };
        proof {
            if self < 0 {
                lemma_neg_divisible(m as int, d as int);
            }
        }
        m % (d as u64) == 0
    }

    fn from_u8(n: u8) -> (r: Self) {
        n as i64
    }
}

} // verus!
