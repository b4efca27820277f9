//! The greatest common divisor of two natural numbers.

use vstd::arithmetic::div_mod::{
    lemma_add_mod_noop, lemma_fundamental_div_mod, lemma_mul_mod_noop, lemma_small_mod,
};
use vstd::prelude::*;

verus! {

/// Whether `g` is the greatest common divisor of `a` and `b`: it divides
/// both, and no common divisor is greater. For two zeros it is 0.
pub open spec fn is_gcd(a: nat, b: nat, g: nat) -> bool {
    if a == 0 && b == 0 {
        g == 0
    } else {
        &&& g > 0
        &&& a % g == 0
        &&& b % g == 0
        &&& forall|d: nat| d > 0 && a % d == 0 && #[trigger] (b % d) == 0 ==> d <= g
    }
}

/// The greatest common divisor of `a` and `b`, as Euclid found it: that of
/// `b` and the remainder of `a` by `b`, and `a` itself once `b` is 0.
pub open spec fn gcd_of(a: nat, b: nat) -> nat
    decreases b,
{
    if b == 0 {
        a
    } else {
        gcd_of(b, a % b)
    }
}

/// A number that divides `b` divides `a` if and only if it divides the
/// remainder of `a` by `b`.
pub proof fn lemma_remainder_keeps_divisors(a: nat, b: nat, d: nat)
    requires
        b > 0,
        d > 0,
        b % d == 0,
    ensures
        (a % d == 0) == ((a % b) % d == 0),
{
    let ai = a as int;
    let bi = b as int;
    let di = d as int;
    let q = ai / bi;
    let r = ai % bi;
    lemma_fundamental_div_mod(ai, bi);
    lemma_mul_mod_noop(bi, q, di);
    assert(((bi % di) * (q % di)) % di == 0) by (nonlinear_arith)
        requires
            bi % di == 0,
            di > 0,
    ;
    lemma_add_mod_noop(bi * q, r, di);
    lemma_small_mod((r % di) as nat, d);
}

/// What Euclid's way gives is the greatest common divisor.
pub proof fn lemma_gcd_of_is_gcd(a: nat, b: nat)
    ensures
        is_gcd(a, b, gcd_of(a, b)),
    decreases b,
{
    if b == 0 {
        if a > 0 {
            assert(a % a == 0) by (nonlinear_arith)
                requires
                    a > 0,
            ;
            assert forall|d: nat| d > 0 && a % d == 0 && #[trigger] (b % d) == 0 implies d <= a by {
                if d > a {
                    lemma_small_mod(a, d);
                }
            }
        }
    } else {
        let g = gcd_of(b, a % b);
        lemma_gcd_of_is_gcd(b, a % b);
        lemma_remainder_keeps_divisors(a, b, g);
        assert forall|d: nat| d > 0 && a % d == 0 && #[trigger] (b % d) == 0 implies d <= g by {
            lemma_remainder_keeps_divisors(a, b, d);
        }
    }
}

/// The order of the two numbers does not matter.
pub proof fn lemma_gcd_of_swaps(a: nat, b: nat)
    ensures
        gcd_of(a, b) == gcd_of(b, a),
{
    lemma_gcd_of_is_gcd(a, b);
    lemma_gcd_of_is_gcd(b, a);
}

/// The greatest common divisor of `a` and `b`.
pub fn greatest_common_divisor(a: u128, b: u128) -> (g: u128)
    ensures
        g == gcd_of(a as nat, b as nat),
        is_gcd(a as nat, b as nat, g as nat),
        g <= a || g <= b,
{
    let (mut x, mut y) = if a > b {
        (a, b)
    } else {
        (b, a)
    };
    proof {
        lemma_gcd_of_swaps(a as nat, b as nat);
        lemma_gcd_of_is_gcd(a as nat, b as nat);
    }
    while y != 0
        invariant
            gcd_of(x as nat, y as nat) == gcd_of(a as nat, b as nat),
        decreases y,
    {
        let r = x % y;
        x = y;
        y = r;
    }
    proof {
        let g = x as nat;
        if a != 0 || b != 0 {
            if a > 0 && g > a {
                lemma_small_mod(a as nat, g);
            }
            if b > 0 && g > b {
                lemma_small_mod(b as nat, g);
            }
        }
    }
    x
}

/// Numbers that have a greatest common divisor.
pub trait Gcd: Sized {
    /// The value as a natural number.
    spec fn value(self) -> nat;

    /// The greatest common divisor of `self` and `other`; 0 for two zeros.
    fn gcd(self, other: Self) -> (g: Self)
        ensures
            g.value() == gcd_of(self.value(), other.value()),
            is_gcd(self.value(), other.value(), g.value()),
    ;
}

impl Gcd for u8 {
    open spec fn value(self) -> nat {
        self as nat
    }

    fn gcd(self, other: u8) -> (g: u8) {
        greatest_common_divisor(self as u128, other as u128) as u8
    }
}

impl Gcd for u16 {
    open spec fn value(self) -> nat {
        self as nat
    }

    fn gcd(self, other: u16) -> (g: u16) {
        greatest_common_divisor(self as u128, other as u128) as u16
    }
}

impl Gcd for u32 {
    open spec fn value(self) -> nat {
        self as nat
    }

    fn gcd(self, other: u32) -> (g: u32) {
        greatest_common_divisor(self as u128, other as u128) as u32
    }
}

impl Gcd for u64 {
    open spec fn value(self) -> nat {
        self as nat
    }

    fn gcd(self, other: u64) -> (g: u64) {
        greatest_common_divisor(self as u128, other as u128) as u64
    }
}

impl Gcd for u128 {
    open spec fn value(self) -> nat {
        self as nat
    }

    fn gcd(self, other: u128) -> (g: u128) {
        greatest_common_divisor(self, other)
    }
}

impl Gcd for usize {
    open spec fn value(self) -> nat {
        self as nat
    }

    fn gcd(self, other: usize) -> (g: usize) {
        greatest_common_divisor(self as u128, other as u128) as usize
    }
}

} // verus!
