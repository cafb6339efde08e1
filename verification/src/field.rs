//! The prime field that memory cells, operands and trace values live in.
//!
//! Every value the machine touches is an element of the prime field with
//! modulus `MODULUS` (a 31-bit prime), kept in canonical form: the wrapped
//! integer is always strictly below the modulus.

use vstd::prelude::*;

verus! {

/// The 31-bit prime modulus of the field.
pub const MODULUS: u32 = 2013265921;

/// A field element in canonical form.
#[derive(Clone, Copy, Debug, PartialEq, Eq, Structural)]
pub struct Felt {
    pub value: u32,
}

impl Felt {
    /// Whether the element is in canonical form.
    pub open spec fn valid(self) -> bool {
        self.value < MODULUS
    }

    /// The additive identity.
    pub fn zero() -> (r: Felt)
        ensures
            r.value == 0,
            r.valid(),
    {
        Felt { value: 0 }
    }

    /// The multiplicative identity.
    pub fn one() -> (r: Felt)
        ensures
            r.value == 1,
            r.valid(),
    {
        Felt { value: 1 }
    }

    /// Canonical embedding of a machine integer, reducing modulo the prime.
    pub fn from_u32(x: u32) -> (r: Felt)
        ensures
            r.value == x % MODULUS,
            r.valid(),
    {
        Felt { value: x % MODULUS }
    }

    /// The canonical representative as a machine integer.
    pub fn as_u32(self) -> (r: u32)
        ensures
            r == self.value,
    {
        self.value
    }

    /// Whether this is the additive identity.
    pub fn is_zero(self) -> (r: bool)
        ensures
            r == (self.value == 0),
    {
        self.value == 0
    }

    /// Field addition.
    pub fn add(self, other: Felt) -> (r: Felt)
        requires
            self.valid(),
            other.valid(),
        ensures
            r.valid(),
            r.value == (self.value + other.value) % (MODULUS as int),
    {
        let s: u64 = self.value as u64 + other.value as u64;
        let m: u64 = MODULUS as u64;
        Felt { value: (s % m) as u32 }
    }

    /// Field subtraction.
    pub fn sub(self, other: Felt) -> (r: Felt)
        requires
            self.valid(),
            other.valid(),
        ensures
            r.valid(),
            r.value == (self.value - other.value) % (MODULUS as int),
    {
        let r: u32 = if self.value >= other.value {
            self.value - other.value
        } else {
            self.value + (MODULUS - other.value)
        };
        proof {
            let a = self.value as int;
            let b = other.value as int;
            let m = MODULUS as int;
            if a >= b {
                assert((a - b) % m == a - b) by {
                    vstd::arithmetic::div_mod::lemma_small_mod((a - b) as nat, m as nat);
                };
            } else {
                assert((a - b) % m == a - b + m) by {
                    vstd::arithmetic::div_mod::lemma_mod_add_multiples_vanish(a - b, m);
                    vstd::arithmetic::div_mod::lemma_small_mod((a - b + m) as nat, m as nat);
                };
            }
        }
        Felt { value: r }
    }

    /// Additive inverse.
    pub fn neg(self) -> (r: Felt)
        requires
            self.valid(),
        ensures
            r.valid(),
            r.value == (0 - self.value) % (MODULUS as int),
    {
        Felt::zero().sub(self)
    }

    /// Field multiplication.
    pub fn mul(self, other: Felt) -> (r: Felt)
        requires
            self.valid(),
            other.valid(),
        ensures
            r.valid(),
            r.value == (self.value * other.value) % (MODULUS as int),
    {
        let a: u64 = self.value as u64;
        let b: u64 = other.value as u64;
        proof {
            assert((a as int) * (b as int) < 0x4000000000000000) by (nonlinear_arith)
                requires
                    a < 0x80000000,
                    b < 0x80000000;
        }
        let p: u64 = a * b;
        let m: u64 = MODULUS as u64;
        Felt { value: (p % m) as u32 }
    }

    /// What exponentiation means: the canonical form of `base ^ exp`.
    pub open spec fn pow_spec(base: Felt, exp: nat) -> int {
        vstd::arithmetic::power::pow(base.value as int, exp) % (MODULUS as int)
    }

    /// The canonical form of the multiplicative inverse of a nonzero element
    /// (by Fermat's little theorem, `x^(MODULUS-2)`); maps zero to zero.
    pub open spec fn inv_spec(x: Felt) -> int {
        Felt::pow_spec(x, (MODULUS - 2) as nat)
    }

    /// Exponentiation by squaring.
    pub fn pow(self, exp: u32) -> (r: Felt)
        requires
            self.valid(),
        ensures
            r.valid(),
            r.value == Felt::pow_spec(self, exp as nat),
    {
        let mut result = Felt::one();
        let mut base = self;
        let mut e: u32 = exp;
        while e > 0
            invariant
                result.valid(),
                base.valid(),
                ((result.value as int) * vstd::arithmetic::power::pow(base.value as int, e as nat))
                    % (MODULUS as int) == Felt::pow_spec(self, exp as nat),
            decreases e,
        {
            proof {
                assert(e & 1 == e % 2) by (bit_vector);
                lemma_square_and_multiply_step(
                    result.value as int,
                    base.value as int,
                    e as nat,
                    MODULUS as int,
                );
                vstd::arithmetic::div_mod::lemma_small_mod(result.value as nat, MODULUS as nat);
            }
            if e & 1 == 1 {
                result = result.mul(base);
            }
            base = base.mul(base);
            e = e / 2;
        }
        proof {
            vstd::arithmetic::power::lemma_pow0(base.value as int);
            vstd::arithmetic::div_mod::lemma_small_mod(result.value as nat, MODULUS as nat);
        }
        result
    }

    /// The multiplicative inverse of a nonzero element; zero maps to zero.
    pub fn inverse(self) -> (r: Felt)
        requires
            self.valid(),
        ensures
            r.valid(),
            r.value == Felt::inv_spec(self),
    {
        self.pow(MODULUS - 2)
    }
}

/// One step of square-and-multiply: peeling the low bit of the exponent off
/// `r * base^e` and squaring the base preserves the running product modulo `m`.
proof fn lemma_square_and_multiply_step(r: int, b: int, e: nat, m: int)
    requires
        m > 1,
        e > 0,
    ensures
        e % 2 == 1 ==> (((r * b) % m) * vstd::arithmetic::power::pow((b * b) % m, e / 2)) % m == (r
            * vstd::arithmetic::power::pow(b, e)) % m,
        e % 2 == 0 ==> ((r % m) * vstd::arithmetic::power::pow((b * b) % m, e / 2)) % m == (r
            * vstd::arithmetic::power::pow(b, e)) % m,
{
    let h = e / 2;
    vstd::arithmetic::power::lemma_pow_mod_noop(b * b, h, m);
    vstd::arithmetic::power::lemma_pow_multiplies(b, 2, h);
    assert(vstd::arithmetic::power::pow(b, 2) == b * b) by {
        vstd::arithmetic::power::lemma_pow1(b);
        vstd::arithmetic::power::lemma_pow_adds(b, 1, 1);
    };
    assert(vstd::arithmetic::power::pow(b * b, h) == vstd::arithmetic::power::pow(b, 2 * h));
    let pbb = vstd::arithmetic::power::pow(b * b, h);
    if e % 2 == 1 {
        assert(e == 2 * h + 1);
        vstd::arithmetic::power::lemma_pow_adds(b, 1, 2 * h);
        vstd::arithmetic::power::lemma_pow1(b);
        assert(vstd::arithmetic::power::pow(b, e) == b * vstd::arithmetic::power::pow(b, 2 * h));
        // ((r * b) % m * (pbb % m)) % m == (r * b * pbb) % m
        vstd::arithmetic::div_mod::lemma_mul_mod_noop_general(r * b, pbb, m);
        assert((((r * b) % m) * (pbb % m)) % m == ((r * b) * pbb) % m);
        vstd::arithmetic::power::lemma_pow_mod_noop(b * b, h, m);
        // ((r*b)%m * pow((b*b)%m, h)) % m
        vstd::arithmetic::div_mod::lemma_mul_mod_noop_general(
            (r * b) % m,
            vstd::arithmetic::power::pow((b * b) % m, h),
            m,
        );
        assert((((r * b) % m) * vstd::arithmetic::power::pow((b * b) % m, h)) % m == (((r * b) % m)
            * (vstd::arithmetic::power::pow((b * b) % m, h) % m)) % m);
        assert((((r * b) % m) * (vstd::arithmetic::power::pow((b * b) % m, h) % m)) % m == (((r * b)
            % m) * (pbb % m)) % m);
        assert((r * b) * pbb == r * (b * pbb)) by (nonlinear_arith);
        assert(b * vstd::arithmetic::power::pow(b, 2 * h) == b * pbb);
        assert((r * vstd::arithmetic::power::pow(b, e)) % m == (r * (b * pbb)) % m);
    } else {
        assert(e == 2 * h);
        vstd::arithmetic::div_mod::lemma_mul_mod_noop_general(r, pbb, m);
        assert(((r % m) * (pbb % m)) % m == (r * pbb) % m);
        vstd::arithmetic::div_mod::lemma_mul_mod_noop_general(
            r % m,
            vstd::arithmetic::power::pow((b * b) % m, h),
            m,
        );
        assert(((r % m) * vstd::arithmetic::power::pow((b * b) % m, h)) % m == ((r % m)
            * (vstd::arithmetic::power::pow((b * b) % m, h) % m)) % m);
        assert(((r % m) * (vstd::arithmetic::power::pow((b * b) % m, h) % m)) % m == ((r % m) * (pbb
            % m)) % m);
    }
}

} // verus!
