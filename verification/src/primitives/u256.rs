//! 256-bit unsigned integers, held as four little-endian 64-bit limbs.
//!
//! The arithmetic itself is done by `alloy_primitives::U256`; the library holds
//! the limbs as plain values so that its contracts can speak of the number.
use vstd::prelude::*;

use super::bytes::{be_bytes, be_value};

verus! {

/// `2^64`.
pub open spec fn limb_base() -> nat {
    0x1_0000_0000_0000_0000
}

/// `2^256`, the modulus of wrapping arithmetic.
pub open spec fn u256_modulus() -> nat {
    0x1_0000_0000_0000_0000_0000_0000_0000_0000_0000_0000_0000_0000_0000_0000_0000_0000nat
}

/// 256-bit unsigned integer.
#[derive(Clone, Copy, Debug, PartialEq, Eq, Structural, Hash)]
pub struct U256 {
    l0: u64,
    l1: u64,
    l2: u64,
    l3: u64,
}

/// The number that four little-endian 64-bit limbs denote.
pub open spec fn limbs_value(l0: u64, l1: u64, l2: u64, l3: u64) -> nat {
    l0 as nat + l1 as nat * 0x1_0000_0000_0000_0000 + l2 as nat
        * 0x1_0000_0000_0000_0000_0000_0000_0000_0000 + l3 as nat
        * 0x1_0000_0000_0000_0000_0000_0000_0000_0000_0000_0000_0000_0000nat
}

impl View for U256 {
    type V = nat;

    closed spec fn view(&self) -> nat {
        limbs_value(self.l0, self.l1, self.l2, self.l3)
    }
}

/// `+` on `alloy_primitives::U256` (ruint's `Add`, which is `wrapping_add`):
/// claimed to give the sum modulo `2^256`.
#[verifier::external_body]
fn alloy_wrapping_add(a: U256, b: U256) -> (r: U256)
    ensures
        r@ == (a@ + b@) % u256_modulus(),
{
    let x = alloy_primitives::U256::from_limbs([a.l0, a.l1, a.l2, a.l3]);
    let y = alloy_primitives::U256::from_limbs([b.l0, b.l1, b.l2, b.l3]);
    let l = (x + y).into_limbs();
    U256 { l0: l[0], l1: l[1], l2: l[2], l3: l[3] }
}

/// `-` on `alloy_primitives::U256` (ruint's `Sub`, which is `wrapping_sub`):
/// claimed to give the difference modulo `2^256`.
#[verifier::external_body]
fn alloy_wrapping_sub(a: U256, b: U256) -> (r: U256)
    ensures
        r@ == (a@ - b@) % (u256_modulus() as int),
{
    let x = alloy_primitives::U256::from_limbs([a.l0, a.l1, a.l2, a.l3]);
    let y = alloy_primitives::U256::from_limbs([b.l0, b.l1, b.l2, b.l3]);
    let l = (x - y).into_limbs();
    U256 { l0: l[0], l1: l[1], l2: l[2], l3: l[3] }
}

/// `*` on `alloy_primitives::U256` (ruint's `Mul`, which is `wrapping_mul`):
/// claimed to give the product modulo `2^256`.
#[verifier::external_body]
fn alloy_wrapping_mul(a: U256, b: U256) -> (r: U256)
    ensures
        r@ == (a@ * b@) % u256_modulus(),
{
    let x = alloy_primitives::U256::from_limbs([a.l0, a.l1, a.l2, a.l3]);
    let y = alloy_primitives::U256::from_limbs([b.l0, b.l1, b.l2, b.l3]);
    let l = (x * y).into_limbs();
    U256 { l0: l[0], l1: l[1], l2: l[2], l3: l[3] }
}

/// `/` on `alloy_primitives::U256` (ruint's `Div`, which panics on a zero
/// divisor, left out by `requires`): claimed to give the quotient rounded down.
#[verifier::external_body]
fn alloy_div(a: U256, b: U256) -> (r: U256)
    requires
        b@ != 0,
    ensures
        r@ == a@ / b@,
{
    let x = alloy_primitives::U256::from_limbs([a.l0, a.l1, a.l2, a.l3]);
    let y = alloy_primitives::U256::from_limbs([b.l0, b.l1, b.l2, b.l3]);
    let l = (x / y).into_limbs();
    U256 { l0: l[0], l1: l[1], l2: l[2], l3: l[3] }
}

/// `<` on `alloy_primitives::U256` (ruint's `PartialOrd`): claimed to compare
/// the numbers.
#[verifier::external_body]
fn alloy_lt(a: U256, b: U256) -> (r: bool)
    ensures
        r == (a@ < b@),
{
    let x = alloy_primitives::U256::from_limbs([a.l0, a.l1, a.l2, a.l3]);
    let y = alloy_primitives::U256::from_limbs([b.l0, b.l1, b.l2, b.l3]);
    x < y
}

/// `alloy_primitives::U256::from(u128)`: claimed to give the same number.
#[verifier::external_body]
fn alloy_from_u128(x: u128) -> (r: U256)
    ensures
        r@ == x as nat,
{
    let l = alloy_primitives::U256::from(x).into_limbs();
    U256 { l0: l[0], l1: l[1], l2: l[2], l3: l[3] }
}

/// `TryInto<i128>` for `alloy_primitives::U256`: claimed to succeed exactly
/// when the number is at most `i128::MAX`, with the same number.
#[verifier::external_body]
fn alloy_try_into_i128(a: U256) -> (r: Option<i128>)
    ensures
        r is Some <==> a@ <= i128::MAX,
        r matches Some(v) ==> v as int == a@ as int,
{
    let x = alloy_primitives::U256::from_limbs([a.l0, a.l1, a.l2, a.l3]);
    let t: Result<i128, _> = x.try_into();
    t.ok()
}

/// `alloy_primitives::U256::from_be_slice`: claimed to give the number that
/// the big-endian bytes denote; at most 32 bytes are passed, so it does not
/// panic.
#[verifier::external_body]
fn alloy_from_be_slice(bytes: &[u8]) -> (r: U256)
    requires
        bytes@.len() <= 32,
    ensures
        r@ == be_value(bytes@),
{
    let l = alloy_primitives::U256::from_be_slice(bytes).into_limbs();
    U256 { l0: l[0], l1: l[1], l2: l[2], l3: l[3] }
}

/// `alloy_primitives::U256::to_be_bytes::<32>`: claimed to give the 32
/// big-endian bytes of the number.
#[verifier::external_body]
fn alloy_to_be_bytes(a: U256) -> (r: [u8; 32])
    ensures
        r@ == be_bytes(a@, 32),
{
    let x = alloy_primitives::U256::from_limbs([a.l0, a.l1, a.l2, a.l3]);
    x.to_be_bytes::<32>()
}

impl U256 {
    /// Zero.
    pub fn zero() -> (r: U256)
        ensures
            r@ == 0,
    {
        U256 { l0: 0, l1: 0, l2: 0, l3: 0 }
    }

    /// Every value is below `2^256`.
    pub proof fn lemma_bounded(self)
        ensures
            self@ < u256_modulus(),
    {
    }

    /// The number made of four little-endian limbs.
    pub fn from_limbs(limbs: [u64; 4]) -> (r: U256)
        ensures
            r@ == limbs_value(limbs[0], limbs[1], limbs[2], limbs[3]),
    {
        U256 { l0: limbs[0], l1: limbs[1], l2: limbs[2], l3: limbs[3] }
    }

    /// The four little-endian limbs.
    pub fn into_limbs(self) -> (r: [u64; 4])
        ensures
            limbs_value(r[0], r[1], r[2], r[3]) == self@,
    {
        [self.l0, self.l1, self.l2, self.l3]
    }

    /// The number `x`.
    pub fn from_u128(x: u128) -> (r: U256)
        ensures
            r@ == x as nat,
    {
        alloy_from_u128(x)
    }

    /// The low 64 bits.
    pub fn low_u64(&self) -> (r: u64)
        ensures
            r as nat == self@ % limb_base(),
    {
        proof {
            let hi = self.l1 as nat + self.l2 as nat * 0x1_0000_0000_0000_0000 + self.l3 as nat
                * 0x1_0000_0000_0000_0000_0000_0000_0000_0000;
            assert(self@ == self.l0 as nat + hi * 0x1_0000_0000_0000_0000);
            vstd::arithmetic::div_mod::lemma_fundamental_div_mod_converse(
                self@ as int,
                limb_base() as int,
                hi as int,
                self.l0 as int,
            );
        }
        self.l0
    }

    /// Whether the number is zero.
    pub fn is_zero(&self) -> (r: bool)
        ensures
            r == (self@ == 0),
    {
        self.l0 == 0 && self.l1 == 0 && self.l2 == 0 && self.l3 == 0
    }

    /// `self < other`.
    pub fn lt(&self, other: &U256) -> (r: bool)
        ensures
            r == (self@ < other@),
    {
        alloy_lt(*self, *other)
    }

    /// Sum modulo `2^256`.
    pub fn wrapping_add(&self, other: &U256) -> (r: U256)
        ensures
            r@ == (self@ + other@) % u256_modulus(),
    {
        alloy_wrapping_add(*self, *other)
    }

    /// Difference modulo `2^256`.
    pub fn wrapping_sub(&self, other: &U256) -> (r: U256)
        ensures
            r@ == (self@ - other@) % (u256_modulus() as int),
    {
        alloy_wrapping_sub(*self, *other)
    }

    /// Product modulo `2^256`.
    pub fn wrapping_mul(&self, other: &U256) -> (r: U256)
        ensures
            r@ == (self@ * other@) % u256_modulus(),
    {
        alloy_wrapping_mul(*self, *other)
    }

    /// Quotient rounded down.
    pub fn div(&self, other: &U256) -> (r: U256)
        requires
            other@ != 0,
        ensures
            r@ == self@ / other@,
    {
        alloy_div(*self, *other)
    }

    /// The number as an `i128`, where it fits.
    pub fn to_i128(&self) -> (r: Option<i128>)
        ensures
            r is Some <==> self@ <= i128::MAX,
            r matches Some(v) ==> v as int == self@ as int,
    {
        alloy_try_into_i128(*self)
    }

    /// The number that at most 32 big-endian bytes denote.
    pub fn from_be_slice(bytes: &[u8]) -> (r: U256)
        requires
            bytes@.len() <= 32,
        ensures
            r@ == be_value(bytes@),
    {
        alloy_from_be_slice(bytes)
    }

    /// The 32 big-endian bytes of the number.
    pub fn to_be_bytes(&self) -> (r: [u8; 32])
        ensures
            r@ == be_bytes(self@, 32),
    {
        alloy_to_be_bytes(*self)
    }
}

/// The `U256` whose value is `n` modulo `2^256`.
pub closed spec fn u256_of(n: nat) -> U256 {
    U256 {
        l0: (n % 0x1_0000_0000_0000_0000) as u64,
        l1: ((n / 0x1_0000_0000_0000_0000) % 0x1_0000_0000_0000_0000) as u64,
        l2: ((n / 0x1_0000_0000_0000_0000_0000_0000_0000_0000nat) % 0x1_0000_0000_0000_0000) as u64,
        l3: ((n / 0x1_0000_0000_0000_0000_0000_0000_0000_0000_0000_0000_0000_0000nat) % 0x1_0000_0000_0000_0000) as u64,
    }
}

/// A `U256` is `u256_of` its value.
pub proof fn lemma_u256_of_view(a: U256)
    ensures
        u256_of(a@) == a,
{
    let v = a@;
    let b = limb_base() as int;
    let r1 = a.l1 as int + a.l2 as int * 0x1_0000_0000_0000_0000 + a.l3 as int
        * 0x1_0000_0000_0000_0000_0000_0000_0000_0000;
    vstd::arithmetic::div_mod::lemma_fundamental_div_mod_converse(v as int, b, r1, a.l0 as int);
    let r2 = a.l2 as int + a.l3 as int * 0x1_0000_0000_0000_0000;
    vstd::arithmetic::div_mod::lemma_fundamental_div_mod_converse(r1, b, r2, a.l1 as int);
    vstd::arithmetic::div_mod::lemma_fundamental_div_mod_converse(r2, b, a.l3 as int, a.l2 as int);
    vstd::arithmetic::div_mod::lemma_fundamental_div_mod_converse(a.l3 as int, b, 0, a.l3 as int);
    vstd::arithmetic::div_mod::lemma_div_denominator(v as int, b, b);
    vstd::arithmetic::div_mod::lemma_div_denominator(v as int, b * b, b);
    assert(b * b == 0x1_0000_0000_0000_0000_0000_0000_0000_0000nat);
    assert(b * b * b == 0x1_0000_0000_0000_0000_0000_0000_0000_0000_0000_0000_0000_0000nat);
}

/// The value of `u256_of(n)` is `n` below `2^256`.
pub proof fn lemma_view_u256_of(n: nat)
    requires
        n < u256_modulus(),
    ensures
        u256_of(n)@ == n,
{
    let b = limb_base() as int;
    let x = u256_of(n);
    vstd::arithmetic::div_mod::lemma_fundamental_div_mod(n as int, b);
    let q1 = n as int / b;
    vstd::arithmetic::div_mod::lemma_fundamental_div_mod(q1, b);
    let q2 = q1 / b;
    vstd::arithmetic::div_mod::lemma_fundamental_div_mod(q2, b);
    let q3 = q2 / b;
    vstd::arithmetic::div_mod::lemma_div_denominator(n as int, b, b);
    vstd::arithmetic::div_mod::lemma_div_denominator(n as int, b * b, b);
    assert(b * b == 0x1_0000_0000_0000_0000_0000_0000_0000_0000nat);
    assert(b * b * b == 0x1_0000_0000_0000_0000_0000_0000_0000_0000_0000_0000_0000_0000nat);
    assert(q3 < b) by {
        vstd::arithmetic::div_mod::lemma_div_denominator(n as int, b * b * b, b);
        assert(b * b * b * b == u256_modulus());
        vstd::arithmetic::div_mod::lemma_basic_div(n as int, u256_modulus() as int);
        assert(q3 / b == 0);
        vstd::arithmetic::div_mod::lemma_fundamental_div_mod(q3, b);
    }
    vstd::arithmetic::div_mod::lemma_small_mod(q3 as nat, b as nat);
    assert(x.l0 as int == n as int % b);
    assert(x.l1 as int == q1 % b);
    assert(x.l2 as int == q2 % b);
    assert(x.l3 as int == q3);
    assert(n as int == x.l0 + b * (x.l1 + b * (x.l2 + b * x.l3))) by (nonlinear_arith)
        requires
            n as int == n as int % b + b * q1,
            q1 == q1 % b + b * q2,
            q2 == q2 % b + b * q3,
            x.l0 as int == n as int % b,
            x.l1 as int == q1 % b,
            x.l2 as int == q2 % b,
            x.l3 as int == q3,
    ;
    assert(x@ == x.l0 + b * (x.l1 + b * (x.l2 + b * x.l3))) by (nonlinear_arith)
        requires
            x@ == limbs_value(x.l0, x.l1, x.l2, x.l3),
            b == 0x1_0000_0000_0000_0000,
    ;
}

} // verus!
