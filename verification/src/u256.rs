//! Unsigned 256-bit integers, held as two 128-bit words.

use vstd::bytes::{
    spec_u128_from_le_bytes, spec_u128_to_le_bytes, u128_from_le_bytes, u128_to_le_bytes,
};
use vstd::prelude::*;
use vstd::slice::slice_subrange;

verus! {

/// 2^128, the weight of the high word.
pub open spec fn word_base() -> nat {
    0x1_0000_0000_0000_0000_0000_0000_0000_0000nat
}

/// 2^256 - 1, the largest value a [`U256`] holds.
pub open spec fn u256_max() -> nat {
    0xffff_ffff_ffff_ffff_ffff_ffff_ffff_ffff_ffff_ffff_ffff_ffff_ffff_ffff_ffff_ffffnat
}

/// The sum of two values, held at [`u256_max`].
pub open spec fn saturating_sum(a: nat, b: nat) -> nat {
    if a + b > u256_max() {
        u256_max()
    } else {
        a + b
    }
}

/// The product of two values, held at [`u256_max`].
pub open spec fn saturating_product(a: nat, b: nat) -> nat {
    if a * b > u256_max() {
        u256_max()
    } else {
        a * b
    }
}

/// The difference of two values, held at zero.
pub open spec fn saturating_difference(a: nat, b: nat) -> nat {
    if a < b {
        0
    } else {
        (a - b) as nat
    }
}

/// An unsigned 256-bit integer.
#[derive(Clone, Copy, Debug, PartialEq, Eq, Structural)]
pub struct U256 {
    pub hi: u128,
    pub lo: u128,
}

impl View for U256 {
    type V = nat;

    /// The number that the two words stand for.
    open spec fn view(&self) -> nat {
        self.hi as nat * word_base() + self.lo as nat
    }
}

/// The value that stands for a number up to [`u256_max`].
pub open spec fn u256_of(n: nat) -> U256 {
    U256 { hi: (n / word_base()) as u128, lo: (n % word_base()) as u128 }
}

/// The value that stands for the number of a value is that value.
pub proof fn lemma_u256_of_view(a: U256)
    ensures
        u256_of(a@) == a,
{
    let n = a@;
    assert(n / word_base() == a.hi && n % word_base() == a.lo) by {
        vstd::arithmetic::div_mod::lemma_fundamental_div_mod_converse(
            n as int,
            word_base() as int,
            a.hi as int,
            a.lo as int,
        );
    }
}

/// Two values with the same number have the same words.
pub proof fn lemma_view_injective(a: U256, b: U256)
    requires
        a@ == b@,
    ensures
        a == b,
{
    assert(a.hi == b.hi) by (nonlinear_arith)
        requires
            a.hi as nat * word_base() + a.lo as nat == b.hi as nat * word_base() + b.lo as nat,
            a.lo < word_base(),
            b.lo < word_base(),
            word_base() > 0,
    ;
}

/// Every value is at most [`u256_max`].
pub proof fn lemma_view_bound(a: U256)
    ensures
        a@ <= u256_max(),
{
    assert(a.hi as nat * word_base() <= 0xffff_ffff_ffff_ffff_ffff_ffff_ffff_ffff * word_base())
        by (nonlinear_arith)
        requires
            a.hi <= 0xffff_ffff_ffff_ffff_ffff_ffff_ffff_ffff,
    ;
}

/// `ethnum::U256::saturating_add`: the sum of the two numbers, or the largest
/// 256-bit value where the sum does not fit.
#[verifier::external_body]
fn ethnum_saturating_add(a: U256, b: U256) -> (r: U256)
    ensures
        r@ == saturating_sum(a@, b@),
{
    let x = ethnum::U256::from_words(a.hi, a.lo);
    let y = ethnum::U256::from_words(b.hi, b.lo);
    let (hi, lo) = x.saturating_add(y).into_words();
    U256 { hi, lo }
}

/// `ethnum::U256::saturating_sub`: the difference of the two numbers, or zero
/// where the second is the larger.
#[verifier::external_body]
fn ethnum_saturating_sub(a: U256, b: U256) -> (r: U256)
    ensures
        r@ == saturating_difference(a@, b@),
{
    let x = ethnum::U256::from_words(a.hi, a.lo);
    let y = ethnum::U256::from_words(b.hi, b.lo);
    let (hi, lo) = x.saturating_sub(y).into_words();
    U256 { hi, lo }
}

/// `ethnum::U256::saturating_mul`: the product of the two numbers, or the
/// largest 256-bit value where the product does not fit.
#[verifier::external_body]
fn ethnum_saturating_mul(a: U256, b: U256) -> (r: U256)
    ensures
        r@ == saturating_product(a@, b@),
{
    let x = ethnum::U256::from_words(a.hi, a.lo);
    let y = ethnum::U256::from_words(b.hi, b.lo);
    let (hi, lo) = x.saturating_mul(y).into_words();
    U256 { hi, lo }
}

/// `ethnum::U256::checked_add`: the sum of the two numbers where it fits in
/// 256 bits, and nothing where it does not.
#[verifier::external_body]
fn ethnum_checked_add(a: U256, b: U256) -> (r: Option<U256>)
    ensures
        r is Some <==> a@ + b@ <= u256_max(),
        r is Some ==> r.unwrap()@ == a@ + b@,
{
    let x = ethnum::U256::from_words(a.hi, a.lo);
    let y = ethnum::U256::from_words(b.hi, b.lo);
    match x.checked_add(y) {
        Some(s) => {
            let (hi, lo) = s.into_words();
            Some(U256 { hi, lo })
        },
        None => None,
    }
}

impl U256 {
    /// The value zero.
    pub fn zero() -> (r: U256)
        ensures
            r@ == 0,
    {
        U256 { hi: 0, lo: 0 }
    }

    /// The value zero, as the overlay reads a cleared slot.
    pub fn zero_word() -> (r: U256)
        ensures
            r == (U256 { hi: 0, lo: 0 }),
    {
        U256 { hi: 0, lo: 0 }
    }

    /// The largest value, 2^256 - 1.
    pub fn max_value() -> (r: U256)
        ensures
            r@ == u256_max(),
    {
        U256 {
            hi: 0xffff_ffff_ffff_ffff_ffff_ffff_ffff_ffff,
            lo: 0xffff_ffff_ffff_ffff_ffff_ffff_ffff_ffff,
        }
    }

    /// The value of a 64-bit integer.
    pub fn from_u64(value: u64) -> (r: U256)
        ensures
            r@ == value,
    {
        U256 { hi: 0, lo: value as u128 }
    }

    /// The value of a 128-bit integer.
    pub fn new(value: u128) -> (r: U256)
        ensures
            r@ == value,
    {
        U256 { hi: 0, lo: value }
    }

    /// The value `hi * 2^128 + lo`.
    pub fn from_words(hi: u128, lo: u128) -> (r: U256)
        ensures
            r.hi == hi,
            r.lo == lo,
    {
        U256 { hi, lo }
    }

    /// The high and the low word.
    pub fn into_words(self) -> (r: (u128, u128))
        ensures
            r.0 == self.hi,
            r.1 == self.lo,
    {
        (self.hi, self.lo)
    }

    /// Whether the value is zero.
    pub fn is_zero(&self) -> (r: bool)
        ensures
            r == (self@ == 0),
    {
        proof {
            assert(self.hi > 0 ==> self.hi as nat * word_base() >= word_base()) by (nonlinear_arith);
        }
        self.hi == 0 && self.lo == 0
    }

    /// Whether the value is smaller than `other`.
    pub fn lt(&self, other: &U256) -> (r: bool)
        ensures
            r == (self@ < other@),
    {
        proof {
            lemma_words_order(*self, *other);
            lemma_words_order(*other, *self);
        }
        self.hi < other.hi || (self.hi == other.hi && self.lo < other.lo)
    }

    /// Whether the value is larger than `other`.
    pub fn gt(&self, other: &U256) -> (r: bool)
        ensures
            r == (self@ > other@),
    {
        other.lt(self)
    }

    /// Whether the value is at most `other`.
    pub fn le(&self, other: &U256) -> (r: bool)
        ensures
            r == (self@ <= other@),
    {
        !other.lt(self)
    }

    /// Whether the value is at least `other`.
    pub fn ge(&self, other: &U256) -> (r: bool)
        ensures
            r == (self@ >= other@),
    {
        !self.lt(other)
    }

    /// The low 64 bits of the value.
    pub fn as_u64(&self) -> (r: u64)
        ensures
            r == self.lo % 0x1_0000_0000_0000_0000,
    {
        (self.lo % 0x1_0000_0000_0000_0000u128) as u64
    }

    /// The sum, held at the largest value where it does not fit.
    pub fn saturating_add(self, rhs: U256) -> (r: U256)
        ensures
            r@ == saturating_sum(self@, rhs@),
    {
        ethnum_saturating_add(self, rhs)
    }

    /// The difference, held at zero where `rhs` is the larger.
    pub fn saturating_sub(self, rhs: U256) -> (r: U256)
        ensures
            r@ == saturating_difference(self@, rhs@),
    {
        ethnum_saturating_sub(self, rhs)
    }

    /// The product, held at the largest value where it does not fit.
    pub fn saturating_mul(self, rhs: U256) -> (r: U256)
        ensures
            r@ == saturating_product(self@, rhs@),
    {
        ethnum_saturating_mul(self, rhs)
    }

    /// The sum where it fits in 256 bits.
    pub fn checked_add(self, rhs: U256) -> (r: Option<U256>)
        ensures
            r is Some <==> self@ + rhs@ <= u256_max(),
            r is Some ==> r.unwrap()@ == self@ + rhs@,
    {
        ethnum_checked_add(self, rhs)
    }

}

impl U256 {
    /// The 32 bytes of the value, least significant first.
    pub open spec fn spec_to_le_bytes(&self) -> Seq<u8> {
        spec_u128_to_le_bytes(self.lo) + spec_u128_to_le_bytes(self.hi)
    }

    /// The value whose 32 bytes, least significant first, are `bytes`.
    pub open spec fn spec_from_le_bytes(bytes: Seq<u8>) -> U256 {
        U256 {
            hi: spec_u128_from_le_bytes(bytes.subrange(16, 32)),
            lo: spec_u128_from_le_bytes(bytes.subrange(0, 16)),
        }
    }

    /// The 32 bytes of the value, least significant first.
    pub fn to_le_bytes(&self) -> (r: Vec<u8>)
        ensures
            r@ == self.spec_to_le_bytes(),
            r@.len() == 32,
    {
        let mut bytes = u128_to_le_bytes(self.lo);
        let mut high = u128_to_le_bytes(self.hi);
        bytes.append(&mut high);
        bytes
    }

    /// The value whose 32 bytes, least significant first, are `bytes`.
    pub fn from_le_bytes(bytes: &[u8]) -> (r: U256)
        requires
            bytes@.len() == 32,
        ensures
            r == Self::spec_from_le_bytes(bytes@),
    {
        let lo = u128_from_le_bytes(slice_subrange(bytes, 0, 16));
        let hi = u128_from_le_bytes(slice_subrange(bytes, 16, 32));
        U256 { hi, lo }
    }
}

/// The bytes of a value give the value back, and the value of 32 bytes gives
/// the bytes back.
pub proof fn lemma_le_bytes_round_trip(value: U256, bytes: Seq<u8>)
    ensures
        value.spec_to_le_bytes().len() == 32,
        U256::spec_from_le_bytes(value.spec_to_le_bytes()) == value,
        bytes.len() == 32 ==> U256::spec_from_le_bytes(bytes).spec_to_le_bytes() == bytes,
{
    vstd::bytes::lemma_auto_spec_u128_to_from_le_bytes();
    let packed = value.spec_to_le_bytes();
    assert(packed.subrange(0, 16) =~= spec_u128_to_le_bytes(value.lo));
    assert(packed.subrange(16, 32) =~= spec_u128_to_le_bytes(value.hi));
    if bytes.len() == 32 {
        assert(bytes.subrange(0, 16).len() == 16);
        assert(bytes.subrange(16, 32).len() == 16);
        assert(U256::spec_from_le_bytes(bytes).spec_to_le_bytes() =~= bytes.subrange(0, 16)
            + bytes.subrange(16, 32));
        assert(bytes.subrange(0, 16) + bytes.subrange(16, 32) =~= bytes);
    }
}

/// The words order two values as their numbers do.
proof fn lemma_words_order(a: U256, b: U256)
    ensures
        (a.hi < b.hi || (a.hi == b.hi && a.lo < b.lo)) ==> a@ < b@,
{
    if a.hi < b.hi {
        assert(a.hi as nat * word_base() + word_base() <= b.hi as nat * word_base())
            by (nonlinear_arith)
            requires
                a.hi < b.hi,
        ;
    }
}

} // verus!
