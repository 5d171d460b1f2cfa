//! 256-bit unsigned integers.
//!
//! A [`U256`] is four 64-bit limbs, least significant first. Its meaning is the
//! natural number [`U256::view`]; comparison is proved here against that
//! number, and sums, differences, products and quotients are computed by
//! `ruint`.

use vstd::prelude::*;

verus! {

/// The largest number a [`U256`] can hold: two to the power 256, less one.
pub open spec fn u256_max() -> nat {
    0xffff_ffff_ffff_ffff_ffff_ffff_ffff_ffff_ffff_ffff_ffff_ffff_ffff_ffff_ffff_ffffnat
}

/// An unsigned integer of 256 bits.
#[derive(Clone, Copy, Debug, Eq, Hash)]
pub struct U256 {
    /// The limbs, least significant first.
    pub limbs: [u64; 4],
}

impl View for U256 {
    type V = nat;

    /// The number that the limbs stand for: the sum of the limbs, each times
    /// the power of two to the 64 that its place gives it.
    open spec fn view(&self) -> nat {
        self.limbs@[0] as nat + self.limbs@[1] as nat * 0x1_0000_0000_0000_0000nat
            + self.limbs@[2] as nat * 0x1_0000_0000_0000_0000_0000_0000_0000_0000nat
            + self.limbs@[3] as nat * 0x1_0000_0000_0000_0000_0000_0000_0000_0000_0000_0000_0000_0000nat
    }
}

impl PartialEq for U256 {
    fn eq(&self, other: &U256) -> (same: bool) {
        proof {
            U256::lemma_view_injective(*self, *other);
        }
        self.limbs[0] == other.limbs[0] && self.limbs[1] == other.limbs[1] && self.limbs[2]
            == other.limbs[2] && self.limbs[3] == other.limbs[3]
    }
}

impl vstd::std_specs::cmp::PartialEqSpecImpl for U256 {
    open spec fn obeys_eq_spec() -> bool {
        true
    }

    open spec fn eq_spec(&self, other: &U256) -> bool {
        *self == *other
    }
}

impl U256 {
    /// Two integers that stand for the same number are the same integer, and no
    /// integer stands for a number above [`u256_max`].
    pub proof fn lemma_view_injective(a: U256, b: U256)
        ensures
            (a@ == b@) <==> (a == b),
            a@ <= u256_max(),
    {
        if a@ == b@ {
            assert(a.limbs@[0] == b.limbs@[0] && a.limbs@[1] == b.limbs@[1] && a.limbs@[2]
                == b.limbs@[2] && a.limbs@[3] == b.limbs@[3]);
            assert(a.limbs =~= b.limbs);
        }
    }

    /// The integer that stands for `n`, where `n` is at most [`u256_max`].
    pub open spec fn from_nat(n: nat) -> U256 {
        let upper = n / 0x1_0000_0000_0000_0000nat;
        let top = upper / 0x1_0000_0000_0000_0000nat;
        U256 {
            limbs: [
                (n % 0x1_0000_0000_0000_0000nat) as u64,
                (upper % 0x1_0000_0000_0000_0000nat) as u64,
                (top % 0x1_0000_0000_0000_0000nat) as u64,
                (top / 0x1_0000_0000_0000_0000nat % 0x1_0000_0000_0000_0000nat) as u64,
            ],
        }
    }

    /// Every number up to [`u256_max`] has its integer.
    pub proof fn lemma_from_nat(n: nat)
        requires
            n <= u256_max(),
        ensures
            U256::from_nat(n)@ == n,
    {
        let base = 0x1_0000_0000_0000_0000nat;
        let upper = n / base;
        let top = upper / base;
        let last = top / base;
        let made = U256::from_nat(n);
        assert(n == upper * base + n % base);
        assert(upper == top * base + upper % base);
        assert(top == last * base + top % base);
        assert(last < base);
        assert(made.limbs@[0] == n % base);
        assert(made.limbs@[1] == upper % base);
        assert(made.limbs@[2] == top % base);
        assert(made.limbs@[3] == last);
    }

    /// Every integer is the integer of its number.
    pub proof fn lemma_from_view(a: U256)
        ensures
            U256::from_nat(a@) == a,
    {
        let base = 0x1_0000_0000_0000_0000nat;
        let n = a@;
        let upper = n / base;
        let top = upper / base;
        let last = top / base;
        let high = a.limbs@[1] as nat + a.limbs@[2] as nat * base + a.limbs@[3] as nat
            * 0x1_0000_0000_0000_0000_0000_0000_0000_0000nat;
        assert(n == high * base + a.limbs@[0]);
        assert(upper == high && n % base == a.limbs@[0]);
        let higher = a.limbs@[2] as nat + a.limbs@[3] as nat * base;
        assert(upper == higher * base + a.limbs@[1]);
        assert(top == higher && upper % base == a.limbs@[1]);
        assert(top == a.limbs@[3] as nat * base + a.limbs@[2]);
        assert(last == a.limbs@[3] && top % base == a.limbs@[2]);
        let back = U256::from_nat(n);
        assert(back.limbs@[0] == a.limbs@[0]);
        assert(back.limbs@[1] == a.limbs@[1]);
        assert(back.limbs@[2] == a.limbs@[2]);
        assert(back.limbs@[3] == a.limbs@[3]);
        assert(back.limbs =~= a.limbs);
    }

    /// The integer zero.
    pub fn zero() -> (n: U256)
        ensures
            n@ == 0,
    {
        U256 { limbs: [0, 0, 0, 0] }
    }

    /// The integer that equals `n`.
    pub fn from_u64(n: u64) -> (wide: U256)
        ensures
            wide@ == n,
    {
        U256 { limbs: [n, 0, 0, 0] }
    }

    /// The integer with the given limbs, least significant first.
    pub fn from_limbs(limbs: [u64; 4]) -> (n: U256)
        ensures
            n.limbs == limbs,
    {
        U256 { limbs }
    }

    /// Whether `self` is less than `other`.
    pub fn lt(&self, other: &U256) -> (less: bool)
        ensures
            less == (self@ < other@),
    {
        if self.limbs[3] != other.limbs[3] {
            self.limbs[3] < other.limbs[3]
        } else if self.limbs[2] != other.limbs[2] {
            self.limbs[2] < other.limbs[2]
        } else if self.limbs[1] != other.limbs[1] {
            self.limbs[1] < other.limbs[1]
        } else {
            self.limbs[0] < other.limbs[0]
        }
    }

    /// The integer as a `u64`, if it is small enough to be one.
    pub fn to_u64(&self) -> (small: Option<u64>)
        ensures
            small matches Some(n) ==> n == self@,
            small is Some <==> self@ <= u64::MAX,
    {
        if self.limbs[1] == 0 && self.limbs[2] == 0 && self.limbs[3] == 0 {
            Some(self.limbs[0])
        } else {
            None
        }
    }
}

/// `ruint::Uint::checked_add` at 256 bits: the sum of the two numbers, and
/// `None` exactly when the sum is above [`u256_max`].
#[verifier::external_body]
pub(crate) fn checked_add(a: &U256, b: &U256) -> (sum: Option<U256>)
    ensures
        sum matches Some(s) ==> s@ == a@ + b@,
        sum is Some <==> a@ + b@ <= u256_max(),
{
    let x = ruint::Uint::<256, 4>::from_limbs(a.limbs);
    let y = ruint::Uint::<256, 4>::from_limbs(b.limbs);
    match x.checked_add(y) {
        Some(s) => Some(U256 { limbs: s.into_limbs() }),
        None => None,
    }
}

/// `ruint::Uint::checked_sub` at 256 bits: the first number less the second,
/// and `None` exactly when the second is the larger.
#[verifier::external_body]
pub(crate) fn checked_sub(a: &U256, b: &U256) -> (difference: Option<U256>)
    ensures
        difference matches Some(d) ==> d@ == a@ - b@,
        difference is Some <==> b@ <= a@,
{
    let x = ruint::Uint::<256, 4>::from_limbs(a.limbs);
    let y = ruint::Uint::<256, 4>::from_limbs(b.limbs);
    match x.checked_sub(y) {
        Some(d) => Some(U256 { limbs: d.into_limbs() }),
        None => None,
    }
}

/// `ruint::Uint::checked_mul` at 256 bits: the product of the two numbers, and
/// `None` exactly when the product is above [`u256_max`].
#[verifier::external_body]
pub(crate) fn checked_mul(a: &U256, b: &U256) -> (product: Option<U256>)
    ensures
        product matches Some(p) ==> p@ == a@ * b@,
        product is Some <==> a@ * b@ <= u256_max(),
{
    let x = ruint::Uint::<256, 4>::from_limbs(a.limbs);
    let y = ruint::Uint::<256, 4>::from_limbs(b.limbs);
    match x.checked_mul(y) {
        Some(p) => Some(U256 { limbs: p.into_limbs() }),
        None => None,
    }
}

/// `ruint::Uint::checked_div` at 256 bits: the first number divided by the
/// second, rounded down, and `None` exactly when the second is zero.
#[verifier::external_body]
pub(crate) fn checked_div(a: &U256, b: &U256) -> (quotient: Option<U256>)
    ensures
        quotient matches Some(q) ==> b@ != 0 && q@ == a@ / b@,
        quotient is Some <==> b@ != 0,
{
    let x = ruint::Uint::<256, 4>::from_limbs(a.limbs);
    let y = ruint::Uint::<256, 4>::from_limbs(b.limbs);
    match x.checked_div(y) {
        Some(q) => Some(U256 { limbs: q.into_limbs() }),
        None => None,
    }
}

} // verus!
