//! Fixed-size byte strings: hashes, account addresses and header nonces.

use vstd::prelude::*;

verus! {

/// Whether two byte arrays of the same length hold the same bytes.
fn bytes_equal<const N: usize>(a: &[u8; N], b: &[u8; N]) -> (same: bool)
    ensures
        same == (a@ == b@),
{
    let mut i: usize = 0;
    while i < N
        invariant
            i <= N,
            forall|j: int| 0 <= j < i ==> a@[j] == b@[j],
        decreases N - i,
    {
        if a[i] != b[i] {
            return false;
        }
        i += 1;
    }
    assert(a@ =~= b@);
    true
}

/// A 256-bit hash.
#[derive(Clone, Copy, Debug, Eq, Hash)]
pub struct B256(pub [u8; 32]);

impl View for B256 {
    type V = Seq<u8>;

    open spec fn view(&self) -> Seq<u8> {
        self.0@
    }
}

impl PartialEq for B256 {
    fn eq(&self, other: &B256) -> (same: bool) {
        proof {
            B256::lemma_view_injective(*self, *other);
        }
        bytes_equal(&self.0, &other.0)
    }
}

impl vstd::std_specs::cmp::PartialEqSpecImpl for B256 {
    open spec fn obeys_eq_spec() -> bool {
        true
    }

    open spec fn eq_spec(&self, other: &B256) -> bool {
        *self == *other
    }
}

impl B256 {
    /// Two hashes with the same bytes are the same hash.
    pub proof fn lemma_view_injective(a: B256, b: B256)
        ensures
            (a@ == b@) <==> (a == b),
    {
        if a@ == b@ {
            assert(a.0 =~= b.0);
        }
    }

    /// The hash whose bytes are all zero.
    pub open spec fn spec_zero() -> B256 {
        B256(
            [
                0u8, 0u8, 0u8, 0u8, 0u8, 0u8, 0u8, 0u8,
                0u8, 0u8, 0u8, 0u8, 0u8, 0u8, 0u8, 0u8,
                0u8, 0u8, 0u8, 0u8, 0u8, 0u8, 0u8, 0u8,
                0u8, 0u8, 0u8, 0u8, 0u8, 0u8, 0u8, 0u8,
            ],
        )
    }

    /// The hash whose bytes are all zero.
    #[verifier::when_used_as_spec(spec_zero)]
    pub fn zero() -> (hash: B256)
        ensures
            hash == B256::spec_zero(),
    {
        B256(
            [
                0, 0, 0, 0, 0, 0, 0, 0,
                0, 0, 0, 0, 0, 0, 0, 0,
                0, 0, 0, 0, 0, 0, 0, 0,
                0, 0, 0, 0, 0, 0, 0, 0,
            ],
        )
    }
}

/// The address of an account: 160 bits.
#[derive(Clone, Copy, Debug, Eq, Hash)]
pub struct Address(pub [u8; 20]);

impl View for Address {
    type V = Seq<u8>;

    open spec fn view(&self) -> Seq<u8> {
        self.0@
    }
}

impl PartialEq for Address {
    fn eq(&self, other: &Address) -> (same: bool) {
        proof {
            Address::lemma_view_injective(*self, *other);
        }
        bytes_equal(&self.0, &other.0)
    }
}

impl vstd::std_specs::cmp::PartialEqSpecImpl for Address {
    open spec fn obeys_eq_spec() -> bool {
        true
    }

    open spec fn eq_spec(&self, other: &Address) -> bool {
        *self == *other
    }
}

impl Address {
    /// Two addresses with the same bytes are the same address.
    pub proof fn lemma_view_injective(a: Address, b: Address)
        ensures
            (a@ == b@) <==> (a == b),
    {
        if a@ == b@ {
            assert(a.0 =~= b.0);
        }
    }

    /// The address whose bytes are all zero.
    pub open spec fn spec_zero() -> Address {
        Address(
            [
                0u8, 0u8, 0u8, 0u8, 0u8, 0u8, 0u8, 0u8, 0u8, 0u8,
                0u8, 0u8, 0u8, 0u8, 0u8, 0u8, 0u8, 0u8, 0u8, 0u8,
            ],
        )
    }

    /// The address whose bytes are all zero.
    #[verifier::when_used_as_spec(spec_zero)]
    pub fn zero() -> (address: Address)
        ensures
            address == Address::spec_zero(),
    {
        Address([0, 0, 0, 0, 0, 0, 0, 0, 0, 0, 0, 0, 0, 0, 0, 0, 0, 0, 0, 0])
    }
}

/// The 64-bit nonce of a block header, most significant byte first.
#[derive(Clone, Copy, Debug, Eq, Hash)]
pub struct B64(pub [u8; 8]);

impl View for B64 {
    type V = Seq<u8>;

    open spec fn view(&self) -> Seq<u8> {
        self.0@
    }
}

impl PartialEq for B64 {
    fn eq(&self, other: &B64) -> (same: bool) {
        proof {
            B64::lemma_view_injective(*self, *other);
        }
        bytes_equal(&self.0, &other.0)
    }
}

impl vstd::std_specs::cmp::PartialEqSpecImpl for B64 {
    open spec fn obeys_eq_spec() -> bool {
        true
    }

    open spec fn eq_spec(&self, other: &B64) -> bool {
        *self == *other
    }
}

impl B64 {
    /// Two nonces with the same bytes are the same nonce.
    pub proof fn lemma_view_injective(a: B64, b: B64)
        ensures
            (a@ == b@) <==> (a == b),
    {
        if a@ == b@ {
            assert(a.0 =~= b.0);
        }
    }

    /// The nonce of a block sealed without proof of work: eight zero bytes.
    pub open spec fn spec_zero() -> B64 {
        B64([0u8, 0u8, 0u8, 0u8, 0u8, 0u8, 0u8, 0u8])
    }

    /// The nonce of a block sealed without proof of work: eight zero bytes.
    #[verifier::when_used_as_spec(spec_zero)]
    pub fn zero() -> (nonce: B64)
        ensures
            nonce == B64::spec_zero(),
    {
        B64([0, 0, 0, 0, 0, 0, 0, 0])
    }

    /// The nonce that this node writes into a proof-of-work header: the
    /// number 42.
    pub open spec fn spec_legacy() -> B64 {
        B64([0u8, 0u8, 0u8, 0u8, 0u8, 0u8, 0u8, 42u8])
    }

    /// The nonce that this node writes into a proof-of-work header: the
    /// number 42.
    #[verifier::when_used_as_spec(spec_legacy)]
    pub fn legacy() -> (nonce: B64)
        ensures
            nonce == B64::spec_legacy(),
    {
        B64([0, 0, 0, 0, 0, 0, 0, 42])
    }
}

} // verus!
