//! Identifiers of requests and accounts.

use vstd::prelude::*;
use vstd::std_specs::cmp::PartialEqSpecImpl;

verus! {

/// A 256-bit identifier of an issue or replace request, as the chain assigns it.
#[derive(Clone, Copy, Debug, Eq)]
pub struct H256(pub [u8; 32]);

impl View for H256 {
    type V = Seq<u8>;

    open spec fn view(&self) -> Seq<u8> {
        self.0@
    }
}

impl PartialEq for H256 {
    fn eq(&self, other: &H256) -> (equal: bool) {
        let mut i: usize = 0;
        while i < 32
            invariant
                i <= 32,
                forall|j: int| 0 <= j < i ==> self.0[j] == other.0[j],
            decreases 32 - i,
        {
            if self.0[i] != other.0[i] {
                return false;
            }
            i += 1;
        }
        assert(self.0 =~= other.0);
        true
    }
}

impl PartialEqSpecImpl for H256 {
    open spec fn obeys_eq_spec() -> bool {
        true
    }

    open spec fn eq_spec(&self, other: &H256) -> bool {
        *self == *other
    }
}

impl H256 {
    /// Two identifiers are the same value exactly when their bytes agree.
    pub proof fn lemma_equal_iff_same_bytes(self, other: H256)
        ensures
            self == other <==> self@ == other@,
    {
        if self@ == other@ {
            assert(self.0 =~= other.0);
        }
    }

    /// Reads an identifier from exactly 32 bytes.
    pub fn from_slice(src: &[u8]) -> (id: H256)
        requires
            src@.len() == 32,
        ensures
            id@ == src@,
    {
        let mut bytes = [0u8; 32];
        let mut i: usize = 0;
        while i < 32
            invariant
                i <= 32,
                src@.len() == 32,
                forall|j: int| 0 <= j < i ==> bytes[j] == src@[j],
            decreases 32 - i,
        {
            bytes[i] = src[i];
            i += 1;
        }
        H256(bytes)
    }

    /// The identifier's 32 bytes.
    pub fn as_bytes(&self) -> (bytes: &[u8; 32])
        ensures
            bytes@ == self@,
    {
        &self.0
    }
}

/// The account of a vault: 32 bytes, as the chain encodes it.
#[derive(Clone, Copy, Debug, PartialEq, Eq)]
pub struct AccountId(pub [u8; 32]);

impl View for AccountId {
    type V = Seq<u8>;

    open spec fn view(&self) -> Seq<u8> {
        self.0@
    }
}

impl Default for AccountId {
    /// The account of 32 zero bytes.
    fn default() -> (account: AccountId)
        ensures
            account@ == Seq::new(32, |i: int| 0u8),
    {
        AccountId([0u8; 32])
    }
}

} // verus!
