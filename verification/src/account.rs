//! Accounts of the ledger: identifiers, amounts, and the information
//! stored in each leaf of the account tree.

use crate::bytes::{append_bytes, clone_bytes};
use vstd::bytes::{spec_u64_to_le_bytes, u64_to_le_bytes};
use vstd::prelude::*;

verus! {

/// The index of an account in the account tree.
#[derive(Clone, Copy, PartialEq, Eq, Structural, Debug, Hash)]
pub struct AccountId(pub u64);

/// A non-negative amount of currency of fixed 64-bit width. Arithmetic
/// on amounts never wraps: sums and differences that leave the width
/// are rejected.
#[derive(Clone, Copy, PartialEq, Eq, Structural, Debug, Hash)]
pub struct Amount(pub u64);

impl Amount {
    /// The sum, unless it overflows the width.
    pub fn checked_add(self, other: Amount) -> (r: Option<Amount>)
        ensures
            self.0 + other.0 <= u64::MAX ==> r == Some(Amount((self.0 + other.0) as u64)),
            self.0 + other.0 > u64::MAX ==> r is None,
    {
        match self.0.checked_add(other.0) {
            Some(v) => Some(Amount(v)),
            None => None,
        }
    }

    /// The difference, unless it underflows below zero.
    pub fn checked_sub(self, other: Amount) -> (r: Option<Amount>)
        ensures
            other.0 <= self.0 ==> r == Some(Amount((self.0 - other.0) as u64)),
            other.0 > self.0 ==> r is None,
    {
        match self.0.checked_sub(other.0) {
            Some(v) => Some(Amount(v)),
            None => None,
        }
    }
}

/// The mathematical content of one account: its public-key bytes and
/// its balance.
pub struct AccountView {
    pub public_key: Seq<u8>,
    pub balance: u64,
}

/// The payload of one leaf of the account tree: a signature public key
/// and a balance.
#[derive(Clone, Debug)]
pub struct AccountInformation {
    pub public_key: Vec<u8>,
    pub balance: Amount,
}

impl View for AccountInformation {
    type V = AccountView;

    open spec fn view(&self) -> AccountView {
        AccountView { public_key: self.public_key@, balance: self.balance.0 }
    }
}

/// The fixed-width serialisation of an account: its 32 key bytes, then
/// its balance in eight little-endian bytes.
pub open spec fn leaf_bytes_of(a: AccountView) -> Seq<u8> {
    a.public_key + spec_u64_to_le_bytes(a.balance)
}

impl AccountInformation {
    /// The key has the scheme's fixed serialised width, so every
    /// account serialises to the same leaf length.
    pub open spec fn wf(self) -> bool {
        self.public_key@.len() == 32
    }

    /// The all-zero account that every slot of a fresh ledger holds.
    pub open spec fn is_default(self) -> bool {
        self@.public_key == Seq::new(32, |i: int| 0u8) && self@.balance == 0
    }

    /// Serialises the account to its fixed-width leaf bytes.
    pub fn to_bytes_le(&self) -> (r: Vec<u8>)
        ensures
            r@ == leaf_bytes_of(self@),
    {
        let mut out = clone_bytes(&self.public_key);
        let amt = u64_to_le_bytes(self.balance.0);
        append_bytes(&mut out, &amt);
        out
    }
}

/// The account every slot starts from: an all-zero key and balance 0.
pub fn default_account() -> (r: AccountInformation)
    ensures
        r.is_default(),
        r.wf(),
{
    let mut pk: Vec<u8> = Vec::new();
    let mut i: usize = 0;
    while i < 32
        invariant
            i <= 32,
            pk@ =~= Seq::new(i as nat, |j: int| 0u8),
        decreases 32 - i,
    {
        pk.push(0u8);
        i = i + 1;
    }
    proof {
        assert(pk@ =~= Seq::new(32, |j: int| 0u8));
    }
    AccountInformation { public_key: pk, balance: Amount(0) }
}

} // verus!
