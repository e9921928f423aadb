//! The ledger: a fixed-capacity account tree together with the account
//! table it commits to.
//!
//! The table and the tree agree at every index: the leaf at index `i`
//! is the fixed-width serialisation of account `i`. Registration,
//! balance updates and payments all preserve that agreement.

use crate::account::{
    default_account, leaf_bytes_of, AccountId, AccountInformation, AccountView, Amount,
};
use crate::bytes::{clone_bytes, views};
use crate::merkle::{
    leaf_digests, lemma_pow2_gt, lemma_pow2_increases, pow2, siblings_of, tree_root_of,
    MerkleConfig, SimpleMerkleTree, SimplePath,
};
use crate::sig::{schnorr_keygen, schnorr_verifies, schnorr_verify};
use crate::transaction::{tx_message, tx_message_of, Transaction, TransactionView};
use vstd::pervasive::VecAdditionalExecFns;
use vstd::prelude::*;

verus! {

/// Whether `n` is a power of two.
pub open spec fn is_pow2(n: nat) -> bool {
    exists|k: nat| pow2(k) == n
}

/// The ledger parameters: the hash families and the signature scheme.
/// In this crate those are fixed, so the value carries no data; it
/// marks call sites that depend on them.
#[derive(Clone, Copy, PartialEq, Eq, Structural, Debug)]
pub struct Parameters {}

impl Parameters {
    /// The one parameter set this crate works with.
    pub fn sample() -> (r: Parameters) {
        Parameters {}
    }
}

/// The mathematical content of a ledger state.
pub struct StateView {
    pub accounts: Seq<AccountView>,
    pub next_id: int,
    pub height: nat,
}

/// The serialised leaves a state's accounts commit to.
pub open spec fn leaves_of(v: StateView) -> Seq<Seq<u8>> {
    v.accounts.map_values(|a: AccountView| leaf_bytes_of(a))
}

/// The Merkle root a state's accounts commit to.
pub open spec fn root_of_view(v: StateView) -> Seq<u8> {
    tree_root_of(leaves_of(v))
}

/// The shape every reachable state view has: the registered prefix
/// lies within the account table.
pub open spec fn view_wf(v: StateView) -> bool {
    0 <= v.next_id <= v.accounts.len()
}

/// Whether `id` names a registered account.
pub open spec fn registered_in(v: StateView, id: AccountId) -> bool {
    (id.0 as int) < v.next_id
}

/// The account registered under `id`.
pub open spec fn account_in(v: StateView, id: AccountId) -> AccountView {
    v.accounts[id.0 as int]
}

/// Native validity of a payment against a state: both parties
/// registered, the signature valid on the canonical message under the
/// sender's stored key, the sender's balance sufficient, and the
/// recipient's balance not pushed past the amount width. For a
/// self-payment the recipient balance is read after the debit, so the
/// credit can never overflow.
pub open spec fn tx_valid_view(v: StateView, tx: TransactionView) -> bool {
    &&& registered_in(v, tx.sender)
    &&& registered_in(v, tx.recipient)
    &&& schnorr_verifies(
        account_in(v, tx.sender).public_key,
        tx_message_of(
            account_in(v, tx.sender).public_key,
            account_in(v, tx.recipient).public_key,
            tx.amount,
        ),
        tx.signature,
    )
    &&& tx.amount <= account_in(v, tx.sender).balance
    &&& (if tx.sender == tx.recipient {
        account_in(v, tx.sender).balance - tx.amount
    } else {
        account_in(v, tx.recipient).balance as int
    }) + tx.amount <= u64::MAX
}

/// The state a valid payment moves the ledger to: the sender debited,
/// then the recipient credited. An invalid payment leaves the state as
/// it is.
pub open spec fn apply_tx_view(v: StateView, tx: TransactionView) -> StateView {
    if !tx_valid_view(v, tx) {
        v
    } else {
        let s = tx.sender.0 as int;
        let r = tx.recipient.0 as int;
        let sa = v.accounts[s];
        let a1 = v.accounts.update(
            s,
            (AccountView { public_key: sa.public_key, balance: (sa.balance - tx.amount) as u64 }),
        );
        let ra = a1[r];
        let a2 = a1.update(
            r,
            (AccountView { public_key: ra.public_key, balance: (ra.balance + tx.amount) as u64 }),
        );
        StateView { accounts: a2, next_id: v.next_id, height: v.height }
    }
}

/// A ledger state: the account tree, the account table it commits to,
/// and the next free account index.
#[derive(Clone, Debug)]
pub struct State {
    pub account_merkle_tree: SimpleMerkleTree,
    pub id_to_account_info: Vec<AccountInformation>,
    pub next_id: usize,
}

impl View for State {
    type V = StateView;

    open spec fn view(&self) -> StateView {
        StateView {
            accounts: self.id_to_account_info@.map_values(|a: AccountInformation| a@),
            next_id: self.next_id as int,
            height: self.account_merkle_tree.config.height as nat,
        }
    }
}

impl State {
    /// Table and tree agree leaf by leaf; slots past `next_id` still
    /// hold the all-zero account.
    pub open spec fn wf(self) -> bool {
        &&& self.account_merkle_tree.wf()
        &&& self.id_to_account_info@.len() == self.account_merkle_tree.leaves@.len()
        &&& self.next_id <= self.id_to_account_info@.len()
        &&& (forall|i: int|
            0 <= i < self.id_to_account_info@.len() ==> (#[trigger] self.id_to_account_info@[i]).wf())
        &&& (forall|i: int|
            0 <= i < self.id_to_account_info@.len() ==> self.account_merkle_tree.leaves_view()[i]
                == leaf_bytes_of((#[trigger] self.id_to_account_info@[i])@))
        &&& (forall|i: int|
            self.next_id <= i < self.id_to_account_info@.len()
                ==> (#[trigger] self.id_to_account_info@[i]).is_default())
    }

    /// A fresh ledger over `num_accounts` all-zero accounts; refused
    /// unless the capacity is a power of two, the shape the tree needs.
    pub fn new(num_accounts: usize, pp: &Parameters) -> (r: Option<State>)
        ensures
            r is Some <==> is_pow2(num_accounts as nat),
            match r {
                Some(s) => s.wf() && s@.accounts.len() == num_accounts && s@.next_id == 0,
                None => true,
            },
    {
        let mut h: usize = 0;
        let mut c: usize = 1;
        while c < num_accounts
            invariant
                c == pow2(h as nat),
                1 <= c,
                h < c || h == 0,
                h == 0 || pow2((h - 1) as nat) < num_accounts,
            decreases 2 * num_accounts - c,
        {
            proof {
                lemma_pow2_gt(h as nat);
            }
            if c > usize::MAX / 2 {
                proof {
                    assert forall|k: nat| pow2(k) != num_accounts as nat by {
                        if k <= h as nat {
                            lemma_pow2_increases(k, h as nat);
                        } else {
                            assert(pow2((h + 1) as nat) == 2 * pow2(h as nat));
                            lemma_pow2_increases((h + 1) as nat, k);
                        }
                    }
                }
                return None;
            }
            c = c * 2;
            h = h + 1;
        }
        if c != num_accounts {
            proof {
                assert forall|k: nat| pow2(k) != num_accounts as nat by {
                    if k < h as nat {
                        lemma_pow2_increases(k, (h - 1) as nat);
                    } else {
                        lemma_pow2_increases(h as nat, k);
                    }
                }
            }
            return None;
        }
        let mut accounts: Vec<AccountInformation> = Vec::new();
        let mut leaves: Vec<Vec<u8>> = Vec::new();
        let mut i: usize = 0;
        while i < num_accounts
            invariant
                i <= num_accounts,
                accounts@.len() == i,
                leaves@.len() == i,
                forall|j: int|
                    0 <= j < i ==> (#[trigger] accounts@[j]).is_default() && accounts@[j].wf(),
                forall|j: int| 0 <= j < i ==> leaves@[j]@ == leaf_bytes_of(accounts@[j]@),
            decreases num_accounts - i,
        {
            let a = default_account();
            leaves.push(a.to_bytes_le());
            accounts.push(a);
            i = i + 1;
        }
        let config = MerkleConfig { height: h };
        let tree = match SimpleMerkleTree::new(config, leaves) {
            Some(t) => t,
            None => {
                proof {
                    assert(false);
                }
                return None;
            },
        };
        let state = State { account_merkle_tree: tree, id_to_account_info: accounts, next_id: 0 };
        proof {
            assert(pow2(h as nat) == num_accounts as nat);
            assert(is_pow2(num_accounts as nat));
        }
        Some(state)
    }

    /// The root of the account tree.
    pub fn root(&self) -> (r: Vec<u8>)
        requires
            self.wf(),
        ensures
            r@ == root_of_view(self@),
    {
        proof {
            assert(self.account_merkle_tree.leaves_view() =~= leaves_of(self@));
        }
        self.account_merkle_tree.root()
    }

    /// A copy of the account registered under `id`.
    pub fn account_info(&self, id: AccountId) -> (r: Option<AccountInformation>)
        requires
            self.wf(),
        ensures
            match r {
                Some(a) => registered_in(self@, id) && a@ == account_in(self@, id) && a.wf(),
                None => !registered_in(self@, id),
            },
    {
        if id.0 >= self.next_id as u64 {
            return None;
        }
        let idx = id.0 as usize;
        let a = &self.id_to_account_info[idx];
        Some(AccountInformation { public_key: clone_bytes(&a.public_key), balance: a.balance })
    }

    /// The authentication path of a registered account's leaf against
    /// the current root.
    pub fn account_proof(&self, id: AccountId) -> (r: Option<SimplePath>)
        requires
            self.wf(),
        ensures
            match r {
                Some(p) => {
                    &&& registered_in(self@, id)
                    &&& p.index as int == id.0 as int
                    &&& p.siblings@.len() == self@.height
                    &&& views(p.siblings@) == siblings_of(
                        leaf_digests(leaves_of(self@)),
                        id.0 as nat,
                    )
                    &&& p.checks(root_of_view(self@), leaf_bytes_of(account_in(self@, id)))
                },
                None => !registered_in(self@, id),
            },
    {
        if id.0 >= self.next_id as u64 {
            return None;
        }
        let idx = id.0 as usize;
        proof {
            assert(self.account_merkle_tree.leaves_view() =~= leaves_of(self@));
        }
        match self.account_merkle_tree.generate_proof(idx) {
            Some(p) => Some(p),
            None => {
                proof {
                    assert(false);
                }
                None
            },
        }
    }

    /// Registers the next free account with a fresh keypair at balance
    /// zero and rehashes its leaf; returns the new index and the
    /// serialised public and secret key. Refused when the tree is
    /// full.
    pub fn sample_keys_and_register(&mut self, pp: &Parameters, seed: u64) -> (r: Option<
        (AccountId, Vec<u8>, Vec<u8>),
    >)
        requires
            old(self).wf(),
        ensures
            final(self).wf(),
            match r {
                Some(t) => {
                    &&& (old(self).next_id as int) < old(self)@.accounts.len()
                    &&& t.0.0 == old(self).next_id as u64
                    &&& t.1@.len() == 32
                    &&& t.2@.len() == 32
                    &&& final(self)@ == (StateView {
                        accounts: old(self)@.accounts.update(
                            t.0.0 as int,
                            (AccountView { public_key: t.1@, balance: 0 }),
                        ),
                        next_id: old(self)@.next_id + 1,
                        height: old(self)@.height,
                    })
                },
                None => {
                    &&& old(self).next_id as int == old(self)@.accounts.len()
                    &&& *final(self) == *old(self)
                },
            },
    {
        if self.next_id >= self.id_to_account_info.len() {
            return None;
        }
        let (pk, sk) = schnorr_keygen(seed);
        let id = self.next_id;
        let info = AccountInformation { public_key: clone_bytes(&pk), balance: Amount(0) };
        let leaf = info.to_bytes_le();
        self.id_to_account_info.set(id, info);
        self.account_merkle_tree.update(id, leaf);
        self.next_id = id + 1;
        proof {
            assert(views(self.account_merkle_tree.leaves@) =~= views(
                old(self).account_merkle_tree.leaves@,
            ).update(id as int, leaf_bytes_of((AccountView { public_key: pk@, balance: 0 }))));
            assert(self@.accounts =~= old(self)@.accounts.update(
                id as int,
                (AccountView { public_key: pk@, balance: 0 }),
            ));
        }
        Some((AccountId(id as u64), pk, sk))
    }

    /// Sets the balance of a registered account and rehashes its leaf.
    pub fn update_balance(&mut self, id: AccountId, new_balance: Amount) -> (r: Option<()>)
        requires
            old(self).wf(),
        ensures
            final(self).wf(),
            match r {
                Some(_) => registered_in(old(self)@, id) && final(self)@ == (StateView {
                    accounts: old(self)@.accounts.update(
                        id.0 as int,
                        (AccountView {
                            public_key: account_in(old(self)@, id).public_key,
                            balance: new_balance.0,
                        }),
                    ),
                    next_id: old(self)@.next_id,
                    height: old(self)@.height,
                }),
                None => !registered_in(old(self)@, id) && *final(self) == *old(self),
            },
    {
        if id.0 >= self.next_id as u64 {
            return None;
        }
        let idx = id.0 as usize;
        let pk = clone_bytes(&self.id_to_account_info[idx].public_key);
        let info = AccountInformation { public_key: pk, balance: new_balance };
        let leaf = info.to_bytes_le();
        self.id_to_account_info.set(idx, info);
        self.account_merkle_tree.update(idx, leaf);
        proof {
            assert(views(self.account_merkle_tree.leaves@) =~= views(
                old(self).account_merkle_tree.leaves@,
            ).update(idx as int, leaf_bytes_of(self.id_to_account_info@[idx as int]@)));
            assert(self@.accounts =~= old(self)@.accounts.update(
                idx as int,
                self.id_to_account_info@[idx as int]@,
            ));
        }
        Some(())
    }

    /// Applies a payment atomically: on a valid transaction both
    /// parties' balances and leaves change and the call succeeds; on an
    /// invalid one nothing changes and the call is refused.
    pub fn apply_transaction(&mut self, pp: &Parameters, tx: &Transaction) -> (r: Option<()>)
        requires
            old(self).wf(),
        ensures
            final(self).wf(),
            final(self)@ == apply_tx_view(old(self)@, tx@),
            r is Some <==> tx_valid_view(old(self)@, tx@),
    {
        if tx.sender.0 >= self.next_id as u64 || tx.recipient.0 >= self.next_id as u64 {
            return None;
        }
        let s_idx = tx.sender.0 as usize;
        let r_idx = tx.recipient.0 as usize;
        let msg = tx_message(
            &self.id_to_account_info[s_idx].public_key,
            &self.id_to_account_info[r_idx].public_key,
            tx.amount,
        );
        if !schnorr_verify(&self.id_to_account_info[s_idx].public_key, &msg, &tx.signature) {
            return None;
        }
        let sender_after = match self.id_to_account_info[s_idx].balance.checked_sub(tx.amount) {
            Some(b) => b,
            None => {
                return None;
            },
        };
        let recipient_before = if s_idx == r_idx {
            sender_after
        } else {
            self.id_to_account_info[r_idx].balance
        };
        let recipient_after = match recipient_before.checked_add(tx.amount) {
            Some(b) => b,
            None => {
                return None;
            },
        };
        let sender_pk = clone_bytes(&self.id_to_account_info[s_idx].public_key);
        let sender_info = AccountInformation { public_key: sender_pk, balance: sender_after };
        let sender_leaf = sender_info.to_bytes_le();
        self.id_to_account_info.set(s_idx, sender_info);
        self.account_merkle_tree.update(s_idx, sender_leaf);
        let recipient_pk = clone_bytes(&self.id_to_account_info[r_idx].public_key);
        let recipient_info = AccountInformation {
            public_key: recipient_pk,
            balance: recipient_after,
        };
        let recipient_leaf = recipient_info.to_bytes_le();
        self.id_to_account_info.set(r_idx, recipient_info);
        self.account_merkle_tree.update(r_idx, recipient_leaf);
        proof {
            let v0 = old(self)@;
            let applied = apply_tx_view(v0, tx@);
            assert(tx_valid_view(v0, tx@));
            assert(self@.accounts =~= applied.accounts);
            assert(views(self.account_merkle_tree.leaves@) =~= self@.accounts.map_values(
                |a: AccountView| leaf_bytes_of(a),
            ));
        }
        Some(())
    }
}

} // verus!
