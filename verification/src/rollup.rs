//! The rollup circuit: a fixed-length batch of signed payments carries
//! the ledger from a public initial root to a public final root.
//!
//! Per transaction the relation re-checks both parties' membership
//! against the pre-state root, the sender's signature, the balance
//! arithmetic (underflow and overflow rejected), and both parties'
//! updated leaves against the post-state root; the batch chains the
//! per-transaction roots from the initial to the final root.

use crate::account::{leaf_bytes_of, AccountInformation, AccountView};
use crate::bytes::{bytes_eq, clone_bytes, views};
use crate::ledger::{
    account_in, apply_tx_view, registered_in, root_of_view, tx_valid_view, view_wf, Parameters,
    State, StateView,
};
use crate::ledger::leaves_of;
use crate::merkle::{leaf_digests, siblings_of, SimplePath};
use crate::sig::{schnorr_verifies, schnorr_verify};
use crate::transaction::{tx_message, tx_message_of, Transaction, TransactionView};
use crate::SynthesisError;
use vstd::prelude::*;

verus! {

/// The relation enforced for one transaction of the batch: membership
/// of both parties' pre-state leaves under the pre-root, a valid
/// signature on the canonical message under the sender's witnessed
/// key, width-checked balance arithmetic, and membership of both
/// parties' updated leaves under the post-root.
pub open spec fn validate_tx_spec(
    tx: TransactionView,
    sender_info: AccountView,
    recipient_info: AccountView,
    sender_pre_path: SimplePath,
    sender_post_path: SimplePath,
    recipient_pre_path: SimplePath,
    recipient_post_path: SimplePath,
    pre_root: Seq<u8>,
    post_root: Seq<u8>,
) -> bool {
    &&& sender_pre_path.checks(pre_root, leaf_bytes_of(sender_info))
    &&& recipient_pre_path.checks(pre_root, leaf_bytes_of(recipient_info))
    &&& schnorr_verifies(
        sender_info.public_key,
        tx_message_of(sender_info.public_key, recipient_info.public_key, tx.amount),
        tx.signature,
    )
    &&& tx.amount <= sender_info.balance
    &&& recipient_info.balance + tx.amount <= u64::MAX
    &&& sender_post_path.checks(
        post_root,
        leaf_bytes_of(
            (AccountView {
                public_key: sender_info.public_key,
                balance: (sender_info.balance - tx.amount) as u64,
            }),
        ),
    )
    &&& recipient_post_path.checks(
        post_root,
        leaf_bytes_of(
            (AccountView {
                public_key: recipient_info.public_key,
                balance: (recipient_info.balance + tx.amount) as u64,
            }),
        ),
    )
}

/// Evaluates the per-transaction relation on concrete witnesses.
pub fn validate_tx(
    tx: &Transaction,
    sender_info: &AccountInformation,
    recipient_info: &AccountInformation,
    sender_pre_path: &SimplePath,
    sender_post_path: &SimplePath,
    recipient_pre_path: &SimplePath,
    recipient_post_path: &SimplePath,
    pre_root: &Vec<u8>,
    post_root: &Vec<u8>,
) -> (r: bool)
    ensures
        r == validate_tx_spec(
            tx@,
            sender_info@,
            recipient_info@,
            *sender_pre_path,
            *sender_post_path,
            *recipient_pre_path,
            *recipient_post_path,
            pre_root@,
            post_root@,
        ),
{
    let sender_leaf = sender_info.to_bytes_le();
    let t1 = sender_pre_path.verify(pre_root, &sender_leaf);
    let recipient_leaf = recipient_info.to_bytes_le();
    let t2 = recipient_pre_path.verify(pre_root, &recipient_leaf);
    let msg = tx_message(&sender_info.public_key, &recipient_info.public_key, tx.amount);
    let t3 = schnorr_verify(&sender_info.public_key, &msg, &tx.signature);
    let new_sender_balance = match sender_info.balance.checked_sub(tx.amount) {
        Some(b) => b,
        None => {
            return false;
        },
    };
    let new_recipient_balance = match recipient_info.balance.checked_add(tx.amount) {
        Some(b) => b,
        None => {
            return false;
        },
    };
    let post_sender = AccountInformation {
        public_key: clone_bytes(&sender_info.public_key),
        balance: new_sender_balance,
    };
    let post_recipient = AccountInformation {
        public_key: clone_bytes(&recipient_info.public_key),
        balance: new_recipient_balance,
    };
    let post_sender_leaf = post_sender.to_bytes_le();
    let t5 = sender_post_path.verify(post_root, &post_sender_leaf);
    let post_recipient_leaf = post_recipient.to_bytes_le();
    let t6 = recipient_post_path.verify(post_root, &post_recipient_leaf);
    t1 && t2 && t3 && t5 && t6
}

/// The ledger states a batch passes through: `states_after(v, txs, i)`
/// is the state before transaction `i`, each valid transaction applied
/// in batch order and invalid ones leaving the state as it is.
pub open spec fn states_after(v: StateView, txs: Seq<TransactionView>, n: int) -> StateView
    decreases n,
{
    if n <= 0 {
        v
    } else {
        apply_tx_view(states_after(v, txs, n - 1), txs[n - 1])
    }
}

/// Applying a batch never changes the registered count, the account
/// count or the tree height.
pub proof fn lemma_states_after_shape(v: StateView, txs: Seq<TransactionView>, n: int)
    requires
        view_wf(v),
    ensures
        view_wf(states_after(v, txs, n)),
        states_after(v, txs, n).next_id == v.next_id,
        states_after(v, txs, n).accounts.len() == v.accounts.len(),
        states_after(v, txs, n).height == v.height,
    decreases n,
{
    if n > 0 {
        lemma_states_after_shape(v, txs, n - 1);
        let vp = states_after(v, txs, n - 1);
        let tx = txs[n - 1];
        if tx_valid_view(vp, tx) {
            let s = tx.sender.0 as int;
            let sa = vp.accounts[s];
            let a1 = vp.accounts.update(
                s,
                (AccountView { public_key: sa.public_key, balance: (sa.balance - tx.amount) as u64 }),
            );
            assert(a1.len() == vp.accounts.len());
            assert(apply_tx_view(vp, tx).accounts.len() == a1.len());
        }
    }
}

/// When the witness builder succeeds: with pre-validation on, every
/// transaction must be valid both against the initial state and
/// against the state it is actually applied to; without, every party
/// must merely be registered.
pub open spec fn batch_ok(
    v: StateView,
    txs: Seq<TransactionView>,
    n: int,
    validate_transactions: bool,
) -> bool {
    if validate_transactions {
        &&& (forall|i: int| 0 <= i < n ==> tx_valid_view(v, #[trigger] txs[i]))
        &&& (forall|i: int|
            0 <= i < n ==> tx_valid_view(states_after(v, txs, i), #[trigger] txs[i]))
    } else {
        forall|i: int|
            0 <= i < n ==> registered_in(v, (#[trigger] txs[i]).sender) && registered_in(
                v,
                txs[i].recipient,
            )
    }
}

/// The facts the witness builder records around transaction `i` of a
/// batch replayed from `v0`: the two roots are the roots of the state
/// before and after the transaction, the two infos are the parties'
/// accounts before it, and the four paths are the account tree's
/// authentication paths for the parties at those two states.
pub open spec fn built_step(
    v0: StateView,
    txs: Seq<TransactionView>,
    i: int,
    spre: (AccountInformation, SimplePath),
    rpre: (AccountInformation, SimplePath),
    spost: SimplePath,
    rpost: SimplePath,
    pre_root: Seq<u8>,
    post_root: Seq<u8>,
) -> bool {
    let vi = states_after(v0, txs, i);
    let vi1 = states_after(v0, txs, i + 1);
    let tx = txs[i];
    &&& pre_root == root_of_view(vi)
    &&& post_root == root_of_view(vi1)
    &&& spre.0@ == account_in(vi, tx.sender)
    &&& rpre.0@ == account_in(vi, tx.recipient)
    &&& spre.1.index as int == tx.sender.0 as int
    &&& rpre.1.index as int == tx.recipient.0 as int
    &&& spost.index as int == tx.sender.0 as int
    &&& rpost.index as int == tx.recipient.0 as int
    &&& views(spre.1.siblings@) == siblings_of(leaf_digests(leaves_of(vi)), tx.sender.0 as nat)
    &&& views(rpre.1.siblings@) == siblings_of(leaf_digests(leaves_of(vi)), tx.recipient.0 as nat)
    &&& views(spost.siblings@) == siblings_of(leaf_digests(leaves_of(vi1)), tx.sender.0 as nat)
    &&& views(rpost.siblings@) == siblings_of(leaf_digests(leaves_of(vi1)), tx.recipient.0 as nat)
    &&& spre.1.checks(root_of_view(vi), leaf_bytes_of(account_in(vi, tx.sender)))
    &&& rpre.1.checks(root_of_view(vi), leaf_bytes_of(account_in(vi, tx.recipient)))
    &&& spost.checks(root_of_view(vi1), leaf_bytes_of(account_in(vi1, tx.sender)))
    &&& rpost.checks(root_of_view(vi1), leaf_bytes_of(account_in(vi1, tx.recipient)))
}

/// With pre-validation on, a batch holding a transaction whose amount
/// exceeds its sender's starting balance can never be accepted by the
/// witness builder.
pub proof fn lemma_insufficient_balance_refused(
    v0: StateView,
    txs: Seq<TransactionView>,
    n: int,
    i: int,
)
    requires
        0 <= i < n,
        txs[i].amount > account_in(v0, txs[i].sender).balance,
    ensures
        !batch_ok(v0, txs, n, true),
{
    assert(!tx_valid_view(v0, txs[i]));
}

/// The rollup relation for a batch of `NUM_TX` transactions. The two
/// roots are public inputs; everything else is witness, absent until a
/// prover assigns it.
pub struct Rollup<const NUM_TX: usize> {
    /// The ledger parameters.
    pub ledger_params: Parameters,
    /// The root before the batch.
    pub initial_root: Option<Vec<u8>>,
    /// The root after the batch.
    pub final_root: Option<Vec<u8>>,
    /// The batch, in application order.
    pub transactions: Option<Vec<Transaction>>,
    /// Per transaction: the sender's account before it, with the
    /// sender's path under the pre-transaction root.
    pub sender_pre_tx_info_and_paths: Option<Vec<(AccountInformation, SimplePath)>>,
    /// Per transaction: the sender's path under the post-transaction
    /// root.
    pub sender_post_paths: Option<Vec<SimplePath>>,
    /// Per transaction: the recipient's account before it, with the
    /// recipient's path under the pre-transaction root.
    pub recv_pre_tx_info_and_paths: Option<Vec<(AccountInformation, SimplePath)>>,
    /// Per transaction: the recipient's path under the
    /// post-transaction root.
    pub recv_post_paths: Option<Vec<SimplePath>>,
    /// Per transaction: the root before it; the first equals
    /// `initial_root`.
    pub pre_tx_roots: Option<Vec<Vec<u8>>>,
    /// Per transaction: the root after it; the last equals
    /// `final_root`.
    pub post_tx_roots: Option<Vec<Vec<u8>>>,
}

impl<const NUM_TX: usize> Rollup<NUM_TX> {
    /// Whether every witness the relation reads is assigned.
    pub open spec fn witness_complete(self) -> bool {
        &&& self.initial_root is Some
        &&& self.final_root is Some
        &&& self.transactions is Some
        &&& self.sender_pre_tx_info_and_paths is Some
        &&& self.sender_post_paths is Some
        &&& self.recv_pre_tx_info_and_paths is Some
        &&& self.recv_post_paths is Some
        &&& self.pre_tx_roots is Some
        &&& self.post_tx_roots is Some
    }

    /// Every assigned witness vector carries one entry per
    /// transaction.
    pub open spec fn witness_lengths_ok(self) -> bool {
        &&& (self.transactions matches Some(t) ==> t@.len() == NUM_TX)
        &&& (self.sender_pre_tx_info_and_paths matches Some(t) ==> t@.len() == NUM_TX)
        &&& (self.sender_post_paths matches Some(t) ==> t@.len() == NUM_TX)
        &&& (self.recv_pre_tx_info_and_paths matches Some(t) ==> t@.len() == NUM_TX)
        &&& (self.recv_post_paths matches Some(t) ==> t@.len() == NUM_TX)
        &&& (self.pre_tx_roots matches Some(t) ==> t@.len() == NUM_TX)
        &&& (self.post_tx_roots matches Some(t) ==> t@.len() == NUM_TX)
    }

    /// The witnessed transactions, as views.
    pub open spec fn txs_spec(self) -> Seq<TransactionView> {
        self.transactions->Some_0@.map_values(|t: Transaction| t@)
    }

    /// Chaining and the per-transaction relation at position `i`: the
    /// witnessed pre-root continues the chain (the initial root for
    /// `i == 0`, the previous post-root otherwise) and the transaction
    /// relation holds between the witnessed roots.
    pub open spec fn step_ok(self, i: int) -> bool
        recommends
            self.witness_complete(),
            self.witness_lengths_ok(),
            0 <= i < NUM_TX as int,
    {
        let tx = self.txs_spec()[i];
        let spre = self.sender_pre_tx_info_and_paths->Some_0@[i];
        let rpre = self.recv_pre_tx_info_and_paths->Some_0@[i];
        let spost = self.sender_post_paths->Some_0@[i];
        let rpost = self.recv_post_paths->Some_0@[i];
        let pre_root = self.pre_tx_roots->Some_0@[i]@;
        let post_root = self.post_tx_roots->Some_0@[i]@;
        &&& pre_root == (if i == 0 {
            self.initial_root->Some_0@
        } else {
            self.post_tx_roots->Some_0@[i - 1]@
        })
        &&& validate_tx_spec(
            tx,
            spre.0@,
            rpre.0@,
            spre.1,
            spost,
            rpre.1,
            rpost,
            pre_root,
            post_root,
        )
    }

    /// The whole relation: every step holds and the chain ends in the
    /// public final root.
    pub open spec fn satisfied(self) -> bool
        recommends
            self.witness_complete(),
            self.witness_lengths_ok(),
    {
        &&& (forall|i: int| 0 <= i < NUM_TX as int ==> self.step_ok(i))
        &&& self.final_root->Some_0@ == (if NUM_TX as int == 0 {
            self.initial_root->Some_0@
        } else {
            self.post_tx_roots->Some_0@[NUM_TX as int - 1]@
        })
    }

    /// A relation with no witness assigned, as used to lay out the
    /// constraint shape.
    pub fn new_empty(ledger_params: Parameters) -> (r: Self)
        ensures
            r.ledger_params == ledger_params,
            !r.witness_complete(),
            r.initial_root is None,
            r.final_root is None,
            r.transactions is None,
            r.sender_pre_tx_info_and_paths is None,
            r.sender_post_paths is None,
            r.recv_pre_tx_info_and_paths is None,
            r.recv_post_paths is None,
            r.pre_tx_roots is None,
            r.post_tx_roots is None,
    {
        Self {
            ledger_params,
            initial_root: None,
            final_root: None,
            transactions: None,
            sender_pre_tx_info_and_paths: None,
            sender_post_paths: None,
            recv_pre_tx_info_and_paths: None,
            recv_post_paths: None,
            pre_tx_roots: None,
            post_tx_roots: None,
        }
    }

    /// A relation carrying only the public inputs, as a verifier sees
    /// it.
    pub fn only_initial_and_final_roots(
        ledger_params: Parameters,
        initial_root: Vec<u8>,
        final_root: Vec<u8>,
    ) -> (r: Self)
        ensures
            r.ledger_params == ledger_params,
            r.initial_root == Some(initial_root),
            r.final_root == Some(final_root),
            !r.witness_complete(),
            r.transactions is None,
            r.sender_pre_tx_info_and_paths is None,
            r.sender_post_paths is None,
            r.recv_pre_tx_info_and_paths is None,
            r.recv_post_paths is None,
            r.pre_tx_roots is None,
            r.post_tx_roots is None,
    {
        Self {
            ledger_params,
            initial_root: Some(initial_root),
            final_root: Some(final_root),
            transactions: None,
            sender_pre_tx_info_and_paths: None,
            sender_post_paths: None,
            recv_pre_tx_info_and_paths: None,
            recv_post_paths: None,
            pre_tx_roots: None,
            post_tx_roots: None,
        }
    }

    /// Evaluates the relation: exactly `satisfied` once every witness
    /// is assigned, and an assignment-missing failure otherwise.
    pub fn check_constraints(&self) -> (r: Result<bool, SynthesisError>)
        requires
            self.witness_lengths_ok(),
        ensures
            match r {
                Ok(b) => self.witness_complete() && b == self.satisfied(),
                Err(e) => !self.witness_complete() && e == SynthesisError::AssignmentMissing,
            },
    {
        let initial_root = match &self.initial_root {
            Some(x) => x,
            None => {
                return Err(SynthesisError::AssignmentMissing);
            },
        };
        let final_root = match &self.final_root {
            Some(x) => x,
            None => {
                return Err(SynthesisError::AssignmentMissing);
            },
        };
        let transactions = match &self.transactions {
            Some(x) => x,
            None => {
                return Err(SynthesisError::AssignmentMissing);
            },
        };
        let sender_pre = match &self.sender_pre_tx_info_and_paths {
            Some(x) => x,
            None => {
                return Err(SynthesisError::AssignmentMissing);
            },
        };
        let sender_post = match &self.sender_post_paths {
            Some(x) => x,
            None => {
                return Err(SynthesisError::AssignmentMissing);
            },
        };
        let recv_pre = match &self.recv_pre_tx_info_and_paths {
            Some(x) => x,
            None => {
                return Err(SynthesisError::AssignmentMissing);
            },
        };
        let recv_post = match &self.recv_post_paths {
            Some(x) => x,
            None => {
                return Err(SynthesisError::AssignmentMissing);
            },
        };
        let pre_tx_roots = match &self.pre_tx_roots {
            Some(x) => x,
            None => {
                return Err(SynthesisError::AssignmentMissing);
            },
        };
        let post_tx_roots = match &self.post_tx_roots {
            Some(x) => x,
            None => {
                return Err(SynthesisError::AssignmentMissing);
            },
        };
        let mut sat = true;
        let mut i: usize = 0;
        while i < transactions.len()
            invariant
                self.witness_complete(),
                self.witness_lengths_ok(),
                self.transactions == Some(*transactions),
                self.initial_root == Some(*initial_root),
                self.sender_pre_tx_info_and_paths == Some(*sender_pre),
                self.sender_post_paths == Some(*sender_post),
                self.recv_pre_tx_info_and_paths == Some(*recv_pre),
                self.recv_post_paths == Some(*recv_post),
                self.pre_tx_roots == Some(*pre_tx_roots),
                self.post_tx_roots == Some(*post_tx_roots),
                i <= NUM_TX,
                sat <==> (forall|j: int| 0 <= j < i ==> self.step_ok(j)),
            decreases NUM_TX - i,
        {
            let pre_ok = if i == 0 {
                bytes_eq(&pre_tx_roots[i], initial_root)
            } else {
                bytes_eq(&pre_tx_roots[i], &post_tx_roots[i - 1])
            };
            let tx_ok = validate_tx(
                &transactions[i],
                &sender_pre[i].0,
                &recv_pre[i].0,
                &sender_pre[i].1,
                &sender_post[i],
                &recv_pre[i].1,
                &recv_post[i],
                &pre_tx_roots[i],
                &post_tx_roots[i],
            );
            proof {
                assert(self.txs_spec()[i as int] == transactions@[i as int]@);
                assert((pre_ok && tx_ok) == self.step_ok(i as int));
            }
            sat = sat && pre_ok && tx_ok;
            i = i + 1;
        }
        let chain_end_ok = if transactions.len() == 0 {
            bytes_eq(final_root, initial_root)
        } else {
            bytes_eq(final_root, &post_tx_roots[transactions.len() - 1])
        };
        Ok(sat && chain_end_ok)
    }

    /// The builder's facts at position `i` of this witness.
    pub open spec fn step_built(self, v0: StateView, txs: Seq<TransactionView>, i: int) -> bool
        recommends
            self.witness_complete(),
            self.witness_lengths_ok(),
            0 <= i < NUM_TX as int,
    {
        built_step(
            v0,
            txs,
            i,
            self.sender_pre_tx_info_and_paths->Some_0@[i],
            self.recv_pre_tx_info_and_paths->Some_0@[i],
            self.sender_post_paths->Some_0@[i],
            self.recv_post_paths->Some_0@[i],
            self.pre_tx_roots->Some_0@[i]@,
            self.post_tx_roots->Some_0@[i]@,
        )
    }

    /// What the witness builder guarantees of a witness it emits for
    /// the batch `txs` replayed from `v0`: every part of it is pinned
    /// by those two alone.
    pub open spec fn is_built_from(self, v0: StateView, txs: Seq<TransactionView>) -> bool {
        &&& self.witness_complete()
        &&& self.witness_lengths_ok()
        &&& txs.len() == NUM_TX
        &&& self.txs_spec() == txs
        &&& self.initial_root->Some_0@ == root_of_view(v0)
        &&& self.final_root->Some_0@ == root_of_view(states_after(v0, txs, NUM_TX as int))
        &&& (forall|i: int| 0 <= i < NUM_TX as int ==> #[trigger] self.step_built(v0, txs, i))
    }

    /// The witness builder: replays the batch against a state replica,
    /// recording the roots, the parties' accounts and their
    /// authentication paths around every transaction. With
    /// `validate_transactions` set it refuses any batch whose
    /// transactions do not all validate, first against the starting
    /// state and then where they are applied; without it, it refuses
    /// only unregistered parties, and an invalid transaction keeps its
    /// slot with an unchanged state around it.
    #[verifier::rlimit(100)]
    #[verifier::spinoff_prover]
    pub fn with_state_and_transactions(
        ledger_params: Parameters,
        transactions: &Vec<Transaction>,
        state: &mut State,
        validate_transactions: bool,
    ) -> (r: Option<Self>)
        requires
            old(state).wf(),
            transactions@.len() == NUM_TX,
        ensures
            final(state).wf(),
            ({
                let v0 = old(state)@;
                let txs = transactions@.map_values(|t: Transaction| t@);
                &&& (r is Some <==> batch_ok(v0, txs, NUM_TX as int, validate_transactions))
                &&& (r matches Some(w) ==> w.is_built_from(v0, txs) && w.ledger_params
                    == ledger_params && final(state)@ == states_after(v0, txs, NUM_TX as int))
                &&& (exists|k: int|
                    0 <= k <= NUM_TX as int && final(state)@ == #[trigger] states_after(
                        v0,
                        txs,
                        k,
                    ))
            }),
    {
        let ghost v0 = old(state)@;
        let ghost txs = transactions@.map_values(|t: Transaction| t@);
        let initial_root = state.root();
        let mut i: usize = 0;
        while i < transactions.len()
            invariant
                state.wf(),
                state@ == v0,
                v0 == old(state)@,
                i <= NUM_TX,
                transactions@.len() == NUM_TX,
                txs == transactions@.map_values(|t: Transaction| t@),
                validate_transactions ==> (forall|j: int|
                    0 <= j < i ==> tx_valid_view(v0, #[trigger] txs[j])),
            decreases NUM_TX - i,
        {
            let ok = transactions[i].validate(&ledger_params, state);
            if !ok && validate_transactions {
                proof {
                    assert(txs[i as int] == transactions@[i as int]@);
                    assert(!tx_valid_view(v0, txs[i as int]));
                    assert(!batch_ok(v0, txs, NUM_TX as int, validate_transactions));
                    assert(state@ == states_after(v0, txs, 0));
                }
                return None;
            }
            i = i + 1;
        }
        let mut sender_pre: Vec<(AccountInformation, SimplePath)> = Vec::new();
        let mut recv_pre: Vec<(AccountInformation, SimplePath)> = Vec::new();
        let mut sender_post: Vec<SimplePath> = Vec::new();
        let mut recv_post: Vec<SimplePath> = Vec::new();
        let mut pre_roots: Vec<Vec<u8>> = Vec::new();
        let mut post_roots: Vec<Vec<u8>> = Vec::new();
        let mut txs_copy: Vec<Transaction> = Vec::new();
        let mut i: usize = 0;
        while i < transactions.len()
            invariant
                state.wf(),
                view_wf(v0),
                v0 == old(state)@,
                state@ == states_after(v0, txs, i as int),
                i <= NUM_TX,
                transactions@.len() == NUM_TX,
                txs == transactions@.map_values(|t: Transaction| t@),
                validate_transactions ==> (forall|j: int|
                    0 <= j < NUM_TX as int ==> tx_valid_view(v0, #[trigger] txs[j])),
                validate_transactions ==> (forall|j: int|
                    0 <= j < i ==> tx_valid_view(states_after(v0, txs, j), #[trigger] txs[j])),
                !validate_transactions ==> (forall|j: int|
                    0 <= j < i ==> registered_in(v0, (#[trigger] txs[j]).sender) && registered_in(
                        v0,
                        txs[j].recipient,
                    )),
                sender_pre@.len() == i,
                recv_pre@.len() == i,
                sender_post@.len() == i,
                recv_post@.len() == i,
                pre_roots@.len() == i,
                post_roots@.len() == i,
                txs_copy@.len() == i,
                forall|j: int| 0 <= j < i ==> (#[trigger] txs_copy@[j])@ == txs[j],
                forall|j: int|
                    0 <= j < i ==> #[trigger] built_step(
                        v0,
                        txs,
                        j,
                        sender_pre@[j],
                        recv_pre@[j],
                        sender_post@[j],
                        recv_post@[j],
                        pre_roots@[j]@,
                        post_roots@[j]@,
                    ),
            decreases NUM_TX - i,
        {
            let ghost vi = states_after(v0, txs, i as int);
            let tx = &transactions[i];
            proof {
                assert(tx@ == txs[i as int]);
                lemma_states_after_shape(v0, txs, i as int);
            }
            let pre_tx_root = state.root();
            let sender_info = match state.account_info(tx.sender) {
                Some(a) => a,
                None => {
                    proof {
                        assert(!registered_in(v0, txs[i as int].sender));
                        assert(!tx_valid_view(v0, txs[i as int]));
                        assert(!batch_ok(v0, txs, NUM_TX as int, validate_transactions));
                        assert(state@ == states_after(v0, txs, i as int));
                    }
                    return None;
                },
            };
            let recipient_info = match state.account_info(tx.recipient) {
                Some(a) => a,
                None => {
                    proof {
                        assert(!registered_in(v0, txs[i as int].recipient));
                        assert(!tx_valid_view(v0, txs[i as int]));
                        assert(!batch_ok(v0, txs, NUM_TX as int, validate_transactions));
                        assert(state@ == states_after(v0, txs, i as int));
                    }
                    return None;
                },
            };
            let sender_pre_path = match state.account_proof(tx.sender) {
                Some(p) => p,
                None => {
                    proof {
                        assert(false);
                    }
                    return None;
                },
            };
            let recipient_pre_path = match state.account_proof(tx.recipient) {
                Some(p) => p,
                None => {
                    proof {
                        assert(false);
                    }
                    return None;
                },
            };
            let applied = state.apply_transaction(&ledger_params, tx);
            if validate_transactions && applied.is_none() {
                proof {
                    assert(!tx_valid_view(vi, txs[i as int]));
                    assert(!batch_ok(v0, txs, NUM_TX as int, validate_transactions));
                    assert(state@ == states_after(v0, txs, i as int));
                }
                return None;
            }
            proof {
                assert(state@ == states_after(v0, txs, i as int + 1));
                lemma_states_after_shape(v0, txs, i as int + 1);
            }
            let post_tx_root = state.root();
            let sender_post_path = match state.account_proof(tx.sender) {
                Some(p) => p,
                None => {
                    proof {
                        assert(false);
                    }
                    return None;
                },
            };
            let recipient_post_path = match state.account_proof(tx.recipient) {
                Some(p) => p,
                None => {
                    proof {
                        assert(false);
                    }
                    return None;
                },
            };
            let tx_clone = Transaction {
                sender: tx.sender,
                recipient: tx.recipient,
                amount: tx.amount,
                signature: clone_bytes(&tx.signature),
            };
            let ghost old_sender_pre = sender_pre@;
            let ghost old_recv_pre = recv_pre@;
            let ghost old_sender_post = sender_post@;
            let ghost old_recv_post = recv_post@;
            let ghost old_pre_roots = pre_roots@;
            let ghost old_post_roots = post_roots@;
            txs_copy.push(tx_clone);
            sender_pre.push((sender_info, sender_pre_path));
            recv_pre.push((recipient_info, recipient_pre_path));
            sender_post.push(sender_post_path);
            recv_post.push(recipient_post_path);
            pre_roots.push(pre_tx_root);
            post_roots.push(post_tx_root);
            proof {
                assert(built_step(
                    v0,
                    txs,
                    i as int,
                    sender_pre@[i as int],
                    recv_pre@[i as int],
                    sender_post@[i as int],
                    recv_post@[i as int],
                    pre_roots@[i as int]@,
                    post_roots@[i as int]@,
                ));
                assert forall|j: int| 0 <= j < i as int implies #[trigger] built_step(
                    v0,
                    txs,
                    j,
                    sender_pre@[j],
                    recv_pre@[j],
                    sender_post@[j],
                    recv_post@[j],
                    pre_roots@[j]@,
                    post_roots@[j]@,
                ) by {
                    assert(sender_pre@[j] == old_sender_pre[j]);
                    assert(recv_pre@[j] == old_recv_pre[j]);
                    assert(sender_post@[j] == old_sender_post[j]);
                    assert(recv_post@[j] == old_recv_post[j]);
                    assert(pre_roots@[j] == old_pre_roots[j]);
                    assert(post_roots@[j] == old_post_roots[j]);
                }
            }
            i = i + 1;
        }
        let final_root = state.root();
        let result = Rollup {
            ledger_params,
            initial_root: Some(initial_root),
            final_root: Some(final_root),
            transactions: Some(txs_copy),
            sender_pre_tx_info_and_paths: Some(sender_pre),
            sender_post_paths: Some(sender_post),
            recv_pre_tx_info_and_paths: Some(recv_pre),
            recv_post_paths: Some(recv_post),
            pre_tx_roots: Some(pre_roots),
            post_tx_roots: Some(post_roots),
        };
        proof {
            assert(result.txs_spec() =~= txs);
            assert(batch_ok(v0, txs, NUM_TX as int, validate_transactions));
            assert forall|j: int| 0 <= j < NUM_TX as int implies #[trigger] result.step_built(
                v0,
                txs,
                j,
            ) by {
                assert(built_step(
                    v0,
                    txs,
                    j,
                    sender_pre@[j],
                    recv_pre@[j],
                    sender_post@[j],
                    recv_post@[j],
                    pre_roots@[j]@,
                    post_roots@[j]@,
                ));
            }
            assert(result.is_built_from(v0, txs));
        }
        Some(result)
    }
}

/// Determinism of witness building: two witnesses the builder emits
/// for the same starting state and batch agree bit for bit — on both
/// public roots, on the batch, and on every intermediate root, account
/// and authentication path.
pub proof fn lemma_builder_deterministic<const NUM_TX: usize>(
    w1: Rollup<NUM_TX>,
    w2: Rollup<NUM_TX>,
    v0: StateView,
    txs: Seq<TransactionView>,
)
    requires
        w1.is_built_from(v0, txs),
        w2.is_built_from(v0, txs),
    ensures
        w1.initial_root->Some_0@ == w2.initial_root->Some_0@,
        w1.final_root->Some_0@ == w2.final_root->Some_0@,
        w1.txs_spec() == w2.txs_spec(),
        forall|i: int| 0 <= i < NUM_TX as int ==> #[trigger] witness_entries_agree(w1, w2, i),
{
    assert forall|i: int| 0 <= i < NUM_TX as int implies #[trigger] witness_entries_agree(
        w1,
        w2,
        i,
    ) by {
        assert(w1.step_built(v0, txs, i));
        assert(w2.step_built(v0, txs, i));
    }
}

/// Whether two witnesses carry the same entry at position `i`, up to
/// byte content: same roots, same accounts, same path indices and same
/// sibling digests.
pub open spec fn witness_entries_agree<const NUM_TX: usize>(
    w1: Rollup<NUM_TX>,
    w2: Rollup<NUM_TX>,
    i: int,
) -> bool {
    let s1 = w1.sender_pre_tx_info_and_paths->Some_0@[i];
    let s2 = w2.sender_pre_tx_info_and_paths->Some_0@[i];
    let r1 = w1.recv_pre_tx_info_and_paths->Some_0@[i];
    let r2 = w2.recv_pre_tx_info_and_paths->Some_0@[i];
    &&& w1.pre_tx_roots->Some_0@[i]@ == w2.pre_tx_roots->Some_0@[i]@
    &&& w1.post_tx_roots->Some_0@[i]@ == w2.post_tx_roots->Some_0@[i]@
    &&& s1.0@ == s2.0@
    &&& r1.0@ == r2.0@
    &&& s1.1.index == s2.1.index
    &&& r1.1.index == r2.1.index
    &&& views(s1.1.siblings@) == views(s2.1.siblings@)
    &&& views(r1.1.siblings@) == views(r2.1.siblings@)
    &&& w1.sender_post_paths->Some_0@[i].index == w2.sender_post_paths->Some_0@[i].index
    &&& w1.recv_post_paths->Some_0@[i].index == w2.recv_post_paths->Some_0@[i].index
    &&& views(w1.sender_post_paths->Some_0@[i].siblings@) == views(
        w2.sender_post_paths->Some_0@[i].siblings@,
    )
    &&& views(w1.recv_post_paths->Some_0@[i].siblings@) == views(
        w2.recv_post_paths->Some_0@[i].siblings@,
    )
}

/// Completeness of the rollup relation for the honest prover: a
/// witness the builder emits for a batch that validates step by step
/// satisfies the circuit, provided no transaction pays its own sender
/// a non-zero amount (such a payment leaves the ledger unchanged while
/// the relation expects two independently updated leaves, an encoding
/// gap the circuit inherits).
pub proof fn lemma_built_witness_satisfied<const NUM_TX: usize>(
    w: Rollup<NUM_TX>,
    v0: StateView,
    txs: Seq<TransactionView>,
)
    requires
        view_wf(v0),
        w.is_built_from(v0, txs),
        forall|i: int|
            0 <= i < NUM_TX as int ==> tx_valid_view(states_after(v0, txs, i), #[trigger] txs[i]),
        forall|i: int|
            0 <= i < NUM_TX as int ==> ((#[trigger] txs[i]).sender != txs[i].recipient
                || txs[i].amount == 0),
    ensures
        w.satisfied(),
{
    assert forall|i: int| 0 <= i < NUM_TX as int implies w.step_ok(i) by {
        let vi = states_after(v0, txs, i);
        let vi1 = states_after(v0, txs, i + 1);
        let tx = txs[i];
        lemma_states_after_shape(v0, txs, i);
        assert(w.step_built(v0, txs, i));
        if i > 0 {
            assert(w.step_built(v0, txs, i - 1));
        }
        assert(tx_valid_view(vi, tx));
        let s = tx.sender.0 as int;
        let r = tx.recipient.0 as int;
        let sa = vi.accounts[s];
        let debited = AccountView {
            public_key: sa.public_key,
            balance: (sa.balance - tx.amount) as u64,
        };
        let a1 = vi.accounts.update(s, debited);
        let ra = a1[r];
        let credited = AccountView {
            public_key: ra.public_key,
            balance: (ra.balance + tx.amount) as u64,
        };
        assert(vi1.accounts == a1.update(r, credited));
        if tx.sender == tx.recipient {
            assert(tx.amount == 0);
            assert(account_in(vi1, tx.sender) == credited);
            assert(credited == debited);
        } else {
            assert(s != r);
            assert(account_in(vi1, tx.sender) == debited);
            assert(account_in(vi1, tx.recipient) == credited);
            assert(ra == vi.accounts[r]);
        }
    }
    if NUM_TX as int > 0 {
        assert(w.step_built(v0, txs, NUM_TX as int - 1));
    }
}

} // verus!
