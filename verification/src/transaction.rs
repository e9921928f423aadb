//! Signed payment transactions and the canonical message they sign.

use crate::account::{AccountId, Amount};
use crate::bytes::{append_bytes, clone_bytes};
use crate::ledger::{registered_in, tx_valid_view, Parameters, State};
use crate::sig::{schnorr_sign, schnorr_verify};
use vstd::bytes::{spec_u64_to_le_bytes, u64_to_le_bytes};
use vstd::prelude::*;

verus! {

/// The canonical message a payment signs: the sender's public key, the
/// recipient's public key, then the amount in eight little-endian
/// bytes. The message binds the parties by their keys, not by their
/// tree indices.
pub open spec fn tx_message_of(sender_pk: Seq<u8>, recipient_pk: Seq<u8>, amount: u64) -> Seq<u8> {
    sender_pk + recipient_pk + spec_u64_to_le_bytes(amount)
}

/// Builds the canonical message.
pub fn tx_message(sender_pk: &Vec<u8>, recipient_pk: &Vec<u8>, amount: Amount) -> (r: Vec<u8>)
    ensures
        r@ == tx_message_of(sender_pk@, recipient_pk@, amount.0),
{
    let mut out = clone_bytes(sender_pk);
    append_bytes(&mut out, recipient_pk);
    let amt = u64_to_le_bytes(amount.0);
    append_bytes(&mut out, &amt);
    proof {
        assert(out@ =~= tx_message_of(sender_pk@, recipient_pk@, amount.0));
    }
    out
}

/// The mathematical content of a transaction.
pub struct TransactionView {
    pub sender: AccountId,
    pub recipient: AccountId,
    pub amount: u64,
    pub signature: Seq<u8>,
}

/// A payment: sender and recipient account indices, an amount, and the
/// sender's signature on the canonical message.
#[derive(Clone, Debug)]
pub struct Transaction {
    pub sender: AccountId,
    pub recipient: AccountId,
    pub amount: Amount,
    pub signature: Vec<u8>,
}

impl View for Transaction {
    type V = TransactionView;

    open spec fn view(&self) -> TransactionView {
        TransactionView {
            sender: self.sender,
            recipient: self.recipient,
            amount: self.amount.0,
            signature: self.signature@,
        }
    }
}

impl Transaction {
    /// Creates a payment signed with `sk`, looking both parties' keys
    /// up in the given state. Yields nothing when either party is not
    /// registered or the secret-key bytes do not parse.
    pub fn create(
        pp: &Parameters,
        state: &State,
        sender: AccountId,
        recipient: AccountId,
        amount: Amount,
        sk: &Vec<u8>,
        seed: u64,
    ) -> (r: Option<Transaction>)
        requires
            state.wf(),
        ensures
            match r {
                Some(t) => registered_in(state@, sender) && registered_in(state@, recipient)
                    && t.sender == sender && t.recipient == recipient && t.amount == amount
                    && t@.signature.len() == 64,
                None => true,
            },
            !(registered_in(state@, sender) && registered_in(state@, recipient)) ==> r is None,
    {
        let sender_info = match state.account_info(sender) {
            Some(a) => a,
            None => {
                return None;
            },
        };
        let recipient_info = match state.account_info(recipient) {
            Some(a) => a,
            None => {
                return None;
            },
        };
        let msg = tx_message(&sender_info.public_key, &recipient_info.public_key, amount);
        let signature = match schnorr_sign(sk, &msg, seed) {
            Some(s) => s,
            None => {
                return None;
            },
        };
        Some(Transaction { sender, recipient, amount, signature })
    }

    /// The native validity check: both parties registered, the
    /// signature valid under the sender's stored key, no balance
    /// underflow for the sender and no overflow for the recipient.
    pub fn validate(&self, pp: &Parameters, state: &State) -> (r: bool)
        requires
            state.wf(),
        ensures
            r == tx_valid_view(state@, self@),
    {
        let sender_info = match state.account_info(self.sender) {
            Some(a) => a,
            None => {
                return false;
            },
        };
        let recipient_info = match state.account_info(self.recipient) {
            Some(a) => a,
            None => {
                return false;
            },
        };
        let msg = tx_message(&sender_info.public_key, &recipient_info.public_key, self.amount);
        if !schnorr_verify(&sender_info.public_key, &msg, &self.signature) {
            return false;
        }
        let sender_after = match sender_info.balance.checked_sub(self.amount) {
            Some(b) => b,
            None => {
                return false;
            },
        };
        let recipient_before = if self.sender.0 == self.recipient.0 {
            sender_after
        } else {
            recipient_info.balance
        };
        match recipient_before.checked_add(self.amount) {
            Some(_) => true,
            None => false,
        }
    }
}

} // verus!
