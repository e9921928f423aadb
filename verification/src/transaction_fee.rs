//! A payment together with a fee: the sender is debited the amount
//! plus the fee, the recipient is credited the amount, and a collector
//! account is credited the fee, all checked against one pre-root and
//! one post-root.

use crate::account::{leaf_bytes_of, AccountInformation, AccountView, Amount};
use crate::bytes::clone_bytes;
use crate::ledger::Parameters;
use crate::merkle::SimplePath;
use crate::sig::{schnorr_verifies, schnorr_verify};
use crate::transaction::{tx_message, tx_message_of, Transaction, TransactionView};
use vstd::prelude::*;

verus! {

/// The relation enforced for a payment with a fee: the signature of
/// the inner payment, three width-checked balance updates, and the
/// membership of all three parties' leaves before and after.
pub open spec fn validate_with_fee_spec(
    tx: TransactionView,
    fee: u64,
    sender_info: AccountView,
    sender_pre_path: SimplePath,
    sender_post_path: SimplePath,
    recipient_info: AccountView,
    recipient_pre_path: SimplePath,
    recipient_post_path: SimplePath,
    fee_info: AccountView,
    fee_pre_path: SimplePath,
    fee_post_path: SimplePath,
    pre_root: Seq<u8>,
    post_root: Seq<u8>,
) -> bool {
    &&& schnorr_verifies(
        sender_info.public_key,
        tx_message_of(sender_info.public_key, recipient_info.public_key, tx.amount),
        tx.signature,
    )
    &&& tx.amount + fee <= sender_info.balance
    &&& recipient_info.balance + tx.amount <= u64::MAX
    &&& fee_info.balance + fee <= u64::MAX
    &&& sender_pre_path.checks(pre_root, leaf_bytes_of(sender_info))
    &&& recipient_pre_path.checks(pre_root, leaf_bytes_of(recipient_info))
    &&& fee_pre_path.checks(pre_root, leaf_bytes_of(fee_info))
    &&& sender_post_path.checks(
        post_root,
        leaf_bytes_of(
            (AccountView {
                public_key: sender_info.public_key,
                balance: (sender_info.balance - tx.amount - fee) as u64,
            }),
        ),
    )
    &&& recipient_post_path.checks(
        post_root,
        leaf_bytes_of(
            (AccountView {
                public_key: recipient_info.public_key,
                balance: (recipient_info.balance + tx.amount) as u64,
            }),
        ),
    )
    &&& fee_post_path.checks(
        post_root,
        leaf_bytes_of(
            (AccountView {
                public_key: fee_info.public_key,
                balance: (fee_info.balance + fee) as u64,
            }),
        ),
    )
}

/// A payment wrapped with a fee charged to its sender and owed to a
/// collector account.
pub struct TransactionWithFeeVar {
    pub inner: Transaction,
    pub fee: Amount,
}

impl TransactionWithFeeVar {
    pub fn new(inner: Transaction, fee: Amount) -> (r: Self)
        ensures
            r.inner == inner,
            r.fee == fee,
    {
        Self { inner, fee }
    }

    /// Evaluates the fee-extended relation on concrete witnesses.
    pub fn validate_with_fee(
        &self,
        pp: &Parameters,
        sender_info: &AccountInformation,
        sender_pre_path: &SimplePath,
        sender_post_path: &SimplePath,
        recipient_info: &AccountInformation,
        recipient_pre_path: &SimplePath,
        recipient_post_path: &SimplePath,
        fee_info: &AccountInformation,
        fee_pre_path: &SimplePath,
        fee_post_path: &SimplePath,
        pre_root: &Vec<u8>,
        post_root: &Vec<u8>,
    ) -> (r: bool)
        ensures
            r == validate_with_fee_spec(
                self.inner@,
                self.fee.0,
                sender_info@,
                *sender_pre_path,
                *sender_post_path,
                recipient_info@,
                *recipient_pre_path,
                *recipient_post_path,
                fee_info@,
                *fee_pre_path,
                *fee_post_path,
                pre_root@,
                post_root@,
            ),
    {
        let msg = tx_message(
            &sender_info.public_key,
            &recipient_info.public_key,
            self.inner.amount,
        );
        let sig_ok = schnorr_verify(&sender_info.public_key, &msg, &self.inner.signature);
        let after_amount = match sender_info.balance.checked_sub(self.inner.amount) {
            Some(b) => b,
            None => {
                return false;
            },
        };
        let sender_after = match after_amount.checked_sub(self.fee) {
            Some(b) => b,
            None => {
                return false;
            },
        };
        let recipient_after = match recipient_info.balance.checked_add(self.inner.amount) {
            Some(b) => b,
            None => {
                return false;
            },
        };
        let fee_after = match fee_info.balance.checked_add(self.fee) {
            Some(b) => b,
            None => {
                return false;
            },
        };
        let sender_leaf = sender_info.to_bytes_le();
        let recipient_leaf = recipient_info.to_bytes_le();
        let fee_leaf = fee_info.to_bytes_le();
        let post_sender = AccountInformation {
            public_key: clone_bytes(&sender_info.public_key),
            balance: sender_after,
        };
        let post_recipient = AccountInformation {
            public_key: clone_bytes(&recipient_info.public_key),
            balance: recipient_after,
        };
        let post_fee = AccountInformation {
            public_key: clone_bytes(&fee_info.public_key),
            balance: fee_after,
        };
        let post_sender_leaf = post_sender.to_bytes_le();
        let post_recipient_leaf = post_recipient.to_bytes_le();
        let post_fee_leaf = post_fee.to_bytes_le();
        let sender_exists = sender_pre_path.verify(pre_root, &sender_leaf);
        let recipient_exists = recipient_pre_path.verify(pre_root, &recipient_leaf);
        let fee_exists = fee_pre_path.verify(pre_root, &fee_leaf);
        let sender_updated = sender_post_path.verify(post_root, &post_sender_leaf);
        let recipient_updated = recipient_post_path.verify(post_root, &post_recipient_leaf);
        let fee_updated = fee_post_path.verify(post_root, &post_fee_leaf);
        sender_exists && sender_updated && recipient_exists && recipient_updated && fee_exists
            && fee_updated && sig_ok
    }
}

} // verus!
