use rollup::account::Amount;
use rollup::ledger::{Parameters, State};
use rollup::transaction::Transaction;
use rollup::transaction_fee::TransactionWithFeeVar;

/// Builds a ledger with Alice (20), Bob (0) and a collector (0), and
/// returns it with Alice's id, secret key, and the other two ids.
fn setup() -> (Parameters, State, rollup::account::AccountId, Vec<u8>, rollup::account::AccountId, rollup::account::AccountId) {
    let pp = Parameters::sample();
    let mut state = State::new(32, &pp).unwrap();
    let (alice, _apk, alice_sk) = state.sample_keys_and_register(&pp, 1).unwrap();
    state.update_balance(alice, Amount(20)).unwrap();
    let (bob, _bpk, _bsk) = state.sample_keys_and_register(&pp, 2).unwrap();
    let (collector, _cpk, _csk) = state.sample_keys_and_register(&pp, 3).unwrap();
    (pp, state, alice, alice_sk, bob, collector)
}

#[test]
fn fee_relation_satisfied_on_honest_update() {
    let (pp, mut state, alice, alice_sk, bob, collector) = setup();
    let tx = Transaction::create(&pp, &state, alice, bob, Amount(5), &alice_sk, 50).unwrap();
    let with_fee = TransactionWithFeeVar::new(tx, Amount(2));

    let pre_root = state.root();
    let sender_info = state.account_info(alice).unwrap();
    let recipient_info = state.account_info(bob).unwrap();
    let fee_info = state.account_info(collector).unwrap();
    let sender_pre = state.account_proof(alice).unwrap();
    let recipient_pre = state.account_proof(bob).unwrap();
    let fee_pre = state.account_proof(collector).unwrap();

    // The honest combined update: sender pays amount + fee, recipient
    // gets the amount, the collector gets the fee.
    state.update_balance(alice, Amount(13)).unwrap();
    state.update_balance(bob, Amount(5)).unwrap();
    state.update_balance(collector, Amount(2)).unwrap();

    let post_root = state.root();
    let sender_post = state.account_proof(alice).unwrap();
    let recipient_post = state.account_proof(bob).unwrap();
    let fee_post = state.account_proof(collector).unwrap();

    assert!(with_fee.validate_with_fee(
        &pp,
        &sender_info,
        &sender_pre,
        &sender_post,
        &recipient_info,
        &recipient_pre,
        &recipient_post,
        &fee_info,
        &fee_pre,
        &fee_post,
        &pre_root,
        &post_root,
    ));
}

#[test]
fn fee_relation_rejects_underfunded_sender() {
    let (pp, mut state, alice, alice_sk, bob, collector) = setup();
    // Amount fits the balance, but amount + fee does not.
    let tx = Transaction::create(&pp, &state, alice, bob, Amount(19), &alice_sk, 51).unwrap();
    let with_fee = TransactionWithFeeVar::new(tx, Amount(2));

    let pre_root = state.root();
    let sender_info = state.account_info(alice).unwrap();
    let recipient_info = state.account_info(bob).unwrap();
    let fee_info = state.account_info(collector).unwrap();
    let sender_pre = state.account_proof(alice).unwrap();
    let recipient_pre = state.account_proof(bob).unwrap();
    let fee_pre = state.account_proof(collector).unwrap();

    state.update_balance(bob, Amount(19)).unwrap();
    state.update_balance(collector, Amount(2)).unwrap();
    state.update_balance(alice, Amount(0)).unwrap();

    let post_root = state.root();
    let sender_post = state.account_proof(alice).unwrap();
    let recipient_post = state.account_proof(bob).unwrap();
    let fee_post = state.account_proof(collector).unwrap();

    assert!(!with_fee.validate_with_fee(
        &pp,
        &sender_info,
        &sender_pre,
        &sender_post,
        &recipient_info,
        &recipient_pre,
        &recipient_post,
        &fee_info,
        &fee_pre,
        &fee_post,
        &pre_root,
        &post_root,
    ));
}

#[test]
fn fee_relation_rejects_wrong_post_state() {
    let (pp, mut state, alice, alice_sk, bob, collector) = setup();
    let tx = Transaction::create(&pp, &state, alice, bob, Amount(5), &alice_sk, 52).unwrap();
    let with_fee = TransactionWithFeeVar::new(tx, Amount(2));

    let pre_root = state.root();
    let sender_info = state.account_info(alice).unwrap();
    let recipient_info = state.account_info(bob).unwrap();
    let fee_info = state.account_info(collector).unwrap();
    let sender_pre = state.account_proof(alice).unwrap();
    let recipient_pre = state.account_proof(bob).unwrap();
    let fee_pre = state.account_proof(collector).unwrap();

    // The collector is shorted: the fee never arrives.
    state.update_balance(alice, Amount(13)).unwrap();
    state.update_balance(bob, Amount(5)).unwrap();

    let post_root = state.root();
    let sender_post = state.account_proof(alice).unwrap();
    let recipient_post = state.account_proof(bob).unwrap();
    let fee_post = state.account_proof(collector).unwrap();

    assert!(!with_fee.validate_with_fee(
        &pp,
        &sender_info,
        &sender_pre,
        &sender_post,
        &recipient_info,
        &recipient_pre,
        &recipient_post,
        &fee_info,
        &fee_pre,
        &fee_post,
        &pre_root,
        &post_root,
    ));
}
