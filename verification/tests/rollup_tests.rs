use rollup::account::Amount;
use rollup::ledger::{Parameters, State};
use rollup::rollup::Rollup;
use rollup::transaction::Transaction;

#[test]
fn fee_as_second_tx_validity_test() {
    let pp = Parameters::sample();
    let mut state = State::new(32, &pp).unwrap();

    // Accounts
    let (alice_id, _alice_pk, alice_sk) = state.sample_keys_and_register(&pp, 1).unwrap();
    state.update_balance(alice_id, Amount(20)).unwrap();

    let (bob_id, _bob_pk, _bob_sk) = state.sample_keys_and_register(&pp, 2).unwrap();
    let (collector_id, _c_pk, _c_sk) = state.sample_keys_and_register(&pp, 3).unwrap();

    // tx + fee-as-tx
    let tx = Transaction::create(&pp, &state, alice_id, bob_id, Amount(5), &alice_sk, 10).unwrap();
    let fee_tx =
        Transaction::create(&pp, &state, alice_id, collector_id, Amount(2), &alice_sk, 11).unwrap();

    let mut temp_state = state.clone();
    let circuit = Rollup::<2>::with_state_and_transactions(
        pp,
        &vec![tx.clone(), fee_tx.clone()],
        &mut temp_state,
        true,
    )
    .unwrap();

    assert!(circuit.check_constraints().unwrap());

    // Native balances reflect (5 to Bob) and (2 to collector)
    assert_eq!(temp_state.account_info(alice_id).unwrap().balance, Amount(20 - 5 - 2));
    assert_eq!(temp_state.account_info(bob_id).unwrap().balance, Amount(5));
    assert_eq!(temp_state.account_info(collector_id).unwrap().balance, Amount(2));
}

#[test]
fn rollup_single_transaction_satisfied() {
    let pp = Parameters::sample();
    let mut state = State::new(4, &pp).unwrap();
    let (alice_id, _alice_pk, alice_sk) = state.sample_keys_and_register(&pp, 1).unwrap();
    state.update_balance(alice_id, Amount(10)).unwrap();
    let (bob_id, _bob_pk, _bob_sk) = state.sample_keys_and_register(&pp, 2).unwrap();

    let tx = Transaction::create(&pp, &state, alice_id, bob_id, Amount(7), &alice_sk, 20).unwrap();

    let mut temp_state = state.clone();
    let circuit =
        Rollup::<1>::with_state_and_transactions(pp, &vec![tx], &mut temp_state, true).unwrap();
    assert!(circuit.check_constraints().unwrap());
    assert_eq!(temp_state.account_info(alice_id).unwrap().balance, Amount(3));
    assert_eq!(temp_state.account_info(bob_id).unwrap().balance, Amount(7));
}

#[test]
fn rollup_larger_batch_satisfied() {
    let pp = Parameters::sample();
    let mut state = State::new(8, &pp).unwrap();
    let (alice_id, _apk, alice_sk) = state.sample_keys_and_register(&pp, 1).unwrap();
    state.update_balance(alice_id, Amount(100)).unwrap();
    let (bob_id, _bpk, bob_sk) = state.sample_keys_and_register(&pp, 2).unwrap();
    state.update_balance(bob_id, Amount(20)).unwrap();
    let (carol_id, _cpk, _csk) = state.sample_keys_and_register(&pp, 3).unwrap();

    let t1 = Transaction::create(&pp, &state, alice_id, bob_id, Amount(40), &alice_sk, 30).unwrap();
    let t2 = Transaction::create(&pp, &state, alice_id, carol_id, Amount(10), &alice_sk, 31).unwrap();
    let t3 = Transaction::create(&pp, &state, bob_id, carol_id, Amount(15), &bob_sk, 32).unwrap();
    let t4 = Transaction::create(&pp, &state, alice_id, bob_id, Amount(1), &alice_sk, 33).unwrap();

    let mut temp_state = state.clone();
    let circuit = Rollup::<4>::with_state_and_transactions(
        pp,
        &vec![t1, t2, t3, t4],
        &mut temp_state,
        true,
    )
    .unwrap();
    assert!(circuit.check_constraints().unwrap());
    assert_eq!(temp_state.account_info(alice_id).unwrap().balance, Amount(49));
    assert_eq!(temp_state.account_info(bob_id).unwrap().balance, Amount(46));
    assert_eq!(temp_state.account_info(carol_id).unwrap().balance, Amount(25));
}

#[test]
fn rollup_overdraft_refused_with_validation() {
    let pp = Parameters::sample();
    let mut state = State::new(32, &pp).unwrap();
    let (alice_id, _apk, alice_sk) = state.sample_keys_and_register(&pp, 1).unwrap();
    state.update_balance(alice_id, Amount(20)).unwrap();
    let (bob_id, _bpk, _bsk) = state.sample_keys_and_register(&pp, 2).unwrap();

    // Amount exceeds Alice's balance.
    let tx = Transaction::create(&pp, &state, alice_id, bob_id, Amount(25), &alice_sk, 40).unwrap();

    let mut temp_state = state.clone();
    let refused = Rollup::<1>::with_state_and_transactions(
        pp,
        &vec![tx.clone()],
        &mut temp_state,
        true,
    );
    assert!(refused.is_none());

    // Without validation a witness is produced, but the relation is
    // unsatisfied: the balance check fails.
    let mut temp_state = state.clone();
    let circuit =
        Rollup::<1>::with_state_and_transactions(pp, &vec![tx], &mut temp_state, false).unwrap();
    assert!(!circuit.check_constraints().unwrap());
}

#[test]
fn rollup_wrong_key_signature_refused() {
    let pp = Parameters::sample();
    let mut state = State::new(32, &pp).unwrap();
    let (alice_id, _apk, _alice_sk) = state.sample_keys_and_register(&pp, 1).unwrap();
    state.update_balance(alice_id, Amount(20)).unwrap();
    let (bob_id, _bpk, bob_sk) = state.sample_keys_and_register(&pp, 2).unwrap();

    // Signed under Bob's key but spending from Alice's account.
    let tx = Transaction::create(&pp, &state, alice_id, bob_id, Amount(5), &bob_sk, 41).unwrap();

    let mut temp_state = state.clone();
    let refused =
        Rollup::<1>::with_state_and_transactions(pp, &vec![tx.clone()], &mut temp_state, true);
    assert!(refused.is_none());

    let mut temp_state = state.clone();
    let circuit =
        Rollup::<1>::with_state_and_transactions(pp, &vec![tx], &mut temp_state, false).unwrap();
    assert!(!circuit.check_constraints().unwrap());
}

#[test]
fn rollup_broken_chain_unsatisfied() {
    let pp = Parameters::sample();
    let mut state = State::new(32, &pp).unwrap();
    let (alice_id, _apk, alice_sk) = state.sample_keys_and_register(&pp, 1).unwrap();
    state.update_balance(alice_id, Amount(20)).unwrap();
    let (bob_id, _bpk, _bsk) = state.sample_keys_and_register(&pp, 2).unwrap();
    let (collector_id, _cpk, _csk) = state.sample_keys_and_register(&pp, 3).unwrap();

    let tx = Transaction::create(&pp, &state, alice_id, bob_id, Amount(5), &alice_sk, 42).unwrap();
    let fee_tx =
        Transaction::create(&pp, &state, alice_id, collector_id, Amount(2), &alice_sk, 43).unwrap();

    let mut temp_state = state.clone();
    let mut circuit = Rollup::<2>::with_state_and_transactions(
        pp,
        &vec![tx, fee_tx],
        &mut temp_state,
        true,
    )
    .unwrap();
    assert!(circuit.check_constraints().unwrap());

    // Tamper with the first post-transaction root: the chain to the
    // second transaction breaks even though each relation's own roots
    // stay consistent.
    let mut tampered = circuit.post_tx_roots.clone().unwrap();
    tampered[0] = circuit.pre_tx_roots.clone().unwrap()[0].clone();
    circuit.post_tx_roots = Some(tampered);
    assert!(!circuit.check_constraints().unwrap());
}

#[test]
fn rollup_missing_witness_is_assignment_missing() {
    let pp = Parameters::sample();
    let circuit = Rollup::<2>::new_empty(pp);
    assert!(circuit.check_constraints().is_err());

    let with_roots =
        Rollup::<2>::only_initial_and_final_roots(pp, vec![0u8; 32], vec![0u8; 32]);
    assert!(with_roots.check_constraints().is_err());
}
