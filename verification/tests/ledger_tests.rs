use rollup::account::{AccountId, AccountInformation, Amount};
use rollup::ledger::{Parameters, State};
use rollup::sig::{schnorr_keygen, schnorr_sign, schnorr_verify};
use rollup::transaction::{tx_message, Transaction};

#[test]
fn state_capacity_must_be_power_of_two() {
    let pp = Parameters::sample();
    assert!(State::new(32, &pp).is_some());
    assert!(State::new(1, &pp).is_some());
    assert!(State::new(12, &pp).is_none());
    assert!(State::new(0, &pp).is_none());
}

#[test]
fn registration_fills_slots_in_order() {
    let pp = Parameters::sample();
    let mut state = State::new(4, &pp).unwrap();
    let (a, a_pk, _a_sk) = state.sample_keys_and_register(&pp, 1).unwrap();
    let (b, b_pk, _b_sk) = state.sample_keys_and_register(&pp, 2).unwrap();
    assert_eq!(a, AccountId(0));
    assert_eq!(b, AccountId(1));
    assert_eq!(a_pk.len(), 32);
    assert_ne!(a_pk, b_pk);
    assert_eq!(state.account_info(a).unwrap().public_key, a_pk);
    assert_eq!(state.account_info(a).unwrap().balance, Amount(0));
    assert!(state.account_info(AccountId(2)).is_none());
}

#[test]
fn registration_stops_at_capacity() {
    let pp = Parameters::sample();
    let mut state = State::new(2, &pp).unwrap();
    assert!(state.sample_keys_and_register(&pp, 1).is_some());
    assert!(state.sample_keys_and_register(&pp, 2).is_some());
    assert!(state.sample_keys_and_register(&pp, 3).is_none());
}

#[test]
fn update_balance_rehashes_the_tree() {
    let pp = Parameters::sample();
    let mut state = State::new(4, &pp).unwrap();
    let (a, _pk, _sk) = state.sample_keys_and_register(&pp, 1).unwrap();
    let before = state.root();
    state.update_balance(a, Amount(9)).unwrap();
    assert_eq!(state.account_info(a).unwrap().balance, Amount(9));
    assert_ne!(state.root(), before);
    assert!(state.update_balance(AccountId(3), Amount(1)).is_none());
}

#[test]
fn apply_transaction_moves_balances_and_root() {
    let pp = Parameters::sample();
    let mut state = State::new(4, &pp).unwrap();
    let (a, _apk, a_sk) = state.sample_keys_and_register(&pp, 1).unwrap();
    state.update_balance(a, Amount(10)).unwrap();
    let (b, _bpk, _bsk) = state.sample_keys_and_register(&pp, 2).unwrap();

    let tx = Transaction::create(&pp, &state, a, b, Amount(4), &a_sk, 7).unwrap();
    assert!(tx.validate(&pp, &state));
    let before = state.root();
    state.apply_transaction(&pp, &tx).unwrap();
    assert_eq!(state.account_info(a).unwrap().balance, Amount(6));
    assert_eq!(state.account_info(b).unwrap().balance, Amount(4));
    assert_ne!(state.root(), before);

    // Replaying the same transaction twice drains the sender; a third
    // time underflows and is refused, leaving balances untouched.
    state.apply_transaction(&pp, &tx).unwrap();
    assert!(state.apply_transaction(&pp, &tx).is_none());
    assert_eq!(state.account_info(a).unwrap().balance, Amount(2));
    assert_eq!(state.account_info(b).unwrap().balance, Amount(8));
}

#[test]
fn apply_transaction_rejects_unknown_and_unsigned() {
    let pp = Parameters::sample();
    let mut state = State::new(4, &pp).unwrap();
    let (a, _apk, a_sk) = state.sample_keys_and_register(&pp, 1).unwrap();
    state.update_balance(a, Amount(10)).unwrap();
    let (b, _bpk, _bsk) = state.sample_keys_and_register(&pp, 2).unwrap();

    // Unknown recipient at creation time.
    assert!(Transaction::create(&pp, &state, a, AccountId(3), Amount(1), &a_sk, 8).is_none());

    // A garbage signature does not validate and is not applied.
    let forged = Transaction {
        sender: a,
        recipient: b,
        amount: Amount(1),
        signature: vec![0u8; 64],
    };
    assert!(!forged.validate(&pp, &state));
    assert!(state.apply_transaction(&pp, &forged).is_none());
    assert_eq!(state.account_info(a).unwrap().balance, Amount(10));
}

#[test]
fn account_serialisation_is_fixed_width_little_endian() {
    let info = AccountInformation { public_key: vec![7u8; 32], balance: Amount(1) };
    let bytes = info.to_bytes_le();
    assert_eq!(bytes.len(), 40);
    assert_eq!(bytes[0..32], [7u8; 32]);
    assert_eq!(bytes[32..40], [1u8, 0, 0, 0, 0, 0, 0, 0]);

    let big = AccountInformation { public_key: vec![0u8; 32], balance: Amount(0x0102030405060708) };
    let bytes = big.to_bytes_le();
    assert_eq!(bytes[32..40], [8u8, 7, 6, 5, 4, 3, 2, 1]);
}

#[test]
fn amount_arithmetic_is_checked() {
    assert_eq!(Amount(3).checked_add(Amount(4)), Some(Amount(7)));
    assert_eq!(Amount(u64::MAX).checked_add(Amount(1)), None);
    assert_eq!(Amount(4).checked_sub(Amount(3)), Some(Amount(1)));
    assert_eq!(Amount(3).checked_sub(Amount(4)), None);
}

#[test]
fn schnorr_sign_and_verify_roundtrip() {
    let (pk, sk) = schnorr_keygen(99);
    let msg = tx_message(&vec![1u8; 32], &vec![2u8; 32], Amount(5));
    let sig = schnorr_sign(&sk, &msg, 100).unwrap();
    assert_eq!(sig.len(), 64);
    assert!(schnorr_verify(&pk, &msg, &sig));

    // A different message, a different key, or a mangled signature all
    // fail to verify.
    let other_msg = tx_message(&vec![1u8; 32], &vec![2u8; 32], Amount(6));
    assert!(!schnorr_verify(&pk, &other_msg, &sig));
    let (pk2, _sk2) = schnorr_keygen(101);
    assert!(!schnorr_verify(&pk2, &msg, &sig));
    let mut broken = sig.clone();
    broken[0] ^= 1;
    assert!(!schnorr_verify(&pk, &msg, &broken));
}
