use rgbpp_lock::bitcoin::{sha2_twice, BTCTx, TxIn, MIN_BTC_TIME_LOCK_AFTER};
use rgbpp_lock::cell::Script;
use rgbpp_lock::error::Error;
use rgbpp_lock::rgbpp::{
    check_btc_time_lock, check_utxo_seal, is_btc_time_lock, is_script_code_equal, normalize_lock,
};
use rgbpp_lock::schemas::{BTCTimeLock, RGBPPConfig, RGBPPLock};

fn config() -> RGBPPConfig {
    RGBPPConfig { btc_lc_type_hash: [0x11; 32], btc_time_lock_type_hash: [0x22; 32] }
}

fn rgbpp_script(args: Vec<u8>) -> Script {
    Script { code_hash: [0x33; 32], hash_type: 1, args }
}

fn owner() -> Script {
    Script { code_hash: [0x44; 32], hash_type: 0, args: vec![1, 2, 3] }
}

fn btc_tx(inputs: Vec<([u8; 32], u32)>) -> BTCTx {
    BTCTx {
        txid: [0xbb; 32],
        inputs: inputs.into_iter().map(|previous_output| TxIn { previous_output }).collect(),
    }
}

#[test]
fn double_hash_of_known_inputs() {
    let empty: [u8; 32] = [
        0x5d, 0xf6, 0xe0, 0xe2, 0x76, 0x13, 0x59, 0xd3, 0x0a, 0x82, 0x75, 0x05, 0x8e, 0x29, 0x9f,
        0xcc, 0x03, 0x81, 0x53, 0x45, 0x45, 0xf5, 0x5c, 0xf4, 0x3e, 0x41, 0x98, 0x3f, 0x5d, 0x4c,
        0x94, 0x56,
    ];
    let hello: [u8; 32] = [
        149, 149, 201, 223, 144, 7, 81, 72, 235, 6, 134, 3, 101, 223, 51, 88, 75, 117, 191, 247,
        130, 165, 16, 198, 205, 72, 131, 164, 25, 131, 61, 80,
    ];
    assert_eq!(sha2_twice(b""), empty);
    assert_eq!(sha2_twice(b"hello"), hello);
}

#[test]
fn same_code_ignores_arguments() {
    let a = rgbpp_script(vec![1]);
    let b = rgbpp_script(vec![2, 3, 4]);
    assert!(is_script_code_equal(&a, &b));
}

#[test]
fn same_code_needs_hash_and_hash_type() {
    let a = rgbpp_script(vec![]);
    let mut other_hash = rgbpp_script(vec![]);
    other_hash.code_hash[31] = 0;
    let mut other_type = rgbpp_script(vec![]);
    other_type.hash_type = 0;
    assert!(!is_script_code_equal(&a, &other_hash));
    assert!(!is_script_code_equal(&a, &other_type));
}

#[test]
fn time_lock_is_told_by_type_hash() {
    let lock = Script { code_hash: [0x22; 32], hash_type: 1, args: vec![] };
    let by_data = Script { code_hash: [0x22; 32], hash_type: 0, args: vec![] };
    let other = Script { code_hash: [0x23; 32], hash_type: 1, args: vec![] };
    assert!(is_btc_time_lock(&config(), &lock));
    assert!(!is_btc_time_lock(&config(), &by_data));
    assert!(!is_btc_time_lock(&config(), &other));
}

#[test]
fn seal_needs_the_exact_pair() {
    let lock_args = RGBPPLock { out_index: 2, btc_txid: [0xaa; 32] };
    assert!(check_utxo_seal(&lock_args, &btc_tx(vec![([0xaa; 32], 2)])));
    assert!(!check_utxo_seal(&lock_args, &btc_tx(vec![([0xaa; 32], 1)])));
    assert!(!check_utxo_seal(&lock_args, &btc_tx(vec![([0xab; 32], 2)])));
    assert!(!check_utxo_seal(&lock_args, &btc_tx(vec![([0xab; 32], 2), ([0xaa; 32], 3)])));
    assert!(!check_utxo_seal(&lock_args, &btc_tx(vec![])));
}

#[test]
fn seal_ignores_order_duplicates_and_unrelated_inputs() {
    let lock_args = RGBPPLock { out_index: 2, btc_txid: [0xaa; 32] };
    let sealed = ([0xaa; 32], 2);
    let other = ([0x01; 32], 0);
    let another = ([0x02; 32], 7);
    assert!(check_utxo_seal(&lock_args, &btc_tx(vec![sealed, other, another])));
    assert!(check_utxo_seal(&lock_args, &btc_tx(vec![other, sealed, another])));
    assert!(check_utxo_seal(&lock_args, &btc_tx(vec![another, other, sealed])));
    assert!(check_utxo_seal(&lock_args, &btc_tx(vec![sealed, sealed])));
    assert!(!check_utxo_seal(&lock_args, &btc_tx(vec![other, another])));
    assert!(!check_utxo_seal(&lock_args, &btc_tx(vec![another, other])));
}

#[test]
fn time_lock_needs_the_least_delay() {
    assert_eq!(MIN_BTC_TIME_LOCK_AFTER, 6);
    let tx = btc_tx(vec![([0xaa; 32], 0)]);
    let enough = BTCTimeLock { lock_script: owner(), after: 6, btc_txid: [0xaa; 32] };
    let more = BTCTimeLock { lock_script: owner(), after: 100, btc_txid: [0xaa; 32] };
    let short = BTCTimeLock { lock_script: owner(), after: 5, btc_txid: [0xaa; 32] };
    assert!(check_btc_time_lock(&enough, &tx, MIN_BTC_TIME_LOCK_AFTER));
    assert!(check_btc_time_lock(&more, &tx, MIN_BTC_TIME_LOCK_AFTER));
    assert!(!check_btc_time_lock(&short, &tx, MIN_BTC_TIME_LOCK_AFTER));
    assert!(check_btc_time_lock(&short, &tx, 5));
}

#[test]
fn time_lock_needs_the_transaction_to_be_spent_from() {
    let lock = BTCTimeLock { lock_script: owner(), after: 6, btc_txid: [0xaa; 32] };
    assert!(check_btc_time_lock(&lock, &btc_tx(vec![([0x01; 32], 0), ([0xaa; 32], 9)]), 6));
    assert!(!check_btc_time_lock(&lock, &btc_tx(vec![([0x01; 32], 0)]), 6));
    assert!(!check_btc_time_lock(&lock, &btc_tx(vec![]), 6));
}

#[test]
fn normalize_zeroes_the_txid_of_a_sealed_lock() {
    let script = rgbpp_script(vec![]);
    let lock = rgbpp_script(RGBPPLock { out_index: 5, btc_txid: [0xcc; 32] }.as_bytes());
    let normalized = normalize_lock(&config(), &script, &lock).unwrap();
    assert_eq!(normalized.code_hash, lock.code_hash);
    assert_eq!(normalized.hash_type, lock.hash_type);
    let mut expected = vec![5, 0, 0, 0];
    expected.extend_from_slice(&[0u8; 32]);
    assert_eq!(normalized.args, expected);
}

#[test]
fn normalize_zeroes_the_txid_of_a_time_lock() {
    let script = rgbpp_script(vec![]);
    let args = BTCTimeLock { lock_script: owner(), after: 8, btc_txid: [0xcc; 32] }.as_bytes();
    let lock = Script { code_hash: [0x22; 32], hash_type: 1, args: args.clone() };
    let normalized = normalize_lock(&config(), &script, &lock).unwrap();
    let mut expected = args;
    let at = expected.len() - 32;
    for b in expected[at..].iter_mut() {
        *b = 0;
    }
    assert_eq!(normalized.args, expected);
    assert_eq!(normalized.code_hash, [0x22; 32]);
    assert_eq!(
        BTCTimeLock::from_slice(&normalized.args),
        Some(BTCTimeLock { lock_script: owner(), after: 8, btc_txid: [0; 32] })
    );
}

#[test]
fn normalize_leaves_other_locks_alone() {
    let script = rgbpp_script(vec![]);
    let lock = owner();
    assert_eq!(normalize_lock(&config(), &script, &lock), Ok(owner()));
}

#[test]
fn normalize_refuses_arguments_that_do_not_parse() {
    let script = rgbpp_script(vec![]);
    let sealed = rgbpp_script(vec![1, 2, 3]);
    let time_lock = Script { code_hash: [0x22; 32], hash_type: 1, args: vec![0; 36] };
    assert_eq!(normalize_lock(&config(), &script, &sealed), Err(Error::BadRGBPPLock));
    assert_eq!(normalize_lock(&config(), &script, &time_lock), Err(Error::BadBTCTimeLock));
}

#[test]
fn normalize_tries_the_time_lock_first() {
    let same_code = RGBPPConfig { btc_lc_type_hash: [0x11; 32], btc_time_lock_type_hash: [0x33; 32] };
    let script = rgbpp_script(vec![]);
    let lock = rgbpp_script(RGBPPLock { out_index: 5, btc_txid: [0xcc; 32] }.as_bytes());
    assert_eq!(normalize_lock(&same_code, &script, &lock), Err(Error::BadBTCTimeLock));
}
