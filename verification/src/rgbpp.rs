//! The rules of the lock: which scripts count as the same code, when an out
//! point is sealed, when a time-locked exit holds, and how a lock is
//! normalized before it is committed to.

use vstd::prelude::*;

use crate::bitcoin::{BTCTx, BTCTxView, TxInView};
use crate::cell::{Script, ScriptView};
use crate::error::Error;
use crate::schemas::{
    btc_time_lock_bytes, parse_btc_time_lock, parse_rgbpp_lock, rgbpp_lock_bytes, BTCTimeLock,
    BTCTimeLockView, RGBPPConfig, RGBPPLock, RGBPPLockView,
};
use crate::wire::{bytes_eq, copy_range, zeros};

verus! {

/// The hash type under which a script's code is referred to by type hash.
pub const HASH_TYPE_TYPE: u8 = 1;

/// Two scripts run the same code: the code hash and the hash type agree. The
/// arguments play no part.
pub open spec fn same_script_code(a: ScriptView, b: ScriptView) -> bool {
    a.code_hash == b.code_hash && a.hash_type == b.hash_type
}

/// Whether two scripts run the same code, whatever their arguments.
pub fn is_script_code_equal(a: &Script, b: &Script) -> (same: bool)
    ensures
        same == same_script_code(a@, b@),
{
    a.hash_type == b.hash_type && bytes_eq(a.code_hash.as_slice(), b.code_hash.as_slice())
}

/// A lock is the time-locked exit: its code is referred to by type hash, and
/// the hash is the one the configuration names.
pub open spec fn time_lock_code(config: RGBPPConfig, lock: ScriptView) -> bool {
    lock.code_hash == config.btc_time_lock_type_hash@ && lock.hash_type == HASH_TYPE_TYPE
}

/// Whether `lock` is the time-locked exit that `config` names.
pub fn is_btc_time_lock(config: &RGBPPConfig, lock: &Script) -> (yes: bool)
    ensures
        yes == time_lock_code(*config, lock@),
{
    lock.hash_type == HASH_TYPE_TYPE && bytes_eq(
        lock.code_hash.as_slice(),
        config.btc_time_lock_type_hash.as_slice(),
    )
}

/// The out point that `lock_args` names is spent by `btc_tx`: some input of
/// the transaction has exactly that transaction id and that index.
pub open spec fn is_sealed(lock_args: RGBPPLockView, btc_tx: BTCTxView) -> bool {
    exists|i: int|
        0 <= i < btc_tx.inputs.len() && (#[trigger] btc_tx.inputs[i]).previous_output == (
            lock_args.btc_txid,
            lock_args.out_index,
        )
}

/// Whether the out point that `lock_args` names is among the inputs of
/// `btc_tx`.
pub fn check_utxo_seal(lock_args: &RGBPPLock, btc_tx: &BTCTx) -> (sealed: bool)
    ensures
        sealed == is_sealed(lock_args@, btc_tx@),
{
    let mut i: usize = 0;
    while i < btc_tx.inputs.len()
        invariant
            i <= btc_tx.inputs.len(),
            forall|k: int|
                0 <= k < i ==> (#[trigger] btc_tx@.inputs[k]).previous_output != (
                    lock_args@.btc_txid,
                    lock_args@.out_index,
                ),
        decreases btc_tx.inputs.len() - i,
    {
        let txin = &btc_tx.inputs[i];
        if txin.previous_output.1 == lock_args.out_index && bytes_eq(
            txin.previous_output.0.as_slice(),
            lock_args.btc_txid.as_slice(),
        ) {
            assert(btc_tx@.inputs[i as int].previous_output == (
                lock_args@.btc_txid,
                lock_args@.out_index,
            ));
            return true;
        }
        i = i + 1;
    }
    false
}

/// Whether an out point is sealed does not depend on the order of the inputs:
/// two transactions with the same inputs in any order give the same answer.
pub proof fn lemma_seal_ignores_input_order(lock_args: RGBPPLockView, a: BTCTxView, b: BTCTxView)
    requires
        a.inputs.to_multiset() == b.inputs.to_multiset(),
    ensures
        is_sealed(lock_args, a) == is_sealed(lock_args, b),
{
    a.inputs.to_multiset_ensures();
    b.inputs.to_multiset_ensures();
    let target = (lock_args.btc_txid, lock_args.out_index);
    if is_sealed(lock_args, a) {
        let i = choose|i: int|
            0 <= i < a.inputs.len() && (#[trigger] a.inputs[i]).previous_output == target;
        assert(a.inputs.contains(a.inputs[i]));
        assert(a.inputs.to_multiset().count(a.inputs[i]) > 0);
        assert(b.inputs.to_multiset().count(a.inputs[i]) > 0);
        assert(b.inputs.contains(a.inputs[i]));
    }
    if is_sealed(lock_args, b) {
        let i = choose|i: int|
            0 <= i < b.inputs.len() && (#[trigger] b.inputs[i]).previous_output == target;
        assert(b.inputs.contains(b.inputs[i]));
        assert(b.inputs.to_multiset().count(b.inputs[i]) > 0);
        assert(a.inputs.to_multiset().count(b.inputs[i]) > 0);
        assert(a.inputs.contains(b.inputs[i]));
    }
}

/// Whether an out point is sealed does not depend on inputs that spend
/// something else: putting such an input anywhere among the others changes
/// nothing.
pub proof fn lemma_seal_ignores_unrelated_input(
    lock_args: RGBPPLockView,
    btc_tx: BTCTxView,
    at: int,
    unrelated: TxInView,
)
    requires
        0 <= at <= btc_tx.inputs.len(),
        unrelated.previous_output != (lock_args.btc_txid, lock_args.out_index),
    ensures
        is_sealed(
            lock_args,
            BTCTxView { inputs: btc_tx.inputs.insert(at, unrelated), ..btc_tx },
        ) == is_sealed(lock_args, btc_tx),
{
    let target = (lock_args.btc_txid, lock_args.out_index);
    let wider = BTCTxView { inputs: btc_tx.inputs.insert(at, unrelated), ..btc_tx };
    btc_tx.inputs.insert_ensures(at, unrelated);
    if is_sealed(lock_args, btc_tx) {
        let i = choose|i: int|
            0 <= i < btc_tx.inputs.len() && (#[trigger] btc_tx.inputs[i]).previous_output
                == target;
        if i < at {
            assert(wider.inputs[i] == btc_tx.inputs[i]);
        } else {
            assert(wider.inputs[i + 1] == btc_tx.inputs[i]);
        }
    }
    if is_sealed(lock_args, wider) {
        let i = choose|i: int|
            0 <= i < wider.inputs.len() && (#[trigger] wider.inputs[i]).previous_output == target;
        if i < at {
            assert(btc_tx.inputs[i] == wider.inputs[i]);
        } else {
            assert(i != at);
            assert(btc_tx.inputs[i - 1] == wider.inputs[i]);
        }
    }
}

/// Some input of `btc_tx` spends an output of the transaction `txid`.
pub open spec fn spends_from(btc_tx: BTCTxView, txid: Seq<u8>) -> bool {
    exists|i: int|
        0 <= i < btc_tx.inputs.len() && (#[trigger] btc_tx.inputs[i]).previous_output.0 == txid
}

/// A time-locked exit holds: the transaction it waits on is spent from by
/// `btc_tx`, and it waits for at least `min_lock` confirmations.
pub open spec fn time_lock_holds(lock_args: BTCTimeLockView, btc_tx: BTCTxView, min_lock: u32)
    -> bool {
    lock_args.after >= min_lock && spends_from(btc_tx, lock_args.btc_txid)
}

/// Whether the time-locked exit that `lock_args` describes holds against
/// `btc_tx` and the least delay `min_lock`.
pub fn check_btc_time_lock(lock_args: &BTCTimeLock, btc_tx: &BTCTx, min_lock: u32) -> (holds: bool)
    ensures
        holds == time_lock_holds(lock_args@, btc_tx@, min_lock),
{
    if lock_args.after < min_lock {
        return false;
    }
    let mut i: usize = 0;
    while i < btc_tx.inputs.len()
        invariant
            i <= btc_tx.inputs.len(),
            lock_args.after >= min_lock,
            forall|k: int|
                0 <= k < i ==> (#[trigger] btc_tx@.inputs[k]).previous_output.0
                    != lock_args@.btc_txid,
        decreases btc_tx.inputs.len() - i,
    {
        let txin = &btc_tx.inputs[i];
        if bytes_eq(txin.previous_output.0.as_slice(), lock_args.btc_txid.as_slice()) {
            assert(btc_tx@.inputs[i as int].previous_output.0 == lock_args@.btc_txid);
            return true;
        }
        i = i + 1;
    }
    false
}

/// The lock as the commitment sees it. A time-locked exit and a lock of this
/// code have the transaction id in their arguments set to zero, since the
/// commitment is made before that id exists; arguments that do not parse are
/// refused. Any other lock stays as it is.
pub open spec fn normalized_lock(config: RGBPPConfig, rgbpp_script: ScriptView, lock: ScriptView)
    -> Result<ScriptView, Error> {
    if time_lock_code(config, lock) {
        match parse_btc_time_lock(lock.args) {
            Some(l) => Ok(
                ScriptView {
                    args: btc_time_lock_bytes(BTCTimeLockView { btc_txid: zeros(32), ..l }),
                    ..lock
                },
            ),
            None => Err(Error::BadBTCTimeLock),
        }
    } else if same_script_code(rgbpp_script, lock) {
        match parse_rgbpp_lock(lock.args) {
            Some(l) => Ok(
                ScriptView {
                    args: rgbpp_lock_bytes(RGBPPLockView { btc_txid: zeros(32), ..l }),
                    ..lock
                },
            ),
            None => Err(Error::BadRGBPPLock),
        }
    } else {
        Ok(lock)
    }
}

/// The view of a normalized lock or of its refusal.
pub open spec fn script_result_view(r: Result<Script, Error>) -> Result<ScriptView, Error> {
    match r {
        Ok(s) => Ok(s@),
        Err(e) => Err(e),
    }
}

/// Normalizes `lock` for the commitment: a new script, the one given is not
/// changed.
pub fn normalize_lock(config: &RGBPPConfig, rgbpp_script: &Script, lock: &Script) -> (r: Result<
    Script,
    Error,
>)
    ensures
        script_result_view(r) == normalized_lock(*config, rgbpp_script@, lock@),
{
    if is_btc_time_lock(config, lock) {
        match BTCTimeLock::from_slice(lock.args.as_slice()) {
            Some(l) => {
                let zeroed = BTCTimeLock {
                    lock_script: l.lock_script,
                    after: l.after,
                    btc_txid: [0u8; 32],
                };
                assert(zeroed.btc_txid@ =~= zeros(32));
                Ok(
                    Script {
                        code_hash: lock.code_hash,
                        hash_type: lock.hash_type,
                        args: zeroed.as_bytes(),
                    },
                )
            },
            None => Err(Error::BadBTCTimeLock),
        }
    } else if is_script_code_equal(rgbpp_script, lock) {
        match RGBPPLock::from_slice(lock.args.as_slice()) {
            Some(l) => {
                let zeroed = RGBPPLock { out_index: l.out_index, btc_txid: [0u8; 32] };
                assert(zeroed.btc_txid@ =~= zeros(32));
                Ok(
                    Script {
                        code_hash: lock.code_hash,
                        hash_type: lock.hash_type,
                        args: zeroed.as_bytes(),
                    },
                )
            },
            None => Err(Error::BadRGBPPLock),
        }
    } else {
        let args = copy_range(lock.args.as_slice(), 0, lock.args.len());
        assert(args@ =~= lock.args@);
        Ok(Script { code_hash: lock.code_hash, hash_type: lock.hash_type, args })
    }
}

} // verus!
