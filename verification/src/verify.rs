//! The validation itself: the unlock is checked, then every output that goes
//! on carrying typed data must stay under the lock or behind a time lock.

use vstd::prelude::*;

use crate::bitcoin::{BTCTx, BTCTxView, MIN_BTC_TIME_LOCK_AFTER};
use crate::cell::{CkbTx, CkbTxView, Script, ScriptView};
use crate::commitment::{check_btc_tx_commitment, commitment_check, hash_opt_view};
use crate::error::{exit_status, Error};
use crate::rgbpp::{
    check_btc_time_lock, check_utxo_seal, is_btc_time_lock, is_script_code_equal, is_sealed,
    same_script_code, time_lock_code, time_lock_holds,
};
use crate::schemas::{
    parse_btc_time_lock, parse_rgbpp_lock, BTCTimeLock, RGBPPConfig, RGBPPLock, RGBPPLockView,
    RGBPPUnlock, RGBPPUnlockView,
};
use crate::wire::copy_range;

verus! {

/// What the light client is asked: whether the chain that the client of type
/// `type_hash` follows holds the transaction `txid` under at least
/// `confirmations` blocks, as `proof` is to show.
#[derive(Clone, Debug, PartialEq, Eq)]
pub struct TxExistsQuery {
    pub type_hash: [u8; 32],
    pub txid: [u8; 32],
    pub confirmations: u32,
    pub proof: Vec<u8>,
}

/// The question to put to the light client for an unlock, if there is one to
/// put: the configured client, the id of the Bitcoin transaction, no
/// confirmations asked for, and the proof that the unlock brings. Where the
/// sealed out point is not spent by the Bitcoin transaction the unlock is
/// refused whatever the chain holds, and the light client is not asked.
pub fn tx_exists_query(
    config: &RGBPPConfig,
    lock_args: &RGBPPLock,
    btc_tx: &BTCTx,
    unlock_witness: &RGBPPUnlock,
) -> (q: Option<TxExistsQuery>)
    ensures
        q is Some <==> is_sealed(lock_args@, btc_tx@),
        q matches Some(query) ==> {
            &&& query.type_hash@ == config.btc_lc_type_hash@
            &&& query.txid@ == btc_tx.txid@
            &&& query.confirmations == 0
            &&& query.proof@ == unlock_witness.btc_tx_proof@
        },
{
    if !check_utxo_seal(lock_args, btc_tx) {
        return None;
    }
    let proof = copy_range(
        unlock_witness.btc_tx_proof.as_slice(),
        0,
        unlock_witness.btc_tx_proof.len(),
    );
    assert(proof@ =~= unlock_witness.btc_tx_proof@);
    Some(
        TxExistsQuery {
            type_hash: config.btc_lc_type_hash,
            txid: btc_tx.txid,
            confirmations: 0,
            proof,
        },
    )
}

/// Whether an unlock is accepted. `tx_exists` is the light client's answer to
/// the question of `tx_exists_query`, and is not read where there was no
/// question. The sealed out point must be spent by the Bitcoin transaction;
/// then a refusal of the light client stands as it is; then the commitment
/// decides.
pub open spec fn unlock_check(
    config: RGBPPConfig,
    rgbpp_script: ScriptView,
    lock_args: RGBPPLockView,
    unlock: RGBPPUnlockView,
    btc_tx: BTCTxView,
    btc_commitment: Option<Seq<u8>>,
    tx_exists: Result<(), Error>,
    tx: CkbTxView,
) -> Result<(), Error> {
    if !is_sealed(lock_args, btc_tx) {
        Err(Error::UtxoSealMismatch)
    } else if tx_exists is Err {
        tx_exists
    } else {
        commitment_check(config, rgbpp_script, btc_commitment, tx, unlock)
    }
}

/// Checks the unlock of a cell sealed to `lock_args`.
pub fn verify_unlock(
    config: &RGBPPConfig,
    rgbpp_script: &Script,
    lock_args: &RGBPPLock,
    unlock_witness: &RGBPPUnlock,
    btc_tx: &BTCTx,
    btc_commitment: &Option<[u8; 32]>,
    tx_exists: Result<(), Error>,
    ckb_tx: &CkbTx,
) -> (r: Result<(), Error>)
    ensures
        r == unlock_check(
            *config,
            rgbpp_script@,
            lock_args@,
            unlock_witness@,
            btc_tx@,
            hash_opt_view(*btc_commitment),
            tx_exists,
            ckb_tx@,
        ),
{
    if !check_utxo_seal(lock_args, btc_tx) {
        return Err(Error::UtxoSealMismatch);
    }
    match tx_exists {
        Err(e) => {
            return Err(e);
        },
        Ok(_) => {},
    }
    check_btc_tx_commitment(config, rgbpp_script, btc_commitment, ckb_tx, unlock_witness)
}

/// A lock keeps its cell in custody: it is a lock of this code whose
/// arguments parse and name an out point that the Bitcoin transaction spends,
/// or else a time-locked exit whose arguments parse and that holds with the
/// least delay.
pub open spec fn lock_is_protected(
    config: RGBPPConfig,
    rgbpp_script: ScriptView,
    btc_tx: BTCTxView,
    lock: ScriptView,
) -> bool {
    if same_script_code(lock, rgbpp_script) {
        parse_rgbpp_lock(lock.args) is Some && is_sealed(parse_rgbpp_lock(lock.args)->0, btc_tx)
    } else if time_lock_code(config, lock) {
        parse_btc_time_lock(lock.args) is Some && time_lock_holds(
            parse_btc_time_lock(lock.args)->0,
            btc_tx,
            MIN_BTC_TIME_LOCK_AFTER,
        )
    } else {
        false
    }
}

/// Whether `lock` keeps its cell in custody.
pub fn check_output_lock(
    config: &RGBPPConfig,
    rgbpp_script: &Script,
    btc_tx: &BTCTx,
    lock: &Script,
) -> (protected: bool)
    ensures
        protected == lock_is_protected(*config, rgbpp_script@, btc_tx@, lock@),
{
    if is_script_code_equal(lock, rgbpp_script) {
        match RGBPPLock::from_slice(lock.args.as_slice()) {
            Some(lock_args) => check_utxo_seal(&lock_args, btc_tx),
            None => false,
        }
    } else if is_btc_time_lock(config, lock) {
        match BTCTimeLock::from_slice(lock.args.as_slice()) {
            Some(lock_args) => check_btc_time_lock(&lock_args, btc_tx, MIN_BTC_TIME_LOCK_AFTER),
            None => false,
        }
    } else {
        false
    }
}

/// Every output with a type script keeps its cell in custody.
pub open spec fn outputs_are_protected(
    config: RGBPPConfig,
    rgbpp_script: ScriptView,
    btc_tx: BTCTxView,
    tx: CkbTxView,
) -> bool {
    forall|i: int|
        0 <= i < tx.outputs.len() && (#[trigger] tx.outputs[i]).type_ is Some
            ==> lock_is_protected(config, rgbpp_script, btc_tx, tx.outputs[i].lock)
}

/// Whether the outputs are accepted: all of them, or none.
pub open spec fn outputs_check(
    config: RGBPPConfig,
    rgbpp_script: ScriptView,
    btc_tx: BTCTxView,
    tx: CkbTxView,
) -> Result<(), Error> {
    if outputs_are_protected(config, rgbpp_script, btc_tx, tx) {
        Ok(())
    } else {
        Err(Error::OutputCellWithUnknownLock)
    }
}

/// Checks that every output with a type script stays in custody.
pub fn verify_outputs(
    config: &RGBPPConfig,
    rgbpp_script: &Script,
    btc_tx: &BTCTx,
    ckb_tx: &CkbTx,
) -> (r: Result<(), Error>)
    ensures
        r == outputs_check(*config, rgbpp_script@, btc_tx@, ckb_tx@),
{
    let mut i: usize = 0;
    while i < ckb_tx.outputs.len()
        invariant
            i <= ckb_tx.outputs.len(),
            forall|k: int|
                0 <= k < i && (#[trigger] ckb_tx@.outputs[k]).type_ is Some ==> lock_is_protected(
                    *config,
                    rgbpp_script@,
                    btc_tx@,
                    ckb_tx@.outputs[k].lock,
                ),
        decreases ckb_tx.outputs.len() - i,
    {
        let output = &ckb_tx.outputs[i];
        assert(ckb_tx@.outputs[i as int] == output@);
        if output.type_.is_some() && !check_output_lock(
            config,
            rgbpp_script,
            btc_tx,
            &output.lock,
        ) {
            assert(ckb_tx@.outputs[i as int].type_ is Some);
            return Err(Error::OutputCellWithUnknownLock);
        }
        i = i + 1;
    }
    Ok(())
}

/// Whether a spend is accepted: the arguments of the lock must name an out
/// point, the unlock must be accepted, and then the outputs.
pub open spec fn spend_check(
    config: RGBPPConfig,
    rgbpp_script: ScriptView,
    unlock: RGBPPUnlockView,
    btc_tx: BTCTxView,
    btc_commitment: Option<Seq<u8>>,
    tx_exists: Result<(), Error>,
    tx: CkbTxView,
) -> Result<(), Error> {
    match parse_rgbpp_lock(rgbpp_script.args) {
        None => Err(Error::BadRGBPPLock),
        Some(lock_args) => match unlock_check(
            config,
            rgbpp_script,
            lock_args,
            unlock,
            btc_tx,
            btc_commitment,
            tx_exists,
            tx,
        ) {
            Err(e) => Err(e),
            Ok(_) => outputs_check(config, rgbpp_script, btc_tx, tx),
        },
    }
}

/// Validates the spend of a cell under the lock `rgbpp_script`.
pub fn verify_spend(
    config: &RGBPPConfig,
    rgbpp_script: &Script,
    unlock_witness: &RGBPPUnlock,
    btc_tx: &BTCTx,
    btc_commitment: &Option<[u8; 32]>,
    tx_exists: Result<(), Error>,
    ckb_tx: &CkbTx,
) -> (r: Result<(), Error>)
    ensures
        r == spend_check(
            *config,
            rgbpp_script@,
            unlock_witness@,
            btc_tx@,
            hash_opt_view(*btc_commitment),
            tx_exists,
            ckb_tx@,
        ),
{
    let lock_args = match RGBPPLock::from_slice(rgbpp_script.args.as_slice()) {
        Some(lock_args) => lock_args,
        None => {
            return Err(Error::BadRGBPPLock);
        },
    };
    match verify_unlock(
        config,
        rgbpp_script,
        &lock_args,
        unlock_witness,
        btc_tx,
        btc_commitment,
        tx_exists,
        ckb_tx,
    ) {
        Err(e) => {
            return Err(e);
        },
        Ok(_) => {},
    }
    verify_outputs(config, rgbpp_script, btc_tx, ckb_tx)
}

/// Validates the spend and gives the status to end with: zero where the spend
/// is accepted, the refusal's status where it is not.
pub fn program_entry(
    config: &RGBPPConfig,
    rgbpp_script: &Script,
    unlock_witness: &RGBPPUnlock,
    btc_tx: &BTCTx,
    btc_commitment: &Option<[u8; 32]>,
    tx_exists: Result<(), Error>,
    ckb_tx: &CkbTx,
) -> (status: i8)
    ensures
        status == exit_status(
            spend_check(
                *config,
                rgbpp_script@,
                unlock_witness@,
                btc_tx@,
                hash_opt_view(*btc_commitment),
                tx_exists,
                ckb_tx@,
            ),
        ),
        status == 0 <==> spend_check(
            *config,
            rgbpp_script@,
            unlock_witness@,
            btc_tx@,
            hash_opt_view(*btc_commitment),
            tx_exists,
            ckb_tx@,
        ) is Ok,
{
    match verify_spend(
        config,
        rgbpp_script,
        unlock_witness,
        btc_tx,
        btc_commitment,
        tx_exists,
        ckb_tx,
    ) {
        Ok(_) => 0,
        Err(err) => err.code(),
    }
}

} // verus!
