//! The commitment that binds a Bitcoin transaction to the spending transaction:
//! what is hashed, and how the digest is held against the one committed.

use vstd::prelude::*;

use crate::bitcoin::{double_sha256, sha2_twice};
use crate::cell::{
    cell_output_bytes, out_point_bytes, CellOutputView, CkbTx, CkbTxView, InputCellView, Script,
    ScriptView,
};
use crate::error::Error;
use crate::rgbpp::{normalize_lock, normalized_lock};
use crate::schemas::{RGBPPConfig, RGBPPUnlock, RGBPPUnlockView};
use crate::wire::{bytes_eq, le_u16, push_all, push_le_u16, push_size32, size32};

verus! {

broadcast use crate::wire::group_wire_lengths;

/// The only commitment version there is.
pub const COMMITMENT_VERSION: u16 = 0;

/// The five bytes `RGB++` that every commitment starts from.
pub open spec fn commitment_tag() -> Seq<u8> {
    seq![0x52u8, 0x47u8, 0x42u8, 0x2bu8, 0x2bu8]
}

/// How many cells a declared length covers, where only `available` are there.
pub open spec fn covered(declared: u8, available: nat) -> nat {
    if declared as nat <= available {
        declared as nat
    } else {
        available
    }
}

/// How many outputs a declared length covers: an output counts with its data.
pub open spec fn covered_outputs(tx: CkbTxView, declared: u8) -> nat {
    covered(
        declared,
        if tx.outputs.len() <= tx.outputs_data.len() {
            tx.outputs.len()
        } else {
            tx.outputs_data.len()
        },
    )
}

/// The out points of the inputs at `from .. to`, encoded one after the other.
pub open spec fn out_points_stream(inputs: Seq<InputCellView>, from: nat, to: nat) -> Seq<u8>
    decreases to - from,
{
    if from >= to {
        Seq::empty()
    } else {
        out_point_bytes(inputs[from as int].previous_output) + out_points_stream(
            inputs,
            from + 1,
            to,
        )
    }
}

/// An output as the commitment sees it: with its lock normalized.
pub open spec fn normalized_output(
    config: RGBPPConfig,
    rgbpp_script: ScriptView,
    output: CellOutputView,
) -> Result<CellOutputView, Error> {
    match normalized_lock(config, rgbpp_script, output.lock) {
        Ok(lock) => Ok(CellOutputView { lock, ..output }),
        Err(e) => Err(e),
    }
}

/// What one output adds to the commitment: its encoding with the lock
/// normalized, the length of its data as four little-endian bytes, and the
/// data.
pub open spec fn committed_output(
    config: RGBPPConfig,
    rgbpp_script: ScriptView,
    output: CellOutputView,
    data: Seq<u8>,
) -> Result<Seq<u8>, Error> {
    match normalized_output(config, rgbpp_script, output) {
        Ok(normalized) => Ok(cell_output_bytes(normalized) + size32(data.len()) + data),
        Err(e) => Err(e),
    }
}

/// What the outputs at `from .. to` add to the commitment, one after the
/// other. The first output whose lock is refused decides the refusal.
pub open spec fn outputs_stream(
    config: RGBPPConfig,
    rgbpp_script: ScriptView,
    outputs: Seq<CellOutputView>,
    outputs_data: Seq<Seq<u8>>,
    from: nat,
    to: nat,
) -> Result<Seq<u8>, Error>
    decreases to - from,
{
    if from >= to {
        Ok(Seq::empty())
    } else {
        match committed_output(
            config,
            rgbpp_script,
            outputs[from as int],
            outputs_data[from as int],
        ) {
            Err(e) => Err(e),
            Ok(item) => match outputs_stream(
                config,
                rgbpp_script,
                outputs,
                outputs_data,
                from + 1,
                to,
            ) {
                Err(e) => Err(e),
                Ok(rest) => Ok(item + rest),
            },
        }
    }
}

/// The bytes that are hashed into the commitment: the tag, the version as two
/// little-endian bytes, the two declared lengths as one byte each, the out
/// point of each covered input, and each covered output with its data.
pub open spec fn commitment_preimage(
    config: RGBPPConfig,
    rgbpp_script: ScriptView,
    tx: CkbTxView,
    unlock: RGBPPUnlockView,
) -> Result<Seq<u8>, Error> {
    let input_len = unlock.extra_data.input_len;
    let output_len = unlock.extra_data.output_len;
    match outputs_stream(
        config,
        rgbpp_script,
        tx.outputs,
        tx.outputs_data,
        0,
        covered_outputs(tx, output_len),
    ) {
        Err(e) => Err(e),
        Ok(outputs) => Ok(
            commitment_tag() + le_u16(unlock.version) + seq![input_len, output_len]
                + out_points_stream(tx.inputs, 0, covered(input_len, tx.inputs.len())) + outputs,
        ),
    }
}

/// The digest that the Bitcoin transaction must commit to: the double hash of
/// the preimage.
pub open spec fn commitment_digest(
    config: RGBPPConfig,
    rgbpp_script: ScriptView,
    tx: CkbTxView,
    unlock: RGBPPUnlockView,
) -> Result<Seq<u8>, Error> {
    match commitment_preimage(config, rgbpp_script, tx, unlock) {
        Ok(preimage) => Ok(double_sha256(preimage)),
        Err(e) => Err(e),
    }
}

/// The view of a byte string or of a refusal.
pub open spec fn bytes_result_view(r: Result<Vec<u8>, Error>) -> Result<Seq<u8>, Error> {
    match r {
        Ok(bytes) => Ok(bytes@),
        Err(e) => Err(e),
    }
}

/// The view of a digest or of a refusal.
pub open spec fn hash_result_view(r: Result<[u8; 32], Error>) -> Result<Seq<u8>, Error> {
    match r {
        Ok(hash) => Ok(hash@),
        Err(e) => Err(e),
    }
}

/// The view of a hash that may be absent.
pub open spec fn hash_opt_view(h: Option<[u8; 32]>) -> Option<Seq<u8>> {
    match h {
        Some(hash) => Some(hash@),
        None => None,
    }
}

/// Builds the bytes that are hashed into the commitment.
pub fn build_commitment_preimage(
    config: &RGBPPConfig,
    rgbpp_script: &Script,
    ckb_tx: &CkbTx,
    unlock_witness: &RGBPPUnlock,
) -> (r: Result<Vec<u8>, Error>)
    ensures
        bytes_result_view(r) == commitment_preimage(
            *config,
            rgbpp_script@,
            ckb_tx@,
            unlock_witness@,
        ),
{
    let input_len: u8 = unlock_witness.extra_data.input_len;
    let output_len: u8 = unlock_witness.extra_data.output_len;
    let mut out: Vec<u8> = Vec::new();
    out.push(0x52);
    out.push(0x47);
    out.push(0x42);
    out.push(0x2b);
    out.push(0x2b);
    push_le_u16(&mut out, unlock_witness.version);
    out.push(input_len);
    out.push(output_len);
    let ghost header = commitment_tag() + le_u16(unlock_witness.version) + seq![
        input_len,
        output_len,
    ];
    assert(out@ =~= header);

    let n_in: usize = if (input_len as usize) <= ckb_tx.inputs.len() {
        input_len as usize
    } else {
        ckb_tx.inputs.len()
    };
    let mut i: usize = 0;
    while i < n_in
        invariant
            i <= n_in <= ckb_tx.inputs.len(),
            out@ + out_points_stream(ckb_tx@.inputs, i as nat, n_in as nat) == header
                + out_points_stream(ckb_tx@.inputs, 0, n_in as nat),
        decreases n_in - i,
    {
        let ghost before = out@;
        let bytes = ckb_tx.inputs[i].previous_output.as_bytes();
        push_all(&mut out, bytes.as_slice());
        proof {
            let rest = out_points_stream(ckb_tx@.inputs, (i + 1) as nat, n_in as nat);
            assert(ckb_tx@.inputs[i as int].previous_output == ckb_tx.inputs[i as int].previous_output@);
            assert(out@ + rest =~= before + (bytes@ + rest));
        }
        i = i + 1;
    }
    let ghost head = header + out_points_stream(ckb_tx@.inputs, 0, n_in as nat);
    assert(out@ =~= head);

    let available: usize = if ckb_tx.outputs.len() <= ckb_tx.outputs_data.len() {
        ckb_tx.outputs.len()
    } else {
        ckb_tx.outputs_data.len()
    };
    let n_out: usize = if (output_len as usize) <= available {
        output_len as usize
    } else {
        available
    };
    let ghost full = outputs_stream(
        *config,
        rgbpp_script@,
        ckb_tx@.outputs,
        ckb_tx@.outputs_data,
        0,
        n_out as nat,
    );
    let ghost mut done: Seq<u8> = Seq::empty();
    let mut j: usize = 0;
    while j < n_out
        invariant
            j <= n_out,
            n_out <= ckb_tx.outputs.len(),
            n_out <= ckb_tx.outputs_data.len(),
            n_out == covered_outputs(ckb_tx@, unlock_witness@.extra_data.output_len),
            out@ == head + done,
            full == outputs_stream(
                *config,
                rgbpp_script@,
                ckb_tx@.outputs,
                ckb_tx@.outputs_data,
                0,
                n_out as nat,
            ),
            full == match outputs_stream(
                *config,
                rgbpp_script@,
                ckb_tx@.outputs,
                ckb_tx@.outputs_data,
                j as nat,
                n_out as nat,
            ) {
                Ok(rest) => Ok(done + rest),
                Err(e) => Err(e),
            },
        decreases n_out - j,
    {
        let output = &ckb_tx.outputs[j];
        let data = &ckb_tx.outputs_data[j];
        assert(ckb_tx@.outputs[j as int] == output@);
        assert(ckb_tx@.outputs_data[j as int] == data@);
        let lock = match normalize_lock(config, rgbpp_script, &output.lock) {
            Ok(lock) => lock,
            Err(e) => {
                assert(committed_output(*config, rgbpp_script@, output@, data@) == Err::<
                    Seq<u8>,
                    Error,
                >(e));
                return Err(e);
            },
        };
        let ghost before = out@;
        let cell = output.as_bytes_with_lock(&lock);
        push_all(&mut out, cell.as_slice());
        push_size32(&mut out, data.len() as u128);
        push_all(&mut out, data.as_slice());
        proof {
            let item = committed_output(*config, rgbpp_script@, output@, data@)->Ok_0;
            assert(out@ =~= before + item);
            let next = outputs_stream(
                *config,
                rgbpp_script@,
                ckb_tx@.outputs,
                ckb_tx@.outputs_data,
                (j + 1) as nat,
                n_out as nat,
            );
            if next is Ok {
                assert(done + (item + next->Ok_0) =~= (done + item) + next->Ok_0);
            }
            done = done + item;
            assert(out@ =~= head + done);
        }
        j = j + 1;
    }
    proof {
        assert(full == Ok::<Seq<u8>, Error>(done + Seq::<u8>::empty()));
        assert(done + Seq::<u8>::empty() =~= done);
        assert(head + done =~= header + out_points_stream(ckb_tx@.inputs, 0, n_in as nat) + done);
    }
    Ok(out)
}

/// No input behind the declared length consumes a cell with a type script.
pub open spec fn inputs_are_committed(tx: CkbTxView, input_len: u8) -> bool {
    forall|i: int| input_len <= i < tx.inputs.len() ==> !(#[trigger] tx.inputs[i]).has_type
}

/// No output behind the declared length carries a type script.
pub open spec fn outputs_are_committed(tx: CkbTxView, output_len: u8) -> bool {
    forall|i: int| output_len <= i < tx.outputs.len() ==> (#[trigger] tx.outputs[i]).type_ is None
}

/// The verdict on a recomputed digest: accepted where it is the commitment.
pub open spec fn commitment_verdict(recomputed: Seq<u8>, commitment: Seq<u8>) -> Result<
    (),
    Error,
> {
    if recomputed == commitment {
        Ok(())
    } else {
        Err(Error::CommitmentMismatch)
    }
}

/// Whether the Bitcoin transaction commits to the spending transaction.
/// `btc_commitment` is the commitment found in the Bitcoin transaction, if it
/// holds one. The checks run in this order, and the first that fails decides:
/// a commitment is there; the version is the supported one; both declared
/// lengths are positive; no input and no output behind them is typed; every
/// covered lock normalizes; the double hash of the preimage is the commitment.
pub open spec fn commitment_check(
    config: RGBPPConfig,
    rgbpp_script: ScriptView,
    btc_commitment: Option<Seq<u8>>,
    tx: CkbTxView,
    unlock: RGBPPUnlockView,
) -> Result<(), Error> {
    if btc_commitment is None {
        Err(Error::BadBtcCommitment)
    } else if unlock.version != COMMITMENT_VERSION {
        Err(Error::UnknownCommitmentVersion)
    } else if unlock.extra_data.input_len == 0 || unlock.extra_data.output_len == 0 {
        Err(Error::BadBtcCommitment)
    } else if !inputs_are_committed(tx, unlock.extra_data.input_len) || !outputs_are_committed(
        tx,
        unlock.extra_data.output_len,
    ) {
        Err(Error::CommitmentMismatch)
    } else {
        match commitment_digest(config, rgbpp_script, tx, unlock) {
            Err(e) => Err(e),
            Ok(digest) => commitment_verdict(digest, btc_commitment->0),
        }
    }
}

/// Holds a recomputed digest against the commitment of the Bitcoin
/// transaction.
pub fn compare_commitment(recomputed: &[u8; 32], btc_commitment: &[u8; 32]) -> (r: Result<
    (),
    Error,
>)
    ensures
        r == commitment_verdict(recomputed@, btc_commitment@),
{
    if bytes_eq(recomputed.as_slice(), btc_commitment.as_slice()) {
        Ok(())
    } else {
        Err(Error::CommitmentMismatch)
    }
}

/// Whether every input behind the first `input_len` consumes an untyped cell.
pub fn check_inputs_committed(ckb_tx: &CkbTx, input_len: u8) -> (ok: bool)
    ensures
        ok == inputs_are_committed(ckb_tx@, input_len),
{
    let mut i: usize = input_len as usize;
    while i < ckb_tx.inputs.len()
        invariant
            input_len <= i,
            forall|k: int| input_len <= k < i && k < ckb_tx.inputs.len() ==> !(
            #[trigger] ckb_tx@.inputs[k]).has_type,
        decreases ckb_tx.inputs.len() - i,
    {
        if ckb_tx.inputs[i].has_type {
            assert(ckb_tx@.inputs[i as int].has_type);
            return false;
        }
        i = i + 1;
    }
    true
}

/// Whether every output behind the first `output_len` is untyped.
pub fn check_outputs_committed(ckb_tx: &CkbTx, output_len: u8) -> (ok: bool)
    ensures
        ok == outputs_are_committed(ckb_tx@, output_len),
{
    let mut i: usize = output_len as usize;
    while i < ckb_tx.outputs.len()
        invariant
            output_len <= i,
            forall|k: int| output_len <= k < i && k < ckb_tx.outputs.len() ==> (
            #[trigger] ckb_tx@.outputs[k]).type_ is None,
        decreases ckb_tx.outputs.len() - i,
    {
        if ckb_tx.outputs[i].type_.is_some() {
            assert(ckb_tx@.outputs[i as int].type_ is Some);
            return false;
        }
        i = i + 1;
    }
    true
}

/// Computes the digest that the Bitcoin transaction must commit to.
pub fn recompute_commitment(
    config: &RGBPPConfig,
    rgbpp_script: &Script,
    ckb_tx: &CkbTx,
    unlock_witness: &RGBPPUnlock,
) -> (r: Result<[u8; 32], Error>)
    ensures
        hash_result_view(r) == commitment_digest(
            *config,
            rgbpp_script@,
            ckb_tx@,
            unlock_witness@,
        ),
{
    match build_commitment_preimage(config, rgbpp_script, ckb_tx, unlock_witness) {
        Ok(preimage) => Ok(sha2_twice(preimage.as_slice())),
        Err(e) => Err(e),
    }
}

/// Checks that the Bitcoin transaction commits to the spending transaction.
pub fn check_btc_tx_commitment(
    config: &RGBPPConfig,
    rgbpp_script: &Script,
    btc_commitment: &Option<[u8; 32]>,
    ckb_tx: &CkbTx,
    unlock_witness: &RGBPPUnlock,
) -> (r: Result<(), Error>)
    ensures
        r == commitment_check(
            *config,
            rgbpp_script@,
            hash_opt_view(*btc_commitment),
            ckb_tx@,
            unlock_witness@,
        ),
{
    let commitment = match btc_commitment {
        Some(c) => c,
        None => {
            return Err(Error::BadBtcCommitment);
        },
    };
    let input_len: u8 = unlock_witness.extra_data.input_len;
    let output_len: u8 = unlock_witness.extra_data.output_len;
    if unlock_witness.version != COMMITMENT_VERSION {
        return Err(Error::UnknownCommitmentVersion);
    }
    if input_len == 0 || output_len == 0 {
        return Err(Error::BadBtcCommitment);
    }
    if !check_inputs_committed(ckb_tx, input_len) {
        return Err(Error::CommitmentMismatch);
    }
    if !check_outputs_committed(ckb_tx, output_len) {
        return Err(Error::CommitmentMismatch);
    }
    match recompute_commitment(config, rgbpp_script, ckb_tx, unlock_witness) {
        Ok(recomputed) => compare_commitment(&recomputed, commitment),
        Err(e) => Err(e),
    }
}

} // verus!
