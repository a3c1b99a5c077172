//! What the commitment depends on, and what it does not.

use vstd::prelude::*;

use crate::bitcoin::double_sha256;
use crate::cell::{
    cell_output_bytes, cell_output_fits, lemma_cell_output_bytes_injective,
    lemma_cell_output_bytes_len, lemma_out_point_bytes_injective, out_point_bytes,
    CellOutputView, CkbTxView, InputCellView, ScriptView,
};
use crate::commitment::{
    commitment_digest, commitment_preimage, commitment_tag, committed_output, covered,
    covered_outputs, normalized_output, out_points_stream, outputs_stream,
};
use crate::rgbpp::{normalized_lock, same_script_code, time_lock_code};
use crate::schemas::{parse_btc_time_lock, parse_rgbpp_lock, RGBPPConfig, RGBPPUnlockView};
use crate::wire::{
    le_u16, lemma_le_u16_injective, lemma_le_u32_injective, lemma_le_u32_write,
    lemma_split_concat, size32, u32_at,
};

verus! {

broadcast use crate::wire::group_wire_lengths;

/// Inputs that name the same out points give the same stream.
proof fn lemma_out_points_stream_agrees(
    a: Seq<InputCellView>,
    b: Seq<InputCellView>,
    from: nat,
    to: nat,
)
    requires
        forall|i: int| from <= i < to ==> a[i].previous_output == b[i].previous_output,
    ensures
        out_points_stream(a, from, to) == out_points_stream(b, from, to),
    decreases to - from,
{
    if from < to {
        lemma_out_points_stream_agrees(a, b, from + 1, to);
    }
}

/// Outputs that add the same to the commitment one by one give the same
/// stream.
proof fn lemma_outputs_stream_agrees(
    config: RGBPPConfig,
    rgbpp_script: ScriptView,
    a: Seq<CellOutputView>,
    a_data: Seq<Seq<u8>>,
    b: Seq<CellOutputView>,
    b_data: Seq<Seq<u8>>,
    from: nat,
    to: nat,
)
    requires
        forall|j: int|
            from <= j < to ==> committed_output(config, rgbpp_script, a[j], a_data[j])
                == committed_output(config, rgbpp_script, b[j], b_data[j]),
    ensures
        outputs_stream(config, rgbpp_script, a, a_data, from, to) == outputs_stream(
            config,
            rgbpp_script,
            b,
            b_data,
            from,
            to,
        ),
    decreases to - from,
{
    if from < to {
        lemma_outputs_stream_agrees(config, rgbpp_script, a, a_data, b, b_data, from + 1, to);
    }
}

/// Two transactions agree on what the declared lengths cover: as many inputs
/// are covered in both and name the same out points, and as many outputs are
/// covered in both and are the same with the same data.
pub open spec fn covered_cells_agree(a: CkbTxView, b: CkbTxView, unlock: RGBPPUnlockView) -> bool {
    let n_in = covered(unlock.extra_data.input_len, a.inputs.len());
    let n_out = covered_outputs(a, unlock.extra_data.output_len);
    &&& n_in == covered(unlock.extra_data.input_len, b.inputs.len())
    &&& n_out == covered_outputs(b, unlock.extra_data.output_len)
    &&& forall|i: int| 0 <= i < n_in ==> a.inputs[i].previous_output == b.inputs[i].previous_output
    &&& forall|j: int|
        0 <= j < n_out ==> a.outputs[j] == b.outputs[j] && a.outputs_data[j] == b.outputs_data[j]
}

/// The commitment reads nothing behind the declared lengths: two transactions
/// that agree on the covered out points, outputs and data have the same
/// preimage and the same digest, whatever else they hold.
pub proof fn lemma_commitment_ignores_uncovered(
    config: RGBPPConfig,
    rgbpp_script: ScriptView,
    a: CkbTxView,
    b: CkbTxView,
    unlock: RGBPPUnlockView,
)
    requires
        covered_cells_agree(a, b, unlock),
    ensures
        commitment_preimage(config, rgbpp_script, a, unlock) == commitment_preimage(
            config,
            rgbpp_script,
            b,
            unlock,
        ),
        commitment_digest(config, rgbpp_script, a, unlock) == commitment_digest(
            config,
            rgbpp_script,
            b,
            unlock,
        ),
{
    let n_in = covered(unlock.extra_data.input_len, a.inputs.len());
    let n_out = covered_outputs(a, unlock.extra_data.output_len);
    lemma_out_points_stream_agrees(a.inputs, b.inputs, 0, n_in);
    lemma_outputs_stream_agrees(
        config,
        rgbpp_script,
        a.outputs,
        a.outputs_data,
        b.outputs,
        b.outputs_data,
        0,
        n_out,
    );
}

/// Two locks are the same but for the Bitcoin transaction id in their
/// arguments: they have the same code, and either the same arguments, or
/// arguments of a time-locked exit that agree on lock script and delay, or
/// arguments of this lock that agree on the output index.
pub open spec fn locks_differ_in_txid_only(
    config: RGBPPConfig,
    rgbpp_script: ScriptView,
    a: ScriptView,
    b: ScriptView,
) -> bool {
    &&& a.code_hash == b.code_hash
    &&& a.hash_type == b.hash_type
    &&& {
        ||| a.args == b.args
        ||| {
            &&& time_lock_code(config, a)
            &&& parse_btc_time_lock(a.args) is Some
            &&& parse_btc_time_lock(b.args) is Some
            &&& (parse_btc_time_lock(a.args)->0).lock_script == (parse_btc_time_lock(
                b.args,
            )->0).lock_script
            &&& (parse_btc_time_lock(a.args)->0).after == (parse_btc_time_lock(b.args)->0).after
        }
        ||| {
            &&& !time_lock_code(config, a)
            &&& same_script_code(rgbpp_script, a)
            &&& parse_rgbpp_lock(a.args) is Some
            &&& parse_rgbpp_lock(b.args) is Some
            &&& (parse_rgbpp_lock(a.args)->0).out_index == (parse_rgbpp_lock(b.args)->0).out_index
        }
    }
}

/// Normalization hides the Bitcoin transaction id: two locks that are the same
/// but for that id normalize to the same lock.
pub proof fn lemma_normalized_lock_hides_txid(
    config: RGBPPConfig,
    rgbpp_script: ScriptView,
    a: ScriptView,
    b: ScriptView,
)
    requires
        locks_differ_in_txid_only(config, rgbpp_script, a, b),
    ensures
        normalized_lock(config, rgbpp_script, a) == normalized_lock(config, rgbpp_script, b),
{
    if a.args == b.args {
        assert(a == b);
    }
}

/// Two transactions are the same but for the Bitcoin transaction id in the
/// arguments of some output locks.
pub open spec fn txs_differ_in_txid_only(
    config: RGBPPConfig,
    rgbpp_script: ScriptView,
    a: CkbTxView,
    b: CkbTxView,
) -> bool {
    &&& a.inputs == b.inputs
    &&& a.outputs_data == b.outputs_data
    &&& a.outputs.len() == b.outputs.len()
    &&& forall|j: int|
        0 <= j < a.outputs.len() ==> {
            &&& (#[trigger] a.outputs[j]).capacity == b.outputs[j].capacity
            &&& a.outputs[j].type_ == b.outputs[j].type_
            &&& locks_differ_in_txid_only(config, rgbpp_script, a.outputs[j].lock, b.outputs[j].lock)
        }
}

/// The commitment does not read the Bitcoin transaction id that an output's
/// arguments record: two transactions that differ in nothing else have the same
/// preimage and the same digest.
pub proof fn lemma_commitment_ignores_recorded_txid(
    config: RGBPPConfig,
    rgbpp_script: ScriptView,
    a: CkbTxView,
    b: CkbTxView,
    unlock: RGBPPUnlockView,
)
    requires
        txs_differ_in_txid_only(config, rgbpp_script, a, b),
    ensures
        commitment_preimage(config, rgbpp_script, a, unlock) == commitment_preimage(
            config,
            rgbpp_script,
            b,
            unlock,
        ),
        commitment_digest(config, rgbpp_script, a, unlock) == commitment_digest(
            config,
            rgbpp_script,
            b,
            unlock,
        ),
{
    let n_out = covered_outputs(a, unlock.extra_data.output_len);
    assert forall|j: int| 0 <= j < n_out implies committed_output(
        config,
        rgbpp_script,
        a.outputs[j],
        a.outputs_data[j],
    ) == committed_output(config, rgbpp_script, b.outputs[j], b.outputs_data[j]) by {
        lemma_normalized_lock_hides_txid(
            config,
            rgbpp_script,
            a.outputs[j].lock,
            b.outputs[j].lock,
        );
    }
    lemma_outputs_stream_agrees(
        config,
        rgbpp_script,
        a.outputs,
        a.outputs_data,
        b.outputs,
        b.outputs_data,
        0,
        n_out,
    );
}

/// Two different byte strings have the same double hash.
pub open spec fn hash_collides(x: Seq<u8>, y: Seq<u8>) -> bool {
    x != y && double_sha256(x) == double_sha256(y)
}

/// The declared lengths cover cells that are all there, and what they cover
/// states its sizes in full: each covered out point has a hash of 32 bytes,
/// each covered output fits once its lock is normalized, and its data is
/// shorter than 2^32 bytes.
pub open spec fn covered_cells_fit(
    config: RGBPPConfig,
    rgbpp_script: ScriptView,
    tx: CkbTxView,
    unlock: RGBPPUnlockView,
) -> bool {
    &&& unlock.extra_data.input_len <= tx.inputs.len()
    &&& unlock.extra_data.output_len <= tx.outputs.len()
    &&& unlock.extra_data.output_len <= tx.outputs_data.len()
    &&& forall|i: int|
        0 <= i < unlock.extra_data.input_len ==> (
        #[trigger] tx.inputs[i]).previous_output.tx_hash.len() == 32
    &&& forall|j: int|
        0 <= j < unlock.extra_data.output_len ==> output_fits(
            config,
            rgbpp_script,
            #[trigger] tx.outputs[j],
        )
    &&& forall|j: int|
        0 <= j < unlock.extra_data.output_len ==> (#[trigger] tx.outputs_data[j]).len()
            < 0x1_0000_0000
}

/// An output fits once its lock is normalized.
pub open spec fn output_fits(config: RGBPPConfig, rgbpp_script: ScriptView, output: CellOutputView)
    -> bool {
    normalized_output(config, rgbpp_script, output) matches Ok(o) ==> cell_output_fits(o)
}

/// The stream of `to - from` out points has 36 bytes for each.
proof fn lemma_out_points_stream_len(inputs: Seq<InputCellView>, from: nat, to: nat)
    requires
        from <= to,
        forall|i: int| from <= i < to ==> (#[trigger] inputs[i]).previous_output.tx_hash.len() == 32,
    ensures
        out_points_stream(inputs, from, to).len() == 36 * (to - from),
    decreases to - from,
{
    if from < to {
        lemma_out_points_stream_len(inputs, from + 1, to);
    }
}

/// Equal streams of out points come from equal out points.
proof fn lemma_out_points_stream_binds(
    a: Seq<InputCellView>,
    b: Seq<InputCellView>,
    from: nat,
    to: nat,
)
    requires
        from <= to,
        forall|i: int| from <= i < to ==> (#[trigger] a[i]).previous_output.tx_hash.len() == 32,
        forall|i: int| from <= i < to ==> (#[trigger] b[i]).previous_output.tx_hash.len() == 32,
        out_points_stream(a, from, to) == out_points_stream(b, from, to),
    ensures
        forall|i: int| from <= i < to ==> (#[trigger] a[i]).previous_output == b[i].previous_output,
    decreases to - from,
{
    if from < to {
        let pa = a[from as int].previous_output;
        let pb = b[from as int].previous_output;
        lemma_split_concat(
            out_point_bytes(pa),
            out_points_stream(a, from + 1, to),
            out_point_bytes(pb),
            out_points_stream(b, from + 1, to),
        );
        lemma_out_point_bytes_injective(pa, pb);
        lemma_out_points_stream_binds(a, b, from + 1, to);
    }
}

/// What one output adds to the commitment tells the output and its data: two
/// outputs that fit and add the same bytes, followed by whatever, are the same
/// once normalized, have the same data, and are followed by the same.
proof fn lemma_committed_output_binds(
    a: CellOutputView,
    a_data: Seq<u8>,
    a_rest: Seq<u8>,
    b: CellOutputView,
    b_data: Seq<u8>,
    b_rest: Seq<u8>,
)
    requires
        cell_output_fits(a),
        cell_output_fits(b),
        a_data.len() < 0x1_0000_0000,
        b_data.len() < 0x1_0000_0000,
        cell_output_bytes(a) + size32(a_data.len()) + a_data + a_rest == cell_output_bytes(b)
            + size32(b_data.len()) + b_data + b_rest,
    ensures
        a == b,
        a_data == b_data,
        a_rest == b_rest,
{
    let ca = cell_output_bytes(a);
    let cb = cell_output_bytes(b);
    let whole = ca + size32(a_data.len()) + a_data + a_rest;
    lemma_cell_output_bytes_len(a);
    lemma_cell_output_bytes_len(b);
    assert(u32_at(whole, 0) == u32_at(ca, 0)) by {
        assert(whole.subrange(0, 4) =~= ca.subrange(0, 4));
        lemma_le_u32_write(whole, 0);
        lemma_le_u32_write(ca, 0);
        lemma_le_u32_injective(u32_at(whole, 0), u32_at(ca, 0));
    }
    assert(u32_at(whole, 0) == u32_at(cb, 0)) by {
        assert(whole.subrange(0, 4) =~= cb.subrange(0, 4));
        lemma_le_u32_write(whole, 0);
        lemma_le_u32_write(cb, 0);
        lemma_le_u32_injective(u32_at(whole, 0), u32_at(cb, 0));
    }
    assert(ca.len() == cb.len());
    let a_tail = size32(a_data.len()) + a_data + a_rest;
    let b_tail = size32(b_data.len()) + b_data + b_rest;
    assert(ca + a_tail =~= whole);
    assert(cb + b_tail =~= whole);
    lemma_split_concat(ca, a_tail, cb, b_tail);
    lemma_cell_output_bytes_injective(a, b);
    let a_end = a_data + a_rest;
    let b_end = b_data + b_rest;
    assert(size32(a_data.len()) + a_end =~= a_tail);
    assert(size32(b_data.len()) + b_end =~= b_tail);
    lemma_split_concat(size32(a_data.len()), a_end, size32(b_data.len()), b_end);
    lemma_le_u32_injective(a_data.len() as u32, b_data.len() as u32);
    lemma_split_concat(a_data, a_rest, b_data, b_rest);
}

/// Equal streams of outputs come from outputs that are equal once normalized
/// and have equal data.
proof fn lemma_outputs_stream_binds(
    config: RGBPPConfig,
    rgbpp_script: ScriptView,
    a: Seq<CellOutputView>,
    a_data: Seq<Seq<u8>>,
    b: Seq<CellOutputView>,
    b_data: Seq<Seq<u8>>,
    from: nat,
    to: nat,
)
    requires
        from <= to,
        forall|j: int| from <= j < to ==> output_fits(config, rgbpp_script, #[trigger] a[j]),
        forall|j: int| from <= j < to ==> output_fits(config, rgbpp_script, #[trigger] b[j]),
        forall|j: int| from <= j < to ==> (#[trigger] a_data[j]).len() < 0x1_0000_0000,
        forall|j: int| from <= j < to ==> (#[trigger] b_data[j]).len() < 0x1_0000_0000,
        outputs_stream(config, rgbpp_script, a, a_data, from, to) is Ok,
        outputs_stream(config, rgbpp_script, a, a_data, from, to) == outputs_stream(
            config,
            rgbpp_script,
            b,
            b_data,
            from,
            to,
        ),
    ensures
        forall|j: int|
            from <= j < to ==> normalized_output(config, rgbpp_script, #[trigger] a[j])
                == normalized_output(config, rgbpp_script, b[j]) && a_data[j] == b_data[j],
    decreases to - from,
{
    if from < to {
        let k = from as int;
        let na = normalized_output(config, rgbpp_script, a[k])->Ok_0;
        let nb = normalized_output(config, rgbpp_script, b[k])->Ok_0;
        let ra = outputs_stream(config, rgbpp_script, a, a_data, from + 1, to)->Ok_0;
        let rb = outputs_stream(config, rgbpp_script, b, b_data, from + 1, to)->Ok_0;
        assert(output_fits(config, rgbpp_script, a[k]));
        assert(output_fits(config, rgbpp_script, b[k]));
        assert(a_data[k].len() < 0x1_0000_0000);
        assert(b_data[k].len() < 0x1_0000_0000);
        lemma_committed_output_binds(na, a_data[k], ra, nb, b_data[k], rb);
        lemma_outputs_stream_binds(config, rgbpp_script, a, a_data, b, b_data, from + 1, to);
    }
}

/// The commitment binds all that it covers. Where two transactions, each with
/// its own unlock, have the same preimage, and what each covers is there and
/// fits, the two unlocks name the same version and the same lengths, the
/// covered inputs name the same out points, and the covered outputs are the
/// same once normalized and have the same data. So no covered byte of a
/// normalized transaction can change without the preimage changing.
pub proof fn lemma_commitment_binds_covered(
    config: RGBPPConfig,
    rgbpp_script: ScriptView,
    a: CkbTxView,
    a_unlock: RGBPPUnlockView,
    b: CkbTxView,
    b_unlock: RGBPPUnlockView,
)
    requires
        covered_cells_fit(config, rgbpp_script, a, a_unlock),
        covered_cells_fit(config, rgbpp_script, b, b_unlock),
        commitment_preimage(config, rgbpp_script, a, a_unlock) is Ok,
        commitment_preimage(config, rgbpp_script, a, a_unlock) == commitment_preimage(
            config,
            rgbpp_script,
            b,
            b_unlock,
        ),
    ensures
        a_unlock.version == b_unlock.version,
        a_unlock.extra_data == b_unlock.extra_data,
        forall|i: int|
            0 <= i < a_unlock.extra_data.input_len ==> (#[trigger] a.inputs[i]).previous_output
                == b.inputs[i].previous_output,
        forall|j: int|
            0 <= j < a_unlock.extra_data.output_len ==> normalized_output(
                config,
                rgbpp_script,
                #[trigger] a.outputs[j],
            ) == normalized_output(config, rgbpp_script, b.outputs[j]) && a.outputs_data[j]
                == b.outputs_data[j],
{
    let a_in = a_unlock.extra_data.input_len as nat;
    let a_out = a_unlock.extra_data.output_len as nat;
    let b_in = b_unlock.extra_data.input_len as nat;
    let b_out = b_unlock.extra_data.output_len as nat;
    let a_lens = seq![a_unlock.extra_data.input_len, a_unlock.extra_data.output_len];
    let b_lens = seq![b_unlock.extra_data.input_len, b_unlock.extra_data.output_len];
    let a_points = out_points_stream(a.inputs, 0, a_in);
    let b_points = out_points_stream(b.inputs, 0, b_in);
    let a_outputs = outputs_stream(config, rgbpp_script, a.outputs, a.outputs_data, 0, a_out)->Ok_0;
    let b_outputs = outputs_stream(config, rgbpp_script, b.outputs, b.outputs_data, 0, b_out)->Ok_0;
    let pa = commitment_preimage(config, rgbpp_script, a, a_unlock)->Ok_0;
    let a_head = commitment_tag() + le_u16(a_unlock.version);
    let b_head = commitment_tag() + le_u16(b_unlock.version);
    assert(pa =~= a_head + (a_lens + (a_points + a_outputs)));
    assert(pa =~= b_head + (b_lens + (b_points + b_outputs)));
    lemma_split_concat(a_head, a_lens + (a_points + a_outputs), b_head, b_lens + (b_points + b_outputs));
    lemma_split_concat(
        commitment_tag(),
        le_u16(a_unlock.version),
        commitment_tag(),
        le_u16(b_unlock.version),
    );
    lemma_le_u16_injective(a_unlock.version, b_unlock.version);
    lemma_split_concat(a_lens, a_points + a_outputs, b_lens, b_points + b_outputs);
    assert(a_lens[0] == b_lens[0] && a_lens[1] == b_lens[1]);
    lemma_out_points_stream_len(a.inputs, 0, a_in);
    lemma_out_points_stream_len(b.inputs, 0, b_in);
    lemma_split_concat(a_points, a_outputs, b_points, b_outputs);
    lemma_out_points_stream_binds(a.inputs, b.inputs, 0, a_in);
    lemma_outputs_stream_binds(
        config,
        rgbpp_script,
        a.outputs,
        a.outputs_data,
        b.outputs,
        b.outputs_data,
        0,
        a_out,
    );
}

/// The digest binds all that the commitment covers, as far as the hash tells
/// preimages apart: where two transactions have the same digest and their
/// preimages are not two different byte strings with one hash, they agree on
/// all that `lemma_commitment_binds_covered` names.
pub proof fn lemma_digest_binds_covered(
    config: RGBPPConfig,
    rgbpp_script: ScriptView,
    a: CkbTxView,
    a_unlock: RGBPPUnlockView,
    b: CkbTxView,
    b_unlock: RGBPPUnlockView,
)
    requires
        covered_cells_fit(config, rgbpp_script, a, a_unlock),
        covered_cells_fit(config, rgbpp_script, b, b_unlock),
        commitment_digest(config, rgbpp_script, a, a_unlock) is Ok,
        commitment_digest(config, rgbpp_script, a, a_unlock) == commitment_digest(
            config,
            rgbpp_script,
            b,
            b_unlock,
        ),
        !hash_collides(
            commitment_preimage(config, rgbpp_script, a, a_unlock)->Ok_0,
            commitment_preimage(config, rgbpp_script, b, b_unlock)->Ok_0,
        ),
    ensures
        a_unlock.version == b_unlock.version,
        a_unlock.extra_data == b_unlock.extra_data,
        forall|i: int|
            0 <= i < a_unlock.extra_data.input_len ==> (#[trigger] a.inputs[i]).previous_output
                == b.inputs[i].previous_output,
        forall|j: int|
            0 <= j < a_unlock.extra_data.output_len ==> normalized_output(
                config,
                rgbpp_script,
                #[trigger] a.outputs[j],
            ) == normalized_output(config, rgbpp_script, b.outputs[j]) && a.outputs_data[j]
                == b.outputs_data[j],
{
    lemma_commitment_binds_covered(config, rgbpp_script, a, a_unlock, b, b_unlock);
}

} // verus!
