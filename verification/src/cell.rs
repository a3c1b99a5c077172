//! Cells, scripts and the spending transaction, with their canonical byte encodings.

use ckb_std::ckb_types::packed;
use ckb_std::ckb_types::prelude::{Builder, Entity};
use vstd::prelude::*;

use crate::wire::{
    copy_range, le_u32, le_u64, lemma_le_u32_injective, lemma_le_u32_read, lemma_le_u32_write,
    lemma_le_u64_injective, lemma_split_concat, read_hash, read_le_u32, size32, u32_at,
};

verus! {

broadcast use crate::wire::group_wire_lengths;

/// A script: the code it runs, how the code reference is read, and its arguments.
#[derive(Clone, Debug, PartialEq, Eq)]
pub struct Script {
    pub code_hash: [u8; 32],
    pub hash_type: u8,
    pub args: Vec<u8>,
}

/// What a `Script` holds, as plain values.
pub struct ScriptView {
    pub code_hash: Seq<u8>,
    pub hash_type: u8,
    pub args: Seq<u8>,
}

impl View for Script {
    type V = ScriptView;

    open spec fn view(&self) -> ScriptView {
        ScriptView { code_hash: self.code_hash@, hash_type: self.hash_type, args: self.args@ }
    }
}

/// A reference to an output of an earlier transaction of this ledger.
#[derive(Clone, Copy, Debug, PartialEq, Eq)]
pub struct OutPoint {
    pub tx_hash: [u8; 32],
    pub index: u32,
}

/// What an `OutPoint` holds, as plain values.
pub struct OutPointView {
    pub tx_hash: Seq<u8>,
    pub index: u32,
}

impl View for OutPoint {
    type V = OutPointView;

    open spec fn view(&self) -> OutPointView {
        OutPointView { tx_hash: self.tx_hash@, index: self.index }
    }
}

/// An input of the spending transaction: the cell it consumes, and whether that
/// cell carries a type script.
#[derive(Clone, Copy, Debug, PartialEq, Eq)]
pub struct InputCell {
    pub previous_output: OutPoint,
    pub has_type: bool,
}

/// What an `InputCell` holds, as plain values.
pub struct InputCellView {
    pub previous_output: OutPointView,
    pub has_type: bool,
}

impl View for InputCell {
    type V = InputCellView;

    open spec fn view(&self) -> InputCellView {
        InputCellView { previous_output: self.previous_output@, has_type: self.has_type }
    }
}

/// An output of the spending transaction.
#[derive(Clone, Debug, PartialEq, Eq)]
pub struct CellOutput {
    pub capacity: u64,
    pub lock: Script,
    pub type_: Option<Script>,
}

/// What a `CellOutput` holds, as plain values.
pub struct CellOutputView {
    pub capacity: u64,
    pub lock: ScriptView,
    pub type_: Option<ScriptView>,
}

/// The view of a script that may be absent.
pub open spec fn script_opt_view(s: Option<Script>) -> Option<ScriptView> {
    match s {
        Some(script) => Some(script@),
        None => None,
    }
}

impl View for CellOutput {
    type V = CellOutputView;

    open spec fn view(&self) -> CellOutputView {
        CellOutputView {
            capacity: self.capacity,
            lock: self.lock@,
            type_: script_opt_view(self.type_),
        }
    }
}

/// The spending transaction as the validation reads it: its inputs in order, its
/// outputs in order, and the data of each output at the same position.
#[derive(Clone, Debug, PartialEq, Eq)]
pub struct CkbTx {
    pub inputs: Vec<InputCell>,
    pub outputs: Vec<CellOutput>,
    pub outputs_data: Vec<Vec<u8>>,
}

/// What a `CkbTx` holds, as plain values.
pub struct CkbTxView {
    pub inputs: Seq<InputCellView>,
    pub outputs: Seq<CellOutputView>,
    pub outputs_data: Seq<Seq<u8>>,
}

impl View for CkbTx {
    type V = CkbTxView;

    open spec fn view(&self) -> CkbTxView {
        CkbTxView {
            inputs: self.inputs@.map_values(|c: InputCell| c@),
            outputs: self.outputs@.map_values(|o: CellOutput| o@),
            outputs_data: self.outputs_data@.map_values(|d: Vec<u8>| d@),
        }
    }
}

/// The canonical bytes of an out point: the transaction hash, then the index.
pub open spec fn out_point_bytes(p: OutPointView) -> Seq<u8> {
    p.tx_hash + le_u32(p.index)
}

/// The canonical bytes of a script: a table of three fields. The header holds
/// the total size and the offset of each field; the arguments are preceded by
/// their length.
pub open spec fn script_bytes(s: ScriptView) -> Seq<u8> {
    size32(53 + s.args.len()) + le_u32(16) + le_u32(48) + le_u32(49) + s.code_hash
        + seq![s.hash_type] + size32(s.args.len()) + s.args
}

/// The canonical bytes of a script that may be absent: nothing where it is.
pub open spec fn script_opt_bytes(s: Option<ScriptView>) -> Seq<u8> {
    match s {
        Some(script) => script_bytes(script),
        None => Seq::empty(),
    }
}

/// The canonical bytes of an output: a table of three fields, the capacity, the
/// lock and the type script.
pub open spec fn cell_output_bytes(o: CellOutputView) -> Seq<u8> {
    let lock = script_bytes(o.lock);
    let type_ = script_opt_bytes(o.type_);
    size32(24 + lock.len() + type_.len()) + le_u32(16) + le_u32(24) + size32(24 + lock.len())
        + le_u64(o.capacity) + lock + type_
}

/// A script whose encoding states its own sizes in full: the hash has 32 bytes
/// and the total size is below 2^32.
pub open spec fn script_fits(s: ScriptView) -> bool {
    s.code_hash.len() == 32 && 53 + s.args.len() < 0x1_0000_0000
}

/// An output whose encoding states its own sizes in full.
pub open spec fn cell_output_fits(o: CellOutputView) -> bool {
    &&& script_fits(o.lock)
    &&& o.type_ matches Some(t) ==> script_fits(t)
    &&& 24 + script_bytes(o.lock).len() + script_opt_bytes(o.type_).len() < 0x1_0000_0000
}

impl OutPoint {
    /// Has `ckb_types` build a `packed::OutPoint` from the two fields
    /// (`OutPointBuilder::build`) and returns its bytes. The builder writes the
    /// 32 bytes of the hash and then the index as four little-endian bytes.
    #[verifier::external_body]
    pub(crate) fn packed_bytes(&self) -> (out: Vec<u8>)
        ensures
            out@ == out_point_bytes(self@),
    {
        packed::OutPoint::new_builder()
            .tx_hash(&self.tx_hash)
            .index(self.index)
            .build()
            .as_slice()
            .to_vec()
    }

    /// The canonical bytes of this out point.
    pub fn as_bytes(&self) -> (out: Vec<u8>)
        ensures
            out@ == out_point_bytes(self@),
            out@.len() == 36,
    {
        self.packed_bytes()
    }
}

impl Script {
    /// Has `ckb_types` build a `packed::Script` from the three fields
    /// (`ScriptBuilder::build`) and returns its bytes. The builder writes the
    /// total size and the three offsets 16, 48 and 49 as four little-endian bytes
    /// each, then the hash, the hash type, and the arguments behind their length;
    /// it casts each size to 32 bits.
    #[verifier::external_body]
    pub(crate) fn packed_bytes(&self) -> (out: Vec<u8>)
        ensures
            out@ == script_bytes(self@),
    {
        packed::Script::new_builder()
            .code_hash(&self.code_hash)
            .hash_type(self.hash_type)
            .args(&self.args[..])
            .build()
            .as_slice()
            .to_vec()
    }

    /// The canonical bytes of this script.
    pub fn as_bytes(&self) -> (out: Vec<u8>)
        ensures
            out@ == script_bytes(self@),
            out@.len() == 53 + self.args@.len(),
    {
        self.packed_bytes()
    }
}

/// Has `ckb_types` build a `packed::CellOutput` from a capacity, a lock and a
/// type script (`CellOutputBuilder::build`, over scripts built as in
/// `Script::packed_bytes`) and returns its bytes. The builder writes the total
/// size and the offsets of the three fields, then the capacity as eight
/// little-endian bytes, the lock's bytes and, where there is one, the type
/// script's bytes; it casts each size to 32 bits.
#[verifier::external_body]
pub(crate) fn packed_cell_output(capacity: u64, lock: &Script, type_: &Option<Script>) -> (out:
    Vec<u8>)
    ensures
        out@ == cell_output_bytes(
            CellOutputView { capacity, lock: lock@, type_: script_opt_view(*type_) },
        ),
{
    let pack = |s: &Script| {
        packed::Script::new_builder()
            .code_hash(&s.code_hash)
            .hash_type(s.hash_type)
            .args(&s.args[..])
            .build()
    };
    packed::CellOutput::new_builder()
        .capacity(capacity)
        .lock(pack(lock))
        .type_(type_.as_ref().map(pack))
        .build()
        .as_slice()
        .to_vec()
}

impl CellOutput {
    /// The canonical bytes of this output.
    pub fn as_bytes(&self) -> (out: Vec<u8>)
        ensures
            out@ == cell_output_bytes(self@),
    {
        packed_cell_output(self.capacity, &self.lock, &self.type_)
    }

    /// The canonical bytes of this output with `lock` in place of its own lock.
    pub fn as_bytes_with_lock(&self, lock: &Script) -> (out: Vec<u8>)
        ensures
            out@ == cell_output_bytes(CellOutputView { lock: lock@, ..self@ }),
    {
        packed_cell_output(self.capacity, lock, &self.type_)
    }
}

/// The script that `b` is the canonical encoding of, if it is one: the total
/// size stands in front and equals the length, the three offsets are 16, 48 and
/// 49, and the arguments fill the rest behind their length.
pub open spec fn parse_script(b: Seq<u8>) -> Option<ScriptView> {
    if b.len() >= 53 && u32_at(b, 0) == b.len() && u32_at(b, 4) == 16 && u32_at(b, 8) == 48
        && u32_at(b, 12) == 49 && u32_at(b, 49) == b.len() - 53 {
        Some(
            ScriptView {
                code_hash: b.subrange(16, 48),
                hash_type: b[48],
                args: b.subrange(53, b.len() as int),
            },
        )
    } else {
        None
    }
}

/// What parses as a script is the encoding of that script, and the script fits.
pub proof fn lemma_script_parse_sound(b: Seq<u8>)
    requires
        parse_script(b) is Some,
    ensures
        script_bytes(parse_script(b)->0) == b,
        script_fits(parse_script(b)->0),
{
    let v = parse_script(b)->0;
    lemma_le_u32_write(b, 0);
    lemma_le_u32_write(b, 4);
    lemma_le_u32_write(b, 8);
    lemma_le_u32_write(b, 12);
    lemma_le_u32_write(b, 49);
    assert(size32(53 + v.args.len()) == b.subrange(0, 4));
    assert(size32(v.args.len()) == b.subrange(49, 53));
    assert(script_bytes(v) =~= b);
}

/// The encoding of a script that fits parses as that script.
pub proof fn lemma_script_parse_complete(v: ScriptView)
    requires
        script_fits(v),
    ensures
        parse_script(script_bytes(v)) == Some(v),
{
    let b = script_bytes(v);
    assert(b.len() == 53 + v.args.len());
    assert(b.subrange(0, 4) =~= size32(53 + v.args.len()));
    assert(b.subrange(4, 8) =~= le_u32(16));
    assert(b.subrange(8, 12) =~= le_u32(48));
    assert(b.subrange(12, 16) =~= le_u32(49));
    assert(b.subrange(49, 53) =~= size32(v.args.len()));
    lemma_le_u32_read((53 + v.args.len()) as u32, b, 0);
    lemma_le_u32_read(16, b, 4);
    lemma_le_u32_read(48, b, 8);
    lemma_le_u32_read(49, b, 12);
    lemma_le_u32_read(v.args.len() as u32, b, 49);
    assert(b.subrange(16, 48) =~= v.code_hash);
    assert(b.subrange(53, b.len() as int) =~= v.args);
    assert(b[48] == v.hash_type);
}

/// Two scripts that fit and have the same encoding are the same script.
pub proof fn lemma_script_bytes_injective(a: ScriptView, b: ScriptView)
    requires
        script_fits(a),
        script_fits(b),
        script_bytes(a) == script_bytes(b),
    ensures
        a == b,
{
    lemma_script_parse_complete(a);
    lemma_script_parse_complete(b);
}

impl Script {
    /// Reads a script from its canonical encoding. Any other byte string is
    /// refused.
    pub fn from_slice(bytes: &[u8]) -> (r: Option<Script>)
        ensures
            script_opt_view(r) == parse_script(bytes@),
    {
        let n: usize = bytes.len();
        if n < 53 || n > 0xffff_ffff {
            return None;
        }
        if read_le_u32(bytes, 0) as usize != n || read_le_u32(bytes, 4) != 16 || read_le_u32(
            bytes,
            8,
        ) != 48 || read_le_u32(bytes, 12) != 49 {
            return None;
        }
        if read_le_u32(bytes, 49) as usize != n - 53 {
            return None;
        }
        let code_hash = read_hash(bytes, 16);
        let args = copy_range(bytes, 53, n);
        Some(Script { code_hash, hash_type: bytes[48], args })
    }
}

/// Two out points with hashes of 32 bytes and the same encoding are the same
/// out point.
pub proof fn lemma_out_point_bytes_injective(a: OutPointView, b: OutPointView)
    requires
        a.tx_hash.len() == 32,
        b.tx_hash.len() == 32,
        out_point_bytes(a) == out_point_bytes(b),
    ensures
        a == b,
{
    lemma_split_concat(a.tx_hash, le_u32(a.index), b.tx_hash, le_u32(b.index));
    lemma_le_u32_injective(a.index, b.index);
}

/// The encoding of an output that fits starts with its own length.
pub proof fn lemma_cell_output_bytes_len(o: CellOutputView)
    requires
        cell_output_fits(o),
    ensures
        cell_output_bytes(o).len() >= 77,
        cell_output_bytes(o).len() < 0x1_0000_0000,
        u32_at(cell_output_bytes(o), 0) == cell_output_bytes(o).len(),
{
    let b = cell_output_bytes(o);
    let lock = script_bytes(o.lock);
    let type_ = script_opt_bytes(o.type_);
    assert(b.len() == 24 + lock.len() + type_.len());
    assert(b.subrange(0, 4) =~= size32(24 + lock.len() + type_.len()));
    lemma_le_u32_read((24 + lock.len() + type_.len()) as u32, b, 0);
}

/// Two outputs that fit and have the same encoding are the same output.
pub proof fn lemma_cell_output_bytes_injective(a: CellOutputView, b: CellOutputView)
    requires
        cell_output_fits(a),
        cell_output_fits(b),
        cell_output_bytes(a) == cell_output_bytes(b),
    ensures
        a == b,
{
    let bytes = cell_output_bytes(a);
    let la = script_bytes(a.lock);
    let lb = script_bytes(b.lock);
    let ta = script_opt_bytes(a.type_);
    let tb = script_opt_bytes(b.type_);
    assert(bytes.subrange(12, 16) =~= size32(24 + la.len()));
    assert(bytes.subrange(12, 16) =~= size32(24 + lb.len()));
    lemma_le_u32_read((24 + la.len()) as u32, bytes, 12);
    lemma_le_u32_read((24 + lb.len()) as u32, bytes, 12);
    assert(la.len() == lb.len());
    let lock_end = 24 + la.len() as int;
    assert(bytes.subrange(16, 24) =~= le_u64(a.capacity));
    assert(bytes.subrange(16, 24) =~= le_u64(b.capacity));
    lemma_le_u64_injective(a.capacity, b.capacity);
    assert(bytes.subrange(24, lock_end) =~= la);
    assert(bytes.subrange(24, lock_end) =~= lb);
    lemma_script_bytes_injective(a.lock, b.lock);
    assert(bytes.subrange(lock_end, bytes.len() as int) =~= ta);
    assert(bytes.subrange(lock_end, bytes.len() as int) =~= tb);
    match (a.type_, b.type_) {
        (Some(x), Some(y)) => {
            lemma_script_bytes_injective(x, y);
        },
        (Some(x), None) => {
            assert(script_bytes(x).len() == 53 + x.args.len());
        },
        (None, Some(y)) => {
            assert(script_bytes(y).len() == 53 + y.args.len());
        },
        (None, None) => {},
    }
}

} // verus!
