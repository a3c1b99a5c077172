//! The arguments and the unlock proof of the lock, and their wire formats.

use vstd::prelude::*;

use crate::cell::{
    lemma_script_parse_complete, lemma_script_parse_sound, parse_script, script_bytes,
    script_fits, Script, ScriptView,
};
use crate::wire::{
    copy_range, le_u16, le_u32, lemma_le_u16_read, lemma_le_u16_write, lemma_le_u32_read,
    lemma_le_u32_write, push_all, push_le_u16, push_le_u32, push_size32, read_hash, read_le_u16,
    read_le_u32, size32, u16_at, u32_at,
};

verus! {

broadcast use crate::wire::group_wire_lengths;

/// What the validation is configured with: the type hash of the Bitcoin light
/// client, and the type hash under which the time-locked exit is deployed.
#[derive(Clone, Copy, Debug, PartialEq, Eq)]
pub struct RGBPPConfig {
    pub btc_lc_type_hash: [u8; 32],
    pub btc_time_lock_type_hash: [u8; 32],
}

/// The arguments of the lock: the one Bitcoin out point that must be spent to
/// unlock the cell.
#[derive(Clone, Copy, Debug, PartialEq, Eq)]
pub struct RGBPPLock {
    pub out_index: u32,
    pub btc_txid: [u8; 32],
}

/// What an `RGBPPLock` holds, as plain values.
pub struct RGBPPLockView {
    pub out_index: u32,
    pub btc_txid: Seq<u8>,
}

impl View for RGBPPLock {
    type V = RGBPPLockView;

    open spec fn view(&self) -> RGBPPLockView {
        RGBPPLockView { out_index: self.out_index, btc_txid: self.btc_txid@ }
    }
}

/// The view of lock arguments that may be absent.
pub open spec fn rgbpp_lock_opt_view(l: Option<RGBPPLock>) -> Option<RGBPPLockView> {
    match l {
        Some(lock) => Some(lock@),
        None => None,
    }
}

/// The wire format of the lock's arguments: the output index as four
/// little-endian bytes, then the transaction id.
pub open spec fn rgbpp_lock_bytes(l: RGBPPLockView) -> Seq<u8> {
    le_u32(l.out_index) + l.btc_txid
}

/// The lock arguments that `b` is the wire format of, if it is one: exactly 36
/// bytes.
pub open spec fn parse_rgbpp_lock(b: Seq<u8>) -> Option<RGBPPLockView> {
    if b.len() == 36 {
        Some(RGBPPLockView { out_index: u32_at(b, 0), btc_txid: b.subrange(4, 36) })
    } else {
        None
    }
}

/// What parses as lock arguments is the wire format of those arguments.
pub proof fn lemma_rgbpp_lock_parse_sound(b: Seq<u8>)
    requires
        parse_rgbpp_lock(b) is Some,
    ensures
        rgbpp_lock_bytes(parse_rgbpp_lock(b)->0) == b,
        (parse_rgbpp_lock(b)->0).btc_txid.len() == 32,
{
    lemma_le_u32_write(b, 0);
    assert(rgbpp_lock_bytes(parse_rgbpp_lock(b)->0) =~= b);
}

/// The wire format of lock arguments parses as those arguments.
pub proof fn lemma_rgbpp_lock_parse_complete(l: RGBPPLockView)
    requires
        l.btc_txid.len() == 32,
    ensures
        parse_rgbpp_lock(rgbpp_lock_bytes(l)) == Some(l),
{
    let b = rgbpp_lock_bytes(l);
    assert(b.subrange(0, 4) =~= le_u32(l.out_index));
    lemma_le_u32_read(l.out_index, b, 0);
    assert(b.subrange(4, 36) =~= l.btc_txid);
}

impl RGBPPLock {
    /// Reads lock arguments from their wire format. Any other byte string is
    /// refused.
    pub fn from_slice(bytes: &[u8]) -> (r: Option<RGBPPLock>)
        ensures
            rgbpp_lock_opt_view(r) == parse_rgbpp_lock(bytes@),
    {
        if bytes.len() != 36 {
            return None;
        }
        Some(RGBPPLock { out_index: read_le_u32(bytes, 0), btc_txid: read_hash(bytes, 4) })
    }

    /// The wire format of these arguments.
    pub fn as_bytes(&self) -> (out: Vec<u8>)
        ensures
            out@ == rgbpp_lock_bytes(self@),
    {
        let mut out: Vec<u8> = Vec::new();
        push_le_u32(&mut out, self.out_index);
        push_all(&mut out, self.btc_txid.as_slice());
        assert(out@ =~= rgbpp_lock_bytes(self@));
        out
    }
}

/// The arguments of a time-locked exit: the lock that takes the cell over, the
/// number of confirmations to wait for, and the Bitcoin transaction that is
/// waited on.
#[derive(Clone, Debug, PartialEq, Eq)]
pub struct BTCTimeLock {
    pub lock_script: Script,
    pub after: u32,
    pub btc_txid: [u8; 32],
}

/// What a `BTCTimeLock` holds, as plain values.
pub struct BTCTimeLockView {
    pub lock_script: ScriptView,
    pub after: u32,
    pub btc_txid: Seq<u8>,
}

impl View for BTCTimeLock {
    type V = BTCTimeLockView;

    open spec fn view(&self) -> BTCTimeLockView {
        BTCTimeLockView {
            lock_script: self.lock_script@,
            after: self.after,
            btc_txid: self.btc_txid@,
        }
    }
}

/// The view of time-lock arguments that may be absent.
pub open spec fn btc_time_lock_opt_view(l: Option<BTCTimeLock>) -> Option<BTCTimeLockView> {
    match l {
        Some(lock) => Some(lock@),
        None => None,
    }
}

/// The wire format of the time-lock arguments: a table of three fields, the
/// lock script, the delay as four little-endian bytes, and the transaction id.
pub open spec fn btc_time_lock_bytes(l: BTCTimeLockView) -> Seq<u8> {
    let script = script_bytes(l.lock_script);
    size32(52 + script.len()) + le_u32(16) + size32(16 + script.len()) + size32(
        20 + script.len(),
    ) + script + le_u32(l.after) + l.btc_txid
}

/// Time-lock arguments whose wire format states its own sizes in full.
pub open spec fn btc_time_lock_fits(l: BTCTimeLockView) -> bool {
    &&& script_fits(l.lock_script)
    &&& l.btc_txid.len() == 32
    &&& 52 + script_bytes(l.lock_script).len() < 0x1_0000_0000
}

/// The time-lock arguments that `b` is the wire format of, if it is one: the
/// total size stands in front and equals the length, the first field starts at
/// 16 and is a script, the delay takes four bytes and the transaction id the
/// last 32.
pub open spec fn parse_btc_time_lock(b: Seq<u8>) -> Option<BTCTimeLockView> {
    let delay_at = u32_at(b, 8) as int;
    if b.len() >= 52 && u32_at(b, 0) == b.len() && u32_at(b, 4) == 16 && delay_at >= 16
        && delay_at + 36 == b.len() && u32_at(b, 12) == delay_at + 4 && parse_script(
        b.subrange(16, delay_at),
    ) is Some {
        Some(
            BTCTimeLockView {
                lock_script: parse_script(b.subrange(16, delay_at))->0,
                after: u32_at(b, delay_at),
                btc_txid: b.subrange(delay_at + 4, delay_at + 36),
            },
        )
    } else {
        None
    }
}

/// What parses as time-lock arguments is the wire format of those arguments,
/// and they fit.
pub proof fn lemma_btc_time_lock_parse_sound(b: Seq<u8>)
    requires
        parse_btc_time_lock(b) is Some,
    ensures
        btc_time_lock_bytes(parse_btc_time_lock(b)->0) == b,
        btc_time_lock_fits(parse_btc_time_lock(b)->0),
{
    let v = parse_btc_time_lock(b)->0;
    let delay_at = u32_at(b, 8) as int;
    let script = b.subrange(16, delay_at);
    lemma_script_parse_sound(script);
    assert(script_bytes(v.lock_script) == script);
    lemma_le_u32_write(b, 0);
    lemma_le_u32_write(b, 4);
    lemma_le_u32_write(b, 8);
    lemma_le_u32_write(b, 12);
    lemma_le_u32_write(b, delay_at);
    assert(size32(52 + script.len()) == b.subrange(0, 4));
    assert(size32(16 + script.len()) == b.subrange(8, 12));
    assert(size32(20 + script.len()) == b.subrange(12, 16));
    assert(btc_time_lock_bytes(v) =~= b);
}

/// The wire format of time-lock arguments that fit parses as those arguments.
pub proof fn lemma_btc_time_lock_parse_complete(l: BTCTimeLockView)
    requires
        btc_time_lock_fits(l),
    ensures
        parse_btc_time_lock(btc_time_lock_bytes(l)) == Some(l),
{
    let b = btc_time_lock_bytes(l);
    let script = script_bytes(l.lock_script);
    let n = script.len();
    assert(n == 53 + l.lock_script.args.len());
    assert(b.len() == 52 + n);
    assert(b.subrange(0, 4) =~= size32(52 + n));
    assert(b.subrange(4, 8) =~= le_u32(16));
    assert(b.subrange(8, 12) =~= size32(16 + n));
    assert(b.subrange(12, 16) =~= size32(20 + n));
    lemma_le_u32_read((52 + n) as u32, b, 0);
    lemma_le_u32_read(16, b, 4);
    lemma_le_u32_read((16 + n) as u32, b, 8);
    lemma_le_u32_read((20 + n) as u32, b, 12);
    let delay_at: int = (16 + n) as int;
    assert(b.subrange(16, delay_at) =~= script);
    lemma_script_parse_complete(l.lock_script);
    assert(b.subrange(delay_at, delay_at + 4) =~= le_u32(l.after));
    lemma_le_u32_read(l.after, b, delay_at);
    assert(b.subrange(delay_at + 4, delay_at + 36) =~= l.btc_txid);
}

impl BTCTimeLock {
    /// Reads time-lock arguments from their wire format. Any other byte string
    /// is refused.
    pub fn from_slice(bytes: &[u8]) -> (r: Option<BTCTimeLock>)
        ensures
            btc_time_lock_opt_view(r) == parse_btc_time_lock(bytes@),
    {
        let n: usize = bytes.len();
        if n < 52 || n > 0xffff_ffff {
            return None;
        }
        if read_le_u32(bytes, 0) as usize != n || read_le_u32(bytes, 4) != 16 {
            return None;
        }
        let delay_at: usize = read_le_u32(bytes, 8) as usize;
        if delay_at < 16 || delay_at > n - 36 || delay_at + 36 != n {
            return None;
        }
        if read_le_u32(bytes, 12) as usize != delay_at + 4 {
            return None;
        }
        let script = Script::from_slice(vstd::slice::slice_subrange(bytes, 16, delay_at));
        match script {
            None => None,
            Some(lock_script) => {
                let after: u32 = read_le_u32(bytes, delay_at);
                let btc_txid = read_hash(bytes, delay_at + 4);
                Some(BTCTimeLock { lock_script, after, btc_txid })
            },
        }
    }

    /// The wire format of these arguments.
    pub fn as_bytes(&self) -> (out: Vec<u8>)
        ensures
            out@ == btc_time_lock_bytes(self@),
    {
        let script = self.lock_script.as_bytes();
        let n: usize = script.len();
        let mut out: Vec<u8> = Vec::new();
        push_size32(&mut out, 52 + n as u128);
        push_le_u32(&mut out, 16);
        push_size32(&mut out, 16 + n as u128);
        push_size32(&mut out, 20 + n as u128);
        push_all(&mut out, script.as_slice());
        push_le_u32(&mut out, self.after);
        push_all(&mut out, self.btc_txid.as_slice());
        assert(out@ =~= btc_time_lock_bytes(self@));
        out
    }
}

/// How many inputs and outputs of the spending transaction the commitment
/// covers.
#[derive(Clone, Copy, Debug, PartialEq, Eq)]
pub struct ExtraCommitmentData {
    pub input_len: u8,
    pub output_len: u8,
}

/// The unlock proof that the spender attaches: the commitment's version, what
/// it covers, the Bitcoin transaction and the proof that the chain holds it.
#[derive(Clone, Debug, PartialEq, Eq)]
pub struct RGBPPUnlock {
    pub version: u16,
    pub extra_data: ExtraCommitmentData,
    pub btc_tx: Vec<u8>,
    pub btc_tx_proof: Vec<u8>,
}

/// What an `RGBPPUnlock` holds, as plain values.
pub struct RGBPPUnlockView {
    pub version: u16,
    pub extra_data: ExtraCommitmentData,
    pub btc_tx: Seq<u8>,
    pub btc_tx_proof: Seq<u8>,
}

impl View for RGBPPUnlock {
    type V = RGBPPUnlockView;

    open spec fn view(&self) -> RGBPPUnlockView {
        RGBPPUnlockView {
            version: self.version,
            extra_data: self.extra_data,
            btc_tx: self.btc_tx@,
            btc_tx_proof: self.btc_tx_proof@,
        }
    }
}

/// The view of an unlock proof that may be absent.
pub open spec fn rgbpp_unlock_opt_view(u: Option<RGBPPUnlock>) -> Option<RGBPPUnlockView> {
    match u {
        Some(unlock) => Some(unlock@),
        None => None,
    }
}

/// The wire format of the unlock proof: a table of four fields, the version
/// as two little-endian bytes, the two covered lengths as one byte each, and
/// the transaction and its proof, each behind its length.
pub open spec fn rgbpp_unlock_bytes(u: RGBPPUnlockView) -> Seq<u8> {
    size32(32 + u.btc_tx.len() + u.btc_tx_proof.len()) + le_u32(20) + le_u32(22) + le_u32(24)
        + size32(28 + u.btc_tx.len()) + le_u16(u.version) + seq![
        u.extra_data.input_len,
        u.extra_data.output_len,
    ] + size32(u.btc_tx.len()) + u.btc_tx + size32(u.btc_tx_proof.len()) + u.btc_tx_proof
}

/// An unlock proof whose wire format states its own sizes in full.
pub open spec fn rgbpp_unlock_fits(u: RGBPPUnlockView) -> bool {
    32 + u.btc_tx.len() + u.btc_tx_proof.len() < 0x1_0000_0000
}

/// The unlock proof that `b` is the wire format of, if it is one: the total
/// size stands in front and equals the length, the fields start at 20, 22, 24
/// and where the fourth offset says, and each of the two byte strings fills its
/// field behind its length.
pub open spec fn parse_rgbpp_unlock(b: Seq<u8>) -> Option<RGBPPUnlockView> {
    let proof_at = u32_at(b, 16) as int;
    if b.len() >= 32 && u32_at(b, 0) == b.len() && u32_at(b, 4) == 20 && u32_at(b, 8) == 22
        && u32_at(b, 12) == 24 && proof_at >= 28 && proof_at + 4 <= b.len() && u32_at(b, 24)
        == proof_at - 28 && u32_at(b, proof_at) == b.len() - proof_at - 4 {
        Some(
            RGBPPUnlockView {
                version: u16_at(b, 20),
                extra_data: ExtraCommitmentData { input_len: b[22], output_len: b[23] },
                btc_tx: b.subrange(28, proof_at),
                btc_tx_proof: b.subrange(proof_at + 4, b.len() as int),
            },
        )
    } else {
        None
    }
}

/// What parses as an unlock proof is the wire format of that proof, and it
/// fits.
pub proof fn lemma_rgbpp_unlock_parse_sound(b: Seq<u8>)
    requires
        parse_rgbpp_unlock(b) is Some,
    ensures
        rgbpp_unlock_bytes(parse_rgbpp_unlock(b)->0) == b,
        rgbpp_unlock_fits(parse_rgbpp_unlock(b)->0),
{
    let v = parse_rgbpp_unlock(b)->0;
    let proof_at = u32_at(b, 16) as int;
    lemma_le_u32_write(b, 0);
    lemma_le_u32_write(b, 4);
    lemma_le_u32_write(b, 8);
    lemma_le_u32_write(b, 12);
    lemma_le_u32_write(b, 16);
    lemma_le_u16_write(b, 20);
    lemma_le_u32_write(b, 24);
    lemma_le_u32_write(b, proof_at);
    assert(size32(32 + v.btc_tx.len() + v.btc_tx_proof.len()) == b.subrange(0, 4));
    assert(size32(28 + v.btc_tx.len()) == b.subrange(16, 20));
    assert(size32(v.btc_tx.len()) == b.subrange(24, 28));
    assert(size32(v.btc_tx_proof.len()) == b.subrange(proof_at, proof_at + 4));
    assert(rgbpp_unlock_bytes(v) =~= b);
}

/// The wire format of an unlock proof that fits parses as that proof.
pub proof fn lemma_rgbpp_unlock_parse_complete(u: RGBPPUnlockView)
    requires
        rgbpp_unlock_fits(u),
    ensures
        parse_rgbpp_unlock(rgbpp_unlock_bytes(u)) == Some(u),
{
    let b = rgbpp_unlock_bytes(u);
    let t = u.btc_tx.len();
    let p = u.btc_tx_proof.len();
    assert(b.len() == 32 + t + p);
    assert(b.subrange(0, 4) =~= size32(32 + t + p));
    assert(b.subrange(4, 8) =~= le_u32(20));
    assert(b.subrange(8, 12) =~= le_u32(22));
    assert(b.subrange(12, 16) =~= le_u32(24));
    assert(b.subrange(16, 20) =~= size32(28 + t));
    assert(b.subrange(20, 22) =~= le_u16(u.version));
    assert(b.subrange(24, 28) =~= size32(t));
    let proof_at: int = (28 + t) as int;
    assert(b.subrange(proof_at, proof_at + 4) =~= size32(p));
    lemma_le_u32_read((32 + t + p) as u32, b, 0);
    lemma_le_u32_read(20, b, 4);
    lemma_le_u32_read(22, b, 8);
    lemma_le_u32_read(24, b, 12);
    lemma_le_u32_read((28 + t) as u32, b, 16);
    lemma_le_u16_read(u.version, b, 20);
    lemma_le_u32_read(t as u32, b, 24);
    lemma_le_u32_read(p as u32, b, proof_at);
    assert(b[22] == u.extra_data.input_len);
    assert(b[23] == u.extra_data.output_len);
    assert(b.subrange(28, proof_at) =~= u.btc_tx);
    assert(b.subrange(proof_at + 4, b.len() as int) =~= u.btc_tx_proof);
}

/// No unlock proof has a wire format of four bytes: a field of that length is
/// never a proof itself.
pub proof fn lemma_rgbpp_unlock_is_longer_than_an_index(b: Seq<u8>)
    requires
        b.len() == 4,
    ensures
        parse_rgbpp_unlock(b) is None,
{
}

impl RGBPPUnlock {
    /// Reads an unlock proof from its wire format. Any other byte string is
    /// refused.
    pub fn from_slice(bytes: &[u8]) -> (r: Option<RGBPPUnlock>)
        ensures
            rgbpp_unlock_opt_view(r) == parse_rgbpp_unlock(bytes@),
    {
        let n: usize = bytes.len();
        if n < 32 || n > 0xffff_ffff {
            return None;
        }
        if read_le_u32(bytes, 0) as usize != n || read_le_u32(bytes, 4) != 20 || read_le_u32(
            bytes,
            8,
        ) != 22 || read_le_u32(bytes, 12) != 24 {
            return None;
        }
        let proof_at: usize = read_le_u32(bytes, 16) as usize;
        if proof_at < 28 || proof_at > n - 4 {
            return None;
        }
        if read_le_u32(bytes, 24) as usize != proof_at - 28 {
            return None;
        }
        if read_le_u32(bytes, proof_at) as usize != n - proof_at - 4 {
            return None;
        }
        Some(
            RGBPPUnlock {
                version: read_le_u16(bytes, 20),
                extra_data: ExtraCommitmentData { input_len: bytes[22], output_len: bytes[23] },
                btc_tx: copy_range(bytes, 28, proof_at),
                btc_tx_proof: copy_range(bytes, proof_at + 4, n),
            },
        )
    }

    /// The wire format of this unlock proof.
    pub fn as_bytes(&self) -> (out: Vec<u8>)
        ensures
            out@ == rgbpp_unlock_bytes(self@),
    {
        let t: usize = self.btc_tx.len();
        let p: usize = self.btc_tx_proof.len();
        let mut out: Vec<u8> = Vec::new();
        push_size32(&mut out, 32 + t as u128 + p as u128);
        push_le_u32(&mut out, 20);
        push_le_u32(&mut out, 22);
        push_le_u32(&mut out, 24);
        push_size32(&mut out, 28 + t as u128);
        push_le_u16(&mut out, self.version);
        out.push(self.extra_data.input_len);
        out.push(self.extra_data.output_len);
        push_size32(&mut out, t as u128);
        push_all(&mut out, self.btc_tx.as_slice());
        push_size32(&mut out, p as u128);
        push_all(&mut out, self.btc_tx_proof.as_slice());
        assert(out@ =~= rgbpp_unlock_bytes(self@));
        out
    }
}

} // verus!
