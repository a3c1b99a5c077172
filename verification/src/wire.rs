//! Little-endian integers and the byte-level helpers the encodings are built from.

use vstd::prelude::*;

verus! {

/// The two bytes of `x`, least significant first.
#[verifier::opaque]
pub open spec fn le_u16(x: u16) -> Seq<u8> {
    seq![(x % 256) as u8, (x / 256) as u8]
}

/// The four bytes of `x`, least significant first.
#[verifier::opaque]
pub open spec fn le_u32(x: u32) -> Seq<u8> {
    seq![
        (x % 256) as u8,
        (x / 256 % 256) as u8,
        (x / 65536 % 256) as u8,
        (x / 16777216) as u8,
    ]
}

/// The eight bytes of `x`, least significant first.
pub open spec fn le_u64(x: u64) -> Seq<u8> {
    le_u32((x % 0x1_0000_0000) as u32) + le_u32((x / 0x1_0000_0000) as u32)
}

/// The number whose little-endian bytes are `s[at .. at + 2]`.
#[verifier::opaque]
pub open spec fn u16_at(s: Seq<u8>, at: int) -> u16 {
    (s[at] + s[at + 1] * 256) as u16
}

/// The number whose little-endian bytes are `s[at .. at + 4]`.
#[verifier::opaque]
pub open spec fn u32_at(s: Seq<u8>, at: int) -> u32 {
    (s[at] + s[at + 1] * 256 + s[at + 2] * 65536 + s[at + 3] * 16777216) as u32
}

/// A length or an offset as the encodings write it: four little-endian bytes
/// holding `n` modulo 2^32.
pub open spec fn size32(n: nat) -> Seq<u8> {
    le_u32((n % 0x1_0000_0000) as u32)
}

/// `n` zero bytes.
pub open spec fn zeros(n: nat) -> Seq<u8> {
    Seq::new(n, |i: int| 0u8)
}

/// `le_u16` writes two bytes.
pub broadcast proof fn lemma_le_u16_len(x: u16)
    ensures
        #[trigger] le_u16(x).len() == 2,
{
    reveal(le_u16);
}

/// `le_u32` writes four bytes.
pub broadcast proof fn lemma_le_u32_len(x: u32)
    ensures
        #[trigger] le_u32(x).len() == 4,
{
    reveal(le_u32);
}

/// The lengths of what `le_u16` and `le_u32` write.
pub broadcast group group_wire_lengths {
    lemma_le_u16_len,
    lemma_le_u32_len,
}

/// Reading back what `le_u16` wrote gives the number again.
pub proof fn lemma_le_u16_read(x: u16, s: Seq<u8>, at: int)
    requires
        0 <= at,
        at + 2 <= s.len(),
        s.subrange(at, at + 2) == le_u16(x),
    ensures
        u16_at(s, at) == x,
{
    reveal(le_u16);
    reveal(u16_at);
    let t = s.subrange(at, at + 2);
    assert(t[0] == s[at] && t[1] == s[at + 1]);
    assert(t[0] == (x % 256) as u8 && t[1] == (x / 256) as u8);
}

/// Reading back what `le_u32` wrote gives the number again.
pub proof fn lemma_le_u32_read(x: u32, s: Seq<u8>, at: int)
    requires
        0 <= at,
        at + 4 <= s.len(),
        s.subrange(at, at + 4) == le_u32(x),
    ensures
        u32_at(s, at) == x,
{
    reveal(le_u32);
    reveal(u32_at);
    let t = s.subrange(at, at + 4);
    assert(t[0] == s[at] && t[1] == s[at + 1] && t[2] == s[at + 2] && t[3] == s[at + 3]);
    let l = le_u32(x);
    assert(l[0] == (x % 256) as u8 && l[1] == (x / 256 % 256) as u8 && l[2] == (x / 65536 % 256) as u8
        && l[3] == (x / 16777216) as u8);
}

/// Writing the number read at `at` gives the four bytes that stand there.
pub proof fn lemma_le_u32_write(s: Seq<u8>, at: int)
    requires
        0 <= at,
        at + 4 <= s.len(),
    ensures
        le_u32(u32_at(s, at)) == s.subrange(at, at + 4),
{
    reveal(le_u32);
    reveal(u32_at);
    let x = u32_at(s, at);
    let a: int = s[at] as int;
    let b: int = s[at + 1] as int;
    let c: int = s[at + 2] as int;
    let d: int = s[at + 3] as int;
    assert(x == a + b * 256 + c * 65536 + d * 16777216);
    assert(x % 256 == a);
    assert(x / 256 % 256 == b);
    assert(x / 65536 % 256 == c);
    assert(x / 16777216 == d);
    assert(le_u32(x) =~= s.subrange(at, at + 4));
}

/// Writing the number read at `at` gives the two bytes that stand there.
pub proof fn lemma_le_u16_write(s: Seq<u8>, at: int)
    requires
        0 <= at,
        at + 2 <= s.len(),
    ensures
        le_u16(u16_at(s, at)) == s.subrange(at, at + 2),
{
    reveal(le_u16);
    reveal(u16_at);
    let x = u16_at(s, at);
    let a: int = s[at] as int;
    let b: int = s[at + 1] as int;
    assert(x == a + b * 256);
    assert(x % 256 == a);
    assert(x / 256 == b);
    assert(le_u16(x) =~= s.subrange(at, at + 2));
}

/// Two numbers with the same four bytes are the same number.
pub proof fn lemma_le_u32_injective(x: u32, y: u32)
    requires
        le_u32(x) == le_u32(y),
    ensures
        x == y,
{
    broadcast use lemma_le_u32_len;
    let s = le_u32(x);
    assert(s.subrange(0, 4) =~= s);
    lemma_le_u32_read(x, s, 0);
    lemma_le_u32_read(y, s, 0);
}

/// Two numbers with the same two bytes are the same number.
pub proof fn lemma_le_u16_injective(x: u16, y: u16)
    requires
        le_u16(x) == le_u16(y),
    ensures
        x == y,
{
    broadcast use lemma_le_u16_len;
    let s = le_u16(x);
    assert(s.subrange(0, 2) =~= s);
    lemma_le_u16_read(x, s, 0);
    lemma_le_u16_read(y, s, 0);
}

/// Two byte strings cut at the same place are equal only where both parts are.
pub proof fn lemma_split_concat(a1: Seq<u8>, a2: Seq<u8>, b1: Seq<u8>, b2: Seq<u8>)
    requires
        a1 + a2 == b1 + b2,
        a1.len() == b1.len(),
    ensures
        a1 == b1,
        a2 == b2,
{
    let n = a1.len() as int;
    assert(a1 =~= (a1 + a2).subrange(0, n));
    assert(b1 =~= (b1 + b2).subrange(0, n));
    assert(a2 =~= (a1 + a2).subrange(n, (a1 + a2).len() as int));
    assert(b2 =~= (b1 + b2).subrange(n, (b1 + b2).len() as int));
}

/// Two numbers with the same eight bytes are the same number.
pub proof fn lemma_le_u64_injective(x: u64, y: u64)
    requires
        le_u64(x) == le_u64(y),
    ensures
        x == y,
{
    broadcast use lemma_le_u32_len;
    let xl = (x % 0x1_0000_0000) as u32;
    let xh = (x / 0x1_0000_0000) as u32;
    let yl = (y % 0x1_0000_0000) as u32;
    let yh = (y / 0x1_0000_0000) as u32;
    lemma_split_concat(le_u32(xl), le_u32(xh), le_u32(yl), le_u32(yh));
    lemma_le_u32_injective(xl, yl);
    lemma_le_u32_injective(xh, yh);
}

/// Appends the two little-endian bytes of `x`.
pub(crate) fn push_le_u16(out: &mut Vec<u8>, x: u16)
    ensures
        final(out)@ == old(out)@ + le_u16(x),
{
    out.push((x % 256) as u8);
    out.push((x / 256) as u8);
    reveal(le_u16);
    assert(out@ =~= old(out)@ + le_u16(x));
}

/// Appends the four little-endian bytes of `x`.
pub(crate) fn push_le_u32(out: &mut Vec<u8>, x: u32)
    ensures
        final(out)@ == old(out)@ + le_u32(x),
{
    out.push((x % 256) as u8);
    out.push((x / 256 % 256) as u8);
    out.push((x / 65536 % 256) as u8);
    out.push((x / 16777216) as u8);
    reveal(le_u32);
    assert(out@ =~= old(out)@ + le_u32(x));
}

/// Appends a size as four little-endian bytes, modulo 2^32.
pub(crate) fn push_size32(out: &mut Vec<u8>, n: u128)
    ensures
        final(out)@ == old(out)@ + size32(n as nat),
{
    let low: u32 = (n % 0x1_0000_0000) as u32;
    push_le_u32(out, low);
}

/// Appends every byte of `bytes`.
pub(crate) fn push_all(out: &mut Vec<u8>, bytes: &[u8])
    ensures
        final(out)@ == old(out)@ + bytes@,
{
    let mut i: usize = 0;
    while i < bytes.len()
        invariant
            i <= bytes.len(),
            out@ == old(out)@ + bytes@.subrange(0, i as int),
        decreases bytes.len() - i,
    {
        out.push(bytes[i]);
        i = i + 1;
        assert(out@ =~= old(out)@ + bytes@.subrange(0, i as int));
    }
    assert(bytes@.subrange(0, i as int) =~= bytes@);
}

/// The number written in little-endian at `s[at .. at + 2]`.
pub(crate) fn read_le_u16(s: &[u8], at: usize) -> (x: u16)
    requires
        at + 2 <= s.len(),
    ensures
        x == u16_at(s@, at as int),
{
    let a: u16 = s[at] as u16;
    let b: u16 = s[at + 1] as u16;
    reveal(u16_at);
    a + b * 256
}

/// The number written in little-endian at `s[at .. at + 4]`.
pub(crate) fn read_le_u32(s: &[u8], at: usize) -> (x: u32)
    requires
        at + 4 <= s.len(),
    ensures
        x == u32_at(s@, at as int),
{
    let a: u32 = s[at] as u32;
    let b: u32 = s[at + 1] as u32;
    let c: u32 = s[at + 2] as u32;
    let d: u32 = s[at + 3] as u32;
    reveal(u32_at);
    a + b * 256 + c * 65536 + d * 16777216
}

/// The bytes `s[from .. to]` as a vector of their own.
pub(crate) fn copy_range(s: &[u8], from: usize, to: usize) -> (out: Vec<u8>)
    requires
        from <= to <= s.len(),
    ensures
        out@ == s@.subrange(from as int, to as int),
{
    let mut out: Vec<u8> = Vec::new();
    let mut i: usize = from;
    while i < to
        invariant
            from <= i <= to <= s.len(),
            out@ == s@.subrange(from as int, i as int),
        decreases to - i,
    {
        out.push(s[i]);
        i = i + 1;
        assert(out@ =~= s@.subrange(from as int, i as int));
    }
    out
}

/// The 32 bytes `s[at .. at + 32]` as an array.
pub(crate) fn read_hash(s: &[u8], at: usize) -> (out: [u8; 32])
    requires
        at + 32 <= s.len(),
    ensures
        out@ == s@.subrange(at as int, at + 32),
{
    let mut out: [u8; 32] = [0u8; 32];
    let mut i: usize = 0;
    while i < 32
        invariant
            i <= 32,
            at + 32 <= s.len(),
            forall|k: int| 0 <= k < i ==> out@[k] == s@[at + k],
        decreases 32 - i,
    {
        out[i] = s[at + i];
        i = i + 1;
    }
    assert(out@ =~= s@.subrange(at as int, at + 32));
    out
}

/// Whether two byte strings hold the same bytes.
pub(crate) fn bytes_eq(a: &[u8], b: &[u8]) -> (same: bool)
    ensures
        same == (a@ == b@),
{
    if a.len() != b.len() {
        return false;
    }
    let mut i: usize = 0;
    while i < a.len()
        invariant
            i <= a.len(),
            a.len() == b.len(),
            forall|k: int| 0 <= k < i ==> a@[k] == b@[k],
        decreases a.len() - i,
    {
        if a[i] != b[i] {
            return false;
        }
        i = i + 1;
    }
    assert(a@ =~= b@);
    true
}

} // verus!
