//! Little-endian integer codec over byte buffers.
use vstd::prelude::*;

verus! {

/// The 16-bit little-endian integer whose bytes start at `pos`.
pub open spec fn le_u16(s: Seq<u8>, pos: int) -> u16 {
    (s[pos] as int + s[pos + 1] as int * 0x100) as u16
}

/// The 32-bit little-endian integer whose bytes start at `pos`.
pub open spec fn le_u32(s: Seq<u8>, pos: int) -> u32 {
    (le_u16(s, pos) as int + le_u16(s, pos + 2) as int * 0x1_0000) as u32
}

/// The 64-bit little-endian integer whose bytes start at `pos`.
pub open spec fn le_u64(s: Seq<u8>, pos: int) -> u64 {
    (le_u32(s, pos) as int + le_u32(s, pos + 4) as int * 0x1_0000_0000) as u64
}

/// `s` with the four little-endian bytes of `v` stored from `pos` on; `s`
/// itself where those bytes would not all lie inside it.
pub open spec fn put_le_u32(s: Seq<u8>, pos: int, v: u32) -> Seq<u8> {
    if 0 <= pos && pos + 4 <= s.len() {
        s.update(pos, (v % 0x100) as u8)
            .update(pos + 1, ((v / 0x100) % 0x100) as u8)
            .update(pos + 2, ((v / 0x1_0000) % 0x100) as u8)
            .update(pos + 3, ((v / 0x100_0000) % 0x100) as u8)
    } else {
        s
    }
}

pub fn read_u16(buf: &[u8], pos: usize) -> (v: u16)
    requires
        pos + 2 <= buf.len(),
    ensures
        v == le_u16(buf@, pos as int),
{
    buf[pos] as u16 + (buf[pos + 1] as u16) * 0x100
}

pub fn read_u32(buf: &[u8], pos: usize) -> (v: u32)
    requires
        pos + 4 <= buf.len(),
    ensures
        v == le_u32(buf@, pos as int),
{
    let lo = read_u16(buf, pos);
    let hi = read_u16(buf, pos + 2);
    lo as u32 + (hi as u32) * 0x1_0000
}

pub fn read_u64(buf: &[u8], pos: usize) -> (v: u64)
    requires
        pos + 8 <= buf.len(),
    ensures
        v == le_u64(buf@, pos as int),
{
    let lo = read_u32(buf, pos);
    let hi = read_u32(buf, pos + 4);
    lo as u64 + (hi as u64) * 0x1_0000_0000
}

pub fn write_u32(buf: &mut Vec<u8>, pos: usize, v: u32)
    requires
        pos + 4 <= old(buf).len(),
    ensures
        final(buf)@ == put_le_u32(old(buf)@, pos as int, v),
{
    buf.set(pos, (v % 0x100) as u8);
    buf.set(pos + 1, ((v / 0x100) % 0x100) as u8);
    buf.set(pos + 2, ((v / 0x1_0000) % 0x100) as u8);
    buf.set(pos + 3, ((v / 0x100_0000) % 0x100) as u8);
}

/// Reading back a 32-bit value just written gives that value.
pub proof fn lemma_put_then_read_u32(s: Seq<u8>, pos: int, v: u32)
    requires
        0 <= pos,
        pos + 4 <= s.len(),
    ensures
        le_u32(put_le_u32(s, pos, v), pos) == v,
        put_le_u32(s, pos, v).len() == s.len(),
{
    let t = put_le_u32(s, pos, v);
    let b0 = v % 0x100;
    let b1 = (v / 0x100) % 0x100;
    let b2 = (v / 0x1_0000) % 0x100;
    let b3 = (v / 0x100_0000) % 0x100;
    assert(t[pos] == b0 && t[pos + 1] == b1 && t[pos + 2] == b2 && t[pos + 3] == b3);
    assert((v % 0x100) + ((v / 0x100) % 0x100) * 0x100 + ((v / 0x1_0000) % 0x100) * 0x1_0000
        + ((v / 0x100_0000) % 0x100) * 0x100_0000 == v) by (bit_vector);
}

} // verus!
