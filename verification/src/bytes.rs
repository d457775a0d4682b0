//! Integers as little-endian bytes.
use vstd::prelude::*;

verus! {

/// The four bytes of `v`, lowest first.
pub open spec fn le32(v: u32) -> Seq<u8> {
    seq![
        (v % 256) as u8,
        (v / 256 % 256) as u8,
        (v / 65536 % 256) as u8,
        (v / 16777216) as u8,
    ]
}

/// The eight bytes of `v`, lowest first.
pub open spec fn le64(v: u64) -> Seq<u8> {
    le32((v % 0x1_0000_0000) as u32) + le32((v / 0x1_0000_0000) as u32)
}

/// The two bytes of `v`, lowest first.
pub open spec fn le16(v: u16) -> Seq<u8> {
    seq![(v % 256) as u8, (v / 256) as u8]
}

/// The number that starts at byte `at` of `b`.
pub open spec fn u32_at(b: Seq<u8>, at: int) -> u32 {
    (b[at] + b[at + 1] * 256 + b[at + 2] * 65536 + b[at + 3] * 16777216) as u32
}

/// The number that starts at byte `at` of `b`.
pub open spec fn u64_at(b: Seq<u8>, at: int) -> u64 {
    (u32_at(b, at) + u32_at(b, at + 4) * 0x1_0000_0000) as u64
}

/// The number that starts at byte `at` of `b`.
pub open spec fn u16_at(b: Seq<u8>, at: int) -> u16 {
    (b[at] + b[at + 1] * 256) as u16
}

/// Appends the bytes of `v`.
pub fn push_u32(out: &mut Vec<u8>, v: u32)
    ensures
        final(out)@ == old(out)@ + le32(v),
{
    let ghost before = out@;
    out.push((v % 256) as u8);
    out.push((v / 256 % 256) as u8);
    out.push((v / 65536 % 256) as u8);
    out.push((v / 16777216) as u8);
    assert(out@ =~= before + le32(v));
}

/// Appends the bytes of `v`.
pub fn push_u64(out: &mut Vec<u8>, v: u64)
    ensures
        final(out)@ == old(out)@ + le64(v),
{
    let ghost before = out@;
    push_u32(out, (v % 0x1_0000_0000) as u32);
    push_u32(out, (v / 0x1_0000_0000) as u32);
    assert(out@ =~= before + le64(v));
}

/// Appends the bytes of `v`.
pub fn push_u16(out: &mut Vec<u8>, v: u16)
    ensures
        final(out)@ == old(out)@ + le16(v),
{
    let ghost before = out@;
    out.push((v % 256) as u8);
    out.push((v / 256) as u8);
    assert(out@ =~= before + le16(v));
}

/// Reads the number that starts at byte `at`.
pub fn read_u32(b: &[u8], at: usize) -> (v: u32)
    requires
        at + 4 <= b@.len(),
    ensures
        v == u32_at(b@, at as int),
{
    b[at] as u32 + b[at + 1] as u32 * 256 + b[at + 2] as u32 * 65536 + b[at + 3] as u32 * 16777216
}

/// Reads the number that starts at byte `at`.
pub fn read_u64(b: &[u8], at: usize) -> (v: u64)
    requires
        at + 8 <= b@.len(),
    ensures
        v == u64_at(b@, at as int),
{
    let len: usize = b.len();
    assert(at + 8 <= len);
    read_u32(b, at) as u64 + read_u32(b, at + 4) as u64 * 0x1_0000_0000
}

/// Reads the number that starts at byte `at`.
pub fn read_u16(b: &[u8], at: usize) -> (v: u16)
    requires
        at + 2 <= b@.len(),
    ensures
        v == u16_at(b@, at as int),
{
    b[at] as u16 + b[at + 1] as u16 * 256
}

/// What is written reads back as it was.
pub proof fn lemma_read_of_write32(v: u32, before: Seq<u8>, after: Seq<u8>)
    ensures
        u32_at(before + le32(v) + after, before.len() as int) == v,
{
    let all = before + le32(v) + after;
    let n = before.len() as int;
    assert(all[n] == le32(v)[0] && all[n + 1] == le32(v)[1] && all[n + 2] == le32(v)[2] && all[n
        + 3] == le32(v)[3]);
}

/// What is written reads back as it was.
pub proof fn lemma_read_of_write64(v: u64, before: Seq<u8>, after: Seq<u8>)
    ensures
        u64_at(before + le64(v) + after, before.len() as int) == v,
{
    let lo = (v % 0x1_0000_0000) as u32;
    let hi = (v / 0x1_0000_0000) as u32;
    assert(before + le64(v) + after =~= before + le32(lo) + (le32(hi) + after));
    assert(before + le64(v) + after =~= (before + le32(lo)) + le32(hi) + after);
    lemma_read_of_write32(lo, before, le32(hi) + after);
    lemma_read_of_write32(hi, before + le32(lo), after);
}

} // verus!
