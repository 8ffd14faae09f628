//! Byte-level helpers shared by the binary format readers.

use vstd::prelude::*;

verus! {

broadcast use vstd::slice::group_slice_axioms;

/// The big-endian 16-bit value at `i`.
pub open spec fn be_u16(s: Seq<u8>, i: int) -> u16 {
    (s[i] as int * 0x100 + s[i + 1] as int) as u16
}

/// The big-endian 32-bit value at `i`.
pub open spec fn be_u32(s: Seq<u8>, i: int) -> u32 {
    (s[i] as int * 0x100_0000 + s[i + 1] as int * 0x1_0000 + s[i + 2] as int * 0x100
        + s[i + 3] as int) as u32
}

/// The little-endian 16-bit value at `i`.
pub open spec fn le_u16(s: Seq<u8>, i: int) -> u16 {
    (s[i + 1] as int * 0x100 + s[i] as int) as u16
}

/// The little-endian 32-bit value at `i`.
pub open spec fn le_u32(s: Seq<u8>, i: int) -> u32 {
    (s[i + 3] as int * 0x100_0000 + s[i + 2] as int * 0x1_0000 + s[i + 1] as int * 0x100
        + s[i] as int) as u32
}

/// Reads the big-endian 16-bit value at `at`.
pub fn read_be_u16(d: &[u8], at: usize) -> (r: u16)
    requires
        at + 2 <= d.len(),
    ensures
        r == be_u16(d@, at as int),
{
    (d[at] as u16) * 0x100 + (d[at + 1] as u16)
}

/// Reads the big-endian 32-bit value at `at`.
pub fn read_be_u32(d: &[u8], at: usize) -> (r: u32)
    requires
        at + 4 <= d.len(),
    ensures
        r == be_u32(d@, at as int),
{
    (d[at] as u32) * 0x100_0000 + (d[at + 1] as u32) * 0x1_0000 + (d[at + 2] as u32) * 0x100
        + (d[at + 3] as u32)
}

/// Reads the little-endian 16-bit value at `at`.
pub fn read_le_u16(d: &[u8], at: usize) -> (r: u16)
    requires
        at + 2 <= d.len(),
    ensures
        r == le_u16(d@, at as int),
{
    (d[at + 1] as u16) * 0x100 + (d[at] as u16)
}

/// Reads the little-endian 32-bit value at `at`.
pub fn read_le_u32(d: &[u8], at: usize) -> (r: u32)
    requires
        at + 4 <= d.len(),
    ensures
        r == le_u32(d@, at as int),
{
    (d[at + 3] as u32) * 0x100_0000 + (d[at + 2] as u32) * 0x1_0000 + (d[at + 1] as u32) * 0x100
        + (d[at] as u32)
}

/// True when `s` holds `pat` at position `i`.
pub open spec fn has_at(s: Seq<u8>, i: int, pat: Seq<u8>) -> bool {
    0 <= i && i + pat.len() <= s.len() && s.subrange(i, i + pat.len()) == pat
}

/// Compares `d[at..at + pat.len()]` with `pat`; false when `d` is too short.
pub fn bytes_at(d: &[u8], at: usize, pat: &[u8]) -> (r: bool)
    ensures
        r == has_at(d@, at as int, pat@),
{
    if pat.len() > d.len() || at > d.len() - pat.len() {
        return false;
    }
    let mut i: usize = 0;
    while i < pat.len()
        invariant
            i <= pat@.len(),
            at + pat@.len() <= d.len(),
            forall|j: int| 0 <= j < i ==> d@[at + j] == pat@[j],
        decreases pat@.len() - i,
    {
        if d[at + i] != pat[i] {
            assert(d@.subrange(at as int, at + pat@.len())[i as int] != pat@[i as int]);
            return false;
        }
        i = i + 1;
    }
    assert(d@.subrange(at as int, at + pat@.len()) =~= pat@);
    true
}

/// Copies `d[start..end]` into a new vector.
pub fn copy_range(d: &[u8], start: usize, end: usize) -> (r: Vec<u8>)
    requires
        start <= end <= d.len(),
    ensures
        r@ == d@.subrange(start as int, end as int),
{
    let mut out: Vec<u8> = Vec::new();
    let mut i = start;
    while i < end
        invariant
            start <= i <= end <= d.len(),
            out@ == d@.subrange(start as int, i as int),
        decreases end - i,
    {
        out.push(d[i]);
        assert(out@ =~= d@.subrange(start as int, i + 1));
        i = i + 1;
    }
    out
}

} // verus!
