//! Fixed-width integer reads over raw bytes, little and big endian, with
//! their exact specifications, and byte-sequence comparison.

use vstd::prelude::*;

verus! {

/// The little-endian 16-bit value at `off`.
pub open spec fn le_u16_at(s: Seq<u8>, off: int) -> u16 {
    (s[off] + s[off + 1] * 0x100) as u16
}

/// The little-endian 32-bit value at `off`.
pub open spec fn le_u32_at(s: Seq<u8>, off: int) -> u32 {
    (s[off] + s[off + 1] * 0x100 + s[off + 2] * 0x10000 + s[off + 3] * 0x1000000) as u32
}

/// The little-endian 64-bit value at `off`.
pub open spec fn le_u64_at(s: Seq<u8>, off: int) -> u64 {
    (le_u32_at(s, off) + le_u32_at(s, off + 4) * 0x100000000) as u64
}

/// The big-endian 32-bit value at `off`.
pub open spec fn be_u32_at(s: Seq<u8>, off: int) -> u32 {
    (s[off + 3] + s[off + 2] * 0x100 + s[off + 1] * 0x10000 + s[off] * 0x1000000) as u32
}

/// Read the little-endian 16-bit value at `off`.
pub fn read_le_u16(s: &Vec<u8>, off: usize) -> (r: u16)
    requires
        off + 2 <= s@.len(),
    ensures
        r == le_u16_at(s@, off as int),
{
    let n: usize = s.len();
    s[off] as u16 + s[off + 1] as u16 * 0x100
}

/// Read the little-endian 32-bit value at `off`.
pub fn read_le_u32(s: &Vec<u8>, off: usize) -> (r: u32)
    requires
        off + 4 <= s@.len(),
    ensures
        r == le_u32_at(s@, off as int),
{
    let n: usize = s.len();
    s[off] as u32 + s[off + 1] as u32 * 0x100 + s[off + 2] as u32 * 0x10000 + s[off + 3] as u32
        * 0x1000000
}

/// Read the little-endian 64-bit value at `off`.
pub fn read_le_u64(s: &Vec<u8>, off: usize) -> (r: u64)
    requires
        off + 8 <= s@.len(),
    ensures
        r == le_u64_at(s@, off as int),
{
    let n: usize = s.len();
    let lo: u32 = read_le_u32(s, off);
    let hi: u32 = read_le_u32(s, off + 4);
    lo as u64 + hi as u64 * 0x100000000
}

/// Read the big-endian 32-bit value at `off`.
pub fn read_be_u32(s: &Vec<u8>, off: usize) -> (r: u32)
    requires
        off + 4 <= s@.len(),
    ensures
        r == be_u32_at(s@, off as int),
{
    let n: usize = s.len();
    s[off + 3] as u32 + s[off + 2] as u32 * 0x100 + s[off + 1] as u32 * 0x10000 + s[off] as u32
        * 0x1000000
}

/// Whether two byte slices hold the same bytes.
pub fn bytes_eq(a: &[u8], b: &[u8]) -> (r: bool)
    ensures
        r == (a@ == b@),
{
    let n: usize = a.len();
    if n != b.len() {
        proof {
            assert(a@ != b@);
        }
        return false;
    }
    let mut i: usize = 0;
    while i < n
        invariant
            n == a@.len() == b@.len(),
            0 <= i <= n,
            forall|j: int| 0 <= j < i ==> a@[j] == b@[j],
        decreases n - i,
    {
        if a[i] != b[i] {
            proof {
                assert(a@[i as int] != b@[i as int]);
            }
            return false;
        }
        i = i + 1;
    }
    proof {
        assert(a@ =~= b@);
    }
    true
}

} // verus!
