//! The memory-mapped bulk-data file of one archive, behind trusted wrappers.
//!
//! Archive data files are far too large to read whole; the process maps each
//! one read-only once, at filesystem construction, and every opened entry
//! copies its own region out of the shared mapping. The mapping itself is
//! opaque here: only its length and the bytes of an in-bounds region are
//! stated, and both are functions of the mapping alone.

use vstd::prelude::*;

verus! {

/// The read-only memory mapping of one archive's bulk-data file.
#[verifier::external_type_specification]
#[verifier::external_body]
pub struct ExMmap(memmap2::Mmap);

/// What the mapped region holds, byte for byte.
pub uninterp spec fn mmap_bytes(m: &memmap2::Mmap) -> Seq<u8>;

/// Relies on `Mmap::len`: the length of the mapped region in bytes.
#[verifier::external_body]
pub(crate) fn mmap_len(m: &memmap2::Mmap) -> (r: usize)
    ensures
        r == mmap_bytes(m).len(),
{
    m.len()
}

/// Relies on `Mmap`'s `Deref<Target = [u8]>`: copies the bytes of an
/// in-bounds region of the mapped file.
#[verifier::external_body]
pub(crate) fn mmap_region(m: &memmap2::Mmap, off: usize, len: usize) -> (r: Vec<u8>)
    requires
        off + len <= mmap_bytes(m).len(),
    ensures
        r@ == mmap_bytes(m).subrange(off as int, off as int + len as int),
{
    m[off..off + len].to_vec()
}

} // verus!
