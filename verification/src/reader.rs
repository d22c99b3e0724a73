//! A bounded, read-only byte source over one opened entry.
//!
//! An opened entry owns its decrypted bytes and exposes exactly its
//! effective size; the padding that follows in the stored region stays
//! hidden. Nothing can mutate the bytes after construction.

use vstd::prelude::*;

verus! {

use vstd::slice::slice_subrange;

/// A read-only view of one opened entry's decrypted bytes, bounded to the
/// entry's effective size.
#[derive(Debug)]
pub struct DvdBndEntryReader {
    bytes: Vec<u8>,
    len: usize,
}

impl View for DvdBndEntryReader {
    type V = Seq<u8>;

    /// The bytes this reader exposes.
    closed spec fn view(&self) -> Seq<u8> {
        self.bytes@.take(self.len as int)
    }
}

impl DvdBndEntryReader {
    #[verifier::type_invariant]
    spec fn wf(&self) -> bool {
        self.len <= self.bytes@.len()
    }

    /// Bound the given decrypted bytes to the entry's effective size. A
    /// declared size beyond the stored data is clamped to what exists.
    pub fn new(bytes: Vec<u8>, effective_size: usize) -> (r: DvdBndEntryReader)
        ensures
            r@ == bytes@.take(vstd::math::min(effective_size as int, bytes@.len() as int)),
            r@.len() == vstd::math::min(effective_size as int, bytes@.len() as int),
    {
        let n: usize = bytes.len();
        let len: usize = if effective_size <= n {
            effective_size
        } else {
            n
        };
        let r = DvdBndEntryReader { bytes, len };
        proof {
            assert(r@.len() == len);
        }
        r
    }

    /// The number of bytes this reader exposes.
    pub fn len(&self) -> (r: usize)
        ensures
            r == self@.len(),
    {
        proof {
            use_type_invariant(self);
        }
        self.len
    }

    /// The exposed bytes, as a slice.
    pub fn data(&self) -> (r: &[u8])
        ensures
            r@ == self@,
    {
        proof {
            use_type_invariant(self);
        }
        slice_subrange(self.bytes.as_slice(), 0, self.len)
    }

    /// The exposed bytes, as an owned vector.
    pub fn to_vec(&self) -> (r: Vec<u8>)
        ensures
            r@ == self@,
    {
        let s = self.data();
        vstd::slice::slice_to_vec(s)
    }
}

} // verus!
