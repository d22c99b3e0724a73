//! Metadata of one archive entry, as merged into the entry table.

use vstd::prelude::*;

use crate::decrypt::range_in_bounds;
use crate::toc::{TocEntry, TocEntrySpec, RANGE_UNUSED};

verus! {

/// One entry of the entry table: where its data lives inside its owning
/// archive, its sizes, and how it is encrypted.
///
/// `file_size == 0` is a sentinel meaning "unknown at this layer": the
/// padded size is used instead. `aes_ranges` holds half-open byte ranges
/// relative to the entry's own data; an empty list means the entry is
/// stored unencrypted.
#[derive(Clone, Debug)]
pub struct VfsFileEntry {
    /// Index of the owning archive in the filesystem's archive list.
    pub archive: usize,
    /// The entry's true size, or 0 when only the padded size is known.
    pub file_size: u32,
    /// The size of the entry's stored data region, padding included.
    pub file_size_with_padding: u32,
    /// Offset of the entry's data region inside the owning archive.
    pub file_offset: u64,
    /// The entry's own decryption key.
    pub aes_key: [u8; 16],
    /// The declared encrypted ranges, relative to the entry's data.
    pub aes_ranges: Vec<(u64, u64)>,
}

impl VfsFileEntry {
    /// The number of bytes an opened reader exposes.
    pub fn effective_size(&self) -> (r: u32)
        ensures
            r == self@.effective_size(),
    {
        if self.file_size != 0 {
            self.file_size
        } else {
            self.file_size_with_padding
        }
    }

    /// Build the table entry for one record of an archive's table of
    /// contents: unused and empty range slots are dropped, everything else
    /// carries over.
    pub fn from_toc(t: &TocEntry, archive: usize) -> (r: VfsFileEntry)
        ensures
            r.deep_view() == entry_from_toc(t@, archive),
    {
        let ranges = filter_entry_ranges(&t.encrypted_ranges);
        VfsFileEntry {
            archive,
            file_size: t.size,
            file_size_with_padding: t.padded_size,
            file_offset: t.offset,
            aes_key: t.aes_key,
            aes_ranges: ranges,
        }
    }

    /// Check that every declared range lies within the entry's padded data,
    /// before any of them is read or decrypted.
    pub fn check_ranges(&self) -> (r: bool)
        ensures
            r == self@.ranges_ok(),
    {
        let n: usize = self.aes_ranges.len();
        let mut j: usize = 0;
        while j < n
            invariant
                n == self.aes_ranges@.len(),
                0 <= j <= n,
                forall|l: int|
                    0 <= l < j ==> range_in_bounds(
                        #[trigger] self.aes_ranges@[l],
                        self.file_size_with_padding as nat,
                    ),
            decreases n - j,
        {
            let (start, end): (u64, u64) = self.aes_ranges[j];
            if !(start <= end && end <= self.file_size_with_padding as u64) {
                proof {
                    assert(!range_in_bounds(
                        self@.aes_ranges[j as int],
                        self@.file_size_with_padding as nat,
                    ));
                }
                return false;
            }
            j = j + 1;
        }
        true
    }
}

/// A mathematical table entry, the view of [`VfsFileEntry`].
pub struct VfsFileEntrySpec {
    /// Index of the owning archive.
    pub archive: usize,
    /// The entry's true size, or 0 when only the padded size is known.
    pub file_size: u32,
    /// The size of the entry's stored data region, padding included.
    pub file_size_with_padding: u32,
    /// Offset of the entry's data region inside the owning archive.
    pub file_offset: u64,
    /// The entry's own decryption key.
    pub aes_key: Seq<u8>,
    /// The declared encrypted ranges, relative to the entry's data.
    pub aes_ranges: Seq<(u64, u64)>,
}

impl VfsFileEntrySpec {
    /// The number of bytes an opened reader exposes.
    pub open spec fn effective_size(&self) -> u32 {
        if self.file_size != 0 {
            self.file_size
        } else {
            self.file_size_with_padding
        }
    }

    /// Whether every declared range lies within the entry's padded data.
    pub open spec fn ranges_ok(&self) -> bool {
        forall|j: int|
            0 <= j < self.aes_ranges.len() ==> range_in_bounds(
                #[trigger] self.aes_ranges[j],
                self.file_size_with_padding as nat,
            )
    }
}

impl View for VfsFileEntry {
    type V = VfsFileEntrySpec;

    open spec fn view(&self) -> VfsFileEntrySpec {
        VfsFileEntrySpec {
            archive: self.archive,
            file_size: self.file_size,
            file_size_with_padding: self.file_size_with_padding,
            file_offset: self.file_offset,
            aes_key: self.aes_key@,
            aes_ranges: self.aes_ranges@,
        }
    }
}

impl DeepView for VfsFileEntry {
    type V = VfsFileEntrySpec;

    open spec fn deep_view(&self) -> VfsFileEntrySpec {
        self@
    }
}

/// Whether a stored range slot carries a real range: unused slots (the
/// all-ones pair) and empty ranges are dropped when the table is built.
pub open spec fn keep_range(r: (u64, u64)) -> bool {
    !(r.0 == RANGE_UNUSED && r.1 == RANGE_UNUSED) && r.0 != r.1
}

/// The declared ranges kept from a record's stored range slots.
pub open spec fn filter_ranges(rs: Seq<(u64, u64)>) -> Seq<(u64, u64)> {
    rs.filter(|r: (u64, u64)| keep_range(r))
}

/// The table entry built from one record of an archive's table of contents.
pub open spec fn entry_from_toc(t: TocEntrySpec, archive: usize) -> VfsFileEntrySpec {
    VfsFileEntrySpec {
        archive,
        file_size: t.size,
        file_size_with_padding: t.padded_size,
        file_offset: t.offset,
        aes_key: t.aes_key,
        aes_ranges: filter_ranges(t.encrypted_ranges),
    }
}

/// Drop unused and empty range slots, keeping the real ranges in order.
pub fn filter_entry_ranges(rs: &Vec<(u64, u64)>) -> (r: Vec<(u64, u64)>)
    ensures
        r@ == filter_ranges(rs@),
{
    let n: usize = rs.len();
    let mut out: Vec<(u64, u64)> = Vec::new();
    let mut i: usize = 0;
    proof {
        reveal(Seq::filter);
        assert(rs@.take(0) =~= Seq::<(u64, u64)>::empty());
        assert(out@ =~= filter_ranges(rs@.take(0)));
    }
    while i < n
        invariant
            n == rs@.len(),
            0 <= i <= n,
            out@ == filter_ranges(rs@.take(i as int)),
        decreases n - i,
    {
        let (start, end): (u64, u64) = rs[i];
        let ghost prev = out@;
        if !(start == RANGE_UNUSED && end == RANGE_UNUSED) && start != end {
            out.push((start, end));
        }
        proof {
            reveal(Seq::filter);
            let taken = rs@.take(i + 1);
            assert(taken.drop_last() =~= rs@.take(i as int));
            assert(taken.last() == rs@[i as int]);
            if keep_range(rs@[i as int]) {
                assert(out@ =~= prev.push(rs@[i as int]));
                assert(filter_ranges(taken) =~= filter_ranges(rs@.take(i as int)).push(
                    rs@[i as int],
                ));
            } else {
                assert(filter_ranges(taken) =~= filter_ranges(rs@.take(i as int)));
            }
        }
        i = i + 1;
    }
    proof {
        assert(rs@.take(n as int) =~= rs@);
    }
    out
}

} // verus!
