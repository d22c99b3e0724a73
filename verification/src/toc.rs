//! One archive's table of contents: decryption and validation of the
//! encrypted index, yielding the archive's ordered entry records.
//!
//! The index file is encrypted whole with the archive-level key, one cipher
//! block at a time. Decrypted, it holds a magic tag, an entry count, and the
//! entry records in order; each record carries the entry's name hash, sizes,
//! data offset, its own key, and its declared encrypted ranges. An unused
//! range slot is stored as the all-ones pair.
//!
//! Loading runs once per archive at filesystem construction and is
//! fail-fast: an index that does not decrypt and validate aborts the whole
//! construction.

use vstd::prelude::*;

use crate::bytes::{le_u32_at, le_u64_at, read_le_u32, read_le_u64};
use crate::cipher::BLOCK_SIZE;
use crate::decrypt::{apply_one_range, apply_ranges, decrypt_ranges, range_decrypted};
use crate::errors::TocError;

verus! {

use vstd::slice::slice_subrange;

/// The stored marker of an unused range slot.
pub const RANGE_UNUSED: u64 = 0xffff_ffff_ffff_ffff;

/// Size of one entry record before its ranges.
pub const TOC_ENTRY_FIXED: usize = 48;

/// Size of the index header: a 4-byte magic tag, an entry count, and
/// reserved bytes. Header, records and range slots are all whole cipher
/// blocks, so a well-formed index always is too.
pub const TOC_HEADER: usize = 16;

/// One entry record as stored in an archive's table of contents.
#[derive(Clone, Debug)]
pub struct TocEntry {
    /// The entry's name hash.
    pub hash: u64,
    /// The entry's true size, or 0 when unknown at this layer.
    pub size: u32,
    /// The size of the entry's stored data region, padding included.
    pub padded_size: u32,
    /// Offset of the entry's data region inside the archive's data file.
    pub offset: u64,
    /// The entry's own decryption key.
    pub aes_key: [u8; 16],
    /// The declared encrypted range slots, unused slots included.
    pub encrypted_ranges: Vec<(u64, u64)>,
}

/// A mathematical entry record, the view of [`TocEntry`].
pub struct TocEntrySpec {
    /// The entry's name hash.
    pub hash: u64,
    /// The entry's true size, or 0 when unknown at this layer.
    pub size: u32,
    /// The size of the entry's stored data region, padding included.
    pub padded_size: u32,
    /// Offset of the entry's data region inside the archive's data file.
    pub offset: u64,
    /// The entry's own decryption key.
    pub aes_key: Seq<u8>,
    /// The declared encrypted range slots, unused slots included.
    pub encrypted_ranges: Seq<(u64, u64)>,
}

impl View for TocEntry {
    type V = TocEntrySpec;

    open spec fn view(&self) -> TocEntrySpec {
        TocEntrySpec {
            hash: self.hash,
            size: self.size,
            padded_size: self.padded_size,
            offset: self.offset,
            aes_key: self.aes_key@,
            encrypted_ranges: self.encrypted_ranges@,
        }
    }
}

impl DeepView for TocEntry {
    type V = TocEntrySpec;

    open spec fn deep_view(&self) -> TocEntrySpec {
        self@
    }
}

/// The range slots of one record: `count` pairs of 64-bit values at `off`.
pub open spec fn ranges_at(s: Seq<u8>, off: int, count: nat) -> Seq<(u64, u64)> {
    Seq::new(count, |i: int| (le_u64_at(s, off + 16 * i), le_u64_at(s, off + 16 * i + 8)))
}

/// The entry record at `off`: hash, sizes, offset, key, range count, ranges.
pub open spec fn entry_at(s: Seq<u8>, off: int) -> TocEntrySpec {
    TocEntrySpec {
        hash: le_u64_at(s, off),
        size: le_u32_at(s, off + 8),
        padded_size: le_u32_at(s, off + 12),
        offset: le_u64_at(s, off + 16),
        aes_key: s.subrange(off + 24, off + 40),
        encrypted_ranges: ranges_at(s, off + 48, le_u32_at(s, off + 40) as nat),
    }
}

/// Parse `n` consecutive entry records starting at `off`, requiring them to
/// fill the rest of the index exactly.
pub open spec fn parse_entries(s: Seq<u8>, off: int, n: nat) -> Option<Seq<TocEntrySpec>>
    decreases n,
{
    if n == 0 {
        if off == s.len() {
            Some(Seq::empty())
        } else {
            None
        }
    } else if off + 48 > s.len() {
        None
    } else {
        let rc = le_u32_at(s, off + 40) as int;
        if off + 48 + 16 * rc > s.len() {
            None
        } else {
            match parse_entries(s, off + 48 + 16 * rc, (n - 1) as nat) {
                Some(rest) => Some(seq![entry_at(s, off)] + rest),
                None => None,
            }
        }
    }
}

/// Parse a decrypted index: the magic tag `"BHD5"`, an entry count, and the
/// entry records in order, with nothing left over.
pub open spec fn parse_toc(plain: Seq<u8>) -> Option<Seq<TocEntrySpec>> {
    if plain.len() < 16 {
        None
    } else if !(plain[0] == 0x42 && plain[1] == 0x48 && plain[2] == 0x44 && plain[3] == 0x35) {
        None
    } else {
        parse_entries(plain, 16, le_u32_at(plain, 4) as nat)
    }
}

/// The index bytes after block-by-block decryption under the archive key.
pub open spec fn decrypted_index(index: Seq<u8>, key: Seq<u8>) -> Seq<u8> {
    range_decrypted(key, index)
}

/// Decrypt an archive's index with the archive-level key and parse it into
/// the ordered entry records. Fails on an index that is not whole cipher
/// blocks, and on one whose decrypted bytes do not validate.
pub fn load_toc(index: &Vec<u8>, key: &[u8; 16]) -> (r: Result<Vec<TocEntry>, TocError>)
    ensures
        match r {
            Ok(entries) => {
                &&& index@.len() % 16 == 0
                &&& parse_toc(decrypted_index(index@, key@)) matches Some(es) && entries.deep_view()
                    == es
            },
            Err(TocError::MisalignedIndex) => index@.len() % 16 != 0,
            Err(TocError::CorruptIndex) => index@.len() % 16 == 0 && parse_toc(
                decrypted_index(index@, key@),
            ) is None,
        },
{
    let ilen: usize = index.len();
    if ilen % BLOCK_SIZE != 0 {
        return Err(TocError::MisalignedIndex);
    }
    let mut plain: Vec<u8> = vstd::slice::slice_to_vec(index.as_slice());
    let whole: Vec<(u64, u64)> = vec![(0u64, ilen as u64)];
    decrypt_ranges(key, &whole, &mut plain);
    proof {
        lemma_whole_buffer_decrypt(key@, index@, whole@);
        assert(plain@ == decrypted_index(index@, key@));
    }
    parse_plain_toc(&plain)
}

/// Applying the single whole-buffer range decrypts the whole buffer.
proof fn lemma_whole_buffer_decrypt(key: Seq<u8>, data: Seq<u8>, whole: Seq<(u64, u64)>)
    requires
        whole.len() == 1,
        whole[0].0 == 0,
        whole[0].1 == data.len(),
    ensures
        apply_ranges(key, whole, data) == range_decrypted(key, data),
{
    let rest = whole.drop_first();
    assert(rest.len() == 0);
    let d1 = apply_one_range(key, whole[0], data);
    assert(apply_ranges(key, rest, d1) == d1);
    assert(apply_ranges(key, whole, data) == apply_ranges(key, rest, d1));
    assert(data.subrange(0, data.len() as int) =~= data);
    assert(d1 =~= range_decrypted(key, data));
}

/// Parse the decrypted index bytes.
fn parse_plain_toc(plain: &Vec<u8>) -> (r: Result<Vec<TocEntry>, TocError>)
    ensures
        match r {
            Ok(entries) => parse_toc(plain@) matches Some(es) && entries.deep_view() == es,
            Err(TocError::MisalignedIndex) => false,
            Err(TocError::CorruptIndex) => parse_toc(plain@) is None,
        },
{
    let plen: usize = plain.len();
    if plen < TOC_HEADER {
        return Err(TocError::CorruptIndex);
    }
    let b0: u8 = plain[0];
    let b1: u8 = plain[1];
    let b2: u8 = plain[2];
    let b3: u8 = plain[3];
    if !(b0 == 0x42 && b1 == 0x48 && b2 == 0x44 && b3 == 0x35) {
        return Err(TocError::CorruptIndex);
    }
    let count: u32 = read_le_u32(plain, 4);
    let ghost total: nat = count as nat;
    let mut entries: Vec<TocEntry> = Vec::new();
    let mut off: usize = TOC_HEADER;
    let mut left: u32 = count;
    proof {
        assert(plain@[0] == 0x42 && plain@[1] == 0x48 && plain@[2] == 0x44 && plain@[3] == 0x35);
    }
    while left > 0
        invariant
            plen == plain@.len(),
            off <= plen,
            entries@.len() + left == total,
            plain@.len() >= 16,
            plain@[0] == 0x42 && plain@[1] == 0x48 && plain@[2] == 0x44 && plain@[3] == 0x35,
            total == le_u32_at(plain@, 4) as nat,
            (parse_entries(plain@, off as int, left as nat) is Some) == (parse_entries(
                plain@,
                16,
                total,
            ) is Some),
            parse_entries(plain@, 16, total) matches Some(es) ==> {
                &&& parse_entries(plain@, off as int, left as nat) matches Some(rest) && es
                    == entries.deep_view() + rest
            },
        decreases left,
    {
        if off > plen || plen - off < TOC_ENTRY_FIXED {
            proof {
                assert(parse_entries(plain@, off as int, left as nat) is None);
                assert(parse_toc(plain@) == parse_entries(plain@, 16, total));
            }
            return Err(TocError::CorruptIndex);
        }
        let hash: u64 = read_le_u64(plain, off);
        let size: u32 = read_le_u32(plain, off + 8);
        let padded_size: u32 = read_le_u32(plain, off + 12);
        let offset: u64 = read_le_u64(plain, off + 16);
        let key_slice: &[u8] = slice_subrange(plain.as_slice(), off + 24, off + 40);
        let mut aes_key: [u8; 16] = [0u8; 16];
        copy_key(&mut aes_key, key_slice);
        let rc: u32 = read_le_u32(plain, off + 40);
        let room: usize = (plen - off - TOC_ENTRY_FIXED) / 16;
        if rc as usize > room {
            proof {
                let d: int = plen - off - 48;
                assert(16 * (rc as int) > d) by (nonlinear_arith)
                    requires rc as int > d / 16, d >= 0;
                assert(off + 48 + 16 * (le_u32_at(plain@, off + 40) as int) > plen);
                assert(parse_entries(plain@, off as int, left as nat) is None);
                assert(parse_toc(plain@) == parse_entries(plain@, 16, total));
            }
            return Err(TocError::CorruptIndex);
        }
        proof {
            let d: int = plen - off - 48;
            assert(16 * (rc as int) <= d) by (nonlinear_arith)
                requires rc as int <= d / 16, d >= 0;
        }
        let mut ranges: Vec<(u64, u64)> = Vec::new();
        let rbase: usize = off + TOC_ENTRY_FIXED;
        let mut i: usize = 0;
        while i < rc as usize
            invariant
                plen == plain@.len(),
                rbase + 16 * (rc as int) <= plen,
                0 <= i <= rc,
                ranges@.len() == i,
                forall|j: int|
                    0 <= j < i ==> ranges@[j] == (
                        le_u64_at(plain@, rbase + 16 * j),
                        le_u64_at(plain@, rbase + 16 * j + 8),
                    ),
            decreases rc - i,
        {
            let start: u64 = read_le_u64(plain, rbase + 16 * i);
            let end: u64 = read_le_u64(plain, rbase + 16 * i + 8);
            ranges.push((start, end));
            i = i + 1;
        }
        let entry = TocEntry { hash, size, padded_size, offset, aes_key, encrypted_ranges: ranges };
        proof {
            assert(aes_key@ =~= plain@.subrange(off + 24, off + 40));
            assert(entry@.encrypted_ranges =~= ranges_at(
                plain@,
                off + 48,
                le_u32_at(plain@, off + 40) as nat,
            ));
            assert(entry@ == entry_at(plain@, off as int));
        }
        let ghost old_entries = entries.deep_view();
        entries.push(entry);
        proof {
            assert(entries.deep_view() =~= old_entries.push(entry@));
            let rc_i: int = le_u32_at(plain@, off + 40) as int;
            let rest_off: int = off + 48 + 16 * rc_i;
            assert((parse_entries(plain@, off as int, left as nat) is Some) == (parse_entries(
                plain@,
                rest_off,
                (left - 1) as nat,
            ) is Some));
            match parse_entries(plain@, off as int, left as nat) {
                Some(rest) => {
                    assert(rest == seq![entry_at(plain@, off as int)] + parse_entries(
                        plain@,
                        rest_off,
                        (left - 1) as nat,
                    ).unwrap());
                    assert(old_entries + rest =~= entries.deep_view() + parse_entries(
                        plain@,
                        rest_off,
                        (left - 1) as nat,
                    ).unwrap());
                },
                None => {},
            }
        }
        let rc_sz: usize = rc as usize;
        off = rbase + 16 * rc_sz;
        left = left - 1;
    }
    if off != plen {
        proof {
            assert(parse_entries(plain@, off as int, 0) is None);
            assert(parse_toc(plain@) == parse_entries(plain@, 16, total));
        }
        return Err(TocError::CorruptIndex);
    }
    proof {
        assert(parse_entries(plain@, off as int, 0) == Some(Seq::<TocEntrySpec>::empty()));
        assert(parse_entries(plain@, 16, total) is Some);
        match parse_entries(plain@, 16, total) {
            Some(es) => {
                assert(es =~= entries.deep_view());
            },
            None => {},
        }
        assert(parse_toc(plain@) == parse_entries(plain@, 16, total));
    }
    Ok(entries)
}

/// Copy a 16-byte key out of the index bytes.
fn copy_key(dst: &mut [u8; 16], src: &[u8])
    requires
        src@.len() == 16,
    ensures
        final(dst)@ == src@,
{
    let mut i: usize = 0;
    while i < 16
        invariant
            src@.len() == 16,
            0 <= i <= 16,
            forall|j: int| 0 <= j < i ==> dst@[j] == src@[j],
        decreases 16 - i,
    {
        dst[i] = src[i];
        i = i + 1;
    }
    proof {
        assert(dst@ =~= src@);
    }
}

} // verus!
