//! In-place decryption of an entry's declared encrypted ranges.
//!
//! Each range is half-open, relative to the entry's own mapped data, and is
//! decrypted block by block under the entry's key. Whole blocks only: a
//! trailing partial block of a range, like every byte outside the declared
//! ranges, is left exactly as it was stored.

use vstd::prelude::*;

use crate::cipher::{aes128_block_plain, aes128_decrypt_block, BLOCK_SIZE};

verus! {

use vstd::pervasive::VecAdditionalExecFns;
use vstd::slice::slice_subrange;

/// One encrypted range after block-by-block decryption: byte `i` of a whole
/// block is byte `i % 16` of that block's AES plaintext; bytes of a trailing
/// partial block are unchanged.
pub open spec fn range_decrypted(key: Seq<u8>, enc: Seq<u8>) -> Seq<u8> {
    Seq::new(
        enc.len(),
        |i: int|
            if i < 16 * (enc.len() as int / 16) {
                aes128_block_plain(key, enc.subrange(16 * (i / 16), 16 * (i / 16) + 16))[i % 16]
            } else {
                enc[i]
            },
    )
}

/// Whether a declared range lies within a mapped region of `len` bytes.
pub open spec fn range_in_bounds(r: (u64, u64), len: nat) -> bool {
    r.0 <= r.1 && r.1 <= len
}

/// The region after decrypting one declared range in place: bytes inside the
/// range come from `range_decrypted`, bytes outside it are untouched. A range
/// out of bounds changes nothing (callers reject it before decrypting).
pub open spec fn apply_one_range(key: Seq<u8>, r: (u64, u64), data: Seq<u8>) -> Seq<u8> {
    if range_in_bounds(r, data.len()) {
        let dec = range_decrypted(key, data.subrange(r.0 as int, r.1 as int));
        Seq::new(
            data.len(),
            |i: int|
                if r.0 <= i < r.1 {
                    dec[i - r.0]
                } else {
                    data[i]
                },
        )
    } else {
        data
    }
}

/// The region after decrypting all declared ranges in place, first to last.
pub open spec fn apply_ranges(key: Seq<u8>, ranges: Seq<(u64, u64)>, data: Seq<u8>) -> Seq<u8>
    decreases ranges.len(),
{
    if ranges.len() == 0 {
        data
    } else {
        apply_ranges(key, ranges.drop_first(), apply_one_range(key, ranges[0], data))
    }
}

/// Whether byte `i` lies inside some declared range.
pub open spec fn in_some_range(ranges: Seq<(u64, u64)>, i: int) -> bool {
    exists|k: int| 0 <= k < ranges.len() && (#[trigger] ranges[k]).0 <= i < ranges[k].1
}

/// Whether the declared ranges are pairwise disjoint.
pub open spec fn ranges_disjoint(ranges: Seq<(u64, u64)>) -> bool {
    forall|j: int, k: int|
        0 <= j < k < ranges.len() ==> ranges[j].1 <= ranges[k].0 || ranges[k].1 <= ranges[j].0
}

/// Decryption never changes the region's length.
pub proof fn lemma_apply_ranges_len(key: Seq<u8>, ranges: Seq<(u64, u64)>, data: Seq<u8>)
    ensures
        apply_ranges(key, ranges, data).len() == data.len(),
    decreases ranges.len(),
{
    if ranges.len() > 0 {
        lemma_apply_ranges_len(key, ranges.drop_first(), apply_one_range(key, ranges[0], data));
    }
}

/// Every byte outside all declared ranges is left exactly as it was stored:
/// decrypting an entry touches the declared ranges and nothing else.
pub proof fn lemma_untouched_outside_ranges(
    key: Seq<u8>,
    ranges: Seq<(u64, u64)>,
    data: Seq<u8>,
    i: int,
)
    requires
        0 <= i < data.len(),
        !in_some_range(ranges, i),
    ensures
        apply_ranges(key, ranges, data)[i] == data[i],
    decreases ranges.len(),
{
    if ranges.len() > 0 {
        let d1 = apply_one_range(key, ranges[0], data);
        assert(!(ranges[0].0 <= i < ranges[0].1));
        assert(d1[i] == data[i]);
        assert forall|k: int| 0 <= k < ranges.drop_first().len() implies !((#[trigger] ranges.drop_first()[k]).0
            <= i < ranges.drop_first()[k].1) by {
            assert(ranges.drop_first()[k] == ranges[k + 1]);
        }
        assert(!in_some_range(ranges.drop_first(), i));
        lemma_untouched_outside_ranges(key, ranges.drop_first(), d1, i);
    }
}

/// When the declared ranges are pairwise disjoint and in bounds, the bytes of
/// each range in the decrypted region are exactly that range's block-by-block
/// plaintext of the bytes as stored: ranges decrypt independently, so the
/// first-to-last order of `apply_ranges` does not matter.
pub proof fn lemma_range_content(
    key: Seq<u8>,
    ranges: Seq<(u64, u64)>,
    data: Seq<u8>,
    k: int,
    i: int,
)
    requires
        forall|j: int| 0 <= j < ranges.len() ==> range_in_bounds(#[trigger] ranges[j], data.len()),
        ranges_disjoint(ranges),
        0 <= k < ranges.len(),
        ranges[k].0 <= i < ranges[k].1,
    ensures
        apply_ranges(key, ranges, data)[i] == range_decrypted(
            key,
            data.subrange(ranges[k].0 as int, ranges[k].1 as int),
        )[i - ranges[k].0],
    decreases ranges.len(),
{
    let d1 = apply_one_range(key, ranges[0], data);
    assert(d1.len() == data.len());
    let rest = ranges.drop_first();
    assert forall|j: int| 0 <= j < rest.len() implies range_in_bounds(
        #[trigger] rest[j],
        d1.len(),
    ) by {
        assert(rest[j] == ranges[j + 1]);
    }
    assert forall|j: int, l: int| 0 <= j < l < rest.len() implies rest[j].1 <= rest[l].0
        || rest[l].1 <= rest[j].0 by {
        assert(rest[j] == ranges[j + 1] && rest[l] == ranges[l + 1]);
    }
    if k == 0 {
        // the first range is decrypted by the first step and, being disjoint
        // from every later range, never touched again
        assert(d1[i] == range_decrypted(
            key,
            data.subrange(ranges[0].0 as int, ranges[0].1 as int),
        )[i - ranges[0].0]);
        assert forall|j: int| 0 <= j < rest.len() implies !((#[trigger] rest[j]).0 <= i < rest[j].1) by {
            assert(rest[j] == ranges[j + 1]);
        }
        lemma_untouched_outside_all(key, rest, d1, i);
    } else {
        // range k is untouched by the first step, and its stored bytes in d1
        // equal those in data
        assert(rest[k - 1] == ranges[k]);
        assert forall|j: int| ranges[k].0 <= j < ranges[k].1 implies d1[j] == data[j] by {
            assert(!(ranges[0].0 <= j < ranges[0].1));
        }
        assert(d1.subrange(ranges[k].0 as int, ranges[k].1 as int) =~= data.subrange(
            ranges[k].0 as int,
            ranges[k].1 as int,
        ));
        lemma_range_content(key, rest, d1, k - 1, i);
    }
}

/// Helper: a byte inside none of the ranges is untouched by applying them.
proof fn lemma_untouched_outside_all(key: Seq<u8>, ranges: Seq<(u64, u64)>, data: Seq<u8>, i: int)
    requires
        0 <= i < data.len(),
        forall|j: int| 0 <= j < ranges.len() ==> !(#[trigger] ranges[j].0 <= i < ranges[j].1),
    ensures
        apply_ranges(key, ranges, data)[i] == data[i],
    decreases ranges.len(),
{
    assert(!in_some_range(ranges, i));
    lemma_untouched_outside_ranges(key, ranges, data, i);
}

/// Decrypt every declared range of a mapped region in place, block by block,
/// under the entry's key. Ranges must already have been verified in bounds.
pub fn decrypt_ranges(key: &[u8; 16], ranges: &Vec<(u64, u64)>, buf: &mut Vec<u8>)
    requires
        forall|j: int|
            0 <= j < ranges@.len() ==> range_in_bounds(#[trigger] ranges@[j], old(buf)@.len()),
    ensures
        final(buf)@ == apply_ranges(key@, ranges@, old(buf)@),
        final(buf)@.len() == old(buf)@.len(),
{
    let ghost orig = buf@;
    proof {
        assert(ranges@.skip(0) =~= ranges@);
    }
    let nranges: usize = ranges.len();
    let mut j: usize = 0;
    while j < nranges
        invariant
            nranges == ranges@.len(),
            0 <= j <= nranges,
            buf@.len() == orig.len(),
            forall|l: int|
                0 <= l < ranges@.len() ==> range_in_bounds(#[trigger] ranges@[l], orig.len()),
            apply_ranges(key@, ranges@, orig) == apply_ranges(key@, ranges@.skip(j as int), buf@),
        decreases nranges - j,
    {
        let (start64, end64): (u64, u64) = ranges[j];
        let blen: usize = buf.len();
        proof {
            assert(range_in_bounds(ranges@[j as int], orig.len()));
            assert(end64 <= blen);
        }
        let start: usize = start64 as usize;
        let end: usize = end64 as usize;
        let ghost before = buf@;
        decrypt_one_range(key, start, end, buf);
        proof {
            assert(ranges@.skip(j as int)[0] == ranges@[j as int]);
            assert(ranges@.skip(j as int).drop_first() =~= ranges@.skip(j + 1));
        }
        j = j + 1;
    }
    proof {
        assert(ranges@.skip(nranges as int) =~= Seq::<(u64, u64)>::empty());
    }
}

/// Decrypt the whole blocks of one declared range in place.
fn decrypt_one_range(key: &[u8; 16], start: usize, end: usize, buf: &mut Vec<u8>)
    requires
        start <= end <= old(buf)@.len(),
    ensures
        final(buf)@ == apply_one_range(key@, (start as u64, end as u64), old(buf)@),
        final(buf)@.len() == old(buf)@.len(),
{
    let blen0: usize = buf.len();
    let ghost orig = buf@;
    let ghost r = (start as u64, end as u64);
    let ghost enc = orig.subrange(start as int, end as int);
    let ghost target = apply_one_range(key@, r, orig);
    proof {
        assert(range_in_bounds(r, orig.len()));
        assert(target.len() == orig.len());
    }
    let nblocks: usize = (end - start) / BLOCK_SIZE;
    let mut blk: usize = 0;
    while blk < nblocks
        invariant
            nblocks == (end - start) / 16,
            start <= end <= orig.len(),
            orig.len() == blen0,
            0 <= blk <= nblocks,
            buf@.len() == orig.len(),
            target == apply_one_range(key@, r, orig),
            target.len() == orig.len(),
            r == (start as u64, end as u64),
            enc == orig.subrange(start as int, end as int),
            forall|i: int| 0 <= i < start + 16 * blk ==> buf@[i] == target[i],
            forall|i: int| start + 16 * blk <= i < orig.len() ==> buf@[i] == orig[i],
        decreases nblocks - blk,
    {
        let base: usize = start + 16 * blk;
        proof {
            assert(base + 16 <= end);
            assert(buf@.subrange(base as int, base + 16) =~= orig.subrange(base as int, base + 16));
            assert(enc.subrange(16 * blk as int, 16 * blk + 16) =~= orig.subrange(
                base as int,
                base + 16,
            ));
        }
        let block: &[u8] = slice_subrange(buf.as_slice(), base, base + 16);
        let dec: Vec<u8> = aes128_decrypt_block(key, block);
        let ghost buf_before = buf@;
        let mut t: usize = 0;
        while t < 16
            invariant
                0 <= t <= 16,
                base + 16 <= orig.len(),
                orig.len() == blen0,
                dec@.len() == 16,
                buf@.len() == buf_before.len() == orig.len(),
                forall|i: int| 0 <= i < base ==> buf@[i] == buf_before[i],
                forall|i: int| base <= i < base + t ==> buf@[i] == dec@[i - base],
                forall|i: int| base + t <= i < orig.len() ==> buf@[i] == buf_before[i],
            decreases 16 - t,
        {
            buf.set(base + t, dec[t]);
            t = t + 1;
        }
        proof {
            let dec_range = range_decrypted(key@, enc);
            let elen: int = enc.len() as int;
            assert(dec@ == aes128_block_plain(key@, orig.subrange(base as int, base + 16)));
            assert forall|i: int| base <= i < base + 16 implies buf@[i] == target[i] by {
                let o: int = i - start;
                let b: int = blk as int;
                assert(o / 16 == b) by (nonlinear_arith)
                    requires 16 * b <= o < 16 * b + 16;
                assert(o % 16 == o - 16 * b) by (nonlinear_arith)
                    requires 16 * b <= o < 16 * b + 16;
                assert(o < 16 * (elen / 16)) by (nonlinear_arith)
                    requires 16 * b <= o, o < 16 * b + 16, b + 1 <= elen / 16;
                assert(enc.subrange(16 * (o / 16), 16 * (o / 16) + 16) =~= orig.subrange(
                    base as int,
                    base + 16,
                ));
                assert(dec_range[o] == aes128_block_plain(
                    key@,
                    orig.subrange(base as int, base + 16),
                )[o % 16]);
                assert(target[i] == dec_range[o]);
                assert(buf@[i] == dec@[i - base]);
                assert(i - base == o % 16);
            };
        }
        blk = blk + 1;
    }
    proof {
        assert forall|i: int| 0 <= i < orig.len() implies buf@[i] == target[i] by {
            if i < start + 16 * nblocks {
                assert(buf@[i] == target[i]);
            } else {
                assert(buf@[i] == orig[i]);
                if start <= i < end {
                    let o: int = i - start;
                    assert(o >= 16 * ((end - start) as int / 16)) by (nonlinear_arith)
                        requires
                            i >= start + 16 * nblocks,
                            o == i - start,
                            nblocks == (end - start) / 16;
                    assert(target[i] == enc[o]);
                    assert(enc[o] == orig[i]);
                }
            }
        };
        assert(buf@ =~= target);
    }
}

} // verus!
