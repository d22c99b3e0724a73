//! The entry table's merge semantics.
//!
//! Archives are loaded in a fixed order and their records are folded into one
//! table keyed by name hash. When the same hash occurs more than once, the
//! record inserted last wins — across archives and within one archive alike.
//! This is deliberate: a later archive overrides an earlier one, and must be
//! preserved exactly, not treated as an error.

use vstd::prelude::*;

use crate::entry::{entry_from_toc, VfsFileEntrySpec};
use crate::toc::TocEntrySpec;

verus! {

/// The table pairs one archive's records contribute, in record order.
pub open spec fn toc_pairs(toc: Seq<TocEntrySpec>, archive: usize) -> Seq<(u64, VfsFileEntrySpec)> {
    toc.map(|i: int, t: TocEntrySpec| (t.hash, entry_from_toc(t, archive)))
}

/// Insert the pairs into the table in order; a later pair overwrites an
/// earlier one with the same hash.
pub open spec fn insert_pairs(
    m: Map<u64, VfsFileEntrySpec>,
    l: Seq<(u64, VfsFileEntrySpec)>,
) -> Map<u64, VfsFileEntrySpec>
    decreases l.len(),
{
    if l.len() == 0 {
        m
    } else {
        insert_pairs(m.insert(l[0].0, l[0].1), l.drop_first())
    }
}

/// The entry table of a list of archives' tables of contents, loaded in
/// order: archive `i` contributes its pairs with owning-archive index `i`.
pub open spec fn merged_tables(tocs: Seq<Seq<TocEntrySpec>>) -> Map<u64, VfsFileEntrySpec>
    decreases tocs.len(),
{
    if tocs.len() == 0 {
        Map::empty()
    } else {
        insert_pairs(
            merged_tables(tocs.drop_last()),
            toc_pairs(tocs.last(), (tocs.len() - 1) as usize),
        )
    }
}

/// The value of the last pair with the given hash, if any.
pub open spec fn lookup_last_pair<V>(l: Seq<(u64, V)>, h: u64) -> Option<V>
    decreases l.len(),
{
    if l.len() == 0 {
        None
    } else if l.last().0 == h {
        Some(l.last().1)
    } else {
        lookup_last_pair(l.drop_last(), h)
    }
}

/// Inserting one more pair after a list of pairs inserts it last.
pub proof fn lemma_insert_pairs_push(
    m: Map<u64, VfsFileEntrySpec>,
    l: Seq<(u64, VfsFileEntrySpec)>,
    p: (u64, VfsFileEntrySpec),
)
    ensures
        insert_pairs(m, l.push(p)) == insert_pairs(m, l).insert(p.0, p.1),
    decreases l.len(),
{
    if l.len() == 0 {
        assert(l.push(p)[0] == p);
        assert(l.push(p).drop_first() =~= Seq::<(u64, VfsFileEntrySpec)>::empty());
        assert(insert_pairs(m, l) == m);
        assert(insert_pairs(m.insert(p.0, p.1), l.push(p).drop_first()) == m.insert(p.0, p.1));
        assert(insert_pairs(m, l.push(p)) == insert_pairs(
            m.insert(p.0, p.1),
            l.push(p).drop_first(),
        ));
    } else {
        assert(l.push(p)[0] == l[0]);
        assert(l.push(p).drop_first() =~= l.drop_first().push(p));
        lemma_insert_pairs_push(m.insert(l[0].0, l[0].1), l.drop_first(), p);
        assert(insert_pairs(m, l.push(p)) == insert_pairs(
            m.insert(l[0].0, l[0].1),
            l.drop_first().push(p),
        ));
        assert(insert_pairs(m, l) == insert_pairs(m.insert(l[0].0, l[0].1), l.drop_first()));
    }
}

/// Inserting a list of pairs leaves, for each hash, the value of the last
/// pair with that hash, and leaves hashes that never occur untouched.
pub proof fn lemma_insert_pairs_lookup(
    m: Map<u64, VfsFileEntrySpec>,
    l: Seq<(u64, VfsFileEntrySpec)>,
    h: u64,
)
    ensures
        match lookup_last_pair(l, h) {
            Some(v) => insert_pairs(m, l).contains_key(h) && insert_pairs(m, l)[h] == v,
            None => {
                &&& insert_pairs(m, l).contains_key(h) == m.contains_key(h)
                &&& m.contains_key(h) ==> insert_pairs(m, l)[h] == m[h]
            },
        },
    decreases l.len(),
{
    if l.len() > 0 {
        let l0 = l.drop_last();
        let p = l.last();
        assert(l =~= l0.push(p));
        lemma_insert_pairs_push(m, l0, p);
        lemma_insert_pairs_lookup(m, l0, h);
    }
}

/// Last-write-wins across archives: when archive `k` is the last loaded
/// archive whose table of contents names the hash, the merged table holds
/// exactly the entry that archive's last record with that hash describes.
pub proof fn lemma_merged_last_archive_wins(tocs: Seq<Seq<TocEntrySpec>>, h: u64, k: int)
    requires
        0 <= k < tocs.len(),
        lookup_last_pair(toc_pairs(tocs[k], k as usize), h) is Some,
        forall|l: int|
            k < l < tocs.len() ==> lookup_last_pair(
                toc_pairs(#[trigger] tocs[l], l as usize),
                h,
            ) is None,
    ensures
        merged_tables(tocs).contains_key(h),
        merged_tables(tocs)[h] == lookup_last_pair(toc_pairs(tocs[k], k as usize), h)->0,
    decreases tocs.len(),
{
    let n = tocs.len() as int;
    let before = merged_tables(tocs.drop_last());
    let last_pairs = toc_pairs(tocs.last(), (n - 1) as usize);
    lemma_insert_pairs_lookup(before, last_pairs, h);
    if k == n - 1 {
        assert(tocs.last() == tocs[k]);
    } else {
        assert(tocs.last() == tocs[n - 1]);
        assert(lookup_last_pair(toc_pairs(tocs[n - 1], (n - 1) as usize), h) is None);
        assert(tocs.drop_last()[k] == tocs[k]);
        assert forall|l: int| k < l < tocs.drop_last().len() implies lookup_last_pair(
            toc_pairs(#[trigger] tocs.drop_last()[l], l as usize),
            h,
        ) is None by {
            assert(tocs.drop_last()[l] == tocs[l]);
        }
        lemma_merged_last_archive_wins(tocs.drop_last(), h, k);
    }
}

/// A hash absent from every archive is absent from the merged table.
pub proof fn lemma_merged_absent(tocs: Seq<Seq<TocEntrySpec>>, h: u64)
    requires
        forall|l: int|
            0 <= l < tocs.len() ==> lookup_last_pair(
                toc_pairs(#[trigger] tocs[l], l as usize),
                h,
            ) is None,
    ensures
        !merged_tables(tocs).contains_key(h),
    decreases tocs.len(),
{
    if tocs.len() > 0 {
        let n = tocs.len() as int;
        let before = merged_tables(tocs.drop_last());
        let last_pairs = toc_pairs(tocs.last(), (n - 1) as usize);
        assert(tocs.last() == tocs[n - 1]);
        lemma_insert_pairs_lookup(before, last_pairs, h);
        assert forall|l: int| 0 <= l < tocs.drop_last().len() implies lookup_last_pair(
            toc_pairs(#[trigger] tocs.drop_last()[l], l as usize),
            h,
        ) is None by {
            assert(tocs.drop_last()[l] == tocs[l]);
        }
        lemma_merged_absent(tocs.drop_last(), h);
    }
}

} // verus!
