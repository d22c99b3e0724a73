//! The virtual filesystem: a frozen, hash-indexed entry table over the
//! memory-mapped archive pairs of one game installation.
//!
//! Construction opens every archive in order, loads its table of contents,
//! and merges the entries with last-write-wins semantics by hash; it is
//! fail-fast, so no partial filesystem is ever produced. After construction
//! nothing is ever mutated: lookups and opens share the table and the
//! mappings read-only, and each `open` works on its own private copy of the
//! entry's stored bytes.

use vstd::prelude::*;

use std::collections::HashMap;

use crate::bnd4::{
    bnd4_paths_decodable, find_member, first_match, member_bytes, member_bytes_spec, parse_bnd4,
    parse_bnd4_files, Bnd4MemberSpec,
};
use crate::dcx::{dcx_compression_of, dcx_plain, read_dcx, DcxCompression};
use crate::decrypt::{apply_ranges, decrypt_ranges};
use crate::entry::{VfsFileEntry, VfsFileEntrySpec};
use crate::errors::{Bnd4Error, CreateError, DvdBndEntryError, KeyError, ReadFileError};
use crate::mapped::{mmap_bytes, mmap_len, mmap_region};
use crate::name::{name_hash_of, Name};
use crate::reader::DvdBndEntryReader;
use crate::table::{insert_pairs, lemma_insert_pairs_push, merged_tables, toc_pairs};
use crate::toc::{decrypted_index, load_toc, parse_toc, TocEntry, TocEntrySpec};
use crate::utf16::{encode_utf16_units, utf16_units_of};

verus! {

use vstd::math::min;
use vstd::string::StringSliceAdditionalSpecFns;

broadcast use vstd::std_specs::hash::group_hash_axioms;

/// The games whose installations this filesystem layout covers.
#[derive(Copy, Clone, Debug, PartialEq, Eq, Structural, PartialOrd, Ord)]
pub enum GameType {
    EldenRing,
    Nightreign,
}

/// Supplies the archive-level decryption key for an archive's identity.
/// Key material lives outside the filesystem (on disk, injected by the
/// caller); it fails when the key is missing or malformed.
pub trait ArchiveKeyProvider {
    /// The raw key bytes for the named archive.
    fn get_key(&self, archive_name: &str) -> Result<[u8; 16], KeyError>;
}

/// The identity and raw material of one archive pair, ready to load: the
/// archive's name (for key lookup), its encrypted index bytes, and the
/// read-only mapping of its bulk-data file.
pub struct ArchiveSource {
    /// The archive's name, as the key provider knows it.
    pub name: String,
    /// The encrypted bytes of the archive's index file.
    pub index: Vec<u8>,
    /// The read-only mapping of the archive's bulk-data file.
    pub data: memmap2::Mmap,
}

/// The entry table with every entry abstracted to its view.
pub open spec fn entry_view_map(m: Map<u64, VfsFileEntry>) -> Map<u64, VfsFileEntrySpec> {
    m.map_values(|e: VfsFileEntry| e@)
}

/// What loading one archive source under one key yields: `None` when the
/// index cannot be decrypted and validated.
pub open spec fn source_toc(index: Seq<u8>, key: [u8; 16]) -> Option<Seq<TocEntrySpec>> {
    if index.len() % 16 != 0 {
        None
    } else {
        parse_toc(decrypted_index(index, key@))
    }
}

/// The tables of contents of the first `n` sources, assuming each loads.
pub open spec fn tocs_prefix(sources: Seq<ArchiveSource>, keys: Seq<[u8; 16]>, n: int) -> Seq<
    Seq<TocEntrySpec>,
> {
    Seq::new(n as nat, |i: int| source_toc(sources[i].index@, keys[i])->0)
}

/// A read-only virtual filesystem layered over the archive pairs of a game
/// installation. Built once, never mutated: no write, delete or rename
/// operation exists.
pub struct DvdBnd {
    archives: Vec<memmap2::Mmap>,
    entries: HashMap<u64, VfsFileEntry>,
}

impl DvdBnd {
    #[verifier::type_invariant]
    spec fn wf(&self) -> bool {
        forall|h: u64|
            self.entries@.contains_key(h) ==> (#[trigger] self.entries@[h])@.archive
                < self.archives@.len()
    }

    /// The entry table: name hash to entry metadata.
    pub closed spec fn table(&self) -> Map<u64, VfsFileEntrySpec> {
        entry_view_map(self.entries@)
    }

    /// How many archives the filesystem holds.
    pub closed spec fn archive_count(&self) -> nat {
        self.archives@.len()
    }

    /// The mapped bytes of archive `i`.
    pub closed spec fn archive_data(&self, i: int) -> Seq<u8> {
        mmap_bytes(&self.archives@[i])
    }

    /// The stored (still encrypted) bytes of an entry's data region.
    pub open spec fn entry_region(&self, e: VfsFileEntrySpec) -> Seq<u8> {
        self.archive_data(e.archive as int).subrange(
            e.file_offset as int,
            e.file_offset + e.file_size_with_padding,
        )
    }

    /// Whether an entry's data region lies within its archive's mapped bytes.
    pub open spec fn entry_region_in_bounds(&self, e: VfsFileEntrySpec) -> bool {
        e.file_offset + e.file_size_with_padding <= self.archive_data(e.archive as int).len()
    }

    /// An entry's data region after decrypting its declared ranges in place.
    pub open spec fn entry_plain(&self, e: VfsFileEntrySpec) -> Seq<u8> {
        apply_ranges(e.aes_key, e.aes_ranges, self.entry_region(e))
    }

    /// What `open` yields for the hash `h`: a miss is `NotFound`; a region
    /// outside the archive is `UnableToMap`; a declared range outside the
    /// padded region is `CorruptEntry`, detected before any decryption; and
    /// otherwise a reader over the decrypted region, bounded to the entry's
    /// effective size.
    pub open spec fn open_result_is(&self, h: u64, r: Result<
        DvdBndEntryReader,
        DvdBndEntryError,
    >) -> bool {
        match r {
            Ok(reader) => {
                &&& self.table().contains_key(h)
                &&& {
                    let e = self.table()[h];
                    &&& self.entry_region_in_bounds(e)
                    &&& e.ranges_ok()
                    &&& reader@ == self.entry_plain(e).take(
                        min(e.effective_size() as int, e.file_size_with_padding as int),
                    )
                }
            },
            Err(DvdBndEntryError::NotFound) => !self.table().contains_key(h),
            Err(DvdBndEntryError::UnableToMap) => self.table().contains_key(h)
                && !self.entry_region_in_bounds(self.table()[h]),
            Err(DvdBndEntryError::CorruptEntry) => {
                &&& self.table().contains_key(h)
                &&& self.entry_region_in_bounds(self.table()[h])
                &&& !self.table()[h].ranges_ok()
            },
        }
    }

    /// Build the filesystem from the archive sources in order, using the
    /// given archive-level keys. Fail-fast: the first archive whose index
    /// does not decrypt and validate aborts the construction.
    pub fn create_with_keys(sources: Vec<ArchiveSource>, keys: &Vec<[u8; 16]>) -> (r: Result<
        DvdBnd,
        CreateError,
    >)
        requires
            keys@.len() == sources@.len(),
        ensures
            match r {
                Ok(vfs) => {
                    &&& forall|i: int|
                        0 <= i < sources@.len() ==> source_toc(
                            (#[trigger] sources@[i]).index@,
                            keys@[i],
                        ) is Some
                    &&& vfs.table() == merged_tables(
                        tocs_prefix(sources@, keys@, sources@.len() as int),
                    )
                    &&& vfs.archive_count() == sources@.len()
                    &&& forall|i: int|
                        0 <= i < sources@.len() ==> vfs.archive_data(i) == mmap_bytes(
                            &(#[trigger] sources@[i]).data,
                        )
                },
                Err(CreateError::Index(_)) => exists|i: int|
                    0 <= i < sources@.len() && source_toc(
                        (#[trigger] sources@[i]).index@,
                        keys@[i],
                    ) is None,
                Err(CreateError::Key(_)) => false,
            },
    {
        let ghost osources = sources@;
        let n: usize = sources.len();
        let mut srcs = sources;
        let mut archives: Vec<memmap2::Mmap> = Vec::new();
        let mut entries: HashMap<u64, VfsFileEntry> = HashMap::new();
        let mut i: usize = 0;
        proof {
            assert(srcs@ =~= osources.skip(0));
            assert(tocs_prefix(osources, keys@, 0) =~= Seq::<Seq<TocEntrySpec>>::empty());
            assert(entry_view_map(entries@) =~= merged_tables(tocs_prefix(osources, keys@, 0)));
        }
        while i < n
            invariant
                osources == sources@,
                n == osources.len(),
                keys@.len() == n,
                0 <= i <= n,
                srcs@ == osources.skip(i as int),
                archives@.len() == i,
                forall|k: int|
                    0 <= k < i ==> mmap_bytes(&archives@[k]) == mmap_bytes(
                        &(#[trigger] osources[k]).data,
                    ),
                forall|k: int|
                    0 <= k < i ==> source_toc((#[trigger] osources[k]).index@, keys@[k]) is Some,
                entry_view_map(entries@) == merged_tables(tocs_prefix(osources, keys@, i as int)),
                forall|h: u64|
                    entries@.contains_key(h) ==> (#[trigger] entries@[h])@.archive < i,
            decreases n - i,
        {
            let src: ArchiveSource = srcs.remove(0);
            proof {
                assert(osources.skip(i as int)[0] == osources[i as int]);
                assert(osources.skip(i as int).drop_first() =~= osources.skip(i + 1));
            }
            let key: [u8; 16] = keys[i];
            let toc: Vec<TocEntry> = match load_toc(&src.index, &key) {
                Ok(t) => t,
                Err(e) => {
                    proof {
                        assert(src.index@ == osources[i as int].index@);
                        assert(source_toc(sources@[i as int].index@, keys@[i as int]) is None);
                        assert(exists|ii: int|
                            0 <= ii < sources@.len() && source_toc(
                                (#[trigger] sources@[ii]).index@,
                                keys@[ii],
                            ) is None);
                    }
                    return Err(CreateError::Index(e));
                },
            };
            archives.push(src.data);
            let ghost table_before = entry_view_map(entries@);
            let ghost pairs = toc_pairs(toc.deep_view(), i);
            let m: usize = toc.len();
            let mut j: usize = 0;
            proof {
                assert(pairs.take(0) =~= Seq::<(u64, VfsFileEntrySpec)>::empty());
                assert(insert_pairs(table_before, pairs.take(0)) == table_before);
            }
            while j < m
                invariant
                    m == toc@.len(),
                    0 <= j <= m,
                    pairs == toc_pairs(toc.deep_view(), i),
                    pairs.len() == m,
                    entry_view_map(entries@) == insert_pairs(table_before, pairs.take(j as int)),
                    forall|h: u64|
                        entries@.contains_key(h) ==> (#[trigger] entries@[h])@.archive <= i,
                decreases m - j,
            {
                let t: &TocEntry = &toc[j];
                let entry: VfsFileEntry = VfsFileEntry::from_toc(t, i);
                let ghost before = entries@;
                let h: u64 = t.hash;
                entries.insert(h, entry);
                proof {
                    assert(entries@ == before.insert(h, entry));
                    assert(entry_view_map(before.insert(h, entry)) =~= entry_view_map(
                        before,
                    ).insert(h, entry@));
                    assert(pairs[j as int] == (
                        toc.deep_view()[j as int].hash,
                        crate::entry::entry_from_toc(toc.deep_view()[j as int], i),
                    ));
                    assert(toc.deep_view()[j as int] == t@);
                    assert(pairs[j as int] == (h, entry@));
                    assert(pairs.take(j + 1).drop_last() =~= pairs.take(j as int));
                    assert(pairs.take(j + 1) =~= pairs.take(j as int).push(pairs[j as int]));
                    lemma_insert_pairs_push(table_before, pairs.take(j as int), pairs[j as int]);
                }
                j = j + 1;
            }
            proof {
                assert(pairs.take(m as int) =~= pairs);
                let tp1 = tocs_prefix(osources, keys@, i + 1);
                assert(tp1.drop_last() =~= tocs_prefix(osources, keys@, i as int));
                assert(tp1.last() == source_toc(osources[i as int].index@, keys@[i as int])->0);
                assert(tp1.last() == toc.deep_view());
                assert(merged_tables(tp1) == insert_pairs(
                    merged_tables(tocs_prefix(osources, keys@, i as int)),
                    toc_pairs(toc.deep_view(), i),
                ));
            }
            i = i + 1;
        }
        let vfs = DvdBnd { archives, entries };
        proof {
            assert(vfs.table() == merged_tables(tocs_prefix(osources, keys@, n as int)));
        }
        Ok(vfs)
    }

    /// Build the filesystem from the archive sources in order, fetching each
    /// archive's key from the key provider first. Fail-fast on a missing or
    /// malformed key and on an index that does not decrypt and validate.
    pub fn create<K: ArchiveKeyProvider>(sources: Vec<ArchiveSource>, key_provider: &K) -> (r:
        Result<DvdBnd, CreateError>)
        ensures
            r matches Ok(vfs) ==> vfs.archive_count() == sources@.len(),
    {
        let n: usize = sources.len();
        let mut keys: Vec<[u8; 16]> = Vec::new();
        let mut i: usize = 0;
        while i < n
            invariant
                n == sources@.len(),
                0 <= i <= n,
                keys@.len() == i,
            decreases n - i,
        {
            let src: &ArchiveSource = &sources[i];
            match key_provider.get_key(src.name.as_str()) {
                Ok(kb) => keys.push(kb),
                Err(e) => {
                    return Err(CreateError::Key(e));
                },
            }
            i = i + 1;
        }
        Self::create_with_keys(sources, &keys)
    }

    /// Read a dictionary's text into its candidate paths: one virtual path
    /// per line, blank and comment lines ignored. Exposed so custom
    /// dictionaries can be used.
    pub fn dictionary(data_file_contents: &str) -> (r: Vec<String>)
        ensures
            r.deep_view() == crate::dict::dictionary_lines(data_file_contents@),
    {
        crate::dict::dictionary(data_file_contents)
    }

    /// Open a reader to the entry identified by the given virtual path.
    pub fn open(&self, path: &str) -> (r: Result<DvdBndEntryReader, DvdBndEntryError>)
        ensures
            self.open_result_is(name_hash_of(path.spec_bytes()), r),
    {
        self.open_name(Name::from_path(path))
    }

    /// Open a reader to the entry identified by the given name hash.
    pub fn open_name(&self, name: Name) -> (r: Result<DvdBndEntryReader, DvdBndEntryError>)
        ensures
            self.open_result_is(name.0, r),
    {
        proof {
            use_type_invariant(self);
        }
        let h: u64 = name.0;
        match self.entries.get(&h) {
            None => {
                proof {
                    assert(!self.entries@.contains_key(h));
                    assert(!self.table().contains_key(h));
                }
                Err(DvdBndEntryError::NotFound)
            },
            Some(entry) => {
                proof {
                    assert(self.entries@.contains_key(h) && self.entries@[h] == *entry);
                    assert(self.table()[h] == entry@);
                }
                let archive: &memmap2::Mmap = &self.archives[entry.archive];
                let alen: usize = mmap_len(archive);
                let padded: usize = entry.file_size_with_padding as usize;
                let off64: u64 = entry.file_offset;
                if !(padded as u64 <= alen as u64 && off64 <= alen as u64 - padded as u64) {
                    proof {
                        assert(!self.entry_region_in_bounds(entry@));
                    }
                    return Err(DvdBndEntryError::UnableToMap);
                }
                let off: usize = off64 as usize;
                let mut buf: Vec<u8> = mmap_region(archive, off, padded);
                if !entry.check_ranges() {
                    return Err(DvdBndEntryError::CorruptEntry);
                }
                proof {
                    assert(buf@.len() == entry.file_size_with_padding as nat);
                    assert forall|j: int| 0 <= j < entry.aes_ranges@.len() implies
                        crate::decrypt::range_in_bounds(
                            #[trigger] entry.aes_ranges@[j],
                            buf@.len(),
                        ) by {
                        assert(entry@.aes_ranges[j] == entry.aes_ranges@[j]);
                        assert(crate::decrypt::range_in_bounds(
                            entry@.aes_ranges[j],
                            entry@.file_size_with_padding as nat,
                        ));
                    }
                }
                decrypt_ranges(&entry.aes_key, &entry.aes_ranges, &mut buf);
                let eff: u32 = entry.effective_size();
                let reader = DvdBndEntryReader::new(buf, eff as usize);
                proof {
                    assert(self.entry_region(entry@) == mmap_bytes(archive).subrange(
                        off as int,
                        off + padded,
                    ));
                    assert(reader@ == self.entry_plain(entry@).take(
                        min(entry@.effective_size() as int, entry@.file_size_with_padding as int),
                    ));
                }
                Ok(reader)
            },
        }
    }

    /// What an entry's opened, size-bounded bytes are, when opening succeeds.
    pub open spec fn open_ok_bytes(&self, h: u64) -> Option<Seq<u8>> {
        if self.table().contains_key(h) && self.entry_region_in_bounds(self.table()[h])
            && self.table()[h].ranges_ok() {
            let e = self.table()[h];
            Some(
                self.entry_plain(e).take(
                    min(e.effective_size() as int, e.file_size_with_padding as int),
                ),
            )
        } else {
            None
        }
    }

    /// What a direct (no container chain) read of a virtual path yields:
    /// the entry's bytes with their compression envelope removed.
    pub open spec fn read_direct(&self, path: Seq<u8>) -> Option<Seq<u8>> {
        match self.open_ok_bytes(name_hash_of(path)) {
            Some(bytes) => dcx_plain(bytes),
            None => None,
        }
    }

    /// What a nested read yields: the first hop opened and decompressed,
    /// then one member extracted per remaining name.
    pub open spec fn read_nested(&self, first: Seq<u8>, names: Seq<Seq<char>>) -> Option<Seq<u8>> {
        match self.read_direct(first) {
            Some(data) => resolve_chain(data, names),
            None => None,
        }
    }

    /// Read the bytes of a nested or non-nested file within the container.
    ///
    /// With an empty chain, the named entry is opened and its compression
    /// envelope removed. With a chain, the chain's first name is opened and
    /// decompressed the same way, then each remaining chain name and finally
    /// `name` selects one member of the current buffer parsed as a nested
    /// container. Either way the envelope's compression descriptor is
    /// returned for reporting: nested members are not independently
    /// compressed in this format family.
    pub fn read_file(&self, nested_bnd_names: &Vec<String>, name: &str) -> (r: Result<
        (String, Vec<u8>),
        ReadFileError,
    >)
        ensures
            ({
                let steps = chain_steps(nested_bnd_names@, name@);
                let first = first_path_bytes(nested_bnd_names@, name@);
                match r {
                    Ok((d, out)) => {
                        &&& self.read_nested(first, steps) == Some(out@)
                        &&& self.open_ok_bytes(name_hash_of(first)) matches Some(bytes)
                            && dcx_compression_of(bytes) matches Some(c) && d@ == c.describe_spec()
                    },
                    Err(ReadFileError::Entry(e)) => self.open_result_is(
                        name_hash_of(first),
                        Err(e),
                    ),
                    Err(_) => self.read_nested(first, steps) is None,
                }
            }),
    {
        let first_str: &str = if nested_bnd_names.len() > 0 {
            nested_bnd_names[0].as_str()
        } else {
            name
        };
        let reader = match self.open(first_str) {
            Ok(rd) => rd,
            Err(e) => {
                return Err(ReadFileError::Entry(e));
            },
        };
        let opened: Vec<u8> = reader.to_vec();
        proof {
            let first = first_path_bytes(nested_bnd_names@, name@);
            assert(self.open_ok_bytes(name_hash_of(first)) == Some(opened@));
        }
        let (compression, mut data): (DcxCompression, Vec<u8>) = match read_dcx(&opened) {
            Ok(p) => p,
            Err(e) => {
                proof {
                    let first = first_path_bytes(nested_bnd_names@, name@);
                    assert(dcx_plain(opened@) is None);
                    assert(self.read_direct(first) is None);
                    assert(self.read_nested(first, chain_steps(nested_bnd_names@, name@)) is None);
                }
                return Err(ReadFileError::Envelope(e));
            },
        };
        let descriptor: String = compression.describe();
        let ghost first = first_path_bytes(nested_bnd_names@, name@);
        let ghost steps = chain_steps(nested_bnd_names@, name@);
        proof {
            assert(self.read_direct(first) == Some(data@));
        }
        if nested_bnd_names.len() == 0 {
            proof {
                assert(steps =~= Seq::<Seq<char>>::empty());
            }
            return Ok((descriptor, data));
        }
        let n: usize = nested_bnd_names.len();
        let mut k: usize = 1;
        proof {
            assert(steps.skip(0) =~= steps);
        }
        while k < n
            invariant
                1 <= k <= n,
                n == nested_bnd_names@.len(),
                steps == chain_steps(nested_bnd_names@, name@),
                first == first_path_bytes(nested_bnd_names@, name@),
                steps.len() == n,
                self.read_nested(first, steps) == resolve_chain(data@, steps.skip(k - 1)),
            decreases n - k,
        {
            proof {
                assert(steps[k - 1] == nested_bnd_names@[k as int]@);
                assert(steps.skip(k - 1)[0] == steps[k - 1]);
                assert(steps.skip(k - 1).drop_first() =~= steps.skip(k as int));
            }
            data = match resolve_one(&data, nested_bnd_names[k].as_str()) {
                Ok(next) => next,
                Err(e) => {
                    proof {
                        assert(resolve_chain(data@, steps.skip(k - 1)) is None);
                        assert(self.read_nested(first, steps) is None);
                    }
                    return Err(e);
                },
            };
            k = k + 1;
        }
        proof {
            assert(steps[n - 1] == name@);
            assert(steps.skip(n - 1)[0] == steps[n - 1]);
            assert(steps.skip(n - 1).drop_first() =~= steps.skip(n as int));
            assert(steps.skip(n as int) =~= Seq::<Seq<char>>::empty());
        }
        let out: Vec<u8> = match resolve_one(&data, name) {
            Ok(next) => next,
            Err(e) => {
                proof {
                    assert(resolve_chain(data@, steps.skip(n - 1)) is None);
                    assert(self.read_nested(first, steps) is None);
                }
                return Err(e);
            },
        };
        proof {
            assert(resolve_chain(out@, steps.skip(n as int)) == Some(out@));
            assert(resolve_chain(data@, steps.skip(n - 1)) == Some(out@));
        }
        Ok((descriptor, out))
    }
}

/// A read with an empty container chain yields exactly what opening the
/// entry and removing its compression envelope yields — no container
/// parsing stands between them.
pub proof fn lemma_empty_chain_reads_direct(vfs: DvdBnd, leaf: Seq<char>)
    ensures
        chain_steps(Seq::<String>::empty(), leaf) == Seq::<Seq<char>>::empty(),
        first_path_bytes(Seq::<String>::empty(), leaf) == vstd::utf8::encode_utf8(leaf),
        vfs.read_nested(
            first_path_bytes(Seq::<String>::empty(), leaf),
            chain_steps(Seq::<String>::empty(), leaf),
        ) == (match vfs.open_ok_bytes(name_hash_of(vstd::utf8::encode_utf8(leaf))) {
            Some(bytes) => dcx_plain(bytes),
            None => None,
        }),
{
    let first = first_path_bytes(Seq::<String>::empty(), leaf);
    match vfs.read_direct(first) {
        Some(d) => {
            assert(resolve_chain(d, Seq::<Seq<char>>::empty()) == Some(d));
        },
        None => {},
    }
}

/// The names a nested read resolves after its first hop: the chain's names
/// past the first, then the leaf name.
pub open spec fn chain_steps(chain: Seq<String>, leaf: Seq<char>) -> Seq<Seq<char>> {
    if chain.len() == 0 {
        Seq::empty()
    } else {
        chain.skip(1).map_values(|s: String| s@).push(leaf)
    }
}

/// The virtual path a read opens first: the chain's first name when a chain
/// is given, else the leaf name itself.
pub open spec fn first_path_bytes(chain: Seq<String>, leaf: Seq<char>) -> Seq<u8> {
    if chain.len() == 0 {
        vstd::utf8::encode_utf8(leaf)
    } else {
        vstd::utf8::encode_utf8(chain[0]@)
    }
}

/// One step of a nested read: the bytes of the container member whose
/// path's final component equals the requested name.
pub open spec fn nested_member_lookup(data: Seq<u8>, nm_units: Seq<u16>) -> Option<Seq<u8>> {
    if !bnd4_paths_decodable(data) {
        None
    } else {
        match parse_bnd4(data) {
            Some(ms) => match first_match(ms, nm_units) {
                Some(k) => Some(member_bytes_spec(data, ms[k])),
                None => None,
            },
            None => None,
        }
    }
}

/// The buffer after resolving each name in turn against the current buffer
/// parsed as a nested container.
pub open spec fn resolve_chain(data: Seq<u8>, names: Seq<Seq<char>>) -> Option<Seq<u8>>
    decreases names.len(),
{
    if names.len() == 0 {
        Some(data)
    } else {
        match nested_member_lookup(data, utf16_units_of(names[0])) {
            Some(next) => resolve_chain(next, names.drop_first()),
            None => None,
        }
    }
}

/// Resolve one chain name: parse the buffer as a nested container and
/// extract the member whose path's final component equals the name.
fn resolve_one(data: &Vec<u8>, name: &str) -> (r: Result<Vec<u8>, ReadFileError>)
    ensures
        match r {
            Ok(next) => nested_member_lookup(data@, utf16_units_of(name@)) == Some(next@),
            Err(ReadFileError::Entry(_)) => false,
            Err(ReadFileError::Envelope(_)) => false,
            Err(ReadFileError::Container(_)) => nested_member_lookup(
                data@,
                utf16_units_of(name@),
            ) is None,
            Err(ReadFileError::MemberNotFound) => nested_member_lookup(
                data@,
                utf16_units_of(name@),
            ) is None,
        },
{
    let files = match parse_bnd4_files(data) {
        Ok(fs) => fs,
        Err(e) => {
            proof {
                match e {
                    Bnd4Error::BadHeader => {
                        assert(parse_bnd4(data@) is None);
                    },
                    Bnd4Error::Truncated => {
                        assert(parse_bnd4(data@) is None);
                    },
                    Bnd4Error::BadMemberPath => {
                        assert(!bnd4_paths_decodable(data@));
                    },
                }
            }
            return Err(ReadFileError::Container(e));
        },
    };
    let units = encode_utf16_units(name);
    match find_member(&files, &units) {
        Some(i) => {
            let f = &files[i];
            proof {
                assert(files.deep_view()[i as int] == files@[i as int]@);
                assert(parse_bnd4(data@) matches Some(ms) && ms[i as int] == f@);
                crate::bnd4::lemma_parse_members_props(
                    data@,
                    0,
                    crate::bnd4::bnd4_count(data@) as int,
                );
                assert(crate::bnd4::parse_member(data@, i as int) == Some(f@));
                lemma_member_in_bounds(data@, i as int, f@);
            }
            Ok(member_bytes(data, f))
        },
        None => Err(ReadFileError::MemberNotFound),
    }
}

/// A parsed member's bytes lie within the container.
proof fn lemma_member_in_bounds(s: Seq<u8>, i: int, m: Bnd4MemberSpec)
    requires
        crate::bnd4::parse_member(s, i) == Some(m),
    ensures
        m.data_offset + m.compressed_size <= s.len(),
{
}

} // verus!

