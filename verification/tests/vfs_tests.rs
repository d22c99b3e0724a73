use aes::cipher::{Array, BlockCipherEncrypt, KeyInit};
use dvdbnd::{
    ArchiveKeyProvider, ArchiveSource, CreateError, DvdBnd, DvdBndEntryError, KeyError, Name,
    TocError,
};

struct EntryFixture {
    hash: u64,
    size: u32,
    padded: u32,
    offset: u64,
    key: [u8; 16],
    ranges: Vec<(u64, u64)>,
}

fn build_plain_index(entries: &[EntryFixture]) -> Vec<u8> {
    let mut v: Vec<u8> = Vec::new();
    v.extend_from_slice(b"BHD5");
    v.extend_from_slice(&(entries.len() as u32).to_le_bytes());
    v.extend_from_slice(&[0u8; 8]);
    for e in entries {
        v.extend_from_slice(&e.hash.to_le_bytes());
        v.extend_from_slice(&e.size.to_le_bytes());
        v.extend_from_slice(&e.padded.to_le_bytes());
        v.extend_from_slice(&e.offset.to_le_bytes());
        v.extend_from_slice(&e.key);
        v.extend_from_slice(&(e.ranges.len() as u32).to_le_bytes());
        v.extend_from_slice(&[0u8; 4]);
        for (a, b) in &e.ranges {
            v.extend_from_slice(&a.to_le_bytes());
            v.extend_from_slice(&b.to_le_bytes());
        }
    }
    v
}

fn aes_encrypt_in_place(key: &[u8; 16], data: &mut [u8]) {
    let cipher = aes::Aes128::new(&Array::from(*key));
    for chunk in data.chunks_mut(16) {
        if chunk.len() == 16 {
            let mut b: Array<u8, aes::cipher::consts::U16> = Array::try_from(&chunk[..]).unwrap();
            cipher.encrypt_block(&mut b);
            chunk.copy_from_slice(&b.0);
        }
    }
}

fn encrypted_index(archive_key: &[u8; 16], entries: &[EntryFixture]) -> Vec<u8> {
    let mut v = build_plain_index(entries);
    assert_eq!(v.len() % 16, 0);
    aes_encrypt_in_place(archive_key, &mut v);
    v
}

fn make_mmap(bytes: &[u8]) -> memmap2::Mmap {
    let len = if bytes.is_empty() { 1 } else { bytes.len() };
    let mut m = memmap2::MmapOptions::new().len(len).map_anon().unwrap();
    m[..bytes.len()].copy_from_slice(bytes);
    m.make_read_only().unwrap()
}

fn source(name: &str, index: Vec<u8>, data: &[u8]) -> ArchiveSource {
    ArchiveSource { name: name.to_string(), index, data: make_mmap(data) }
}

struct OneKey([u8; 16]);

impl ArchiveKeyProvider for OneKey {
    fn get_key(&self, _archive_name: &str) -> Result<[u8; 16], KeyError> {
        Ok(self.0)
    }
}

struct NoKeys;

impl ArchiveKeyProvider for NoKeys {
    fn get_key(&self, _archive_name: &str) -> Result<[u8; 16], KeyError> {
        Err(KeyError::Missing)
    }
}

const ARCHIVE_KEY: [u8; 16] = [7u8; 16];
const ENTRY_KEY: [u8; 16] = [3u8; 16];

#[test]
fn name_hash_is_the_rolling_fold() {
    // canonical form of "A" is "/a": h = ('/' * 0x85) + 'a'
    let expected = (0x2fu64).wrapping_mul(0x85).wrapping_add(0x61);
    assert_eq!(Name::from_path("A").0, expected);
    assert_eq!(Name::from_path("a").0, expected);
    assert_eq!(Name::from_path("/a").0, expected);
    assert_eq!(Name::from_path("\\a").0, expected);
}

#[test]
fn name_hash_folds_case_and_separators() {
    assert_eq!(Name::from_path("/Map\\M10.bin"), Name::from_path("/map/m10.bin"));
    assert_ne!(Name::from_path("/map/m10.bin"), Name::from_path("/map/m11.bin"));
}

#[test]
fn round_trip_decrypts_declared_ranges_only() {
    // 48 bytes of reference plaintext; blocks 0 and 2 are stored encrypted,
    // block 1 is stored as-is.
    let mut plaintext = Vec::new();
    for i in 0..48u8 {
        plaintext.push(i.wrapping_mul(11).wrapping_add(5));
    }
    let mut stored = plaintext.clone();
    aes_encrypt_in_place(&ENTRY_KEY, &mut stored[0..16]);
    aes_encrypt_in_place(&ENTRY_KEY, &mut stored[32..48]);
    assert_ne!(stored, plaintext);

    let mut data = vec![0xEEu8; 8];
    data.extend_from_slice(&stored);
    let entry = EntryFixture {
        hash: Name::from_path("/test/file.bin").0,
        size: 48,
        padded: 48,
        offset: 8,
        key: ENTRY_KEY,
        ranges: vec![(0, 16), (32, 48)],
    };
    let index = encrypted_index(&ARCHIVE_KEY, &[entry]);
    let vfs =
        DvdBnd::create(vec![source("data0", index, &data)], &OneKey(ARCHIVE_KEY)).unwrap();
    let reader = vfs.open("/test/file.bin").unwrap();
    assert_eq!(reader.to_vec(), plaintext);
}

#[test]
fn unused_and_empty_range_slots_are_ignored() {
    let plaintext = vec![0xABu8; 32];
    let entry = EntryFixture {
        hash: Name::from_path("/plain").0,
        size: 32,
        padded: 32,
        offset: 0,
        key: ENTRY_KEY,
        ranges: vec![(u64::MAX, u64::MAX), (4, 4)],
    };
    let index = encrypted_index(&ARCHIVE_KEY, &[entry]);
    let vfs =
        DvdBnd::create(vec![source("data0", index, &plaintext)], &OneKey(ARCHIVE_KEY)).unwrap();
    // both slots are dropped at load: nothing is decrypted
    assert_eq!(vfs.open("/plain").unwrap().to_vec(), plaintext);
}

#[test]
fn open_unknown_hash_is_not_found() {
    let entry = EntryFixture {
        hash: Name::from_path("/known").0,
        size: 4,
        padded: 16,
        offset: 0,
        key: ENTRY_KEY,
        ranges: vec![],
    };
    let index = encrypted_index(&ARCHIVE_KEY, &[entry]);
    let vfs =
        DvdBnd::create(vec![source("data0", index, &[9u8; 16])], &OneKey(ARCHIVE_KEY)).unwrap();
    match vfs.open("/not/in/any/archive") {
        Err(DvdBndEntryError::NotFound) => {}
        other => panic!("expected NotFound, got {:?}", other.map(|r| r.len())),
    }
}

#[test]
fn range_beyond_padding_is_corrupt_entry() {
    let entry = EntryFixture {
        hash: Name::from_path("/bad").0,
        size: 32,
        padded: 32,
        offset: 0,
        key: ENTRY_KEY,
        ranges: vec![(0, 64)],
    };
    let index = encrypted_index(&ARCHIVE_KEY, &[entry]);
    let vfs =
        DvdBnd::create(vec![source("data0", index, &[1u8; 32])], &OneKey(ARCHIVE_KEY)).unwrap();
    match vfs.open("/bad") {
        Err(DvdBndEntryError::CorruptEntry) => {}
        other => panic!("expected CorruptEntry, got {:?}", other.map(|r| r.len())),
    }
}

#[test]
fn region_beyond_archive_is_unable_to_map() {
    let entry = EntryFixture {
        hash: Name::from_path("/oob").0,
        size: 64,
        padded: 64,
        offset: 32,
        key: ENTRY_KEY,
        ranges: vec![],
    };
    let index = encrypted_index(&ARCHIVE_KEY, &[entry]);
    let vfs =
        DvdBnd::create(vec![source("data0", index, &[1u8; 48])], &OneKey(ARCHIVE_KEY)).unwrap();
    match vfs.open("/oob") {
        Err(DvdBndEntryError::UnableToMap) => {}
        other => panic!("expected UnableToMap, got {:?}", other.map(|r| r.len())),
    }
}

#[test]
fn colliding_hash_takes_the_archive_loaded_last() {
    let path = "/shared/name.bin";
    let first = EntryFixture {
        hash: Name::from_path(path).0,
        size: 16,
        padded: 16,
        offset: 0,
        key: ENTRY_KEY,
        ranges: vec![],
    };
    let second = EntryFixture {
        hash: Name::from_path(path).0,
        size: 16,
        padded: 16,
        offset: 0,
        key: ENTRY_KEY,
        ranges: vec![],
    };
    let index_a = encrypted_index(&ARCHIVE_KEY, &[first]);
    let index_b = encrypted_index(&ARCHIVE_KEY, &[second]);
    let payload_a = [0x41u8; 16];
    let payload_b = [0x42u8; 16];
    let vfs = DvdBnd::create(
        vec![source("data0", index_a, &payload_a), source("data1", index_b, &payload_b)],
        &OneKey(ARCHIVE_KEY),
    )
    .unwrap();
    assert_eq!(vfs.open(path).unwrap().to_vec(), payload_b.to_vec());
}

#[test]
fn effective_size_zero_uses_padded_size() {
    let entry = EntryFixture {
        hash: Name::from_path("/padded").0,
        size: 0,
        padded: 48,
        offset: 0,
        key: ENTRY_KEY,
        ranges: vec![],
    };
    let index = encrypted_index(&ARCHIVE_KEY, &[entry]);
    let vfs =
        DvdBnd::create(vec![source("data0", index, &[5u8; 48])], &OneKey(ARCHIVE_KEY)).unwrap();
    let reader = vfs.open("/padded").unwrap();
    assert_eq!(reader.len(), 48);
}

#[test]
fn effective_size_nonzero_bounds_the_reader() {
    let mut data = Vec::new();
    for i in 0..48u8 {
        data.push(i);
    }
    let entry = EntryFixture {
        hash: Name::from_path("/sized").0,
        size: 20,
        padded: 48,
        offset: 0,
        key: ENTRY_KEY,
        ranges: vec![],
    };
    let index = encrypted_index(&ARCHIVE_KEY, &[entry]);
    let vfs =
        DvdBnd::create(vec![source("data0", index, &data)], &OneKey(ARCHIVE_KEY)).unwrap();
    let reader = vfs.open("/sized").unwrap();
    assert_eq!(reader.len(), 20);
    assert_eq!(reader.to_vec(), data[..20].to_vec());
    assert_eq!(reader.data(), &data[..20]);
}

#[test]
fn declared_size_beyond_stored_data_is_clamped() {
    let entry = EntryFixture {
        hash: Name::from_path("/overdeclared").0,
        size: 100,
        padded: 48,
        offset: 0,
        key: ENTRY_KEY,
        ranges: vec![],
    };
    let index = encrypted_index(&ARCHIVE_KEY, &[entry]);
    let vfs =
        DvdBnd::create(vec![source("data0", index, &[5u8; 48])], &OneKey(ARCHIVE_KEY)).unwrap();
    let reader = vfs.open("/overdeclared").unwrap();
    assert_eq!(reader.len(), 48);
}

#[test]
fn misaligned_index_fails_construction() {
    let index = vec![0u8; 20];
    match DvdBnd::create(vec![source("data0", index, &[0u8; 16])], &OneKey(ARCHIVE_KEY)) {
        Err(CreateError::Index(TocError::MisalignedIndex)) => {}
        _ => panic!("expected a misaligned-index failure"),
    }
}

#[test]
fn wrong_key_fails_index_validation() {
    let entry = EntryFixture {
        hash: 1,
        size: 16,
        padded: 16,
        offset: 0,
        key: ENTRY_KEY,
        ranges: vec![],
    };
    let index = encrypted_index(&ARCHIVE_KEY, &[entry]);
    match DvdBnd::create(vec![source("data0", index, &[0u8; 16])], &OneKey([9u8; 16])) {
        Err(CreateError::Index(TocError::CorruptIndex)) => {}
        _ => panic!("expected a corrupt-index failure"),
    }
}

#[test]
fn missing_key_fails_construction() {
    let index = encrypted_index(&ARCHIVE_KEY, &[]);
    match DvdBnd::create(vec![source("data0", index, &[0u8; 16])], &NoKeys) {
        Err(CreateError::Key(KeyError::Missing)) => {}
        _ => panic!("expected a missing-key failure"),
    }
}

struct BadKeys;

impl ArchiveKeyProvider for BadKeys {
    fn get_key(&self, _archive_name: &str) -> Result<[u8; 16], KeyError> {
        Err(KeyError::Malformed)
    }
}

#[test]
fn malformed_key_fails_construction() {
    let index = encrypted_index(&ARCHIVE_KEY, &[]);
    match DvdBnd::create(vec![source("data0", index, &[0u8; 16])], &BadKeys) {
        Err(CreateError::Key(KeyError::Malformed)) => {}
        _ => panic!("expected a malformed-key failure"),
    }
}

#[test]
fn construction_is_fail_fast_across_archives() {
    let good = encrypted_index(&ARCHIVE_KEY, &[]);
    let bad = vec![0u8; 32];
    match DvdBnd::create(
        vec![source("data0", good, &[0u8; 16]), source("data1", bad, &[0u8; 16])],
        &OneKey(ARCHIVE_KEY),
    ) {
        Err(CreateError::Index(TocError::CorruptIndex)) => {}
        _ => panic!("expected the second archive to abort construction"),
    }
}
