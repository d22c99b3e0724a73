use aes::cipher::{Array, BlockCipherEncrypt, KeyInit};
use dvdbnd::dcx::{read_dcx, DcxCompression};
use dvdbnd::{ArchiveKeyProvider, ArchiveSource, DvdBnd, KeyError, Name, ReadFileError};

const ARCHIVE_KEY: [u8; 16] = [7u8; 16];

fn aes_encrypt_in_place(key: &[u8; 16], data: &mut [u8]) {
    let cipher = aes::Aes128::new(&Array::from(*key));
    for chunk in data.chunks_mut(16) {
        if chunk.len() == 16 {
            let mut b: Array<u8, aes::cipher::consts::U16> = Array::try_from(&chunk[..]).unwrap();
            cipher.encrypt_block(&mut b);
            chunk.copy_from_slice(&b.0);
        }
    }
}

fn index_for(path: &str, padded: u32) -> Vec<u8> {
    let mut v: Vec<u8> = Vec::new();
    v.extend_from_slice(b"BHD5");
    v.extend_from_slice(&1u32.to_le_bytes());
    v.extend_from_slice(&[0u8; 8]);
    v.extend_from_slice(&Name::from_path(path).0.to_le_bytes());
    v.extend_from_slice(&0u32.to_le_bytes()); // size sentinel: use padded
    v.extend_from_slice(&padded.to_le_bytes());
    v.extend_from_slice(&0u64.to_le_bytes()); // offset
    v.extend_from_slice(&[0u8; 16]); // entry key (nothing encrypted)
    v.extend_from_slice(&0u32.to_le_bytes()); // no ranges
    v.extend_from_slice(&[0u8; 4]);
    aes_encrypt_in_place(&ARCHIVE_KEY, &mut v);
    v
}

fn make_mmap(bytes: &[u8]) -> memmap2::Mmap {
    let mut m = memmap2::MmapOptions::new().len(bytes.len()).map_anon().unwrap();
    m.copy_from_slice(bytes);
    m.make_read_only().unwrap()
}

struct OneKey([u8; 16]);

impl ArchiveKeyProvider for OneKey {
    fn get_key(&self, _archive_name: &str) -> Result<[u8; 16], KeyError> {
        Ok(self.0)
    }
}

fn vfs_with_entry(path: &str, data: &[u8]) -> DvdBnd {
    let index = index_for(path, data.len() as u32);
    let src = ArchiveSource {
        name: "data0".to_string(),
        index,
        data: make_mmap(data),
    };
    DvdBnd::create(vec![src], &OneKey(ARCHIVE_KEY)).unwrap()
}

fn dcx_wrap(payload_plain: &[u8], deflate: bool) -> Vec<u8> {
    let body: Vec<u8> = if deflate {
        miniz_oxide::deflate::compress_to_vec_zlib(payload_plain, 6)
    } else {
        payload_plain.to_vec()
    };
    let mut v = vec![0u8; 0x4c];
    v[0x00..0x04].copy_from_slice(b"DCX\0");
    v[0x18..0x1c].copy_from_slice(b"DCS\0");
    v[0x1c..0x20].copy_from_slice(&(payload_plain.len() as u32).to_be_bytes());
    v[0x20..0x24].copy_from_slice(&(body.len() as u32).to_be_bytes());
    v[0x24..0x28].copy_from_slice(b"DCP\0");
    v[0x28..0x2c].copy_from_slice(if deflate { b"DFLT" } else { b"NONE" });
    v[0x44..0x48].copy_from_slice(b"DCA\0");
    v.extend_from_slice(&body);
    v
}

fn utf16z(s: &str) -> Vec<u8> {
    let mut v = Vec::new();
    for u in s.encode_utf16() {
        v.extend_from_slice(&u.to_le_bytes());
    }
    v.extend_from_slice(&[0, 0]);
    v
}

/// Build a container whose members carry the given paths and bytes.
fn bnd4_wrap(members: &[(&str, &[u8])]) -> Vec<u8> {
    let count = members.len();
    let records_end = 0x40 + 0x24 * count;
    let mut names: Vec<Vec<u8>> = Vec::new();
    let mut name_offsets: Vec<usize> = Vec::new();
    let mut cursor = records_end;
    for (path, _) in members {
        let n = utf16z(path);
        name_offsets.push(cursor);
        cursor += n.len();
        names.push(n);
    }
    let mut data_offsets: Vec<usize> = Vec::new();
    for (_, bytes) in members {
        data_offsets.push(cursor);
        cursor += bytes.len();
    }
    let mut v = vec![0u8; records_end];
    v[0..4].copy_from_slice(b"BND4");
    v[0x0c..0x10].copy_from_slice(&(count as u32).to_le_bytes());
    for (i, (_, bytes)) in members.iter().enumerate() {
        let off = 0x40 + 0x24 * i;
        v[off + 4..off + 12].copy_from_slice(&(bytes.len() as u64).to_le_bytes());
        v[off + 0xc..off + 0x14].copy_from_slice(&(data_offsets[i] as u64).to_le_bytes());
        v[off + 0x18..off + 0x1c].copy_from_slice(&(name_offsets[i] as u32).to_le_bytes());
    }
    for n in &names {
        v.extend_from_slice(n);
    }
    for (_, bytes) in members {
        v.extend_from_slice(bytes);
    }
    v
}

#[test]
fn read_dcx_deflate_round_trip() {
    let payload = b"the quick brown fox jumps over the lazy dog".to_vec();
    let wrapped = dcx_wrap(&payload, true);
    let (d, out) = read_dcx(&wrapped).unwrap();
    assert_eq!(d, DcxCompression::Deflate);
    assert_eq!(out, payload);
    assert_eq!(d.describe(), "DFLT");
}

#[test]
fn read_dcx_stored_round_trip() {
    let payload = b"stored bytes".to_vec();
    let wrapped = dcx_wrap(&payload, false);
    let (d, out) = read_dcx(&wrapped).unwrap();
    assert_eq!(d, DcxCompression::Stored);
    assert_eq!(out, payload);
    assert_eq!(d.describe(), "NONE");
}

#[test]
fn read_dcx_rejects_garbage() {
    assert!(read_dcx(&vec![0u8; 10]).is_err());
    let mut wrapped = dcx_wrap(b"abc", true);
    // declare a wrong decompressed length
    wrapped[0x1c..0x20].copy_from_slice(&999u32.to_be_bytes());
    assert!(read_dcx(&wrapped).is_err());
}

#[test]
fn read_file_empty_chain_equals_open_then_decompress() {
    let payload = b"payload payload payload".to_vec();
    let entry_bytes = dcx_wrap(&payload, true);
    let vfs = vfs_with_entry("/asset.bin.dcx", &entry_bytes);

    let (descriptor, bytes) = vfs.read_file(&vec![], "/asset.bin.dcx").unwrap();
    assert_eq!(descriptor, "DFLT");
    assert_eq!(bytes, payload);

    // identical to opening the entry and removing the envelope by hand
    let opened = vfs.open("/asset.bin.dcx").unwrap().to_vec();
    let (_, by_hand) = read_dcx(&opened).unwrap();
    assert_eq!(bytes, by_hand);
}

#[test]
fn read_file_two_level_chain_returns_leaf_bytes() {
    let leaf: &[u8] = b"leaf member bytes";
    let inner_a = bnd4_wrap(&[("dir\\other.txt", b"zzz"), ("deep\\dir\\leaf.txt", leaf)]);
    let inner_b = bnd4_wrap(&[("deep\\dir\\leaf.txt", leaf), ("dir\\other.txt", b"zzz")]);

    for inner in [inner_a, inner_b] {
        let outer = bnd4_wrap(&[("sub\\inner.bnd", &inner)]);
        let entry_bytes = dcx_wrap(&outer, true);
        let vfs = vfs_with_entry("/pack.bnd.dcx", &entry_bytes);
        let chain = vec!["/pack.bnd.dcx".to_string(), "inner.bnd".to_string()];
        let (descriptor, bytes) = vfs.read_file(&chain, "leaf.txt").unwrap();
        assert_eq!(descriptor, "DFLT");
        assert_eq!(bytes, leaf.to_vec());
    }
}

#[test]
fn read_file_member_names_may_be_wide_text() {
    let inner = bnd4_wrap(&[("dir\\naïve–name.txt", b"wide")]);
    let entry_bytes = dcx_wrap(&inner, true);
    let vfs = vfs_with_entry("/pack.bnd.dcx", &entry_bytes);
    let chain = vec!["/pack.bnd.dcx".to_string()];
    let (_, bytes) = vfs.read_file(&chain, "naïve–name.txt").unwrap();
    assert_eq!(bytes, b"wide".to_vec());
}

#[test]
fn read_file_missing_member_is_member_not_found() {
    let inner = bnd4_wrap(&[("dir\\present.txt", b"x")]);
    let entry_bytes = dcx_wrap(&inner, true);
    let vfs = vfs_with_entry("/pack.bnd.dcx", &entry_bytes);
    let chain = vec!["/pack.bnd.dcx".to_string()];
    match vfs.read_file(&chain, "absent.txt") {
        Err(ReadFileError::MemberNotFound) => {}
        _ => panic!("expected a member-not-found failure"),
    }
}

#[test]
fn read_file_member_match_ignores_directories_and_case_matters() {
    let inner = bnd4_wrap(&[("a\\b\\NAME.txt", b"upper"), ("c/d/name.txt", b"lower")]);
    let entry_bytes = dcx_wrap(&inner, true);
    let vfs = vfs_with_entry("/pack.bnd.dcx", &entry_bytes);
    let chain = vec!["/pack.bnd.dcx".to_string()];
    let (_, upper) = vfs.read_file(&chain, "NAME.txt").unwrap();
    let (_, lower) = vfs.read_file(&chain, "name.txt").unwrap();
    assert_eq!(upper, b"upper".to_vec());
    assert_eq!(lower, b"lower".to_vec());
}

#[test]
fn read_dcx_rejects_an_unknown_algorithm() {
    let mut wrapped = dcx_wrap(b"abc", false);
    wrapped[0x28..0x2c].copy_from_slice(b"KRAK");
    match read_dcx(&wrapped) {
        Err(dvdbnd::DcxError::UnsupportedFormat) => {}
        _ => panic!("expected an unsupported-format failure"),
    }
}

#[test]
fn bnd4_member_data_outside_the_container_is_truncated() {
    let mut inner = bnd4_wrap(&[("a\\x.txt", b"x")]);
    // push the member's declared size past the container's end
    let off = 0x40;
    inner[off + 4..off + 12].copy_from_slice(&(100_000u64).to_le_bytes());
    match dvdbnd::bnd4::parse_bnd4_files(&inner) {
        Err(dvdbnd::Bnd4Error::Truncated) => {}
        _ => panic!("expected a truncated-container failure"),
    }
}

#[test]
fn bnd4_undecodable_member_path_is_rejected() {
    let mut inner = bnd4_wrap(&[("a\\x.txt", b"x")]);
    // overwrite the path's first unit with a lone high surrogate
    let name_off = 0x40 + 0x24;
    inner[name_off..name_off + 2].copy_from_slice(&0xd800u16.to_le_bytes());
    match dvdbnd::bnd4::parse_bnd4_files(&inner) {
        Err(dvdbnd::Bnd4Error::BadMemberPath) => {}
        _ => panic!("expected a bad-member-path failure"),
    }
}

#[test]
fn read_file_missing_entry_is_entry_error() {
    let vfs = vfs_with_entry("/present", b"0123456789abcdef");
    match vfs.read_file(&vec![], "/absent") {
        Err(ReadFileError::Entry(dvdbnd::DvdBndEntryError::NotFound)) => {}
        _ => panic!("expected the entry lookup to fail"),
    }
}

#[test]
fn read_file_bad_envelope_is_envelope_error() {
    let vfs = vfs_with_entry("/raw", b"not an envelope!");
    match vfs.read_file(&vec![], "/raw") {
        Err(ReadFileError::Envelope(_)) => {}
        _ => panic!("expected an envelope failure"),
    }
}

#[test]
fn read_file_non_container_buffer_is_container_error() {
    let entry_bytes = dcx_wrap(b"this is not a container", true);
    let vfs = vfs_with_entry("/pack.bnd.dcx", &entry_bytes);
    let chain = vec!["/pack.bnd.dcx".to_string()];
    match vfs.read_file(&chain, "member.txt") {
        Err(ReadFileError::Container(_)) => {}
        _ => panic!("expected a container failure"),
    }
}
