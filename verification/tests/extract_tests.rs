use aes::cipher::{Array, BlockCipherEncrypt, KeyInit};
use dvdbnd::extract::ExtractOutcome;
use dvdbnd::{ArchiveKeyProvider, ArchiveSource, DvdBnd, KeyError, Name};

const ARCHIVE_KEY: [u8; 16] = [7u8; 16];

fn aes_encrypt_in_place(key: &[u8; 16], data: &mut [u8]) {
    let cipher = aes::Aes128::new(&Array::from(*key));
    for chunk in data.chunks_mut(16) {
        if chunk.len() == 16 {
            let mut b: Array<u8, aes::cipher::consts::U16> = Array::try_from(&chunk[..]).unwrap();
            cipher.encrypt_block(&mut b);
            chunk.copy_from_slice(&b.0);
        }
    }
}

fn make_mmap(bytes: &[u8]) -> memmap2::Mmap {
    let mut m = memmap2::MmapOptions::new().len(bytes.len()).map_anon().unwrap();
    m.copy_from_slice(bytes);
    m.make_read_only().unwrap()
}

struct OneKey([u8; 16]);

impl ArchiveKeyProvider for OneKey {
    fn get_key(&self, _archive_name: &str) -> Result<[u8; 16], KeyError> {
        Ok(self.0)
    }
}

/// One archive holding the given unencrypted entries back to back.
fn vfs_with_entries(entries: &[(&str, &[u8])]) -> DvdBnd {
    let mut index: Vec<u8> = Vec::new();
    index.extend_from_slice(b"BHD5");
    index.extend_from_slice(&(entries.len() as u32).to_le_bytes());
    index.extend_from_slice(&[0u8; 8]);
    let mut data: Vec<u8> = Vec::new();
    for (path, bytes) in entries {
        index.extend_from_slice(&Name::from_path(path).0.to_le_bytes());
        index.extend_from_slice(&(bytes.len() as u32).to_le_bytes());
        index.extend_from_slice(&(bytes.len() as u32).to_le_bytes());
        index.extend_from_slice(&(data.len() as u64).to_le_bytes());
        index.extend_from_slice(&[0u8; 16]);
        index.extend_from_slice(&0u32.to_le_bytes());
        index.extend_from_slice(&[0u8; 4]);
        data.extend_from_slice(bytes);
    }
    aes_encrypt_in_place(&ARCHIVE_KEY, &mut index);
    let src = ArchiveSource { name: "data0".to_string(), index, data: make_mmap(&data) };
    DvdBnd::create(vec![src], &OneKey(ARCHIVE_KEY)).unwrap()
}

fn utf16z(s: &str) -> Vec<u8> {
    let mut v = Vec::new();
    for u in s.encode_utf16() {
        v.extend_from_slice(&u.to_le_bytes());
    }
    v.extend_from_slice(&[0, 0]);
    v
}

fn bnd4_wrap(members: &[(&str, &[u8])]) -> Vec<u8> {
    let count = members.len();
    let records_end = 0x40 + 0x24 * count;
    let mut names: Vec<Vec<u8>> = Vec::new();
    let mut name_offsets: Vec<usize> = Vec::new();
    let mut cursor = records_end;
    for (path, _) in members {
        let n = utf16z(path);
        name_offsets.push(cursor);
        cursor += n.len();
        names.push(n);
    }
    let mut data_offsets: Vec<usize> = Vec::new();
    for (_, bytes) in members {
        data_offsets.push(cursor);
        cursor += bytes.len();
    }
    let mut v = vec![0u8; records_end];
    v[0..4].copy_from_slice(b"BND4");
    v[0x0c..0x10].copy_from_slice(&(count as u32).to_le_bytes());
    for (i, (_, bytes)) in members.iter().enumerate() {
        let off = 0x40 + 0x24 * i;
        v[off + 4..off + 12].copy_from_slice(&(bytes.len() as u64).to_le_bytes());
        v[off + 0xc..off + 0x14].copy_from_slice(&(data_offsets[i] as u64).to_le_bytes());
        v[off + 0x18..off + 0x1c].copy_from_slice(&(name_offsets[i] as u32).to_le_bytes());
    }
    for n in &names {
        v.extend_from_slice(n);
    }
    for (_, bytes) in members {
        v.extend_from_slice(bytes);
    }
    v
}

fn dcx_wrap(payload_plain: &[u8]) -> Vec<u8> {
    let body = miniz_oxide::deflate::compress_to_vec_zlib(payload_plain, 6);
    let mut v = vec![0u8; 0x4c];
    v[0x00..0x04].copy_from_slice(b"DCX\0");
    v[0x18..0x1c].copy_from_slice(b"DCS\0");
    v[0x1c..0x20].copy_from_slice(&(payload_plain.len() as u32).to_be_bytes());
    v[0x20..0x24].copy_from_slice(&(body.len() as u32).to_be_bytes());
    v[0x24..0x28].copy_from_slice(b"DCP\0");
    v[0x28..0x2c].copy_from_slice(b"DFLT");
    v[0x44..0x48].copy_from_slice(b"DCA\0");
    v.extend_from_slice(&body);
    v
}

#[test]
fn dictionary_skips_blank_and_comment_lines() {
    let text = "/map/m10.bin\n\n# a comment\n/chr/c3000.bin\r\n/obj/o100.bin";
    let lines = DvdBnd::dictionary(text);
    assert_eq!(
        lines,
        vec![
            "/map/m10.bin".to_string(),
            "/chr/c3000.bin".to_string(),
            "/obj/o100.bin".to_string()
        ]
    );
}

#[test]
fn dictionary_keeps_bare_carriage_returns() {
    let lines = DvdBnd::dictionary("a\rb\nc");
    assert_eq!(lines, vec!["a\rb".to_string(), "c".to_string()]);
    assert_eq!(DvdBnd::dictionary(""), Vec::<String>::new());
}

#[test]
fn extraction_writes_hits_and_skips_misses_silently() {
    let vfs = vfs_with_entries(&[("/a/one.bin", b"1111"), ("/b/two.bin", b"2222")]);
    let dict = vec![
        "/a/one.bin".to_string(),
        "/missing/x".to_string(),
        "/b/two.bin".to_string(),
        "/missing/y".to_string(),
        "/missing/z".to_string(),
    ];
    let outs = vfs.extract_entries(&dict, None, false).unwrap();
    assert_eq!(outs.len(), 5);
    let total: usize = outs.iter().map(|o| o.file_count()).sum();
    assert_eq!(total, 2);
    match &outs[0] {
        ExtractOutcome::Single { relative_path, bytes } => {
            assert_eq!(relative_path, "a/one.bin");
            assert_eq!(bytes, &b"1111".to_vec());
        }
        _ => panic!("expected a single file"),
    }
    assert!(matches!(outs[1], ExtractOutcome::Skipped));
    assert!(matches!(outs[3], ExtractOutcome::Skipped));
}

#[test]
fn extraction_filter_narrows_the_candidates() {
    let vfs = vfs_with_entries(&[("/a/one.bin", b"1111"), ("/b/two.bin", b"2222")]);
    let dict = vec!["/a/one.bin".to_string(), "/b/two.bin".to_string()];
    let filter = "two".to_string();
    let outs = vfs.extract_entries(&dict, Some(&filter), false).unwrap();
    assert_eq!(outs.len(), 1);
    match &outs[0] {
        ExtractOutcome::Single { relative_path, .. } => {
            assert_eq!(relative_path, "b/two.bin");
        }
        _ => panic!("expected a single file"),
    }
}

#[test]
fn extraction_decompresses_enveloped_entries() {
    let payload = b"enveloped payload".to_vec();
    let stored = dcx_wrap(&payload);
    let vfs = vfs_with_entries(&[("/a/file.dcx", &stored)]);
    let outs = vfs.extract_entries(&vec!["/a/file.dcx".to_string()], None, false).unwrap();
    match &outs[0] {
        ExtractOutcome::Single { bytes, .. } => assert_eq!(bytes, &payload),
        _ => panic!("expected a single file"),
    }
}

#[test]
fn recursive_extraction_unwraps_nested_archives() {
    let bnd = bnd4_wrap(&[
        ("N:\\proj\\data\\first.tae", b"first bytes"),
        ("N:\\proj\\data\\second.tae", b"second bytes"),
        ("third.tae", b"third bytes"),
    ]);
    let stored = dcx_wrap(&bnd);
    let vfs = vfs_with_entries(&[("/obj/o100.objbnd.dcx", &stored)]);
    let dict = vec!["/obj/o100.objbnd.dcx".to_string()];
    let outs = vfs.extract_entries(&dict, None, true).unwrap();
    assert_eq!(outs.len(), 1);
    match &outs[0] {
        ExtractOutcome::Archive { directory, members } => {
            assert_eq!(directory, "obj/o100");
            assert_eq!(members.len(), 3);
            assert_eq!(members[0].0, "first.tae");
            assert_eq!(members[0].1, b"first bytes".to_vec());
            assert_eq!(members[1].0, "second.tae");
            assert_eq!(members[2].0, "third.tae");
            assert_eq!(members[2].1, b"third bytes".to_vec());
        }
        _ => panic!("expected an unwrapped archive"),
    }
    let total: usize = outs.iter().map(|o| o.file_count()).sum();
    assert_eq!(total, 3);
}

#[test]
fn non_recursive_extraction_keeps_nested_archives_whole() {
    let bnd = bnd4_wrap(&[("a\\m.tae", b"m")]);
    let stored = dcx_wrap(&bnd);
    let vfs = vfs_with_entries(&[("/obj/o100.objbnd.dcx", &stored)]);
    let dict = vec!["/obj/o100.objbnd.dcx".to_string()];
    let outs = vfs.extract_entries(&dict, None, false).unwrap();
    match &outs[0] {
        ExtractOutcome::Single { relative_path, bytes } => {
            assert_eq!(relative_path, "obj/o100.objbnd.dcx");
            assert_eq!(bytes, &bnd);
        }
        _ => panic!("expected a single file"),
    }
}

#[test]
fn extraction_aborts_on_a_corrupt_candidate() {
    // an entry whose declared range exceeds its padded size
    let mut index: Vec<u8> = Vec::new();
    index.extend_from_slice(b"BHD5");
    index.extend_from_slice(&1u32.to_le_bytes());
    index.extend_from_slice(&[0u8; 8]);
    index.extend_from_slice(&Name::from_path("/bad").0.to_le_bytes());
    index.extend_from_slice(&16u32.to_le_bytes());
    index.extend_from_slice(&16u32.to_le_bytes());
    index.extend_from_slice(&0u64.to_le_bytes());
    index.extend_from_slice(&[0u8; 16]);
    index.extend_from_slice(&1u32.to_le_bytes());
    index.extend_from_slice(&[0u8; 4]);
    index.extend_from_slice(&0u64.to_le_bytes());
    index.extend_from_slice(&64u64.to_le_bytes());
    aes_encrypt_in_place(&ARCHIVE_KEY, &mut index);
    let src = ArchiveSource { name: "data0".to_string(), index, data: make_mmap(&[0u8; 16]) };
    let vfs = DvdBnd::create(vec![src], &OneKey(ARCHIVE_KEY)).unwrap();
    let dict = vec!["/bad".to_string()];
    assert!(vfs.extract_entries(&dict, None, false).is_err());
}
