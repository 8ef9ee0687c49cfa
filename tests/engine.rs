use fdsum::algo::{digest_bytes, Blake3Wrapper, Digester, Hasher, Sha256Hasher};
use fdsum::artifact::{centis_from_nanos, digest_matches, HashResultJson};
use fdsum::config::{Config, HashAlgorithm};
use fdsum::hash::{
    encode_meta, finish_entry, hash_dir, hash_meta, next_step, EntryKind, EntryMeta, Fetched,
    HashError, Step,
};
use fdsum::names::{name_le, sort_names};
use fdsum::stats::{SharedStats, StatsSnapshot};
use std::sync::Arc;
use std::time::Duration;

fn policy(algorithm: HashAlgorithm, threads: usize) -> Config {
    Config {
        path: Some(b"root".to_vec()),
        verbose: false,
        algorithm,
        block_size: 4096,
        threads,
        verify: None,
        include_file_content: true,
        include_size: true,
        include_mode: true,
        include_uid: false,
        include_gid: false,
        include_ctime: false,
        include_mtime: false,
        include_atime: false,
        stats: Arc::new(SharedStats::new()),
    }
}

fn meta(kind: EntryKind, mode: u32, size: u64) -> EntryMeta {
    EntryMeta {
        kind,
        mode,
        size,
        uid: 1000,
        gid: 100,
        ctime: 1_700_000_000,
        mtime: 1_700_000_001,
        atime: 1_700_000_002,
        rdev: 0,
    }
}

fn hex(b: &[u8]) -> String {
    b.iter().map(|x| format!("{:02x}", x)).collect()
}

fn file_digest(c: &Config, m: &EntryMeta, content: &[u8]) -> [u8; 32] {
    let step = next_step(c, m.kind);
    let fetched = if step == Step::HashContent {
        Fetched::Content(digest_bytes(c.algorithm, content))
    } else {
        Fetched::Nothing
    };
    finish_entry(c, m, fetched).unwrap()
}

/// Digest of a directory whose children are (name, content) files.
fn tree_digest(c: &Config, dir: &EntryMeta, files: &[(&str, &str)]) -> [u8; 32] {
    let names: Vec<Vec<u8>> = files.iter().map(|(n, _)| n.as_bytes().to_vec()).collect();
    let sorted = sort_names(names);
    let mut digests = Vec::new();
    for n in &sorted {
        let (_, content) = files.iter().find(|(name, _)| name.as_bytes() == n.as_slice()).unwrap();
        let m = meta(EntryKind::File, 0o100644, content.len() as u64);
        digests.push(file_digest(c, &m, content.as_bytes()));
    }
    finish_entry(c, dir, Fetched::Children(digests)).unwrap()
}

#[test]
fn sha256_known_values() {
    assert_eq!(
        hex(&digest_bytes(HashAlgorithm::Sha256, b"")),
        "e3b0c44298fc1c149afbf4c8996fb92427ae41e4649b934ca495991b7852b855"
    );
    assert_eq!(
        hex(&digest_bytes(HashAlgorithm::Sha256, b"abc")),
        "ba7816bf8f01cfea414140de5dae2223b00361a396177a9cb410ff61f20015ad"
    );
}

#[test]
fn blake3_known_value() {
    assert_eq!(
        hex(&digest_bytes(HashAlgorithm::Blake3, b"")),
        "af1349b9f5f9a1a6a0404dea36dcc9499bcb25c9adc112b7cc9a93cae41f3262"
    );
}

#[test]
fn incremental_equals_one_shot() {
    let mut h = Sha256Hasher::new();
    h.update(b"ab");
    h.update(b"c");
    assert_eq!(h.finalize(), digest_bytes(HashAlgorithm::Sha256, b"abc"));
    let mut b = Blake3Wrapper::new();
    b.update(b"a");
    b.update(b"bc");
    assert_eq!(b.finalize(), digest_bytes(HashAlgorithm::Blake3, b"abc"));
    let mut d = Digester::new(HashAlgorithm::Blake3);
    d.update(b"abc");
    assert_eq!(d.finalize(), digest_bytes(HashAlgorithm::Blake3, b"abc"));
}

#[test]
fn config_hasher_uses_selected_algorithm() {
    let c = policy(HashAlgorithm::Sha256, 1);
    let mut h = c.hasher();
    h.update(b"abc");
    assert_eq!(h.finalize(), digest_bytes(HashAlgorithm::Sha256, b"abc"));
    let c = policy(HashAlgorithm::Blake3, 1);
    let mut h = c.hasher();
    h.update(b"abc");
    assert_eq!(h.finalize(), digest_bytes(HashAlgorithm::Blake3, b"abc"));
}

#[test]
fn meta_record_layout() {
    let mut c = policy(HashAlgorithm::Sha256, 1);
    c.include_uid = true;
    c.include_mtime = true;
    let m = EntryMeta {
        kind: EntryKind::File,
        mode: 0x0102_0304,
        size: 0x0506,
        uid: 7,
        gid: 9,
        ctime: 0,
        mtime: -2,
        atime: 0,
        rdev: 0,
    };
    let r = encode_meta(&c, &m);
    let mut expected = vec![4u8, 3, 2, 1, 6, 5, 0, 0, 0, 0, 0, 0, 7, 0, 0, 0];
    expected.extend_from_slice(&[0xfe, 0xff, 0xff, 0xff, 0xff, 0xff, 0xff, 0xff]);
    assert_eq!(r, expected);
    assert_eq!(hash_meta(&c, &m), digest_bytes(HashAlgorithm::Sha256, &expected));
}

#[test]
fn meta_record_all_fields_is_bounded() {
    let mut c = policy(HashAlgorithm::Sha256, 1);
    c.include_uid = true;
    c.include_gid = true;
    c.include_ctime = true;
    c.include_mtime = true;
    c.include_atime = true;
    let r = encode_meta(&c, &meta(EntryKind::File, 0o100644, 1));
    assert_eq!(r.len(), 44);
    c.include_mode = false;
    c.include_size = false;
    c.include_uid = false;
    c.include_gid = false;
    c.include_ctime = false;
    c.include_mtime = false;
    c.include_atime = false;
    assert!(encode_meta(&c, &meta(EntryKind::File, 0o100644, 1)).is_empty());
}

#[test]
fn size_recorded_only_for_files() {
    let c = policy(HashAlgorithm::Sha256, 1);
    let d1 = meta(EntryKind::Directory, 0o40755, 4096);
    let d2 = meta(EntryKind::Directory, 0o40755, 8192);
    assert_eq!(encode_meta(&c, &d1).len(), 4);
    assert_eq!(hash_meta(&c, &d1), hash_meta(&c, &d2));
    let f1 = meta(EntryKind::File, 0o100644, 1);
    let f2 = meta(EntryKind::File, 0o100644, 2);
    assert_eq!(encode_meta(&c, &f1).len(), 12);
    assert_ne!(hash_meta(&c, &f1), hash_meta(&c, &f2));
}

#[test]
fn steps_by_type() {
    let mut c = policy(HashAlgorithm::Sha256, 1);
    assert_eq!(next_step(&c, EntryKind::Directory), Step::HashChildren);
    assert_eq!(next_step(&c, EntryKind::File), Step::HashContent);
    assert_eq!(next_step(&c, EntryKind::Symlink), Step::ReadLink);
    assert_eq!(next_step(&c, EntryKind::BlockDevice), Step::Finish);
    assert_eq!(next_step(&c, EntryKind::Fifo), Step::Finish);
    assert_eq!(next_step(&c, EntryKind::Unknown), Step::Unsupported);
    c.include_file_content = false;
    assert_eq!(next_step(&c, EntryKind::File), Step::Finish);
}

#[test]
fn unknown_type_is_an_error() {
    let c = policy(HashAlgorithm::Sha256, 1);
    let m = meta(EntryKind::Unknown, 0, 0);
    assert_eq!(finish_entry(&c, &m, Fetched::Nothing), Err(HashError::UnsupportedType));
}

#[test]
fn entry_digest_composition() {
    let c = policy(HashAlgorithm::Sha256, 1);
    let m = meta(EntryKind::Symlink, 0o120777, 3);
    let md = hash_meta(&c, &m);
    let mut expected = md.to_vec();
    expected.extend_from_slice(b"a/b");
    let got = finish_entry(&c, &m, Fetched::LinkTarget(b"a/b".to_vec())).unwrap();
    assert_eq!(got, digest_bytes(HashAlgorithm::Sha256, &expected));

    let mut dev = meta(EntryKind::CharDevice, 0o20666, 0);
    dev.rdev = 0x0102;
    let mut expected = hash_meta(&c, &dev).to_vec();
    expected.extend_from_slice(&[2, 1, 0, 0, 0, 0, 0, 0]);
    let got = finish_entry(&c, &dev, Fetched::Nothing).unwrap();
    assert_eq!(got, digest_bytes(HashAlgorithm::Sha256, &expected));

    let fifo = meta(EntryKind::Fifo, 0o10644, 0);
    let got = finish_entry(&c, &fifo, Fetched::Nothing).unwrap();
    assert_eq!(got, digest_bytes(HashAlgorithm::Sha256, &hash_meta(&c, &fifo)));
}

#[test]
fn directory_digest_folds_children_in_order() {
    let c = policy(HashAlgorithm::Blake3, 1);
    let a = [1u8; 32];
    let b = [2u8; 32];
    let mut both = a.to_vec();
    both.extend_from_slice(&b);
    assert_eq!(hash_dir(&c, &vec![a, b]), digest_bytes(HashAlgorithm::Blake3, &both));
    assert_ne!(hash_dir(&c, &vec![a, b]), hash_dir(&c, &vec![b, a]));
    assert_eq!(hash_dir(&c, &vec![]), digest_bytes(HashAlgorithm::Blake3, b""));
}

#[test]
fn names_sort_bytewise() {
    let names = vec![b"b.txt".to_vec(), b"a.txt".to_vec(), b"B".to_vec(), b"a".to_vec()];
    let sorted = sort_names(names);
    assert_eq!(sorted, vec![b"B".to_vec(), b"a".to_vec(), b"a.txt".to_vec(), b"b.txt".to_vec()]);
    assert!(name_le(&b"a".to_vec(), &b"ab".to_vec()));
    assert!(!name_le(&b"b".to_vec(), &b"ab".to_vec()));
    assert!(sort_names(vec![]).is_empty());
}

#[test]
fn listing_order_does_not_matter() {
    let c = policy(HashAlgorithm::Sha256, 1);
    let dir = meta(EntryKind::Directory, 0o40755, 4096);
    let one = tree_digest(&c, &dir, &[("a.txt", "x"), ("b.txt", "y")]);
    let two = tree_digest(&c, &dir, &[("b.txt", "y"), ("a.txt", "x")]);
    assert_eq!(one, two);
}

#[test]
fn example_tree_scenario() {
    let c1 = policy(HashAlgorithm::Sha256, 1);
    let c8 = policy(HashAlgorithm::Sha256, 8);
    let dir = meta(EntryKind::Directory, 0o40755, 4096);
    let d1 = tree_digest(&c1, &dir, &[("a.txt", "x"), ("b.txt", "y")]);
    let again = tree_digest(&c1, &dir, &[("a.txt", "x"), ("b.txt", "y")]);
    let d8 = tree_digest(&c8, &dir, &[("a.txt", "x"), ("b.txt", "y")]);
    let swapped = tree_digest(&c1, &dir, &[("a.txt", "y"), ("b.txt", "x")]);
    assert_eq!(d1.len(), 32);
    assert_eq!(d1, again);
    assert_eq!(d1, d8);
    assert_ne!(d1, swapped);
}

#[test]
fn content_exclusion() {
    let mut c = policy(HashAlgorithm::Sha256, 1);
    let m = meta(EntryKind::File, 0o100644, 1);
    assert_ne!(file_digest(&c, &m, b"x"), file_digest(&c, &m, b"z"));
    c.include_file_content = false;
    assert_eq!(file_digest(&c, &m, b"x"), file_digest(&c, &m, b"z"));
}

#[test]
fn verification_symmetry() {
    let mut c = policy(HashAlgorithm::Sha256, 1);
    c.include_mtime = true;
    let m = meta(EntryKind::File, 0o100644, 1);
    let first = file_digest(&c, &m, b"x");
    let record = HashResultJson::from_result(&c, &first);
    assert!(digest_matches(&record.hash, &file_digest(&c, &m, b"x")));
    let mut touched = m;
    touched.mtime += 1;
    assert!(!digest_matches(&record.hash, &file_digest(&c, &touched, b"x")));
    let mut excluded = m;
    excluded.atime += 1;
    assert!(digest_matches(&record.hash, &file_digest(&c, &excluded, b"x")));
}

#[test]
fn record_of_a_run() {
    let c = policy(HashAlgorithm::Blake3, 1);
    let d = [0xabu8; 32];
    let snap = StatsSnapshot {
        entries_total: 3,
        entries_done: 3,
        bytes_total: 2,
        bytes_done: 2,
        elapsed: Duration::from_millis(1234),
    };
    let r = HashResultJson::from_parts(&c, &d, &snap);
    assert_eq!(r.name, b"root".to_vec());
    assert_eq!(r.hash, "ab".repeat(32));
    assert_eq!(r.flags, "v1:blake3:csp");
    assert_eq!(r.entries, Some(3));
    assert_eq!(r.bytes, Some(2));
    assert_eq!(r.elapsed_centis, Some(123));
    assert!(digest_matches(&r.hash, &d));
    assert!(!digest_matches(&"AB".repeat(32), &d));
}

#[test]
fn adopt_reference_takes_flags_and_name() {
    let mut c = policy(HashAlgorithm::Sha256, 1);
    c.path = None;
    let reference = HashResultJson {
        name: b"tree".to_vec(),
        hash: "00".repeat(32),
        flags: "v1:blake3:m".to_string(),
        entries: None,
        bytes: None,
        elapsed_centis: None,
    };
    assert_eq!(c.adopt_reference(&reference), Ok(()));
    assert_eq!(c.path, Some(b"tree".to_vec()));
    assert_eq!(c.flags_string(), "v1:blake3:m");
    let mut c = policy(HashAlgorithm::Sha256, 1);
    assert_eq!(c.adopt_reference(&reference), Ok(()));
    assert_eq!(c.path, Some(b"root".to_vec()));
}

#[test]
fn elapsed_rounding() {
    assert_eq!(centis_from_nanos(0), 0);
    assert_eq!(centis_from_nanos(4_999_999), 0);
    assert_eq!(centis_from_nanos(5_000_000), 1);
    assert_eq!(centis_from_nanos(1_234_000_000), 123);
    assert_eq!(centis_from_nanos(u128::MAX), u64::MAX);
}

#[test]
fn record_keeps_non_utf8_name() {
    let mut c = policy(HashAlgorithm::Sha256, 1);
    c.path = Some(vec![b'd', 0xff, b'x']);
    let r = HashResultJson::from_result(&c, &[0u8; 32]);
    assert_eq!(r.name, vec![b'd', 0xff, b'x']);
    assert_eq!(r.hash, "00".repeat(32));
}
