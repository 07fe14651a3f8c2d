use std::io::{Cursor, Write};

use mcworld_extract::archive::{read_archive, read_root_from_archive, read_zip};
use mcworld_extract::extraction::ExtractionResult;
use mcworld_extract::codec::{codec_for_id, registry_ids, Codec, RawZlibCompressor, ZlibCompressor};
use mcworld_extract::key_name::{display_name, key_records};
use mcworld_extract::tree::{insert_entry, insert_file, ExtractedEntry, ExtractedFile};
use zip::write::SimpleFileOptions;
use zip::{CompressionMethod, ZipWriter};

/// A compact rendering of a tree: `name(size)` for files, `name[...]` for directories.
fn render(entries: &[ExtractedEntry]) -> String {
    let parts: Vec<String> = entries
        .iter()
        .map(|e| match e {
            ExtractedEntry::File(f) => format!("{}({})", f.name, f.size),
            ExtractedEntry::Directory(d) => format!("{}[{}]", d.name, render(&d.children)),
        })
        .collect();
    parts.join(",")
}

fn file(name: &str, size: usize) -> ExtractedEntry {
    ExtractedEntry::File(ExtractedFile { name: name.to_string(), size })
}

fn parts(path: &str) -> Vec<String> {
    path.split('/').map(|p| p.to_string()).collect()
}

fn zip_of(files: &[(&str, &[u8])], dirs: &[&str]) -> Vec<u8> {
    let mut writer = ZipWriter::new(Cursor::new(Vec::new()));
    let options = SimpleFileOptions::default().compression_method(CompressionMethod::Stored);
    for d in dirs {
        writer.add_directory(*d, options).unwrap();
    }
    for (name, data) in files {
        writer.start_file(*name, options).unwrap();
        writer.write_all(data).unwrap();
    }
    writer.finish().unwrap().into_inner()
}

fn tree_of_zip(data: Vec<u8>) -> Vec<ExtractedEntry> {
    let mut archive = read_zip(data).ok().unwrap();
    read_archive(&mut archive).unwrap()
}

#[test]
fn shared_prefix_builds_one_directory_per_level() {
    let mut root = Vec::new();
    insert_entry(&mut root, &parts("a/b/c.txt"), file("c.txt", 1));
    insert_entry(&mut root, &parts("a/b/d.txt"), file("d.txt", 2));
    assert_eq!(render(&root), "a[b[c.txt(1),d.txt(2)]]");
}

#[test]
fn children_keep_first_seen_order() {
    let mut root = Vec::new();
    insert_file(&mut root, &"z/one".to_string(), 1);
    insert_file(&mut root, &"a".to_string(), 2);
    insert_file(&mut root, &"z/two".to_string(), 3);
    insert_file(&mut root, &"m/x/y".to_string(), 4);
    assert_eq!(render(&root), "z[one(1),two(3)],a(2),m[x[y(4)]]");
}

#[test]
fn directory_lookup_is_case_sensitive_and_skips_files() {
    let mut root = Vec::new();
    insert_file(&mut root, &"A".to_string(), 0);
    insert_file(&mut root, &"A/f".to_string(), 1);
    insert_file(&mut root, &"a/g".to_string(), 2);
    assert_eq!(render(&root), "A(0),A[f(1)],a[g(2)]");
}

#[test]
fn empty_path_inserts_nothing() {
    let mut root = vec![file("x", 1)];
    insert_entry(&mut root, &[], file("y", 2));
    assert_eq!(render(&root), "x(1)");
}

#[test]
fn trailing_slash_gives_an_empty_leaf_name() {
    let mut root = Vec::new();
    insert_file(&mut root, &"d/".to_string(), 0);
    assert_eq!(render(&root), "d[(0)]");
}

#[test]
fn invalid_utf8_key_is_shown_in_hex() {
    assert_eq!(display_name(&[0xFF, 0x00, 0x41]), "0xff0041");
}

#[test]
fn printable_ascii_key_is_shown_as_text() {
    assert_eq!(display_name(b"~local_player"), "~local_player");
}

#[test]
fn key_with_control_byte_or_space_is_shown_in_hex() {
    assert_eq!(display_name(b"a b"), "0x612062");
    assert_eq!(display_name(&[0x41, 0x0A]), "0x410a");
    assert_eq!(display_name(&[0x00, 0x10, 0xAB, 0xFF]), "0x0010abff");
}

#[test]
fn non_ascii_text_key_is_shown_in_hex() {
    assert_eq!(display_name("é".as_bytes()), "0xc3a9");
}

#[test]
fn empty_key_is_empty_text() {
    assert_eq!(display_name(&[]), "");
}

#[test]
fn display_name_is_deterministic() {
    let key = vec![0x01, 0x7E, 0x80];
    assert_eq!(display_name(&key), display_name(&key));
}

#[test]
fn key_records_keep_order_and_value_sizes() {
    let entries = vec![
        (b"AutonomousEntities".to_vec(), 12),
        (vec![0x00, 0x00, 0x00, 0x00, 0x2F], 0),
        (b"~local_player".to_vec(), 4096),
    ];
    let records = key_records(&entries);
    assert_eq!(records.len(), 3);
    assert_eq!(records[0].name, "AutonomousEntities");
    assert_eq!(records[0].size, 12);
    assert_eq!(records[1].name, "0x000000002f");
    assert_eq!(records[1].size, 0);
    assert_eq!(records[2].name, "~local_player");
    assert_eq!(records[2].size, 4096);
}

#[test]
fn every_registered_codec_round_trips() {
    let samples: Vec<Vec<u8>> = vec![
        vec![],
        b"hello hello hello hello".to_vec(),
        (0..=255u8).collect(),
    ];
    for id in registry_ids() {
        let codec = codec_for_id(id).unwrap();
        for x in &samples {
            let stored = codec.encode(x.clone());
            assert_eq!(codec.decode(stored).unwrap(), *x);
        }
    }
}

#[test]
fn registry_holds_exactly_three_ids() {
    assert_eq!(registry_ids(), vec![0, 2, 4]);
    for id in 0..=255u8 {
        assert_eq!(codec_for_id(id).is_some(), id == 0 || id == 2 || id == 4);
    }
    assert!(matches!(codec_for_id(0), Some(Codec::Identity)));
    assert!(matches!(codec_for_id(2), Some(Codec::Zlib(_))));
    assert!(matches!(codec_for_id(4), Some(Codec::RawDeflate(_))));
}

#[test]
fn identity_codec_keeps_the_block() {
    let codec = codec_for_id(0).unwrap();
    assert_eq!(codec.encode(vec![1, 2, 3]), vec![1, 2, 3]);
    assert_eq!(codec.decode(vec![9, 8]).unwrap(), vec![9, 8]);
}

#[test]
fn zlib_codec_writes_a_zlib_header() {
    let zlib = ZlibCompressor::new(6);
    let stored = zlib.encode(b"abcabcabcabcabcabc".to_vec());
    assert_eq!(stored[0], 0x78);
    assert_eq!(zlib.decode(stored).unwrap(), b"abcabcabcabcabcabc".to_vec());
}

#[test]
fn raw_deflate_codec_writes_no_zlib_header() {
    let raw = RawZlibCompressor::new(6);
    let data = vec![7u8; 1000];
    let stored = raw.encode(data.clone());
    assert!(stored.len() < data.len());
    assert!(ZlibCompressor::new(6).decode(stored.clone()).is_err());
    assert_eq!(raw.decode(stored).unwrap(), data);
}

#[test]
fn malformed_streams_fail_to_decode() {
    let garbage = vec![0xFF, 0xFF, 0xFF, 0xFF, 0x00, 0x12];
    assert!(ZlibCompressor::new(6).decode(garbage.clone()).is_err());
    assert!(RawZlibCompressor::new(6).decode(garbage).is_err());
}

#[test]
fn bytes_that_are_no_zip_are_refused() {
    let r = read_zip(b"not a zip archive at all".to_vec());
    assert!(r.is_err());
    let message = r.err().unwrap();
    assert!(message.starts_with("Failed to read zip archive: "));
}

#[test]
fn archive_without_files_gives_an_empty_tree() {
    let mut empty = vec![0x50, 0x4B, 0x05, 0x06];
    empty.extend_from_slice(&[0u8; 18]);
    assert!(tree_of_zip(empty).is_empty());
    assert!(tree_of_zip(zip_of(&[], &["only_dir/"])).is_empty());
}

#[test]
fn world_archive_lists_store_and_world_directories() {
    let data = zip_of(
        &[("db/000001.log", &[1, 2, 3, 4, 5]), ("world/level.dat", &[0xAA; 10])],
        &["db/", "world/"],
    );
    let root = tree_of_zip(data);
    assert_eq!(render(&root), "db[000001.log(5)],world[level.dat(10)]");
}

#[test]
fn extracting_twice_gives_identical_results() {
    let data = zip_of(&[("a/b/c.txt", b"c"), ("a/d.txt", b"dd"), ("e", b"")], &[]);
    let first = tree_of_zip(data.clone());
    let second = tree_of_zip(data);
    assert_eq!(render(&first), render(&second));
    assert_eq!(render(&first), "a[b[c.txt(1)],d.txt(2)],e(0)");
    let entries = vec![(vec![0xFF], 1), (b"k".to_vec(), 2)];
    let a = ExtractionResult::new(first, key_records(&entries));
    let b = ExtractionResult::new(second, key_records(&entries));
    assert_eq!(render(&a.root), render(&b.root));
    let names_a: Vec<(String, usize)> = a.db_keys.iter().map(|k| (k.name.clone(), k.size)).collect();
    let names_b: Vec<(String, usize)> = b.db_keys.iter().map(|k| (k.name.clone(), k.size)).collect();
    assert_eq!(names_a, names_b);
}

#[test]
fn registry_codecs_compress_at_the_default_level() {
    let block: Vec<u8> = b"level six level six level six level six".to_vec();
    let zlib = codec_for_id(2).unwrap().encode(block.clone());
    assert_eq!(zlib, ZlibCompressor::new(6).encode(block.clone()));
    let raw = codec_for_id(4).unwrap().encode(block.clone());
    assert_eq!(raw, RawZlibCompressor::new(6).encode(block.clone()));
    assert_ne!(raw, RawZlibCompressor::new(0).encode(block));
}

#[test]
fn empty_bytes_are_no_archive() {
    let r = read_root_from_archive(Vec::new());
    assert!(r.is_err());
    assert!(r.err().unwrap().starts_with("Failed to read zip archive: "));
}

#[test]
fn archive_of_directories_only_lists_nothing() {
    let data = zip_of(&[], &["world/", "db/"]);
    let (root, archive) = read_root_from_archive(data).ok().unwrap();
    assert!(root.is_empty());
    assert_eq!(archive.len(), 2);
}

#[test]
fn tree_from_bytes_matches_tree_from_opened_archive() {
    let data = zip_of(&[("db/000001.log", &[9; 3]), ("world/level.dat", &[1; 4])], &[]);
    let (root, _) = read_root_from_archive(data.clone()).ok().unwrap();
    assert_eq!(render(&root), render(&tree_of_zip(data)));
    assert_eq!(render(&root), "db[000001.log(3)],world[level.dat(4)]");
}
