use std::rc::Rc;

use mcworld_extract::codec::{codec_for_id, registry_ids, Codec, RAW_DEFLATE_CODEC_ID};
use mcworld_extract::key_name::key_records;
use rusty_leveldb::{Compressor, CompressorList, LdbIterator, Options, Status, StatusCode, DB};

struct StoreCodec(Codec);

impl Compressor for StoreCodec {
    fn encode(&self, block: Vec<u8>) -> rusty_leveldb::Result<Vec<u8>> {
        Ok(self.0.encode(block))
    }

    fn decode(&self, block: Vec<u8>) -> rusty_leveldb::Result<Vec<u8>> {
        self.0.decode(block).map_err(|err| Status { code: StatusCode::CompressionError, err })
    }
}

fn registry_options(create: bool) -> Options {
    let mut options = Options::default();
    let mut list = CompressorList::new();
    for id in registry_ids() {
        list.set_with_id(id, StoreCodec(codec_for_id(id).unwrap()));
    }
    options.compressor_list = Rc::new(list);
    options.compressor = RAW_DEFLATE_CODEC_ID;
    options.create_if_missing = create;
    options
}

fn drain(db: &mut DB) -> Vec<(Vec<u8>, usize)> {
    let mut entries = Vec::new();
    let mut it = db.new_iter().unwrap();
    it.reset();
    while let Some((k, v)) = it.next() {
        entries.push((k, v.len()));
    }
    entries
}

#[test]
fn minimal_store_lists_its_live_keys_in_key_order() {
    let dir = tempfile::tempdir().unwrap();
    let path = dir.path().join("db");
    {
        let mut db = DB::open(&path, registry_options(true)).unwrap();
        db.put(&[0xFF, 0x00, 0x41], &[0u8; 40]).unwrap();
        db.put(b"~local_player", b"abc").unwrap();
        db.put(b"gone", b"x").unwrap();
        db.delete(b"gone").unwrap();
        db.put(b"Nether", &[1u8; 7]).unwrap();
        db.flush().unwrap();
        db.close().unwrap();
    }
    let mut db = DB::open(&path, registry_options(false)).unwrap();
    let records = key_records(&drain(&mut db));
    let listed: Vec<(String, usize)> = records.into_iter().map(|r| (r.name, r.size)).collect();
    assert_eq!(
        listed,
        vec![
            ("Nether".to_string(), 7),
            ("~local_player".to_string(), 3),
            ("0xff0041".to_string(), 40),
        ]
    );
}

#[test]
fn missing_store_is_not_created() {
    let dir = tempfile::tempdir().unwrap();
    let path = dir.path().join("db");
    assert!(DB::open(&path, registry_options(false)).is_err());
    assert!(!path.join("CURRENT").exists());
}
