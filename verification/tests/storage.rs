use std::collections::HashMap;

use edge_orchestrator::dump::show_object;
use edge_orchestrator::error::CoreError;
use edge_orchestrator::outside::clock::Timestamp;
use edge_orchestrator::storage::index::{PackIndex, PackReader, PackWriter, IndexEntry};
use edge_orchestrator::storage::objects::{
    hash_blob, hash_commit, hash_tree, Blob, Commit, Object, Tag, Tree,
};
use edge_orchestrator::storage::reach::StoredObject;
use edge_orchestrator::storage::store::{
    compressed, read_object, write_object, LocalObjectStore, PendingWrite, ReadReport, ReadStep, WriteReport,
    WriteStep,
};
use edge_orchestrator::storage::transport::P2pObjectTransport;
use edge_orchestrator::traits::{ObjectMode, TreeEntry};
use serde_json::Value;

fn text(v: &Value, key: &str) -> String {
    v[key].as_str().unwrap().to_string()
}

fn mode_name(mode: ObjectMode) -> &'static str {
    match mode {
        ObjectMode::Blob => "Blob",
        ObjectMode::Tree => "Tree",
        ObjectMode::Executable => "Executable",
    }
}

fn mode_from(name: &str) -> ObjectMode {
    match name {
        "Blob" => ObjectMode::Blob,
        "Tree" => ObjectMode::Tree,
        _ => ObjectMode::Executable,
    }
}

fn object_to_bytes(object: &Object) -> Vec<u8> {
    let mut m = serde_json::Map::new();
    match object {
        Object::Blob(b) => {
            m.insert("kind".into(), Value::from("blob"));
            m.insert("hash".into(), Value::from(b.hash.clone()));
            m.insert("data".into(), Value::from(b.data.clone()));
        }
        Object::Tree(t) => {
            m.insert("kind".into(), Value::from("tree"));
            m.insert("hash".into(), Value::from(t.hash.clone()));
            let rows: Vec<Value> = t
                .entries
                .iter()
                .map(|e| {
                    Value::from(vec![
                        e.name.clone(),
                        e.hash.clone(),
                        mode_name(e.mode).to_string(),
                    ])
                })
                .collect();
            m.insert("entries".into(), Value::from(rows));
        }
        Object::Commit(c) => {
            m.insert("kind".into(), Value::from("commit"));
            m.insert("hash".into(), Value::from(c.hash.clone()));
            m.insert("tree_hash".into(), Value::from(c.tree_hash.clone()));
            m.insert("parents".into(), Value::from(c.parent_hashes.clone()));
            m.insert("author".into(), Value::from(c.author.clone()));
            m.insert("secs".into(), Value::from(c.timestamp.secs));
            m.insert("nanos".into(), Value::from(c.timestamp.nanos));
            m.insert("message".into(), Value::from(c.message.clone()));
        }
        Object::Tag(t) => {
            m.insert("kind".into(), Value::from("tag"));
            m.insert("hash".into(), Value::from(t.hash.clone()));
            m.insert("commit_hash".into(), Value::from(t.commit_hash.clone()));
            m.insert("name".into(), Value::from(t.name.clone()));
            m.insert("message".into(), Value::from(t.message.clone()));
        }
    }
    serde_json::to_vec(&Value::Object(m)).unwrap()
}

fn tag_to_bytes(tag: &Tag) -> Vec<u8> {
    object_to_bytes(&Object::Tag(Tag {
        hash: tag.hash.clone(),
        commit_hash: tag.commit_hash.clone(),
        name: tag.name.clone(),
        message: tag.message.clone(),
    }))
}

fn object_from_bytes(bytes: &[u8]) -> Result<Object, String> {
    let v: Value = serde_json::from_slice(bytes).map_err(|e| e.to_string())?;
    let hash = text(&v, "hash");
    Ok(match v["kind"].as_str().unwrap() {
        "blob" => Object::Blob(Blob {
            hash,
            data: v["data"]
                .as_array()
                .unwrap()
                .iter()
                .map(|b| b.as_u64().unwrap() as u8)
                .collect(),
        }),
        "tree" => Object::Tree(Tree {
            hash,
            entries: v["entries"]
                .as_array()
                .unwrap()
                .iter()
                .map(|row| TreeEntry {
                    name: row[0].as_str().unwrap().to_string(),
                    hash: row[1].as_str().unwrap().to_string(),
                    mode: mode_from(row[2].as_str().unwrap()),
                })
                .collect(),
        }),
        "commit" => Object::Commit(Commit {
            hash,
            tree_hash: text(&v, "tree_hash"),
            parent_hashes: v["parents"]
                .as_array()
                .unwrap()
                .iter()
                .map(|p| p.as_str().unwrap().to_string())
                .collect(),
            author: text(&v, "author"),
            timestamp: Timestamp {
                secs: v["secs"].as_i64().unwrap(),
                nanos: v["nanos"].as_u64().unwrap() as u32,
            },
            message: text(&v, "message"),
        }),
        _ => Object::Tag(Tag {
            hash,
            commit_hash: text(&v, "commit_hash"),
            name: text(&v, "name"),
            message: v["message"].as_str().map(|s| s.to_string()),
        }),
    })
}

/// A store whose files stand in memory.
struct MemStore {
    store: LocalObjectStore,
    files: HashMap<String, Vec<u8>>,
    writes: usize,
}

impl MemStore {
    fn new() -> Self {
        MemStore {
            store: LocalObjectStore::new("/store".to_string(), Ok(())).unwrap(),
            files: HashMap::new(),
            writes: 0,
        }
    }

    fn path(&self, hash: &str) -> (String, String) {
        let place = self.store.object_path(hash);
        let dir = format!("{}/{}", self.store.root(), place.prefix);
        let path = format!("{dir}/{}", place.rest);
        (dir, path)
    }

    fn write(&mut self, write: PendingWrite) -> Result<String, CoreError> {
        let (dir, path) = self.path(&write.hash);
        let mut step = WriteStep::CheckPresent;
        loop {
            let report = match &step {
                WriteStep::CheckPresent => WriteReport::Present(self.files.contains_key(&path)),
                WriteStep::MakeDir => WriteReport::DirMade(Ok(())),
                WriteStep::Serialize => {
                    WriteReport::Serialized(Ok(object_to_bytes(&write.object)))
                }
                WriteStep::CreateFile(_) => WriteReport::Created(Ok(())),
                WriteStep::WriteFile(bytes) => {
                    self.files.insert(path.clone(), bytes.clone());
                    self.writes += 1;
                    WriteReport::Written(Ok(()))
                }
                WriteStep::Done(_) => unreachable!(),
            };
            step = write_object(step, &dir, &path, report);
            if let WriteStep::Done(outcome) = step {
                return write.finish(outcome);
            }
        }
    }

    fn contains(&self, hash: &str) -> bool {
        self.files.contains_key(&self.path(hash).1)
    }

    fn read(&self, hash: &str) -> Result<Object, CoreError> {
        let (_, path) = self.path(hash);
        let mut step = ReadStep::CheckPresent;
        loop {
            let report = match &step {
                ReadStep::CheckPresent => ReadReport::Present(self.files.contains_key(&path)),
                ReadStep::ReadFile => ReadReport::Contents(Ok(self.files[&path].clone())),
                ReadStep::Parse(bytes) => ReadReport::Parsed(object_from_bytes(bytes)),
                ReadStep::SerializeTag { unhashed, .. } => {
                    ReadReport::TagSerialized(Ok(tag_to_bytes(unhashed)))
                }
                ReadStep::Done(_) => unreachable!(),
            };
            step = read_object(step, hash, &path, report);
            if let ReadStep::Done(outcome) = step {
                return outcome;
            }
        }
    }
}

fn at(secs: i64) -> Timestamp {
    Timestamp { secs, nanos: 0 }
}

fn entry(name: &str, hash: &str) -> TreeEntry {
    TreeEntry {
        name: name.into(),
        hash: hash.into(),
        mode: ObjectMode::Blob,
    }
}

#[test]
fn packfile_write_and_read_1000_objects() {
    let mut writer = PackWriter::new();
    let mut hashes = Vec::new();
    let mut data_by_hash = HashMap::new();

    for i in 0..1000 {
        let data = format!("object number {}", i).into_bytes();
        let hash = hash_blob(&data);
        writer.append(hash.clone(), data.clone());
        hashes.push(hash.clone());
        data_by_hash.insert(hash, data);
    }

    assert_eq!(writer.index().len(), 1000);
    let pack = writer.pack_bytes();
    let index_text = writer.index_text().unwrap();

    let reader = PackReader::open("objects.pack".to_string(), Ok(index_text)).unwrap();
    assert_eq!(reader.pack_path(), "objects.pack");

    for hash in &hashes {
        assert!(reader.contains(hash));
        let retrieved = reader.read(hash, &pack).unwrap();
        assert_eq!(retrieved, data_by_hash[hash]);
    }
}

#[test]
fn hash_blob_is_deterministic() {
    let data = b"hello world";
    let h1 = hash_blob(data);
    let h2 = hash_blob(data);
    assert_eq!(h1, h2);
}

#[test]
fn hash_blob_different_for_different_data() {
    let h1 = hash_blob(b"hello");
    let h2 = hash_blob(b"world");
    assert_ne!(h1, h2);
}

#[test]
fn hash_tree_is_deterministic() {
    let entries = vec![entry("b.txt", "abc123"), entry("a.txt", "def456")];
    let h1 = hash_tree(&entries);
    let h2 = hash_tree(&entries);
    assert_eq!(h1, h2);
}

#[test]
fn hash_tree_sorted_independent_of_input_order() {
    let entries_a = vec![entry("b.txt", "abc"), entry("a.txt", "def")];
    let entries_b = vec![entry("a.txt", "def"), entry("b.txt", "abc")];
    assert_eq!(hash_tree(&entries_a), hash_tree(&entries_b));
}

#[test]
fn hash_commit_is_deterministic() {
    // Same everything → same hash
    let ts = at(1_700_000_000);
    let h1 = hash_commit("tree_hash", &[], "test", &ts, "init");
    let h2 = hash_commit("tree_hash", &[], "test", &ts, "init");
    assert_eq!(h1, h2);

    // Different timestamps → different hashes
    let ts2 = at(1_700_000_001);
    let h3 = hash_commit("tree_hash", &[], "test", &ts2, "init");
    assert_ne!(h1, h3);
}

#[test]
fn blob_roundtrip_through_store() {
    let mut m = MemStore::new();
    let data = b"hello content-addressed world";
    let write = m.store.put_blob(data);
    let hash = m.write(write).unwrap();
    assert!(m.contains(&hash));
    let retrieved = m.store.get_blob(&hash, m.read(&hash)).unwrap();
    assert_eq!(retrieved, data);
}

#[test]
fn tree_roundtrip() {
    let mut m = MemStore::new();
    let entries = vec![entry("hello.txt", "abc123")];
    let write = m.store.put_tree(entries.clone());
    let hash = m.write(write).unwrap();
    assert!(m.contains(&hash));
    let retrieved = m.store.get_tree(&hash, m.read(&hash)).unwrap();
    assert_eq!(retrieved, entries);
}

#[test]
fn commit_chain_resolution() {
    let mut m = MemStore::new();

    // Create a tree
    let write = m.store.put_tree(vec![entry("data.txt", "blobhash123")]);
    let tree_hash = m.write(write).unwrap();

    // Create initial commit
    let write = m
        .store
        .commit(tree_hash.clone(), vec![], "test", "initial commit", at(1));
    let c1 = m.write(write).unwrap();
    let commit1 = m.store.get_commit(&c1, m.read(&c1)).unwrap();
    assert_eq!(commit1.tree_hash, tree_hash);
    assert!(commit1.parent_hashes.is_empty());
    assert_eq!(commit1.message, "initial commit");

    // Create child commit
    let write = m
        .store
        .commit(tree_hash.clone(), vec![c1.clone()], "test", "second commit", at(2));
    let c2 = m.write(write).unwrap();
    let commit2 = m.store.get_commit(&c2, m.read(&c2)).unwrap();
    assert_eq!(commit2.parent_hashes, vec![c1]);
}

#[test]
fn object_not_found_error() {
    let m = MemStore::new();
    let result = m
        .store
        .get_blob("nonexistent_hash", m.read("nonexistent_hash"));
    assert!(result.is_err());
    assert_eq!(
        result.unwrap_err(),
        CoreError::ObjectNotFound("nonexistent_hash".to_string())
    );
}

#[test]
fn store_is_idempotent() {
    let mut m = MemStore::new();
    let data = b"idempotent test";
    let write = m.store.put_blob(data);
    let h1 = m.write(write).unwrap();
    let write = m.store.put_blob(data);
    let h2 = m.write(write).unwrap();
    assert_eq!(h1, h2);
    assert_eq!(m.writes, 1, "an object that is there is not written again");
}

#[test]
fn hash_of_known_bytes() {
    // SHA-256 of "blob 5\0hello".
    assert_eq!(
        hash_blob(b"hello"),
        "8aec4e4876f854f688d0ebfc8f37598f38e5fd6903cccc850ca36591175aeb60".to_string()
    );
}

#[test]
fn files_hold_compressed_bytes() {
    let mut m = MemStore::new();
    let write = m.store.put_blob(&[7u8; 4000]);
    let hash = m.write(write).unwrap();
    let (_, path) = m.path(&hash);
    let file = m.files[&path].clone();
    assert_eq!(file[0], 0x78, "a zlib stream");
    assert!(file.len() < 200);
}

#[test]
fn object_path_splits_behind_two_characters() {
    let m = MemStore::new();
    let place = m.store.object_path("abcdef");
    assert_eq!(place.prefix, "ab");
    assert_eq!(place.rest, "cdef");
}

#[test]
fn foreign_object_is_a_hash_mismatch() {
    let mut m = MemStore::new();
    let write = m.store.put_blob(b"one");
    let one = m.write(write).unwrap();
    let write = m.store.put_blob(b"two");
    let two = m.write(write).unwrap();
    let stolen = m.files[&m.path(&two).1].clone();
    let path = m.path(&one).1;
    m.files.insert(path, stolen);
    assert_eq!(
        m.read(&one).unwrap_err(),
        CoreError::HashMismatch {
            expected: one,
            computed: two,
        }
    );
}

#[test]
fn damaged_file_is_a_storage_error() {
    let mut m = MemStore::new();
    let write = m.store.put_blob(b"one");
    let hash = m.write(write).unwrap();
    let path = m.path(&hash).1;
    m.files.insert(path, vec![1, 2, 3]);
    assert!(matches!(m.read(&hash), Err(CoreError::StorageIo(_))));
}

#[test]
fn object_of_another_kind_is_refused() {
    let mut m = MemStore::new();
    let write = m.store.put_blob(b"one");
    let hash = m.write(write).unwrap();
    let err = m.store.get_tree(&hash, m.read(&hash)).unwrap_err();
    match err {
        CoreError::HashMismatch { expected, computed } => {
            assert_eq!(expected, hash);
            assert_eq!(
                computed,
                format!(
                    "expected Tree, got Blob(Blob {{ hash: \"{hash}\", data: [111, 110, 101] }})"
                )
            );
        }
        other => panic!("{other:?}"),
    }
}

#[test]
fn objects_are_shown_field_by_field() {
    let m = MemStore::new();
    let write = m
        .store
        .commit("t".into(), vec!["p".into()], "me", "a \"b\"", at(1));
    let shown = show_object(&write.object);
    assert_eq!(
        shown,
        format!(
            "Commit(Commit {{ hash: \"{}\", tree_hash: \"t\", parent_hashes: [\"p\"], author: \"me\", timestamp: 1970-01-01T00:00:01Z, message: \"a \\\"b\\\"\" }})",
            write.hash
        )
    );
    let tree = m.store.put_tree(vec![entry("a", "b"), entry("c", "d")]);
    assert!(show_object(&tree.object).ends_with(
        "entries: [TreeEntry { name: \"a\", hash: \"b\", mode: Blob }, TreeEntry { name: \"c\", hash: \"d\", mode: Blob }] })"
    ));
    let tag = Object::Tag(LocalObjectStore::unhashed_tag("c".into(), "v1", None));
    assert_eq!(
        show_object(&tag),
        "Tag(Tag { hash: \"\", commit_hash: \"c\", name: \"v1\", message: None })"
    );
}

#[test]
fn each_failing_step_of_a_write_is_named() {
    let step = write_object(
        WriteStep::MakeDir,
        "/s/ab",
        "/s/ab/cd",
        WriteReport::DirMade(Err("full".into())),
    );
    assert_eq!(
        step,
        WriteStep::Done(Err(CoreError::StorageIo("mkdir /s/ab: full".into())))
    );
    let step = write_object(
        WriteStep::CreateFile(vec![]),
        "/s/ab",
        "/s/ab/cd",
        WriteReport::Created(Err("full".into())),
    );
    assert_eq!(
        step,
        WriteStep::Done(Err(CoreError::StorageIo("create /s/ab/cd: full".into())))
    );
    let step = write_object(
        WriteStep::WriteFile(vec![]),
        "/s/ab",
        "/s/ab/cd",
        WriteReport::Written(Err("full".into())),
    );
    assert_eq!(
        step,
        WriteStep::Done(Err(CoreError::StorageIo("write /s/ab/cd: full".into())))
    );
    let step = write_object(
        WriteStep::Serialize,
        "/s/ab",
        "/s/ab/cd",
        WriteReport::Serialized(Err("odd".into())),
    );
    assert_eq!(
        step,
        WriteStep::Done(Err(CoreError::Serialization("odd".into())))
    );
    let step = read_object(
        ReadStep::Parse(vec![]),
        "ab",
        "/s/ab",
        ReadReport::Parsed(Err("odd".into())),
    );
    assert_eq!(
        step,
        ReadStep::Done(Err(CoreError::Serialization(
            "deserialize /s/ab: odd".into()
        )))
    );
}

#[test]
fn tag_is_stored_under_the_hash_of_its_bytes() {
    let m = MemStore::new();
    let tag = LocalObjectStore::unhashed_tag("c0ffee".into(), "v1", Some("first".into()));
    assert_eq!(tag.hash, "");
    let write = m.store.put_tag(tag, Ok(b"tag bytes".to_vec())).unwrap();
    assert_eq!(write.hash, hash_blob(b"tag bytes"));
    match write.object {
        Object::Tag(t) => {
            assert_eq!(t.name, "v1");
            assert_eq!(t.commit_hash, "c0ffee");
            assert_eq!(t.message, Some("first".to_string()));
            assert_eq!(t.hash, hash_blob(b"tag bytes"));
        }
        other => panic!("{other:?}"),
    }
}

#[test]
fn pack_index_keeps_the_last_row_of_a_hash() {
    let mut index = PackIndex::new();
    assert!(index.is_empty());
    index.insert(IndexEntry {
        offset: 0,
        length: 3,
        hash: "a".into(),
    });
    index.insert(IndexEntry {
        offset: 3,
        length: 4,
        hash: "a".into(),
    });
    assert_eq!(index.len(), 1);
    assert_eq!(index.get("a").unwrap().offset, 3);
    assert_eq!(index.get("b"), None);
    assert_eq!(index.iter().len(), 1);
}

#[test]
fn pack_that_was_cut_off_is_an_error() {
    let mut writer = PackWriter::default();
    writer.append("h".into(), b"payload".to_vec());
    let text = writer.index_text().unwrap();
    let reader = PackReader::open("p".into(), Ok(text)).unwrap();
    assert_eq!(reader.pack_path(), "p");
    assert_eq!(reader.read("h", b"payload").unwrap(), b"payload");
    assert!(matches!(
        reader.read("h", b"pay"),
        Err(CoreError::StorageIo(_))
    ));
    assert!(matches!(
        reader.read("other", b"payload"),
        Err(CoreError::ObjectNotFound(_))
    ));
    assert!(PackReader::open("p".into(), Ok("not json".into())).is_err());
    assert!(PackReader::open("p".into(), Err("gone".into())).is_err());
}

#[test]
fn transport_fetches_nothing_yet() {
    assert!(P2pObjectTransport::new().fetch("abc").is_err());
}

#[test]
fn store_root_must_be_usable() {
    assert!(LocalObjectStore::new("/nowhere".into(), Err("denied".into())).is_err());
}

#[test]
fn altered_object_is_refused() {
    let mut m = MemStore::new();
    let write = m.store.put_blob(b"one");
    let hash = m.write(write).unwrap();
    let altered = Object::Blob(Blob {
        hash: hash.clone(),
        data: b"two".to_vec(),
    });
    let refused = CoreError::HashMismatch {
        expected: hash.clone(),
        computed: hash_blob(b"two"),
    };
    let path = m.path(&hash).1;
    let other = m.store.put_blob(b"other");
    let forged = PendingWrite {
        object: altered,
        hash: other.hash,
        location: other.location,
    };
    let stored_at = m.write(forged).unwrap();
    let stream = m.files[&m.path(&stored_at).1].clone();
    m.files.insert(path, stream);
    assert_eq!(m.read(&hash).unwrap_err(), refused);
    let altered = Object::Blob(Blob {
        hash: hash.clone(),
        data: b"two".to_vec(),
    });
    assert_eq!(m.store.get_blob(&hash, Ok(altered)).unwrap_err(), refused);
}

#[test]
fn object_that_carries_another_hash_is_refused() {
    let object = Object::Blob(Blob {
        hash: "ab".into(),
        data: b"one".to_vec(),
    });
    let hash = hash_blob(b"one");
    let end = read_object(ReadStep::Parse(vec![]), &hash, "/p", ReadReport::Parsed(Ok(object)));
    assert_eq!(
        end,
        ReadStep::Done(Err(CoreError::HashMismatch {
            expected: hash,
            computed: "ab".into(),
        }))
    );
}

#[test]
fn tree_is_stored_and_read_in_order() {
    let mut m = MemStore::new();
    let write = m.store.put_tree(vec![entry("b", "2"), entry("a", "1"), entry("c", "3")]);
    let sorted = vec![entry("a", "1"), entry("b", "2"), entry("c", "3")];
    match &write.object {
        Object::Tree(t) => assert_eq!(t.entries, sorted),
        other => panic!("{other:?}"),
    }
    let hash = m.write(write).unwrap();
    assert_eq!(hash, hash_tree(&sorted));
    assert_eq!(m.store.get_tree(&hash, m.read(&hash)).unwrap(), sorted);
    let unsorted = Object::Tree(Tree {
        hash: hash.clone(),
        entries: vec![entry("c", "3"), entry("a", "1"), entry("b", "2")],
    });
    assert_eq!(m.store.get_tree(&hash, Ok(unsorted)).unwrap(), sorted);
    let altered = Object::Tree(Tree {
        hash: hash.clone(),
        entries: vec![entry("c", "3")],
    });
    assert_eq!(
        m.store.get_tree(&hash, Ok(altered)).unwrap_err(),
        CoreError::HashMismatch {
            expected: hash,
            computed: hash_tree(&[entry("c", "3")]),
        }
    );
}

#[test]
fn stored_objects_stay_readable() {
    let mut m = MemStore::new();
    let write = m.store.put_blob(b"first");
    let first = m.write(write).unwrap();
    for i in 0..20u8 {
        let write = m.store.put_blob(&[i]);
        m.write(write).unwrap();
    }
    let write = m.store.put_blob(b"first");
    assert_eq!(m.write(write).unwrap(), first);
    assert_eq!(m.store.get_blob(&first, m.read(&first)).unwrap(), b"first");

    let tag = LocalObjectStore::unhashed_tag(first.clone(), "v1", None);
    let form = tag_to_bytes(&tag);
    let write = m.store.put_tag(tag, Ok(form)).unwrap();
    let hash = m.write(write).unwrap();
    match m.read(&hash).unwrap() {
        Object::Tag(t) => {
            assert_eq!(t.hash, hash);
            assert_eq!(t.commit_hash, first);
        }
        other => panic!("{other:?}"),
    }
}

#[test]
fn unreferenced_objects_are_named() {
    let store = LocalObjectStore::new("/store".into(), Ok(())).unwrap();
    let mut stored = Vec::new();
    let mut keep = |write: PendingWrite| {
        let hash = write.hash.clone();
        stored.push(StoredObject {
            hash: write.hash,
            object: write.object,
        });
        hash
    };
    let blob = keep(store.put_blob(b"kept"));
    let lost = keep(store.put_blob(b"lost"));
    let sub = keep(store.put_tree(vec![entry("f", &blob)]));
    let tree = keep(store.put_tree(vec![entry("sub", &sub), entry("gone", "not stored")]));
    let first = keep(store.commit(sub.clone(), vec![], "me", "one", at(1)));
    let second = keep(store.commit(tree.clone(), vec![first.clone()], "me", "two", at(2)));
    let stray = keep(store.commit(tree, vec![second.clone()], "me", "three", at(3)));
    let tag = LocalObjectStore::unhashed_tag(second.clone(), "v1", None);
    let tagged = keep(store.put_tag(tag, Ok(b"tag".to_vec())).unwrap());

    assert_eq!(
        store.gc(&stored, &[second]).unwrap(),
        vec![lost.clone(), stray.clone(), tagged.clone()]
    );
    assert_eq!(store.gc(&stored, &[tagged]).unwrap(), vec![lost, stray]);
    assert_eq!(store.gc(&stored, &[]).unwrap().len(), stored.len());
    assert_eq!(store.gc(&stored, &["unknown".to_string()]).unwrap().len(), 8);
    let kept: Vec<String> = store.gc(&stored, &[first]).unwrap();
    assert!(!kept.contains(&blob));
    assert!(!kept.contains(&sub));
    assert_eq!(store.gc(&vec![], &[blob]).unwrap(), Vec::<String>::new());
}

#[test]
fn compression_decides_about_the_file() {
    assert_eq!(compressed(Ok(vec![1, 2])), WriteStep::CreateFile(vec![1, 2]));
    assert_eq!(
        compressed(Err("corrupt deflate stream".into())),
        WriteStep::Done(Err(CoreError::StorageIo("corrupt deflate stream".into())))
    );
}

#[test]
fn empty_pack_has_an_empty_index() {
    let writer = PackWriter::new();
    assert_eq!(writer.index_text().unwrap(), "[]");
    assert!(writer.pack_bytes().is_empty());
}
