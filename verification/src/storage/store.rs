//! The local object store: where objects lie, how they are written and how they
//! are read back.
//!
//! The store decides; the caller touches the disk. An object lies at
//! `<root>/<first two bytes of its hash>/<rest>` as a zlib stream.
use vstd::prelude::*;
use vstd::string::*;
use vstd::utf8::*;
use crate::dump::{object_debug, show_object};
use crate::error::{CoreError, ErrorView, Result};
use crate::outside::zlib::{deflate, inflate, inflated};
use crate::storage::objects::{
    blob_hash, commit_hash, computed_hash, hash_blob, hash_commit, hash_tree, names_ascend,
    object_hash, object_valid, sort_entries, sort_entries_sorts, sorted_copy, tree_hash,
    tree_hash_of_sorted, Blob, Commit, Object, ObjectView, Tag, Tree,
};
use crate::storage::reach::{unreferenced, unreferenced_hashes, StoredObject};
use crate::text::{cat4, str_eq};
use crate::traits::{entries_view, EntryView, TreeEntry};
use crate::types::{clone_bytes, texts, Timestamp};

verus! {

/// Local content-addressed object store.
#[derive(Debug, PartialEq, Eq)]
pub struct LocalObjectStore {
    /// Root directory of the store.
    root: String,
}

/// Where an object lies below the root of its store.
#[derive(Debug, PartialEq, Eq)]
pub struct ObjectLocation {
    /// The directory: the first two bytes of the hash.
    pub prefix: String,
    /// The file: the rest of the hash.
    pub rest: String,
}

impl ObjectLocation {
    /// Whether this is where the object with that hash lies.
    pub open spec fn is_for(self, hash: Seq<char>) -> bool {
        &&& encode_utf8(self.prefix@) == encode_utf8(hash).subrange(0, 2)
        &&& encode_utf8(self.rest@) == encode_utf8(hash).subrange(
            2,
            encode_utf8(hash).len() as int,
        )
    }
}

/// An object about to be stored.
#[derive(Debug, PartialEq, Eq)]
pub struct PendingWrite {
    /// The object.
    pub object: Object,
    /// Its hash.
    pub hash: String,
    /// Where it will lie.
    pub location: ObjectLocation,
}

impl PendingWrite {
    /// Whether this stores the object under its own hash.
    pub open spec fn stores(self, object: ObjectView) -> bool {
        &&& self.object@ == object
        &&& self.hash@ == object_hash(object)
        &&& self.location.is_for(self.hash@)
    }

    /// The hash, once the object was written.
    pub fn finish(self, written: Result<()>) -> (r: Result<String>)
        ensures
            match written {
                Ok(_) => r is Ok && r->Ok_0@ == self.hash@,
                Err(e) => r is Err && r->Err_0@ == e@,
            },
    {
        match written {
            Ok(_) => Ok(self.hash),
            Err(e) => Err(e),
        }
    }
}

/// A hash that can be split behind its second byte.
pub open spec fn splits(hash: Seq<char>) -> bool {
    is_char_boundary(encode_utf8(hash), 2)
}

proof fn ascii_splits(hash: Seq<char>)
    requires
        is_ascii_chars(hash),
        hash.len() == 64,
    ensures
        splits(hash),
{
    is_ascii_chars_encode_utf8(hash);
    encode_utf8_valid_utf8(hash);
    let b = encode_utf8(hash);
    assert(b.len() == 64);
    assert(b[2] < 128) by {
        assert(hash[2] as u32 <= 127);
    }
    is_char_boundary_iff_not_is_continuation_byte(b, 2);
    let x = b[2];
    assert(x < 128 ==> !is_continuation_byte(x));
}

/// What an object of the wrong kind gives.
pub open spec fn wrong_kind(hash: Seq<char>, kind: Seq<char>, object: ObjectView) -> ErrorView {
    ErrorView::HashMismatch {
        expected: hash,
        computed: "expected "@ + kind + ", got "@ + object_debug(object),
    }
}

fn wrong_kind_error(hash: &str, kind: &str, object: &Object) -> (r: CoreError)
    ensures
        r@ == wrong_kind(hash@, kind@, object@),
{
    CoreError::HashMismatch {
        expected: String::from_str(hash),
        computed: cat4("expected ", kind, ", got ", show_object(object).as_str()),
    }
}

/// What an object gives whose content has another hash than the one asked for.
pub open spec fn mismatched(hash: Seq<char>, computed: Seq<char>) -> ErrorView {
    ErrorView::HashMismatch { expected: hash, computed }
}

fn mismatch(hash: &str, computed: String) -> (r: CoreError)
    ensures
        r@ == mismatched(hash@, computed@),
{
    CoreError::HashMismatch { expected: String::from_str(hash), computed }
}

/// The bytes of the blob with the given hash in what was read for it, or the error:
/// what was read is no blob, or its bytes have another hash.
pub open spec fn blob_in(hash: Seq<char>, read: Result<Object>) -> std::result::Result<
    Seq<u8>,
    ErrorView,
> {
    match read {
        Err(e) => Err(e@),
        Ok(o) => match o@ {
            ObjectView::Blob { data, .. } => if blob_hash(data) == hash {
                Ok(data)
            } else {
                Err(mismatched(hash, blob_hash(data)))
            },
            _ => Err(wrong_kind(hash, "Blob"@, o@)),
        },
    }
}

impl LocalObjectStore {
    /// The root directory.
    pub closed spec fn root_text(self) -> Seq<char> {
        self.root@
    }

    /// A store rooted at `root`, given whether the directory could be created.
    pub fn new(root: String, created: std::result::Result<(), String>) -> (r: Result<Self>)
        ensures
            match created {
                Ok(_) => r is Ok && r->Ok_0.root_text() == root@,
                Err(e) => r is Err && r->Err_0@ == ErrorView::StorageIo(
                    "failed to create object store root "@ + root@ + ": "@ + e@,
                ),
            },
    {
        match created {
            Ok(_) => Ok(LocalObjectStore { root }),
            Err(e) => Err(
                CoreError::StorageIo(
                    cat4(
                        "failed to create object store root ",
                        root.as_str(),
                        ": ",
                        e.as_str(),
                    ),
                ),
            ),
        }
    }

    /// The root directory as text.
    pub fn root(&self) -> (r: &str)
        ensures
            r@ == self.root_text(),
    {
        self.root.as_str()
    }

    /// Where the object with the given hash lies below the root.
    pub fn object_path(&self, hash: &str) -> (r: ObjectLocation)
        requires
            splits(hash@),
        ensures
            r.is_for(hash@),
    {
        let (prefix, rest) = hash.split_at(2);
        ObjectLocation { prefix: prefix.to_owned(), rest: rest.to_owned() }
    }

    /// The blob to store for `data`.
    pub fn put_blob(&self, data: &[u8]) -> (r: PendingWrite)
        ensures
            r.stores(ObjectView::Blob { hash: blob_hash(data@), data: data@ }),
    {
        let hash = hash_blob(data);
        proof {
            ascii_splits(hash@);
        }
        let location = self.object_path(hash.as_str());
        let blob = Blob { hash: hash.clone(), data: clone_bytes(data) };
        PendingWrite { object: Object::Blob(blob), hash, location }
    }

    /// The bytes of the blob with the given hash, from what was read for it. Bytes
    /// of another hash are refused.
    pub fn get_blob(&self, hash: &str, read: Result<Object>) -> (r: Result<Vec<u8>>)
        ensures
            match blob_in(hash@, read) {
                Ok(data) => r is Ok && r->Ok_0@ == data,
                Err(e) => r is Err && r->Err_0@ == e,
            },
    {
        match read {
            Err(e) => Err(e),
            Ok(Object::Blob(blob)) => {
                let computed = hash_blob(blob.data.as_slice());
                if str_eq(computed.as_str(), hash) {
                    Ok(blob.data)
                } else {
                    Err(mismatch(hash, computed))
                }
            },
            Ok(other) => Err(wrong_kind_error(hash, "Blob", &other)),
        }
    }

    /// The tree to store for `entries`: they are put in the order of their names.
    pub fn put_tree(&self, entries: Vec<TreeEntry>) -> (r: PendingWrite)
        ensures
            r.stores(
                ObjectView::Tree {
                    hash: tree_hash(entries_view(entries@)),
                    entries: sort_entries(entries_view(entries@)),
                },
            ),
    {
        let hash = hash_tree(entries.as_slice());
        proof {
            ascii_splits(hash@);
        }
        let location = self.object_path(hash.as_str());
        let tree = Tree { hash: hash.clone(), entries: sorted_copy(entries.as_slice()) };
        PendingWrite { object: Object::Tree(tree), hash, location }
    }

    /// The entries of the tree with the given hash in the order of their names,
    /// from what was read for it. Entries of another hash are refused.
    pub fn get_tree(&self, hash: &str, read: Result<Object>) -> (r: Result<Vec<TreeEntry>>)
        ensures
            match read {
                Err(e) => r is Err && r->Err_0@ == e@,
                Ok(o) => match o@ {
                    ObjectView::Tree { entries, .. } => if tree_hash(entries) == hash@ {
                        r is Ok && entries_view(r->Ok_0@) == sort_entries(entries)
                    } else {
                        r is Err && r->Err_0@ == mismatched(hash@, tree_hash(entries))
                    },
                    _ => r is Err && r->Err_0@ == wrong_kind(hash@, "Tree"@, o@),
                },
            },
            r is Ok ==> names_ascend(entries_view(r->Ok_0@)),
            r is Ok ==> tree_hash(entries_view(r->Ok_0@)) == hash@,
    {
        match read {
            Err(e) => Err(e),
            Ok(Object::Tree(tree)) => {
                let computed = hash_tree(tree.entries.as_slice());
                if str_eq(computed.as_str(), hash) {
                    proof {
                        sort_entries_sorts(entries_view(tree.entries@));
                        tree_hash_of_sorted(entries_view(tree.entries@));
                    }
                    Ok(sorted_copy(tree.entries.as_slice()))
                } else {
                    Err(mismatch(hash, computed))
                }
            },
            Ok(other) => Err(wrong_kind_error(hash, "Tree", &other)),
        }
    }

    /// The commit to store, made at `timestamp`.
    pub fn commit(
        &self,
        tree_hash: String,
        parent_hashes: Vec<String>,
        author: &str,
        message: &str,
        timestamp: Timestamp,
    ) -> (r: PendingWrite)
        requires
            timestamp.valid(),
        ensures
            r.stores(
                ObjectView::Commit {
                    hash: commit_hash(
                        tree_hash@,
                        texts(parent_hashes@),
                        author@,
                        timestamp,
                        message@,
                    ),
                    tree_hash: tree_hash@,
                    parent_hashes: texts(parent_hashes@),
                    author: author@,
                    timestamp,
                    message: message@,
                },
            ),
    {
        let hash = hash_commit(
            tree_hash.as_str(),
            parent_hashes.as_slice(),
            author,
            &timestamp,
            message,
        );
        proof {
            ascii_splits(hash@);
        }
        let location = self.object_path(hash.as_str());
        let commit = Commit {
            hash: hash.clone(),
            tree_hash,
            parent_hashes,
            author: String::from_str(author),
            timestamp,
            message: String::from_str(message),
        };
        PendingWrite { object: Object::Commit(commit), hash, location }
    }

    /// The commit with the given hash, from what was read for it. A commit of
    /// another hash is refused.
    pub fn get_commit(&self, hash: &str, read: Result<Object>) -> (r: Result<Commit>)
        requires
            read is Ok ==> object_valid(read->Ok_0@),
        ensures
            match read {
                Err(e) => r is Err && r->Err_0@ == e@,
                Ok(o) => match o {
                    Object::Commit(c) => if computed_hash(c@, Seq::empty()) == hash@ {
                        r is Ok && r->Ok_0@ == c@
                    } else {
                        r is Err && r->Err_0@ == mismatched(
                            hash@,
                            computed_hash(c@, Seq::empty()),
                        )
                    },
                    _ => r is Err && r->Err_0@ == wrong_kind(hash@, "Commit"@, o@),
                },
            },
            r matches Ok(c) ==> commit_hash(
                c.tree_hash@,
                texts(c.parent_hashes@),
                c.author@,
                c.timestamp,
                c.message@,
            ) == hash@,
    {
        match read {
            Err(e) => Err(e),
            Ok(Object::Commit(commit)) => {
                let computed = commit.computed_hash();
                if str_eq(computed.as_str(), hash) {
                    Ok(commit)
                } else {
                    Err(mismatch(hash, computed))
                }
            },
            Ok(other) => Err(wrong_kind_error(hash, "Commit", &other)),
        }
    }

    /// A tag whose hash is not known yet: the hash is that of its serialized
    /// form with an empty hash.
    pub fn unhashed_tag(commit_hash: String, name: &str, message: Option<String>) -> (r: Tag)
        ensures
            r@ == (ObjectView::Tag {
                hash: Seq::empty(),
                commit_hash: commit_hash@,
                name: name@,
                annotation: match message {
                    Some(m) => Some(m@),
                    None => None,
                },
            }),
    {
        Tag { hash: String::new(), commit_hash, name: String::from_str(name), message }
    }

    /// The tag to store, given its serialized form with an empty hash.
    pub fn put_tag(&self, tag: Tag, serialized: std::result::Result<Vec<u8>, String>) -> (r: Result<
        PendingWrite,
    >)
        ensures
            match serialized {
                Err(e) => r is Err && r->Err_0@ == ErrorView::Serialization(e@),
                Ok(bytes) => r is Ok && r->Ok_0.stores(
                    ObjectView::Tag {
                        hash: blob_hash(bytes@),
                        commit_hash: tag.commit_hash@,
                        name: tag.name@,
                        annotation: match tag.message {
                            Some(m) => Some(m@),
                            None => None,
                        },
                    },
                ),
            },
    {
        match serialized {
            Err(e) => Err(CoreError::Serialization(e)),
            Ok(bytes) => {
                let hash = hash_blob(bytes.as_slice());
                proof {
                    ascii_splits(hash@);
                }
                let location = self.object_path(hash.as_str());
                let tag = Tag {
                    hash: hash.clone(),
                    commit_hash: tag.commit_hash,
                    name: tag.name,
                    message: tag.message,
                };
                Ok(PendingWrite { object: Object::Tag(tag), hash, location })
            },
        }
    }

    /// The stored objects that no kept root reaches, given everything the store
    /// holds. A root reaches itself; a commit reaches its tree and its parents, a
    /// tree its entries, and a tag its commit.
    pub fn gc(&self, stored: &Vec<StoredObject>, keep_roots: &[String]) -> (r: Result<Vec<String>>)
        ensures
            r is Ok,
            unreferenced(stored@, texts(keep_roots@), texts(r->Ok_0@)),
    {
        Ok(unreferenced_hashes(stored, keep_roots))
    }
}

/// What to do next while an object is written.
#[derive(Debug, PartialEq, Eq)]
pub enum WriteStep {
    /// See whether the object's file is there.
    CheckPresent,
    /// Create the directory of the file.
    MakeDir,
    /// Serialize the object.
    Serialize,
    /// Create the file that will hold these bytes.
    CreateFile(Vec<u8>),
    /// Write these bytes to the file.
    WriteFile(Vec<u8>),
    /// Nothing more: the outcome.
    Done(Result<()>),
}

/// What came of a [`WriteStep`].
#[derive(Debug, PartialEq, Eq)]
pub enum WriteReport {
    /// Whether the file is there.
    Present(bool),
    /// Whether the directory is there now.
    DirMade(std::result::Result<(), String>),
    /// The serialized object.
    Serialized(std::result::Result<Vec<u8>, String>),
    /// Whether the file was created.
    Created(std::result::Result<(), String>),
    /// Whether the bytes were written.
    Written(std::result::Result<(), String>),
}

/// Whether a report answers a step.
pub open spec fn answers_write(step: WriteStep, report: WriteReport) -> bool {
    match step {
        WriteStep::CheckPresent => report is Present,
        WriteStep::MakeDir => report is DirMade,
        WriteStep::Serialize => report is Serialized,
        WriteStep::CreateFile(_) => report is Created,
        WriteStep::WriteFile(_) => report is Written,
        WriteStep::Done(_) => false,
    }
}

/// A failed end of a write.
pub open spec fn write_failed(step: WriteStep, e: ErrorView) -> bool {
    step matches WriteStep::Done(r) && r is Err && r->Err_0@ == e
}

/// The step that follows `step` when `report` answers it, for an object whose
/// directory and file are shown as `dir` and `path`.
pub open spec fn write_follows(
    step: WriteStep,
    dir: Seq<char>,
    path: Seq<char>,
    report: WriteReport,
    next: WriteStep,
) -> bool {
    match (step, report) {
        (WriteStep::CheckPresent, WriteReport::Present(present)) => if present {
            next matches WriteStep::Done(r) && r is Ok
        } else {
            next is MakeDir
        },
        (WriteStep::MakeDir, WriteReport::DirMade(made)) => match made {
            Ok(_) => next is Serialize,
            Err(e) => write_failed(
                next,
                ErrorView::StorageIo("mkdir "@ + dir + ": "@ + e@),
            ),
        },
        (WriteStep::Serialize, WriteReport::Serialized(bytes)) => match bytes {
            Ok(b) => next matches WriteStep::CreateFile(stream) && inflated(stream@) == Ok::<
                Seq<u8>,
                Seq<char>,
            >(b@),
            Err(e) => write_failed(next, ErrorView::Serialization(e@)),
        },
        (WriteStep::CreateFile(stream), WriteReport::Created(made)) => match made {
            Ok(_) => next matches WriteStep::WriteFile(s) && s@ == stream@,
            Err(e) => write_failed(
                next,
                ErrorView::StorageIo("create "@ + path + ": "@ + e@),
            ),
        },
        (WriteStep::WriteFile(_), WriteReport::Written(done)) => match done {
            Ok(_) => next matches WriteStep::Done(r) && r is Ok,
            Err(e) => write_failed(next, ErrorView::StorageIo("write "@ + path + ": "@ + e@)),
        },
        _ => false,
    }
}

/// The step after a serialized object was compressed, or could not be.
pub fn compressed(stream: std::result::Result<Vec<u8>, String>) -> (next: WriteStep)
    ensures
        match stream {
            Ok(bytes) => next == WriteStep::CreateFile(bytes),
            Err(e) => write_failed(next, ErrorView::StorageIo(e@)),
        },
{
    match stream {
        Ok(bytes) => WriteStep::CreateFile(bytes),
        Err(e) => WriteStep::Done(Err(CoreError::StorageIo(e))),
    }
}

/// The step after `step`. An object that is there already is not written again.
pub fn write_object(step: WriteStep, dir: &str, path: &str, report: WriteReport) -> (next: WriteStep)
    requires
        answers_write(step, report),
    ensures
        write_follows(step, dir@, path@, report, next),
{
    match (step, report) {
        (WriteStep::CheckPresent, WriteReport::Present(present)) => if present {
            WriteStep::Done(Ok(()))
        } else {
            WriteStep::MakeDir
        },
        (WriteStep::MakeDir, WriteReport::DirMade(made)) => match made {
            Ok(_) => WriteStep::Serialize,
            Err(e) => WriteStep::Done(
                Err(CoreError::StorageIo(cat4("mkdir ", dir, ": ", e.as_str()))),
            ),
        },
        (WriteStep::Serialize, WriteReport::Serialized(bytes)) => match bytes {
            Ok(b) => compressed(deflate(b.as_slice())),
            Err(e) => WriteStep::Done(Err(CoreError::Serialization(e))),
        },
        (WriteStep::CreateFile(stream), WriteReport::Created(made)) => match made {
            Ok(_) => WriteStep::WriteFile(stream),
            Err(e) => WriteStep::Done(
                Err(CoreError::StorageIo(cat4("create ", path, ": ", e.as_str()))),
            ),
        },
        (WriteStep::WriteFile(_), WriteReport::Written(done)) => match done {
            Ok(_) => WriteStep::Done(Ok(())),
            Err(e) => WriteStep::Done(
                Err(CoreError::StorageIo(cat4("write ", path, ": ", e.as_str()))),
            ),
        },
        (other, _) => other,
    }
}

/// What to do next while an object is read.
#[derive(Debug, PartialEq, Eq)]
pub enum ReadStep {
    /// See whether the object's file is there.
    CheckPresent,
    /// Read the file.
    ReadFile,
    /// Turn these bytes into an object.
    Parse(Vec<u8>),
    /// Serialize a tag that was read, without its hash, to compute its hash anew.
    SerializeTag { unhashed: Tag, carried: String },
    /// Nothing more: the outcome.
    Done(Result<Object>),
}

/// What came of a [`ReadStep`].
#[derive(Debug, PartialEq, Eq)]
pub enum ReadReport {
    /// Whether the file is there.
    Present(bool),
    /// The contents of the file.
    Contents(std::result::Result<Vec<u8>, String>),
    /// The object.
    Parsed(std::result::Result<Object, String>),
    /// The serialized tag.
    TagSerialized(std::result::Result<Vec<u8>, String>),
}

/// Whether a report answers a step.
pub open spec fn answers_read(step: ReadStep, report: ReadReport) -> bool {
    match step {
        ReadStep::CheckPresent => report is Present,
        ReadStep::ReadFile => report is Contents,
        ReadStep::Parse(_) => report is Parsed,
        ReadStep::SerializeTag { .. } => report is TagSerialized,
        ReadStep::Done(_) => false,
    }
}

/// A failed end of a read.
pub open spec fn read_failed(step: ReadStep, e: ErrorView) -> bool {
    step matches ReadStep::Done(r) && r is Err && r->Err_0@ == e
}

/// How a read of `hash` ends with an object that carries the hash `carried` and
/// whose content has the hash `computed`: it is handed out only where both are the
/// hash that was asked for.
pub open spec fn read_ends(
    hash: Seq<char>,
    object: ObjectView,
    carried: Seq<char>,
    computed: Seq<char>,
    next: ReadStep,
) -> bool {
    if computed != hash {
        read_failed(next, mismatched(hash, computed))
    } else if carried != hash {
        read_failed(next, mismatched(hash, carried))
    } else {
        next matches ReadStep::Done(r) && r is Ok && r->Ok_0@ == object
    }
}

/// A tag that carries a hash.
pub open spec fn tag_with(tag: Tag, hash: Seq<char>) -> ObjectView {
    ObjectView::Tag {
        hash,
        commit_hash: tag.commit_hash@,
        name: tag.name@,
        annotation: match tag.message {
            Some(m) => Some(m@),
            None => None,
        },
    }
}

/// The step that follows `step` when `report` answers it, for the object with
/// the given hash whose file is shown as `path`.
pub open spec fn read_follows(
    step: ReadStep,
    hash: Seq<char>,
    path: Seq<char>,
    report: ReadReport,
    next: ReadStep,
) -> bool {
    match (step, report) {
        (ReadStep::CheckPresent, ReadReport::Present(present)) => if present {
            next is ReadFile
        } else {
            read_failed(next, ErrorView::ObjectNotFound(hash))
        },
        (ReadStep::ReadFile, ReadReport::Contents(contents)) => match contents {
            Ok(stream) => match inflated(stream@) {
                Ok(bytes) => next matches ReadStep::Parse(b) && b@ == bytes,
                Err(e) => read_failed(
                    next,
                    ErrorView::StorageIo("decompress "@ + path + ": "@ + e),
                ),
            },
            Err(e) => read_failed(next, ErrorView::StorageIo("read "@ + path + ": "@ + e@)),
        },
        (ReadStep::Parse(_), ReadReport::Parsed(parsed)) => match parsed {
            Ok(Object::Tag(tag)) => {
                &&& next is SerializeTag
                &&& next->unhashed@ == tag_with(tag, Seq::empty())
                &&& next->carried@ == tag.hash@
            },
            Ok(o) => read_ends(
                hash,
                o@,
                object_hash(o@),
                computed_hash(o@, Seq::empty()),
                next,
            ),
            Err(e) => read_failed(
                next,
                ErrorView::Serialization("deserialize "@ + path + ": "@ + e@),
            ),
        },
        (ReadStep::SerializeTag { unhashed, carried }, ReadReport::TagSerialized(form)) => match form {
            Ok(bytes) => read_ends(
                hash,
                tag_with(unhashed, carried@),
                carried@,
                blob_hash(bytes@),
                next,
            ),
            Err(e) => read_failed(next, ErrorView::Serialization(e@)),
        },
        _ => false,
    }
}

/// The end of a read, given the hash of the object's content.
fn end_read(hash: &str, object: Object, computed: String) -> (next: ReadStep)
    ensures
        read_ends(hash@, object@, object_hash(object@), computed@, next),
{
    if !str_eq(computed.as_str(), hash) {
        return ReadStep::Done(Err(mismatch(hash, computed)));
    }
    if !str_eq(object.hash().as_str(), hash) {
        let carried = object.hash().clone();
        return ReadStep::Done(Err(mismatch(hash, carried)));
    }
    ReadStep::Done(Ok(object))
}

/// The step after `step`. Only an object whose content has the hash that was asked
/// for, and that carries it, is handed out.
pub fn read_object(step: ReadStep, hash: &str, path: &str, report: ReadReport) -> (next: ReadStep)
    requires
        answers_read(step, report),
        report matches ReadReport::Parsed(Ok(o)) ==> object_valid(o@),
    ensures
        read_follows(step, hash@, path@, report, next),
{
    match (step, report) {
        (ReadStep::CheckPresent, ReadReport::Present(present)) => if present {
            ReadStep::ReadFile
        } else {
            ReadStep::Done(Err(CoreError::ObjectNotFound(String::from_str(hash))))
        },
        (ReadStep::ReadFile, ReadReport::Contents(contents)) => match contents {
            Ok(stream) => match inflate(stream.as_slice()) {
                Ok(bytes) => ReadStep::Parse(bytes),
                Err(e) => ReadStep::Done(
                    Err(CoreError::StorageIo(cat4("decompress ", path, ": ", e.as_str()))),
                ),
            },
            Err(e) => ReadStep::Done(
                Err(CoreError::StorageIo(cat4("read ", path, ": ", e.as_str()))),
            ),
        },
        (ReadStep::Parse(_), ReadReport::Parsed(parsed)) => match parsed {
            Ok(Object::Blob(blob)) => {
                let computed = hash_blob(blob.data.as_slice());
                end_read(hash, Object::Blob(blob), computed)
            },
            Ok(Object::Tree(tree)) => {
                let computed = hash_tree(tree.entries.as_slice());
                end_read(hash, Object::Tree(tree), computed)
            },
            Ok(Object::Commit(commit)) => {
                let computed = commit.computed_hash();
                end_read(hash, Object::Commit(commit), computed)
            },
            Ok(Object::Tag(tag)) => {
                let empty = String::new();
                assert(empty@ =~= Seq::<char>::empty());
                ReadStep::SerializeTag {
                    unhashed: Tag {
                        hash: empty,
                        commit_hash: tag.commit_hash,
                        name: tag.name,
                        message: tag.message,
                    },
                    carried: tag.hash,
                }
            },
            Err(e) => ReadStep::Done(
                Err(CoreError::Serialization(cat4("deserialize ", path, ": ", e.as_str()))),
            ),
        },
        (ReadStep::SerializeTag { unhashed, carried }, ReadReport::TagSerialized(form)) => match form {
            Ok(bytes) => {
                let computed = hash_blob(bytes.as_slice());
                let tag = Tag {
                    hash: carried,
                    commit_hash: unhashed.commit_hash,
                    name: unhashed.name,
                    message: unhashed.message,
                };
                end_read(hash, Object::Tag(tag), computed)
            },
            Err(e) => ReadStep::Done(Err(CoreError::Serialization(e))),
        },
        (other, _) => other,
    }
}

/// How a read of `hash` goes on to its end once its bytes were turned into
/// `object`; `form` is what a tag without its hash is serialized to.
pub open spec fn read_goes_on(
    bytes: ReadStep,
    hash: Seq<char>,
    path: Seq<char>,
    object: Object,
    form: Vec<u8>,
    end: ReadStep,
) -> bool {
    exists|next: ReadStep|
        #![trigger read_follows(bytes, hash, path, ReadReport::Parsed(Ok(object)), next)]
        {
            &&& read_follows(bytes, hash, path, ReadReport::Parsed(Ok(object)), next)
            &&& if object@ is Tag {
                read_follows(next, hash, path, ReadReport::TagSerialized(Ok(form)), end)
            } else {
                end == next
            }
        }
}

/// Whether an object carries the hash of its content.
pub open spec fn sealed(object: ObjectView, form: Seq<u8>) -> bool {
    object_hash(object) == computed_hash(object, form)
}

/// A tree that is stored carries the hash of its content, sorted as it is.
pub proof fn stored_tree_is_sealed(entries: Seq<EntryView>, form: Seq<u8>)
    ensures
        sealed(
            ObjectView::Tree { hash: tree_hash(entries), entries: sort_entries(entries) },
            form,
        ),
        names_ascend(sort_entries(entries)),
{
    tree_hash_of_sorted(entries);
    sort_entries_sorts(entries);
}

/// What is read back of a write. Let an object be written under the hash of its
/// content: its serialized form was compressed to a stream, and the file holds that
/// stream. Reading the file then yields the serialized form, and once that is
/// turned back into the object, the object itself.
pub proof fn read_gives_back_what_was_written(
    written: PendingWrite,
    object: ObjectView,
    dir: Seq<char>,
    path: Seq<char>,
    serialized: Vec<u8>,
    create: WriteStep,
    contents: Vec<u8>,
    parse: ReadStep,
    parsed: Object,
    form: Vec<u8>,
    end: ReadStep,
)
    requires
        written.stores(object),
        sealed(object, form@),
        write_follows(
            WriteStep::Serialize,
            dir,
            path,
            WriteReport::Serialized(Ok(serialized)),
            create,
        ),
        contents@ == create->CreateFile_0@,
        read_follows(
            ReadStep::ReadFile,
            written.hash@,
            path,
            ReadReport::Contents(Ok(contents)),
            parse,
        ),
        parsed@ == object,
        read_goes_on(parse, written.hash@, path, parsed, form, end),
    ensures
        create is CreateFile,
        parse is Parse,
        parse->Parse_0@ == serialized@,
        end is Done,
        end->Done_0 is Ok,
        end->Done_0->Ok_0@ == object,
{
}

/// An object whose content has another hash than the one asked for is refused,
/// whatever hash it carries, and the error names the hash of the content.
pub proof fn foreign_object_is_refused(
    hash: Seq<char>,
    path: Seq<char>,
    bytes: Vec<u8>,
    parsed: Object,
    form: Vec<u8>,
    end: ReadStep,
)
    requires
        computed_hash(parsed@, form@) != hash,
        read_goes_on(ReadStep::Parse(bytes), hash, path, parsed, form, end),
    ensures
        read_failed(end, mismatched(hash, computed_hash(parsed@, form@))),
{
}

/// The files of a store, each under the hash of its object, before and after an
/// object with the given serialized form was written under `hash`.
pub open spec fn file_written(
    before: Map<Seq<char>, Seq<u8>>,
    after: Map<Seq<char>, Seq<u8>>,
    hash: Seq<char>,
    serialized: Vec<u8>,
) -> bool {
    if before.contains_key(hash) {
        after == before
    } else {
        exists|dir: Seq<char>, path: Seq<char>, create: WriteStep|
            {
                &&& #[trigger] write_follows(
                    WriteStep::Serialize,
                    dir,
                    path,
                    WriteReport::Serialized(Ok(serialized)),
                    create,
                )
                &&& after == before.insert(hash, create->CreateFile_0@)
            }
    }
}

/// The files of a store that was filled by writes, one after the other.
pub open spec fn filled_by(
    files: Seq<Map<Seq<char>, Seq<u8>>>,
    writes: Seq<(Seq<char>, Vec<u8>)>,
) -> bool {
    &&& files.len() == writes.len() + 1
    &&& files[0] == Map::<Seq<char>, Seq<u8>>::empty()
    &&& forall|k: int|
        0 <= k < writes.len() ==> file_written(
            files[k],
            files[k + 1],
            (#[trigger] writes[k]).0,
            writes[k].1,
        )
}

/// A file is there only if something was written under its hash, and then it holds
/// what was written.
pub proof fn files_come_from_writes(
    files: Seq<Map<Seq<char>, Seq<u8>>>,
    writes: Seq<(Seq<char>, Vec<u8>)>,
    n: int,
    hash: Seq<char>,
) -> (k: int)
    requires
        filled_by(files, writes),
        0 <= n < files.len(),
        files[n].contains_key(hash),
    ensures
        0 <= k < n,
        writes[k].0 == hash,
        inflated(files[n][hash]) == Ok::<Seq<u8>, Seq<char>>(writes[k].1@),
    decreases n,
{
    let w = writes[n - 1];
    assert(file_written(files[n - 1], files[n - 1 + 1], w.0, w.1));
    if files[n - 1].contains_key(hash) {
        files_come_from_writes(files, writes, n - 1, hash)
    } else {
        assert(w.0 == hash);
        n - 1
    }
}

proof fn files_stay(
    files: Seq<Map<Seq<char>, Seq<u8>>>,
    writes: Seq<(Seq<char>, Vec<u8>)>,
    m: int,
    n: int,
    hash: Seq<char>,
)
    requires
        filled_by(files, writes),
        0 <= m <= n < files.len(),
        files[m].contains_key(hash),
    ensures
        files[n].contains_key(hash),
        files[n][hash] == files[m][hash],
    decreases n - m,
{
    if m < n {
        files_stay(files, writes, m, n - 1, hash);
        let w = writes[n - 1];
        assert(file_written(files[n - 1], files[n - 1 + 1], w.0, w.1));
    }
}

/// What was stored stays readable, whatever is stored later. Of all the writes that
/// filled a store take the one with number `i`, of an object under the hash of its
/// content. Unless something else was written under that hash before, which takes
/// two contents of one hash, a read of the hash gives the object back at any later
/// time.
pub proof fn stored_object_stays_readable(
    files: Seq<Map<Seq<char>, Seq<u8>>>,
    writes: Seq<(Seq<char>, Vec<u8>)>,
    i: int,
    later: int,
    path: Seq<char>,
    contents: Vec<u8>,
    parse: ReadStep,
    object: Object,
    form: Vec<u8>,
    end: ReadStep,
)
    requires
        filled_by(files, writes),
        0 <= i < later < files.len(),
        forall|k: int|
            0 <= k < i && (#[trigger] writes[k]).0 == writes[i].0 ==> writes[k].1@ == writes[i].1@,
        sealed(object@, form@),
        object_hash(object@) == writes[i].0,
        contents@ == files[later][writes[i].0],
        read_follows(
            ReadStep::ReadFile,
            writes[i].0,
            path,
            ReadReport::Contents(Ok(contents)),
            parse,
        ),
        read_goes_on(parse, writes[i].0, path, object, form, end),
    ensures
        files[later].contains_key(writes[i].0),
        parse is Parse,
        parse->Parse_0@ == writes[i].1@,
        end is Done,
        end->Done_0 is Ok,
        end->Done_0->Ok_0@ == object@,
{
    let hash = writes[i].0;
    assert(file_written(files[i], files[i + 1], writes[i].0, writes[i].1));
    if files[i].contains_key(hash) {
        let k = files_come_from_writes(files, writes, i, hash);
        assert(writes[k].1@ == writes[i].1@);
    }
    files_stay(files, writes, i + 1, later, hash);
}

/// A hash under which nothing was stored is not found.
pub proof fn nothing_stored_is_not_found(
    files: Seq<Map<Seq<char>, Seq<u8>>>,
    writes: Seq<(Seq<char>, Vec<u8>)>,
    hash: Seq<char>,
    path: Seq<char>,
    end: ReadStep,
)
    requires
        filled_by(files, writes),
        forall|k: int| 0 <= k < writes.len() ==> (#[trigger] writes[k]).0 != hash,
        read_follows(
            ReadStep::CheckPresent,
            hash,
            path,
            ReadReport::Present(files.last().contains_key(hash)),
            end,
        ),
    ensures
        read_failed(end, ErrorView::ObjectNotFound(hash)),
{
    if files.last().contains_key(hash) {
        let k = files_come_from_writes(files, writes, files.len() - 1, hash);
        assert(writes[k].0 == hash);
    }
}

/// Objects of different hashes lie in different files, and the directory and the file
/// together spell the hash.
pub proof fn objects_lie_apart(
    first: ObjectLocation,
    second: ObjectLocation,
    one: Seq<char>,
    other: Seq<char>,
)
    requires
        first.is_for(one),
        second.is_for(other),
        encode_utf8(one).len() >= 2,
        encode_utf8(other).len() >= 2,
    ensures
        encode_utf8(first.prefix@).len() == 2,
        encode_utf8(first.prefix@) + encode_utf8(first.rest@) == encode_utf8(one),
        first.prefix@ == second.prefix@ && first.rest@ == second.rest@ ==> one == other,
{
    assert(encode_utf8(first.prefix@) + encode_utf8(first.rest@) =~= encode_utf8(one));
    assert(encode_utf8(second.prefix@) + encode_utf8(second.rest@) =~= encode_utf8(other));
    encode_utf8_decode_utf8(one);
    encode_utf8_decode_utf8(other);
}

/// What is about to be written is the object that was given, under the hash it
/// carries.
pub proof fn pending_write_holds_the_object(w: PendingWrite, object: ObjectView)
    requires
        w.stores(object),
    ensures
        w.object@ == object,
        object matches ObjectView::Blob { hash, .. } ==> w.hash@ == hash,
        object matches ObjectView::Tree { hash, .. } ==> w.hash@ == hash,
        object matches ObjectView::Commit { hash, .. } ==> w.hash@ == hash,
        object matches ObjectView::Tag { hash, .. } ==> w.hash@ == hash,
{
}

/// Bytes are handed out only where they are those of the blob that was read and have
/// the hash that was asked for.
pub proof fn blob_handed_out_is_the_one_asked_for(hash: Seq<char>, read: Result<Object>)
    ensures
        blob_in(hash, read) matches Ok(bytes) ==> blob_hash(bytes) == hash && (read matches Ok(
            Object::Blob(b),
        ) && b.data@ == bytes),
        read matches Ok(Object::Blob(b)) ==> blob_hash(b.data@) == hash ==> blob_in(hash, read)
            == Ok::<Seq<u8>, ErrorView>(b.data@),
{
}

/// A write succeeds only where the object is there already or all its bytes were
/// written, and every failure ends it with an error.
pub proof fn write_succeeds_only_when_written(
    step: WriteStep,
    dir: Seq<char>,
    path: Seq<char>,
    report: WriteReport,
    next: WriteStep,
)
    requires
        answers_write(step, report),
        write_follows(step, dir, path, report, next),
    ensures
        next is Done && next->Done_0 is Ok ==> report == WriteReport::Present(true) || (
        report is Written && report->Written_0 is Ok),
        report is DirMade && report->DirMade_0 is Err ==> next is Done && next->Done_0 is Err,
        report is Serialized && report->Serialized_0 is Err ==> next is Done && next->Done_0 is Err,
        report is Created && report->Created_0 is Err ==> next is Done && next->Done_0 is Err,
        report is Written && report->Written_0 is Err ==> next is Done && next->Done_0 is Err,
        report == WriteReport::Present(true) ==> next is Done,
        report == WriteReport::Present(false) ==> next is MakeDir,
        next is WriteFile ==> step is CreateFile && step->CreateFile_0@ == next->WriteFile_0@,
{
}

/// A read hands out only what was parsed from the file, never where the file is
/// missing, cannot be read, or is no object.
pub proof fn read_succeeds_only_when_parsed(
    step: ReadStep,
    hash: Seq<char>,
    path: Seq<char>,
    report: ReadReport,
    next: ReadStep,
)
    requires
        answers_read(step, report),
        read_follows(step, hash, path, report, next),
    ensures
        next is Done && next->Done_0 is Ok ==> object_hash(next->Done_0->Ok_0@) == hash,
        next is Done && next->Done_0 is Ok && report is Parsed ==> report->Parsed_0 is Ok
            && report->Parsed_0->Ok_0@ == next->Done_0->Ok_0@,
        report == ReadReport::Present(false) ==> next is Done && next->Done_0 is Err
            && next->Done_0->Err_0@ == ErrorView::ObjectNotFound(hash),
        report == ReadReport::Present(true) ==> next is ReadFile,
        report is Contents && report->Contents_0 is Err ==> next is Done && next->Done_0 is Err,
        report is Parsed && report->Parsed_0 is Err ==> next is Done && next->Done_0 is Err,
{
}

} // verus!
