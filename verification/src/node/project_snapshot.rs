//! Snapshots of projects: packed into the object store, and unpacked again.
use vstd::prelude::*;
use vstd::string::*;
use crate::error::{error_message, CoreError, ErrorView, Result};
use crate::storage::objects::{blob_hash, Object, ObjectView};
use crate::storage::store::{blob_in, LocalObjectStore, PendingWrite};
use crate::text::{cat2, cat4};
use crate::types::{clone_bytes, ProjectSnapshot};

verus! {

/// What can go wrong with an archive.
#[derive(Debug, PartialEq, Eq)]
pub enum ArchiveFault {
    /// A directory could not be packed.
    Pack { dir: String, cause: String },
    /// The archive could not be completed.
    Finish { cause: String },
    /// The target directory could not be made.
    MakeDir { dir: String, cause: String },
    /// The archive could not be unpacked.
    Unpack { cause: String },
}

/// The error for a fault.
pub open spec fn archive_error(fault: ArchiveFault) -> ErrorView {
    ErrorView::Internal(
        match fault {
            ArchiveFault::Pack { dir, cause } => "tar pack "@ + dir@ + ": "@ + cause@,
            ArchiveFault::Finish { cause } => "tar finish: "@ + cause@,
            ArchiveFault::MakeDir { dir, cause } => "mkdir "@ + dir@ + ": "@ + cause@,
            ArchiveFault::Unpack { cause } => "untar: "@ + cause@,
        },
    )
}

impl ArchiveFault {
    /// The error for this fault.
    pub fn into_error(self) -> (r: CoreError)
        ensures
            r@ == archive_error(self),
    {
        CoreError::Internal(
            match self {
                ArchiveFault::Pack { dir, cause } => cat4(
                    "tar pack ",
                    dir.as_str(),
                    ": ",
                    cause.as_str(),
                ),
                ArchiveFault::Finish { cause } => cat2("tar finish: ", cause.as_str()),
                ArchiveFault::MakeDir { dir, cause } => cat4(
                    "mkdir ",
                    dir.as_str(),
                    ": ",
                    cause.as_str(),
                ),
                ArchiveFault::Unpack { cause } => cat2("untar: ", cause.as_str()),
            },
        )
    }
}

/// What is to be written to keep a packed directory in the object store.
pub fn snapshot_from_dir(packed: Result<Vec<u8>>, store: &LocalObjectStore) -> (r: Result<
    PendingWrite,
>)
    ensures
        match packed {
            Ok(bytes) => r is Ok && r->Ok_0.stores(
                ObjectView::Blob { hash: blob_hash(bytes@), data: bytes@ },
            ),
            Err(e) => r == Err::<PendingWrite, CoreError>(e),
        },
{
    match packed {
        Ok(bytes) => Ok(store.put_blob(bytes.as_slice())),
        Err(e) => Err(e),
    }
}

/// The snapshot of a directory once its archive was written. Only the hash
/// travels; the bytes stay in the store.
pub fn stored_snapshot(write: PendingWrite, written: Result<()>) -> (r: Result<ProjectSnapshot>)
    ensures
        match written {
            Ok(_) => r is Ok && r->Ok_0.hash@ == write.hash@ && r->Ok_0.tar_bytes@.len() == 0,
            Err(e) => r is Err && r->Err_0@ == e@,
        },
{
    match write.finish(written) {
        Ok(hash) => Ok(ProjectSnapshot::from_hash(hash)),
        Err(e) => Err(e),
    }
}

/// The message where the bytes of a snapshot cannot be had.
pub open spec fn snapshot_missing(hash: Seq<char>, cause: ErrorView) -> ErrorView {
    ErrorView::Internal(
        "snapshot "@ + hash + " is neither inline nor in the local CAS: "@ + error_message(cause),
    )
}

/// Whether `r` is the archive of a snapshot, where `read` is what the object store
/// holds under the snapshot's hash.
pub open spec fn extracted(
    snapshot: ProjectSnapshot,
    read: Result<Object>,
    r: Result<Vec<u8>>,
) -> bool {
    if snapshot.tar_bytes@.len() > 0 {
        r is Ok && r->Ok_0@ == snapshot.tar_bytes@
    } else {
        match blob_in(snapshot.hash@, read) {
            Ok(data) => r is Ok && r->Ok_0@ == data,
            Err(e) => r is Err && r->Err_0@ == snapshot_missing(snapshot.hash@, e),
        }
    }
}

/// The archive of a snapshot: the bytes that came with it, or else those of the
/// object store. Without either it is an error, never an empty project. `read` is
/// what the store holds under the snapshot's hash.
pub fn extract_snapshot(
    snapshot: &ProjectSnapshot,
    store: &LocalObjectStore,
    read: Result<Object>,
) -> (r: Result<Vec<u8>>)
    ensures
        extracted(*snapshot, read, r),
{
    if snapshot.tar_bytes.len() > 0 {
        return Ok(clone_bytes(snapshot.tar_bytes.as_slice()));
    }
    match store.get_blob(snapshot.hash.as_str(), read) {
        Ok(bytes) => Ok(bytes),
        Err(e) => Err(
            CoreError::Internal(
                cat4(
                    "snapshot ",
                    snapshot.hash.as_str(),
                    " is neither inline nor in the local CAS: ",
                    e.to_string().as_str(),
                ),
            ),
        ),
    }
}

/// What is extracted of a snapshot is what was packed: a snapshot goes out as a
/// hash alone, and where the store still holds the object that was written under
/// that hash, the archive comes back byte for byte.
pub proof fn packed_archive_is_extracted(
    packed: Seq<u8>,
    write: PendingWrite,
    snapshot: ProjectSnapshot,
    held: Object,
    r: Result<Vec<u8>>,
)
    requires
        write.stores(ObjectView::Blob { hash: blob_hash(packed), data: packed }),
        snapshot.hash@ == write.hash@,
        snapshot.tar_bytes@.len() == 0,
        held@ == write.object@,
        extracted(snapshot, Ok(held), r),
    ensures
        snapshot.hash@ == blob_hash(packed),
        r is Ok,
        r->Ok_0@ == packed,
{
}

/// An archive that came with its snapshot is used as it came; one from the store has
/// the snapshot's hash; and a project is never made of nothing.
pub proof fn extracted_archive_is_the_snapshots(
    snapshot: ProjectSnapshot,
    read: Result<Object>,
    r: Result<Vec<u8>>,
)
    requires
        extracted(snapshot, read, r),
    ensures
        snapshot.tar_bytes@.len() > 0 ==> r is Ok && r->Ok_0@ == snapshot.tar_bytes@,
        r is Ok && snapshot.tar_bytes@.len() == 0 ==> blob_hash(r->Ok_0@) == snapshot.hash@,
        snapshot.tar_bytes@.len() == 0 && read is Err ==> r is Err,
{
}

} // verus!
