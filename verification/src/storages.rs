//! The storage capability every backend satisfies, and the selector that
//! names the available backends.

use vstd::prelude::*;
use vstd::string::StringExecFns;

use crate::errors::RustusError;
use crate::errors::RustusResult;
use crate::file_info::FileInfo;
use crate::file_info::FileInfoView;
use crate::file_info::metadata_view;
use crate::file_info::unique_metadata_keys;
use crate::model::StoreView;
use crate::model::add_ok;
use crate::model::add_result;
use crate::model::create_result;
use crate::model::remove_result;
use crate::model::set_ok;
use crate::model::set_result;
use crate::model::store_wf;

verus! {

/// What a descriptor lookup owes: the stored descriptor for a known id, and
/// NotFound exactly for an unknown one. A backend whose underlying resource
/// fails may report IOError instead of an answer, but never in place of
/// NotFound.
pub open spec fn get_info_post(
    st: StoreView,
    id: Seq<char>,
    r: Result<FileInfoView, RustusError>,
) -> bool {
    match r {
        Ok(info) => st.contains_key(id) && info == st[id].info,
        Err(e) => {
            &&& (e == RustusError::NotFound <==> !st.contains_key(id))
            &&& (e == RustusError::NotFound || e == RustusError::IOError)
        },
    }
}

/// What a contents fetch owes: exactly the bytes confirmed so far.
pub open spec fn get_contents_post(
    st: StoreView,
    id: Seq<char>,
    r: Result<Seq<u8>, RustusError>,
) -> bool {
    match r {
        Ok(data) => st.contains_key(id) && data == st[id].data,
        Err(e) => {
            &&& (e == RustusError::NotFound <==> !st.contains_key(id))
            &&& (e == RustusError::NotFound || e == RustusError::IOError)
        },
    }
}

/// What an append owes: on success, the request met the append-only contract
/// and the store took exactly that one step; on failure, the store is
/// unchanged, an unknown id is reported as NotFound, and a violation of the
/// append-only contract as IntegrityError.
pub open spec fn add_bytes_post(
    st0: StoreView,
    st1: StoreView,
    id: Seq<char>,
    request_offset: int,
    bytes: Seq<u8>,
    r: Result<int, RustusError>,
) -> bool {
    match r {
        Ok(new_offset) => {
            &&& add_ok(st0, id, request_offset, bytes.len() as int)
            &&& st1 == add_result(st0, id, bytes)
            &&& new_offset == request_offset + bytes.len()
        },
        Err(e) => {
            &&& st1 == st0
            &&& (e == RustusError::NotFound <==> !st0.contains_key(id))
            &&& (st0.contains_key(id) && !add_ok(st0, id, request_offset, bytes.len() as int)
                ==> e == RustusError::IntegrityError)
            &&& (e == RustusError::IntegrityError ==> !add_ok(
                st0,
                id,
                request_offset,
                bytes.len() as int,
            ))
        },
    }
}

/// What a descriptor replacement owes: on success the stored descriptor is
/// the given one, verbatim, over unchanged bytes; on failure the store is
/// unchanged, with NotFound exactly for an unknown id and IntegrityError for
/// a replacement that would contradict the stored state.
pub open spec fn set_info_post(
    st0: StoreView,
    st1: StoreView,
    d: FileInfoView,
    r: Result<(), RustusError>,
) -> bool {
    match r {
        Ok(_) => set_ok(st0, d) && st1 == set_result(st0, d),
        Err(e) => {
            &&& st1 == st0
            &&& (e == RustusError::NotFound <==> !st0.contains_key(d.id))
            &&& (st0.contains_key(d.id) && !set_ok(st0, d) ==> e == RustusError::IntegrityError)
            &&& (e == RustusError::IntegrityError ==> !set_ok(st0, d))
        },
    }
}

/// What a creation owes: on success, a fresh id mapped to an empty backing
/// object and a descriptor carrying exactly the declared size and metadata;
/// on failure, nothing of the attempt remains observable.
pub open spec fn create_post(
    st0: StoreView,
    st1: StoreView,
    file_size: Option<int>,
    metadata: Option<Seq<(Seq<char>, Seq<char>)>>,
    r: Result<Seq<char>, RustusError>,
) -> bool {
    match r {
        Ok(id) => {
            &&& id.len() > 0
            &&& !st0.contains_key(id)
            &&& st1.contains_key(id)
            &&& st1 == create_result(st0, st1[id].info)
            &&& st1[id].info.id == id
            &&& st1[id].info.offset == 0
            &&& st1[id].info.deferred_size == (file_size is None)
            &&& (match file_size {
                Some(s) => st1[id].info.length == s,
                None => st1[id].info.length == 0,
            })
            &&& (match metadata {
                Some(m) => st1[id].info.metadata == m,
                None => st1[id].info.metadata == Seq::<(Seq<char>, Seq<char>)>::empty(),
            })
            &&& st1[id].info.wf()
            &&& st1[id].data.len() == 0
        },
        Err(_) => st1 == st0,
    }
}

/// What a removal owes: descriptor and bytes gone together on success, an
/// unchanged store and NotFound exactly for an unknown id on failure.
pub open spec fn remove_post(
    st0: StoreView,
    st1: StoreView,
    id: Seq<char>,
    r: Result<(), RustusError>,
) -> bool {
    match r {
        Ok(_) => st0.contains_key(id) && st1 == remove_result(st0, id),
        Err(e) => {
            &&& st1 == st0
            &&& (e == RustusError::NotFound <==> !st0.contains_key(id))
        },
    }
}

/// The capability interface every storage backend satisfies. Callers depend
/// only on this interface, never on the concrete backend.
///
/// `store` is the backend's committed state — descriptors and durable bytes,
/// keyed by id — and `inv` its internal well-formedness, which every
/// operation preserves. Each operation's contract pins the step it takes on
/// `store`, and under which inputs each error kind is reported.
pub trait Storage: Sized {
    /// The committed state: descriptors and durable bytes, keyed by id.
    spec fn store(&self) -> StoreView;

    /// Backend-internal well-formedness, preserved by every operation.
    spec fn inv(&self) -> bool;

    /// A well-formed backend's committed state satisfies the store
    /// invariant: offsets count exactly the durable bytes, descriptors are
    /// well formed, and each upload is filed under its own id.
    proof fn inv_store_wf(&self)
        requires
            self.inv(),
        ensures
            store_wf(self.store()),
    ;

    /// One-time startup hook: creates or validates whatever physical
    /// resource the backend needs. It never touches the committed uploads,
    /// and a failure is a configuration error, to be treated as fatal by the
    /// caller.
    fn prepare(&mut self) -> (r: RustusResult<()>)
        requires
            old(self).inv(),
        ensures
            final(self).inv(),
            final(self).store() == old(self).store(),
            (match r {
                Ok(_) => true,
                Err(e) => e == RustusError::ConfigurationError,
            }),
    ;

    /// Returns the stored descriptor of `file_id`, with no side effect.
    fn get_file_info(&self, file_id: &str) -> (r: RustusResult<FileInfo>)
        requires
            self.inv(),
        ensures
            get_info_post(
                self.store(),
                file_id@,
                (match r {
                    Ok(info) => Ok(info@),
                    Err(e) => Err(e),
                }),
            ),
    ;

    /// Replaces the persisted descriptor for `file_info.id` wholesale.
    fn set_file_info(&mut self, file_info: &FileInfo) -> (r: RustusResult<()>)
        requires
            old(self).inv(),
        ensures
            final(self).inv(),
            set_info_post(old(self).store(), final(self).store(), file_info@, r),
    ;

    /// Returns the bytes confirmed so far for `file_id`. An incomplete
    /// upload may be read; the caller sees the consistent prefix that has
    /// been made durable.
    fn get_contents(&self, file_id: &str) -> (r: RustusResult<Vec<u8>>)
        requires
            self.inv(),
        ensures
            get_contents_post(
                self.store(),
                file_id@,
                (match r {
                    Ok(data) => Ok(data@),
                    Err(e) => Err(e),
                }),
            ),
    ;

    /// Appends `bytes` to `file_id` at `request_offset`, strictly at the end
    /// of what is already confirmed, and returns the new offset. Bytes and
    /// offset move as one atomic step: on any failure the committed state is
    /// unchanged, so the upload stays resumable from the last confirmed
    /// offset.
    fn add_bytes(&mut self, file_id: &str, request_offset: usize, bytes: &[u8]) -> (r:
        RustusResult<usize>)
        requires
            old(self).inv(),
            request_offset + bytes@.len() <= usize::MAX,
        ensures
            final(self).inv(),
            add_bytes_post(
                old(self).store(),
                final(self).store(),
                file_id@,
                request_offset as int,
                bytes@,
                (match r {
                    Ok(new_offset) => Ok(new_offset as int),
                    Err(e) => Err(e),
                }),
            ),
    ;

    /// Generates a fresh id, materializes an empty backing object, and
    /// persists a new descriptor at offset zero with the declared size (or a
    /// deferred one) and the given metadata. Nothing of a failed creation
    /// remains observable.
    fn create_file(&mut self, file_size: Option<usize>, metadata: Option<Vec<(String, String)>>)
        -> (r: RustusResult<String>)
        requires
            old(self).inv(),
            (match metadata {
                Some(m) => unique_metadata_keys(metadata_view(m@)),
                None => true,
            }),
        ensures
            final(self).inv(),
            create_post(
                old(self).store(),
                final(self).store(),
                (match file_size {
                    Some(s) => Some(s as int),
                    None => None,
                }),
                (match metadata {
                    Some(m) => Some(metadata_view(m@)),
                    None => None,
                }),
                (match r {
                    Ok(id) => Ok(id@),
                    Err(e) => Err(e),
                }),
            ),
    ;

    /// Deletes descriptor and backing bytes together; afterwards no
    /// operation finds the id again.
    fn remove_file(&mut self, file_id: &str) -> (r: RustusResult<()>)
        requires
            old(self).inv(),
        ensures
            final(self).inv(),
            remove_post(old(self).store(), final(self).store(), file_id@, r),
    ;
}

/// The closed set of storage backends a configuration value can name.
#[derive(Clone, Copy, Debug, PartialEq, Eq, Structural)]
pub enum AvailableStores {
    /// Bytes and descriptor sidecars on a local filesystem.
    FileStorage,
    /// Bytes on a local filesystem, descriptors in an embedded relational
    /// store.
    SqliteFileStorage,
}

impl AvailableStores {
    /// Resolves a configuration token to a backend selector, exactly; an
    /// unrecognized token is a configuration error to be raised before the
    /// service starts.
    pub fn from_config(input: &str) -> (r: Result<AvailableStores, String>)
        ensures
            input@ == "file_storage"@ ==> r == Ok::<AvailableStores, String>(
                AvailableStores::FileStorage,
            ),
            input@ == "sqlite_file_storage"@ ==> r == Ok::<AvailableStores, String>(
                AvailableStores::SqliteFileStorage,
            ),
            (input@ != "file_storage"@ && input@ != "sqlite_file_storage"@) ==> (match r {
                Ok(_) => false,
                Err(m) => m@ == "Unknown storage type"@,
            }),
    {
        proof {
            reveal_strlit("file_storage");
            reveal_strlit("sqlite_file_storage");
            assert("file_storage"@ != "sqlite_file_storage"@) by {
                assert("file_storage"@.len() == 12);
                assert("sqlite_file_storage"@.len() == 19);
            }
        }
        let owned = input.to_owned();
        if owned == "file_storage".to_owned() {
            Ok(AvailableStores::FileStorage)
        } else if owned == "sqlite_file_storage".to_owned() {
            Ok(AvailableStores::SqliteFileStorage)
        } else {
            Err("Unknown storage type".to_owned())
        }
    }

    /// The selector's display name.
    pub fn name(&self) -> (r: &'static str)
        ensures
            *self == AvailableStores::FileStorage ==> r@ == "FileStorage"@,
            *self == AvailableStores::SqliteFileStorage ==> r@ == "SqliteFileStorage"@,
    {
        match self {
            AvailableStores::FileStorage => "FileStorage",
            AvailableStores::SqliteFileStorage => "SqliteFileStorage",
        }
    }
}

impl core::str::FromStr for AvailableStores {
    type Err = String;

    /// Converts a configuration string to the selector it names.
    fn from_str(input: &str) -> Result<AvailableStores, String> {
        AvailableStores::from_config(input)
    }
}

} // verus!
