//! The upload descriptor: all state for one in-progress or completed upload.

use vstd::prelude::*;
use vstd::string::StringExecFns;

use crate::errors::RustusError;
use crate::errors::RustusResult;

verus! {

/// Mathematical model of one upload descriptor.
#[verifier::ext_equal]
pub ghost struct FileInfoView {
    /// Upload identifier, unique within a backend.
    pub id: Seq<char>,
    /// Bytes durably received so far.
    pub offset: int,
    /// Total expected size; meaningful only when `deferred_size` is false.
    pub length: int,
    /// Backend-defined reference to where the bytes are stored.
    pub path: Seq<char>,
    /// Creation time, in whole seconds.
    pub created_at: int,
    /// True until the client declares a final length; never reverts to true.
    pub deferred_size: bool,
    /// Client-supplied key/value pairs, preserved verbatim.
    pub metadata: Seq<(Seq<char>, Seq<char>)>,
}

impl FileInfoView {
    /// The descriptor invariant: the offset never runs past a declared
    /// length, and the storage location is always named.
    pub open spec fn wf(self) -> bool {
        &&& 0 <= self.offset
        &&& 0 <= self.length
        &&& !self.deferred_size ==> self.offset <= self.length
        &&& self.path.len() > 0
        &&& unique_metadata_keys(self.metadata)
    }
}

/// An append of `n` bytes requested at `request_offset` is within the
/// append-only contract: no gaps, no overwrites, no overrun of a declared
/// length.
pub open spec fn append_allowed(info: FileInfoView, request_offset: int, n: int) -> bool {
    &&& 0 <= n
    &&& request_offset == info.offset
    &&& (info.deferred_size || info.offset + n <= info.length)
}

/// The model of a metadata list: each pair as its character sequences.
pub open spec fn metadata_view(m: Seq<(String, String)>) -> Seq<(Seq<char>, Seq<char>)> {
    m.map(|i: int, p: (String, String)| (p.0@, p.1@))
}

/// Client metadata is a mapping: its keys are pairwise distinct.
pub open spec fn unique_metadata_keys(m: Seq<(Seq<char>, Seq<char>)>) -> bool {
    forall|a: int, b: int| 0 <= a < b < m.len() ==> (#[trigger] m[a]).0 != (#[trigger] m[b]).0
}

/// Decides whether a metadata list carries pairwise distinct keys, so that
/// it denotes a mapping.
pub fn metadata_keys_unique(m: &Vec<(String, String)>) -> (r: bool)
    ensures
        r == unique_metadata_keys(metadata_view(m@)),
{
    let ghost mv = metadata_view(m@);
    let mut i: usize = 0;
    while i < m.len()
        invariant
            i <= m@.len(),
            mv == metadata_view(m@),
            forall|a: int, b: int|
                0 <= a < b < mv.len() && a < i ==> (#[trigger] mv[a]).0 != (#[trigger] mv[b]).0,
        decreases m@.len() - i,
    {
        let mut j: usize = i + 1;
        while j < m.len()
            invariant
                i < m@.len(),
                i + 1 <= j <= m@.len(),
                mv == metadata_view(m@),
                forall|b: int| i < b < j ==> mv[i as int].0 != (#[trigger] mv[b]).0,
            decreases m@.len() - j,
        {
            if m[i].0 == m[j].0 {
                proof {
                    assert(mv[i as int].0 == m@[i as int].0@);
                    assert(mv[j as int].0 == m@[j as int].0@);
                    assert(!unique_metadata_keys(mv)) by {
                        if unique_metadata_keys(mv) {
                            assert((mv[i as int]).0 != (mv[j as int]).0);
                        }
                    }
                }
                return false;
            }
            j = j + 1;
        }
        i = i + 1;
    }
    true
}

/// Information about one stored file: everything the service needs to track
/// an upload's progress and attributes.
#[derive(Debug)]
pub struct FileInfo {
    /// Unique upload identifier.
    pub id: String,
    /// Bytes durably received so far.
    pub offset: usize,
    /// Total expected size; meaningful only when `deferred_size` is false.
    pub length: usize,
    /// Backend-defined reference to where the bytes are stored.
    pub path: String,
    /// Creation time as epoch seconds.
    pub created_at: i64,
    /// True until the client declares a final length.
    pub deferred_size: bool,
    /// Client-supplied key/value pairs, opaque to the storage layer.
    pub metadata: Vec<(String, String)>,
}

impl View for FileInfo {
    type V = FileInfoView;

    open spec fn view(&self) -> FileInfoView {
        FileInfoView {
            id: self.id@,
            offset: self.offset as int,
            length: self.length as int,
            path: self.path@,
            created_at: self.created_at as int,
            deferred_size: self.deferred_size,
            metadata: metadata_view(self.metadata@),
        }
    }
}

/// Relies on std's `SystemTime::now` and `duration_since`: whole seconds
/// since the Unix epoch, or zero for a clock set before it. Total for every
/// clock state; the value depends on the wall clock, so nothing is stated
/// of it.
#[verifier::external_body]
fn now_epoch_seconds() -> i64 {
    match std::time::SystemTime::now().duration_since(std::time::UNIX_EPOCH) {
        Ok(since_epoch) => i64::try_from(since_epoch.as_secs()).unwrap_or(i64::MAX),
        Err(_) => 0,
    }
}

impl FileInfo {
    /// Creates a fresh descriptor: offset zero, the given declared size (or a
    /// deferred one), and the given metadata (or none). The creation time is
    /// read from the wall clock.
    pub fn new(
        file_id: &str,
        file_size: Option<usize>,
        path: String,
        initial_metadata: Option<Vec<(String, String)>>,
    ) -> (r: FileInfo)
        requires
            path@.len() > 0,
            (match initial_metadata {
                Some(m) => unique_metadata_keys(metadata_view(m@)),
                None => true,
            }),
        ensures
            r@.id == file_id@,
            r@.offset == 0,
            r@.deferred_size == (file_size matches None),
            (match file_size {
                Some(s) => r@.length == s,
                None => r@.length == 0,
            }),
            r@.path == path@,
            (match initial_metadata {
                Some(m) => r@.metadata == metadata_view(m@),
                None => r@.metadata == Seq::<(Seq<char>, Seq<char>)>::empty(),
            }),
            r@.wf(),
    {
        let id = file_id.to_owned();
        let mut length: usize = 0;
        let mut deferred_size = true;
        if let Some(size) = file_size {
            length = size;
            deferred_size = false;
        }
        let metadata = match initial_metadata {
            Some(meta) => meta,
            None => Vec::new(),
        };
        proof {
            let ghost empty_view: Seq<(Seq<char>, Seq<char>)> = Seq::empty();
            if initial_metadata is None {
                assert(metadata_view(metadata@) =~= empty_view);
            }
        }
        FileInfo {
            id,
            path,
            length,
            metadata,
            deferred_size,
            offset: 0,
            created_at: now_epoch_seconds(),
        }
    }

    /// Decides whether `n` bytes offered at `request_offset` may be appended
    /// to this descriptor, and if so returns the offset the upload will stand
    /// at once they are durable. The request is rejected whenever its offset
    /// differs from the stored offset, or a declared length would be
    /// exceeded; nothing is changed by the check itself.
    pub fn check_append(&self, request_offset: usize, n: usize) -> (r: RustusResult<usize>)
        requires
            request_offset + n <= usize::MAX,
        ensures
            (match r {
                Ok(new_offset) => append_allowed(self@, request_offset as int, n as int)
                    && new_offset == self.offset + n,
                Err(e) => e == RustusError::IntegrityError && !append_allowed(
                    self@,
                    request_offset as int,
                    n as int,
                ),
            }),
    {
        if request_offset != self.offset {
            return Err(RustusError::IntegrityError);
        }
        let new_offset = request_offset + n;
        if !self.deferred_size && new_offset > self.length {
            return Err(RustusError::IntegrityError);
        }
        Ok(new_offset)
    }

    /// Decides whether `replacement` may overwrite this stored descriptor:
    /// it must be well formed, keep the offset of the bytes already durable
    /// (so no in-flight append is dropped or reordered), and never revert a
    /// resolved size to deferred. Nothing is changed by the check itself.
    pub fn check_replacement(&self, replacement: &FileInfo) -> (r: RustusResult<()>)
        ensures
            r is Ok <==> replacement_allowed(self@, replacement@),
            (match r {
                Ok(_) => true,
                Err(e) => e == RustusError::IntegrityError,
            }),
    {
        if replacement.offset != self.offset {
            return Err(RustusError::IntegrityError);
        }
        if !replacement.deferred_size && replacement.offset > replacement.length {
            return Err(RustusError::IntegrityError);
        }
        if replacement.path.as_str().is_empty() {
            return Err(RustusError::IntegrityError);
        }
        if !metadata_keys_unique(&replacement.metadata) {
            return Err(RustusError::IntegrityError);
        }
        if !self.deferred_size && replacement.deferred_size {
            return Err(RustusError::IntegrityError);
        }
        Ok(())
    }
}

/// The descriptor `d` may replace the stored descriptor `current`: it is
/// well formed, keeps the confirmed offset, and never reverts a resolved
/// size to deferred.
pub open spec fn replacement_allowed(current: FileInfoView, d: FileInfoView) -> bool {
    &&& d.wf()
    &&& d.offset == current.offset
    &&& (current.deferred_size || !d.deferred_size)
}

impl Clone for FileInfo {
    /// A deep copy whose model equals this descriptor's model.
    fn clone(&self) -> (r: Self)
        ensures
            r@ == self@,
    {
        let mut metadata: Vec<(String, String)> = Vec::new();
        let mut i: usize = 0;
        while i < self.metadata.len()
            invariant
                i <= self.metadata.len(),
                metadata@.len() == i,
                forall|j: int|
                    0 <= j < i ==> (#[trigger] metadata@[j]).0@ == self.metadata@[j].0@
                        && metadata@[j].1@ == self.metadata@[j].1@,
            decreases self.metadata.len() - i,
        {
            let pair = &self.metadata[i];
            metadata.push((pair.0.clone(), pair.1.clone()));
            i = i + 1;
        }
        proof {
            assert forall|j: int| 0 <= j < metadata@.len() implies metadata_view(metadata@)[j]
                == metadata_view(self.metadata@)[j] by {
                assert(metadata@[j].0@ == self.metadata@[j].0@);
            }
            assert(metadata_view(metadata@) =~= metadata_view(self.metadata@));
        }
        let r = FileInfo {
            id: self.id.clone(),
            offset: self.offset,
            length: self.length,
            path: self.path.clone(),
            created_at: self.created_at,
            deferred_size: self.deferred_size,
            metadata,
        };
        proof {
            assert(r@ =~= self@);
        }
        r
    }
}

} // verus!
