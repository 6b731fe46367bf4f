//! The mathematical model of a backend's persisted state, the transition
//! each operation performs on it, and the laws those transitions obey.

use vstd::prelude::*;

use crate::errors::RustusError;
use crate::file_info::FileInfoView;
use crate::file_info::append_allowed;
use crate::file_info::replacement_allowed;

verus! {

/// Model of one stored upload: its descriptor and its durable bytes.
#[verifier::ext_equal]
pub ghost struct StoredFileView {
    /// The committed descriptor.
    pub info: FileInfoView,
    /// The bytes confirmed so far, in order of arrival.
    pub data: Seq<u8>,
}

/// Model of a backend's whole committed state, keyed by upload id.
pub type StoreView = Map<Seq<char>, StoredFileView>;

/// One stored upload is consistent: its descriptor is well formed and its
/// offset counts exactly the bytes already durable.
pub open spec fn stored_wf(f: StoredFileView) -> bool {
    &&& f.info.wf()
    &&& f.info.offset == f.data.len()
}

/// Every stored upload is consistent and filed under its own id.
pub open spec fn store_wf(st: StoreView) -> bool {
    forall|k: Seq<char>| #[trigger] st.contains_key(k) ==> stored_wf(st[k]) && st[k].info.id == k
}

/// The state after a new upload with descriptor `d` is created: an empty
/// backing object under a fresh id.
pub open spec fn create_result(st: StoreView, d: FileInfoView) -> StoreView {
    st.insert(d.id, StoredFileView { info: d, data: Seq::empty() })
}

/// An append of `n` bytes at `request_offset` to upload `id` is accepted:
/// the id is known and the request meets the append-only contract.
pub open spec fn add_ok(st: StoreView, id: Seq<char>, request_offset: int, n: int) -> bool {
    &&& st.contains_key(id)
    &&& append_allowed(st[id].info, request_offset, n)
}

/// The state after `bytes` are appended to upload `id`: the bytes join the
/// durable data and the offset advances by their count, as one step.
pub open spec fn add_result(st: StoreView, id: Seq<char>, bytes: Seq<u8>) -> StoreView {
    st.insert(
        id,
        StoredFileView {
            info: FileInfoView { offset: st[id].info.offset + bytes.len(), ..st[id].info },
            data: st[id].data + bytes,
        },
    )
}

/// A wholesale descriptor replacement by `d` is accepted: the id is known,
/// the new descriptor is well formed, it keeps the offset of the bytes that
/// are already durable (so no in-flight append is dropped or reordered), and
/// a resolved size never reverts to deferred.
pub open spec fn set_ok(st: StoreView, d: FileInfoView) -> bool {
    &&& st.contains_key(d.id)
    &&& replacement_allowed(st[d.id].info, d)
}

/// The state after the descriptor of upload `d.id` is replaced by `d`; the
/// durable bytes are untouched.
pub open spec fn set_result(st: StoreView, d: FileInfoView) -> StoreView {
    st.insert(d.id, StoredFileView { info: d, data: st[d.id].data })
}

/// The state after upload `id` is removed: descriptor and bytes are gone
/// together.
pub open spec fn remove_result(st: StoreView, id: Seq<char>) -> StoreView {
    st.remove(id)
}

/// The error owed when an append is refused: an unknown id is reported as
/// such, and everything else is an integrity violation.
pub open spec fn add_error(st: StoreView, id: Seq<char>) -> RustusError {
    if !st.contains_key(id) {
        RustusError::NotFound
    } else {
        RustusError::IntegrityError
    }
}

/// The state after the chunks are appended to upload `id`, one after the
/// other, first chunk first.
pub open spec fn apply_chunks(st: StoreView, id: Seq<char>, chunks: Seq<Seq<u8>>) -> StoreView
    decreases chunks.len(),
{
    if chunks.len() == 0 {
        st
    } else {
        apply_chunks(add_result(st, id, chunks[0]), id, chunks.drop_first())
    }
}

/// Every chunk, submitted at the offset the upload stands at when its turn
/// comes, is accepted.
pub open spec fn chunks_ok(st: StoreView, id: Seq<char>, chunks: Seq<Seq<u8>>) -> bool
    decreases chunks.len(),
{
    chunks.len() == 0 || {
        &&& add_ok(st, id, st[id].info.offset, chunks[0].len() as int)
        &&& chunks_ok(add_result(st, id, chunks[0]), id, chunks.drop_first())
    }
}

/// Appending chunks in order extends the durable bytes by exactly their
/// concatenation and advances the offset by exactly their total length;
/// every other upload is untouched.
pub proof fn lemma_chunks_extend(st: StoreView, id: Seq<char>, chunks: Seq<Seq<u8>>)
    requires
        st.contains_key(id),
    ensures
        apply_chunks(st, id, chunks).contains_key(id),
        apply_chunks(st, id, chunks)[id].data == st[id].data + chunks.flatten(),
        apply_chunks(st, id, chunks)[id].info == (FileInfoView {
            offset: st[id].info.offset + chunks.flatten().len(),
            ..st[id].info
        }),
        forall|k: Seq<char>|
            k != id ==> #[trigger] apply_chunks(st, id, chunks).contains_key(k)
                == st.contains_key(k),
        forall|k: Seq<char>|
            k != id && st.contains_key(k) ==> #[trigger] apply_chunks(st, id, chunks)[k] == st[k],
    decreases chunks.len(),
{
    if chunks.len() == 0 {
        assert(chunks.flatten() =~= Seq::<u8>::empty());
        assert(st[id].data + chunks.flatten() =~= st[id].data);
        assert(apply_chunks(st, id, chunks)[id].info =~= (FileInfoView {
            offset: st[id].info.offset + chunks.flatten().len(),
            ..st[id].info
        }));
    } else {
        let st1 = add_result(st, id, chunks[0]);
        lemma_chunks_extend(st1, id, chunks.drop_first());
        assert(chunks.flatten() == chunks[0] + chunks.drop_first().flatten());
        assert(st1[id].data + chunks.drop_first().flatten() =~= st[id].data + chunks.flatten());
        assert(apply_chunks(st, id, chunks)[id].info =~= (FileInfoView {
            offset: st[id].info.offset + chunks.flatten().len(),
            ..st[id].info
        }));
    }
}

/// For any byte sequence split into any in-order sequence of chunks,
/// submitting them starting at offset zero reconstructs the original bytes
/// exactly, and leaves the offset equal to their total length.
pub proof fn lemma_sequential_upload_reconstructs(
    st: StoreView,
    id: Seq<char>,
    chunks: Seq<Seq<u8>>,
)
    requires
        st.contains_key(id),
        st[id].data.len() == 0,
        st[id].info.offset == 0,
    ensures
        apply_chunks(st, id, chunks).contains_key(id),
        apply_chunks(st, id, chunks)[id].data == chunks.flatten(),
        apply_chunks(st, id, chunks)[id].info.offset == chunks.flatten().len(),
{
    lemma_chunks_extend(st, id, chunks);
    assert(st[id].data + chunks.flatten() =~= chunks.flatten());
}

/// Every in-order chunk submission is accepted, as long as the declared
/// length (when there is one) has room for the total.
pub proof fn lemma_in_order_chunks_accepted(st: StoreView, id: Seq<char>, chunks: Seq<Seq<u8>>)
    requires
        st.contains_key(id),
        st[id].info.deferred_size || st[id].info.offset + chunks.flatten().len()
            <= st[id].info.length,
    ensures
        chunks_ok(st, id, chunks),
    decreases chunks.len(),
{
    if chunks.len() > 0 {
        assert(chunks.flatten() == chunks[0] + chunks.drop_first().flatten());
        let st1 = add_result(st, id, chunks[0]);
        lemma_in_order_chunks_accepted(st1, id, chunks.drop_first());
    }
}

/// An append whose request offset differs from the stored offset is never
/// accepted, whatever its size.
pub proof fn lemma_wrong_offset_rejected(
    st: StoreView,
    id: Seq<char>,
    request_offset: int,
    n: int,
)
    requires
        st.contains_key(id),
        request_offset != st[id].info.offset,
    ensures
        !add_ok(st, id, request_offset, n),
        add_error(st, id) == RustusError::IntegrityError,
{
}

/// Once an upload is removed, neither a lookup nor an append of any kind
/// finds it again, and the owed error is NotFound.
pub proof fn lemma_removed_is_gone(st: StoreView, id: Seq<char>, request_offset: int, n: int)
    ensures
        !remove_result(st, id).contains_key(id),
        !add_ok(remove_result(st, id), id, request_offset, n),
        add_error(remove_result(st, id), id) == RustusError::NotFound,
{
}

/// Of two appends offered at the same request offset, at most one is
/// accepted: after the first lands (and brought at least one byte), the
/// second is refused as an integrity violation, and the durable bytes hold
/// the first chunk exactly once, at the end, with nothing interleaved.
pub proof fn lemma_duplicate_offset_rejected(
    st: StoreView,
    id: Seq<char>,
    request_offset: int,
    bytes: Seq<u8>,
    n2: int,
)
    requires
        add_ok(st, id, request_offset, bytes.len() as int),
        bytes.len() > 0,
    ensures
        !add_ok(add_result(st, id, bytes), id, request_offset, n2),
        add_error(add_result(st, id, bytes), id) == RustusError::IntegrityError,
        add_result(st, id, bytes)[id].data == st[id].data + bytes,
{
}

/// A descriptor replacement that is accepted is read back field for field by
/// the next lookup, and touches neither the stored bytes nor any other
/// upload.
pub proof fn lemma_set_then_get(st: StoreView, d: FileInfoView)
    requires
        set_ok(st, d),
    ensures
        set_result(st, d).contains_key(d.id),
        set_result(st, d)[d.id].info == d,
        set_result(st, d)[d.id].data == st[d.id].data,
        forall|k: Seq<char>|
            k != d.id ==> #[trigger] set_result(st, d).contains_key(k) == st.contains_key(k),
        forall|k: Seq<char>|
            k != d.id && st.contains_key(k) ==> #[trigger] set_result(st, d)[k] == st[k],
{
}

/// An upload's stored offset never decreases: an accepted append advances
/// it by the bytes brought, and an accepted descriptor replacement keeps it
/// exactly; only removal ends the descriptor's life.
pub proof fn lemma_offset_never_decreases(
    st: StoreView,
    id: Seq<char>,
    bytes: Seq<u8>,
    d: FileInfoView,
)
    ensures
        st.contains_key(id) ==> add_result(st, id, bytes)[id].info.offset == st[id].info.offset
            + bytes.len(),
        set_ok(st, d) ==> set_result(st, d)[d.id].info.offset == st[d.id].info.offset,
{
}

/// Creating a fresh, well-formed descriptor at offset zero preserves the
/// store invariant.
pub proof fn lemma_create_preserves_wf(st: StoreView, d: FileInfoView)
    requires
        store_wf(st),
        d.wf(),
        d.offset == 0,
    ensures
        store_wf(create_result(st, d)),
{
    let st2 = create_result(st, d);
    assert forall|k: Seq<char>| #[trigger] st2.contains_key(k) implies stored_wf(st2[k])
        && st2[k].info.id == k by {
        if k != d.id {
            assert(st.contains_key(k));
            assert(stored_wf(st[k]) && st[k].info.id == k);
            assert(st2[k] == st[k]);
        } else {
            assert(st2[k] == StoredFileView { info: d, data: Seq::empty() });
        }
    }
}

/// An accepted append preserves the store invariant: the offset keeps
/// counting exactly the durable bytes.
pub proof fn lemma_add_preserves_wf(st: StoreView, id: Seq<char>, request_offset: int, bytes: Seq<u8>)
    requires
        store_wf(st),
        add_ok(st, id, request_offset, bytes.len() as int),
    ensures
        store_wf(add_result(st, id, bytes)),
{
    let st2 = add_result(st, id, bytes);
    assert forall|k: Seq<char>| #[trigger] st2.contains_key(k) implies stored_wf(st2[k])
        && st2[k].info.id == k by {
        if k != id {
            assert(st.contains_key(k));
            assert(stored_wf(st[k]) && st[k].info.id == k);
            assert(st2[k] == st[k]);
        } else {
            assert(st.contains_key(id));
            assert(stored_wf(st[id]) && st[id].info.id == id);
        }
    }
}

/// An accepted descriptor replacement preserves the store invariant.
pub proof fn lemma_set_preserves_wf(st: StoreView, d: FileInfoView)
    requires
        store_wf(st),
        set_ok(st, d),
    ensures
        store_wf(set_result(st, d)),
{
    let st2 = set_result(st, d);
    assert forall|k: Seq<char>| #[trigger] st2.contains_key(k) implies stored_wf(st2[k])
        && st2[k].info.id == k by {
        if k != d.id {
            assert(st.contains_key(k));
            assert(stored_wf(st[k]) && st[k].info.id == k);
            assert(st2[k] == st[k]);
        } else {
            assert(st.contains_key(d.id));
            assert(stored_wf(st[d.id]) && st[d.id].info.id == d.id);
        }
    }
}

/// Removal preserves the store invariant.
pub proof fn lemma_remove_preserves_wf(st: StoreView, id: Seq<char>)
    requires
        store_wf(st),
    ensures
        store_wf(remove_result(st, id)),
{
    let st2 = remove_result(st, id);
    assert forall|k: Seq<char>| #[trigger] st2.contains_key(k) implies stored_wf(st2[k])
        && st2[k].info.id == k by {
        assert(st.contains_key(k));
        assert(stored_wf(st[k]) && st[k].info.id == k);
        assert(st2[k] == st[k]);
    }
}

} // verus!
