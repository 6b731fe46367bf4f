//! The in-memory backend: the reference implementation of the storage
//! capability, verified against the model transitions. Disk-backed backends
//! mirror the same transitions onto their medium.

use vstd::prelude::*;
use vstd::string::StringExecFns;

use crate::errors::RustusError;
use crate::errors::RustusResult;
use crate::file_info::FileInfo;
use crate::file_info::FileInfoView;
use crate::ident::dec_seq;
use crate::ident::lemma_dec_seq_injective;
use crate::ident::lemma_dec_seq_len;
use crate::ident::u64_to_dec;
use crate::model::StoreView;
use crate::model::StoredFileView;
use crate::model::add_ok;
use crate::model::add_result;
use crate::model::create_result;
use crate::model::remove_result;
use crate::model::set_ok;
use crate::model::set_result;
use crate::model::store_wf;
use crate::model::stored_wf;
use crate::storages::Storage;

verus! {

/// One upload as the in-memory backend holds it.
struct StoredFile {
    /// The committed descriptor.
    info: FileInfo,
    /// The durable bytes.
    data: Vec<u8>,
    /// The counter value the id was derived from.
    id_num: Ghost<u64>,
}

impl View for StoredFile {
    type V = StoredFileView;

    closed spec fn view(&self) -> StoredFileView {
        StoredFileView { info: self.info@, data: self.data@ }
    }
}

/// Some entry carries the id `k`.
spec fn has_id(s: Seq<StoredFile>, k: Seq<char>) -> bool {
    exists|i: int| 0 <= i < s.len() && (#[trigger] s[i]).info.id@ == k
}

/// The index of the entry carrying the id `k`.
spec fn index_of(s: Seq<StoredFile>, k: Seq<char>) -> int {
    choose|i: int| 0 <= i < s.len() && (#[trigger] s[i]).info.id@ == k
}

/// The entries carry pairwise distinct ids.
spec fn unique_ids(s: Seq<StoredFile>) -> bool {
    forall|i: int, j: int|
        0 <= i < j < s.len() ==> (#[trigger] s[i]).info.id@ != (#[trigger] s[j]).info.id@
}

/// The store the entries denote.
spec fn store_of(s: Seq<StoredFile>) -> StoreView {
    Map::new(|k: Seq<char>| has_id(s, k), |k: Seq<char>| s[index_of(s, k)]@)
}

/// With distinct ids, the entry at index `i` is exactly what the store maps
/// its id to.
proof fn lemma_store_at(s: Seq<StoredFile>, i: int)
    requires
        unique_ids(s),
        0 <= i < s.len(),
    ensures
        has_id(s, s[i].info.id@),
        store_of(s).contains_key(s[i].info.id@),
        index_of(s, s[i].info.id@) == i,
        store_of(s)[s[i].info.id@] == s[i]@,
{
    let k = s[i].info.id@;
    assert(has_id(s, k));
    let j = index_of(s, k);
    assert(0 <= j < s.len() && s[j].info.id@ == k);
    if i < j {
        assert(s[i].info.id@ != s[j].info.id@);
    } else if j < i {
        assert(s[j].info.id@ != s[i].info.id@);
    }
}

/// An id no entry carries is not in the store.
proof fn lemma_store_no_id(s: Seq<StoredFile>, k: Seq<char>)
    requires
        !has_id(s, k),
    ensures
        !store_of(s).contains_key(k),
{
}

/// Replacing the entry at `i` by one with the same id replaces exactly that
/// id's mapping in the store.
proof fn lemma_store_update(s: Seq<StoredFile>, i: int, f: StoredFile)
    requires
        unique_ids(s),
        0 <= i < s.len(),
        f.info.id@ == s[i].info.id@,
    ensures
        unique_ids(s.update(i, f)),
        store_of(s.update(i, f)) == store_of(s).insert(f.info.id@, f@),
{
    let s2 = s.update(i, f);
    let k0 = f.info.id@;
    assert forall|a: int, b: int| 0 <= a < b < s2.len() implies (#[trigger] s2[a]).info.id@ != (
    #[trigger] s2[b]).info.id@ by {
        assert(s[a].info.id@ != s[b].info.id@);
    }
    assert forall|k: Seq<char>| #[trigger] has_id(s2, k) == has_id(s, k) by {
        if has_id(s2, k) {
            let j = index_of(s2, k);
            assert(0 <= j < s2.len() && s2[j].info.id@ == k);
            assert(s[j].info.id@ == k || (j == i && k == k0));
            assert(has_id(s, k));
        }
        if has_id(s, k) {
            let j = index_of(s, k);
            assert(0 <= j < s.len() && s[j].info.id@ == k);
            assert(s2[j].info.id@ == k || (j == i && k == k0));
            if j == i {
                assert(s2[i].info.id@ == k0);
            }
            assert(has_id(s2, k));
        }
    }
    assert forall|k: Seq<char>| #[trigger] store_of(s2).contains_key(k) implies store_of(s2)[k]
        == store_of(s).insert(k0, f@)[k] by {
        let j2 = index_of(s2, k);
        assert(0 <= j2 < s2.len() && s2[j2].info.id@ == k);
        if k == k0 {
            if j2 != i {
                assert(s2[i].info.id@ == k0);
                if j2 < i {
                    assert(s2[j2].info.id@ != s2[i].info.id@);
                } else {
                    assert(s2[i].info.id@ != s2[j2].info.id@);
                }
            }
            assert(j2 == i);
            assert(store_of(s2)[k] == f@);
        } else {
            assert(j2 != i);
            assert(s2[j2] == s[j2]);
            lemma_store_at(s, j2);
            assert(store_of(s)[k] == s[j2]@);
            assert(store_of(s2)[k] == s2[j2]@);
        }
    }
    assert(store_of(s2) =~= store_of(s).insert(k0, f@));
}

/// Appending an entry with a fresh id adds exactly that id's mapping to the
/// store.
proof fn lemma_store_push(s: Seq<StoredFile>, f: StoredFile)
    requires
        unique_ids(s),
        !has_id(s, f.info.id@),
    ensures
        unique_ids(s.push(f)),
        store_of(s.push(f)) == store_of(s).insert(f.info.id@, f@),
{
    let s2 = s.push(f);
    let k0 = f.info.id@;
    let n = s.len() as int;
    assert forall|a: int, b: int| 0 <= a < b < s2.len() implies (#[trigger] s2[a]).info.id@ != (
    #[trigger] s2[b]).info.id@ by {
        if b < n {
            assert(s[a].info.id@ != s[b].info.id@);
        } else {
            assert(s2[b] == f);
            if s[a].info.id@ == k0 {
                assert(has_id(s, k0));
                assert(false);
            }
        }
    }
    assert forall|k: Seq<char>| #[trigger] has_id(s2, k) == (has_id(s, k) || k == k0) by {
        if has_id(s2, k) {
            let j = index_of(s2, k);
            assert(0 <= j < s2.len() && s2[j].info.id@ == k);
            if j < n {
                assert(s[j].info.id@ == k);
                assert(has_id(s, k));
            }
        }
        if has_id(s, k) {
            let j = index_of(s, k);
            assert(0 <= j < s.len() && s[j].info.id@ == k);
            assert(s2[j].info.id@ == k);
            assert(has_id(s2, k));
        }
        if k == k0 {
            assert(s2[n].info.id@ == k);
            assert(has_id(s2, k));
        }
    }
    assert forall|k: Seq<char>| #[trigger] store_of(s2).contains_key(k) implies store_of(s2)[k]
        == store_of(s).insert(k0, f@)[k] by {
        let j2 = index_of(s2, k);
        assert(0 <= j2 < s2.len() && s2[j2].info.id@ == k);
        if k == k0 {
            if j2 < n {
                assert(s[j2].info.id@ == k0);
                assert(has_id(s, k0));
                assert(false);
            }
            assert(store_of(s2)[k] == f@);
        } else {
            assert(j2 != n);
            assert(s2[j2] == s[j2]);
            lemma_store_at(s, j2);
            assert(store_of(s)[k] == s[j2]@);
            assert(store_of(s2)[k] == s2[j2]@);
        }
    }
    assert(store_of(s2) =~= store_of(s).insert(k0, f@));
}

/// Removing the entry at `i` removes exactly its id's mapping from the
/// store.
proof fn lemma_store_remove(s: Seq<StoredFile>, i: int)
    requires
        unique_ids(s),
        0 <= i < s.len(),
    ensures
        unique_ids(s.remove(i)),
        store_of(s.remove(i)) == store_of(s).remove(s[i].info.id@),
{
    let s2 = s.remove(i);
    let k0 = s[i].info.id@;
    assert forall|a: int, b: int| 0 <= a < b < s2.len() implies (#[trigger] s2[a]).info.id@ != (
    #[trigger] s2[b]).info.id@ by {
        let a0: int = if a < i { a } else { a + 1 };
        let b0: int = if b < i { b } else { b + 1 };
        assert(s2[a] == s[a0] && s2[b] == s[b0]);
        assert(s[a0].info.id@ != s[b0].info.id@);
    }
    assert forall|k: Seq<char>| #[trigger] has_id(s2, k) == (has_id(s, k) && k != k0) by {
        if has_id(s2, k) {
            let j = index_of(s2, k);
            assert(0 <= j < s2.len() && s2[j].info.id@ == k);
            let j0: int = if j < i { j } else { j + 1 };
            assert(s2[j] == s[j0]);
            assert(s[j0].info.id@ == k);
            assert(has_id(s, k));
            if j0 < i {
                assert(s[j0].info.id@ != s[i].info.id@);
            } else {
                assert(j0 > i);
                assert(s[i].info.id@ != s[j0].info.id@);
            }
        }
        if has_id(s, k) && k != k0 {
            let j = index_of(s, k);
            assert(0 <= j < s.len() && s[j].info.id@ == k);
            assert(j != i);
            if j < i {
                assert(s2[j] == s[j]);
                assert(has_id(s2, k));
            } else {
                assert(s2[j - 1] == s[j]);
                assert(has_id(s2, k));
            }
        }
    }
    assert forall|k: Seq<char>| #[trigger] store_of(s2).contains_key(k) implies store_of(s2)[k]
        == store_of(s).remove(k0)[k] by {
        let j = index_of(s2, k);
        assert(0 <= j < s2.len() && s2[j].info.id@ == k);
        let j0: int = if j < i { j } else { j + 1 };
        assert(s2[j] == s[j0]);
        lemma_store_at(s, j0);
        assert(store_of(s)[k] == s[j0]@);
        assert(store_of(s2)[k] == s2[j]@);
    }
    assert(store_of(s2) =~= store_of(s).remove(k0));
}

/// A byte-for-byte copy.
fn clone_bytes(v: &Vec<u8>) -> (r: Vec<u8>)
    ensures
        r@ == v@,
{
    let mut r: Vec<u8> = Vec::new();
    let mut i: usize = 0;
    while i < v.len()
        invariant
            i <= v@.len(),
            r@ == v@.subrange(0, i as int),
        decreases v@.len() - i,
    {
        r.push(v[i]);
        proof {
            assert(r@ =~= v@.subrange(0, i + 1));
        }
        i = i + 1;
    }
    proof {
        assert(r@ =~= v@);
    }
    r
}

/// Appends a byte slice to a vector.
fn append_slice(v: &mut Vec<u8>, bytes: &[u8])
    ensures
        final(v)@ == old(v)@ + bytes@,
{
    let mut i: usize = 0;
    while i < bytes.len()
        invariant
            i <= bytes@.len(),
            v@ == old(v)@ + bytes@.subrange(0, i as int),
        decreases bytes@.len() - i,
    {
        let b = bytes[i];
        v.push(b);
        proof {
            assert(v@ =~= old(v)@ + bytes@.subrange(0, i + 1));
        }
        i = i + 1;
    }
    proof {
        assert(v@ =~= old(v)@ + bytes@);
    }
}

/// Finds the entry carrying `file_id`, if any.
fn find_index(files: &Vec<StoredFile>, file_id: &str) -> (r: Option<usize>)
    ensures
        (match r {
            Some(i) => i < files@.len() && files@[i as int].info.id@ == file_id@,
            None => !has_id(files@, file_id@),
        }),
{
    let key = file_id.to_owned();
    let mut i: usize = 0;
    while i < files.len()
        invariant
            i <= files@.len(),
            key@ == file_id@,
            forall|j: int| 0 <= j < i ==> (#[trigger] files@[j]).info.id@ != file_id@,
        decreases files@.len() - i,
    {
        if files[i].info.id == key {
            return Some(i);
        }
        i = i + 1;
    }
    proof {
        if has_id(files@, file_id@) {
            let j = index_of(files@, file_id@);
            assert(0 <= j < files@.len() && files@[j].info.id@ == file_id@);
            assert(false);
        }
    }
    None
}

/// A fully in-memory storage backend, the executable form of the model:
/// every operation is verified to take exactly the model's transition.
pub struct MemoryStorage {
    files: Vec<StoredFile>,
    next_id: u64,
}

impl MemoryStorage {
    /// An empty backend: no uploads, identifiers starting from zero.
    pub fn new() -> (r: MemoryStorage)
        ensures
            r.inv(),
            r.store() == Map::<Seq<char>, StoredFileView>::empty(),
            r.id_space_left(),
    {
        let r = MemoryStorage { files: Vec::new(), next_id: 0 };
        proof {
            assert forall|k: Seq<char>| !(#[trigger] has_id(r.files@, k)) by {
                if has_id(r.files@, k) {
                    let j = index_of(r.files@, k);
                    assert(0 <= j < r.files@.len());
                }
            }
            assert(store_of(r.files@) =~= Map::<Seq<char>, StoredFileView>::empty());
        }
        r
    }

    /// The identifier counter has room for another upload. It never runs out
    /// in practice; it is here so that `create_file` can state exactly when
    /// it succeeds.
    pub closed spec fn id_space_left(&self) -> bool {
        self.next_id < u64::MAX
    }
}

impl Storage for MemoryStorage {
    closed spec fn store(&self) -> StoreView {
        store_of(self.files@)
    }

    closed spec fn inv(&self) -> bool {
        &&& unique_ids(self.files@)
        &&& forall|i: int|
            0 <= i < self.files@.len() ==> stored_wf((#[trigger] self.files@[i])@)
        &&& forall|i: int|
            0 <= i < self.files@.len() ==> (#[trigger] self.files@[i]).id_num@ < self.next_id
                && self.files@[i].info.id@ == dec_seq(self.files@[i].id_num@ as int)
    }

    proof fn inv_store_wf(&self) {
        let s = self.files@;
        assert forall|k: Seq<char>| #[trigger] store_of(s).contains_key(k) implies stored_wf(
            store_of(s)[k],
        ) && store_of(s)[k].info.id == k by {
            let j = index_of(s, k);
            assert(0 <= j < s.len() && s[j].info.id@ == k);
            assert(store_of(s)[k] == s[j]@);
            assert(stored_wf(s[j]@));
        }
    }

    /// Nothing to set up: an in-memory backend is always ready.
    fn prepare(&mut self) -> (r: RustusResult<()>)
        ensures
            r is Ok,
    {
        Ok(())
    }

    /// A lookup succeeds for every stored id.
    fn get_file_info(&self, file_id: &str) -> (r: RustusResult<FileInfo>)
        ensures
            r is Ok <==> self.store().contains_key(file_id@),
    {
        match find_index(&self.files, file_id) {
            Some(i) => {
                proof {
                    lemma_store_at(self.files@, i as int);
                }
                Ok(self.files[i].info.clone())
            },
            None => {
                proof {
                    lemma_store_no_id(self.files@, file_id@);
                }
                Err(RustusError::NotFound)
            },
        }
    }

    /// A replacement succeeds exactly when the model accepts it.
    fn set_file_info(&mut self, file_info: &FileInfo) -> (r: RustusResult<()>)
        ensures
            r is Ok <==> set_ok(old(self).store(), file_info@),
    {
        let ghost s0 = self.files@;
        match find_index(&self.files, file_info.id.as_str()) {
            None => {
                proof {
                    lemma_store_no_id(s0, file_info.id@);
                }
                Err(RustusError::NotFound)
            },
            Some(i) => {
                proof {
                    lemma_store_at(s0, i as int);
                }
                if let Err(e) = self.files[i].info.check_replacement(file_info) {
                    return Err(e);
                }
                let data = clone_bytes(&self.files[i].data);
                let entry = StoredFile {
                    info: file_info.clone(),
                    data,
                    id_num: Ghost(self.files@[i as int].id_num@),
                };
                proof {
                    lemma_store_update(s0, i as int, entry);
                }
                self.files[i] = entry;
                proof {
                    assert(store_of(self.files@) =~= set_result(store_of(s0), file_info@));
                }
                Ok(())
            },
        }
    }

    /// A fetch succeeds for every stored id.
    fn get_contents(&self, file_id: &str) -> (r: RustusResult<Vec<u8>>)
        ensures
            r is Ok <==> self.store().contains_key(file_id@),
    {
        match find_index(&self.files, file_id) {
            Some(i) => {
                proof {
                    lemma_store_at(self.files@, i as int);
                }
                Ok(clone_bytes(&self.files[i].data))
            },
            None => {
                proof {
                    lemma_store_no_id(self.files@, file_id@);
                }
                Err(RustusError::NotFound)
            },
        }
    }

    /// An append succeeds exactly when the model accepts it.
    fn add_bytes(&mut self, file_id: &str, request_offset: usize, bytes: &[u8]) -> (r:
        RustusResult<usize>)
        ensures
            r is Ok <==> add_ok(
                old(self).store(),
                file_id@,
                request_offset as int,
                bytes@.len() as int,
            ),
    {
        let ghost s0 = self.files@;
        match find_index(&self.files, file_id) {
            None => {
                proof {
                    lemma_store_no_id(s0, file_id@);
                }
                Err(RustusError::NotFound)
            },
            Some(i) => {
                proof {
                    lemma_store_at(s0, i as int);
                }
                match self.files[i].info.check_append(request_offset, bytes.len()) {
                    Err(e) => Err(e),
                    Ok(new_offset) => {
                        let mut data = clone_bytes(&self.files[i].data);
                        append_slice(&mut data, bytes);
                        let mut info = self.files[i].info.clone();
                        info.offset = new_offset;
                        let entry = StoredFile {
                            info,
                            data,
                            id_num: Ghost(self.files@[i as int].id_num@),
                        };
                        proof {
                            assert(entry@.info =~= (FileInfoView {
                                offset: s0[i as int]@.info.offset + bytes@.len(),
                                ..s0[i as int]@.info
                            }));
                            lemma_store_update(s0, i as int, entry);
                        }
                        self.files[i] = entry;
                        proof {
                            assert(store_of(self.files@) =~= add_result(
                                store_of(s0),
                                file_id@,
                                bytes@,
                            ));
                        }
                        Ok(new_offset)
                    },
                }
            },
        }
    }

    /// Creation succeeds as long as the identifier counter has room; the
    /// id handed out is the decimal form of a counter no earlier upload
    /// received, so it is fresh.
    fn create_file(&mut self, file_size: Option<usize>, metadata: Option<Vec<(String, String)>>)
        -> (r: RustusResult<String>)
        ensures
            r is Ok <==> old(self).id_space_left(),
            (r matches Err(e) ==> e == RustusError::IOError),
    {
        let ghost s0 = self.files@;
        if self.next_id == u64::MAX {
            return Err(RustusError::IOError);
        }
        let n = self.next_id;
        let id = u64_to_dec(n);
        let mut path = "mem://".to_owned();
        path.append(id.as_str());
        proof {
            reveal_strlit("mem://");
            assert(path@.len() > 0);
        }
        let info = FileInfo::new(id.as_str(), file_size, path, metadata);
        let entry = StoredFile { info, data: Vec::new(), id_num: Ghost(n) };
        proof {
            lemma_dec_seq_len(n as int);
            assert forall|j: int| 0 <= j < s0.len() implies (#[trigger] s0[j]).info.id@ != id@ by {
                if s0[j].info.id@ == id@ {
                    lemma_dec_seq_injective(s0[j].id_num@ as int, n as int);
                }
            }
            if has_id(s0, id@) {
                let j = index_of(s0, id@);
                assert(0 <= j < s0.len() && s0[j].info.id@ == id@);
                assert(false);
            }
            lemma_store_push(s0, entry);
        }
        self.files.push(entry);
        self.next_id = n + 1;
        proof {
            assert(store_of(self.files@) =~= create_result(store_of(s0), entry@.info));
        }
        Ok(id)
    }

    /// Removal succeeds for every stored id.
    fn remove_file(&mut self, file_id: &str) -> (r: RustusResult<()>)
        ensures
            r is Ok <==> old(self).store().contains_key(file_id@),
    {
        let ghost s0 = self.files@;
        match find_index(&self.files, file_id) {
            None => {
                proof {
                    lemma_store_no_id(s0, file_id@);
                }
                Err(RustusError::NotFound)
            },
            Some(i) => {
                proof {
                    lemma_store_at(s0, i as int);
                    lemma_store_remove(s0, i as int);
                }
                self.files.remove(i);
                proof {
                    assert(store_of(self.files@) =~= remove_result(store_of(s0), file_id@));
                }
                Ok(())
            },
        }
    }
}

} // verus!
