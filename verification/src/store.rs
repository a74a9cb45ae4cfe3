//! In-memory cache of file records and block digests, keyed by relative path, for
//! running without a database.

use vstd::prelude::*;
use crate::error::SyncError;
use crate::full_scan::BlockHash;
use crate::keyed::{Entry, entries_map, keys_of, find_key, upsert, remove_key, lemma_entries_map_at,
    lemma_entries_map_dom, lemma_entries_map_len};
use crate::types::FileRecord;

verus! {

/// What is cached of one file: its record and the digests of its blocks.
pub struct StoredFile {
    pub record: FileRecord,
    pub hashes: Vec<BlockHash>,
}

/// A copy of `r`, field for field.
pub fn copy_record(r: &FileRecord) -> (c: FileRecord)
    ensures
        c == *r,
{
    FileRecord { id: r.id, relative_path: r.relative_path.clone(), file_size: r.file_size, last_modified: r.last_modified }
}

/// A copy of `h`.
fn copy_hashes(h: &[BlockHash]) -> (c: Vec<BlockHash>)
    ensures
        c@ == h@,
{
    let mut c: Vec<BlockHash> = Vec::new();
    let mut i: usize = 0;
    while i < h.len()
        invariant
            i <= h@.len(),
            c@ == h@.take(i as int),
        decreases h@.len() - i,
    {
        c.push(h[i]);
        i += 1;
        assert(c@ =~= h@.take(i as int));
    }
    assert(h@.take(h@.len() as int) =~= h@);
    c
}

/// Records and block digests by relative path, in memory; a record stored without a row
/// id gets the next one.
pub struct MockHashStore {
    files: Vec<Entry<StoredFile>>,
    last_id: i64,
}

impl MockHashStore {
    /// The cached files by relative path.
    pub closed spec fn spec_files(&self) -> Map<Seq<char>, StoredFile> {
        entries_map(self.files@)
    }

    /// The last row id handed out.
    pub closed spec fn spec_last_id(&self) -> i64 {
        self.last_id
    }

    /// Internal consistency: one entry per path, each under its record's path.
    pub closed spec fn wf(&self) -> bool {
        &&& keys_of(self.files@).no_duplicates()
        &&& forall|i: int| 0 <= i < self.files@.len() ==> (#[trigger] self.files@[i]).key@
            == self.files@[i].value.record.relative_path@
    }

    /// An empty store that has handed out no row id.
    pub fn new() -> (s: Self)
        ensures
            s.wf(),
            s.spec_files() == Map::<Seq<char>, StoredFile>::empty(),
            s.spec_last_id() == 0,
    {
        let s = MockHashStore { files: Vec::new(), last_id: 0 };
        assert(s.spec_files() =~= Map::<Seq<char>, StoredFile>::empty());
        s
    }

    /// Every cached record, one per path, in no particular order.
    pub fn list_files(&self) -> (r: Result<Vec<FileRecord>, SyncError>)
        requires
            self.wf(),
        ensures
            r is Ok,
            r->Ok_0@.len() == self.spec_files().dom().len(),
            forall|i: int| 0 <= i < r->Ok_0@.len() ==> #[trigger] self.spec_files().dom().contains(r->Ok_0@[i].relative_path@)
                && self.spec_files()[r->Ok_0@[i].relative_path@].record == r->Ok_0@[i],
            forall|p: Seq<char>| #[trigger] self.spec_files().dom().contains(p) ==> exists|i: int|
                0 <= i < r->Ok_0@.len() && r->Ok_0@[i].relative_path@ == p,
    {
        let ghost m = self.spec_files();
        let mut out: Vec<FileRecord> = Vec::new();
        let mut i: usize = 0;
        while i < self.files.len()
            invariant
                self.wf(),
                m == entries_map(self.files@),
                i <= self.files@.len(),
                out@.len() == i,
                forall|k: int| 0 <= k < i ==> (#[trigger] out@[k]) == self.files@[k].value.record,
            decreases self.files@.len() - i,
        {
            out.push(copy_record(&self.files[i].value.record));
            i += 1;
        }
        proof {
            lemma_entries_map_len(self.files@);
            assert forall|k: int| 0 <= k < out@.len() implies #[trigger] m.dom().contains(out@[k].relative_path@)
                && m[out@[k].relative_path@].record == out@[k] by {
                lemma_entries_map_at(self.files@, k);
                assert(self.files@[k].key@ == self.files@[k].value.record.relative_path@);
            }
            assert forall|p: Seq<char>| #[trigger] m.dom().contains(p) implies exists|i: int|
                0 <= i < out@.len() && out@[i].relative_path@ == p by {
                lemma_entries_map_dom(self.files@, p);
                let i = choose|i: int| 0 <= i < self.files@.len() && self.files@[i].key@ == p;
                assert(self.files@[i].key@ == self.files@[i].value.record.relative_path@);
                assert(out@[i].relative_path@ == p);
            }
        }
        Ok(out)
    }

    /// The record cached for `rel`, if any.
    pub fn get_file(&self, rel: &str) -> (r: Option<FileRecord>)
        requires
            self.wf(),
        ensures
            r is Some <==> self.spec_files().dom().contains(rel@),
            r is Some ==> r->0 == self.spec_files()[rel@].record,
    {
        let key = rel.to_owned();
        proof {
            lemma_entries_map_dom(self.files@, rel@);
        }
        match find_key(&self.files, &key) {
            Some(i) => {
                proof {
                    lemma_entries_map_at(self.files@, i as int);
                }
                Some(copy_record(&self.files[i].value.record))
            },
            None => None,
        }
    }

    /// The block digests cached for `rel`; none when nothing is cached for it.
    pub fn get_block_hashes(&self, rel: &str) -> (r: Vec<BlockHash>)
        requires
            self.wf(),
        ensures
            r@ == if self.spec_files().dom().contains(rel@) {
                self.spec_files()[rel@].hashes@
            } else {
                Seq::<BlockHash>::empty()
            },
    {
        let key = rel.to_owned();
        proof {
            lemma_entries_map_dom(self.files@, rel@);
        }
        match find_key(&self.files, &key) {
            Some(i) => {
                proof {
                    lemma_entries_map_at(self.files@, i as int);
                }
                copy_hashes(self.files[i].value.hashes.as_slice())
            },
            None => Vec::new(),
        }
    }

    /// Caches `record` and `hashes` under the record's path, replacing what was there. A
    /// record without row id gets the next one; when the ids are used up it is refused with
    /// a generic error and nothing changes.
    pub fn save_file(&mut self, record: &FileRecord, hashes: &[BlockHash]) -> (r: Result<(), SyncError>)
        requires
            old(self).wf(),
        ensures
            final(self).wf(),
            r is Err <==> record.id is None && old(self).spec_last_id() == i64::MAX,
            r is Err ==> r->Err_0 is Generic && final(self).spec_files() == old(self).spec_files()
                && final(self).spec_last_id() == old(self).spec_last_id(),
            r is Ok ==> {
                let id = match record.id {
                    Some(id) => id,
                    None => (old(self).spec_last_id() + 1) as i64,
                };
                &&& final(self).spec_last_id() == if record.id is None { id } else { old(self).spec_last_id() }
                &&& final(self).spec_files().dom() == old(self).spec_files().dom().insert(record.relative_path@)
                &&& forall|p: Seq<char>| p != record.relative_path@ && #[trigger] old(self).spec_files().dom().contains(p)
                    ==> final(self).spec_files()[p] == old(self).spec_files()[p]
                &&& final(self).spec_files()[record.relative_path@].record == (FileRecord { id: Some(id), ..*record })
                &&& final(self).spec_files()[record.relative_path@].hashes@ == hashes@
            },
    {
        let id = match record.id {
            Some(id) => id,
            None => {
                if self.last_id == i64::MAX {
                    return Err(SyncError::generic("record ids are used up"));
                }
                self.last_id = self.last_id + 1;
                self.last_id
            },
        };
        let stored = StoredFile { record: copy_record(record).with_id(id), hashes: copy_hashes(hashes) };
        let ghost old_files = self.files@;
        let ghost sv = stored;
        upsert(&mut self.files, record.relative_path.clone(), stored);
        proof {
            assert(entries_map(self.files@) == entries_map(old_files).insert(record.relative_path@, sv));
            assert forall|i: int| 0 <= i < self.files@.len() implies (#[trigger] self.files@[i]).key@
                == self.files@[i].value.record.relative_path@ by {
                lemma_entries_map_at(self.files@, i);
                let k = self.files@[i].key@;
                if k != record.relative_path@ {
                    lemma_entries_map_dom(old_files, k);
                    let j = choose|j: int| 0 <= j < old_files.len() && old_files[j].key@ == k;
                    assert(old_files[j].key@ == old_files[j].value.record.relative_path@);
                    lemma_entries_map_at(old_files, j);
                }
            }
        }
        Ok(())
    }

    /// Forgets what is cached for `rel`.
    pub fn delete_file(&mut self, rel: &str)
        requires
            old(self).wf(),
        ensures
            final(self).wf(),
            final(self).spec_files() == old(self).spec_files().remove(rel@),
            final(self).spec_last_id() == old(self).spec_last_id(),
    {
        let ghost old_files = self.files@;
        let key = rel.to_owned();
        remove_key(&mut self.files, &key);
        proof {
            assert forall|i: int| 0 <= i < self.files@.len() implies (#[trigger] self.files@[i]).key@
                == self.files@[i].value.record.relative_path@ by {
                lemma_entries_map_at(self.files@, i);
                let k = self.files@[i].key@;
                lemma_entries_map_dom(old_files, k);
                let j = choose|j: int| 0 <= j < old_files.len() && old_files[j].key@ == k;
                assert(old_files[j].key@ == old_files[j].value.record.relative_path@);
                lemma_entries_map_at(old_files, j);
            }
        }
    }
}

} // verus!
