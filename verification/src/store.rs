//! The block store: files keyed by derived path, deduplicating on
//! write and failing fast with a distinguished error on a missing read.
//!
//! The in-memory store below is laid out exactly like the on-disk one —
//! a set of files, each under the path the deriver gives its reference —
//! so the write and read rules proved here are the store's semantics;
//! an on-disk backend only adds the filesystem calls.

use crate::paths::{path_of, push_all, reference_to_path};
use vstd::prelude::*;

verus! {

/// Why a store operation failed.
#[derive(Clone, Copy, Debug, PartialEq, Eq, Structural)]
pub enum StorageErrorKind {
    /// The requested block is absent from the store.
    NotFound,
    /// The underlying storage failed for another reason.
    IoError,
}

/// A failed store operation: its kind and a human-readable message.
#[derive(Debug)]
pub struct StorageError {
    pub kind: StorageErrorKind,
    pub message: String,
}

/// A block paired with the reference the codec derived for it: the unit
/// handed to the store on write.
pub struct BlockWithReference {
    pub block: Vec<u8>,
    pub reference: [u8; 32],
}

/// One stored file: its full derived path and the block bytes.
#[derive(Clone)]
pub struct StoredBlock {
    pub path: Vec<u8>,
    pub data: Vec<u8>,
}

/// The bytes stored under path `p`, if any: later entries shadow
/// earlier ones, though a well-formed store never has two with one path.
pub open spec fn find_in(s: Seq<StoredBlock>, p: Seq<u8>) -> Option<Seq<u8>>
    decreases s.len(),
{
    if s.len() == 0 {
        None
    } else if s.last().path@ == p {
        Some(s.last().data@)
    } else {
        find_in(s.drop_last(), p)
    }
}

/// How many entries sit under path `p`.
pub open spec fn count_in(s: Seq<StoredBlock>, p: Seq<u8>) -> nat
    decreases s.len(),
{
    if s.len() == 0 {
        0
    } else if s.last().path@ == p {
        count_in(s.drop_last(), p) + 1
    } else {
        count_in(s.drop_last(), p)
    }
}

/// No two entries share a path.
pub open spec fn distinct_paths(s: Seq<StoredBlock>) -> bool {
    forall|i: int, j: int| 0 <= i < j < s.len() ==> s[i].path@ != s[j].path@
}

/// What one write leaves behind: nothing changes when the path is
/// already present, else exactly one entry with the block's bytes is
/// appended under it.
pub open spec fn put_step(s0: Seq<StoredBlock>, s1: Seq<StoredBlock>, p: Seq<u8>, d: Seq<u8>) -> bool {
    if find_in(s0, p) is Some {
        s1 == s0
    } else {
        s1.len() == s0.len() + 1 && s1.drop_last() == s0 && s1.last().path@ == p
            && s1.last().data@ == d
    }
}

/// An entry that matches at position `i` of a well-formed store is the
/// one `find_in` returns.
proof fn lemma_find_at(s: Seq<StoredBlock>, p: Seq<u8>, i: int)
    requires
        distinct_paths(s),
        0 <= i < s.len(),
        s[i].path@ == p,
    ensures
        find_in(s, p) == Some(s[i].data@),
    decreases s.len(),
{
    if i == s.len() - 1 {
    } else {
        assert(s.drop_last()[i] == s[i]);
        lemma_find_at(s.drop_last(), p, i);
    }
}

/// When no entry matches, `find_in` reports absence.
proof fn lemma_find_none(s: Seq<StoredBlock>, p: Seq<u8>)
    requires
        forall|i: int| 0 <= i < s.len() ==> s[i].path@ != p,
    ensures
        find_in(s, p) is None,
    decreases s.len(),
{
    if s.len() > 0 {
        lemma_find_none(s.drop_last(), p);
    }
}

/// In a well-formed store a path is present exactly when one entry
/// holds it.
proof fn lemma_find_count(s: Seq<StoredBlock>, p: Seq<u8>)
    requires
        distinct_paths(s),
    ensures
        find_in(s, p) is Some <==> count_in(s, p) == 1,
        find_in(s, p) is None <==> count_in(s, p) == 0,
    decreases s.len(),
{
    if s.len() > 0 {
        lemma_find_count(s.drop_last(), p);
        if s.last().path@ == p {
            assert forall|i: int| 0 <= i < s.len() - 1 implies s.drop_last()[i].path@ != p by {
                assert(s[i] == s.drop_last()[i]);
                assert(s[i].path@ != s[s.len() - 1].path@);
            }
            lemma_find_none(s.drop_last(), p);
        }
    }
}

/// Appending an entry under another path changes neither lookups nor
/// counts elsewhere.
proof fn lemma_find_push(s: Seq<StoredBlock>, b: StoredBlock, q: Seq<u8>)
    requires
        b.path@ != q,
    ensures
        find_in(s.push(b), q) == find_in(s, q),
        count_in(s.push(b), q) == count_in(s, q),
{
    assert(s.push(b).drop_last() =~= s);
}

/// Idempotence of the write rule: a second write of the same block
/// changes nothing, and one matching entry holding the block's bytes
/// remains. The store is assumed well formed and free of a clashing
/// entry under the block's path, which is what content addressing
/// grants: an entry already under that path holds the same bytes.
pub proof fn lemma_put_idempotent(
    s0: Seq<StoredBlock>,
    s1: Seq<StoredBlock>,
    s2: Seq<StoredBlock>,
    p: Seq<u8>,
    d: Seq<u8>,
)
    requires
        distinct_paths(s0),
        find_in(s0, p) is None || find_in(s0, p) == Some(d),
        put_step(s0, s1, p, d),
        put_step(s1, s2, p, d),
    ensures
        s2 == s1,
        find_in(s1, p) == Some(d),
        count_in(s1, p) == 1,
{
    if find_in(s0, p) is Some {
        lemma_find_count(s0, p);
    } else {
        assert(s1.last().path@ == p);
        assert(find_in(s1, p) == Some(d));
        assert(s1 =~= s0.push(s1.last()));
        lemma_find_count(s0, p);
        assert(count_in(s1, p) == count_in(s0, p) + 1);
    }
}

/// An in-memory block store over a root directory.
pub struct MemStore {
    pub root: Vec<u8>,
    pub entries: Vec<StoredBlock>,
}

impl MemStore {
    /// Every stored file sits under a distinct path.
    pub open spec fn wf(&self) -> bool {
        distinct_paths(self.entries@)
    }

    /// An empty store rooted at the given directory.
    pub fn new(root: Vec<u8>) -> (r: MemStore)
        ensures
            r.wf(),
            r.root@ == root@,
            r.entries@.len() == 0,
    {
        MemStore { root, entries: Vec::new() }
    }

    /// How many blocks the store holds.
    pub fn num_blocks(&self) -> (n: usize)
        ensures
            n == self.entries@.len(),
    {
        self.entries.len()
    }

    /// The derived path of the stored block at position `i`.
    pub fn path_at(&self, i: usize) -> (r: &Vec<u8>)
        requires
            i < self.entries@.len(),
        ensures
            r@ == self.entries@[i as int].path@,
    {
        &self.entries[i].path
    }

    /// The bytes of the stored block at position `i`.
    pub fn data_at(&self, i: usize) -> (r: &Vec<u8>)
        requires
            i < self.entries@.len(),
        ensures
            r@ == self.entries@[i as int].data@,
    {
        &self.entries[i].data
    }

    /// The index of the entry under path `p`, if one is present.
    fn find_index(&self, p: &[u8]) -> (r: Option<usize>)
        requires
            self.wf(),
        ensures
            match r {
                Some(i) => i < self.entries@.len() && self.entries@[i as int].path@ == p@
                    && find_in(self.entries@, p@) == Some(self.entries@[i as int].data@),
                None => find_in(self.entries@, p@) is None,
            },
    {
        let mut i: usize = 0;
        while i < self.entries.len()
            invariant
                self.wf(),
                i <= self.entries@.len(),
                forall|k: int| 0 <= k < i ==> self.entries@[k].path@ != p@,
            decreases self.entries@.len() - i,
        {
            if bytes_eq(self.entries[i].path.as_slice(), p) {
                proof {
                    lemma_find_at(self.entries@, p@, i as int);
                }
                return Some(i);
            }
            i += 1;
        }
        proof {
            lemma_find_none(self.entries@, p@);
        }
        None
    }

    /// Writes a block under the path derived from its reference. When a
    /// file already sits there the call is a no-op that still reports
    /// the block's length as written: equal reference is trusted to
    /// mean equal content, so nothing is re-read or compared. The
    /// in-memory backend itself never fails.
    pub fn put(&mut self, bwr: &BlockWithReference) -> (r: Result<usize, StorageError>)
        requires
            old(self).wf(),
        ensures
            final(self).wf(),
            final(self).root@ == old(self).root@,
            r matches Ok(n) && n == bwr.block@.len(),
            put_step(
                old(self).entries@,
                final(self).entries@,
                path_of(old(self).root@, bwr.reference@),
                bwr.block@,
            ),
            find_in(final(self).entries@, path_of(old(self).root@, bwr.reference@)) is Some,
            forall|q: Seq<u8>|
                q != path_of(old(self).root@, bwr.reference@) ==> find_in(
                    final(self).entries@,
                    q,
                ) == find_in(old(self).entries@, q),
    {
        let path = reference_to_path(self.root.as_slice(), &bwr.reference);
        let len = bwr.block.len();
        match self.find_index(path.as_slice()) {
            Some(_) => Ok(len),
            None => {
                let mut data: Vec<u8> = Vec::new();
                push_all(&mut data, bwr.block.as_slice());
                let entry = StoredBlock { path, data };
                proof {
                    let s = self.entries@;
                    let b = entry;
                    assert forall|q: Seq<u8>| q != b.path@ implies find_in(s.push(b), q)
                        == find_in(s, q) by {
                        lemma_find_push(s, b, q);
                    }
                    assert(s.push(b).drop_last() =~= s);
                    assert forall|i: int, j: int| 0 <= i < j < s.push(b).len() implies s.push(
                        b,
                    )[i].path@ != s.push(b)[j].path@ by {
                        if j < s.len() {
                        } else {
                            if find_in(s, s[i].path@) is None {
                                lemma_find_at(s, s[i].path@, i);
                            }
                        }
                    }
                }
                self.entries.push(entry);
                Ok(len)
            },
        }
    }

    /// Reads the block stored under the derived path of `reference`,
    /// whole and by value. A reference never written is reported as
    /// `NotFound` — never as `IoError`, which the in-memory backend
    /// cannot produce at all.
    pub fn get(&self, reference: &[u8; 32]) -> (r: Result<Vec<u8>, StorageError>)
        requires
            self.wf(),
        ensures
            match r {
                Ok(data) => find_in(self.entries@, path_of(self.root@, reference@)) == Some(
                    data@,
                ),
                Err(e) => find_in(self.entries@, path_of(self.root@, reference@)) is None
                    && e.kind == StorageErrorKind::NotFound,
            },
            r is Ok <==> find_in(self.entries@, path_of(self.root@, reference@)) is Some,
    {
        let path = reference_to_path(self.root.as_slice(), reference);
        match self.find_index(path.as_slice()) {
            Some(i) => {
                let mut data: Vec<u8> = Vec::new();
                push_all(&mut data, self.entries[i].data.as_slice());
                Ok(data)
            },
            None => Err(
                StorageError {
                    kind: StorageErrorKind::NotFound,
                    message: "block not found in store".to_string(),
                },
            ),
        }
    }
}

/// Whether two byte slices hold the same bytes.
pub fn bytes_eq(a: &[u8], b: &[u8]) -> (r: bool)
    ensures
        r == (a@ == b@),
{
    if a.len() != b.len() {
        return false;
    }
    let mut i: usize = 0;
    while i < a.len()
        invariant
            i <= a.len(),
            a@.len() == b@.len(),
            forall|k: int| 0 <= k < i ==> a@[k] == b@[k],
        decreases a.len() - i,
    {
        if a[i] != b[i] {
            return false;
        }
        i += 1;
    }
    proof {
        assert(a@ =~= b@);
    }
    true
}

} // verus!
