use vstd::prelude::*;

verus! {

use crate::assoc;
use crate::exguid::ExGuid;

/// The external blob storage: owned byte buffers keyed by identifier,
/// materialized in memory by the loading layer before resolution runs.
pub struct BlobStore {
    blobs: Vec<(ExGuid, Vec<u8>)>,
}

impl BlobStore {
    /// What the store holds under `id`.
    pub closed spec fn spec_find(self, id: ExGuid) -> Option<Vec<u8>> {
        assoc::lookup(self.blobs@, id)
    }

    /// An empty store.
    pub fn new() -> (r: BlobStore)
        ensures
            forall|id: ExGuid| r.spec_find(id) is None,
    {
        BlobStore { blobs: Vec::new() }
    }

    /// Add a blob under a fresh identifier.
    pub fn insert(&mut self, id: ExGuid, data: Vec<u8>)
        requires
            old(self).spec_find(id) is None,
        ensures
            final(self).spec_find(id) == Some(data),
            forall|id2: ExGuid| id2 != id ==> final(self).spec_find(id2) == old(self).spec_find(
                id2,
            ),
    {
        proof {
            assert forall|id2: ExGuid| id2 != id implies assoc::lookup(
                self.blobs@.push((id, data)),
                id2,
            ) == assoc::lookup(self.blobs@, id2) by {
                assoc::lemma_lookup_push(self.blobs@, (id, data), id2);
            }
            assoc::lemma_lookup_push(self.blobs@, (id, data), id);
        }
        self.blobs.push((id, data));
    }

    /// Look a blob up by identifier.
    pub fn find_blob(&self, id: ExGuid) -> (r: Option<&Vec<u8>>)
        ensures
            match r {
                Some(d) => self.spec_find(id) == Some(*d),
                None => self.spec_find(id) is None,
            },
    {
        let n = self.blobs.len();
        let mut i: usize = 0;
        proof {
            assert(self.blobs@.skip(0) =~= self.blobs@);
        }
        while i < n
            invariant
                i <= n,
                n == self.blobs@.len(),
                assoc::lookup(self.blobs@, id) == assoc::lookup(self.blobs@.skip(i as int), id),
            decreases n - i,
        {
            let entry = &self.blobs[i];
            proof {
                assert(self.blobs@.skip(i as int)[0] == self.blobs@[i as int]);
                assert(self.blobs@.skip(i as int).skip(1) =~= self.blobs@.skip(i + 1));
            }
            if entry.0 == id {
                return Some(&entry.1);
            }
            i = i + 1;
        }
        None
    }
}

} // verus!
