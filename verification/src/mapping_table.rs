use vstd::prelude::*;

verus! {

use crate::assoc;
use crate::exguid::ExGuid;

/// The per-node cross-reference mapping table: it pairs each
/// property-declared reference identifier with its resolved target, split
/// into two independent buckets. Built once at resolution time, read-only
/// afterward.
#[derive(Debug)]
pub struct MappingTable {
    objects: Vec<(ExGuid, ExGuid)>,
    object_spaces: Vec<(ExGuid, ExGuid)>,
}

impl MappingTable {
    /// The combined object-and-context bucket, in insertion order.
    pub closed spec fn spec_objects(self) -> Seq<(ExGuid, ExGuid)> {
        self.objects@
    }

    /// The cross-object-space bucket, in insertion order.
    pub closed spec fn spec_object_spaces(self) -> Seq<(ExGuid, ExGuid)> {
        self.object_spaces@
    }

    /// Build a table from the two buckets' entries.
    pub fn from_entries(
        objects: Vec<(ExGuid, ExGuid)>,
        object_spaces: Vec<(ExGuid, ExGuid)>,
    ) -> (r: MappingTable)
        ensures
            r.spec_objects() == objects@,
            r.spec_object_spaces() == object_spaces@,
    {
        MappingTable { objects, object_spaces }
    }

    /// Resolve a declared object or context reference.
    pub fn get_object(&self, id: ExGuid) -> (r: Option<ExGuid>)
        ensures
            r == assoc::lookup(self.spec_objects(), id),
    {
        Self::scan(&self.objects, id)
    }

    /// Resolve a declared cross-object-space reference.
    pub fn get_object_space(&self, id: ExGuid) -> (r: Option<ExGuid>)
        ensures
            r == assoc::lookup(self.spec_object_spaces(), id),
    {
        Self::scan(&self.object_spaces, id)
    }

    /// The cross-object-space bucket's entries, in insertion order.
    pub fn object_space_entries(&self) -> (r: &Vec<(ExGuid, ExGuid)>)
        ensures
            r@ == self.spec_object_spaces(),
    {
        &self.object_spaces
    }

    /// First-match scan of one bucket.
    fn scan(entries: &Vec<(ExGuid, ExGuid)>, id: ExGuid) -> (r: Option<ExGuid>)
        ensures
            r == assoc::lookup(entries@, id),
    {
        let n = entries.len();
        let mut i: usize = 0;
        proof {
            assert(entries@.skip(0) =~= entries@);
        }
        while i < n
            invariant
                i <= n,
                n == entries@.len(),
                assoc::lookup(entries@, id) == assoc::lookup(entries@.skip(i as int), id),
            decreases n - i,
        {
            let entry = &entries[i];
            proof {
                assert(entries@.skip(i as int)[0] == entries@[i as int]);
                assert(entries@.skip(i as int).skip(1) =~= entries@.skip(i + 1));
            }
            if entry.0 == id {
                return Some(entry.1);
            }
            i = i + 1;
        }
        None
    }
}

} // verus!
