use vstd::prelude::*;

verus! {

use crate::assoc;
use crate::exguid::ExGuid;

/// The logical channel a fragment lives on: a single logical node's data is
/// split across these. The numeric values are part of the external wire
/// contract and appear only at the table-lookup boundary.
#[derive(Clone, Copy, Debug, PartialEq, Eq, Structural)]
pub enum Partition {
    ObjectData,
    FileData,
    Metadata,
}

impl Partition {
    /// The raw numeric partition value of the wire format.
    pub open spec fn spec_wire_value(self) -> u64 {
        match self {
            Partition::ObjectData => 1,
            Partition::FileData => 2,
            Partition::Metadata => 4,
        }
    }

    /// The raw numeric partition value of the wire format.
    pub fn wire_value(self) -> (v: u64)
        ensures
            v == self.spec_wire_value(),
    {
        match self {
            Partition::ObjectData => 1,
            Partition::FileData => 2,
            Partition::Metadata => 4,
        }
    }
}

/// A referenced cell paired with the object space that owns it.
#[derive(Clone, Copy, Debug, PartialEq, Eq, Structural)]
pub struct CellRef {
    pub id: ExGuid,
    pub space: ExGuid,
}

/// A raw decoded fragment, distinguished by an explicit closed variant tag:
/// either object data (a byte payload, the sibling-object reference targets,
/// and the referenced cells), or a single reference into the external blob
/// store. The resolver only reads fragments; the framing layer produces them.
#[derive(Debug)]
pub enum ObjectGroupData {
    Object { data: Vec<u8>, group: Vec<ExGuid>, cells: Vec<CellRef> },
    BlobReference { blob: ExGuid },
}

/// A flat table of raw fragments keyed by (identifier, channel), supplied by
/// the byte-stream framing layer. Within one table each key is unique.
pub struct FragmentTable {
    entries: Vec<((ExGuid, u64), ObjectGroupData)>,
}

impl FragmentTable {
    /// What the table maps the pair of `id` and raw channel value `w` to.
    pub closed spec fn spec_lookup(self, id: ExGuid, w: u64) -> Option<ObjectGroupData> {
        assoc::lookup(self.entries@, (id, w))
    }

    /// Each (identifier, channel) key occurs at most once.
    pub closed spec fn wf(self) -> bool {
        forall|i: int, j: int|
            0 <= i < j < self.entries@.len() ==> self.entries@[i].0 != self.entries@[j].0
    }

    /// An empty table.
    pub fn new() -> (r: FragmentTable)
        ensures
            r.wf(),
            forall|id: ExGuid, w: u64| r.spec_lookup(id, w) is None,
    {
        let r = FragmentTable { entries: Vec::new() };
        proof {
            assert(forall|id: ExGuid, w: u64| r.spec_lookup(id, w) is None);
        }
        r
    }

    /// Add a fragment under a fresh (identifier, channel) key.
    pub fn insert(&mut self, id: ExGuid, partition: Partition, fragment: ObjectGroupData)
        requires
            old(self).wf(),
            old(self).spec_lookup(id, partition.spec_wire_value()) is None,
        ensures
            final(self).wf(),
            final(self).spec_lookup(id, partition.spec_wire_value()) == Some(fragment),
            forall|id2: ExGuid, w2: u64|
                (id2, w2) != (id, partition.spec_wire_value()) ==> final(self).spec_lookup(
                    id2,
                    w2,
                ) == old(self).spec_lookup(id2, w2),
    {
        let w = partition.wire_value();
        proof {
            Self::lemma_absent_key_not_present(self.entries@, (id, w));
            assert forall|id2: ExGuid, w2: u64|
                (id2, w2) != (id, partition.spec_wire_value()) implies assoc::lookup(
                self.entries@.push(((id, w), fragment)),
                (id2, w2),
            ) == assoc::lookup(self.entries@, (id2, w2)) by {
                assoc::lemma_lookup_push(self.entries@, ((id, w), fragment), (id2, w2));
            }
            assoc::lemma_lookup_push(self.entries@, ((id, w), fragment), (id, w));
        }
        self.entries.push(((id, w), fragment));
    }

    /// A key the lookup misses occurs nowhere in the entries.
    proof fn lemma_absent_key_not_present(
        s: Seq<((ExGuid, u64), ObjectGroupData)>,
        k: (ExGuid, u64),
    )
        requires
            assoc::lookup(s, k) is None,
        ensures
            forall|i: int| 0 <= i < s.len() ==> s[i].0 != k,
        decreases s.len(),
    {
        if s.len() > 0 {
            Self::lemma_absent_key_not_present(s.skip(1), k);
            assert forall|i: int| 0 <= i < s.len() implies s[i].0 != k by {
                if i > 0 {
                    assert(s.skip(1)[i - 1] == s[i]);
                }
            }
        }
    }

    /// Look a fragment up by identifier and channel.
    pub fn get(&self, id: ExGuid, partition: Partition) -> (r: Option<&ObjectGroupData>)
        ensures
            match r {
                Some(f) => self.spec_lookup(id, partition.spec_wire_value()) == Some(*f),
                None => self.spec_lookup(id, partition.spec_wire_value()) is None,
            },
    {
        let w = partition.wire_value();
        let n = self.entries.len();
        let mut i: usize = 0;
        proof {
            assert(self.entries@.skip(0) =~= self.entries@);
        }
        while i < n
            invariant
                i <= n,
                n == self.entries@.len(),
                w == partition.spec_wire_value(),
                assoc::lookup(self.entries@, (id, w)) == assoc::lookup(
                    self.entries@.skip(i as int),
                    (id, w),
                ),
            decreases n - i,
        {
            let entry = &self.entries[i];
            proof {
                assert(self.entries@.skip(i as int)[0] == self.entries@[i as int]);
                assert(self.entries@.skip(i as int).skip(1) =~= self.entries@.skip(i + 1));
            }
            if entry.0.0 == id && entry.0.1 == w {
                proof {
                    assert(self.entries@[i as int].0 == (id, w));
                }
                return Some(&entry.1);
            }
            i = i + 1;
        }
        None
    }
}

} // verus!
