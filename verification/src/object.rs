use vstd::prelude::*;

verus! {

use crate::assoc;
use crate::errors::{ParseError, Reason};
use crate::exguid::ExGuid;
use crate::fragment::{CellRef, FragmentTable, ObjectGroupData, Partition};
use crate::jcid::{JcId, spec_jcid};
use crate::mapping_table::MappingTable;
use crate::object_prop_set::{ObjectPropSet, PropSetView, spec_parse_prop_set};
use crate::reader::Reader;
use crate::store::BlobStore;

/// The view of a fully resolved node: schema tag, parsed property set,
/// optional attached blob, and the two cross-reference buckets.
pub ghost struct NodeView {
    pub context_id: ExGuid,
    pub jc_id: JcId,
    pub props: PropSetView,
    pub file_data: Option<Seq<u8>>,
    pub mapping_objects: Seq<(ExGuid, ExGuid)>,
    pub mapping_object_spaces: Seq<(ExGuid, ExGuid)>,
}

/// Which cross-reference bucket a lookup consults.
#[derive(Clone, Copy, Debug, PartialEq, Eq, Structural)]
pub enum RefBucket {
    /// Combined object and same-space context references.
    SameSpace,
    /// Cross-object-space references.
    CrossSpace,
}

/// Strictly positional pairing: the i-th declared identifier with the i-th
/// resolved target, up to the shorter of the two.
pub open spec fn zip_pairs(a: Seq<ExGuid>, b: Seq<ExGuid>) -> Seq<(ExGuid, ExGuid)> {
    Seq::new(if a.len() <= b.len() { a.len() } else { b.len() }, |i: int| (a[i], b[i]))
}

/// The identifiers of the cells owned by `space`, in their original order.
pub open spec fn spec_context_refs(cells: Seq<CellRef>, space: ExGuid) -> Seq<ExGuid>
    decreases cells.len(),
{
    if cells.len() == 0 {
        Seq::empty()
    } else {
        let prefix = spec_context_refs(cells.drop_last(), space);
        if cells.last().space == space {
            prefix.push(cells.last().id)
        } else {
            prefix
        }
    }
}

/// The identifiers of the cells owned by other spaces, in their original
/// order.
pub open spec fn spec_space_refs(cells: Seq<CellRef>, space: ExGuid) -> Seq<ExGuid>
    decreases cells.len(),
{
    if cells.len() == 0 {
        Seq::empty()
    } else {
        let prefix = spec_space_refs(cells.drop_last(), space);
        if cells.last().space != space {
            prefix.push(cells.last().id)
        } else {
            prefix
        }
    }
}

/// The node that resolving `object_id` against the fragment table and blob
/// store yields, step by step: metadata fragment, schema tag, object-data
/// fragment, property set, cell partition, the two count validations, the
/// cross-reference buckets, and the optional file data. Every failure names
/// the violated invariant; no partial node is ever produced.
pub open spec fn spec_resolve(
    object_id: ExGuid,
    context_id: ExGuid,
    object_space_id: ExGuid,
    fragments: FragmentTable,
    store: BlobStore,
) -> Result<NodeView, ParseError> {
    match fragments.spec_lookup(object_id, Partition::Metadata.spec_wire_value()) {
        None => Err(ParseError::MalformedData(Reason::MissingMetadata)),
        Some(ObjectGroupData::BlobReference { .. }) => Err(
            ParseError::MalformedData(Reason::MetadataNotAnObject),
        ),
        Some(ObjectGroupData::Object { data: metadata, .. }) => {
            if metadata@.len() < 4 {
                Err(ParseError::TruncatedInput)
            } else {
                let jc_id = spec_jcid(metadata@);
                match fragments.spec_lookup(object_id, Partition::ObjectData.spec_wire_value()) {
                    None => Err(ParseError::MalformedData(Reason::MissingObjectData)),
                    Some(ObjectGroupData::BlobReference { .. }) => Err(
                        ParseError::MalformedData(Reason::DataNotAnObject),
                    ),
                    Some(ObjectGroupData::Object { data, group, cells }) => {
                        match spec_parse_prop_set(data@) {
                            None => Err(ParseError::TruncatedInput),
                            Some(props) => {
                                if props.object_ids.len() > group@.len() {
                                    Err(ParseError::MalformedData(Reason::ObjectRefCountMismatch))
                                } else if props.context_ids.len() + props.object_space_ids.len()
                                    != cells@.len() {
                                    Err(
                                        ParseError::MalformedData(
                                            Reason::ContextSpaceRefCountMismatch,
                                        ),
                                    )
                                } else {
                                    match spec_file_data(object_id, fragments, store) {
                                        Err(e) => Err(e),
                                        Ok(file_data) => Ok(
                                            NodeView {
                                                context_id,
                                                jc_id,
                                                props,
                                                file_data,
                                                mapping_objects: zip_pairs(
                                                    props.object_ids,
                                                    group@,
                                                ) + zip_pairs(
                                                    props.context_ids,
                                                    spec_context_refs(cells@, object_space_id),
                                                ),
                                                mapping_object_spaces: zip_pairs(
                                                    props.object_space_ids,
                                                    spec_space_refs(cells@, object_space_id),
                                                ),
                                            },
                                        ),
                                    }
                                }
                            },
                        }
                    },
                }
            }
        },
    }
}

/// The optional attached blob of a node: absent when the file-data channel
/// is empty; otherwise the channel must hold a blob reference and the blob
/// store must hold its target.
pub open spec fn spec_file_data(
    object_id: ExGuid,
    fragments: FragmentTable,
    store: BlobStore,
) -> Result<Option<Seq<u8>>, ParseError> {
    match fragments.spec_lookup(object_id, Partition::FileData.spec_wire_value()) {
        None => Ok(None),
        Some(ObjectGroupData::Object { .. }) => Err(
            ParseError::MalformedData(Reason::FileDataNotBlob),
        ),
        Some(ObjectGroupData::BlobReference { blob }) => {
            match store.spec_find(blob) {
                None => Err(ParseError::MalformedData(Reason::BlobNotFound)),
                Some(bytes) => Ok(Some(bytes@)),
            }
        },
    }
}

/// Resolution is deterministic: resolving the same identifier against the
/// same fragment table and blob store twice yields structurally identical
/// nodes, because the resolved node is a function of the inputs alone.
pub proof fn lemma_resolve_deterministic(
    object_id: ExGuid,
    context_id: ExGuid,
    object_space_id: ExGuid,
    fragments: FragmentTable,
    store: BlobStore,
    r1: NodeView,
    r2: NodeView,
)
    requires
        spec_resolve(object_id, context_id, object_space_id, fragments, store) == Ok::<
            NodeView,
            ParseError,
        >(r1),
        spec_resolve(object_id, context_id, object_space_id, fragments, store) == Ok::<
            NodeView,
            ParseError,
        >(r2),
    ensures
        r1 == r2,
{
}

/// Positional cross-reference lookup: the first occurrence of a declared
/// identifier resolves to the target at the same position — the i-th
/// declared identifier is paired with the i-th resolved target, never
/// matched by identifier or sorted.
pub proof fn lemma_zip_lookup(a: Seq<ExGuid>, b: Seq<ExGuid>, i: int)
    requires
        0 <= i < a.len(),
        a.len() <= b.len(),
        forall|j: int| 0 <= j < i ==> a[j] != a[i],
    ensures
        assoc::lookup(zip_pairs(a, b), a[i]) == Some(b[i]),
    decreases i,
{
    let z = zip_pairs(a, b);
    assert(z[0] == (a[0], b[0]));
    if i == 0 {
    } else {
        assert(z.skip(1) =~= zip_pairs(a.skip(1), b.skip(1)));
        lemma_zip_lookup(a.skip(1), b.skip(1), i - 1);
    }
}

/// A resolved node of the document object graph: created once by the
/// resolver, immutable thereafter.
#[derive(Debug)]
pub struct Object {
    context_id: ExGuid,
    jc_id: JcId,
    props: ObjectPropSet,
    file_data: Option<Vec<u8>>,
    mapping: MappingTable,
}

impl View for Object {
    type V = NodeView;

    closed spec fn view(&self) -> NodeView {
        NodeView {
            context_id: self.context_id,
            jc_id: self.jc_id,
            props: self.props@,
            file_data: match self.file_data {
                None => None,
                Some(d) => Some(d@),
            },
            mapping_objects: self.mapping.spec_objects(),
            mapping_object_spaces: self.mapping.spec_object_spaces(),
        }
    }
}

impl Object {
    /// Resolve one node: look both mandatory fragments up, parse the schema
    /// tag and the property set, validate the declared reference counts
    /// against the fragment's reference lists, build the cross-reference
    /// buckets by position, and attach the optional file blob. All-or-nothing:
    /// any failure discards all work for the node.
    pub fn parse(
        object_id: ExGuid,
        context_id: ExGuid,
        object_space_id: ExGuid,
        objects: &FragmentTable,
        store: &BlobStore,
    ) -> (r: Result<Object, ParseError>)
        ensures
            spec_resolve(object_id, context_id, object_space_id, *objects, *store) matches Ok(v)
                ==> r matches Ok(o) && o@ == v,
            spec_resolve(object_id, context_id, object_space_id, *objects, *store) matches Err(e)
                ==> r == Err::<Object, ParseError>(e),
    {
        let metadata_object = match objects.get(object_id, Partition::Metadata) {
            Some(f) => f,
            None => {
                return Err(ParseError::MalformedData(Reason::MissingMetadata));
            },
        };
        let metadata = match metadata_object {
            ObjectGroupData::Object { data, .. } => data,
            ObjectGroupData::BlobReference { .. } => {
                return Err(ParseError::MalformedData(Reason::MetadataNotAnObject));
            },
        };
        let mut metadata_reader = Reader::new(metadata.as_slice());
        let jc_id = match JcId::parse(&mut metadata_reader) {
            Ok(j) => j,
            Err(e) => {
                return Err(e);
            },
        };
        let data_object = match objects.get(object_id, Partition::ObjectData) {
            Some(f) => f,
            None => {
                return Err(ParseError::MalformedData(Reason::MissingObjectData));
            },
        };
        let (data, group, cells) = match data_object {
            ObjectGroupData::Object { data, group, cells } => (data, group, cells),
            ObjectGroupData::BlobReference { .. } => {
                return Err(ParseError::MalformedData(Reason::DataNotAnObject));
            },
        };
        let mut data_reader = Reader::new(data.as_slice());
        let props = match ObjectPropSet::parse(&mut data_reader) {
            Ok(p) => p,
            Err(e) => {
                return Err(e);
            },
        };
        if props.object_ids().len() > group.len() {
            return Err(ParseError::MalformedData(Reason::ObjectRefCountMismatch));
        }
        let context_count = props.context_ids().len();
        let cell_count = cells.len();
        if context_count > cell_count || cell_count - context_count != props.object_space_ids(
        ).len() {
            return Err(ParseError::MalformedData(Reason::ContextSpaceRefCountMismatch));
        }
        let (context_refs, object_space_refs) = Self::partition_cells(cells, object_space_id);
        let mut mapping_objects = Self::zip_ids(props.object_ids(), group);
        let mut mapping_contexts = Self::zip_ids(props.context_ids(), &context_refs);
        mapping_objects.append(&mut mapping_contexts);
        let mapping_object_spaces = Self::zip_ids(props.object_space_ids(), &object_space_refs);
        let mapping = MappingTable::from_entries(mapping_objects, mapping_object_spaces);
        let file_data = match Self::find_blob_id(object_id, objects) {
            Err(e) => {
                return Err(e);
            },
            Ok(None) => None,
            Ok(Some(blob_id)) => {
                match store.find_blob(blob_id) {
                    None => {
                        return Err(ParseError::MalformedData(Reason::BlobNotFound));
                    },
                    Some(d) => Some(vstd::slice::slice_to_vec(d.as_slice())),
                }
            },
        };
        Ok(Object { context_id, jc_id, props, file_data, mapping })
    }

    /// Look a fragment of `id` up on one channel of the table.
    pub fn find_object<'b>(
        id: ExGuid,
        partition_id: Partition,
        objects: &'b FragmentTable,
    ) -> (r: Option<&'b ObjectGroupData>)
        ensures
            match r {
                Some(f) => objects.spec_lookup(id, partition_id.spec_wire_value()) == Some(*f),
                None => objects.spec_lookup(id, partition_id.spec_wire_value()) is None,
            },
    {
        objects.get(id, partition_id)
    }

    /// The blob identifier on the file-data channel, if that channel is
    /// present; it must hold a blob reference.
    fn find_blob_id(id: ExGuid, objects: &FragmentTable) -> (r: Result<
        Option<ExGuid>,
        ParseError,
    >)
        ensures
            match objects.spec_lookup(id, Partition::FileData.spec_wire_value()) {
                None => r == Ok::<Option<ExGuid>, ParseError>(None),
                Some(ObjectGroupData::BlobReference { blob }) => r == Ok::<
                    Option<ExGuid>,
                    ParseError,
                >(Some(blob)),
                Some(ObjectGroupData::Object { .. }) => r == Err::<Option<ExGuid>, ParseError>(
                    ParseError::MalformedData(Reason::FileDataNotBlob),
                ),
            },
    {
        match Self::find_object(id, Partition::FileData, objects) {
            None => Ok(None),
            Some(ObjectGroupData::BlobReference { blob }) => Ok(Some(*blob)),
            Some(ObjectGroupData::Object { .. }) => Err(
                ParseError::MalformedData(Reason::FileDataNotBlob),
            ),
        }
    }

    /// Split the referenced cells by owning space: same-space cells become
    /// context reference targets, all others become object-space reference
    /// targets, each partition keeping its relative order.
    fn partition_cells(cells: &Vec<CellRef>, space: ExGuid) -> (r: (Vec<ExGuid>, Vec<ExGuid>))
        ensures
            r.0@ == spec_context_refs(cells@, space),
            r.1@ == spec_space_refs(cells@, space),
    {
        let mut context_refs: Vec<ExGuid> = Vec::new();
        let mut space_refs: Vec<ExGuid> = Vec::new();
        let n = cells.len();
        let mut i: usize = 0;
        proof {
            assert(cells@.take(0) =~= Seq::<CellRef>::empty());
        }
        while i < n
            invariant
                i <= n,
                n == cells@.len(),
                context_refs@ == spec_context_refs(cells@.take(i as int), space),
                space_refs@ == spec_space_refs(cells@.take(i as int), space),
            decreases n - i,
        {
            let c = &cells[i];
            proof {
                assert(cells@.take(i + 1).drop_last() =~= cells@.take(i as int));
                assert(cells@.take(i + 1).last() == cells@[i as int]);
            }
            if c.space == space {
                context_refs.push(c.id);
            } else {
                space_refs.push(c.id);
            }
            i = i + 1;
        }
        proof {
            assert(cells@.take(n as int) =~= cells@);
        }
        (context_refs, space_refs)
    }

    /// Pair declared identifiers with resolved targets by position, up to
    /// the shorter list.
    fn zip_ids(a: &Vec<ExGuid>, b: &Vec<ExGuid>) -> (r: Vec<(ExGuid, ExGuid)>)
        ensures
            r@ == zip_pairs(a@, b@),
    {
        let m = if a.len() <= b.len() {
            a.len()
        } else {
            b.len()
        };
        let mut out: Vec<(ExGuid, ExGuid)> = Vec::new();
        let mut i: usize = 0;
        while i < m
            invariant
                i <= m,
                m == if a@.len() <= b@.len() {
                    a@.len()
                } else {
                    b@.len()
                },
                out@ == zip_pairs(a@, b@).take(i as int),
            decreases m - i,
        {
            let pair = (a[i], b[i]);
            proof {
                assert(zip_pairs(a@, b@).take(i as int).push(zip_pairs(a@, b@)[i as int])
                    =~= zip_pairs(a@, b@).take(i as int + 1));
            }
            out.push(pair);
            i = i + 1;
        }
        proof {
            assert(zip_pairs(a@, b@).take(m as int) =~= zip_pairs(a@, b@));
        }
        out
    }

    /// The identifier of the context that owns this node.
    pub fn context_id(&self) -> (r: ExGuid)
        ensures
            r == self@.context_id,
    {
        self.context_id
    }

    /// The schema tag of this node.
    pub fn id(&self) -> (r: JcId)
        ensures
            r == self@.jc_id,
    {
        self.jc_id
    }

    /// The parsed property set.
    pub fn props(&self) -> (r: &ObjectPropSet)
        ensures
            r@ == self@.props,
    {
        &self.props
    }

    /// The attached file data, if any.
    pub fn file_data(&self) -> (r: Option<&Vec<u8>>)
        ensures
            match r {
                Some(d) => self@.file_data == Some(d@),
                None => self@.file_data is None,
            },
    {
        match &self.file_data {
            Some(d) => Some(d),
            None => None,
        }
    }

    /// The cross-reference mapping table.
    pub fn mapping(&self) -> (r: &MappingTable)
        ensures
            r.spec_objects() == self@.mapping_objects,
            r.spec_object_spaces() == self@.mapping_object_spaces,
    {
        &self.mapping
    }

    /// Translate a property-declared reference identifier into its resolved
    /// target, consulting the requested bucket.
    pub fn resolve_reference(&self, declared: ExGuid, bucket: RefBucket) -> (r: Option<ExGuid>)
        ensures
            bucket == RefBucket::SameSpace ==> r == assoc::lookup(self@.mapping_objects, declared),
            bucket == RefBucket::CrossSpace ==> r == assoc::lookup(
                self@.mapping_object_spaces,
                declared,
            ),
    {
        match bucket {
            RefBucket::SameSpace => self.mapping.get_object(declared),
            RefBucket::CrossSpace => self.mapping.get_object_space(declared),
        }
    }
}

} // verus!
