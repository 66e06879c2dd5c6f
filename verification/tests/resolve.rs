use onestore::compact_u64::CompactU64;
use onestore::errors::{ParseError, Reason};
use onestore::exguid::ExGuid;
use onestore::fragment::{CellRef, FragmentTable, ObjectGroupData, Partition};
use onestore::jcid::JcId;
use onestore::object::{Object, RefBucket};
use onestore::page_series::{MemoryStore, ObjectSpace, parse_page_series};
use onestore::store::BlobStore;

fn eg(n: u64) -> ExGuid {
    ExGuid::new(n, 0xabc0 + n, n as u32)
}

fn exguid_bytes(g: ExGuid) -> Vec<u8> {
    let mut out = Vec::new();
    out.extend_from_slice(&g.guid.lo.to_le_bytes());
    out.extend_from_slice(&g.guid.hi.to_le_bytes());
    out.extend_from_slice(&g.value.to_le_bytes());
    out
}

fn guid_list_bytes(ids: &[ExGuid]) -> Vec<u8> {
    let mut out = CompactU64::encode(ids.len() as u64);
    for id in ids {
        out.extend_from_slice(&exguid_bytes(*id));
    }
    out
}

fn props_payload(obj: &[ExGuid], ctx: &[ExGuid], spaces: &[ExGuid], raw: &[u8]) -> Vec<u8> {
    let mut out = guid_list_bytes(obj);
    out.extend_from_slice(&guid_list_bytes(ctx));
    out.extend_from_slice(&guid_list_bytes(spaces));
    out.extend_from_slice(raw);
    out
}

fn metadata_payload(tag: u32) -> Vec<u8> {
    tag.to_le_bytes().to_vec()
}

fn object_fragment(data: Vec<u8>, group: Vec<ExGuid>, cells: Vec<CellRef>) -> ObjectGroupData {
    ObjectGroupData::Object { data, group, cells }
}

/// A table holding a well-formed minimal node under `id`: given schema tag,
/// declared references, sibling targets and cells.
fn table_for(
    id: ExGuid,
    tag: u32,
    obj: &[ExGuid],
    ctx: &[ExGuid],
    spaces: &[ExGuid],
    group: Vec<ExGuid>,
    cells: Vec<CellRef>,
) -> FragmentTable {
    let mut table = FragmentTable::new();
    table.insert(
        id,
        Partition::Metadata,
        object_fragment(metadata_payload(tag), Vec::new(), Vec::new()),
    );
    table.insert(
        id,
        Partition::ObjectData,
        object_fragment(props_payload(obj, ctx, spaces, &[]), group, cells),
    );
    table
}

#[test]
fn resolves_minimal_node_with_empty_buckets() {
    let id = eg(1);
    let context = eg(90);
    let space = eg(91);
    let table = table_for(id, 0x1234, &[], &[], &[], Vec::new(), Vec::new());
    let store = BlobStore::new();
    let node = Object::parse(id, context, space, &table, &store).expect("resolves");
    assert_eq!(node.id(), JcId(0x1234));
    assert_eq!(node.context_id(), context);
    assert!(node.file_data().is_none());
    assert!(node.props().object_ids().is_empty());
    assert!(node.props().context_ids().is_empty());
    assert!(node.props().object_space_ids().is_empty());
    assert!(node.mapping().object_space_entries().is_empty());
    assert_eq!(node.resolve_reference(eg(5), RefBucket::SameSpace), None);
    assert_eq!(node.resolve_reference(eg(5), RefBucket::CrossSpace), None);
}

#[test]
fn resolving_twice_yields_identical_nodes() {
    let id = eg(1);
    let a = eg(10);
    let b = eg(11);
    let x = eg(20);
    let y = eg(21);
    let space = eg(91);
    let cells = vec![CellRef { id: eg(30), space }];
    let table = table_for(id, 7, &[a, b], &[eg(40)], &[], vec![x, y], cells);
    let store = BlobStore::new();
    let n1 = Object::parse(id, eg(90), space, &table, &store).expect("resolves");
    let n2 = Object::parse(id, eg(90), space, &table, &store).expect("resolves");
    assert_eq!(n1.id(), n2.id());
    assert_eq!(n1.context_id(), n2.context_id());
    assert_eq!(n1.props().object_ids(), n2.props().object_ids());
    assert_eq!(n1.props().context_ids(), n2.props().context_ids());
    assert_eq!(n1.props().object_space_ids(), n2.props().object_space_ids());
    assert_eq!(n1.props().data(), n2.props().data());
    assert_eq!(n1.file_data().is_none(), n2.file_data().is_none());
    assert_eq!(
        n1.mapping().object_space_entries(),
        n2.mapping().object_space_entries()
    );
    for probe in [a, b, eg(40), eg(5)] {
        assert_eq!(
            n1.resolve_reference(probe, RefBucket::SameSpace),
            n2.resolve_reference(probe, RefBucket::SameSpace)
        );
        assert_eq!(
            n1.resolve_reference(probe, RefBucket::CrossSpace),
            n2.resolve_reference(probe, RefBucket::CrossSpace)
        );
    }
}

#[test]
fn cross_references_are_zipped_by_position() {
    let id = eg(1);
    let a = eg(10);
    let b = eg(11);
    let x = eg(20);
    let y = eg(21);
    let space = eg(91);
    let table = table_for(id, 7, &[a, b], &[], &[], vec![x, y], Vec::new());
    let store = BlobStore::new();
    let node = Object::parse(id, eg(90), space, &table, &store).expect("resolves");
    assert_eq!(node.resolve_reference(a, RefBucket::SameSpace), Some(x));
    assert_eq!(node.resolve_reference(b, RefBucket::SameSpace), Some(y));
    assert_eq!(node.resolve_reference(x, RefBucket::SameSpace), None);
}

#[test]
fn context_and_space_cells_partition_by_owning_space() {
    let id = eg(1);
    let space = eg(91);
    let other = eg(92);
    let dc = eg(10); // declared context ref
    let ds = eg(11); // declared object-space ref
    let cells = vec![
        CellRef { id: eg(50), space: other },
        CellRef { id: eg(51), space },
    ];
    let table = table_for(id, 7, &[], &[dc], &[ds], Vec::new(), cells);
    let store = BlobStore::new();
    let node = Object::parse(id, eg(90), space, &table, &store).expect("resolves");
    // the same-space cell backs the context reference,
    // the foreign cell backs the cross-space reference
    assert_eq!(node.resolve_reference(dc, RefBucket::SameSpace), Some(eg(51)));
    assert_eq!(node.resolve_reference(ds, RefBucket::CrossSpace), Some(eg(50)));
}

#[test]
fn more_declared_object_refs_than_siblings_fails() {
    let id = eg(1);
    // two declared object refs, one sibling target: off by one
    let table = table_for(id, 7, &[eg(10), eg(11)], &[], &[], vec![eg(20)], Vec::new());
    let store = BlobStore::new();
    let err = Object::parse(id, eg(90), eg(91), &table, &store).unwrap_err();
    assert_eq!(
        err,
        ParseError::MalformedData(Reason::ObjectRefCountMismatch)
    );
}

#[test]
fn fewer_declared_object_refs_than_siblings_is_tolerated() {
    let id = eg(1);
    let a = eg(10);
    let x = eg(20);
    // one declared object ref, two sibling targets: the trailing sibling
    // stays unused by design
    let table = table_for(id, 7, &[a], &[], &[], vec![x, eg(21)], Vec::new());
    let store = BlobStore::new();
    let node = Object::parse(id, eg(90), eg(91), &table, &store).expect("resolves");
    assert_eq!(node.resolve_reference(a, RefBucket::SameSpace), Some(x));
    assert_eq!(node.resolve_reference(eg(21), RefBucket::SameSpace), None);
}

#[test]
fn context_space_count_mismatch_fails() {
    let id = eg(1);
    let space = eg(91);
    // one declared context ref plus zero space refs, but no cells: off by one
    let table = table_for(id, 7, &[], &[eg(10)], &[], Vec::new(), Vec::new());
    let store = BlobStore::new();
    let err = Object::parse(id, eg(90), space, &table, &store).unwrap_err();
    assert_eq!(
        err,
        ParseError::MalformedData(Reason::ContextSpaceRefCountMismatch)
    );
    // and the other direction: a cell nobody declared
    let cells = vec![CellRef { id: eg(50), space }];
    let table = table_for(id, 7, &[], &[], &[], Vec::new(), cells);
    let err = Object::parse(id, eg(90), space, &table, &store).unwrap_err();
    assert_eq!(
        err,
        ParseError::MalformedData(Reason::ContextSpaceRefCountMismatch)
    );
}

#[test]
fn missing_metadata_fails_with_named_reason() {
    let table = FragmentTable::new();
    let store = BlobStore::new();
    let err = Object::parse(eg(1), eg(90), eg(91), &table, &store).unwrap_err();
    assert_eq!(err, ParseError::MalformedData(Reason::MissingMetadata));
}

#[test]
fn missing_object_data_fails_with_named_reason() {
    let id = eg(1);
    let mut table = FragmentTable::new();
    table.insert(
        id,
        Partition::Metadata,
        object_fragment(metadata_payload(7), Vec::new(), Vec::new()),
    );
    let store = BlobStore::new();
    let err = Object::parse(id, eg(90), eg(91), &table, &store).unwrap_err();
    assert_eq!(err, ParseError::MalformedData(Reason::MissingObjectData));
}

#[test]
fn metadata_must_be_an_object_fragment() {
    let id = eg(1);
    let mut table = FragmentTable::new();
    table.insert(
        id,
        Partition::Metadata,
        ObjectGroupData::BlobReference { blob: eg(70) },
    );
    let store = BlobStore::new();
    let err = Object::parse(id, eg(90), eg(91), &table, &store).unwrap_err();
    assert_eq!(err, ParseError::MalformedData(Reason::MetadataNotAnObject));
}

#[test]
fn object_data_must_be_an_object_fragment() {
    let id = eg(1);
    let mut table = FragmentTable::new();
    table.insert(
        id,
        Partition::Metadata,
        object_fragment(metadata_payload(7), Vec::new(), Vec::new()),
    );
    table.insert(
        id,
        Partition::ObjectData,
        ObjectGroupData::BlobReference { blob: eg(70) },
    );
    let store = BlobStore::new();
    let err = Object::parse(id, eg(90), eg(91), &table, &store).unwrap_err();
    assert_eq!(err, ParseError::MalformedData(Reason::DataNotAnObject));
}

#[test]
fn truncated_metadata_or_props_fails() {
    let id = eg(1);
    let mut table = FragmentTable::new();
    // metadata payload shorter than a schema tag
    table.insert(
        id,
        Partition::Metadata,
        object_fragment(vec![1, 2], Vec::new(), Vec::new()),
    );
    let store = BlobStore::new();
    let err = Object::parse(id, eg(90), eg(91), &table, &store).unwrap_err();
    assert_eq!(err, ParseError::TruncatedInput);

    // property payload announcing one identifier but carrying none
    let mut table = FragmentTable::new();
    table.insert(
        id,
        Partition::Metadata,
        object_fragment(metadata_payload(7), Vec::new(), Vec::new()),
    );
    table.insert(
        id,
        Partition::ObjectData,
        object_fragment(CompactU64::encode(1), Vec::new(), Vec::new()),
    );
    let err = Object::parse(id, eg(90), eg(91), &table, &store).unwrap_err();
    assert_eq!(err, ParseError::TruncatedInput);
}

#[test]
fn file_data_channel_must_hold_a_blob_reference() {
    let id = eg(1);
    let mut table = table_for(id, 7, &[], &[], &[], Vec::new(), Vec::new());
    table.insert(
        id,
        Partition::FileData,
        object_fragment(Vec::new(), Vec::new(), Vec::new()),
    );
    let store = BlobStore::new();
    let err = Object::parse(id, eg(90), eg(91), &table, &store).unwrap_err();
    assert_eq!(err, ParseError::MalformedData(Reason::FileDataNotBlob));
}

#[test]
fn missing_blob_fails_with_named_reason() {
    let id = eg(1);
    let mut table = table_for(id, 7, &[], &[], &[], Vec::new(), Vec::new());
    table.insert(
        id,
        Partition::FileData,
        ObjectGroupData::BlobReference { blob: eg(70) },
    );
    let store = BlobStore::new();
    let err = Object::parse(id, eg(90), eg(91), &table, &store).unwrap_err();
    assert_eq!(err, ParseError::MalformedData(Reason::BlobNotFound));
}

#[test]
fn present_blob_becomes_file_data() {
    let id = eg(1);
    let blob_id = eg(70);
    let mut table = table_for(id, 7, &[], &[], &[], Vec::new(), Vec::new());
    table.insert(id, Partition::FileData, ObjectGroupData::BlobReference { blob: blob_id });
    let mut store = BlobStore::new();
    store.insert(blob_id, vec![5, 6, 7]);
    let node = Object::parse(id, eg(90), eg(91), &table, &store).expect("resolves");
    assert_eq!(node.file_data().expect("present").as_slice(), &[5u8, 6, 7]);
}

#[test]
fn reasons_name_the_violated_invariant() {
    assert_eq!(Reason::MissingMetadata.describe(), "object metadata is missing");
    assert_eq!(Reason::BlobNotFound.describe(), "blob not found");
    assert_eq!(Reason::PageSpaceMissing.describe(), "page space is missing");
}

/// A root node declaring the given child object spaces, resolved and placed
/// in a root object space under `series_id`.
fn root_space_declaring(series_id: ExGuid, space_ids: &[ExGuid], owning: ExGuid) -> ObjectSpace {
    let declared: Vec<ExGuid> = (0..space_ids.len()).map(|i| eg(100 + i as u64)).collect();
    let cells: Vec<CellRef> = space_ids
        .iter()
        .map(|s| CellRef { id: *s, space: eg(999) })
        .collect();
    let table = table_for(series_id, 7, &[], &[], &declared, Vec::new(), cells);
    let store = BlobStore::new();
    let node = Object::parse(series_id, eg(90), owning, &table, &store).expect("resolves");
    let mut root = ObjectSpace::new(owning);
    root.add_object(series_id, node);
    root
}

#[test]
fn page_series_preserves_declared_order() {
    let series_id = eg(1);
    let owning = eg(91);
    let s1 = eg(201);
    let s2 = eg(202);
    let s3 = eg(203);
    let root = root_space_declaring(series_id, &[s2, s1, s3], owning);
    let mut store = MemoryStore::new(root);
    // insertion order differs from declared order on purpose
    store.add_space(s1, ObjectSpace::new(s1));
    store.add_space(s3, ObjectSpace::new(s3));
    store.add_space(s2, ObjectSpace::new(s2));
    let series = parse_page_series(series_id, &store).expect("resolves");
    let ids: Vec<ExGuid> = series.pages().iter().map(|p| p.space_id).collect();
    assert_eq!(ids, vec![s2, s1, s3]);
}

#[test]
fn missing_page_series_root_fails() {
    let root = ObjectSpace::new(eg(91));
    let store = MemoryStore::new(root);
    let err = parse_page_series(eg(1), &store).unwrap_err();
    assert_eq!(err, ParseError::MalformedData(Reason::PageSeriesMissing));
}

#[test]
fn missing_page_space_fails() {
    let series_id = eg(1);
    let owning = eg(91);
    let s1 = eg(201);
    let s2 = eg(202);
    let root = root_space_declaring(series_id, &[s1, s2], owning);
    let mut store = MemoryStore::new(root);
    store.add_space(s1, ObjectSpace::new(s1));
    // s2 left out
    let err = parse_page_series(series_id, &store).unwrap_err();
    assert_eq!(err, ParseError::MalformedData(Reason::PageSpaceMissing));
}
