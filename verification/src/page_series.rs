use vstd::prelude::*;

verus! {

use crate::assoc;
use crate::errors::{ParseError, Reason};
use crate::exguid::ExGuid;
use crate::object::Object;

/// A named partition of the document graph: one object space's resolved
/// nodes, keyed by identifier.
#[derive(Debug)]
pub struct ObjectSpace {
    id: ExGuid,
    objects: Vec<(ExGuid, Object)>,
}

impl ObjectSpace {
    /// The space's own identifier.
    pub closed spec fn spec_id(self) -> ExGuid {
        self.id
    }

    /// What the space holds under a node identifier.
    pub closed spec fn spec_get(self, id: ExGuid) -> Option<Object> {
        assoc::lookup(self.objects@, id)
    }

    /// An empty object space.
    pub fn new(id: ExGuid) -> (r: ObjectSpace)
        ensures
            r.spec_id() == id,
            forall|id2: ExGuid| r.spec_get(id2) is None,
    {
        ObjectSpace { id, objects: Vec::new() }
    }

    /// Add a resolved node under a fresh identifier.
    pub fn add_object(&mut self, id: ExGuid, object: Object)
        requires
            old(self).spec_get(id) is None,
        ensures
            final(self).spec_id() == old(self).spec_id(),
            final(self).spec_get(id) == Some(object),
            forall|id2: ExGuid| id2 != id ==> final(self).spec_get(id2) == old(self).spec_get(id2),
    {
        proof {
            assert forall|id2: ExGuid| id2 != id implies assoc::lookup(
                self.objects@.push((id, object)),
                id2,
            ) == assoc::lookup(self.objects@, id2) by {
                assoc::lemma_lookup_push(self.objects@, (id, object), id2);
            }
            assoc::lemma_lookup_push(self.objects@, (id, object), id);
        }
        self.objects.push((id, object));
    }

    /// The space's own identifier.
    pub fn id(&self) -> (r: ExGuid)
        ensures
            r == self.spec_id(),
    {
        self.id
    }

    /// Look a resolved node up by identifier.
    pub fn get_object(&self, id: ExGuid) -> (r: Option<&Object>)
        ensures
            match r {
                Some(o) => self.spec_get(id) == Some(*o),
                None => self.spec_get(id) is None,
            },
    {
        let n = self.objects.len();
        let mut i: usize = 0;
        proof {
            assert(self.objects@.skip(0) =~= self.objects@);
        }
        while i < n
            invariant
                i <= n,
                n == self.objects@.len(),
                assoc::lookup(self.objects@, id) == assoc::lookup(self.objects@.skip(i as int), id),
            decreases n - i,
        {
            let entry = &self.objects[i];
            proof {
                assert(self.objects@.skip(i as int)[0] == self.objects@[i as int]);
                assert(self.objects@.skip(i as int).skip(1) =~= self.objects@.skip(i + 1));
            }
            if entry.0 == id {
                return Some(&entry.1);
            }
            i = i + 1;
        }
        None
    }
}

/// The store abstraction the traversal consumes: a root object space and a
/// lookup of object spaces by identifier. The loading layer materializes it
/// before traversal runs.
pub trait OneStore {
    /// The root object space.
    spec fn spec_data_root(&self) -> ObjectSpace;

    /// What the store holds under a space identifier.
    spec fn spec_object_space(&self, id: ExGuid) -> Option<ObjectSpace>;

    /// The root object space.
    fn data_root(&self) -> (r: &ObjectSpace)
        ensures
            *r == self.spec_data_root(),
    ;

    /// Look an object space up by identifier.
    fn object_space(&self, id: ExGuid) -> (r: Option<&ObjectSpace>)
        ensures
            match r {
                Some(s) => self.spec_object_space(id) == Some(*s),
                None => self.spec_object_space(id) is None,
            },
    ;
}

/// An in-memory store: the root space plus the other spaces keyed by
/// identifier.
pub struct MemoryStore {
    root: ObjectSpace,
    spaces: Vec<(ExGuid, ObjectSpace)>,
}

impl MemoryStore {
    /// A store with the given root and no other spaces yet.
    pub fn new(root: ObjectSpace) -> (r: MemoryStore)
        ensures
            r.spec_data_root() == root,
            forall|id: ExGuid| r.spec_object_space(id) is None,
    {
        MemoryStore { root, spaces: Vec::new() }
    }

    /// Add an object space under a fresh identifier.
    pub fn add_space(&mut self, id: ExGuid, space: ObjectSpace)
        requires
            old(self).spec_object_space(id) is None,
        ensures
            final(self).spec_data_root() == old(self).spec_data_root(),
            final(self).spec_object_space(id) == Some(space),
            forall|id2: ExGuid|
                id2 != id ==> final(self).spec_object_space(id2) == old(self).spec_object_space(
                    id2,
                ),
    {
        proof {
            assert forall|id2: ExGuid| id2 != id implies assoc::lookup(
                self.spaces@.push((id, space)),
                id2,
            ) == assoc::lookup(self.spaces@, id2) by {
                assoc::lemma_lookup_push(self.spaces@, (id, space), id2);
            }
            assoc::lemma_lookup_push(self.spaces@, (id, space), id);
        }
        self.spaces.push((id, space));
    }
}

impl OneStore for MemoryStore {
    closed spec fn spec_data_root(&self) -> ObjectSpace {
        self.root
    }

    closed spec fn spec_object_space(&self, id: ExGuid) -> Option<ObjectSpace> {
        assoc::lookup(self.spaces@, id)
    }

    fn data_root(&self) -> (r: &ObjectSpace) {
        &self.root
    }

    fn object_space(&self, id: ExGuid) -> (r: Option<&ObjectSpace>) {
        let n = self.spaces.len();
        let mut i: usize = 0;
        proof {
            assert(self.spaces@.skip(0) =~= self.spaces@);
        }
        while i < n
            invariant
                i <= n,
                n == self.spaces@.len(),
                assoc::lookup(self.spaces@, id) == assoc::lookup(self.spaces@.skip(i as int), id),
            decreases n - i,
        {
            let entry = &self.spaces[i];
            proof {
                assert(self.spaces@.skip(i as int)[0] == self.spaces@[i as int]);
                assert(self.spaces@.skip(i as int).skip(1) =~= self.spaces@.skip(i + 1));
            }
            if entry.0 == id {
                return Some(&entry.1);
            }
            i = i + 1;
        }
        None
    }
}

/// One page: the handle of the object space whose node tree backs it.
#[derive(Clone, Copy, Debug, PartialEq, Eq, Structural)]
pub struct Page {
    pub space_id: ExGuid,
}

/// A series of pages, ordered exactly as the series root declares its child
/// object spaces.
#[derive(Debug)]
pub struct PageSeries {
    pages: Vec<Page>,
}

impl PageSeries {
    /// The pages held, in declared order.
    pub closed spec fn spec_pages(self) -> Seq<Page> {
        self.pages@
    }

    /// The pages contained in this page series.
    pub fn pages(&self) -> (r: &[Page])
        ensures
            r@ == self.spec_pages(),
    {
        self.pages.as_slice()
    }
}

/// What collecting the declared child spaces yields: one page per target,
/// in declared order; the first target the store misses fails the whole
/// collection.
pub open spec fn spec_collect_pages<S: OneStore + ?Sized>(targets: Seq<ExGuid>, store: &S) -> Result<
    Seq<Page>,
    ParseError,
>
    decreases targets.len(),
{
    if targets.len() == 0 {
        Ok(Seq::empty())
    } else {
        match spec_collect_pages(targets.drop_last(), store) {
            Err(e) => Err(e),
            Ok(pages) => match store.spec_object_space(targets.last()) {
                None => Err(ParseError::MalformedData(Reason::PageSpaceMissing)),
                Some(space) => Ok(pages.push(Page { space_id: targets.last() })),
            },
        }
    }
}

/// The resolved cross-space targets a node declares, in declared order.
pub open spec fn spec_page_spaces(node: crate::object::NodeView) -> Seq<ExGuid> {
    node.mapping_object_spaces.map_values(|p: (ExGuid, ExGuid)| p.1)
}

/// What traversing a series root yields: the root node is looked up in the
/// root object space, and each child object space it declares becomes a
/// page, in declared order.
pub open spec fn spec_parse_page_series<S: OneStore + ?Sized>(id: ExGuid, store: &S) -> Result<
    Seq<Page>,
    ParseError,
> {
    match store.spec_data_root().spec_get(id) {
        None => Err(ParseError::MalformedData(Reason::PageSeriesMissing)),
        Some(root) => spec_collect_pages(spec_page_spaces(root@), store),
    }
}

/// A collection that errors on some prefix errors the same way as a whole.
proof fn lemma_collect_err_prefix<S: OneStore + ?Sized>(targets: Seq<ExGuid>, store: &S, j: int)
    requires
        0 <= j <= targets.len(),
        spec_collect_pages(targets.take(j), store) is Err,
    ensures
        spec_collect_pages(targets, store) == spec_collect_pages(targets.take(j), store),
    decreases targets.len() - j,
{
    if j == targets.len() {
        assert(targets.take(j) =~= targets);
    } else {
        assert(targets.take(j + 1).drop_last() =~= targets.take(j));
        lemma_collect_err_prefix(targets, store, j + 1);
    }
}

/// Resolve a page series: find the root node, then one page per declared
/// child object space, in declared order. The first missing child space
/// fails the traversal; a missing root fails it before any child is tried.
pub fn parse_page_series<S: OneStore>(id: ExGuid, store: &S) -> (r: Result<
    PageSeries,
    ParseError,
>)
    ensures
        spec_parse_page_series(id, store) matches Ok(pgs) ==> r matches Ok(ps)
            && ps.spec_pages() == pgs,
        spec_parse_page_series(id, store) matches Err(e) ==> r == Err::<PageSeries, ParseError>(e),
{
    let root_space = store.data_root();
    let object = match root_space.get_object(id) {
        Some(o) => o,
        None => {
            return Err(ParseError::MalformedData(Reason::PageSeriesMissing));
        },
    };
    let space_entries = object.mapping().object_space_entries();
    let ghost targets = spec_page_spaces(object@);
    proof {
        assert(targets.len() == space_entries@.len());
    }
    let n = space_entries.len();
    let mut pages: Vec<Page> = Vec::new();
    let mut i: usize = 0;
    proof {
        assert(targets.take(0) =~= Seq::<ExGuid>::empty());
    }
    while i < n
        invariant
            i <= n,
            n == space_entries@.len(),
            store.spec_data_root().spec_get(id) == Some(*object),
            targets == spec_page_spaces(object@),
            targets == space_entries@.map_values(|p: (ExGuid, ExGuid)| p.1),
            spec_collect_pages(targets.take(i as int), store) == Ok::<Seq<Page>, ParseError>(
                pages@,
            ),
        decreases n - i,
    {
        let target = space_entries[i].1;
        proof {
            assert(targets[i as int] == space_entries@[i as int].1);
            assert(targets.take(i + 1).drop_last() =~= targets.take(i as int));
            assert(targets.take(i + 1).last() == targets[i as int]);
        }
        match store.object_space(target) {
            None => {
                proof {
                    lemma_collect_err_prefix(targets, store, i + 1);
                }
                return Err(ParseError::MalformedData(Reason::PageSpaceMissing));
            },
            Some(_space) => {
                pages.push(Page { space_id: target });
            },
        }
        i = i + 1;
    }
    proof {
        assert(targets.take(n as int) =~= targets);
    }
    Ok(PageSeries { pages })
}

/// A successful collection holds exactly one page per declared target, in
/// declared order — never re-sorted — and succeeds precisely when the store
/// holds every declared target.
pub proof fn lemma_pages_match_declared_order<S: OneStore + ?Sized>(
    targets: Seq<ExGuid>,
    store: &S,
)
    ensures
        spec_collect_pages(targets, store) is Ok <==> (forall|i: int|
            0 <= i < targets.len() ==> store.spec_object_space(targets[i]) is Some),
        spec_collect_pages(targets, store) matches Ok(pgs) ==> pgs.len() == targets.len() && (
        forall|i: int| 0 <= i < targets.len() ==> pgs[i] == (Page { space_id: targets[i] })),
    decreases targets.len(),
{
    if targets.len() > 0 {
        lemma_pages_match_declared_order(targets.drop_last(), store);
        assert forall|i: int|
            0 <= i < targets.drop_last().len() implies targets.drop_last()[i] == targets[i] by {}
    }
}

} // verus!
