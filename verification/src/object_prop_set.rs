use vstd::prelude::*;

verus! {

use crate::binary_item::{BinaryItem, spec_parse_binary};
use crate::compact_u64::{CompactU64, spec_parse};
use crate::errors::ParseError;
use crate::exguid::{ExGuid, spec_exguid};
use crate::reader::{Reader, le_val, le_u64_of, lemma_le_val_bound, pow256};

/// The view of a parsed property set: the three declared-reference lists
/// and the trailing raw property bytes.
pub ghost struct PropSetView {
    pub object_ids: Seq<ExGuid>,
    pub context_ids: Seq<ExGuid>,
    pub object_space_ids: Seq<ExGuid>,
    pub data: Seq<u8>,
}

/// What parsing one declared-reference list from the front of `s` yields: a
/// compact count, then that many 20-byte identifiers; `None` when the input
/// is shorter than the count announces.
pub open spec fn spec_parse_guid_list(s: Seq<u8>) -> Option<(Seq<ExGuid>, int)> {
    match spec_parse(s) {
        None => None,
        Some((count, n)) => {
            if s.len() - n < count * 20 {
                None
            } else {
                Some(
                    (
                        Seq::new(
                            count as nat,
                            |i: int| spec_exguid(s.subrange(n + 20 * i, n + 20 * i + 20)),
                        ),
                        n + count * 20,
                    ),
                )
            }
        },
    }
}

/// What parsing a property set from the whole of `s` yields: the three
/// declared-reference lists in order (object-valued, context-valued,
/// object-space-valued), then everything left as raw property bytes.
pub open spec fn spec_parse_prop_set(s: Seq<u8>) -> Option<PropSetView> {
    match spec_parse_guid_list(s) {
        None => None,
        Some((objs, n1)) => match spec_parse_guid_list(s.skip(n1)) {
            None => None,
            Some((ctxs, n2)) => match spec_parse_guid_list(s.skip(n1).skip(n2)) {
                None => None,
                Some((spaces, n3)) => Some(
                    PropSetView {
                        object_ids: objs,
                        context_ids: ctxs,
                        object_space_ids: spaces,
                        data: s.skip(n1).skip(n2).skip(n3),
                    },
                ),
            },
        },
    }
}

/// Among the next `count` entries of `s` — each a 32-bit little-endian
/// property-type identifier followed by a length-prefixed value — the value
/// of the first entry keyed `id`; `None` when no entry matches or the
/// entries are malformed.
pub open spec fn spec_find_entry(s: Seq<u8>, count: u64, id: u32) -> Option<Seq<u8>>
    decreases count,
{
    if count == 0 {
        None
    } else if s.len() < 4 {
        None
    } else {
        let entry_id = le_val(s.subrange(0, 4)) as u32;
        match spec_parse_binary(s.skip(4)) {
            None => None,
            Some((blob, n)) => {
                if entry_id == id {
                    Some(blob)
                } else {
                    spec_find_entry(s.skip(4).skip(n), (count - 1) as u64, id)
                }
            },
        }
    }
}

/// The value stored under a property-type identifier in raw property bytes:
/// a compact entry count, then that many keyed entries.
pub open spec fn spec_find_property(s: Seq<u8>, id: u32) -> Option<Seq<u8>> {
    match spec_parse(s) {
        None => None,
        Some((count, n)) => spec_find_entry(s.skip(n), count, id),
    }
}

/// A property set parsed from an object fragment's payload. It exposes the
/// three declared-reference lists whose lengths the resolver validates
/// against the fragment's own reference lists, and the raw bytes of the
/// remaining property slots for downstream schema decoders.
#[derive(Debug)]
pub struct ObjectPropSet {
    object_ids: Vec<ExGuid>,
    context_ids: Vec<ExGuid>,
    object_space_ids: Vec<ExGuid>,
    data: Vec<u8>,
}

impl View for ObjectPropSet {
    type V = PropSetView;

    closed spec fn view(&self) -> PropSetView {
        PropSetView {
            object_ids: self.object_ids@,
            context_ids: self.context_ids@,
            object_space_ids: self.object_space_ids@,
            data: self.data@,
        }
    }
}

/// Decode one declared-reference list: a compact count, then that many
/// identifiers. Nothing is allocated for a count the input cannot back.
fn parse_guid_list(reader: &mut Reader) -> (r: Result<Vec<ExGuid>, ParseError>)
    requires
        old(reader).wf(),
    ensures
        final(reader).wf(),
        spec_parse_guid_list(old(reader).remaining()) matches Some(ln) ==> {
            &&& r matches Ok(v)
            &&& v@ == ln.0
            &&& final(reader).remaining() == old(reader).remaining().skip(ln.1)
        },
        spec_parse_guid_list(old(reader).remaining()) is None ==> r == Err::<
            Vec<ExGuid>,
            ParseError,
        >(ParseError::TruncatedInput),
{
    let ghost s = old(reader).remaining();
    let count = match CompactU64::parse(reader) {
        Ok(c) => c.value(),
        Err(_) => {
            return Err(ParseError::TruncatedInput);
        },
    };
    let ghost n = spec_parse(s).unwrap().1;
    let left = reader.remaining_len();
    proof {
        vstd::arithmetic::div_mod::lemma_fundamental_div_mod(left as int, 20);
    }
    if count > (left / 20) as u64 {
        proof {
            assert(count * 20 > left) by (nonlinear_arith)
                requires
                    count > left as int / 20,
                    left == 20 * (left as int / 20) + left as int % 20,
                    0 <= left as int % 20 < 20,
            ;
        }
        return Err(ParseError::TruncatedInput);
    }
    proof {
        assert(count * 20 <= left) by (nonlinear_arith)
            requires
                count <= left as int / 20,
                left == 20 * (left as int / 20) + left as int % 20,
                0 <= left as int % 20 < 20,
        ;
    }
    let count_us = count as usize;
    let ghost list = spec_parse_guid_list(s).unwrap().0;
    let mut out: Vec<ExGuid> = Vec::new();
    let mut i: usize = 0;
    proof {
        assert(s.skip(n).skip(0) =~= s.skip(n));
        assert(out@ =~= list.take(0));
    }
    while i < count_us
        invariant
            i <= count_us,
            count_us == count,
            reader.wf(),
            spec_parse(s) == Some((count, n)),
            s.len() - n >= count * 20,
            list == spec_parse_guid_list(s).unwrap().0,
            list.len() == count,
            list == Seq::new(
                count as nat,
                |j: int| spec_exguid(s.subrange(n + 20 * j, n + 20 * j + 20)),
            ),
            reader.remaining() == s.skip(n + 20 * (i as int)),
            out@ == list.take(i as int),
        decreases count_us - i,
    {
        let ghost a = n + 20 * (i as int);
        proof {
            assert(s.skip(a).len() == s.len() - a);
            assert(s.len() - a >= 20 * (count - i)) by (nonlinear_arith)
                requires
                    a == n + 20 * (i as int),
                    s.len() - n >= count * 20,
                    i < count,
            ;
        }
        let g = match ExGuid::parse(reader) {
            Ok(g) => g,
            Err(_) => {
                return Err(ParseError::TruncatedInput);
            },
        };
        proof {
            assert(s.skip(a).subrange(0, 8) =~= s.subrange(a, a + 8));
            assert(s.subrange(a, a + 20).subrange(0, 8) =~= s.subrange(a, a + 8));
            assert(s.skip(a).subrange(8, 16) =~= s.subrange(a + 8, a + 16));
            assert(s.subrange(a, a + 20).subrange(8, 16) =~= s.subrange(a + 8, a + 16));
            assert(s.skip(a).subrange(16, 20) =~= s.subrange(a + 16, a + 20));
            assert(s.subrange(a, a + 20).subrange(16, 20) =~= s.subrange(a + 16, a + 20));
            assert(spec_exguid(s.skip(a)) == spec_exguid(s.subrange(a, a + 20)));
            assert(list[i as int] == spec_exguid(s.subrange(a, a + 20)));
            assert(list.take(i as int).push(list[i as int]) =~= list.take(i as int + 1));
            assert(s.skip(a).skip(20) =~= s.skip(a + 20));
        }
        out.push(g);
        i = i + 1;
    }
    proof {
        assert(list.take(count as int) =~= list);
    }
    Ok(out)
}

impl ObjectPropSet {
    /// Assemble a property set from its parts.
    pub fn new(
        object_ids: Vec<ExGuid>,
        context_ids: Vec<ExGuid>,
        object_space_ids: Vec<ExGuid>,
        data: Vec<u8>,
    ) -> (r: ObjectPropSet)
        ensures
            r@ == (PropSetView {
                object_ids: object_ids@,
                context_ids: context_ids@,
                object_space_ids: object_space_ids@,
                data: data@,
            }),
    {
        ObjectPropSet { object_ids, context_ids, object_space_ids, data }
    }

    /// Decode a property set from the whole remainder of the cursor: the
    /// three declared-reference lists, then the raw property bytes.
    pub fn parse(reader: &mut Reader) -> (r: Result<ObjectPropSet, ParseError>)
        requires
            old(reader).wf(),
        ensures
            final(reader).wf(),
            spec_parse_prop_set(old(reader).remaining()) matches Some(v) ==> {
                &&& r matches Ok(p)
                &&& p@ == v
                &&& final(reader).remaining().len() == 0
            },
            spec_parse_prop_set(old(reader).remaining()) is None ==> r == Err::<
                ObjectPropSet,
                ParseError,
            >(ParseError::TruncatedInput),
    {
        let ghost s = old(reader).remaining();
        let object_ids = match parse_guid_list(reader) {
            Ok(v) => v,
            Err(e) => {
                return Err(e);
            },
        };
        let context_ids = match parse_guid_list(reader) {
            Ok(v) => v,
            Err(e) => {
                return Err(e);
            },
        };
        let object_space_ids = match parse_guid_list(reader) {
            Ok(v) => v,
            Err(e) => {
                return Err(e);
            },
        };
        let left = reader.remaining_len();
        let bytes = match reader.take(left) {
            Ok(b) => b,
            Err(e) => {
                return Err(e);
            },
        };
        proof {
            let tail = spec_parse_guid_list(s).unwrap().1;
            let tail2 = spec_parse_guid_list(s.skip(tail)).unwrap().1;
            assert(bytes@ =~= s.skip(tail).skip(tail2).skip(
                spec_parse_guid_list(s.skip(tail).skip(tail2)).unwrap().1,
            ));
        }
        let data = vstd::slice::slice_to_vec(bytes);
        Ok(ObjectPropSet { object_ids, context_ids, object_space_ids, data })
    }

    /// The declared object-valued reference identifiers, in order.
    pub fn object_ids(&self) -> (r: &Vec<ExGuid>)
        ensures
            r@ == self@.object_ids,
    {
        &self.object_ids
    }

    /// The declared context-valued reference identifiers, in order.
    pub fn context_ids(&self) -> (r: &Vec<ExGuid>)
        ensures
            r@ == self@.context_ids,
    {
        &self.context_ids
    }

    /// The declared object-space-valued reference identifiers, in order.
    pub fn object_space_ids(&self) -> (r: &Vec<ExGuid>)
        ensures
            r@ == self@.object_space_ids,
    {
        &self.object_space_ids
    }

    /// The raw bytes of the remaining property slots.
    pub fn data(&self) -> (r: &Vec<u8>)
        ensures
            r@ == self@.data,
    {
        &self.data
    }

    /// The raw bytes stored under a property-type identifier, when the raw
    /// property slots form a well-formed keyed table holding that entry.
    #[verifier::rlimit(50)]
    pub fn get_raw(&self, id: u32) -> (r: Option<Vec<u8>>)
        ensures
            match spec_find_property(self@.data, id) {
                Some(b) => r matches Some(v) && v@ == b,
                None => r is None,
            },
    {
        let ghost s0 = self.data@;
        let mut reader = Reader::new(self.data.as_slice());
        let count = match CompactU64::parse(&mut reader) {
            Ok(c) => c.value(),
            Err(_) => {
                return None;
            },
        };
        let mut remaining_count = count;
        while remaining_count > 0
            invariant
                reader.wf(),
                s0 == self@.data,
                spec_find_property(s0, id) == spec_find_entry(
                    reader.remaining(),
                    remaining_count,
                    id,
                ),
            decreases remaining_count,
        {
            let ghost here = reader.remaining();
            let key_bytes = match reader.take(4) {
                Ok(b) => b,
                Err(_) => {
                    return None;
                },
            };
            proof {
                assert(le_val(key_bytes@) < 0x1_0000_0000) by {
                    lemma_le_val_bound(key_bytes@);
                    reveal_with_fuel(pow256, 9);
                }
                assert(key_bytes@ =~= here.subrange(0, 4));
            }
            let key = le_u64_of(key_bytes) as u32;
            let item = match BinaryItem::parse(&mut reader) {
                Ok(it) => it,
                Err(_) => {
                    return None;
                },
            };
            if key == id {
                return Some(item.value());
            }
            proof {
                let n = spec_parse_binary(here.skip(4)).unwrap().1;
                assert(here.skip(4).skip(n) =~= reader.remaining());
            }
            remaining_count = remaining_count - 1;
        }
        None
    }

    /// The 32-bit little-endian integer stored under a property-type
    /// identifier: present exactly when the slot exists and holds four bytes.
    pub fn get_u32(&self, id: u32) -> (r: Option<u32>)
        ensures
            match spec_find_property(self@.data, id) {
                Some(b) => r == if b.len() == 4 {
                    Some(le_val(b) as u32)
                } else {
                    None::<u32>
                },
                None => r is None,
            },
    {
        match self.get_raw(id) {
            Some(v) => {
                if v.len() == 4 {
                    proof {
                        lemma_le_val_bound(v@);
                        reveal_with_fuel(pow256, 9);
                    }
                    Some(le_u64_of(v.as_slice()) as u32)
                } else {
                    None
                }
            },
            None => None,
        }
    }

    /// The boolean stored under a property-type identifier: present exactly
    /// when the slot exists and holds one byte; any nonzero byte is true.
    pub fn get_bool(&self, id: u32) -> (r: Option<bool>)
        ensures
            match spec_find_property(self@.data, id) {
                Some(b) => r == if b.len() == 1 {
                    Some(b[0] != 0)
                } else {
                    None::<bool>
                },
                None => r is None,
            },
    {
        match self.get_raw(id) {
            Some(v) => {
                if v.len() == 1 {
                    Some(v[0] != 0)
                } else {
                    None
                }
            },
            None => None,
        }
    }
}

} // verus!
