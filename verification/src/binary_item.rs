use vstd::prelude::*;

verus! {

use crate::compact_u64::{CompactU64, spec_parse};
use crate::errors::ParseError;
use crate::reader::Reader;

/// A byte array whose length is given by a leading compact integer.
#[derive(Debug)]
pub struct BinaryItem(Vec<u8>);

/// A blob of file data carried alongside the object graph.
#[derive(Debug)]
pub struct FileBlob(Vec<u8>);

/// What decoding a length-prefixed blob from the front of `s` yields: the
/// bytes and the total count consumed; `None` when the size prefix itself is
/// truncated or fewer bytes than it announces remain.
pub open spec fn spec_parse_binary(s: Seq<u8>) -> Option<(Seq<u8>, int)> {
    match spec_parse(s) {
        None => None,
        Some((size, n)) => {
            if s.len() - n < size {
                None
            } else {
                Some((s.subrange(n, n + size), n + size))
            }
        },
    }
}

impl BinaryItem {
    /// The bytes held.
    pub closed spec fn spec_data(self) -> Seq<u8> {
        self.0@
    }

    /// Wrap owned bytes.
    pub fn new(data: Vec<u8>) -> (r: BinaryItem)
        ensures
            r.spec_data() == data@,
    {
        BinaryItem(data)
    }

    /// Decode one length-prefixed blob: read a compact integer as the byte
    /// count, then consume exactly that many bytes. Fails with
    /// `TruncatedInput` when the cursor holds fewer bytes than announced;
    /// nothing is allocated for an announced size the input cannot back.
    pub fn parse(reader: &mut Reader) -> (r: Result<BinaryItem, ParseError>)
        requires
            old(reader).wf(),
        ensures
            final(reader).wf(),
            spec_parse_binary(old(reader).remaining()) matches Some(dn) ==> {
                &&& r matches Ok(item)
                &&& item.spec_data() == dn.0
                &&& final(reader).remaining() == old(reader).remaining().skip(dn.1)
            },
            spec_parse_binary(old(reader).remaining()) is None ==> r == Err::<
                BinaryItem,
                ParseError,
            >(ParseError::TruncatedInput),
    {
        let ghost s = old(reader).remaining();
        let size64 = match CompactU64::parse(reader) {
            Ok(c) => c.value(),
            Err(_) => {
                return Err(ParseError::TruncatedInput);
            },
        };
        let left = reader.remaining_len();
        if size64 > left as u64 {
            return Err(ParseError::TruncatedInput);
        }
        let size = size64 as usize;
        let bytes = match reader.take(size) {
            Ok(b) => b,
            Err(e) => {
                return Err(e);
            },
        };
        proof {
            let n = spec_parse(s).unwrap().1;
            assert(bytes@ =~= s.subrange(n, n + size64));
            assert(s.skip(n).skip(size as int) =~= s.skip(n + size64));
        }
        let data = vstd::slice::slice_to_vec(bytes);
        Ok(BinaryItem(data))
    }

    /// The bytes held, surrendered to the caller.
    pub fn value(self) -> (r: Vec<u8>)
        ensures
            r@ == self.spec_data(),
    {
        self.0
    }

    /// Encode the blob as a compact length followed by the bytes. Decoding
    /// the result (with anything at all appended after it) yields the bytes
    /// back and consumes exactly the encoding: the codec round-trips on
    /// every byte sequence, the empty one included.
    pub fn encode(&self) -> (r: Vec<u8>)
        ensures
            forall|rest: Seq<u8>| #![auto] spec_parse_binary(r@ + rest) == Some(
                (self.spec_data(), r@.len() as int),
            ),
    {
        let len = self.0.len();
        let mut out = CompactU64::encode(len as u64);
        let ghost prefix = out@;
        let mut i: usize = 0;
        while i < self.0.len()
            invariant
                i <= self.0@.len(),
                out@ == prefix + self.0@.take(i as int),
            decreases self.0@.len() - i,
        {
            let c = self.0[i];
            out.push(c);
            proof {
                assert(prefix + self.0@.take(i as int) + seq![self.0@[i as int]] =~= prefix
                    + self.0@.take(i + 1));
            }
            i = i + 1;
        }
        proof {
            assert(out@ =~= prefix + self.0@);
            assert forall|rest: Seq<u8>| #![auto]
                spec_parse_binary(out@ + rest) == Some(
                    (self.spec_data(), out@.len() as int),
                ) by {
                assert(out@ + rest =~= prefix + (self.0@ + rest));
                let s = out@ + rest;
                assert(spec_parse(s) == Some((len as u64, prefix.len() as int)));
                assert(s.subrange(prefix.len() as int, prefix.len() + len) =~= self.0@);
            }
        }
        out
    }
}

impl FileBlob {
    /// The bytes held.
    pub closed spec fn spec_data(self) -> Seq<u8> {
        self.0@
    }

    /// Read access to the bytes held.
    pub fn data(&self) -> (r: &Vec<u8>)
        ensures
            r@ == self.spec_data(),
    {
        &self.0
    }
}

impl From<BinaryItem> for FileBlob {
    /// A decoded binary item becomes file data unchanged.
    fn from(value: BinaryItem) -> (r: FileBlob)
        ensures
            r.spec_data() == value.spec_data(),
    {
        FileBlob(value.0)
    }
}

impl vstd::std_specs::convert::FromSpecImpl<BinaryItem> for FileBlob {
    closed spec fn obeys_from_spec() -> bool {
        true
    }

    closed spec fn from_spec(t: BinaryItem) -> FileBlob {
        FileBlob(t.0)
    }
}

} // verus!
