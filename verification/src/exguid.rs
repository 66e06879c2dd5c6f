use vstd::prelude::*;

verus! {

use crate::errors::ParseError;
use crate::reader::{Reader, le_val, le_u64_of, lemma_le_val_bound, pow256};

/// A 128-bit base identifier, held as two little-endian 64-bit halves.
#[derive(Clone, Copy, Debug, PartialEq, Eq, Hash, Structural)]
pub struct Guid {
    pub lo: u64,
    pub hi: u64,
}

/// An extended identifier: a base identifier plus a disambiguating index.
/// The universal reference key for nodes, blobs and reference targets;
/// equality is structural and total over both components.
#[derive(Clone, Copy, Debug, PartialEq, Eq, Hash, Structural)]
pub struct ExGuid {
    pub guid: Guid,
    pub value: u32,
}

/// The identifier encoded in the first 20 bytes of `s`: 16 little-endian
/// GUID bytes, then a 32-bit little-endian index.
pub open spec fn spec_exguid(s: Seq<u8>) -> ExGuid {
    ExGuid {
        guid: Guid {
            lo: le_val(s.subrange(0, 8)) as u64,
            hi: le_val(s.subrange(8, 16)) as u64,
        },
        value: le_val(s.subrange(16, 20)) as u32,
    }
}

impl ExGuid {
    /// Assemble an identifier from its parts.
    pub fn new(lo: u64, hi: u64, value: u32) -> (r: ExGuid)
        ensures
            r == (ExGuid { guid: Guid { lo, hi }, value }),
    {
        ExGuid { guid: Guid { lo, hi }, value }
    }

    /// Decode a 20-byte identifier from the cursor; fail with
    /// `TruncatedInput` when fewer bytes are left.
    pub fn parse(reader: &mut Reader) -> (r: Result<ExGuid, ParseError>)
        requires
            old(reader).wf(),
        ensures
            final(reader).wf(),
            old(reader).remaining().len() >= 20 ==> {
                &&& r == Ok::<ExGuid, ParseError>(spec_exguid(old(reader).remaining()))
                &&& final(reader).remaining() == old(reader).remaining().skip(20)
            },
            old(reader).remaining().len() < 20 ==> r == Err::<ExGuid, ParseError>(
                ParseError::TruncatedInput,
            ),
    {
        let ghost s = old(reader).remaining();
        if reader.remaining_len() < 20 {
            return Err(ParseError::TruncatedInput);
        }
        let lo_bytes = match reader.take(8) {
            Ok(b) => b,
            Err(e) => {
                return Err(e);
            },
        };
        let hi_bytes = match reader.take(8) {
            Ok(b) => b,
            Err(e) => {
                return Err(e);
            },
        };
        let value_bytes = match reader.take(4) {
            Ok(b) => b,
            Err(e) => {
                return Err(e);
            },
        };
        proof {
            lemma_le_val_bound(lo_bytes@);
            lemma_le_val_bound(hi_bytes@);
            lemma_le_val_bound(value_bytes@);
            reveal_with_fuel(pow256, 9);
            assert(lo_bytes@ =~= s.subrange(0, 8));
            assert(hi_bytes@ =~= s.subrange(8, 16));
            assert(value_bytes@ =~= s.subrange(16, 20));
            assert(s.skip(8).skip(8).skip(4) =~= s.skip(20));
        }
        let lo = le_u64_of(lo_bytes);
        let hi = le_u64_of(hi_bytes);
        let value = le_u64_of(value_bytes) as u32;
        Ok(ExGuid { guid: Guid { lo, hi }, value })
    }
}

} // verus!
