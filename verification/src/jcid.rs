use vstd::prelude::*;

verus! {

use crate::errors::ParseError;
use crate::reader::{Reader, le_val, le_u64_of, lemma_le_val_bound, pow256};

/// A schema tag: an opaque fixed-width value identifying which document
/// schema a node's properties conform to. Downstream decoders compare it
/// for equality against known schema constants.
#[derive(Clone, Copy, Debug, PartialEq, Eq, Hash, Structural)]
pub struct JcId(pub u32);

/// The schema tag encoded in the first four bytes of `s`, little-endian.
pub open spec fn spec_jcid(s: Seq<u8>) -> JcId {
    JcId(le_val(s.subrange(0, 4)) as u32)
}

impl JcId {
    /// Decode a four-byte schema tag from the front of the cursor; fail
    /// with `TruncatedInput` when fewer bytes are left.
    pub fn parse(reader: &mut Reader) -> (r: Result<JcId, ParseError>)
        requires
            old(reader).wf(),
        ensures
            final(reader).wf(),
            old(reader).remaining().len() >= 4 ==> {
                &&& r == Ok::<JcId, ParseError>(spec_jcid(old(reader).remaining()))
                &&& final(reader).remaining() == old(reader).remaining().skip(4)
            },
            old(reader).remaining().len() < 4 ==> r == Err::<JcId, ParseError>(
                ParseError::TruncatedInput,
            ),
    {
        let ghost s = old(reader).remaining();
        let bytes = match reader.take(4) {
            Ok(b) => b,
            Err(e) => {
                return Err(e);
            },
        };
        proof {
            lemma_le_val_bound(bytes@);
            reveal_with_fuel(pow256, 9);
            assert(bytes@ =~= s.subrange(0, 4));
        }
        let value = le_u64_of(bytes) as u32;
        Ok(JcId(value))
    }
}

} // verus!
