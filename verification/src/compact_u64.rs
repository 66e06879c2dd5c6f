use vstd::prelude::*;

verus! {

use crate::errors::ParseError;
use crate::reader::{Reader, le_val, le_u64_of, le_bytes_of, pow256, lemma_le_val_bound,
    lemma_pow256_monotonic};

/// A variable-width unsigned 64-bit integer. The encoding selects its own
/// width from a tag in the leading byte: the position of the lowest set bit
/// of the first byte gives the total byte count, and the remaining bits of
/// the little-endian group hold the value. A first byte of zero encodes the
/// value zero; a first byte with only the top bit set announces a full
/// eight-byte little-endian value.
#[derive(Debug)]
pub struct CompactU64(u64);

/// Parsing a width-`width` group from the front of `s`: the little-endian
/// value of the first `width` bytes with the low tag bits divided away.
pub open spec fn spec_parse_wide(s: Seq<u8>, width: int, div: nat) -> Option<(u64, int)> {
    if s.len() < width {
        None
    } else {
        Some(((le_val(s.subrange(0, width)) / div) as u64, width))
    }
}

/// What decoding a compact integer from the front of `s` yields: the value
/// and the count of bytes consumed; `None` when `s` holds fewer bytes than
/// the tag in its first byte demands.
pub open spec fn spec_parse(s: Seq<u8>) -> Option<(u64, int)> {
    if s.len() == 0 {
        None
    } else {
        let b0 = s[0];
        if b0 == 0 {
            Some((0u64, 1int))
        } else if b0 % 2 == 1 {
            Some(((b0 / 2) as u64, 1int))
        } else if (b0 / 2) % 2 == 1 {
            spec_parse_wide(s, 2, 4)
        } else if (b0 / 4) % 2 == 1 {
            spec_parse_wide(s, 3, 8)
        } else if (b0 / 8) % 2 == 1 {
            spec_parse_wide(s, 4, 16)
        } else if (b0 / 16) % 2 == 1 {
            spec_parse_wide(s, 5, 32)
        } else if (b0 / 32) % 2 == 1 {
            spec_parse_wide(s, 6, 64)
        } else if (b0 / 64) % 2 == 1 {
            spec_parse_wide(s, 7, 128)
        } else {
            if s.len() < 9 {
                None
            } else {
                Some((le_val(s.subrange(1, 9)) as u64, 9))
            }
        }
    }
}

/// Prepending a byte scales the tail's value by one position.
pub proof fn lemma_le_val_cons(b0: u8, t: Seq<u8>)
    ensures
        le_val(seq![b0] + t) == b0 as nat + 256 * le_val(t),
{
    assert((seq![b0] + t)[0] == b0);
    assert((seq![b0] + t).skip(1) =~= t);
}

impl CompactU64 {
    /// The decoded value.
    pub closed spec fn spec_value(self) -> u64 {
        self.0
    }

    /// The decoded value.
    pub fn value(self) -> (v: u64)
        ensures
            v == self.spec_value(),
    {
        self.0
    }

    /// Decode one compact integer from the cursor, consuming exactly the
    /// bytes that its leading tag demands; fail with `TruncatedInput` when
    /// the cursor holds fewer.
    pub fn parse(reader: &mut Reader) -> (r: Result<CompactU64, ParseError>)
        requires
            old(reader).wf(),
        ensures
            final(reader).wf(),
            spec_parse(old(reader).remaining()) matches Some(vn) ==> {
                &&& r matches Ok(c)
                &&& c.spec_value() == vn.0
                &&& final(reader).remaining() == old(reader).remaining().skip(vn.1)
            },
            spec_parse(old(reader).remaining()) is None ==> r == Err::<
                CompactU64,
                ParseError,
            >(ParseError::TruncatedInput),
    {
        let ghost s = old(reader).remaining();
        let b0 = match reader.take_byte() {
            Ok(b) => b,
            Err(_) => {
                return Err(ParseError::TruncatedInput);
            },
        };
        if b0 == 0 {
            return Ok(CompactU64(0));
        }
        if b0 % 2 == 1 {
            return Ok(CompactU64((b0 / 2) as u64));
        }
        let width: usize = if (b0 / 2) % 2 == 1 {
            2
        } else if (b0 / 4) % 2 == 1 {
            3
        } else if (b0 / 8) % 2 == 1 {
            4
        } else if (b0 / 16) % 2 == 1 {
            5
        } else if (b0 / 32) % 2 == 1 {
            6
        } else if (b0 / 64) % 2 == 1 {
            7
        } else {
            9
        };
        if width == 9 {
            let bytes = match reader.take(8) {
                Ok(b) => b,
                Err(_) => {
                    return Err(ParseError::TruncatedInput);
                },
            };
            let x = le_u64_of(bytes);
            proof {
                assert(bytes@ =~= s.subrange(1, 9));
                assert(s.skip(1).skip(8) =~= s.skip(9));
            }
            return Ok(CompactU64(x));
        }
        let divisor: u64 = if width == 2 {
            4
        } else if width == 3 {
            8
        } else if width == 4 {
            16
        } else if width == 5 {
            32
        } else if width == 6 {
            64
        } else {
            128
        };
        let rest = match reader.take(width - 1) {
            Ok(b) => b,
            Err(_) => {
                return Err(ParseError::TruncatedInput);
            },
        };
        let x = le_u64_of(rest);
        proof {
            lemma_le_val_bound(rest@);
            lemma_pow256_monotonic(rest@.len(), 6);
            reveal_with_fuel(pow256, 9);
            lemma_le_val_cons(b0, rest@);
            assert(seq![b0] + rest@ =~= s.subrange(0, width as int));
            assert(s.skip(1).skip((width - 1) as int) =~= s.skip(width as int));
        }
        let full: u64 = (b0 as u64) + 256 * x;
        let value: u64 = full / divisor;
        Ok(CompactU64(value))
    }

    /// Encode a value in the fewest bytes its magnitude allows. Decoding the
    /// result (with anything at all appended after it) yields the value back
    /// and consumes exactly the encoding: the codec round-trips on every
    /// `u64`.
    pub fn encode(value: u64) -> (r: Vec<u8>)
        ensures
            forall|rest: Seq<u8>| #![auto] spec_parse(r@ + rest) == Some(
                (value, r@.len() as int),
            ),
    {
        if value == 0 {
            let mut out: Vec<u8> = Vec::new();
            out.push(0);
            proof {
                assert forall|rest: Seq<u8>| #![auto]
                    spec_parse(out@ + rest) == Some((value, out@.len() as int)) by {
                    assert((out@ + rest)[0] == 0);
                }
            }
            out
        } else if value < 0x80 {
            let mut out: Vec<u8> = Vec::new();
            out.push((value * 2 + 1) as u8);
            proof {
                assert forall|rest: Seq<u8>| #![auto]
                    spec_parse(out@ + rest) == Some((value, out@.len() as int)) by {
                    let s = out@ + rest;
                    assert(s[0] == (value * 2 + 1) as u8);
                    assert((value * 2 + 1) as u8 as u64 == value * 2 + 1);
                    assert(s[0] != 0 && s[0] % 2 == 1);
                    assert((s[0] / 2) as u64 == value);
                }
            }
            out
        } else if value < 0x4000 {
            Self::encode_wide(value, 2)
        } else if value < 0x20_0000 {
            Self::encode_wide(value, 3)
        } else if value < 0x1000_0000 {
            Self::encode_wide(value, 4)
        } else if value < 0x8_0000_0000 {
            Self::encode_wide(value, 5)
        } else if value < 0x400_0000_0000 {
            Self::encode_wide(value, 6)
        } else if value < 0x2_0000_0000_0000 {
            Self::encode_wide(value, 7)
        } else {
            let mut out: Vec<u8> = Vec::new();
            out.push(0x80);
            proof {
                reveal_with_fuel(pow256, 9);
            }
            let mut tail = le_bytes_of(value, 8);
            let ghost tail_view = tail@;
            out.append(&mut tail);
            proof {
                assert forall|rest: Seq<u8>| #![auto]
                    spec_parse(out@ + rest) == Some((value, out@.len() as int)) by {
                    let s = out@ + rest;
                    assert(s[0] == 0x80);
                    assert(s.subrange(1, 9) =~= tail_view);
                }
            }
            out
        }
    }

    /// Encode `value` as a `width`-byte group, `2 <= width <= 7`: a group
    /// of that width holds values below `2^(7 * width)`.
    fn encode_wide(value: u64, width: usize) -> (r: Vec<u8>)
        requires
            2 <= width <= 7,
            width == 2 ==> value < 0x4000,
            width == 3 ==> value < 0x20_0000,
            width == 4 ==> value < 0x1000_0000,
            width == 5 ==> value < 0x8_0000_0000,
            width == 6 ==> value < 0x400_0000_0000,
            width == 7 ==> value < 0x2_0000_0000_0000,
        ensures
            forall|rest: Seq<u8>| #![auto] spec_parse(r@ + rest) == Some(
                (value, r@.len() as int),
            ),
    {
        proof {
            reveal_with_fuel(pow256, 9);
        }
        let divisor: u64 = if width == 2 {
            4
        } else if width == 3 {
            8
        } else if width == 4 {
            16
        } else if width == 5 {
            32
        } else if width == 6 {
            64
        } else {
            128
        };
        let stored: u64 = value * divisor + divisor / 2;
        let out = le_bytes_of(stored, width);
        proof {
            let w = width as int;
            assert forall|rest: Seq<u8>| #![auto]
                spec_parse(out@ + rest) == Some((value, out@.len() as int)) by {
                let s = out@ + rest;
                assert(s.subrange(0, w) =~= out@);
                let s0 = s[0];
                let t = out@.skip(1);
                lemma_le_val_bound(t);
                lemma_pow256_monotonic(t.len(), 6);
                assert(le_val(out@) == s0 as nat + 256 * le_val(t));
                Self::lemma_tag_bits(s0 as u64, le_val(t) as u64, value, stored, divisor, width);
            }
        }
        out
    }

    /// Bit-level facts about the first byte of a stored group: the tag bit
    /// pattern selects the right width and the division recovers the value.
    proof fn lemma_tag_bits(s0: u64, hi: u64, value: u64, stored: u64, divisor: u64, width: usize)
        requires
            s0 < 256,
            2 <= width <= 7,
            divisor == if width == 2 { 4u64 } else if width == 3 { 8u64 } else if width == 4 {
                16u64
            } else if width == 5 { 32u64 } else if width == 6 { 64u64 } else { 128u64 },
            stored == value * divisor + divisor / 2,
            value < 0x2_0000_0000_0000,
            s0 + 256 * hi == stored,
            hi < 0x100_0000_0000_0000,
        ensures
            s0 != 0,
            s0 % 2 == 0,
            width > 2 ==> (s0 / 2) % 2 == 0,
            width > 3 ==> (s0 / 4) % 2 == 0,
            width > 4 ==> (s0 / 8) % 2 == 0,
            width > 5 ==> (s0 / 16) % 2 == 0,
            width > 6 ==> (s0 / 32) % 2 == 0,
            width == 2 ==> (s0 / 2) % 2 == 1,
            width == 3 ==> (s0 / 4) % 2 == 1,
            width == 4 ==> (s0 / 8) % 2 == 1,
            width == 5 ==> (s0 / 16) % 2 == 1,
            width == 6 ==> (s0 / 32) % 2 == 1,
            width == 7 ==> (s0 / 64) % 2 == 1,
            stored as nat / (divisor as nat) == value,
    {
        if divisor == 4 {
            assert(s0 != 0 && s0 % 2 == 0 && (s0 / 2) % 2 == 1 && stored / 4 == value) by (bit_vector)
                requires
                    s0 < 256,
                    s0 + 256 * hi == stored,
                    stored == value * 4 + 2,
                    value < 0x2_0000_0000_0000,
                    hi < 0x100_0000_0000_0000,
            ;
        } else if divisor == 8 {
            assert(s0 != 0 && s0 % 2 == 0 && (s0 / 2) % 2 == 0 && (s0 / 4) % 2 == 1 && stored / 8
                == value) by (bit_vector)
                requires
                    s0 < 256,
                    s0 + 256 * hi == stored,
                    stored == value * 8 + 4,
                    value < 0x2_0000_0000_0000,
                    hi < 0x100_0000_0000_0000,
            ;
        } else if divisor == 16 {
            assert(s0 != 0 && s0 % 2 == 0 && (s0 / 2) % 2 == 0 && (s0 / 4) % 2 == 0 && (s0 / 8) % 2
                == 1 && stored / 16 == value) by (bit_vector)
                requires
                    s0 < 256,
                    s0 + 256 * hi == stored,
                    stored == value * 16 + 8,
                    value < 0x2_0000_0000_0000,
                    hi < 0x100_0000_0000_0000,
            ;
        } else if divisor == 32 {
            assert(s0 != 0 && s0 % 2 == 0 && (s0 / 2) % 2 == 0 && (s0 / 4) % 2 == 0 && (s0 / 8) % 2
                == 0 && (s0 / 16) % 2 == 1 && stored / 32 == value) by (bit_vector)
                requires
                    s0 < 256,
                    s0 + 256 * hi == stored,
                    stored == value * 32 + 16,
                    value < 0x2_0000_0000_0000,
                    hi < 0x100_0000_0000_0000,
            ;
        } else if divisor == 64 {
            assert(s0 != 0 && s0 % 2 == 0 && (s0 / 2) % 2 == 0 && (s0 / 4) % 2 == 0 && (s0 / 8) % 2
                == 0 && (s0 / 16) % 2 == 0 && (s0 / 32) % 2 == 1 && stored / 64 == value) by (bit_vector)
                requires
                    s0 < 256,
                    s0 + 256 * hi == stored,
                    stored == value * 64 + 32,
                    value < 0x2_0000_0000_0000,
                    hi < 0x100_0000_0000_0000,
            ;
        } else {
            assert(s0 != 0 && s0 % 2 == 0 && (s0 / 2) % 2 == 0 && (s0 / 4) % 2 == 0 && (s0 / 8) % 2
                == 0 && (s0 / 16) % 2 == 0 && (s0 / 32) % 2 == 0 && (s0 / 64) % 2 == 1 && stored
                / 128 == value) by (bit_vector)
                requires
                    s0 < 256,
                    s0 + 256 * hi == stored,
                    stored == value * 128 + 64,
                    value < 0x2_0000_0000_0000,
                    hi < 0x100_0000_0000_0000,
            ;
        }
    }
}

} // verus!
