use vstd::prelude::*;

verus! {

use crate::errors::ParseError;

/// Little-endian value of a byte sequence: the first byte is the least
/// significant one.
pub open spec fn le_val(s: Seq<u8>) -> nat
    decreases s.len(),
{
    if s.len() == 0 {
        0
    } else {
        s[0] as nat + 256 * le_val(s.skip(1))
    }
}

/// `256^n`, the exclusive upper bound of the little-endian value of `n` bytes.
pub open spec fn pow256(n: nat) -> nat
    decreases n,
{
    if n == 0 {
        1
    } else {
        256 * pow256((n - 1) as nat)
    }
}

/// The little-endian value of `n` bytes is below `256^n`.
pub proof fn lemma_le_val_bound(s: Seq<u8>)
    ensures
        le_val(s) < pow256(s.len()),
    decreases s.len(),
{
    if s.len() == 0 {
    } else {
        lemma_le_val_bound(s.skip(1));
        let a = le_val(s.skip(1));
        let p = pow256((s.len() - 1) as nat);
        assert(s[0] as nat + 256 * a < 256 * p) by (nonlinear_arith)
            requires
                a < p,
                s[0] < 256,
        ;
    }
}

/// Appending a byte adds its value scaled by the weight of the new position.
pub proof fn lemma_le_val_push(s: Seq<u8>, c: u8)
    ensures
        le_val(s.push(c)) == le_val(s) + c as nat * pow256(s.len()),
    decreases s.len(),
{
    if s.len() == 0 {
        assert(s.push(c).skip(1) =~= Seq::<u8>::empty());
        assert(s.push(c)[0] == c);
        assert(le_val(Seq::<u8>::empty()) == 0);
        assert(le_val(s) == 0);
        assert(pow256(s.len()) == 1);
    } else {
        assert(s.push(c).skip(1) =~= s.skip(1).push(c));
        assert(s.push(c)[0] == s[0]);
        lemma_le_val_push(s.skip(1), c);
        let a = le_val(s.skip(1));
        let p = pow256((s.len() - 1) as nat);
        assert(le_val(s.push(c)) == s[0] as nat + 256 * (a + c as nat * p));
        assert(le_val(s) == s[0] as nat + 256 * a);
        assert(256 * (a + c as nat * p) == 256 * a + c as nat * (256 * p)) by (nonlinear_arith);
        assert(pow256(s.len()) == 256 * p);
    }
}

/// A read-only cursor over a byte buffer. All parsing primitives consume
/// from the front of `remaining()`.
pub struct Reader<'a> {
    buf: &'a [u8],
    pos: usize,
}

impl<'a> Reader<'a> {
    /// The cursor position never passes the end of the buffer.
    pub closed spec fn wf(self) -> bool {
        self.pos <= self.buf@.len()
    }

    /// The bytes not yet consumed.
    pub closed spec fn remaining(self) -> Seq<u8> {
        self.buf@.skip(self.pos as int)
    }

    /// A cursor at the start of `buf`.
    pub fn new(buf: &'a [u8]) -> (r: Reader<'a>)
        ensures
            r.wf(),
            r.remaining() == buf@,
    {
        let r = Reader { buf, pos: 0 };
        proof {
            assert(r.remaining() =~= buf@);
        }
        r
    }

    /// How many bytes are left to read.
    pub fn remaining_len(&self) -> (n: usize)
        requires
            self.wf(),
        ensures
            n == self.remaining().len(),
    {
        self.buf.len() - self.pos
    }

    /// Consume exactly `n` bytes from the front, or fail with
    /// `TruncatedInput` (leaving the cursor unchanged) when fewer are left.
    pub fn take(&mut self, n: usize) -> (r: Result<&'a [u8], ParseError>)
        requires
            old(self).wf(),
        ensures
            final(self).wf(),
            n <= old(self).remaining().len() ==> {
                &&& r matches Ok(b)
                &&& b@ == old(self).remaining().take(n as int)
                &&& final(self).remaining() == old(self).remaining().skip(n as int)
            },
            n > old(self).remaining().len() ==> {
                &&& r == Err::<&'a [u8], ParseError>(ParseError::TruncatedInput)
                &&& *final(self) == *old(self)
            },
    {
        if n <= self.buf.len() - self.pos {
            let b = vstd::slice::slice_subrange(self.buf, self.pos, self.pos + n);
            proof {
                assert(b@ =~= self.remaining().take(n as int));
                assert(self.buf@.skip((self.pos + n) as int) =~= self.remaining().skip(n as int));
            }
            self.pos = self.pos + n;
            Ok(b)
        } else {
            Err(ParseError::TruncatedInput)
        }
    }

    /// Consume one byte, or fail with `TruncatedInput` when none is left.
    pub fn take_byte(&mut self) -> (r: Result<u8, ParseError>)
        requires
            old(self).wf(),
        ensures
            final(self).wf(),
            old(self).remaining().len() >= 1 ==> {
                &&& r == Ok::<u8, ParseError>(old(self).remaining()[0])
                &&& final(self).remaining() == old(self).remaining().skip(1)
            },
            old(self).remaining().len() == 0 ==> {
                &&& r == Err::<u8, ParseError>(ParseError::TruncatedInput)
                &&& *final(self) == *old(self)
            },
    {
        match self.take(1) {
            Ok(b) => {
                let c = *vstd::slice::slice_index_get(b, 0);
                Ok(c)
            },
            Err(e) => Err(e),
        }
    }
}

/// Assemble the little-endian value of up to eight bytes.
pub fn le_u64_of(bytes: &[u8]) -> (x: u64)
    requires
        bytes@.len() <= 8,
    ensures
        x as nat == le_val(bytes@),
{
    let len = bytes.len();
    let mut x: u64 = 0;
    let mut i: usize = len;
    proof {
        assert(bytes@.skip(len as int) =~= Seq::<u8>::empty());
    }
    while i > 0
        invariant
            i <= len,
            len == bytes@.len() <= 8,
            x as nat == le_val(bytes@.skip(i as int)),
        decreases i,
    {
        proof {
            lemma_le_val_bound(bytes@.skip(i as int));
            lemma_pow256_monotonic((len - i) as nat, 7);
            reveal_with_fuel(pow256, 9);
            assert(bytes@.skip((i - 1) as int)[0] == bytes@[i - 1]);
            assert(bytes@.skip((i - 1) as int).skip(1) =~= bytes@.skip(i as int));
        }
        i = i - 1;
        let b = *vstd::slice::slice_index_get(bytes, i);
        x = x * 256 + (b as u64);
    }
    proof {
        assert(bytes@.skip(0) =~= bytes@);
    }
    x
}

/// `pow256` grows with its argument.
pub proof fn lemma_pow256_monotonic(a: nat, b: nat)
    ensures
        a <= b ==> pow256(a) <= pow256(b),
    decreases b,
{
    if b > 0 && a <= b {
        if a == b {
        } else {
            lemma_pow256_monotonic(a, (b - 1) as nat);
            assert(pow256((b - 1) as nat) <= 256 * pow256((b - 1) as nat)) by (nonlinear_arith)
                requires
                    pow256((b - 1) as nat) >= 0,
            ;
        }
    }
}

/// Write the `width` little-endian bytes of `x`.
pub fn le_bytes_of(x: u64, width: usize) -> (b: Vec<u8>)
    requires
        width <= 8,
        (x as nat) < pow256(width as nat),
    ensures
        b@.len() == width,
        le_val(b@) == x as nat,
{
    let mut b: Vec<u8> = Vec::new();
    let mut cur: u64 = x;
    let mut i: usize = 0;
    proof {
        assert(le_val(b@) == 0);
        assert(pow256(0) == 1);
    }
    while i < width
        invariant
            i <= width,
            b@.len() == i,
            le_val(b@) + cur as nat * pow256(i as nat) == x as nat,
            (cur as nat) < pow256((width - i) as nat),
        decreases width - i,
    {
        let ghost prev_b = b@;
        let ghost prev_cur = cur as nat;
        let c: u8 = (cur % 256) as u8;
        b.push(c);
        cur = cur / 256;
        i = i + 1;
        proof {
            let q = cur as nat;
            let p = pow256((i - 1) as nat);
            vstd::arithmetic::div_mod::lemma_fundamental_div_mod(prev_cur as int, 256);
            lemma_le_val_push(prev_b, c);
            assert((256 * q + c as nat) * p == c as nat * p + q * (256 * p)) by (nonlinear_arith);
            assert(pow256(i as nat) == 256 * p);
            assert(pow256((width - i + 1) as nat) == 256 * pow256((width - i) as nat));
        }
    }
    b
}

} // verus!
