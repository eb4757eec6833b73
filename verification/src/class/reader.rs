use vstd::prelude::*;

use crate::class::error::ClassFormatError;

verus! {

/// Big-endian `u16` stored at `b[p]`, `b[p + 1]`.
pub open spec fn be_u16(b: Seq<u8>, p: int) -> u16 {
    (b[p] as int * 256 + b[p + 1] as int) as u16
}

/// Big-endian `u32` stored at `b[p]` .. `b[p + 3]`.
pub open spec fn be_u32(b: Seq<u8>, p: int) -> u32 {
    (b[p] as int * 16777216 + b[p + 1] as int * 65536 + b[p + 2] as int * 256
        + b[p + 3] as int) as u32
}

/// The big-endian `u16` at `p` is the high byte times 256 plus the low
/// byte.
pub proof fn lemma_be_u16_value(b: Seq<u8>, p: int)
    ensures
        be_u16(b, p) as int == b[p] as int * 256 + b[p + 1] as int,
{
    let v = b[p] as int * 256 + b[p + 1] as int;
    assert(0 <= v < 65536) by (nonlinear_arith)
        requires
            0 <= b[p] < 256,
            0 <= b[p + 1] < 256,
            v == b[p] as int * 256 + b[p + 1] as int,
    ;
}

/// Result of reading from byte offset `p`: the value and the offset after it,
/// or why it could not be read.
pub type PRes<T> = Result<(T, int), ClassFormatError>;

/// The error for wanting `n` bytes at offset `p`.
pub open spec fn eof_at(p: int, n: int) -> ClassFormatError {
    ClassFormatError::UnexpectedEof { position: p as usize, needed: n as usize }
}

/// Whether `n` bytes can be read at offset `p` of `b`.
pub open spec fn has_bytes(b: Seq<u8>, p: int, n: int) -> bool {
    0 <= p && 0 <= n && p + n <= b.len()
}

/// Reading one byte at `p`.
pub open spec fn sp_u8(b: Seq<u8>, p: int) -> PRes<u8> {
    if has_bytes(b, p, 1) {
        Ok((b[p], p + 1))
    } else {
        Err(eof_at(p, 1))
    }
}

/// Reading a big-endian `u16` at `p`.
pub open spec fn sp_u16(b: Seq<u8>, p: int) -> PRes<u16> {
    if has_bytes(b, p, 2) {
        Ok((be_u16(b, p), p + 2))
    } else {
        Err(eof_at(p, 2))
    }
}

/// Reading a big-endian `u32` at `p`.
pub open spec fn sp_u32(b: Seq<u8>, p: int) -> PRes<u32> {
    if has_bytes(b, p, 4) {
        Ok((be_u32(b, p), p + 4))
    } else {
        Err(eof_at(p, 4))
    }
}

/// Reading a `u16` is reading two bytes, the first one the high byte; a
/// `u32` is two `u16`s the same way.
pub proof fn lemma_wide_reads(b: Seq<u8>, p: int)
    ensures
        has_bytes(b, p, 2) ==> sp_u16(b, p) == Ok::<(u16, int), ClassFormatError>(
            (((sp_u8(b, p)->Ok_0.0 as int) * 256 + sp_u8(b, p + 1)->Ok_0.0 as int) as u16, p + 2),
        ),
        has_bytes(b, p, 4) ==> sp_u32(b, p) == Ok::<(u32, int), ClassFormatError>(
            (((sp_u16(b, p)->Ok_0.0 as int) * 65536 + sp_u16(b, p + 2)->Ok_0.0 as int) as u32, p + 4),
        ),
{
    if has_bytes(b, p, 4) {
        let (x0, x1, x2, x3) = (b[p] as int, b[p + 1] as int, b[p + 2] as int, b[p + 3] as int);
        assert(be_u16(b, p) as int == x0 * 256 + x1);
        assert(be_u16(b, p + 2) as int == x2 * 256 + x3);
        assert((x0 * 256 + x1) * 65536 + (x2 * 256 + x3) == x0 * 16777216 + x1 * 65536 + x2 * 256 + x3)
            by (nonlinear_arith);
    }
}

/// Reading `n` raw bytes at `p`.
pub open spec fn sp_bytes(b: Seq<u8>, p: int, n: int) -> PRes<Seq<u8>> {
    if has_bytes(b, p, n) {
        Ok((b.subrange(p, p + n), p + n))
    } else {
        Err(eof_at(p, n))
    }
}

/// Reading `n` items one after another, each with `item`.
pub open spec fn sp_many<T>(
    item: spec_fn(Seq<u8>, int) -> PRes<T>,
    b: Seq<u8>,
    p: int,
    n: nat,
) -> PRes<Seq<T>>
    decreases n,
{
    if n == 0 {
        Ok((Seq::empty(), p))
    } else {
        match sp_many(item, b, p, (n - 1) as nat) {
            Ok((xs, q)) => match item(b, q) {
                Ok((x, r)) => Ok((xs.push(x), r)),
                Err(e) => Err(e),
            },
            Err(e) => Err(e),
        }
    }
}

/// Once reading `k` items fails, reading more fails with the same error.
pub proof fn lemma_many_err_persists<T>(
    item: spec_fn(Seq<u8>, int) -> PRes<T>,
    b: Seq<u8>,
    p: int,
    k: nat,
    m: nat,
)
    requires
        k <= m,
        sp_many(item, b, p, k) is Err,
    ensures
        sp_many(item, b, p, m) == sp_many(item, b, p, k),
    decreases m - k,
{
    if k < m {
        lemma_many_err_persists(item, b, p, k, (m - 1) as nat);
    }
}

/// A cursor over the bytes of a class file.
pub struct ClassReader {
    data: Vec<u8>,
    pos: usize,
}

impl ClassReader {
    #[verifier::type_invariant]
    spec fn inv(self) -> bool {
        self.pos <= self.data.len()
    }

    /// The bytes being read.
    pub closed spec fn bytes(self) -> Seq<u8> {
        self.data@
    }

    /// The offset of the next byte to read.
    pub closed spec fn pos(self) -> int {
        self.pos as int
    }

    /// A reader at the start of `data`.
    pub fn new(data: Vec<u8>) -> (r: Self)
        ensures
            r.bytes() == data@,
            r.pos() == 0,
    {
        Self { data, pos: 0 }
    }

    /// The offset of the next byte to read.
    pub fn position(&self) -> (r: usize)
        ensures
            r == self.pos(),
            r <= self.bytes().len(),
    {
        proof {
            use_type_invariant(self);
        }
        self.pos
    }

    /// The number of bytes left to read.
    pub fn remaining(&self) -> (r: usize)
        ensures
            r == self.bytes().len() - self.pos(),
    {
        proof {
            use_type_invariant(self);
        }
        self.data.len() - self.pos
    }

    /// Skips `len` bytes; fails, without moving, when fewer are left.
    pub fn skip(&mut self, len: usize) -> (r: Result<(), ClassFormatError>)
        ensures
            final(self).bytes() == old(self).bytes(),
            old(self).pos() <= final(self).pos() <= final(self).bytes().len(),
            match sp_bytes(old(self).bytes(), old(self).pos(), len as int) {
                Ok((_, q)) => r is Ok && final(self).pos() == q,
                Err(e) => r == Err::<(), _>(e) && final(self).pos() == old(self).pos(),
            },
    {
        proof {
            use_type_invariant(&*self);
        }
        if len > self.data.len() - self.pos {
            return Err(ClassFormatError::UnexpectedEof { position: self.pos, needed: len });
        }
        self.pos = self.pos + len;
        Ok(())
    }

    /// Reads one byte.
    pub fn read_u8(&mut self) -> (r: Result<u8, ClassFormatError>)
        ensures
            final(self).bytes() == old(self).bytes(),
            old(self).pos() <= final(self).pos() <= final(self).bytes().len(),
            match sp_u8(old(self).bytes(), old(self).pos()) {
                Ok((v, q)) => r == Ok::<u8, ClassFormatError>(v) && final(self).pos() == q,
                Err(e) => r == Err::<u8, _>(e) && final(self).pos() == old(self).pos(),
            },
    {
        proof {
            use_type_invariant(&*self);
        }
        if self.data.len() - self.pos < 1 {
            return Err(ClassFormatError::UnexpectedEof { position: self.pos, needed: 1 });
        }
        let v = self.data[self.pos];
        self.pos = self.pos + 1;
        Ok(v)
    }

    /// Reads a big-endian `u16`.
    pub fn read_u16(&mut self) -> (r: Result<u16, ClassFormatError>)
        ensures
            final(self).bytes() == old(self).bytes(),
            old(self).pos() <= final(self).pos() <= final(self).bytes().len(),
            match sp_u16(old(self).bytes(), old(self).pos()) {
                Ok((v, q)) => r == Ok::<u16, ClassFormatError>(v) && final(self).pos() == q,
                Err(e) => r == Err::<u16, _>(e) && final(self).pos() == old(self).pos(),
            },
    {
        proof {
            use_type_invariant(&*self);
        }
        if self.data.len() - self.pos < 2 {
            return Err(ClassFormatError::UnexpectedEof { position: self.pos, needed: 2 });
        }
        let b0 = self.data[self.pos] as u16;
        let b1 = self.data[self.pos + 1] as u16;
        self.pos = self.pos + 2;
        Ok(b0 * 256 + b1)
    }

    /// Reads a big-endian `u32`.
    pub fn read_u32(&mut self) -> (r: Result<u32, ClassFormatError>)
        ensures
            final(self).bytes() == old(self).bytes(),
            old(self).pos() <= final(self).pos() <= final(self).bytes().len(),
            match sp_u32(old(self).bytes(), old(self).pos()) {
                Ok((v, q)) => r == Ok::<u32, ClassFormatError>(v) && final(self).pos() == q,
                Err(e) => r == Err::<u32, _>(e) && final(self).pos() == old(self).pos(),
            },
    {
        proof {
            use_type_invariant(&*self);
        }
        if self.data.len() - self.pos < 4 {
            return Err(ClassFormatError::UnexpectedEof { position: self.pos, needed: 4 });
        }
        let p = self.pos;
        let b0 = self.data[p] as u32;
        let b1 = self.data[p + 1] as u32;
        let b2 = self.data[p + 2] as u32;
        let b3 = self.data[p + 3] as u32;
        self.pos = p + 4;
        Ok(b0 * 16777216 + b1 * 65536 + b2 * 256 + b3)
    }

    /// Reads `len` raw bytes.
    pub fn read_bytes(&mut self, len: usize) -> (r: Result<Vec<u8>, ClassFormatError>)
        ensures
            final(self).bytes() == old(self).bytes(),
            old(self).pos() <= final(self).pos() <= final(self).bytes().len(),
            match sp_bytes(old(self).bytes(), old(self).pos(), len as int) {
                Ok((v, q)) => r is Ok && r->Ok_0@ == v && final(self).pos() == q,
                Err(e) => r == Err::<Vec<u8>, _>(e) && final(self).pos() == old(self).pos(),
            },
    {
        proof {
            use_type_invariant(&*self);
        }
        if len > self.data.len() - self.pos {
            return Err(ClassFormatError::UnexpectedEof { position: self.pos, needed: len });
        }
        let start = self.pos;
        let mut out: Vec<u8> = Vec::new();
        let mut i: usize = 0;
        while i < len
            invariant
                start + len <= self.data.len(),
                i <= len,
                out@ == self.data@.subrange(start as int, start + i),
            decreases len - i,
        {
            out.push(self.data[start + i]);
            i = i + 1;
        }
        self.pos = start + len;
        Ok(out)
    }
}

} // verus!
