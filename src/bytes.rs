use crate::error::ScanError;
use vstd::prelude::*;

verus! {

/// Order of the bytes of every multi-byte integer field of a container.
#[derive(Clone, Copy, Debug, PartialEq, Eq, Structural)]
pub enum ByteOrder {
    Little,
    Big,
}

/// The 32-bit big-endian integer stored at `s[p..p + 4]`.
pub open spec fn be32(s: Seq<u8>, p: int) -> int {
    s[p] as int * 16777216 + s[p + 1] as int * 65536 + s[p + 2] as int * 256 + s[p + 3] as int
}

/// The 32-bit little-endian integer stored at `s[p..p + 4]`.
pub open spec fn le32(s: Seq<u8>, p: int) -> int {
    s[p + 3] as int * 16777216 + s[p + 2] as int * 65536 + s[p + 1] as int * 256 + s[p] as int
}

/// The 32-bit integer stored at `s[p..p + 4]` in the given order.
pub open spec fn u32_in(s: Seq<u8>, p: int, order: ByteOrder) -> int {
    match order {
        ByteOrder::Big => be32(s, p),
        ByteOrder::Little => le32(s, p),
    }
}

/// The 64-bit integer stored at `s[p..p + 8]` in the given order.
pub open spec fn u64_in(s: Seq<u8>, p: int, order: ByteOrder) -> int {
    match order {
        ByteOrder::Big => be32(s, p) * 4294967296 + be32(s, p + 4),
        ByteOrder::Little => le32(s, p + 4) * 4294967296 + le32(s, p),
    }
}

/// A bounds-checked reader over an immutable byte buffer.
///
/// A failed read leaves the position where it was; a successful one moves it
/// past the bytes read.
pub struct Cursor<'a> {
    bytes: &'a [u8],
    pos: usize,
}

impl<'a> Cursor<'a> {
    /// The bytes under the cursor.
    pub closed spec fn data(&self) -> Seq<u8> {
        self.bytes@
    }

    /// The offset of the next read.
    pub closed spec fn pos(&self) -> int {
        self.pos as int
    }

    pub open spec fn wf(&self) -> bool {
        0 <= self.pos() <= self.data().len()
    }

    /// A cursor at the start of `bytes`.
    pub fn new(bytes: &'a [u8]) -> (c: Self)
        ensures
            c.data() == bytes@,
            c.pos() == 0,
            c.wf(),
    {
        Cursor { bytes, pos: 0 }
    }

    /// The offset of the next read.
    pub fn position(&self) -> (r: usize)
        ensures
            r == self.pos(),
    {
        self.pos
    }

    /// How many bytes are left after the position.
    pub fn remaining(&self) -> (r: usize)
        requires
            self.wf(),
        ensures
            r == self.data().len() - self.pos(),
    {
        self.bytes.len() - self.pos
    }

    /// Moves to offset `pos` of the buffer, which may be its end.
    pub fn seek(&mut self, pos: usize) -> (r: Result<(), ScanError>)
        requires
            old(self).wf(),
        ensures
            final(self).wf(),
            final(self).data() == old(self).data(),
            pos <= old(self).data().len() ==> r is Ok && final(self).pos() == pos,
            pos > old(self).data().len() ==> r == Err::<(), ScanError>(ScanError::Truncated)
                && final(self).pos() == old(self).pos(),
    {
        if pos > self.bytes.len() {
            return Err(ScanError::Truncated);
        }
        self.pos = pos;
        Ok(())
    }

    /// Moves `n` bytes on.
    pub fn skip(&mut self, n: usize) -> (r: Result<(), ScanError>)
        requires
            old(self).wf(),
        ensures
            final(self).wf(),
            final(self).data() == old(self).data(),
            old(self).pos() + n <= old(self).data().len() ==> r is Ok && final(self).pos()
                == old(self).pos() + n,
            old(self).pos() + n > old(self).data().len() ==> r == Err::<(), ScanError>(
                ScanError::Truncated,
            ) && final(self).pos() == old(self).pos(),
    {
        if n > self.bytes.len() - self.pos {
            return Err(ScanError::Truncated);
        }
        self.pos = self.pos + n;
        Ok(())
    }

    /// Reads the next `n` bytes.
    pub fn read_bytes(&mut self, n: usize) -> (r: Result<&'a [u8], ScanError>)
        requires
            old(self).wf(),
        ensures
            final(self).wf(),
            final(self).data() == old(self).data(),
            old(self).pos() + n <= old(self).data().len() ==> r is Ok && r->Ok_0@ == old(
                self,
            ).data().subrange(old(self).pos(), old(self).pos() + n) && final(self).pos() == old(
                self,
            ).pos() + n,
            old(self).pos() + n > old(self).data().len() ==> r is Err && r->Err_0
                == ScanError::Truncated && final(self).pos() == old(self).pos(),
    {
        if n > self.bytes.len() - self.pos {
            return Err(ScanError::Truncated);
        }
        let out = &self.bytes[self.pos..self.pos + n];
        self.pos = self.pos + n;
        Ok(out)
    }

    /// Reads the next 32-bit integer, stored in the given order.
    pub fn read_u32(&mut self, order: ByteOrder) -> (r: Result<u32, ScanError>)
        requires
            old(self).wf(),
        ensures
            final(self).wf(),
            final(self).data() == old(self).data(),
            old(self).pos() + 4 <= old(self).data().len() ==> r is Ok && r->Ok_0 == u32_in(
                old(self).data(),
                old(self).pos(),
                order,
            ) && final(self).pos() == old(self).pos() + 4,
            old(self).pos() + 4 > old(self).data().len() ==> r is Err && r->Err_0
                == ScanError::Truncated && final(self).pos() == old(self).pos(),
    {
        if self.bytes.len() - self.pos < 4 {
            return Err(ScanError::Truncated);
        }
        let p = self.pos;
        let b0 = self.bytes[p] as u32;
        let b1 = self.bytes[p + 1] as u32;
        let b2 = self.bytes[p + 2] as u32;
        let b3 = self.bytes[p + 3] as u32;
        self.pos = p + 4;
        let v = match order {
            ByteOrder::Big => b0 * 16777216 + b1 * 65536 + b2 * 256 + b3,
            ByteOrder::Little => b3 * 16777216 + b2 * 65536 + b1 * 256 + b0,
        };
        Ok(v)
    }

    /// Reads the next 64-bit integer, stored in the given order.
    pub fn read_u64(&mut self, order: ByteOrder) -> (r: Result<u64, ScanError>)
        requires
            old(self).wf(),
        ensures
            final(self).wf(),
            final(self).data() == old(self).data(),
            old(self).pos() + 8 <= old(self).data().len() ==> r is Ok && r->Ok_0 == u64_in(
                old(self).data(),
                old(self).pos(),
                order,
            ) && final(self).pos() == old(self).pos() + 8,
            old(self).pos() + 8 > old(self).data().len() ==> r is Err && r->Err_0
                == ScanError::Truncated && final(self).pos() == old(self).pos(),
    {
        if self.bytes.len() - self.pos < 8 {
            return Err(ScanError::Truncated);
        }
        let first = self.read_u32(order);
        let second = self.read_u32(order);
        match (first, second) {
            (Ok(a), Ok(b)) => {
                let (hi, lo) = match order {
                    ByteOrder::Big => (a as u64, b as u64),
                    ByteOrder::Little => (b as u64, a as u64),
                };
                assert(hi * 4294967296 + lo <= u64::MAX) by (nonlinear_arith)
                    requires
                        hi <= u32::MAX,
                        lo <= u32::MAX,
                ;
                Ok(hi * 4294967296 + lo)
            },
            _ => Err(ScanError::Truncated),
        }
    }
}

} // verus!
