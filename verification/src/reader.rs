use crate::error::DecodeError;
use crate::layout::{bytes_at, i32_at, i32_if, short, u32_at, u64_at};
use crate::le::{take_i32, take_u32, take_u64};
use vstd::prelude::*;
use vstd::slice::slice_subrange;

verus! {

/// A byte source with a cursor: the whole file in memory, and the position
/// of the next read. The cursor may stand behind the last byte; a read there
/// fails.
pub struct ByteReader<'a> {
    data: &'a [u8],
    pos: usize,
}

impl<'a> ByteReader<'a> {
    /// The bytes of the source, from its start.
    pub closed spec fn bytes(&self) -> Seq<u8> {
        self.data@
    }

    /// The position of the next read, counted from the start of the source.
    pub closed spec fn pos(&self) -> int {
        self.pos as int
    }

    /// A reader at the start of `data`.
    pub fn new(data: &'a [u8]) -> (r: Self)
        ensures
            r.bytes() == data@,
            r.pos() == 0,
    {
        ByteReader { data, pos: 0 }
    }

    /// The position of the next read.
    pub fn position(&self) -> (p: usize)
        ensures
            p == self.pos(),
    {
        self.pos
    }

    /// The length of the source.
    pub fn len(&self) -> (n: usize)
        ensures
            n == self.bytes().len(),
    {
        self.data.len()
    }

    /// Moves the cursor to `offset`, which may lie behind the last byte.
    pub fn seek(&mut self, offset: usize)
        ensures
            final(self).bytes() == old(self).bytes(),
            final(self).pos() == offset,
    {
        self.pos = offset;
    }

    /// The bytes from the cursor on; none where the cursor stands behind the
    /// last byte.
    fn rest(&self) -> (out: &'a [u8])
        ensures
            self.pos() <= self.bytes().len() ==> out@ == self.bytes().subrange(
                self.pos(),
                self.bytes().len() as int,
            ),
            self.pos() > self.bytes().len() ==> out@.len() == 0,
    {
        let len = self.data.len();
        if self.pos <= len {
            slice_subrange(self.data, self.pos, len)
        } else {
            slice_subrange(self.data, len, len)
        }
    }

    /// The failure of a read of `needed` bytes at the cursor.
    fn truncated(&self, needed: usize) -> (e: DecodeError)
        ensures
            e == short(self.bytes(), self.pos(), needed as int),
    {
        let len = self.data.len();
        DecodeError::Truncated {
            offset: self.pos,
            needed,
            available: if self.pos <= len {
                len - self.pos
            } else {
                0
            },
        }
    }

    /// Reads an unsigned 32-bit integer, least significant byte first.
    pub fn read_u32(&mut self) -> (result: Result<u32, DecodeError>)
        ensures
            final(self).bytes() == old(self).bytes(),
            match u32_at(old(self).bytes(), Ok(old(self).pos())) {
                Ok((v, q)) => result == Ok::<u32, DecodeError>(v) && final(self).pos() == q,
                Err(e) => result == Err::<u32, DecodeError>(e) && final(self).pos() == old(
                    self,
                ).pos(),
            },
    {
        let rest = self.rest();
        match take_u32(rest) {
            Some(v) => {
                proof {
                    let s = self.bytes();
                    let p = self.pos();
                    assert(s.subrange(p, p + 4) =~= rest@.subrange(0, 4));
                }
                let len = self.data.len();
                assert(self.pos + 4 <= len);
                self.pos = self.pos + 4;
                Ok(v)
            },
            None => Err(self.truncated(4)),
        }
    }

    /// Reads a signed 32-bit integer, least significant byte first.
    pub fn read_i32(&mut self) -> (result: Result<i32, DecodeError>)
        ensures
            final(self).bytes() == old(self).bytes(),
            match i32_at(old(self).bytes(), Ok(old(self).pos())) {
                Ok((v, q)) => result == Ok::<i32, DecodeError>(v) && final(self).pos() == q,
                Err(e) => result == Err::<i32, DecodeError>(e) && final(self).pos() == old(
                    self,
                ).pos(),
            },
    {
        let rest = self.rest();
        match take_i32(rest) {
            Some(v) => {
                proof {
                    let s = self.bytes();
                    let p = self.pos();
                    assert(s.subrange(p, p + 4) =~= rest@.subrange(0, 4));
                }
                let len = self.data.len();
                assert(self.pos + 4 <= len);
                self.pos = self.pos + 4;
                Ok(v)
            },
            None => Err(self.truncated(4)),
        }
    }

    /// Reads an unsigned 64-bit integer, least significant byte first.
    pub fn read_u64(&mut self) -> (result: Result<u64, DecodeError>)
        ensures
            final(self).bytes() == old(self).bytes(),
            match u64_at(old(self).bytes(), Ok(old(self).pos())) {
                Ok((v, q)) => result == Ok::<u64, DecodeError>(v) && final(self).pos() == q,
                Err(e) => result == Err::<u64, DecodeError>(e) && final(self).pos() == old(
                    self,
                ).pos(),
            },
    {
        let rest = self.rest();
        match take_u64(rest) {
            Some(v) => {
                proof {
                    let s = self.bytes();
                    let p = self.pos();
                    assert(s.subrange(p, p + 8) =~= rest@.subrange(0, 8));
                    assert(s.subrange(p, p + 8).subrange(4, 8) =~= rest@.subrange(4, 8));
                }
                let len = self.data.len();
                assert(self.pos + 8 <= len);
                self.pos = self.pos + 8;
                Ok(v)
            },
            None => Err(self.truncated(8)),
        }
    }

    /// Reads a signed 32-bit integer where the file holds the field, and
    /// reads nothing and gives zero where it does not.
    pub fn read_i32_if(&mut self, present: bool) -> (result: Result<i32, DecodeError>)
        ensures
            final(self).bytes() == old(self).bytes(),
            match i32_if(present, old(self).bytes(), Ok(old(self).pos())) {
                Ok((v, q)) => result == Ok::<i32, DecodeError>(v) && final(self).pos() == q,
                Err(e) => result == Err::<i32, DecodeError>(e) && final(self).pos() == old(
                    self,
                ).pos(),
            },
    {
        if present {
            self.read_i32()
        } else {
            Ok(0)
        }
    }

    /// Reads the next `n` bytes.
    pub fn read_exact(&mut self, n: usize) -> (result: Result<Vec<u8>, DecodeError>)
        ensures
            final(self).bytes() == old(self).bytes(),
            match bytes_at(old(self).bytes(), Ok(old(self).pos()), n as int) {
                Ok((b, q)) => result is Ok && result->Ok_0@ == b && final(self).pos() == q,
                Err(e) => result == Err::<Vec<u8>, DecodeError>(e) && final(self).pos() == old(
                    self,
                ).pos(),
            },
    {
        let len = self.data.len();
        if self.pos > len || len - self.pos < n {
            return Err(self.truncated(n));
        }
        let start = self.pos;
        let mut out: Vec<u8> = Vec::new();
        let mut i: usize = 0;
        while i < n
            invariant
                i <= n,
                start + n <= len,
                len == self.data@.len(),
                out@ == self.data@.subrange(start as int, start + i),
            decreases n - i,
        {
            out.push(self.data[start + i]);
            i = i + 1;
            assert(out@ =~= self.data@.subrange(start as int, start + i));
        }
        self.pos = start + n;
        Ok(out)
    }

    /// Reads a 16-byte identity.
    pub fn read_guid(&mut self) -> (result: Result<[u8; 16], DecodeError>)
        ensures
            final(self).bytes() == old(self).bytes(),
            match bytes_at(old(self).bytes(), Ok(old(self).pos()), 16) {
                Ok((b, q)) => result is Ok && result->Ok_0@ == b && final(self).pos() == q,
                Err(e) => result == Err::<[u8; 16], DecodeError>(e) && final(self).pos() == old(
                    self,
                ).pos(),
            },
    {
        let len = self.data.len();
        if self.pos > len || len - self.pos < 16 {
            return Err(self.truncated(16));
        }
        let start = self.pos;
        let mut out: [u8; 16] = [0u8; 16];
        let mut i: usize = 0;
        while i < 16
            invariant
                i <= 16,
                start + 16 <= len,
                len == self.data@.len(),
                forall|k: int| 0 <= k < i ==> out@[k] == self.data@[start + k],
            decreases 16 - i,
        {
            out[i] = self.data[start + i];
            i = i + 1;
        }
        assert(out@ =~= self.data@.subrange(start as int, start + 16));
        self.pos = start + 16;
        Ok(out)
    }

    /// Reads everything from the cursor to the end of the source.
    pub fn read_to_end(&mut self) -> (out: Vec<u8>)
        ensures
            final(self).bytes() == old(self).bytes(),
            old(self).pos() <= old(self).bytes().len() ==> out@ == old(self).bytes().subrange(
                old(self).pos(),
                old(self).bytes().len() as int,
            ) && final(self).pos() == old(self).bytes().len(),
            old(self).pos() > old(self).bytes().len() ==> out@.len() == 0 && final(self).pos()
                == old(self).pos(),
    {
        let len = self.data.len();
        if self.pos > len {
            return Vec::new();
        }
        match self.read_exact(len - self.pos) {
            Ok(out) => out,
            Err(_) => Vec::new(),
        }
    }
}

} // verus!
